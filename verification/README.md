# ryu_dashboards

Home dashboards: a customizable, constantly-updating page of widgets, which also drives the
panels of hardware devices. The library holds the rules, proved with Verus; the program around
it does the talking to disk, network and clients.

## The library

| Module    | What it holds |
|-----------|---------------|
| `model`   | dashboards, widgets, sources, layouts, events, refresh intervals |
| `table`   | tables with a primary key, in the order of insertion or of creation |
| `store`   | the tables of dashboards, widgets and device bindings, and their events |
| `sources` | which call a source makes, and what the answer means |
| `refresh` | which widgets a pass of the refresh loop resolves |
| `replace` | replacing the whole set of a dashboard's widgets |
| `device`  | panels, bindings and settings of devices |
| `api`     | what each request answers, and what it changes |
| `panel`   | the SVG picture of a dashboard on a panel |
| `typeset` | escaping, truncating, wrapping, display text |
| `raster`  | rotation, one-bit packing, RGB565, PNG, content hashes |
| `render`  | from a dashboard to the image that a device shows |
| `access`  | who may call, and where the service listens |
| `json`, `text`, `clock` | values, characters, time stamps and identifiers |

Contracts speak of views: a store is the sequences of its rows, a value is a tree whose objects
are maps, a text is a sequence of characters. Functions named `law_...` state what holds across
calls. A function whose outcome depends on the clock or on chance has a twin, named `..._at` or
`..._as`, that takes the time or the identifier as an argument.

## The program

`app/` is the service: HTTP routes, the tables on disk, the calls that sources make, the refresh
loop, and the floating-point geometry of a panel.
