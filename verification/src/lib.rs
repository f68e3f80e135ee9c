//! Home dashboards: a customizable, constantly-updating page of widgets.
//!
//! A dashboard is a named grid of widgets. Each widget has a kind, which says how it is
//! drawn, a source, which says where its live data comes from, a layout and a refresh
//! interval. This library holds the rules: the store and its events, which sources may be
//! called and what their answers mean, which widgets a refresh pass resolves, what every
//! request answers and changes, and how a dashboard becomes the image of a hardware panel.

pub mod access;
pub mod api;
pub mod clock;
pub mod device;
pub mod json;
pub mod laws;
pub mod model;
pub mod panel;
pub mod raster;
pub mod refresh;
pub mod render;
pub mod replace;
pub mod sources;
pub mod store;
pub mod table;
pub mod text;
pub mod typeset;

pub use model::{
    CanvasLayout, Dashboard, DashboardEvent, DeviceDashboard, GridLayout, Widget, WidgetKind,
    WidgetSource, CANVAS_CELL,
};
pub use replace::replace_widgets;
pub use sources::CORE_ENDPOINT_NAMES;
