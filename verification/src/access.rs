//! The settings that the service starts with, and who may call its routes.

use vstd::prelude::*;

use crate::text::{
    blank, opt_str, opt_text, parse_unsigned, same_text, trim, trimmed, unsigned_value,
};

verus! {

/// The loopback port of a service that was told no other.
pub const DEFAULT_PORT: u16 = 7997;

/// The port that the environment names, or the default one when it names none that can be
/// read.
pub open spec fn port_of(env: Option<Seq<char>>) -> u16 {
    match env {
        Some(s) => match unsigned_value(trimmed(s), u16::MAX as nat) {
            Some(n) => n as u16,
            None => DEFAULT_PORT,
        },
        None => DEFAULT_PORT,
    }
}

/// The port to listen on.
pub fn listen_port(env: Option<&str>) -> (r: u16)
    ensures
        r == port_of(opt_str(env)),
{
    match env {
        Some(s) => match parse_unsigned(trim(s).as_str(), u16::MAX as u64) {
            Some(n) => n as u16,
            None => DEFAULT_PORT,
        },
        None => DEFAULT_PORT,
    }
}

/// The shared secret that the environment holds, trimmed, unless it is blank.
pub open spec fn token_of(env: Option<Seq<char>>) -> Option<Seq<char>> {
    match env {
        Some(s) if !blank(s) => Some(trimmed(s)),
        _ => None,
    }
}

/// The shared secret that every request must present.
pub fn ext_token(env: Option<&str>) -> (r: Option<String>)
    ensures
        opt_text(r) == token_of(opt_str(env)),
{
    match env {
        Some(s) => {
            let t = trim(s);
            if t.as_str().is_empty() {
                None
            } else {
                Some(t)
            }
        },
        None => None,
    }
}

/// Whether a request is let through: there is a secret, and the request's `Authorization`
/// is a bearer of it.
pub open spec fn passes(header: Option<Seq<char>>, expected: Option<Seq<char>>) -> bool {
    match (header, expected) {
        (Some(h), Some(secret)) => secret.len() > 0 && h == "Bearer "@ + secret,
        _ => false,
    }
}

/// Whether a request is let through. Without a secret none is.
pub fn admits(header: Option<&str>, expected: &Option<String>) -> (r: bool)
    ensures
        r == passes(opt_str(header), opt_text(*expected)),
{
    match (header, expected) {
        (Some(h), Some(secret)) => {
            if secret.as_str().is_empty() {
                return false;
            }
            let mut bearer = "Bearer ".to_owned();
            bearer.append(secret.as_str());
            same_text(h, bearer.as_str())
        },
        _ => false,
    }
}

/// Access fails closed: without a secret, with an empty one, or without a header, every
/// request is rejected.
pub proof fn law_access_fails_closed(header: Option<Seq<char>>, expected: Option<Seq<char>>)
    ensures
        expected is None ==> !passes(header, expected),
        expected == Some(Seq::<char>::empty()) ==> !passes(header, expected),
        header is None ==> !passes(header, expected),
{
}

/// Only one secret passes with a given header.
pub proof fn law_only_the_secret_passes(h: Seq<char>, a: Seq<char>, b: Seq<char>)
    requires
        passes(Some(h), Some(a)),
        passes(Some(h), Some(b)),
    ensures
        a == b,
{
    let head = "Bearer "@;
    assert((head + a).skip(head.len() as int) =~= a);
    assert((head + b).skip(head.len() as int) =~= b);
}

} // verus!
