//! What holds of the library's operations as a whole, in terms of what goes in and what comes
//! out.

pub mod access;
pub mod devices;
pub mod drawing;
pub mod encoding;
pub mod modelling;
pub mod refreshing;
pub mod replacing;
pub mod requests;
pub mod resolving;
pub mod storing;
pub mod texts;
pub mod typesetting;
