//! A small CAN-bus responder library: it validates textual configuration into
//! a fixed-size frame descriptor and decides, per poll cycle, whether to burst
//! a preconfigured response frame.

pub mod ensure_result;
pub mod settings;
pub mod trigger;
