//! Event and cross-session messaging primitives with verified routing rules.
use vstd::prelude::*;

pub mod channel;
pub mod clock;
pub mod error;
pub mod ids;
pub mod json;
pub mod messaging;
pub mod nats;
pub mod pattern;
pub mod strmap;
pub mod types;

verus! {

} // verus!
