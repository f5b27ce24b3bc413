//! Verified core of a log shipper: a small expression language, the wire
//! codecs, and the decisions of its command line.
pub mod cli;
pub mod codec;
pub mod dict;
pub mod double;
pub mod error;
pub mod event;
pub mod event_laws;
pub mod interchange;
pub mod json;
pub mod moment;
pub mod script;
pub mod text;
pub mod whole;

use vstd::prelude::*;

verus! {

} // verus!
