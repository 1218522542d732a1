use vstd::prelude::*;

pub mod channel;
pub mod json;
pub mod reply;
pub mod request;
pub mod server;

verus! {

} // verus!
