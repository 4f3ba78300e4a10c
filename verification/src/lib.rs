//! grarr: the git smart-HTTP protocol core and request logic of a
//! self-hosted git repository browser, with its behaviour stated and proved.
use vstd::prelude::*;

pub mod bytes;
pub mod pkt_line;
pub mod text;
pub mod capability;
pub mod multiplexer;
pub mod oid;
pub mod refs;
pub mod upload_pack;
pub mod negotiation;
pub mod smart_http;
pub mod paths;
pub mod statics;
pub mod handler;
pub mod config;
pub mod commit_tree;
pub mod avatars;
pub mod caching;

verus! {

} // verus!
