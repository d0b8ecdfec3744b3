//! Discovery, selection and verification of cloud images published on
//! HTTP directory listings.

pub mod checksums;
pub mod cloud_image;
pub mod digest;
pub mod download;
pub mod image_history;
pub mod image_list;
pub mod listing;
pub mod pattern;
pub mod proxy;
pub mod selector;
pub mod settings;
pub mod text;
pub mod timestamp;
pub mod website;

use vstd::prelude::*;

verus! {

/// Number of requests made at a time to one site, of sites searched at a
/// time and of downloads made at a time, unless the caller asks for
/// another number.
pub const CONCURRENT_REQUESTS: usize = 4;

/// The `User-Agent` that every request carries: `cid/` and the program's
/// version.
pub fn user_agent(version: &str) -> (r: String)
    ensures
        r@ == "cid/"@ + version@,
{
    crate::text::concat2("cid/", version)
}

} // verus!
