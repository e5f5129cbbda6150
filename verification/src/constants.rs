//! Fixed settings of the service.
use vstd::prelude::*;

verus! {

/// Page size used when a listing request does not give one.
pub const DEFAULT_PAGE_SIZE: i32 = 50;

/// Where pictures taken out of spreadsheets are stored.
pub const STORAGE_FILE_PATH: &'static str = "/home/debian/data/file/";

/// Public address under which the stored pictures are served.
pub const STORAGE_URL_PREFIX: &'static str = "https://erp.ligulfzhou.com/file/";

/// The index of a progress mark that completes its step.
pub const DONE_INDEX: i32 = 2;

} // verus!
