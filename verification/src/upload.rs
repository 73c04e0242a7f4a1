//! The size accounting of a file upload: how large a request may be, how
//! large one uploaded file may grow, and the per-chunk decision that
//! enforces the latter while the file streams in.

use vstd::prelude::*;

verus! {

/// The largest request body accepted.
pub const MAX_REQUEST_SIZE: usize = 20 * 1024 * 1024;

/// The largest single uploaded file accepted.
pub const MAX_UPLOAD_SIZE: u64 = 10 * 1024 * 1024;

/// Account one incoming chunk against the upload limit: the new running
/// total when the file still fits, `None` the moment it exceeds
/// `MAX_UPLOAD_SIZE`.
pub fn accept_chunk(total: u64, chunk_len: u64) -> (r: Option<u64>)
    requires
        total <= MAX_UPLOAD_SIZE,
    ensures
        total + chunk_len > MAX_UPLOAD_SIZE ==> r is None,
        total + chunk_len <= MAX_UPLOAD_SIZE ==> r == Some((total + chunk_len) as u64),
{
    if chunk_len > MAX_UPLOAD_SIZE - total {
        None
    } else {
        Some(total + chunk_len)
    }
}

} // verus!
