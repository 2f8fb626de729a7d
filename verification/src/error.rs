//! The errors a request can end in.

use vstd::prelude::*;

verus! {

pub enum AppError {
    /// The request itself is at fault; the text is shown to the caller.
    BadRequest(String),
    /// No valid session, or no valid internal key.
    Unauthorized,
    /// Discord failed or answered something unusable.
    Internal(String),
    /// The database failed.
    Database(String),
}

} // verus!
