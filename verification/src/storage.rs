//! The object store: opaque bytes kept under relative paths, stale once
//! they are older than a window.

pub mod filesystem;
pub mod path;
pub mod stream;

use crate::span::Span;
use vstd::prelude::*;

verus! {

/// Why the store did not serve a request.
#[derive(Debug)]
pub enum StorageError {
    /// No object is stored at the path.
    NotFound,
    /// An object is stored at the path, but it is older than the window of
    /// the request allows. The age of the object is given.
    ObjectTooOld(Span),
    /// The backend failed. What it reported is given.
    Io(String),
}

impl StorageError {
    /// Whether the request can be served after all by fetching the object
    /// from its upstream and storing it: so it is when the object is missing
    /// or too old, and not when the backend failed.
    pub fn is_miss(&self) -> (miss: bool)
        ensures
            miss == (self is NotFound || self is ObjectTooOld),
    {
        match self {
            StorageError::NotFound => true,
            StorageError::ObjectTooOld(_) => true,
            StorageError::Io(_) => false,
        }
    }
}

} // verus!
