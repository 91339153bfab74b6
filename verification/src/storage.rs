//! Pluggable heap storage: the capability contract heap-resident string data
//! must satisfy, and the three standard backends (single-owner refcounted,
//! atomic refcounted, exclusive owning).
#![allow(unused_imports)]

use std::rc::Rc;
use std::sync::Arc;
use vstd::prelude::*;
use vstd::string::StringExecFns;

verus! {

/// Capability contract for heap-resident string storage: construct from
/// borrowed or owned data, clone, and view as a string slice. The core
/// representation never inspects which backend is active beyond calling
/// these operations.
pub trait Storage: Sized {
    /// The characters held by this storage handle.
    spec fn contents(&self) -> Seq<char>;

    /// Copies borrowed data into fresh heap storage.
    fn from_borrowed(s: &str) -> (r: Self)
        ensures
            r.contents() == s@,
    ;

    /// Takes over an already-owned string.
    fn from_owned(s: String) -> (r: Self)
        ensures
            r.contents() == s@,
    ;

    /// Duplicates the handle; the copy holds observably equal contents.
    /// How much work this costs is the backend's choice: a reference-count
    /// bump for the refcounted backends, a full copy for the owning one.
    fn clone_storage(&self) -> (r: Self)
        ensures
            r.contents() == self.contents(),
    ;

    /// Presents the stored characters as a string slice.
    fn as_str(&self) -> (r: &str)
        ensures
            r@ == self.contents(),
    ;
}

/// Single-owner reference-counted backend: clone is a count bump; values are
/// not safely shareable across threads.
#[derive(Debug)]
pub struct LocalStorage {
    handle: Rc<String>,
}

impl Storage for LocalStorage {
    closed spec fn contents(&self) -> Seq<char> {
        self.handle@
    }

    fn from_borrowed(s: &str) -> (r: Self) {
        LocalStorage { handle: Rc::new(String::from_str(s)) }
    }

    fn from_owned(s: String) -> (r: Self) {
        LocalStorage { handle: Rc::new(s) }
    }

    fn clone_storage(&self) -> (r: Self) {
        LocalStorage { handle: self.handle.clone() }
    }

    fn as_str(&self) -> (r: &str) {
        self.handle.as_str()
    }
}

/// Atomic reference-counted backend: clone is a count bump; values may be
/// shared across threads.
#[derive(Debug)]
pub struct SharedStorage {
    handle: Arc<String>,
}

impl Storage for SharedStorage {
    closed spec fn contents(&self) -> Seq<char> {
        self.handle@
    }

    fn from_borrowed(s: &str) -> (r: Self) {
        SharedStorage { handle: Arc::new(String::from_str(s)) }
    }

    fn from_owned(s: String) -> (r: Self) {
        SharedStorage { handle: Arc::new(s) }
    }

    fn clone_storage(&self) -> (r: Self) {
        SharedStorage { handle: self.handle.clone() }
    }

    fn as_str(&self) -> (r: &str) {
        self.handle.as_str()
    }
}

/// Exclusive owning backend: no sharing; clone duplicates the whole string.
/// The owned string is boxed so that this handle, like the refcounted ones,
/// stays within a single machine word and the enclosing value keeps its
/// fixed footprint.
#[derive(Debug)]
pub struct OwnedStorage {
    handle: Box<String>,
}

impl Storage for OwnedStorage {
    closed spec fn contents(&self) -> Seq<char> {
        self.handle@
    }

    fn from_borrowed(s: &str) -> (r: Self) {
        OwnedStorage { handle: Box::new(String::from_str(s)) }
    }

    fn from_owned(s: String) -> (r: Self) {
        OwnedStorage { handle: Box::new(s) }
    }

    fn clone_storage(&self) -> (r: Self) {
        OwnedStorage { handle: Box::new((*self.handle).clone()) }
    }

    fn as_str(&self) -> (r: &str) {
        self.handle.as_str()
    }
}

} // verus!
