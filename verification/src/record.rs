//! The record and the two operations on its handle.
//!
//! A record borrows its name from the caller and owns nothing but its age. A
//! handle either is null or owns one record on the heap; releasing it leaves
//! it null, so that a record is given back to the allocator at most once.

use crate::c_string::{find_terminator, has_terminator, lemma_text_before, text_of};
use vstd::prelude::*;
use vstd::slice::slice_subrange;

verus! {

/// What a record is, mathematically: the bytes it borrows and its age.
pub ghost struct RecordView {
    /// The caller's buffer, from the first byte of the name on.
    pub buffer: Seq<u8>,
    pub age: i32,
}

impl RecordView {
    /// The buffer holds the zero byte that ends the name.
    pub open spec fn well_formed(self) -> bool {
        has_terminator(self.buffer)
    }

    /// The name: the bytes of the buffer before its first zero byte.
    pub open spec fn name(self) -> Seq<u8> {
        text_of(self.buffer)
    }
}

/// A record: a borrowed view of a NUL-terminated name, and an age.
///
/// The name is not copied. The record holds the caller's buffer for the
/// lifetime `'a` and never writes to it.
pub struct MyRustStruct<'a> {
    name: &'a [u8],
    age: i32,
}

impl<'a> View for MyRustStruct<'a> {
    type V = RecordView;

    closed spec fn view(&self) -> RecordView {
        RecordView { buffer: self.name@, age: self.age }
    }
}

impl<'a> MyRustStruct<'a> {
    #[verifier::type_invariant]
    closed spec fn terminated(self) -> bool {
        has_terminator(self.name@)
    }

    /// The name, read from the caller's buffer up to its terminator.
    ///
    /// The slice that comes back lives as long as the caller's buffer, not as
    /// long as the record: it is a part of that buffer.
    pub fn name(&self) -> (name: &'a [u8])
        ensures
            self@.well_formed(),
            name@ == self@.name(),
    {
        proof {
            use_type_invariant(self);
        }
        let buffer: &'a [u8] = self.name;
        match find_terminator(buffer) {
            Some(n) => {
                proof {
                    lemma_text_before(buffer@, n as int);
                }
                slice_subrange(buffer, 0, n)
            },
            None => buffer,
        }
    }

    /// The age.
    pub fn age(&self) -> (age: i32)
        ensures
            age == self@.age,
    {
        self.age
    }
}

/// A handle: null, or the owner of one live record.
pub type Handle<'a> = Option<Box<MyRustStruct<'a>>>;

/// Builds a record from a borrowed NUL-terminated name and an age, moves it
/// to the heap and hands back the handle that owns it.
///
/// The handle is never null. The name is borrowed as it is: what the record
/// shows as its name is whatever the buffer holds before its first zero byte.
pub fn create_rust_struct<'a>(name: &'a [u8], age: i32) -> (handle: Handle<'a>)
    requires
        has_terminator(name@),
    ensures
        handle is Some,
        handle->0@.buffer == name@,
        handle->0@.name() == text_of(name@),
        handle->0@.age == age,
{
    let record = MyRustStruct { name, age };
    Some(Box::new(record))
}

/// Releases the record that the handle owns, if it owns one, and leaves the
/// handle null. On a null handle nothing happens.
///
/// The caller's buffer is not touched: the record never owned it.
pub fn free_rust_struct(handle: &mut Handle<'_>)
    ensures
        *final(handle) is None,
        *old(handle) is None ==> *final(handle) == *old(handle),
{
    if handle.is_some() {
        *handle = None;
    }
}

} // verus!
