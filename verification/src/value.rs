//! Values: what a buffer cell holds.

use crate::shape::{extents, extents_of};
use arrayfire::Dim4;
use vstd::prelude::*;

verus! {

/// A handle for an array payload: the shape of the array, and the key under
/// which the caller keeps it. A value without a key stands for the
/// zero-filled array of its shape, which needs no storage.
#[derive(Clone, Copy, Debug)]
pub struct Value {
    dims: Dim4,
    key: Option<u64>,
}

/// The mathematical content of a [`Value`].
pub struct ValueView {
    pub shape: Seq<u64>,
    pub key: Option<u64>,
}

impl ValueView {
    /// The zero-filled value of the given shape.
    pub open spec fn zeros(shape: Seq<u64>) -> ValueView {
        ValueView { shape, key: None }
    }
}

impl View for Value {
    type V = ValueView;

    closed spec fn view(&self) -> ValueView {
        ValueView { shape: extents(self.dims), key: self.key }
    }
}

impl Value {
    /// The zero-filled value of shape `dims`.
    pub fn zeros(dims: Dim4) -> (v: Value)
        ensures
            v@ == ValueView::zeros(extents(dims)),
    {
        Value { dims, key: None }
    }

    /// The value of shape `dims` that the caller keeps under `key`.
    pub fn keyed(dims: Dim4, key: u64) -> (v: Value)
        ensures
            v@ == (ValueView { shape: extents(dims), key: Some(key) }),
    {
        Value { dims, key: Some(key) }
    }

    /// The shape, as the `Dim4` the value was made with.
    pub fn dims(&self) -> (d: Dim4)
        ensures
            extents(d) == self@.shape,
    {
        self.dims
    }

    /// The four extents of the shape.
    pub fn shape(&self) -> (s: [u64; 4])
        ensures
            s@ == self@.shape,
    {
        extents_of(&self.dims)
    }

    /// The key under which the caller keeps the array, if it has one.
    pub fn key(&self) -> (k: Option<u64>)
        ensures
            k == self@.key,
    {
        self.key
    }

    /// Whether this is the zero-filled value of its shape.
    pub fn is_zeros(&self) -> (b: bool)
        ensures
            b == (self@ == ValueView::zeros(self@.shape)),
    {
        self.key.is_none()
    }
}

} // verus!
