//! Tuples of normalized axis coordinates.

use tinyvec::TinyVec;
use vstd::prelude::*;

use crate::numeric::{raw_values, F2Dot14};

verus! {

/// A short, growable list of raw F2Dot14 values, kept inline for up to four
/// axes.
#[verifier::external_body]
pub struct AxisValues {
    items: TinyVec<[i16; 4]>,
}

/// The raw values held by an `AxisValues`, in order.
pub uninterp spec fn axis_values_of(v: AxisValues) -> Seq<i16>;

impl AxisValues {
    /// Relies on `TinyVec::new`: a new vector holds no items.
    #[verifier::external_body]
    pub(crate) fn new() -> (r: AxisValues)
        ensures
            axis_values_of(r) == Seq::<i16>::empty(),
    {
        AxisValues { items: TinyVec::new() }
    }

    /// Relies on `TinyVec::push`: the value is appended after the others.
    #[verifier::external_body]
    pub(crate) fn push(&mut self, raw: i16)
        ensures
            axis_values_of(*final(self)) == axis_values_of(*old(self)).push(raw),
    {
        self.items.push(raw)
    }

    /// Relies on `TinyVec::len`: the number of items held.
    #[verifier::external_body]
    pub(crate) fn len(&self) -> (r: usize)
        ensures
            r == axis_values_of(*self).len(),
    {
        self.items.len()
    }

    /// Relies on indexing a `TinyVec`: the item at position `i`.
    #[verifier::external_body]
    pub(crate) fn get(&self, i: usize) -> (r: i16)
        requires
            i < axis_values_of(*self).len(),
        ensures
            r == axis_values_of(*self)[i as int],
    {
        self.items[i]
    }
}

/// The coordinates of a tuple: either borrowed from the variation data or
/// derived from a peak tuple.
pub enum Coordinates<'a> {
    Tuple(&'a [F2Dot14]),
    Array(AxisValues),
}

impl<'a> Coordinates<'a> {
    /// The raw values of the coordinates, in axis order.
    pub open spec fn view(&self) -> Seq<i16> {
        match self {
            Coordinates::Tuple(t) => raw_values(t@),
            Coordinates::Array(a) => axis_values_of(*a),
        }
    }

    /// A cursor over the coordinates, positioned at the first one.
    pub fn iter(&self) -> (r: CoordinatesIter<'_, 'a>)
        ensures
            r.coords == self,
            r.index == 0,
    {
        CoordinatesIter { coords: self, index: 0 }
    }

    /// The number of coordinates.
    pub fn len(&self) -> (r: usize)
        ensures
            r == self@.len(),
    {
        match self {
            Coordinates::Tuple(t) => t.len(),
            Coordinates::Array(a) => a.len(),
        }
    }

    /// The coordinate of axis `i`.
    pub fn get(&self, i: usize) -> (r: F2Dot14)
        requires
            i < self@.len(),
        ensures
            r.0 == self@[i as int],
    {
        match self {
            Coordinates::Tuple(t) => t[i],
            Coordinates::Array(a) => F2Dot14(a.get(i)),
        }
    }
}

/// A cursor that hands out the coordinates of a tuple one by one.
pub struct CoordinatesIter<'a, 'data> {
    pub coords: &'a Coordinates<'data>,
    pub index: usize,
}

impl<'a, 'data> CoordinatesIter<'a, 'data> {
    /// The next coordinate, or `None` once all have been handed out.
    pub fn next(&mut self) -> (r: Option<F2Dot14>)
        ensures
            final(self).coords == old(self).coords,
            old(self).index >= old(self).coords@.len() ==> r.is_none()
                && final(self).index == old(self).index,
            old(self).index < old(self).coords@.len() ==> r == Some(
                F2Dot14(old(self).coords@[old(self).index as int]),
            ) && final(self).index == old(self).index + 1,
    {
        if self.index >= self.coords.len() {
            return None;
        }
        let index = self.index;
        self.index = self.index + 1;
        Some(self.coords.get(index))
    }
}

} // verus!
