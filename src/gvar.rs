//! The glyph variation data of a font, as handed to the engine, and the
//! unpacking of one tuple's explicit deltas.

use vstd::prelude::*;

use crate::error::ParseError;
use crate::numeric::{raw_values, F2Dot14};

verus! {

/// The points that a tuple gives deltas for.
pub enum PointNumbers {
    /// Every point of the glyph, phantom points included, in order.
    All,
    /// The listed points, in ascending order.
    Specific(Vec<u16>),
}

/// Where the peak of a tuple is found.
pub enum PeakTuple {
    /// In the tuple variation header itself.
    Embedded(Vec<F2Dot14>),
    /// In the table's shared tuples, at this index.
    Shared(u16),
}

/// One region of the design space and the deltas that apply within it.
pub struct TupleVariationHeader {
    pub peak: PeakTuple,
    /// The start and end of the region where it is given explicitly.
    pub intermediate_region: Option<(Vec<F2Dot14>, Vec<F2Dot14>)>,
    /// The tuple's own point numbers; where absent the store's shared ones
    /// are used.
    pub point_numbers: Option<PointNumbers>,
    pub x_deltas: Vec<i16>,
    pub y_deltas: Vec<i16>,
}

/// The variation data of one glyph.
pub struct TupleVariationStore {
    pub shared_point_numbers: Option<PointNumbers>,
    pub headers: Vec<TupleVariationHeader>,
}

/// The largest number of tuple variations a glyph can have: the count is
/// held in 12 bits.
pub const MAX_TUPLE_VARIATIONS: usize = 0x0FFF;

/// The `gvar` table: shared peak tuples and the variation data of each glyph.
pub struct GvarTable {
    pub shared_tuples: Vec<Vec<F2Dot14>>,
    pub glyph_variation_data: Vec<Option<TupleVariationStore>>,
}

/// An explicit delta of a tuple: the point it moves and by how much.
#[derive(Clone, Copy, Debug, PartialEq, Eq, Structural)]
pub struct ExplicitDelta {
    pub number: usize,
    pub x: i16,
    pub y: i16,
}

/// The point numbers behind an optional reference.
pub open spec fn owned(p: Option<&PointNumbers>) -> Option<PointNumbers> {
    match p {
        Some(q) => Some(*q),
        None => None,
    }
}

pub open spec fn strictly_ascending(ps: Seq<u16>) -> bool {
    forall|i: int, j: int| 0 <= i < j < ps.len() ==> ps[i] < ps[j]
}

/// Explicit deltas in strictly ascending point order, each for one of the
/// first `n` points.
pub open spec fn explicit_deltas_wf(ex: Seq<ExplicitDelta>, n: nat) -> bool {
    &&& forall|i: int, j: int| 0 <= i < j < ex.len() ==> ex[i].number < ex[j].number
    &&& forall|i: int| 0 <= i < ex.len() ==> ex[i].number < n
}

impl GvarTable {
    /// No glyph has more tuple variations than its count can hold.
    pub open spec fn wf(&self) -> bool {
        forall|i: int|
            0 <= i < self.glyph_variation_data@.len() && (#[trigger] self.glyph_variation_data@[i]).is_some()
                ==> self.glyph_variation_data@[i].unwrap().headers@.len() <= MAX_TUPLE_VARIATIONS
    }

    /// Whether no glyph has more tuple variations than its count can hold.
    pub fn is_well_formed(&self) -> (r: bool)
        ensures
            r == self.wf(),
    {
        let mut i: usize = 0;
        while i < self.glyph_variation_data.len()
            invariant
                i <= self.glyph_variation_data@.len(),
                forall|k: int|
                    0 <= k < i && (#[trigger] self.glyph_variation_data@[k]).is_some()
                        ==> self.glyph_variation_data@[k].unwrap().headers@.len() <= MAX_TUPLE_VARIATIONS,
            decreases self.glyph_variation_data@.len() - i,
        {
            match &self.glyph_variation_data[i] {
                Some(store) => if store.headers.len() > MAX_TUPLE_VARIATIONS {
                    return false;
                },
                None => {},
            }
            i = i + 1;
        }
        true
    }

    /// The variation data of glyph `glyph_index`: an error where the table has
    /// no record for it, `None` where its record is empty.
    pub fn glyph_variation_data(&self, glyph_index: u16) -> (r: Result<Option<&TupleVariationStore>, ParseError>)
        ensures
            glyph_index >= self.glyph_variation_data@.len() ==> r == Err::<Option<&TupleVariationStore>, ParseError>(ParseError::BadIndex),
            glyph_index < self.glyph_variation_data@.len() ==> r.is_ok() && match r.unwrap() {
                Some(s) => self.glyph_variation_data@[glyph_index as int] == Some(*s),
                None => self.glyph_variation_data@[glyph_index as int].is_none(),
            },
    {
        if (glyph_index as usize) < self.glyph_variation_data.len() {
            match &self.glyph_variation_data[glyph_index as usize] {
                Some(s) => Ok(Some(s)),
                None => Ok(None),
            }
        } else {
            Err(ParseError::BadIndex)
        }
    }
}

impl TupleVariationHeader {
    /// The peak of the tuple, where it can be found.
    pub open spec fn spec_peak_tuple(&self, gvar: &GvarTable) -> Option<Seq<F2Dot14>> {
        match self.peak {
            PeakTuple::Embedded(t) => Some(t@),
            PeakTuple::Shared(i) => if (i as int) < gvar.shared_tuples@.len() {
                Some(gvar.shared_tuples@[i as int]@)
            } else {
                None
            },
        }
    }

    /// The peak of the tuple; `None` where it refers to a shared tuple that
    /// the table does not have.
    pub fn peak_tuple<'a>(&'a self, gvar: &'a GvarTable) -> (r: Option<&'a [F2Dot14]>)
        ensures
            r.is_some() == self.spec_peak_tuple(gvar).is_some(),
            r.is_some() ==> r.unwrap()@ == self.spec_peak_tuple(gvar).unwrap(),
    {
        match &self.peak {
            PeakTuple::Embedded(t) => Some(t.as_slice()),
            PeakTuple::Shared(i) => if (*i as usize) < gvar.shared_tuples.len() {
                Some(gvar.shared_tuples[*i as usize].as_slice())
            } else {
                None
            },
        }
    }

    /// The point numbers that the tuple's deltas belong to.
    pub open spec fn spec_point_numbers(&self, shared: Option<PointNumbers>) -> Option<PointNumbers> {
        match self.point_numbers {
            Some(p) => Some(p),
            None => shared,
        }
    }

    /// The explicit deltas of the tuple for a glyph of `n` points, phantom
    /// points included. The tuple is malformed where it has no point numbers,
    /// where its delta counts differ from its point count, or where its point
    /// numbers are not strictly ascending; a point number of `n` or more is a
    /// bad index.
    pub open spec fn spec_explicit_deltas(&self, shared: Option<PointNumbers>, n: nat) -> Result<Seq<ExplicitDelta>, ParseError> {
        let xs = self.x_deltas@;
        let ys = self.y_deltas@;
        match self.spec_point_numbers(shared) {
            None => Err(ParseError::MalformedTuple),
            Some(PointNumbers::All) => if xs.len() == n && ys.len() == n {
                Ok(Seq::new(n, |i: int| ExplicitDelta { number: i as usize, x: xs[i], y: ys[i] }))
            } else {
                Err(ParseError::MalformedTuple)
            },
            Some(PointNumbers::Specific(ps)) => if xs.len() != ps@.len() || ys.len() != ps@.len()
                || !strictly_ascending(ps@) {
                Err(ParseError::MalformedTuple)
            } else if exists|i: int| 0 <= i < ps@.len() && ps@[i] >= n {
                Err(ParseError::BadIndex)
            } else {
                Ok(Seq::new(ps@.len(), |i: int| ExplicitDelta { number: ps@[i] as usize, x: xs[i], y: ys[i] }))
            },
        }
    }

    /// Unpacks the explicit deltas of the tuple for a glyph of `num_points`
    /// points, phantom points included, using `shared` where the tuple has no
    /// point numbers of its own.
    pub fn variation_data(&self, num_points: usize, shared: Option<&PointNumbers>) -> (r: Result<Vec<ExplicitDelta>, ParseError>)
        ensures
            match r {
                Ok(v) => self.spec_explicit_deltas(owned(shared), num_points as nat) == Ok::<Seq<ExplicitDelta>, ParseError>(v@),
                Err(e) => self.spec_explicit_deltas(owned(shared), num_points as nat) == Err::<Seq<ExplicitDelta>, ParseError>(e),
            },
            r.is_ok() ==> explicit_deltas_wf(r.unwrap()@, num_points as nat),
    {
        let points: Option<&PointNumbers> = match &self.point_numbers {
            Some(p) => Some(p),
            None => shared,
        };
        assert(owned(points) == self.spec_point_numbers(owned(shared)));
        match points {
            None => Err(ParseError::MalformedTuple),
            Some(PointNumbers::All) => {
                if self.x_deltas.len() != num_points || self.y_deltas.len() != num_points {
                    return Err(ParseError::MalformedTuple);
                }
                let mut out: Vec<ExplicitDelta> = Vec::new();
                let mut i: usize = 0;
                while i < num_points
                    invariant
                        i <= num_points,
                        self.x_deltas@.len() == num_points,
                        self.y_deltas@.len() == num_points,
                        out@.len() == i,
                        forall|k: int| 0 <= k < i ==> out@[k] == (ExplicitDelta {
                            number: k as usize,
                            x: self.x_deltas@[k],
                            y: self.y_deltas@[k],
                        }),
                    decreases num_points - i,
                {
                    out.push(ExplicitDelta { number: i, x: self.x_deltas[i], y: self.y_deltas[i] });
                    i = i + 1;
                }
                proof {
                    let xs = self.x_deltas@;
                    let ys = self.y_deltas@;
                    assert(out@ =~= Seq::new(num_points as nat, |k: int| ExplicitDelta { number: k as usize, x: xs[k], y: ys[k] }));
                }
                Ok(out)
            },
            Some(PointNumbers::Specific(ps)) => {
                assert(self.spec_point_numbers(owned(shared)) == Some(PointNumbers::Specific(*ps)));
                let len = ps.len();
                if self.x_deltas.len() != len || self.y_deltas.len() != len {
                    return Err(ParseError::MalformedTuple);
                }
                let mut i: usize = 1;
                while i < len
                    invariant
                        1 <= i,
                        len == ps@.len(),
                        self.x_deltas@.len() == len,
                        self.y_deltas@.len() == len,
                        self.spec_point_numbers(owned(shared)) == Some(PointNumbers::Specific(*ps)),
                        forall|a: int, b: int| 0 <= a < b < i && b < len ==> ps@[a] < ps@[b],
                    decreases len - i,
                {
                    if ps[i - 1] >= ps[i] {
                        assert(!strictly_ascending(ps@)) by {
                            assert(ps@[i - 1] >= ps@[i as int]);
                        }
                        return Err(ParseError::MalformedTuple);
                    }
                    i = i + 1;
                }
                assert(strictly_ascending(ps@));
                let mut out: Vec<ExplicitDelta> = Vec::new();
                let mut i: usize = 0;
                while i < len
                    invariant
                        i <= len,
                        len == ps@.len(),
                        self.x_deltas@.len() == len,
                        self.y_deltas@.len() == len,
                        strictly_ascending(ps@),
                        self.spec_point_numbers(owned(shared)) == Some(PointNumbers::Specific(*ps)),
                        out@.len() == i,
                        forall|k: int| 0 <= k < i ==> ps@[k] < num_points,
                        forall|k: int| 0 <= k < i ==> out@[k] == (ExplicitDelta {
                            number: ps@[k] as usize,
                            x: self.x_deltas@[k],
                            y: self.y_deltas@[k],
                        }),
                    decreases len - i,
                {
                    if ps[i] as usize >= num_points {
                        assert(ps@[i as int] >= num_points);
                        return Err(ParseError::BadIndex);
                    }
                    out.push(ExplicitDelta { number: ps[i] as usize, x: self.x_deltas[i], y: self.y_deltas[i] });
                    i = i + 1;
                }
                proof {
                    let xs = self.x_deltas@;
                    let ys = self.y_deltas@;
                    assert(out@ =~= Seq::new(len as nat, |k: int| ExplicitDelta { number: ps@[k] as usize, x: xs[k], y: ys[k] }));
                }
                Ok(out)
            },
        }
    }
}

} // verus!
