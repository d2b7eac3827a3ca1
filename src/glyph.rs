//! Glyph outlines as the engine sees them.

use vstd::prelude::*;

verus! {

/// A point in font design units.
#[derive(Clone, Copy, Debug, PartialEq, Eq, Structural)]
pub struct Point(pub i16, pub i16);

/// The four phantom points: left and right side bearing, top and bottom side
/// bearing reference points.
pub type PhantomPoints = [Point; 4];

/// An axis-aligned box in font design units.
#[derive(Clone, Copy, Debug, PartialEq, Eq, Structural)]
pub struct BoundingBox {
    pub x_min: i16,
    pub x_max: i16,
    pub y_min: i16,
    pub y_max: i16,
}

/// The flags of an outline point; kept as they are.
#[derive(Clone, Copy, Debug, PartialEq, Eq, Structural)]
pub struct SimpleGlyphFlag(pub u8);

/// A glyph described by its outline.
pub struct SimpleGlyph {
    /// The index of the last point of each contour.
    pub end_pts_of_contours: Vec<u16>,
    pub coordinates: Vec<(SimpleGlyphFlag, Point)>,
    pub bounding_box: BoundingBox,
    pub phantom_points: Option<PhantomPoints>,
}

impl SimpleGlyph {
    /// The contour end indices are strictly increasing and the last one is
    /// the last point of the outline.
    pub open spec fn wf(&self) -> bool {
        let ends = self.end_pts_of_contours@;
        &&& ends.len() > 0
        &&& ends.last() + 1 == self.coordinates@.len()
        &&& forall|i: int, j: int| 0 <= i < j < ends.len() ==> ends[i] < ends[j]
    }

    /// Whether the contour end indices are strictly increasing and the last
    /// one is the last point of the outline.
    pub fn is_well_formed(&self) -> (r: bool)
        ensures
            r == self.wf(),
    {
        let ends = &self.end_pts_of_contours;
        let n = ends.len();
        if n == 0 || ends[n - 1] as usize + 1 != self.coordinates.len() {
            proof {
                if n > 0 {
                    assert(ends@.last() == ends@[n - 1]);
                }
            }
            return false;
        }
        let mut i: usize = 1;
        while i < n
            invariant
                1 <= i <= n,
                n == ends@.len(),
                ends@ == self.end_pts_of_contours@,
                forall|a: int, b: int| 0 <= a < b < i ==> ends@[a] < ends@[b],
            decreases n - i,
        {
            if ends[i - 1] >= ends[i] {
                proof {
                    assert(!(ends@[i - 1] < ends@[i as int]));
                }
                return false;
            }
            i = i + 1;
        }
        proof {
            assert(ends@.last() == ends@[n - 1]);
        }
        true
    }
}

/// The flags of a component of a composite glyph.
#[derive(Clone, Copy, Debug, PartialEq, Eq, Structural)]
pub struct CompositeGlyphFlag(pub u16);

/// The two arguments are 16-bit values.
pub const ARG_1_AND_2_ARE_WORDS: u16 = 0x0001;
/// The two arguments are x and y offsets, not point numbers.
pub const ARGS_ARE_XY_VALUES: u16 = 0x0002;
/// The component offset is scaled along with the component.
pub const SCALED_COMPONENT_OFFSET: u16 = 0x0800;
/// The component offset is not scaled.
pub const UNSCALED_COMPONENT_OFFSET: u16 = 0x1000;

impl CompositeGlyphFlag {
    pub open spec fn spec_args_are_xy_values(self) -> bool {
        self.0 & ARGS_ARE_XY_VALUES != 0
    }

    /// Whether the arguments are x and y offsets.
    #[verifier::when_used_as_spec(spec_args_are_xy_values)]
    pub fn args_are_xy_values(self) -> (r: bool)
        ensures
            r == self.spec_args_are_xy_values(),
    {
        self.0 & ARGS_ARE_XY_VALUES != 0
    }

    pub open spec fn spec_offsets_are_scaled(self) -> bool {
        self.0 & SCALED_COMPONENT_OFFSET != 0 && self.0 & UNSCALED_COMPONENT_OFFSET == 0
    }

    /// Whether the component offset is scaled with the component: only where
    /// the scaled flag is set and the unscaled one is clear.
    #[verifier::when_used_as_spec(spec_offsets_are_scaled)]
    pub fn offsets_are_scaled(self) -> (r: bool)
        ensures
            r == self.spec_offsets_are_scaled(),
    {
        self.0 & SCALED_COMPONENT_OFFSET != 0 && self.0 & UNSCALED_COMPONENT_OFFSET == 0
    }
}

/// A component argument in the storage form that it was read in.
#[derive(Clone, Copy, Debug, PartialEq, Eq, Structural)]
pub enum CompositeGlyphArgument {
    U8(u8),
    I8(i8),
    U16(u16),
    I16(i16),
}

impl CompositeGlyphArgument {
    /// The value of the argument.
    pub open spec fn value(self) -> int {
        match self {
            CompositeGlyphArgument::U8(v) => v as int,
            CompositeGlyphArgument::I8(v) => v as int,
            CompositeGlyphArgument::U16(v) => v as int,
            CompositeGlyphArgument::I16(v) => v as int,
        }
    }
}

/// The transformation of a component.
#[derive(Clone, Copy, Debug, PartialEq, Eq, Structural)]
pub enum CompositeGlyphScale {
    Scale(crate::numeric::F2Dot14),
    XY { x_scale: crate::numeric::F2Dot14, y_scale: crate::numeric::F2Dot14 },
    /// The matrix `[[xx, xy], [yx, yy]]`: a point `(x, y)` maps to
    /// `(xx * x + yx * y, xy * x + yy * y)`.
    Matrix {
        xx: crate::numeric::F2Dot14,
        xy: crate::numeric::F2Dot14,
        yx: crate::numeric::F2Dot14,
        yy: crate::numeric::F2Dot14,
    },
}

/// One child glyph of a composite glyph, with its placement.
#[derive(Clone, Copy, Debug, PartialEq, Eq, Structural)]
pub struct CompositeGlyphComponent {
    pub flags: CompositeGlyphFlag,
    pub glyph_index: u16,
    pub argument1: CompositeGlyphArgument,
    pub argument2: CompositeGlyphArgument,
    pub scale: Option<CompositeGlyphScale>,
}

/// A glyph assembled from transformed child glyphs.
pub struct CompositeGlyph {
    pub glyphs: Vec<CompositeGlyphComponent>,
    pub bounding_box: BoundingBox,
    pub phantom_points: Option<PhantomPoints>,
}

impl CompositeGlyph {
    /// Components are addressed by 16-bit point numbers.
    pub open spec fn wf(&self) -> bool {
        self.glyphs@.len() <= 0xFFFF
    }

    /// Whether the components can all be addressed by point numbers.
    pub fn is_well_formed(&self) -> (r: bool)
        ensures
            r == self.wf(),
    {
        self.glyphs.len() <= 0xFFFF
    }
}

/// A glyph without an outline.
pub struct EmptyGlyph {
    pub phantom_points: Option<PhantomPoints>,
}

/// A glyph of any of the three shapes.
pub enum Glyph {
    Empty(EmptyGlyph),
    Simple(SimpleGlyph),
    Composite(CompositeGlyph),
}

impl Glyph {
    pub open spec fn wf(&self) -> bool {
        match self {
            Glyph::Empty(_) => true,
            Glyph::Simple(g) => g.wf(),
            Glyph::Composite(g) => g.wf(),
        }
    }

    /// Whether the glyph is one the engine can vary.
    pub fn is_well_formed(&self) -> (r: bool)
        ensures
            r == self.wf(),
    {
        match self {
            Glyph::Empty(_) => true,
            Glyph::Simple(g) => g.is_well_formed(),
            Glyph::Composite(g) => g.is_well_formed(),
        }
    }

    /// The number of points that carry deltas, phantom points excluded.
    pub open spec fn spec_number_of_points(&self) -> usize {
        match self {
            Glyph::Empty(_) => 0,
            Glyph::Simple(g) => g.coordinates.len(),
            Glyph::Composite(g) => g.glyphs.len(),
        }
    }

    /// The number of points that carry deltas, phantom points excluded: the
    /// outline points of a simple glyph, the components of a composite one.
    #[verifier::when_used_as_spec(spec_number_of_points)]
    pub fn number_of_points(&self) -> (r: usize)
        ensures
            r == self.spec_number_of_points(),
    {
        match self {
            Glyph::Empty(_) => 0,
            Glyph::Simple(g) => g.coordinates.len(),
            Glyph::Composite(g) => g.glyphs.len(),
        }
    }

    pub open spec fn spec_bounding_box(&self) -> Option<BoundingBox> {
        match self {
            Glyph::Empty(_) => None,
            Glyph::Simple(g) => Some(g.bounding_box),
            Glyph::Composite(g) => Some(g.bounding_box),
        }
    }

    /// The stored bounding box; an empty glyph has none.
    #[verifier::when_used_as_spec(spec_bounding_box)]
    pub fn bounding_box(&self) -> (r: Option<BoundingBox>)
        ensures
            r == self.spec_bounding_box(),
    {
        match self {
            Glyph::Empty(_) => None,
            Glyph::Simple(g) => Some(g.bounding_box),
            Glyph::Composite(g) => Some(g.bounding_box),
        }
    }

    /// The stored phantom points.
    pub open spec fn phantom_points(&self) -> Option<PhantomPoints> {
        match self {
            Glyph::Empty(g) => g.phantom_points,
            Glyph::Simple(g) => g.phantom_points,
            Glyph::Composite(g) => g.phantom_points,
        }
    }

    /// `self` and `other` agree in everything but their phantom points.
    pub open spec fn same_but_phantom_points(&self, other: &Glyph) -> bool {
        match (self, other) {
            (Glyph::Empty(_), Glyph::Empty(_)) => true,
            (Glyph::Simple(a), Glyph::Simple(b)) => {
                &&& a.end_pts_of_contours@ == b.end_pts_of_contours@
                &&& a.coordinates@ == b.coordinates@
                &&& a.bounding_box == b.bounding_box
            },
            (Glyph::Composite(a), Glyph::Composite(b)) => {
                &&& a.glyphs@ == b.glyphs@
                &&& a.bounding_box == b.bounding_box
            },
            _ => false,
        }
    }

    /// Stores `phantom_points` on the glyph.
    pub fn set_phantom_points(&mut self, phantom_points: PhantomPoints)
        ensures
            final(self).same_but_phantom_points(old(self)),
            final(self).phantom_points() == Some(phantom_points),
    {
        match self {
            Glyph::Empty(empty) => empty.phantom_points = Some(phantom_points),
            Glyph::Simple(simple) => simple.phantom_points = Some(phantom_points),
            Glyph::Composite(composite) => composite.phantom_points = Some(phantom_points),
        }
    }
}

} // verus!
