//! The pulsar: which pieces it is made of.
//!
//! Angles are whole degrees; turning them into points is up to the caller.

use crate::gfx::VertexRange;
use vstd::prelude::*;

verus! {

/// Meridians and parallels of the light in the middle.
pub const LIGHT_STACKS: u32 = 8;
pub const LIGHT_SLICES: u32 = 16;

/// Points of a field line.
pub const LINE_POINTS: i32 = 280;

/// A quad of the light in the middle.
#[derive(Clone, Copy, Debug, PartialEq, Eq, Structural)]
pub struct LightQuad {
    pub stack: u32,
    pub slice: u32,
}

/// A patch of the sphere, five degrees wide and high.
#[derive(Clone, Copy, Debug, PartialEq, Eq, Structural)]
pub struct Patch {
    pub longitude: i32,
    pub latitude: i32,
    pub bright: bool,
}

/// A side of a cone, ten degrees wide.
#[derive(Clone, Copy, Debug, PartialEq, Eq, Structural)]
pub struct ConeSide {
    pub up: bool,
    pub angle: i32,
    pub dark: bool,
}

/// The pieces of the pulsar.
#[derive(Debug)]
pub struct Pieces {
    pub light: Vec<LightQuad>,
    pub sphere: Vec<Patch>,
    pub cones: Vec<ConeSide>,
    /// Angle of each field line around the axis.
    pub lines: Vec<i32>,
    /// The field lines' vertices, one line after the other.
    pub line_ranges: Vec<VertexRange>,
}

pub open spec fn light_quad(i: int) -> LightQuad {
    LightQuad { stack: (i / 16) as u32, slice: (i % 16) as u32 }
}

pub open spec fn patch(i: int) -> Patch {
    let longitude = i / 32 * 5;
    Patch {
        longitude: longitude as i32,
        latitude: (i % 32 * 5 - 80) as i32,
        bright: longitude % 20 == 0,
    }
}

pub open spec fn cone_side(i: int) -> ConeSide {
    let angle = i % 36 * 10;
    ConeSide { up: i >= 36, angle: angle as i32, dark: angle % 30 == 0 }
}

pub open spec fn line_range(i: int) -> VertexRange {
    VertexRange { first: (i * LINE_POINTS) as i32, count: LINE_POINTS }
}

impl Pieces {
    /// All pieces of the pulsar.
    pub open spec fn complete(&self) -> bool {
        &&& self.light@ == Seq::new(128, |i: int| light_quad(i))
        &&& self.sphere@ == Seq::new(2304, |i: int| patch(i))
        &&& self.cones@ == Seq::new(72, |i: int| cone_side(i))
        &&& self.lines@ == Seq::new(18, |i: int| (i * 20) as i32)
        &&& self.line_ranges@ == Seq::new(18, |i: int| line_range(i))
    }
}

fn light() -> (v: Vec<LightQuad>)
    ensures
        v@ == Seq::new(128, |i: int| light_quad(i)),
{
    let mut v: Vec<LightQuad> = Vec::new();
    let mut i: u32 = 0;
    while i < LIGHT_STACKS * LIGHT_SLICES
        invariant
            i <= 128,
            v@ =~= Seq::new(i as nat, |k: int| light_quad(k)),
        decreases 128 - i,
    {
        v.push(LightQuad { stack: i / LIGHT_SLICES, slice: i % LIGHT_SLICES });
        i += 1;
    }
    v
}

fn sphere() -> (v: Vec<Patch>)
    ensures
        v@ == Seq::new(2304, |i: int| patch(i)),
{
    let mut v: Vec<Patch> = Vec::new();
    let mut k: i32 = 0;
    while k < 72
        invariant
            0 <= k <= 72,
            v@ =~= Seq::new((k * 32) as nat, |i: int| patch(i)),
        decreases 72 - k,
    {
        let longitude: i32 = k * 5;
        let bright: bool = k as u32 % 4 == 0;
        assert(bright == (longitude % 20 == 0));
        let mut j: i32 = 0;
        while j < 32
            invariant
                0 <= k < 72,
                0 <= j <= 32,
                longitude == k * 5,
                bright == (longitude % 20 == 0),
                v@ =~= Seq::new((k * 32 + j) as nat, |i: int| patch(i)),
            decreases 32 - j,
        {
            proof {
                let i = k * 32 + j;
                assert(i / 32 == k && i % 32 == j);
            }
            v.push(Patch { longitude, latitude: j * 5 - 80, bright });
            j += 1;
        }
        k += 1;
    }
    v
}

fn cones() -> (v: Vec<ConeSide>)
    ensures
        v@ == Seq::new(72, |i: int| cone_side(i)),
{
    let mut v: Vec<ConeSide> = Vec::new();
    let mut i: u32 = 0;
    while i < 72
        invariant
            i <= 72,
            v@ =~= Seq::new(i as nat, |k: int| cone_side(k)),
        decreases 72 - i,
    {
        let angle: u32 = i % 36 * 10;
        v.push(ConeSide { up: i >= 36, angle: angle as i32, dark: angle % 30 == 0 });
        i += 1;
    }
    v
}

fn lines() -> (v: (Vec<i32>, Vec<VertexRange>))
    ensures
        v.0@ == Seq::new(18, |i: int| (i * 20) as i32),
        v.1@ == Seq::new(18, |i: int| line_range(i)),
{
    let mut angles: Vec<i32> = Vec::new();
    let mut ranges: Vec<VertexRange> = Vec::new();
    let mut i: i32 = 0;
    while i < 18
        invariant
            0 <= i <= 18,
            angles@ =~= Seq::new(i as nat, |k: int| (k * 20) as i32),
            ranges@ =~= Seq::new(i as nat, |k: int| line_range(k)),
        decreases 18 - i,
    {
        angles.push(i * 20);
        ranges.push(VertexRange { first: i * LINE_POINTS, count: LINE_POINTS });
        i += 1;
    }
    (angles, ranges)
}

/// The pieces of the pulsar.
pub fn build_meshes() -> (p: Pieces)
    ensures
        p.complete(),
{
    let (angles, ranges): (Vec<i32>, Vec<VertexRange>) = lines();
    Pieces {
        light: light(),
        sphere: sphere(),
        cones: cones(),
        lines: angles,
        line_ranges: ranges,
    }
}

/// What to build for the pulsar, unless that was done already.
pub fn warm(built: bool) -> (p: Option<Pieces>)
    ensures
        match p {
            Some(p) => !built && p.complete(),
            None => built,
        },
{
    if built {
        None
    } else {
        Some(build_meshes())
    }
}

/// The field lines share the vertices without gap or overlap.
pub proof fn the_lines_tile_the_vertices(i: int)
    requires
        0 <= i < 17,
    ensures
        line_range(i).first + line_range(i).count == line_range(i + 1).first,
        line_range(0).first == 0,
{
}

} // verus!
