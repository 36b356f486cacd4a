//! The random-dot stereogram: a field of dots that only a pair of eyes can see
//! depth in.
//!
//! The field is the same for both eyes and in every frame; each eye sees it
//! shifted sideways, and a square in the middle shifted the other way.

use crate::gfx::Texture;
use vstd::prelude::*;

verus! {

/// Seed of the dots.
pub const SEED: u32 = 0x9E37_79B9;

/// Shift of the square, in pixels.
pub const DEFAULT_DEPTH_PX: i32 = 2;

/// Shift of the background, in pixels.
pub const DEFAULT_BG_SHIFT: i32 = 1;

/// Half the side of the square.
pub const SQUARE_HALF: i32 = 75;

pub const LUM_WHITE: u8 = 224;
pub const LUM_BLACK: u8 = 32;

/// Numbers below this one, as a fraction of all, round to less than a half in
/// single precision.
pub const HALF: u32 = 0x7FFF_FFC0;

/// The next state of the generator.
pub open spec fn xorshift(x: u32) -> u32 {
    let a = x ^ (x << 13u32);
    let b = a ^ (a >> 17u32);
    b ^ (b << 5u32)
}

/// A small generator of numbers.
#[derive(Clone, Copy, Debug, PartialEq, Eq, Structural)]
pub struct Rng {
    pub state: u32,
}

impl Rng {
    /// The next number, which is the new state.
    pub fn next_u32(&mut self) -> (n: u32)
        ensures
            n == xorshift(old(self).state),
            final(self).state == n,
    {
        let mut x: u32 = self.state;
        x = x ^ (x << 13u32);
        x = x ^ (x >> 17u32);
        x = x ^ (x << 5u32);
        self.state = x;
        x
    }
}

/// The state of the generator after `n` numbers.
pub open spec fn state_after(n: nat) -> u32
    decreases n,
{
    if n == 0 {
        SEED
    } else {
        xorshift(state_after((n - 1) as nat))
    }
}

/// The brightness of a dot.
pub open spec fn dot(n: nat) -> u8 {
    if state_after(n + 1) < HALF {
        LUM_BLACK
    } else {
        LUM_WHITE
    }
}

/// The field of dots, row by row.
pub fn base_noise(w: i32, h: i32) -> (dots: Vec<u8>)
    requires
        0 <= w,
        0 <= h,
        w * h <= i32::MAX,
    ensures
        dots@ == Seq::new((w * h) as nat, |i: int| dot(i as nat)),
{
    let n: i32 = w * h;
    let mut rng: Rng = Rng { state: SEED };
    let mut dots: Vec<u8> = Vec::new();
    let mut i: i32 = 0;
    assert(0 <= w * h) by (nonlinear_arith)
        requires
            0 <= w,
            0 <= h,
    ;
    while i < n
        invariant
            0 <= i <= n,
            rng.state == state_after(i as nat),
            dots@ =~= Seq::new(i as nat, |k: int| dot(k as nat)),
        decreases n - i,
    {
        let x: u32 = rng.next_u32();
        assert(x == state_after((i + 1) as nat));
        if x < HALF {
            dots.push(LUM_BLACK);
        } else {
            dots.push(LUM_WHITE);
        }
        i += 1;
    }
    dots
}

/// A larger field starts with the dots of a smaller one: the dots are the same
/// every time.
pub proof fn the_dots_never_change(n: nat, m: nat)
    requires
        n <= m,
    ensures
        Seq::new(m, |i: int| dot(i as nat)).take(n as int) == Seq::new(n, |i: int| dot(i as nat)),
{
    assert(Seq::new(m, |i: int| dot(i as nat)).take(n as int) =~= Seq::new(
        n,
        |i: int| dot(i as nat),
    ));
}

/// A field that was uploaded.
#[derive(Clone, Copy, Debug)]
pub struct RdsField<T> {
    pub w: i32,
    pub h: i32,
    pub tex: Texture<T>,
}

/// The field that is on the graphics card, if any.
#[derive(Clone, Copy, Debug)]
pub struct RdsCache<T> {
    pub field: Option<RdsField<T>>,
}

/// The field on the card has that size.
pub open spec fn is_current<T>(c: RdsCache<T>, gw: i32, gh: i32) -> bool {
    c.field matches Some(f) && f.w == gw && f.h == gh && f.tex.id is Some
}

/// What is to be done for a field of some size.
#[derive(Debug)]
pub enum FieldPlan<T> {
    /// It is there.
    Ready(Texture<T>),
    /// These dots have to be uploaded.
    Upload(Vec<u8>),
}

impl<T: Copy> RdsCache<T> {
    pub fn new() -> (c: RdsCache<T>)
        ensures
            c.field is None,
    {
        RdsCache { field: None }
    }

    /// The texture of the field, if there is one.
    pub fn texture(&self) -> (t: Texture<T>)
        ensures
            t == (match self.field {
                Some(f) => f.tex,
                None => Texture { id: None },
            }),
    {
        match self.field {
            Some(f) => f.tex,
            None => Texture::none(),
        }
    }

    /// The field for a window of that size.  It is only made anew when the size
    /// changed.
    pub fn rds_texture(&self, gw: i32, gh: i32) -> (p: FieldPlan<T>)
        requires
            0 <= gw,
            0 <= gh,
            gw * gh <= i32::MAX,
        ensures
            match p {
                FieldPlan::Ready(t) => is_current(*self, gw, gh) && t == self.field->0.tex,
                FieldPlan::Upload(dots) => !is_current(*self, gw, gh) && dots@ == Seq::new(
                    (gw * gh) as nat,
                    |i: int| dot(i as nat),
                ),
            },
    {
        if let Some(f) = self.field {
            if f.w == gw && f.h == gh && !f.tex.is_none() {
                return FieldPlan::Ready(f.tex);
            }
        }
        FieldPlan::Upload(base_noise(gw, gh))
    }

    /// A field was uploaded.  Returns the texture of the one before, which is
    /// to be deleted.
    pub fn uploaded(&mut self, gw: i32, gh: i32, tex: Texture<T>) -> (old_tex: Texture<T>)
        ensures
            final(self).field == Some(RdsField { w: gw, h: gh, tex }),
            old_tex == (match old(self).field {
                Some(f) => f.tex,
                None => Texture { id: None },
            }),
    {
        let before: Texture<T> = self.texture();
        self.field = Some(RdsField { w: gw, h: gh, tex });
        before
    }
}

/// What has to be uploaded before the field can be shown at that size, if
/// anything.
pub fn warm<T: Copy>(cache: &RdsCache<T>, gw: i32, gh: i32) -> (dots: Option<Vec<u8>>)
    requires
        0 <= gw,
        0 <= gh,
        gw * gh <= i32::MAX,
    ensures
        match dots {
            Some(d) => !is_current(*cache, gw, gh) && d@ == Seq::new(
                (gw * gh) as nat,
                |i: int| dot(i as nat),
            ),
            None => is_current(*cache, gw, gh),
        },
{
    match cache.rds_texture(gw, gh) {
        FieldPlan::Ready(_) => None,
        FieldPlan::Upload(d) => Some(d),
    }
}

/// A part of the screen that shows the field, shifted.
#[derive(Clone, Copy, Debug, PartialEq, Eq, Structural)]
pub struct ShiftedQuad {
    pub x0: i32,
    pub y0: i32,
    pub x1: i32,
    pub y1: i32,
    /// The screen's column `x` shows the field's column `x + shift`.
    pub shift: i32,
}

/// The shift of the background for an eye, 1 being the left one.
pub open spec fn background_shift(eye: i32, bg: i32) -> int {
    if eye == 1 {
        bg as int
    } else {
        -bg
    }
}

/// The shift of the square for an eye.
pub open spec fn square_shift(eye: i32, depth: i32) -> int {
    if eye == 1 {
        -depth
    } else {
        depth as int
    }
}

/// What one eye sees: the whole field, and the square over it.
pub fn rds_quads(gw: i32, gh: i32, eye: i32, depth: i32, bg: i32) -> (q: [ShiftedQuad; 2])
    requires
        0 <= gw,
        0 <= gh,
        depth > i32::MIN,
        bg > i32::MIN,
    ensures
        q@[0] == (ShiftedQuad {
            x0: 0,
            y0: 0,
            x1: gw,
            y1: gh,
            shift: background_shift(eye, bg) as i32,
        }),
        q@[1] == (ShiftedQuad {
            x0: (gw / 2 - SQUARE_HALF) as i32,
            y0: (gh / 2 - SQUARE_HALF) as i32,
            x1: (gw / 2 + SQUARE_HALF) as i32,
            y1: (gh / 2 + SQUARE_HALF) as i32,
            shift: square_shift(eye, depth) as i32,
        }),
{
    let cx: i32 = (gw as u32 / 2) as i32;
    let cy: i32 = (gh as u32 / 2) as i32;
    let back: i32 = if eye == 1 {
        bg
    } else {
        -bg
    };
    let square: i32 = if eye == 1 {
        -depth
    } else {
        depth
    };
    [
        ShiftedQuad { x0: 0, y0: 0, x1: gw, y1: gh, shift: back },
        ShiftedQuad {
            x0: cx - SQUARE_HALF,
            y0: cy - SQUARE_HALF,
            x1: cx + SQUARE_HALF,
            y1: cy + SQUARE_HALF,
            shift: square,
        },
    ]
}

/// The eyes see mirrored shifts, and the square is shifted away from the
/// background: they lie on opposite sides of the screen.
pub proof fn the_eyes_see_mirrored_shifts(depth: i32, bg: i32)
    ensures
        background_shift(1, bg) == -background_shift(0, bg),
        square_shift(1, depth) == -square_shift(0, depth),
        background_shift(1, bg) - square_shift(1, depth) == bg + depth,
{
}

} // verus!
