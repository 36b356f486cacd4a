//! What the drawn pieces, the pictures and the starting timings promise.

use crate::demo::output;
use crate::demo::output::Shutter;
use crate::gfx;
use crate::medimg;
use crate::medimg::RdsCache;
use crate::pulsar;
use crate::scene;
use crate::screenshot;
use vstd::prelude::*;

verus! {

/// The generator never runs dry, and no two states have the same successor.
pub proof fn the_generator_never_runs_dry(x: u32, y: u32)
    ensures
        x != 0 ==> medimg::xorshift(x) != 0,
        medimg::xorshift(x) == medimg::xorshift(y) ==> x == y,
{
    let a = x ^ (x << 13u32);
    let b = a ^ (a >> 17u32);
    let c = b ^ (b << 5u32);
    let d = y ^ (y << 13u32);
    let e = d ^ (d >> 17u32);
    let f = e ^ (e << 5u32);
    assert(b ^ (b << 5u32) == e ^ (e << 5u32) ==> b == e) by (bit_vector);
    assert(a ^ (a >> 17u32) == d ^ (d >> 17u32) ==> a == d) by (bit_vector);
    assert(x ^ (x << 13u32) == y ^ (y << 13u32) ==> x == y) by (bit_vector);
    assert(b ^ (b << 5u32) == 0 ==> b == 0) by (bit_vector);
    assert(a ^ (a >> 17u32) == 0 ==> a == 0) by (bit_vector);
    assert(x ^ (x << 13u32) == 0 ==> x == 0) by (bit_vector);
}

/// A dot is dark or light, after the generator's number for it.
pub proof fn a_dot_is_dark_or_light(n: nat)
    ensures
        medimg::dot(n) == 32 || medimg::dot(n) == 224,
        medimg::dot(n) == 32 <==> medimg::state_after(n + 1) < medimg::HALF,
        medimg::state_after(n + 1) == medimg::xorshift(medimg::state_after(n)),
        medimg::state_after(0) == medimg::SEED,
{
}

/// A field serves only windows of its own size.
pub proof fn a_field_serves_its_own_size<T>(c: RdsCache<T>, w: i32, h: i32, v: i32, g: i32)
    requires
        medimg::is_current(c, w, h),
        medimg::is_current(c, v, g),
    ensures
        w == v,
        h == g,
        c.field is Some,
{
}

/// The light is made of eight rings of sixteen quads, each of them once.
pub proof fn the_light_has_every_quad_once(i: int)
    requires
        0 <= i < 128,
    ensures
        pulsar::light_quad(i).stack < 8,
        pulsar::light_quad(i).slice < 16,
        16 * pulsar::light_quad(i).stack + pulsar::light_quad(i).slice == i,
{
}

/// The sphere is made of five-degree patches, each of them once, all the way
/// round and up to eighty degrees; one meridian in four is bright, all along.
pub proof fn the_sphere_has_every_patch_once(meridian: int, parallel: int)
    requires
        0 <= meridian < 72,
        0 <= parallel < 32,
    ensures
        ({
            let p = pulsar::patch(32 * meridian + parallel);
            &&& p.longitude == 5 * meridian
            &&& p.latitude == 5 * (parallel - 16)
            &&& p.bright <==> meridian % 4 == 0
        }),
{
    let i = 32 * meridian + parallel;
    assert(i / 32 == meridian);
    assert(i % 32 == parallel);
}

/// The cones have thirty-six sides each, ten degrees wide, the lower one first;
/// one side in three is dark.
pub proof fn the_cones_have_every_side_once(i: int)
    requires
        0 <= i < 72,
    ensures
        ({
            let s = pulsar::cone_side(i);
            &&& 0 <= s.angle < 360
            &&& s.angle as int % 10 == 0
            &&& s.angle as int / 10 + (if s.up {
                36int
            } else {
                0
            }) == i
            &&& s.dark <==> i % 3 == 0
            &&& i < 36 ==> pulsar::cone_side(i + 36).angle == s.angle && pulsar::cone_side(
                i + 36,
            ).dark == s.dark && pulsar::cone_side(i + 36).up != s.up
        }),
{
}

/// The pattern has five cells in each of four rows, each of them once, around
/// the middle column.
pub proof fn the_pattern_has_every_cell_once(i: int)
    requires
        0 <= i < 20,
    ensures
        ({
            let c = scene::cell(i);
            &&& -2 <= c.x <= 2
            &&& -2 <= c.y <= 1
            &&& 5 * (c.y + 2) + (c.x + 2) == i
            &&& i % 5 < 4 ==> scene::cell(i + 1).x == c.x + 1 && scene::cell(i + 1).y == c.y
            &&& scene::cell(i - i % 5 + 4 - i % 5).x == -c.x
        }),
{
    let m = i - i % 5 + 4 - i % 5;
    assert(m % 5 == 4 - i % 5);
    assert(m / 5 == i / 5);
}

/// A picture's size can be read from its head, and its pixels are of three
/// bytes, uncompressed.
pub proof fn a_picture_tells_its_size(w: int, h: int)
    requires
        0 <= w < 0x1_0000,
        0 <= h < 0x1_0000,
    ensures
        ({
            let head = screenshot::tga_header(w, h);
            &&& head.len() == 18
            &&& head[12] + 256 * head[13] == w
            &&& head[14] + 256 * head[15] == h
            &&& head[16] == 8 * 3
            &&& head[2] == 2
            &&& head[0] == 0 && head[1] == 0
        }),
{
}

/// Blue comes first in a picture, then green, then red, pixel by pixel.
pub proof fn blue_comes_first(pixels: Seq<u8>, k: int)
    requires
        0 <= k,
        3 * k + 2 < pixels.len(),
    ensures
        screenshot::reversed_colors(pixels)[3 * k] == pixels[3 * k + 2],
        screenshot::reversed_colors(pixels)[3 * k + 1] == pixels[3 * k + 1],
        screenshot::reversed_colors(pixels)[3 * k + 2] == pixels[3 * k],
        screenshot::reversed_colors(pixels).len() == pixels.len(),
{
    assert((3 * k) % 3 == 0);
    assert((3 * k + 1) % 3 == 1);
    assert((3 * k + 2) % 3 == 2);
}

/// Stored timings win over those of the file, and those over the reference;
/// what was given for one timing does not touch the others.
pub proof fn stored_timings_win_over_the_file<V>(
    reference: Shutter<V>,
    file: Option<Shutter<V>>,
    stored: Option<Shutter<V>>,
    given: Shutter<Option<V>>,
)
    ensures
        ({
            let t = output::started(reference, file, stored, given);
            &&& given.x is None ==> {
                &&& stored matches Some(s) ==> t.x == s.x
                &&& stored is None ==> (file matches Some(f) ==> t.x == f.x)
                &&& stored is None && file is None ==> t.x == reference.x
            }
            &&& given.y is None ==> {
                &&& stored matches Some(s) ==> t.y == s.y
                &&& stored is None ==> (file matches Some(f) ==> t.y == f.y)
                &&& stored is None && file is None ==> t.y == reference.y
            }
            &&& given.w is None ==> {
                &&& stored matches Some(s) ==> t.w == s.w
                &&& stored is None ==> (file matches Some(f) ==> t.w == f.w)
                &&& stored is None && file is None ==> t.w == reference.w
            }
        }),
{
}

/// A whole buffer is one run from its first vertex on, and the two attributes of
/// a vertex have indices of their own.
pub proof fn a_whole_buffer_is_one_run(count: usize, components: i32)
    requires
        count <= i32::MAX,
    ensures
        gfx::whole(count).len() == 1,
        gfx::whole(count)[0].first == 0,
        gfx::whole(count)[0].count == count,
        gfx::both(components).len() == 2,
        gfx::both(components)[0].index != gfx::both(components)[1].index,
        gfx::both(components)[0].components == gfx::both(components)[1].components,
        gfx::both(components)[0].components == components,
{
}

} // verus!
