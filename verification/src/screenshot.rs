//! Pictures of the frame buffer as uncompressed 24-bit TGA files.

use vstd::prelude::*;

verus! {

/// The head of a picture.
pub open spec fn tga_header(w: int, h: int) -> Seq<u8> {
    seq![
        0u8, 0, 2, 0, 0, 0, 0, 0, 0, 0, 0, 0, (w % 256) as u8, (w / 256 % 256) as u8, (h % 256)
            as u8, (h / 256 % 256) as u8, 24, 0,
    ]
}

/// The pixels with their three colours in reverse.
pub open spec fn reversed_colors(pixels: Seq<u8>) -> Seq<u8> {
    Seq::new(pixels.len(), |k: int| pixels[k - k % 3 + 2 - k % 3])
}

/// A picture of `w` by `h` pixels of red, green and blue, row by row, as a
/// file.  The file wants blue first.
pub fn tga(w: u32, h: u32, pixels: &[u8]) -> (file: Vec<u8>)
    requires
        w * h * 3 == pixels@.len(),
    ensures
        file@ == tga_header(w as int, h as int) + reversed_colors(pixels@),
{
    let mut file: Vec<u8> = Vec::new();
    file.push(0);
    file.push(0);
    file.push(2);
    let mut i: usize = 0;
    while i < 9
        invariant
            i <= 9,
            file@ =~= seq![0u8, 0, 2] + Seq::new(i as nat, |k: int| 0u8),
        decreases 9 - i,
    {
        file.push(0);
        i += 1;
    }
    file.push((w % 256) as u8);
    file.push((w / 256 % 256) as u8);
    file.push((h % 256) as u8);
    file.push((h / 256 % 256) as u8);
    file.push(24);
    file.push(0);
    let ghost head = tga_header(w as int, h as int);
    assert(file@ =~= head);
    let n: usize = pixels.len();
    assert(n as int % 3 == 0) by {
        assert((w * h * 3) % 3 == 0) by (nonlinear_arith);
    }
    let mut at: usize = 0;
    while at < n
        invariant
            n == pixels@.len(),
            n % 3 == 0,
            at % 3 == 0,
            at <= n,
            file@ =~= head + reversed_colors(pixels@).take(at as int),
        decreases n - at,
    {
        let ghost before = file@;
        file.push(pixels[at + 2]);
        file.push(pixels[at + 1]);
        file.push(pixels[at]);
        proof {
            let r = reversed_colors(pixels@);
            assert(r[at as int] == pixels@[at + 2]);
            assert(r[at + 1] == pixels@[at + 1]);
            assert(r[at + 2] == pixels@[at as int]);
            assert(file@ =~= before + seq![r[at as int], r[at + 1], r[at + 2]]);
        }
        at += 3;
    }
    assert(reversed_colors(pixels@).take(n as int) =~= reversed_colors(pixels@));
    file
}

/// Reading a file's colours in reverse again gives the pixels back.
pub proof fn colors_reverse_back(pixels: Seq<u8>)
    requires
        pixels.len() % 3 == 0,
    ensures
        reversed_colors(reversed_colors(pixels)) == pixels,
{
    let r = reversed_colors(pixels);
    assert forall|k: int| 0 <= k < pixels.len() implies reversed_colors(r)[k] == pixels[k] by {
        let m = k - k % 3 + 2 - k % 3;
        assert(m % 3 == 2 - k % 3);
    }
    assert(reversed_colors(r) =~= pixels);
}

} // verus!
