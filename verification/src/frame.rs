use vstd::prelude::*;

verus! {

/// The pixel at `i` of tightly packed RGBA bytes.
pub open spec fn rgba_pixel(bytes: Seq<u8>, i: int) -> Seq<u8> {
    bytes.subrange(4 * i, 4 * i + 4)
}

/// Groups RGBA bytes into pixels, four bytes each; trailing bytes that do
/// not make up a whole pixel are left out.
pub fn rgba_pixels(frame_rgba: &[u8]) -> (pixels: Vec<[u8; 4]>)
    ensures
        pixels.len() == frame_rgba@.len() / 4,
        forall|i: int| 0 <= i < pixels.len() ==> (#[trigger] pixels[i])@ == rgba_pixel(frame_rgba@, i),
        forall|i: int|
            0 <= i < pixels.len() ==> {
                &&& (#[trigger] pixels[i])[0] == frame_rgba@[4 * i]
                &&& pixels[i][1] == frame_rgba@[4 * i + 1]
                &&& pixels[i][2] == frame_rgba@[4 * i + 2]
                &&& pixels[i][3] == frame_rgba@[4 * i + 3]
            },
{
    let len: usize = frame_rgba.len();
    let n: usize = len / 4;
    let mut pixels: Vec<[u8; 4]> = Vec::new();
    let mut i: usize = 0;
    while i < n
        invariant
            i <= n,
            len == frame_rgba@.len(),
            n == len / 4,
            pixels.len() == i,
            forall|k: int| 0 <= k < i ==> (#[trigger] pixels[k])@ == rgba_pixel(frame_rgba@, k),
            forall|k: int|
                0 <= k < i ==> {
                    &&& (#[trigger] pixels[k])[0] == frame_rgba@[4 * k]
                    &&& pixels[k][1] == frame_rgba@[4 * k + 1]
                    &&& pixels[k][2] == frame_rgba@[4 * k + 2]
                    &&& pixels[k][3] == frame_rgba@[4 * k + 3]
                },
        decreases n - i,
    {
        assert(4 * i + 4 <= frame_rgba@.len()) by (nonlinear_arith)
            requires
                i < n,
                n == len / 4,
                len == frame_rgba@.len(),
        ;
        let base: usize = 4 * i;
        let pixel = [frame_rgba[base], frame_rgba[base + 1], frame_rgba[base + 2], frame_rgba[base + 3]];
        assert(pixel@ =~= rgba_pixel(frame_rgba@, i as int));
        pixels.push(pixel);
        i = i + 1;
    }
    pixels
}

/// Pixel `i` of a frame is its bytes `4i`, `4i+1`, `4i+2`, `4i+3` in that
/// order (red, green, blue, alpha), for every whole pixel of any frame.
pub proof fn lemma_rgba_pixel_bytes(bytes: Seq<u8>, i: int)
    requires
        0 <= i,
        4 * i + 4 <= bytes.len(),
    ensures
        rgba_pixel(bytes, i).len() == 4,
        rgba_pixel(bytes, i)[0] == bytes[4 * i],
        rgba_pixel(bytes, i)[1] == bytes[4 * i + 1],
        rgba_pixel(bytes, i)[2] == bytes[4 * i + 2],
        rgba_pixel(bytes, i)[3] == bytes[4 * i + 3],
{
}

} // verus!
