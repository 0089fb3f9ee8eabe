use vstd::prelude::*;

verus! {

/// Width and height that the PNG decoder reads from the header of `bytes`,
/// or `None` when it rejects the stream.
pub uninterp spec fn png_header(bytes: Seq<u8>) -> Option<(u32, u32)>;

/// The contents of `buf` after the PNG decoder has written the first frame
/// of `bytes` into it, or `None` when decoding fails.
pub uninterp spec fn png_frame(bytes: Seq<u8>, buf: Seq<u8>) -> Option<Seq<u8>>;

/// Calls `png::Decoder::read_info` on `bytes` and keeps the width and height
/// of the header.  Claimed: the result is `png_header` of the bytes (decoding
/// depends on the bytes alone).
#[verifier::external_body]
fn png_read_info(bytes: &[u8]) -> (r: Option<(u32, u32)>)
    ensures
        r == png_header(bytes@),
{
    match png::Decoder::new(bytes).read_info() {
        Ok((info, _)) => Some((info.width, info.height)),
        Err(_) => None,
    }
}

/// Calls `png::Reader::next_frame` on a reader made from `bytes`, writing
/// into `buf`.  Claimed: the buffer keeps its length (the decoder writes into
/// it as a slice); the call succeeds exactly when `png_frame` is `Some`, and
/// then the buffer holds that frame.  After a failure the contents of the
/// buffer are not stated (the decoder may have written part of the frame).
#[verifier::external_body]
fn png_next_frame(bytes: &[u8], buf: &mut Vec<u8>) -> (ok: bool)
    ensures
        final(buf)@.len() == old(buf)@.len(),
        ok == png_frame(bytes@, old(buf)@) is Some,
        ok ==> final(buf)@ == png_frame(bytes@, old(buf)@).unwrap(),
{
    match png::Decoder::new(bytes).read_info() {
        Ok((_, mut reader)) => reader.next_frame(buf.as_mut_slice()).is_ok(),
        Err(_) => false,
    }
}

/// The blue-noise texture sampled by the global-illumination rays: RGBA8,
/// four bytes per texel.
pub struct NoiseTexture {
    pub width: u32,
    pub height: u32,
    pub rgba: Vec<u8>,
}

/// `n` zero bytes.
pub open spec fn zeroes(n: nat) -> Seq<u8> {
    Seq::new(n, |i: int| 0u8)
}

/// What decoding `bytes` as the noise texture gives: the header's size and
/// the first frame decoded into a zeroed buffer of `width * height * 4`
/// bytes; `None` when the header or the frame is rejected or that byte count
/// does not fit in a `u32`.
pub open spec fn decoded_noise_texture(bytes: Seq<u8>) -> Option<(u32, u32, Seq<u8>)> {
    match png_header(bytes) {
        None => None,
        Some((w, h)) => if w * h * 4 > u32::MAX {
            None
        } else {
            match png_frame(bytes, zeroes((w * h * 4) as nat)) {
                None => None,
                Some(data) => Some((w, h, data)),
            }
        },
    }
}

/// Decodes the PNG-encoded noise texture.
pub fn decode_noise_texture(png_bytes: &[u8]) -> (r: Option<NoiseTexture>)
    ensures
        r is Some <==> decoded_noise_texture(png_bytes@) is Some,
        r matches Some(t) ==> (t.width, t.height, t.rgba@) == decoded_noise_texture(
            png_bytes@,
        ).unwrap() && t.rgba@.len() == t.width * t.height * 4,
        r matches Some(t) ==> {
            &&& png_header(png_bytes@) == Some((t.width, t.height))
            &&& t.width * t.height * 4 <= u32::MAX
            &&& png_frame(
                png_bytes@,
                Seq::new((t.width * t.height * 4) as nat, |i: int| 0u8),
            ) == Some(t.rgba@)
        },
        png_header(png_bytes@) matches Some((w, h)) && w * h * 4 <= u32::MAX && png_frame(
            png_bytes@,
            Seq::new((w * h * 4) as nat, |i: int| 0u8),
        ) is Some ==> r is Some,
{
    let (width, height) = match png_read_info(png_bytes) {
        Some(size) => size,
        None => return None,
    };
    let pixels: u32 = match width.checked_mul(height) {
        Some(p) => p,
        None => return None,
    };
    let len: u32 = match pixels.checked_mul(4) {
        Some(l) => l,
        None => return None,
    };
    assert(len == width * height * 4) by (nonlinear_arith)
        requires
            pixels == width * height,
            len == pixels * 4,
    ;
    let mut rgba: Vec<u8> = Vec::new();
    let mut i: u32 = 0;
    while i < len
        invariant
            i <= len,
            rgba@ == zeroes(i as nat),
        decreases len - i,
    {
        rgba.push(0u8);
        i = i + 1;
        assert(rgba@ =~= zeroes(i as nat));
    }
    proof {
        lemma_decoded_noise_texture(png_bytes@);
        assert(zeroes((width * height * 4) as nat) =~= Seq::new(
            (width * height * 4) as nat,
            |i: int| 0u8,
        ));
    }
    if png_next_frame(png_bytes, &mut rgba) {
        Some(NoiseTexture { width, height, rgba })
    } else {
        None
    }
}

/// The texture decodes exactly when the header is read, its byte count
/// `width * height * 4` fits in a `u32`, and the first frame decodes into a
/// zeroed buffer of that many bytes; it then has the header's size and the
/// decoded bytes.
pub proof fn lemma_decoded_noise_texture(bytes: Seq<u8>)
    ensures
        (match png_header(bytes) {
            Some((w, h)) => w * h * 4 <= u32::MAX && png_frame(
                bytes,
                Seq::new((w * h * 4) as nat, |i: int| 0u8),
            ) is Some ==> decoded_noise_texture(bytes) == Some(
                (w, h, png_frame(bytes, Seq::new((w * h * 4) as nat, |i: int| 0u8)).unwrap()),
            ),
            None => decoded_noise_texture(bytes) is None,
        }),
        decoded_noise_texture(bytes) matches Some((w, h, d)) ==> {
            &&& png_header(bytes) == Some((w, h))
            &&& w * h * 4 <= u32::MAX
            &&& png_frame(bytes, Seq::new((w * h * 4) as nat, |i: int| 0u8)) == Some(d)
        },
{
    if let Some((w, h)) = png_header(bytes) {
        assert(zeroes((w * h * 4) as nat) =~= Seq::new((w * h * 4) as nat, |i: int| 0u8));
    }
    if let Some((w, h, d)) = decoded_noise_texture(bytes) {
        assert(zeroes((w * h * 4) as nat) =~= Seq::new((w * h * 4) as nat, |i: int| 0u8));
    }
}

} // verus!
