//! Decoding of the largest 32-bit image of an ICO file into RGBA pixels.
//!
//! An ICO file holds a 6-byte header (the image count at offset 4) and one
//! 16-byte directory entry per image: width and height (0 meaning 256), bits
//! per pixel at offset 6, data size at offset 8 and data offset at 12. The
//! data of a 32-bit image is a DIB: a header whose size is its first
//! little-endian word, then BGRA pixels, their rows stored bottom-up. The
//! decoded icon is upright: its rows run top-down.

use vstd::prelude::*;

verus! {

/// A decoded icon: `width * height` pixels, four bytes (R, G, B, A) each.
#[derive(Debug, Clone)]
pub struct IconData {
    pub rgba: Vec<u8>,
    pub width: u32,
    pub height: u32,
}

/// The mathematical form of a decoded icon.
pub struct IconView {
    pub rgba: Seq<u8>,
    pub width: u32,
    pub height: u32,
}

impl View for IconData {
    type V = IconView;

    open spec fn view(&self) -> IconView {
        IconView { rgba: self.rgba@, width: self.width, height: self.height }
    }
}

/// The little-endian 16-bit word at offset `o`.
pub open spec fn le16(b: Seq<u8>, o: int) -> nat {
    (b[o] + 256 * b[o + 1]) as nat
}

/// The little-endian 32-bit word at offset `o`.
pub open spec fn le32(b: Seq<u8>, o: int) -> nat {
    (b[o] + 256 * b[o + 1] + 65536 * b[o + 2] + 16777216 * b[o + 3]) as nat
}

/// The offset of directory entry `i`.
pub open spec fn entry_offset(i: int) -> int {
    6 + 16 * i
}

/// The number of directory entries read: the declared count, cut at the
/// first entry that does not fit in the file.
pub open spec fn entries_read(b: Seq<u8>) -> int {
    let fit = (b.len() - 6) / 16;
    if le16(b, 4) < fit {
        le16(b, 4) as int
    } else {
        fit
    }
}

/// A width or height byte: 0 stands for 256.
pub open spec fn dimension(byte: u8) -> nat {
    if byte == 0 {
        256
    } else {
        byte as nat
    }
}

pub open spec fn entry_width(b: Seq<u8>, i: int) -> nat {
    dimension(b[entry_offset(i)])
}

pub open spec fn entry_height(b: Seq<u8>, i: int) -> nat {
    dimension(b[entry_offset(i) + 1])
}

pub open spec fn entry_area(b: Seq<u8>, i: int) -> nat {
    entry_width(b, i) * entry_height(b, i)
}

pub open spec fn entry_size(b: Seq<u8>, i: int) -> nat {
    le32(b, entry_offset(i) + 8)
}

pub open spec fn entry_data_offset(b: Seq<u8>, i: int) -> nat {
    le32(b, entry_offset(i) + 12)
}

/// Entry `i` is a 32-bit image whose data lies inside the file.
pub open spec fn is_candidate(b: Seq<u8>, i: int) -> bool {
    &&& le16(b, entry_offset(i) + 6) == 32
    &&& entry_data_offset(b, i) + entry_size(b, i) <= b.len()
}

/// Entry `i` is the chosen image: a candidate of the largest area, the
/// first one among equals.
pub open spec fn is_best(b: Seq<u8>, i: int) -> bool {
    &&& 0 <= i < entries_read(b)
    &&& is_candidate(b, i)
    &&& forall|j: int|
        0 <= j < entries_read(b) && #[trigger] is_candidate(b, j) ==> entry_area(b, j)
            <= entry_area(b, i) && (j < i ==> entry_area(b, j) < entry_area(b, i))
}

/// Position, within a stored BGRA pixel, of the byte that gives byte `c`
/// of an RGBA pixel.
pub open spec fn bgra_offset(c: int) -> int {
    if c == 0 {
        2
    } else if c == 2 {
        0
    } else {
        c
    }
}

/// Position, in the stored pixel data of a `width` by `height` image whose
/// rows are stored bottom-up (as a DIB's are), of byte `k` of the RGBA
/// image read top-down: RGBA row `r` comes from stored row `height - 1 - r`.
pub open spec fn source_index(width: nat, height: nat, k: int) -> int {
    let p = k / 4;
    let r = p / (width as int);
    let x = p % (width as int);
    4 * ((height - 1 - r) * width + x) + bgra_offset(k % 4)
}

/// Where byte `c` of pixel (`x`, `r`) of the upright image comes from, and
/// that it lies inside the stored pixels.
proof fn lemma_source_index(w: nat, h: nat, r: int, x: int, c: int)
    requires
        0 < w,
        0 <= r < h,
        0 <= x < w,
        0 <= c < 4,
    ensures
        source_index(w, h, 4 * (r * w + x) + c) == 4 * ((h - 1 - r) * w + x) + bgra_offset(c),
        0 <= (h - 1 - r) * w + x < w * h,
{
    let p = r * w + x;
    vstd::arithmetic::div_mod::lemma_fundamental_div_mod_converse(4 * p + c, 4, p, c);
    vstd::arithmetic::div_mod::lemma_fundamental_div_mod_converse(p, w as int, r, x);
    assert(0 <= (h - 1 - r) * w + x < w * h) by (nonlinear_arith)
        requires
            0 < w,
            0 <= r < h,
            0 <= x < w,
    ;
}

/// The icon that `b` holds, or `None` when it has no usable 32-bit image.
pub open spec fn spec_load_icon(b: Seq<u8>) -> Option<IconView> {
    if b.len() < 6 || le16(b, 4) == 0 || !(exists|i: int| is_best(b, i)) {
        None
    } else {
        let i = choose|i: int| is_best(b, i);
        let start = entry_data_offset(b, i) as int;
        let dib = b.subrange(start, start + entry_size(b, i));
        let width = entry_width(b, i);
        let height = entry_height(b, i);
        if dib.len() < 40 || le32(dib, 0) < 40 || dib.len() < le32(dib, 0) {
            None
        } else {
            let pixels = dib.skip(le32(dib, 0) as int);
            let expected = width * height * 4;
            if pixels.len() < expected {
                None
            } else {
                Some(
                    IconView {
                        rgba: Seq::new(expected, |k: int| pixels[source_index(width, height, k)]),
                        width: width as u32,
                        height: height as u32,
                    },
                )
            }
        }
    }
}

/// The chosen image is unique.
pub proof fn lemma_best_unique(b: Seq<u8>, i: int, j: int)
    requires
        is_best(b, i),
        is_best(b, j),
    ensures
        i == j,
{
    if i < j {
        assert(is_candidate(b, i));
    } else if j < i {
        assert(is_candidate(b, j));
    }
}

fn read_le16(b: &[u8], o: usize) -> (res: u32)
    requires
        o + 2 <= b@.len(),
    ensures
        res == le16(b@, o as int),
{
    (b[o] as u32) + 256 * (b[o + 1] as u32)
}

fn read_le32(b: &[u8], o: usize) -> (res: u64)
    requires
        o + 4 <= b@.len(),
    ensures
        res == le32(b@, o as int),
{
    (b[o] as u64) + 256 * (b[o + 1] as u64) + 65536 * (b[o + 2] as u64) + 16777216 * (
    b[o + 3] as u64)
}

/// Finds the directory entry of the largest 32-bit image (the first one
/// among equals).
fn find_best(b: &[u8]) -> (res: Option<usize>)
    requires
        b@.len() >= 6,
    ensures
        match res {
            Some(i) => is_best(b@, i as int),
            None => forall|j: int| 0 <= j < entries_read(b@) ==> !#[trigger] is_candidate(b@, j),
        },
{
    let count = read_le16(b, 4) as usize;
    let len = b.len();
    let mut best: Option<usize> = None;
    let mut best_area: u32 = 0;
    let mut i: usize = 0;
    while i < count && 6 + 16 * i + 16 <= len
        invariant
            len == b@.len(),
            len >= 6,
            count == le16(b@, 4),
            i <= count,
            i <= entries_read(b@),
            6 + 16 * i <= len,
            match best {
                Some(bi) => {
                    &&& bi < i
                    &&& is_candidate(b@, bi as int)
                    &&& best_area == entry_area(b@, bi as int)
                    &&& forall|j: int|
                        0 <= j < i && #[trigger] is_candidate(b@, j) ==> entry_area(b@, j)
                            <= entry_area(b@, bi as int) && (j < bi ==> entry_area(b@, j)
                            < entry_area(b@, bi as int))
                },
                None => forall|j: int| 0 <= j < i ==> !#[trigger] is_candidate(b@, j),
            },
        decreases count - i,
    {
        let off = 6 + i * 16;
        let w: u32 = if b[off] == 0 { 256 } else { b[off] as u32 };
        let h: u32 = if b[off + 1] == 0 { 256 } else { b[off + 1] as u32 };
        let bpp = read_le16(b, off + 6);
        let size = read_le32(b, off + 8);
        let data_offset = read_le32(b, off + 12);
        assert(w == entry_width(b@, i as int) && h == entry_height(b@, i as int));
        if bpp == 32 && data_offset + size <= len as u64 {
            assert(w * h <= 65536) by (nonlinear_arith)
                requires
                    w <= 256,
                    h <= 256,
            ;
            let area = w * h;
            assert(is_candidate(b@, i as int));
            let better = match best {
                None => true,
                Some(_) => area > best_area,
            };
            if better {
                best = Some(i);
                best_area = area;
            }
        }
        i = i + 1;
    }
    assert(i == entries_read(b@));
    best
}

/// Decodes the largest 32-bit image of an ICO file into upright RGBA
/// pixels (the stored rows run bottom-up).
pub fn load_icon(ico_bytes: &[u8]) -> (res: Option<IconData>)
    ensures
        match res {
            Some(icon) => spec_load_icon(ico_bytes@) == Some(icon@),
            None => spec_load_icon(ico_bytes@) is None,
        },
{
    let b = ico_bytes;
    if b.len() < 6 {
        return None;
    }
    let count = read_le16(b, 4);
    if count == 0 {
        return None;
    }
    let best = find_best(b);
    let i = match best {
        None => {
            return None;
        },
        Some(i) => i,
    };
    proof {
        assert forall|j: int| is_best(b@, j) implies j == i by {
            lemma_best_unique(b@, i as int, j);
        }
    }
    let off = 6 + i * 16;
    let width: u32 = if b[off] == 0 { 256 } else { b[off] as u32 };
    let height: u32 = if b[off + 1] == 0 { 256 } else { b[off + 1] as u32 };
    let size = read_le32(b, off + 8) as usize;
    let data_offset = read_le32(b, off + 12) as usize;
    let ghost spec_dib = b@.subrange(data_offset as int, data_offset + size);
    let dib_len = size;
    if dib_len < 40 {
        return None;
    }
    let header_size = read_le32(b, data_offset) as usize;
    assert(header_size == le32(spec_dib, 0));
    if header_size < 40 || dib_len < header_size {
        return None;
    }
    let pixel_start = data_offset + header_size;
    let pixel_len = dib_len - header_size;
    assert(width * height <= 65536) by (nonlinear_arith)
        requires
            width <= 256,
            height <= 256,
    ;
    let npix = (width * height) as usize;
    let expected = npix * 4;
    assert(expected == width * height * 4);
    if pixel_len < expected {
        return None;
    }
    let ghost pixels = spec_dib.skip(header_size as int);
    let ghost wn = width as nat;
    let ghost hn = height as nat;
    let w = width as usize;
    let h = height as usize;
    let total_len = b.len();
    let mut rgba: Vec<u8> = Vec::new();
    let mut r: usize = 0;
    while r < h
        invariant
            w == width,
            h == height,
            wn == w,
            hn == h,
            1 <= w <= 256,
            1 <= h <= 256,
            r <= h,
            expected == 4 * (w * h),
            pixel_start + expected <= b@.len(),
            total_len == b@.len(),
            pixels.len() >= expected,
            forall|t: int| 0 <= t < pixels.len() ==> pixels[t] == b@[pixel_start + t],
            rgba@.len() == 4 * (r * w),
            forall|t: int|
                0 <= t < rgba@.len() ==> rgba@[t] == pixels[source_index(wn, hn, t)],
        decreases h - r,
    {
        let mut x: usize = 0;
        while x < w
            invariant
                w == width,
                h == height,
                wn == w,
                hn == h,
                1 <= w <= 256,
                1 <= h <= 256,
                r < h,
                x <= w,
                expected == 4 * (w * h),
                pixel_start + expected <= b@.len(),
                total_len == b@.len(),
            total_len == b@.len(),
                pixels.len() >= expected,
                forall|t: int| 0 <= t < pixels.len() ==> pixels[t] == b@[pixel_start + t],
                rgba@.len() == 4 * (r * w + x),
                forall|t: int|
                    0 <= t < rgba@.len() ==> rgba@[t] == pixels[source_index(wn, hn, t)],
            decreases w - x,
        {
            let row = h - 1 - r;
            proof {
                lemma_source_index(wn, hn, r as int, x as int, 0);
                assert(row * w + x < w * h);
            }
            let q = row * w + x;
            assert(4 * q + 4 <= expected);
            let p = pixel_start + 4 * q;
            let ghost k = 4 * (r * w + x);
            rgba.push(b[p + 2]);
            rgba.push(b[p + 1]);
            rgba.push(b[p]);
            rgba.push(b[p + 3]);
            proof {
                assert forall|t: int| 0 <= t < k + 4 implies rgba@[t] == pixels[source_index(
                    wn,
                    hn,
                    t,
                )] by {
                    if t >= k {
                        lemma_source_index(wn, hn, r as int, x as int, t - k);
                    }
                }
            }
            x = x + 1;
        }
        assert(4 * (r * w + w) == 4 * ((r + 1) * w)) by (nonlinear_arith);
        r = r + 1;
    }
    assert(4 * (h * w) == 4 * (w * h)) by (nonlinear_arith);
    let icon = IconData { rgba, width, height };
    assert(icon@.rgba =~= Seq::new(expected as nat, |t: int| pixels[source_index(wn, hn, t)]));
    Some(icon)
}

} // verus!
