use vstd::arithmetic::power::pow;
use vstd::arithmetic::power2::{lemma2_to64, lemma_pow2_strictly_increases, lemma_pow2_unfold, pow2};
use vstd::prelude::*;

verus! {

/// Number of set bits of a natural number.
pub open spec fn popcount(x: nat) -> nat
    decreases x,
{
    if x == 0 {
        0
    } else {
        (x % 2) + popcount(x / 2)
    }
}

/// Hamming distance between two 64-bit perceptual hashes.
pub open spec fn spec_hamming(a: u64, b: u64) -> nat {
    popcount((a ^ b) as nat)
}

proof fn lemma_popcount_bounded_by_width(x: nat, k: nat)
    requires
        x < pow2(k),
    ensures
        popcount(x) <= k,
    decreases k,
{
    if k == 0 {
        assert(pow2(0) == 1) by {
            reveal(pow);
        }
        assert(x == 0);
    } else {
        lemma_pow2_unfold(k);
        if x > 0 {
            lemma_popcount_bounded_by_width(x / 2, (k - 1) as nat);
        }
    }
}

/// A number has no set bit exactly when it is zero.
pub proof fn lemma_popcount_zero_iff(x: nat)
    ensures
        popcount(x) == 0 <==> x == 0,
    decreases x,
{
    if x > 0 {
        lemma_popcount_zero_iff(x / 2);
    }
}

/// The population count of a 64-bit value is at most 64.
pub proof fn lemma_popcount_u64(x: u64)
    ensures
        popcount(x as nat) <= 64,
{
    lemma2_to64();
    lemma_popcount_bounded_by_width(x as nat, 64);
}

/// Counts the bits in which two hashes differ.
pub fn hamming_distance(hash1: u64, hash2: u64) -> (distance: u32)
    ensures
        distance == spec_hamming(hash1, hash2),
        distance <= 64,
{
    let x: u64 = hash1 ^ hash2;
    proof {
        lemma_popcount_u64(x);
    }
    let mut v: u64 = x;
    let mut count: u32 = 0;
    while v != 0
        invariant
            count + popcount(v as nat) == popcount(x as nat),
            popcount(x as nat) <= 64,
        decreases v,
    {
        assert(popcount(v as nat) == (v as nat % 2) + popcount(v as nat / 2));
        count = count + (v % 2) as u32;
        v = v / 2;
    }
    count
}

/// Whether two hashes differ in at least `threshold` bits.
pub fn has_significant_change(hash1: u64, hash2: u64, threshold: u32) -> (changed: bool)
    ensures
        changed == (spec_hamming(hash1, hash2) >= threshold),
{
    hamming_distance(hash1, hash2) >= threshold
}

/// A hash is at distance zero from itself, and at distance zero only from itself.
pub proof fn lemma_hamming_zero_iff_equal(a: u64, b: u64)
    ensures
        spec_hamming(a, b) == 0 <==> a == b,
{
    lemma_popcount_zero_iff((a ^ b) as nat);
    assert((a ^ b) == 0u64 <==> a == b) by (bit_vector);
}

/// The distance does not depend on the order of the two hashes.
pub proof fn lemma_hamming_symmetric(a: u64, b: u64)
    ensures
        spec_hamming(a, b) == spec_hamming(b, a),
{
    assert(a ^ b == b ^ a) by (bit_vector);
}

proof fn lemma_popcount_triangle(a: u64, b: u64, c: u64)
    ensures
        popcount((a ^ c) as nat) <= popcount((a ^ b) as nat) + popcount((b ^ c) as nat),
    decreases a as int + b as int + c as int,
{
    assert((a ^ c) / 2 == (a / 2) ^ (c / 2)) by (bit_vector);
    assert((a ^ b) / 2 == (a / 2) ^ (b / 2)) by (bit_vector);
    assert((b ^ c) / 2 == (b / 2) ^ (c / 2)) by (bit_vector);
    assert((a ^ c) % 2 <= (a ^ b) % 2 + (b ^ c) % 2) by (bit_vector);
    if a == 0 && b == 0 && c == 0 {
        assert((a ^ c) == 0u64 && (a ^ b) == 0u64 && (b ^ c) == 0u64) by (bit_vector)
            requires
                a == 0 && b == 0 && c == 0,
        ;
    } else {
        lemma_popcount_triangle(a / 2, b / 2, c / 2);
    }
}

/// The distance between hashes obeys the triangle inequality: going through a third hash
/// is never shorter.
pub proof fn lemma_hamming_triangle(a: u64, b: u64, c: u64)
    ensures
        spec_hamming(a, c) <= spec_hamming(a, b) + spec_hamming(b, c),
{
    lemma_popcount_triangle(a, b, c);
}

proof fn lemma_popcount_all_ones(k: nat)
    ensures
        popcount((pow2(k) - 1) as nat) == k,
    decreases k,
{
    if k == 0 {
        assert(pow2(0) == 1) by {
            reveal(pow);
        }
    } else {
        lemma_pow2_unfold(k);
        vstd::arithmetic::power2::lemma_pow2_pos((k - 1) as nat);
        let p = pow2((k - 1) as nat);
        assert(((2 * p - 1) as nat) / 2 == (p - 1) as nat);
        assert(((2 * p - 1) as nat) % 2 == 1);
        lemma_popcount_all_ones((k - 1) as nat);
    }
}

/// Opposite hashes, all zeros against all ones, are as far apart as hashes can be.
pub proof fn lemma_hamming_opposites()
    ensures
        spec_hamming(0, u64::MAX) == 64,
{
    lemma2_to64();
    assert((0u64 ^ 0xffff_ffff_ffff_ffffu64) == 0xffff_ffff_ffff_ffffu64) by (bit_vector);
    lemma_popcount_all_ones(64);
}

/// Comparing a hash with itself never reports a significant change once the threshold is positive.
pub proof fn lemma_no_change_against_itself(h: u64, threshold: u32)
    requires
        threshold > 0,
    ensures
        !(spec_hamming(h, h) >= threshold),
{
    lemma_hamming_zero_iff_equal(h, h);
}

// ---------------------------------------------------------------------------
// Difference hash
// ---------------------------------------------------------------------------
/// A screenshot as raw RGBA bytes, row by row.
pub struct RgbaFrame {
    width: u32,
    height: u32,
    pixels: Vec<u8>,
}

impl RgbaFrame {
    /// Holds four bytes per pixel.
    pub open spec fn wf(&self) -> bool {
        self.spec_pixels().len() == self.spec_width() as int * self.spec_height() as int * 4
    }

    /// The width in pixels.
    pub closed spec fn spec_width(&self) -> u32 {
        self.width
    }

    /// The height in pixels.
    pub closed spec fn spec_height(&self) -> u32 {
        self.height
    }

    /// The RGBA bytes.
    pub closed spec fn spec_pixels(&self) -> Seq<u8> {
        self.pixels@
    }

    /// A frame from its dimensions and bytes, when the bytes hold exactly four per pixel.
    pub fn new(width: u32, height: u32, pixels: Vec<u8>) -> (frame: Option<Self>)
        ensures
            frame is Some <==> pixels@.len() == width as int * height as int * 4,
            frame matches Some(f) ==> f.wf() && f.spec_width() == width && f.spec_height()
                == height && f.spec_pixels() == pixels@,
    {
        assert((width as int) * (height as int) * 4 <= u128::MAX) by (nonlinear_arith)
            requires
                width <= u32::MAX,
                height <= u32::MAX,
        ;
        assert((width as int) * (height as int) <= u128::MAX) by (nonlinear_arith)
            requires
                width <= u32::MAX,
                height <= u32::MAX,
        ;
        let expected: u128 = (width as u128) * (height as u128) * 4;
        if (pixels.len() as u128) == expected {
            Some(RgbaFrame { width, height, pixels })
        } else {
            None
        }
    }

    /// The width in pixels.
    pub fn width(&self) -> (w: u32)
        ensures
            w == self.spec_width(),
    {
        self.width
    }

    /// The height in pixels.
    pub fn height(&self) -> (h: u32)
        ensures
            h == self.spec_height(),
    {
        self.height
    }
}

// ---------------------------------------------------------------------------
// Pasting one picture onto another
// ---------------------------------------------------------------------------
/// Row `row` of a canvas `canvas_width` pixels wide, after a picture `picture_width` by
/// `picture_height` pixels has been pasted with its top left corner at (`x`, `y`): within
/// the picture's rows, the canvas's bytes left of `x`, then the picture's row, then the
/// canvas's bytes right of the picture; elsewhere the canvas's row as it was.
pub open spec fn spec_pasted_row(
    canvas: Seq<u8>,
    canvas_width: nat,
    picture: Seq<u8>,
    picture_width: nat,
    picture_height: nat,
    x: nat,
    y: nat,
    row: nat,
) -> Seq<u8> {
    let line = canvas.subrange((row * canvas_width * 4) as int, ((row + 1) * canvas_width * 4) as int);
    if y <= row < y + picture_height {
        let r = (row - y) as nat;
        line.subrange(0, (x * 4) as int) + picture.subrange(
            (r * picture_width * 4) as int,
            ((r + 1) * picture_width * 4) as int,
        ) + line.subrange(((x + picture_width) * 4) as int, (canvas_width * 4) as int)
    } else {
        line
    }
}

/// The first `rows` rows of the canvas after the paste, one after the other.
pub open spec fn spec_pasted_rows(
    canvas: Seq<u8>,
    canvas_width: nat,
    picture: Seq<u8>,
    picture_width: nat,
    picture_height: nat,
    x: nat,
    y: nat,
    rows: nat,
) -> Seq<u8>
    decreases rows,
{
    if rows == 0 {
        Seq::empty()
    } else {
        spec_pasted_rows(canvas, canvas_width, picture, picture_width, picture_height, x, y, (rows - 1) as nat)
            + spec_pasted_row(
            canvas,
            canvas_width,
            picture,
            picture_width,
            picture_height,
            x,
            y,
            (rows - 1) as nat,
        )
    }
}

/// Whether a picture fits on a canvas with its top left corner at (`x`, `y`).
pub open spec fn spec_fits_at(canvas: RgbaFrame, picture: RgbaFrame, x: u32, y: u32) -> bool {
    x + picture.spec_width() <= canvas.spec_width() && y + picture.spec_height()
        <= canvas.spec_height()
}

/// The bytes of `canvas` after `picture` is pasted at (`x`, `y`).
pub open spec fn spec_paste(canvas: RgbaFrame, picture: RgbaFrame, x: u32, y: u32) -> Seq<u8> {
    spec_pasted_rows(
        canvas.spec_pixels(),
        canvas.spec_width() as nat,
        picture.spec_pixels(),
        picture.spec_width() as nat,
        picture.spec_height() as nat,
        x as nat,
        y as nat,
        canvas.spec_height() as nat,
    )
}

proof fn lemma_row_bounds(row: nat, rows: nat, width: nat)
    requires
        row < rows,
    ensures
        row * width * 4 + width * 4 == (row + 1) * width * 4,
        (row + 1) * width * 4 <= rows * width * 4,
        rows * width * 4 == width * rows * 4,
        0 <= row * width,
        row * width <= row * width * 4,
{
    assert((row + 1) * width * 4 <= rows * width * 4) by (nonlinear_arith)
        requires
            row < rows,
    ;
    assert(row * width * 4 + width * 4 == (row + 1) * width * 4) by (nonlinear_arith);
    assert(rows * width * 4 == width * rows * 4) by (nonlinear_arith);
    assert(0 <= row * width) by (nonlinear_arith);
}

/// Every pasted row is as wide as the canvas.
proof fn lemma_pasted_row_len(
    canvas: Seq<u8>,
    canvas_width: nat,
    picture: Seq<u8>,
    picture_width: nat,
    picture_height: nat,
    x: nat,
    y: nat,
    row: nat,
    rows: nat,
)
    requires
        canvas.len() == canvas_width * rows * 4,
        picture.len() == picture_width * picture_height * 4,
        x + picture_width <= canvas_width,
        y + picture_height <= rows,
        row < rows,
    ensures
        spec_pasted_row(canvas, canvas_width, picture, picture_width, picture_height, x, y, row).len()
            == canvas_width * 4,
{
    lemma_row_bounds(row, rows, canvas_width);
    if y <= row < y + picture_height {
        lemma_row_bounds((row - y) as nat, picture_height, picture_width);
    }
}

/// The pasted rows are as long as the rows of the canvas they replace.
proof fn lemma_pasted_rows_len(
    canvas: Seq<u8>,
    canvas_width: nat,
    picture: Seq<u8>,
    picture_width: nat,
    picture_height: nat,
    x: nat,
    y: nat,
    rows: nat,
    height: nat,
)
    requires
        canvas.len() == canvas_width * height * 4,
        picture.len() == picture_width * picture_height * 4,
        x + picture_width <= canvas_width,
        y + picture_height <= height,
        rows <= height,
    ensures
        spec_pasted_rows(canvas, canvas_width, picture, picture_width, picture_height, x, y, rows).len()
            == rows * canvas_width * 4,
    decreases rows,
{
    if rows == 0 {
        assert(rows * canvas_width * 4 == 0);
    } else {
        lemma_pasted_rows_len(
            canvas,
            canvas_width,
            picture,
            picture_width,
            picture_height,
            x,
            y,
            (rows - 1) as nat,
            height,
        );
        lemma_pasted_row_len(
            canvas,
            canvas_width,
            picture,
            picture_width,
            picture_height,
            x,
            y,
            (rows - 1) as nat,
            height,
        );
        lemma_row_bounds((rows - 1) as nat, height, canvas_width);
        assert(rows * canvas_width * 4 == (rows - 1) * canvas_width * 4 + canvas_width * 4)
            by (nonlinear_arith);
    }
}

/// Byte `j` of row `row` of the pasted rows is byte `j` of that pasted row.
proof fn lemma_pasted_rows_index(
    canvas: Seq<u8>,
    canvas_width: nat,
    picture: Seq<u8>,
    picture_width: nat,
    picture_height: nat,
    x: nat,
    y: nat,
    rows: nat,
    height: nat,
    row: nat,
    j: nat,
)
    requires
        canvas.len() == canvas_width * height * 4,
        picture.len() == picture_width * picture_height * 4,
        x + picture_width <= canvas_width,
        y + picture_height <= height,
        rows <= height,
        row < rows,
        j < canvas_width * 4,
    ensures
        row * canvas_width * 4 + j < rows * canvas_width * 4,
        spec_pasted_rows(canvas, canvas_width, picture, picture_width, picture_height, x, y, rows)[(row
            * canvas_width * 4 + j) as int] == spec_pasted_row(
            canvas,
            canvas_width,
            picture,
            picture_width,
            picture_height,
            x,
            y,
            row,
        )[j as int],
    decreases rows,
{
    let last = (rows - 1) as nat;
    lemma_row_bounds(row, rows, canvas_width);
    lemma_pasted_rows_len(canvas, canvas_width, picture, picture_width, picture_height, x, y, last, height);
    lemma_pasted_row_len(canvas, canvas_width, picture, picture_width, picture_height, x, y, last, height);
    if row < last {
        lemma_pasted_rows_index(
            canvas,
            canvas_width,
            picture,
            picture_width,
            picture_height,
            x,
            y,
            last,
            height,
            row,
            j,
        );
        lemma_row_bounds(row, last, canvas_width);
    }
}

/// Pasting a picture that fits copies it pixel by pixel: a pixel of the canvas that the
/// picture covers now holds the picture's pixel at the same offset from its corner, and
/// every other pixel keeps its bytes.
pub proof fn lemma_paste_pixels(canvas: RgbaFrame, picture: RgbaFrame, x: u32, y: u32, px: nat, py: nat, k: nat)
    requires
        canvas.wf(),
        picture.wf(),
        spec_fits_at(canvas, picture, x, y),
        px < canvas.spec_width(),
        py < canvas.spec_height(),
        k < 4,
    ensures
        ({
            let cw = canvas.spec_width() as nat;
            let pw = picture.spec_width() as nat;
            let i = ((py * cw + px) * 4 + k) as int;
            if x <= px < x + pw && y <= py < y + picture.spec_height() {
                spec_paste(canvas, picture, x, y)[i] == picture.spec_pixels()[((py - y) * pw + (px - x))
                    * 4 + k]
            } else {
                spec_paste(canvas, picture, x, y)[i] == canvas.spec_pixels()[i]
            }
        }),
{
    let cw = canvas.spec_width() as nat;
    let ch = canvas.spec_height() as nat;
    let pw = picture.spec_width() as nat;
    let ph = picture.spec_height() as nat;
    let c = canvas.spec_pixels();
    let p = picture.spec_pixels();
    assert(c.len() == cw * ch * 4);
    assert(p.len() == pw * ph * 4);
    let j = px * 4 + k;
    assert((py * cw + px) * 4 + k == py * cw * 4 + j) by (nonlinear_arith)
        requires
            j == px * 4 + k,
    ;
    lemma_pasted_rows_index(c, cw, p, pw, ph, x as nat, y as nat, ch, ch, py, j);
    lemma_row_bounds(py, ch, cw);
    if y <= py < y + ph {
        let r = (py - y) as nat;
        lemma_row_bounds(r, ph, pw);
        assert(((py - y) * pw + (px - x)) * 4 + k == r * pw * 4 + (j - x * 4)) by (nonlinear_arith)
            requires
                r == py - y,
                j == px * 4 + k,
        ;
    }
}

impl RgbaFrame {
    /// A picture of the given size in which every pixel has the colour `rgba`.
    pub fn filled(width: u32, height: u32, rgba: [u8; 4]) -> (frame: RgbaFrame)
        requires
            width as int * height as int * 4 <= usize::MAX,
        ensures
            frame.wf(),
            frame.spec_width() == width,
            frame.spec_height() == height,
            forall|i: int|
                0 <= i < frame.spec_pixels().len() ==> #[trigger] frame.spec_pixels()[i]
                    == rgba[i % 4],
    {
        let count: usize = (width as usize) * (height as usize);
        let mut pixels: Vec<u8> = Vec::new();
        let mut done: usize = 0;
        while done < count
            invariant
                done <= count,
                count == width as int * height as int,
                count * 4 <= usize::MAX,
                pixels@.len() == done * 4,
                forall|i: int| 0 <= i < pixels@.len() ==> #[trigger] pixels@[i] == rgba[i % 4],
            decreases count - done,
        {
            pixels.push(rgba[0]);
            pixels.push(rgba[1]);
            pixels.push(rgba[2]);
            pixels.push(rgba[3]);
            done = done + 1;
        }
        RgbaFrame { width, height, pixels }
    }

    /// The width, the height and the RGBA bytes.
    pub fn into_parts(self) -> (parts: (u32, u32, Vec<u8>))
        ensures
            parts.0 == self.spec_width(),
            parts.1 == self.spec_height(),
            parts.2@ == self.spec_pixels(),
    {
        (self.width, self.height, self.pixels)
    }

    /// This picture with `picture` pasted over it, top left corner at (`x`, `y`); `None`,
    /// leaving nothing changed, when the picture does not fit.
    pub fn paste(&self, picture: &RgbaFrame, x: u32, y: u32) -> (pasted: Option<RgbaFrame>)
        requires
            self.wf(),
            picture.wf(),
        ensures
            pasted is Some <==> spec_fits_at(*self, *picture, x, y),
            pasted matches Some(p) ==> p.wf() && p.spec_width() == self.spec_width()
                && p.spec_height() == self.spec_height() && p.spec_pixels() == spec_paste(
                *self,
                *picture,
                x,
                y,
            ),
    {
        if picture.width > self.width || self.width - picture.width < x || picture.height
            > self.height || self.height - picture.height < y {
            return None;
        }
        let ghost canvas = self.pixels@;
        let ghost source = picture.pixels@;
        let ghost cw = self.width as nat;
        let ghost ch = self.height as nat;
        let ghost pw = picture.width as nat;
        let ghost ph = picture.height as nat;
        let width = self.width as usize;
        let height = self.height as usize;
        let pwidth = picture.width as usize;
        let pheight = picture.height as usize;
        let left = x as usize;
        let top = y as usize;
        let total = self.pixels.len();
        let ptotal = picture.pixels.len();
        let mut out: Vec<u8> = Vec::new();
        let mut row: usize = 0;
        while row < height
            invariant
                self.wf(),
                picture.wf(),
                canvas == self.pixels@,
                total == canvas.len(),
                ptotal == source.len(),
                source == picture.pixels@,
                cw == width,
                ch == height,
                pw == pwidth,
                ph == pheight,
                width == self.width,
                height == self.height,
                pwidth == picture.width,
                pheight == picture.height,
                left == x,
                top == y,
                left + pwidth <= width,
                top + pheight <= height,
                row <= height,
                out@ == spec_pasted_rows(canvas, cw, source, pw, ph, x as nat, y as nat, row as nat),
            decreases height - row,
        {
            proof {
                lemma_row_bounds(row as nat, ch, cw);
                lemma_pasted_rows_len(canvas, cw, source, pw, ph, x as nat, y as nat, row as nat, ch);
            }
            let start: usize = row * width * 4;
            let end: usize = start + width * 4;
            let line = vstd::slice::slice_subrange(self.pixels.as_slice(), start, end);
            let ghost before = out@;
            if top <= row && row < top + pheight {
                let r: usize = row - top;
                proof {
                    lemma_row_bounds(r as nat, ph, pw);
                }
                let from: usize = r * pwidth * 4;
                let to: usize = from + pwidth * 4;
                out.extend_from_slice(vstd::slice::slice_subrange(line, 0, left * 4));
                out.extend_from_slice(vstd::slice::slice_subrange(picture.pixels.as_slice(), from, to));
                out.extend_from_slice(
                    vstd::slice::slice_subrange(line, (left + pwidth) * 4, width * 4),
                );
                proof {
                    let lw = canvas.subrange(row * cw * 4, (row + 1) * cw * 4);
                    assert(line@ =~= lw);
                    assert(out@ =~= before + spec_pasted_row(
                        canvas,
                        cw,
                        source,
                        pw,
                        ph,
                        x as nat,
                        y as nat,
                        row as nat,
                    ));
                }
            } else {
                out.extend_from_slice(line);
                proof {
                    assert(line@ =~= canvas.subrange(row * cw * 4, (row + 1) * cw * 4));
                    assert(out@ =~= before + spec_pasted_row(
                        canvas,
                        cw,
                        source,
                        pw,
                        ph,
                        x as nat,
                        y as nat,
                        row as nat,
                    ));
                }
            }
            row = row + 1;
        }
        proof {
            lemma_pasted_rows_len(canvas, cw, source, pw, ph, x as nat, y as nat, ch, ch);
            assert(ch * cw * 4 == cw * ch * 4) by (nonlinear_arith);
        }
        Some(RgbaFrame { width: self.width, height: self.height, pixels: out })
    }
}

/// The 9 by 8 grayscale thumbnail (row by row) that the image crate makes of an RGBA image
/// with a Lanczos filter.
pub uninterp spec fn spec_luma_thumbnail(width: u32, height: u32, rgba: Seq<u8>) -> Seq<u8>;

/// `image::DynamicImage::resize_exact(9, 8, Lanczos3)` followed by `to_luma8`.  The
/// contract names the thumbnail and keeps the size that `resize_exact` documents.
#[verifier::external_body]
pub(crate) fn luma_thumbnail(frame: &RgbaFrame) -> (thumbnail: Vec<u8>)
    requires
        frame.wf(),
    ensures
        thumbnail@ == spec_luma_thumbnail(frame.spec_width(), frame.spec_height(), frame.spec_pixels()),
        thumbnail@.len() == 72,
{
    let buffer = image::RgbaImage::from_raw(frame.width, frame.height, frame.pixels.clone()).unwrap();
    image::DynamicImage::ImageRgba8(buffer).resize_exact(9, 8, image::imageops::FilterType::Lanczos3)
        .to_luma8().into_raw()
}

/// Bit `i` of the hash (most significant first): whether pixel `i % 8` of row `i / 8` is
/// darker than its right neighbour.
pub open spec fn dhash_bit(px: Seq<u8>, i: int) -> nat {
    let y = i / 8;
    let x = i % 8;
    if px[y * 9 + x] < px[y * 9 + x + 1] {
        1
    } else {
        0
    }
}

/// The first `k` bits of the hash, as a number.
pub open spec fn dhash_prefix(px: Seq<u8>, k: nat) -> nat
    decreases k,
{
    if k == 0 {
        0
    } else {
        dhash_prefix(px, (k - 1) as nat) * 2 + dhash_bit(px, k - 1)
    }
}

/// The difference hash of a 9 by 8 thumbnail.
pub open spec fn spec_dhash(px: Seq<u8>) -> nat {
    dhash_prefix(px, 64)
}

proof fn lemma_dhash_prefix_bound(px: Seq<u8>, k: nat)
    ensures
        dhash_prefix(px, k) < pow2(k),
    decreases k,
{
    if k == 0 {
        assert(pow2(0) == 1) by {
            reveal(pow);
        }
    } else {
        lemma_dhash_prefix_bound(px, (k - 1) as nat);
        lemma_pow2_unfold(k);
    }
}

/// The difference hash of a 9 by 8 grayscale thumbnail.
pub fn dhash_of_thumbnail(px: &[u8]) -> (hash: u64)
    requires
        px@.len() == 72,
    ensures
        hash == spec_dhash(px@),
{
    proof {
        lemma2_to64();
    }
    let mut hash: u64 = 0;
    let mut i: usize = 0;
    while i < 64
        invariant
            px@.len() == 72,
            i <= 64,
            hash == dhash_prefix(px@, i as nat),
            pow2(64) == 0x1_0000_0000_0000_0000,
        decreases 64 - i,
    {
        proof {
            lemma_dhash_prefix_bound(px@, i as nat);
            lemma_pow2_strictly_increases(i as nat, 64);
            lemma_pow2_unfold((i + 1) as nat);
            if i + 1 < 64 {
                lemma_pow2_strictly_increases((i + 1) as nat, 64);
            }
        }
        let y = i / 8;
        let x = i % 8;
        let left = px[y * 9 + x];
        let right = px[y * 9 + x + 1];
        let bit: u64 = if left < right {
            1
        } else {
            0
        };
        hash = hash * 2 + bit;
        i = i + 1;
    }
    hash
}

/// The difference hash of a screenshot.
pub fn compute_dhash(image: &RgbaFrame) -> (hash: u64)
    requires
        image.wf(),
    ensures
        hash == spec_dhash(
            spec_luma_thumbnail(image.spec_width(), image.spec_height(), image.spec_pixels()),
        ),
{
    let thumbnail = luma_thumbnail(image);
    dhash_of_thumbnail(thumbnail.as_slice())
}

/// What `image::load_from_memory` decodes from some bytes, converted to RGBA with
/// `to_rgba8`: the width, the height and the bytes row by row; `None` when the bytes are
/// not an image the crate can read.
pub uninterp spec fn spec_decoded_rgba(bytes: Seq<u8>) -> Option<(u32, u32, Seq<u8>)>;

/// `image::load_from_memory`, then `to_rgba8`, read back as its dimensions and raw bytes;
/// a decoding error is passed on as its message.  The contract names the result, which
/// the bytes alone decide.
#[verifier::external_body]
fn decode_rgba(bytes: &[u8]) -> (decoded: Result<(u32, u32, Vec<u8>), String>)
    ensures
        match decoded {
            Ok((w, h, px)) => spec_decoded_rgba(bytes@) == Some((w, h, px@)),
            Err(_) => spec_decoded_rgba(bytes@) is None,
        },
{
    match image::load_from_memory(bytes) {
        Ok(image) => {
            let rgba = image.to_rgba8();
            let (width, height) = rgba.dimensions();
            Ok((width, height, rgba.into_raw()))
        },
        Err(error) => Err(error.to_string()),
    }
}

/// A screenshot read from the bytes of an image file: the decoded picture, or the reason
/// it cannot be read (including a picture whose bytes do not hold four per pixel).
pub fn frame_from_image_bytes(bytes: &[u8]) -> (frame: Result<RgbaFrame, String>)
    ensures
        match frame {
            Ok(f) => f.wf() && spec_decoded_rgba(bytes@) == Some(
                (f.spec_width(), f.spec_height(), f.spec_pixels()),
            ),
            Err(_) => match spec_decoded_rgba(bytes@) {
                None => true,
                Some((w, h, px)) => px.len() != w as int * h as int * 4,
            },
        },
{
    match decode_rgba(bytes) {
        Ok((width, height, pixels)) => match RgbaFrame::new(width, height, pixels) {
            Some(f) => Ok(f),
            None => Err("decoded image has an unexpected size".to_owned()),
        },
        Err(message) => Err(message),
    }
}

/// The picture (width, height, RGBA bytes) that `DynamicImage::resize` makes of an RGBA
/// picture to fit within the given bounds, keeping its aspect ratio, with a Lanczos filter.
pub uninterp spec fn spec_resized_within(
    width: u32,
    height: u32,
    rgba: Seq<u8>,
    max_width: u32,
    max_height: u32,
) -> (u32, u32, Seq<u8>);

/// `image::DynamicImage::resize` with `FilterType::Lanczos3`, read back with `to_rgba8`.
/// The contract names the result, which the picture and the bounds alone decide, says
/// that the bytes hold four per pixel (`to_rgba8` allocates exactly that many), and that
/// the picture fits within bounds of at least one pixel, as the crate documents.
#[verifier::external_body]
pub(crate) fn resize_within(frame: &RgbaFrame, max_width: u32, max_height: u32) -> (resized: (
    u32,
    u32,
    Vec<u8>,
))
    requires
        frame.wf(),
    ensures
        (resized.0, resized.1, resized.2@) == spec_resized_within(
            frame.spec_width(),
            frame.spec_height(),
            frame.spec_pixels(),
            max_width,
            max_height,
        ),
        resized.2@.len() == resized.0 as int * resized.1 as int * 4,
        max_width >= 1 && max_height >= 1 ==> resized.0 <= max_width && resized.1 <= max_height,
{
    let buffer = image::RgbaImage::from_raw(frame.width, frame.height, frame.pixels.clone()).unwrap();
    let resized = image::DynamicImage::ImageRgba8(buffer)
        .resize(max_width, max_height, image::imageops::FilterType::Lanczos3)
        .to_rgba8();
    let (width, height) = resized.dimensions();
    (width, height, resized.into_raw())
}

/// The PNG file that the image crate writes for an RGBA picture; `None` when it cannot.
pub uninterp spec fn spec_png(width: u32, height: u32, rgba: Seq<u8>) -> Option<Seq<u8>>;

/// `DynamicImage::write_to` with `ImageFormat::Png` into memory; an encoding error is passed
/// on as its message.  The contract names the result, which the picture alone decides.
#[verifier::external_body]
pub(crate) fn encode_png(frame: &RgbaFrame) -> (png: Result<Vec<u8>, String>)
    requires
        frame.wf(),
    ensures
        match png {
            Ok(bytes) => spec_png(frame.spec_width(), frame.spec_height(), frame.spec_pixels())
                == Some(bytes@),
            Err(_) => spec_png(frame.spec_width(), frame.spec_height(), frame.spec_pixels()) is None,
        },
{
    let buffer = image::RgbaImage::from_raw(frame.width, frame.height, frame.pixels.clone()).unwrap();
    let mut output = std::io::Cursor::new(Vec::new());
    match image::DynamicImage::ImageRgba8(buffer).write_to(&mut output, image::ImageFormat::Png) {
        Ok(()) => Ok(output.into_inner()),
        Err(error) => Err(error.to_string()),
    }
}

} // verus!
