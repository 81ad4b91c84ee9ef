//! The image: where each pixel lies in the buffer, and the buffer as text.
//!
//! Pixels are computed in any order. Each has its place in the buffer: rows
//! from the top of the picture to the bottom, in each row the pixels from
//! left to right, and of each pixel red, green and blue. The buffer is
//! written out as a plain PPM file.
use vstd::prelude::*;

verus! {

/// A picture of `width` by `height` pixels, three bytes each.
#[derive(Clone, Debug, PartialEq, Eq)]
pub struct Image {
    pub width: usize,
    pub height: usize,
    pub data: Vec<u8>,
}

/// The place in the buffer of the first byte of the pixel in column `x`,
/// counted from the left, and row `y`, counted from the bottom.
pub open spec fn offset(width: int, height: int, x: int, y: int) -> int {
    ((height - 1 - y) * width + x) * 3
}

/// The digits of `n` in base ten, as ASCII.
pub open spec fn decimal(n: nat) -> Seq<u8>
    decreases n,
{
    if n < 10 {
        seq![(48 + n) as u8]
    } else {
        decimal(n / 10).push((48 + n % 10) as u8)
    }
}

/// The head of a plain PPM file: the magic number, the size of the picture
/// and the greatest value of a channel, each on a line.
pub open spec fn ppm_header(width: nat, height: nat) -> Seq<u8> {
    seq![80u8, 51u8, 10u8] + decimal(width) + seq![32u8] + decimal(height) + seq![
        10u8,
        50u8,
        53u8,
        53u8,
        10u8,
    ]
}

/// One pixel of a plain PPM file: red, green and blue on a line.
pub open spec fn ppm_pixel(r: u8, g: u8, b: u8) -> Seq<u8> {
    decimal(r as nat) + seq![32u8] + decimal(g as nat) + seq![32u8] + decimal(b as nat) + seq![
        10u8,
    ]
}

/// The first `count` pixels of a buffer, one to a line.
pub open spec fn ppm_pixels(data: Seq<u8>, count: nat) -> Seq<u8>
    decreases count,
{
    if count == 0 {
        Seq::empty()
    } else {
        ppm_pixels(data, (count - 1) as nat) + ppm_pixel(
            data[3 * (count - 1)],
            data[3 * (count - 1) + 1],
            data[3 * (count - 1) + 2],
        )
    }
}

/// A picture as a plain PPM file.
pub open spec fn ppm(width: nat, height: nat, data: Seq<u8>) -> Seq<u8> {
    ppm_header(width, height) + ppm_pixels(data, width * height)
}

/// Appends the digits of `n` to `out`.
fn push_decimal(out: &mut Vec<u8>, n: usize)
    ensures
        final(out)@ == old(out)@ + decimal(n as nat),
{
    let mut digits: Vec<u8> = Vec::new();
    let mut m: usize = n;
    while m >= 10
        invariant
            decimal(n as nat) == decimal(m as nat) + digits@.reverse(),
        decreases m,
    {
        let ghost before = digits@;
        digits.push((48 + m % 10) as u8);
        proof {
            let d = (48 + m % 10) as u8;
            assert(digits@.reverse() =~= seq![d] + before.reverse());
            assert(decimal(m as nat) == decimal((m / 10) as nat).push(d));
            assert(decimal((m / 10) as nat).push(d) + before.reverse() =~= decimal(
                (m / 10) as nat,
            ) + digits@.reverse());
        }
        m = m / 10;
    }
    let ghost before = digits@;
    digits.push((48 + m) as u8);
    proof {
        assert(digits@.reverse() =~= seq![(48 + m) as u8] + before.reverse());
    }
    let ghost start = out@;
    let ghost text = digits@.reverse();
    let mut i: usize = digits.len();
    while i > 0
        invariant
            i <= digits@.len(),
            text == digits@.reverse(),
            out@ == start + text.subrange(0, digits@.len() - i),
        decreases i,
    {
        i = i - 1;
        out.push(digits[i]);
        assert(out@ =~= start + text.subrange(0, digits@.len() - i));
    }
    assert(text.subrange(0, digits@.len() as int) =~= text);
}

impl Image {
    /// The invariant of a picture: three bytes for every pixel.
    pub open spec fn wf(self) -> bool {
        self.data@.len() == self.width * self.height * 3
    }

    /// A black picture, if its buffer can be addressed at all.
    pub fn new(width: usize, height: usize) -> (image: Option<Image>)
        ensures
            image is Some <==> width * height * 3 <= usize::MAX,
            image matches Some(i) ==> i.wf() && i.width == width && i.height == height && forall|
                k: int,
            | 0 <= k < i.data@.len() ==> i.data@[k] == 0,
    {
        let pixels: usize = match width.checked_mul(height) {
            Some(p) => p,
            None => {
                return None;
            },
        };
        let bytes: usize = match pixels.checked_mul(3) {
            Some(b) => b,
            None => {
                return None;
            },
        };
        let mut data: Vec<u8> = Vec::new();
        let mut k: usize = 0;
        while k < bytes
            invariant
                k <= bytes,
                data@.len() == k,
                forall|j: int| 0 <= j < k ==> data@[j] == 0,
            decreases bytes - k,
        {
            data.push(0);
            k = k + 1;
        }
        Some(Image { width, height, data })
    }

    /// Sets the pixel in column `x`, counted from the left, and row `y`,
    /// counted from the bottom, and leaves every other pixel as it is.
    pub fn put(&mut self, x: usize, y: usize, rgb: [u8; 3])
        requires
            old(self).wf(),
            x < old(self).width,
            y < old(self).height,
        ensures
            final(self).wf(),
            final(self).width == old(self).width,
            final(self).height == old(self).height,
            final(self).data@ == old(self).data@.update(
                offset(old(self).width as int, old(self).height as int, x as int, y as int),
                rgb[0],
            ).update(
                offset(old(self).width as int, old(self).height as int, x as int, y as int) + 1,
                rgb[1],
            ).update(
                offset(old(self).width as int, old(self).height as int, x as int, y as int) + 2,
                rgb[2],
            ),
    {
        let row: usize = self.height - 1 - y;
        let total: usize = self.data.len();
        proof {
            offset_in_bounds(self.width as int, self.height as int, x as int, y as int);
            assert(0 <= row * self.width <= row * self.width + x < self.width * self.height)
                by (nonlinear_arith)
                requires
                    0 <= row < self.height,
                    0 <= x < self.width,
            ;
            assert(total == self.width * self.height * 3);
        }
        let at: usize = (row * self.width + x) * 3;
        self.data.set(at, rgb[0]);
        self.data.set(at + 1, rgb[1]);
        self.data.set(at + 2, rgb[2]);
    }

    /// The picture as a plain PPM file: a head of three lines, then the
    /// pixels from the top row to the bottom row, one to a line.
    pub fn to_ppm(&self) -> (text: Vec<u8>)
        requires
            self.wf(),
        ensures
            text@ == ppm(self.width as nat, self.height as nat, self.data@),
    {
        let mut out: Vec<u8> = Vec::new();
        out.push(80);
        out.push(51);
        out.push(10);
        push_decimal(&mut out, self.width);
        out.push(32);
        push_decimal(&mut out, self.height);
        out.push(10);
        out.push(50);
        out.push(53);
        out.push(53);
        out.push(10);
        assert(out@ =~= ppm_header(self.width as nat, self.height as nat));
        let ghost header = out@;
        let count: usize = self.data.len() / 3;
        assert(count == self.width * self.height);
        let mut i: usize = 0;
        while i < count
            invariant
                i <= count,
                count * 3 == self.data@.len(),
                self.data@.len() <= usize::MAX,
                out@ == header + ppm_pixels(self.data@, i as nat),
            decreases count - i,
        {
            let ghost before = out@;
            push_decimal(&mut out, self.data[3 * i] as usize);
            out.push(32);
            push_decimal(&mut out, self.data[3 * i + 1] as usize);
            out.push(32);
            push_decimal(&mut out, self.data[3 * i + 2] as usize);
            out.push(10);
            assert(out@ =~= before + ppm_pixel(
                self.data@[3 * i],
                self.data@[3 * i + 1],
                self.data@[3 * i + 2],
            ));
            assert(out@ =~= header + ppm_pixels(self.data@, (i + 1) as nat));
            i = i + 1;
        }
        out
    }
}

/// Every pixel has its three bytes inside the buffer.
pub proof fn offset_in_bounds(width: int, height: int, x: int, y: int)
    requires
        0 <= x < width,
        0 <= y < height,
    ensures
        0 <= offset(width, height, x, y),
        offset(width, height, x, y) + 3 <= width * height * 3,
{
    let row = height - 1 - y;
    assert(0 <= row * width) by (nonlinear_arith)
        requires
            0 <= row,
            0 <= width,
    ;
    assert(row * width + x + 1 <= width * height) by (nonlinear_arith)
        requires
            0 <= row <= height - 1,
            0 <= x < width,
    ;
}

/// No two pixels share a byte: pixels at different places lie three bytes
/// or more apart.
pub proof fn offsets_are_apart(width: int, height: int, x0: int, y0: int, x1: int, y1: int)
    requires
        0 <= x0 < width,
        0 <= y0 < height,
        0 <= x1 < width,
        0 <= y1 < height,
        x0 != x1 || y0 != y1,
    ensures
        offset(width, height, x0, y0) + 3 <= offset(width, height, x1, y1) || offset(
            width,
            height,
            x1,
            y1,
        ) + 3 <= offset(width, height, x0, y0),
{
    let r0 = height - 1 - y0;
    let r1 = height - 1 - y1;
    if r0 < r1 {
        assert(r0 * width + x0 < r1 * width + x1) by (nonlinear_arith)
            requires
                r0 + 1 <= r1,
                0 <= x0 < width,
                0 <= x1,
        ;
    } else if r1 < r0 {
        assert(r1 * width + x1 < r0 * width + x0) by (nonlinear_arith)
            requires
                r1 + 1 <= r0,
                0 <= x1 < width,
                0 <= x0,
        ;
    }
}

/// The rows are laid down from the top: of two pixels, the one in the
/// higher row comes first in the buffer, and of two in one row the one
/// further left.
pub proof fn rows_run_top_down(width: int, height: int, x0: int, y0: int, x1: int, y1: int)
    requires
        0 <= x0 < width,
        0 <= y0 < height,
        0 <= x1 < width,
        0 <= y1 < height,
        y0 > y1 || (y0 == y1 && x0 < x1),
    ensures
        offset(width, height, x0, y0) < offset(width, height, x1, y1),
{
    let r0 = height - 1 - y0;
    let r1 = height - 1 - y1;
    if r0 < r1 {
        assert(r0 * width + x0 < r1 * width + x1) by (nonlinear_arith)
            requires
                r0 + 1 <= r1,
                0 <= x0 < width,
                0 <= x1,
        ;
    }
}

} // verus!
