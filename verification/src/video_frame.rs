//! Choosing which still of a video becomes the wallpaper.
//!
//! Most video APODs are YouTube or Vimeo embeds, and for those the API hands
//! back a thumbnail. Some are served as a plain file instead, with no
//! thumbnail at all, and a frame is taken out of the file. Decoding is the
//! desktop's business; which frame to keep is decided here.
//!
//! Not the first frame: an APOD video often opens on black, on a fade-in, or
//! on a title card, none of which make a wallpaper. A few instants are tried in
//! order and the search stops at the first frame with enough contrast, so the
//! common case costs a single decode.

use vstd::prelude::*;

verus! {

/// Where in the video to look, in thousandths of its duration.
pub const PROBES_PERMILLE: [u64; 4] = [150, 400, 650, 850];

/// Instant used when the duration cannot be read, in milliseconds. A video
/// too short for it still yields its last frame rather than an error.
pub const FALLBACK_MS: u64 = 1000;

/// The instants to try, in milliseconds, for a video of the given duration.
pub open spec fn probes_for(duration_ms: Option<u64>) -> Seq<u64> {
    match duration_ms {
        Some(d) => if d > 0 {
            seq![
                (d * 150 / 1000) as u64,
                (d * 400 / 1000) as u64,
                (d * 650 / 1000) as u64,
                (d * 850 / 1000) as u64,
            ]
        } else {
            seq![FALLBACK_MS]
        },
        None => seq![FALLBACK_MS],
    }
}

fn fraction_of(d: u64, permille: u64) -> (r: u64)
    requires
        permille <= 1000,
    ensures
        r == d * permille / 1000,
{
    assert((d as u128) * (permille as u128) <= 18446744073709551615u128 * 1000) by (nonlinear_arith)
        requires permille <= 1000, d <= 18446744073709551615u64;
    let x: u128 = (d as u128) * (permille as u128) / 1000;
    assert(d * permille / 1000 <= d) by (nonlinear_arith)
        requires permille <= 1000;
    x as u64
}

/// An invalid or indefinite duration is read as `None`, and then one instant
/// near the start is the best guess left.
pub fn probe_instants(duration_ms: Option<u64>) -> (v: Vec<u64>)
    ensures
        v@ == probes_for(duration_ms),
{
    match duration_ms {
        Some(d) => if d > 0 {
            let v = vec![
                fraction_of(d, 150),
                fraction_of(d, 400),
                fraction_of(d, 650),
                fraction_of(d, 850),
            ];
            assert(v@ =~= probes_for(duration_ms));
            v
        } else {
            let v = vec![FALLBACK_MS];
            assert(v@ =~= probes_for(duration_ms));
            v
        },
        None => {
            let v = vec![FALLBACK_MS];
            assert(v@ =~= probes_for(duration_ms));
            v
        },
    }
}

/// Every probe of a known duration lands inside the video, and they come in
/// order: one at or past the end would seek past the last frame and turn a
/// video that decodes perfectly well into a skipped day.
pub proof fn law_probes_stay_inside_the_video(d: u64)
    requires
        d > 0,
    ensures
        forall|i: int| 0 <= i < 4 ==> #[trigger] probes_for(Some(d))[i] < d,
        forall|i: int, j: int| 0 <= i < j < 4 ==> probes_for(Some(d))[i] <= probes_for(Some(d))[j],
{
    assert(d * 150 / 1000 <= d * 400 / 1000 <= d * 650 / 1000 <= d * 850 / 1000 < d) by (nonlinear_arith)
        requires d > 0;
}

/// Rec. 601 luma of pixel `i` of an RGBA buffer, in thousandths.
pub open spec fn luma(px: Seq<u8>, i: int) -> int {
    299 * px[4 * i] + 587 * px[4 * i + 1] + 114 * px[4 * i + 2]
}

/// Luma weighs the channels of a pixel the Rec. 601 way, red being its first
/// byte: a pure red counts 299 thousandths of its level, a pure green 587 and
/// a pure blue 114, so that green outweighs red and red outweighs blue; a
/// grey pixel's luma is its own level, and the alpha byte plays no part.
pub proof fn law_luma_weighs_the_channels_by_rec_601(px: Seq<u8>, i: int, alpha: u8)
    requires
        0 <= i,
        4 * i + 3 < px.len(),
    ensures
        px[4 * i + 1] == 0 && px[4 * i + 2] == 0 ==> luma(px, i) == 299 * px[4 * i],
        px[4 * i] == 0 && px[4 * i + 2] == 0 ==> luma(px, i) == 587 * px[4 * i + 1],
        px[4 * i] == 0 && px[4 * i + 1] == 0 ==> luma(px, i) == 114 * px[4 * i + 2],
        px[4 * i] == px[4 * i + 1] == px[4 * i + 2] ==> luma(px, i) == 1000 * px[4 * i],
        luma(px.update(4 * i + 3, alpha), i) == luma(px, i),
        px[4 * i] > px[4 * i + 2] ==> luma(px, i) > luma(
            px.update(4 * i, px[4 * i + 2]).update(4 * i + 2, px[4 * i]),
            i,
        ),
{
}

/// The distance between sampled pixels: a few thousand pixels settle the
/// question, and the frames are screen-sized.
pub open spec fn sample_step(count: nat) -> nat {
    if count / 4096 >= 1 {
        count / 4096
    } else {
        1
    }
}

pub open spec fn luma_sum(px: Seq<u8>, step: nat, k: nat) -> int
    decreases k,
{
    if k == 0 {
        0
    } else {
        luma_sum(px, step, (k - 1) as nat) + luma(px, (k - 1) * step)
    }
}

pub open spec fn luma_square_sum(px: Seq<u8>, step: nat, k: nat) -> int
    decreases k,
{
    if k == 0 {
        0
    } else {
        luma_square_sum(px, step, (k - 1) as nat) + luma(px, (k - 1) * step) * luma(
            px,
            (k - 1) * step,
        )
    }
}

proof fn lemma_flat_sums(px: Seq<u8>, step: nat, k: nat, l: int)
    requires
        forall|i: int| 0 <= i < k ==> #[trigger] luma(px, i * step) == l,
    ensures
        luma_sum(px, step, k) == k * l,
        luma_square_sum(px, step, k) == k * (l * l),
    decreases k,
{
    if k > 0 {
        let j = (k - 1) as nat;
        lemma_flat_sums(px, step, j, l);
        assert(luma(px, (j as int) * step) == l);
        assert(j * l + l == k * l) by (nonlinear_arith)
            requires k == j + 1;
        assert(j * (l * l) + l * l == k * (l * l)) by (nonlinear_arith)
            requires k == j + 1;
    }
}

/// A frame that is entirely black, white, or one flat colour has no spread
/// at all, however bright it is: what separates a fade-in from a photograph
/// of the night sky. With every sampled pixel at the same luma, the variance
/// numerator `n * sum_sq - sum * sum` is zero.
pub proof fn law_a_flat_frame_has_no_contrast(px: Seq<u8>, step: nat, k: nat, l: int)
    requires
        forall|i: int| 0 <= i < k ==> #[trigger] luma(px, i * step) == l,
    ensures
        k * luma_square_sum(px, step, k) - luma_sum(px, step, k) * luma_sum(px, step, k) == 0,
{
    lemma_flat_sums(px, step, k, l);
    assert(k * (k * (l * l)) == (k * l) * (k * l)) by (nonlinear_arith);
}

/// The luminance statistics of a frame: how many pixels were sampled, and the
/// sum and sum of squares of their luma. Their spread is what separates a
/// fade-in from a photograph of the night sky: a frame that is entirely
/// black, white, or one flat colour has none, however bright it is.
#[derive(Debug, Clone, Copy)]
pub struct Contrast {
    samples: u64,
    sum: u64,
    sum_sq: u64,
}

impl Contrast {
    #[verifier::type_invariant]
    closed spec fn bounded(self) -> bool {
        &&& self.samples <= 8192
        &&& self.sum <= 255000 * self.samples
        &&& self.sum_sq <= 65025000000 * self.samples
    }

    pub closed spec fn spec_samples(self) -> nat {
        self.samples as nat
    }

    pub closed spec fn spec_sum(self) -> int {
        self.sum as int
    }

    pub closed spec fn spec_sum_sq(self) -> int {
        self.sum_sq as int
    }

    /// The variance of the sampled luma, in millionths, is `num / den`.
    pub open spec fn num(self) -> int {
        if self.spec_samples() == 0 {
            0
        } else {
            self.spec_samples() * self.spec_sum_sq() - self.spec_sum() * self.spec_sum()
        }
    }

    pub open spec fn den(self) -> int {
        if self.spec_samples() == 0 {
            1
        } else {
            (self.spec_samples() * self.spec_samples()) as int
        }
    }

    /// The standard deviation of the luma is at least `h` hundredths.
    pub open spec fn spec_at_least(self, h: nat) -> bool {
        10000 * self.num() >= h * h * 1000000 * self.den()
    }

    /// Contrast above which a frame is taken as the wallpaper without looking
    /// at the remaining probes: a standard deviation of 12. Well below what
    /// any real photograph scores; the point is only to walk past frames
    /// that are flat black, flat white, or a solid title card.
    pub open spec fn spec_good_enough(self) -> bool {
        self.spec_at_least(1200)
    }

    /// More spread than `other`.
    pub open spec fn spec_greater(self, other: Contrast) -> bool {
        self.num() * other.den() > other.num() * self.den()
    }

    fn num_den(&self) -> (r: (i128, i128))
        ensures
            r.0 == self.num(),
            r.1 == self.den(),
            r.0 <= 4363753881600000000,
            r.0 >= -(4363753881600000000),
            1 <= r.1 <= 67108864,
    {
        proof {
            use_type_invariant(self);
        }
        if self.samples == 0 {
            (0, 1)
        } else {
            let n = self.samples as i128;
            let s = self.sum as i128;
            let q = self.sum_sq as i128;
            proof {
                assert(0 <= n <= 8192);
                assert(0 <= s <= 255000 * n);
                assert(0 <= q <= 65025000000 * n);
                assert(0 <= n * q <= 4363753881600000000) by (nonlinear_arith)
                    requires 0 <= n <= 8192, 0 <= q <= 65025000000 * n;
                assert(0 <= s <= 2088960000) by (nonlinear_arith)
                    requires 0 <= s <= 255000 * n, n <= 8192;
                assert(0 <= s * s <= 4363753881600000000) by (nonlinear_arith)
                    requires 0 <= s <= 2088960000;
                assert(1 <= n * n <= 67108864) by (nonlinear_arith)
                    requires 1 <= n <= 8192;
            }
            let nq = n * q;
            assert(s * s <= 4363753881600000000);
            let ss = s * s;
            (nq - ss, n * n)
        }
    }

    /// The standard deviation of the luma is at least `h` hundredths.
    pub fn at_least(&self, h: u64) -> (b: bool)
        requires
            h <= 100000,
        ensures
            b == self.spec_at_least(h as nat),
    {
        let (num, den) = self.num_den();
        let h128 = h as i128;
        proof {
            assert(0 <= h128 * h128 <= 10000000000) by (nonlinear_arith)
                requires 0 <= h128 <= 100000;
        }
        let hh = h128 * h128;
        proof {
            assert(hh <= 10000000000) by (nonlinear_arith)
                requires hh == h * h, h <= 100000;
            assert(hh * 1000000 * den <= 671088640000000000000000000) by (nonlinear_arith)
                requires 0 <= hh <= 10000000000, 1 <= den <= 67108864;
            assert(hh * 1000000 * den >= 0) by (nonlinear_arith)
                requires 0 <= hh, 1 <= den;
        }
        assert(num >= -4363753881600000000);
        assert(10000 * num >= -43637538816000000000000);
        10000 * num >= hh * 1000000 * den
    }

    pub fn good_enough(&self) -> (b: bool)
        ensures
            b == self.spec_good_enough(),
    {
        self.at_least(1200)
    }

    pub fn greater_than(&self, other: &Contrast) -> (b: bool)
        ensures
            b == self.spec_greater(*other),
    {
        let (na, da) = self.num_den();
        let (nb, db) = other.num_den();
        proof {
            use_type_invariant(self);
            use_type_invariant(other);
            assert(-292849093064257126400000000 <= na * db <= 292849093064257126400000000) by (nonlinear_arith)
                requires -(4363753881600000000) <= na <= 4363753881600000000, 1 <= db <= 67108864;
            assert(-292849093064257126400000000 <= nb * da <= 292849093064257126400000000) by (nonlinear_arith)
                requires -(4363753881600000000) <= nb <= 4363753881600000000, 1 <= da <= 67108864;
        }
        na * db > nb * da
    }
}

fn pixel_luma(px: &[u8], i: usize) -> (l: u64)
    requires
        4 * i + 2 < px@.len(),
    ensures
        l == luma(px@, i as int),
        l <= 255000,
{
    let _len = px.len();
    299 * (px[4 * i] as u64) + 587 * (px[4 * i + 1] as u64) + 114 * (px[4 * i + 2] as u64)
}

/// The luminance statistics of an RGBA frame, sampled every
/// `sample_step(pixel count)` pixels from the first.
pub fn contrast(pixels: &[u8]) -> (c: Contrast)
    ensures
        ({
            let count = (pixels@.len() / 4) as nat;
            let step = sample_step(count);
            &&& c.spec_samples() * step >= count
            &&& count > 0 ==> (c.spec_samples() - 1) * step < count
            &&& c.spec_sum() == luma_sum(pixels@, step, c.spec_samples())
            &&& c.spec_sum_sq() == luma_square_sum(pixels@, step, c.spec_samples())
        }),
{
    let len = pixels.len();
    let count = len / 4;
    let step: usize = if count / 4096 >= 1 { count / 4096 } else { 1 };
    assert(step == sample_step(count as nat));
    assert(step <= count || count == 0);
    proof {
        assert(4096 * (count / 4096) <= count < 4096 * (count / 4096) + 4096) by (nonlinear_arith);
        assert(count < 8192 * step);
    }
    let mut i: usize = 0;
    let mut n: u64 = 0;
    let mut sum: u64 = 0;
    let mut sum_sq: u64 = 0;
    while i < count
        invariant
            count == pixels@.len() / 4,
            len == pixels@.len(),
            step <= count || count == 0,
            i <= count + step,
            step == sample_step(count as nat),
            1 <= step,
            count < 8192 * step,
            i == n * step,
            n > 0 ==> (n - 1) * step < count,
            n <= 8192,
            sum == luma_sum(pixels@, step as nat, n as nat),
            sum_sq == luma_square_sum(pixels@, step as nat, n as nat),
            sum <= 255000 * n,
            sum_sq <= 65025000000 * n,
        decreases count + step - i,
    {
        proof {
            assert(n < 8192) by (nonlinear_arith)
                requires n * step < 8192 * step, step >= 1;
            assert(4 * i + 2 < pixels@.len());
        }
        let l = pixel_luma(pixels, i);
        proof {
            assert(l * l <= 65025000000) by (nonlinear_arith)
                requires l <= 255000;
            assert((n + 1) * step == n * step + step) by (nonlinear_arith);
            assert(((n + 1) - 1) * step == i);
        }
        sum = sum + l;
        sum_sq = sum_sq + l * l;
        n = n + 1;
        i = i + step;
    }
    proof {
        assert(n * step >= count);
    }
    Contrast { samples: n, sum, sum_sq }
}

/// What to do with a frame just decoded.
#[derive(Debug, Clone, Copy, PartialEq, Eq, Structural)]
pub enum Verdict {
    /// Enough contrast: take it and stop looking.
    TakeNow,
    /// The best so far: keep it in case no later frame does better.
    KeepAsBest,
    /// No better than one already kept.
    Discard,
}

/// The search for a frame across the probes.
pub struct FrameSearch {
    best: Option<Contrast>,
    last_error: String,
}

impl FrameSearch {
    pub closed spec fn spec_best(&self) -> Option<Contrast> {
        self.best
    }

    pub closed spec fn spec_last_error(&self) -> Seq<char> {
        self.last_error@
    }

    pub fn new() -> (s: FrameSearch)
        ensures
            s.spec_best() is None,
            s.spec_last_error() == "The video yielded no frame."@,
    {
        FrameSearch { best: None, last_error: String::from_str("The video yielded no frame.") }
    }

    /// Judges a decoded frame by its contrast.
    pub fn offer(&mut self, score: Contrast) -> (v: Verdict)
        ensures
            final(self).spec_last_error() == old(self).spec_last_error(),
            score.spec_good_enough() ==> v == Verdict::TakeNow && final(self).spec_best() == old(self).spec_best(),
            !score.spec_good_enough() && (old(self).spec_best() is None || score.spec_greater(old(self).spec_best()->0))
                ==> v == Verdict::KeepAsBest && final(self).spec_best() == Some(score),
            !score.spec_good_enough() && old(self).spec_best() is Some && !score.spec_greater(old(self).spec_best()->0)
                ==> v == Verdict::Discard && final(self).spec_best() == old(self).spec_best(),
    {
        if score.good_enough() {
            return Verdict::TakeNow;
        }
        let better = match &self.best {
            Some(b) => score.greater_than(b),
            None => true,
        };
        if better {
            self.best = Some(score);
            Verdict::KeepAsBest
        } else {
            Verdict::Discard
        }
    }

    /// Records a probe that yielded no frame.
    pub fn offer_error(&mut self, message: String)
        ensures
            final(self).spec_best() == old(self).spec_best(),
            final(self).spec_last_error() == message@,
    {
        self.last_error = message;
    }

    /// How the search ended once every probe was tried: with the frame kept
    /// as the best -- every probe was flat, so the video really does look like
    /// that -- or, when none decoded, with the last error.
    pub fn outcome(&self) -> (r: Result<(), String>)
        ensures
            self.spec_best() is Some ==> r is Ok,
            self.spec_best() is None ==> (r matches Err(e) && e@ == self.spec_last_error()),
    {
        match &self.best {
            Some(_) => Ok(()),
            None => Err(self.last_error.clone()),
        }
    }
}

} // verus!

verus! {

/// Why the rows of a decoded frame cannot be packed, if they cannot: `width`
/// and `height` in pixels, `stride` the distance in bytes from one row to the
/// next in a plane of `len` bytes.
pub open spec fn pack_error(width: nat, height: nat, stride: nat, len: nat) -> Option<Seq<char>> {
    if width == 0 || height == 0 {
        Some("The extracted frame has no pixels."@)
    } else if 4 * width > usize::MAX {
        Some("The extracted frame is implausibly large."@)
    } else if stride < 4 * width {
        Some("The frame's rows are shorter than its width."@)
    } else if 4 * width * height > usize::MAX {
        Some("The extracted frame is implausibly large."@)
    } else if len < (height - 1) * stride + 4 * width {
        Some("The frame did not fill its buffer."@)
    } else {
        None
    }
}

/// Byte `x` of row `y` in a buffer whose rows start `pitch` bytes apart.
pub open spec fn row_byte(s: Seq<u8>, pitch: int, y: int, x: int) -> u8 {
    s[y * pitch + x]
}

proof fn lemma_row_index(y: int, x: int, pitch: int, rows: int)
    requires
        0 <= y < rows,
        0 <= x < pitch,
    ensures
        0 <= y * pitch + x < rows * pitch,
        y * pitch + x + 1 <= (y + 1) * pitch,
{
    assert(0 <= y * pitch + x < rows * pitch) by (nonlinear_arith)
        requires 0 <= y < rows, 0 <= x < pitch;
    assert(y * pitch + x + 1 <= (y + 1) * pitch) by (nonlinear_arith)
        requires 0 <= x < pitch;
}

/// Packs the rows of an RGBA plane whose rows may be padded to `stride`
/// bytes into a buffer of `4 * width * height` bytes, row after row.
pub fn pack_rows(width: usize, height: usize, stride: usize, data: &[u8]) -> (r: Result<Vec<u8>, String>)
    ensures
        match pack_error(width as nat, height as nat, stride as nat, data@.len()) {
            Some(m) => r matches Err(e) && e@ == m,
            None => r matches Ok(v) && {
                &&& v@.len() == 4 * width * height
                &&& forall|y: int, x: int| 0 <= y < height && 0 <= x < 4 * width
                    ==> #[trigger] row_byte(v@, 4 * width, y, x) == row_byte(data@, stride as int, y, x)
            },
        },
{
    if width == 0 || height == 0 {
        return Err(String::from_str("The extracted frame has no pixels."));
    }
    if width > usize::MAX / 4 {
        return Err(String::from_str("The extracted frame is implausibly large."));
    }
    let row = 4 * width;
    if stride < row {
        return Err(String::from_str("The frame's rows are shorter than its width."));
    }
    if height > usize::MAX / row {
        proof {
            assert(row * height > usize::MAX) by (nonlinear_arith)
                requires height > usize::MAX / row, row > 0;
        }
        return Err(String::from_str("The extracted frame is implausibly large."));
    }
    proof {
        assert(row * height <= usize::MAX) by (nonlinear_arith)
            requires height <= usize::MAX / row, row > 0;
        assert((height - 1) * stride + row <= u128::MAX) by (nonlinear_arith)
            requires
                height <= 0xffff_ffff_ffff_ffffu64,
                stride <= 0xffff_ffff_ffff_ffffu64,
                row <= 0xffff_ffff_ffff_ffffu64,
                height >= 1;
    }
    let len: usize = data.len();
    let needed: u128 = ((height - 1) as u128) * (stride as u128) + (row as u128);
    if needed > data.len() as u128 {
        return Err(String::from_str("The frame did not fill its buffer."));
    }
    let mut v: Vec<u8> = Vec::new();
    let mut y: usize = 0;
    while y < height
        invariant
            row == 4 * width,
            row > 0,
            stride >= row,
            y <= height,
            (height - 1) * stride + row <= data@.len(),
            data@.len() == len,
            row * height <= usize::MAX,
            v@.len() == y * row,
            forall|yy: int, xx: int| 0 <= yy < y && 0 <= xx < row
                ==> #[trigger] row_byte(v@, row as int, yy, xx) == row_byte(data@, stride as int, yy, xx),
        decreases height - y,
    {
        proof {
            assert(y * stride <= (height - 1) * stride) by (nonlinear_arith)
                requires y < height, stride >= 0;
            assert((y + 1) * row <= height * row) by (nonlinear_arith)
                requires y < height, row >= 0;
        }
        let start: usize = y * stride;
        let mut x: usize = 0;
        while x < row
            invariant
                row == 4 * width,
                row > 0,
                y < height,
                start == y * stride,
                start + row <= data@.len(),
                data@.len() == len,
                (y + 1) * row <= usize::MAX,
                v@.len() == y * row + x,
                x <= row,
                forall|yy: int, xx: int| 0 <= yy < y && 0 <= xx < row
                    ==> #[trigger] row_byte(v@, row as int, yy, xx) == row_byte(data@, stride as int, yy, xx),
                forall|xx: int| 0 <= xx < x
                    ==> #[trigger] row_byte(v@, row as int, y as int, xx) == row_byte(data@, stride as int, y as int, xx),
            decreases row - x,
        {
            let ghost before = v@;
            proof {
                assert(y * row + x < (y + 1) * row) by (nonlinear_arith)
                    requires x < row;
            }
            v.push(data[start + x]);
            proof {
                assert forall|yy: int, xx: int| 0 <= yy < y && 0 <= xx < row
                    implies #[trigger] row_byte(v@, row as int, yy, xx) == row_byte(data@, stride as int, yy, xx) by {
                    lemma_row_index(yy, xx, row as int, y as int);
                    assert(row_byte(v@, row as int, yy, xx) == row_byte(before, row as int, yy, xx));
                }
                assert forall|xx: int| 0 <= xx < x + 1
                    implies #[trigger] row_byte(v@, row as int, y as int, xx) == row_byte(data@, stride as int, y as int, xx) by {
                    if xx < x {
                        assert(row_byte(v@, row as int, y as int, xx) == row_byte(before, row as int, y as int, xx));
                    }
                }
            }
            x = x + 1;
        }
        proof {
            assert((y + 1) * row == y * row + row) by (nonlinear_arith);
            assert forall|yy: int, xx: int| 0 <= yy < y + 1 && 0 <= xx < row
                implies #[trigger] row_byte(v@, row as int, yy, xx) == row_byte(data@, stride as int, yy, xx) by {
                if yy == y as int {
                    assert(row_byte(v@, row as int, y as int, xx) == row_byte(data@, stride as int, y as int, xx));
                }
            }
        }
        y = y + 1;
    }
    assert(v@.len() == 4 * width * height) by (nonlinear_arith)
        requires v@.len() == height * row, row == 4 * width;
    Ok(v)
}

} // verus!
