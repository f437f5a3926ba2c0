//! Estimating the background colour of an RGBA image from its border.
//!
//! Opaque pixels are sampled along the four edges, ordered by brightness
//! (a stable sort on the sum of the three colour samples), and the brightest
//! 45% are summed. The caller turns the sums into an average colour.

use vstd::prelude::*;

verus! {

/// The red, green and blue samples of one border pixel.
pub type EdgeSample = (u8, u8, u8);

/// Border pixels whose alpha is below this are not sampled.
pub const EDGE_ALPHA_THRESHOLD: u8 = 220;

/// The sample taken at pixel (x, y), if that pixel exists and is opaque enough.
pub open spec fn edge_sample(rgba: Seq<u8>, width: int, x: int, y: int) -> Seq<EdgeSample> {
    let i = (y * width + x) * 4;
    if i + 3 < rgba.len() && rgba[i + 3] >= EDGE_ALPHA_THRESHOLD {
        seq![(rgba[i], rgba[i + 1], rgba[i + 2])]
    } else {
        seq![]
    }
}

/// Samples from the top and bottom rows, for columns x, x + step, ... below width.
pub open spec fn row_samples(rgba: Seq<u8>, width: int, height: int, step: int, x: int) -> Seq<
    EdgeSample,
>
    decreases (if x < width {
        width - x
    } else {
        0
    }),
{
    if x >= width || step <= 0 {
        seq![]
    } else {
        edge_sample(rgba, width, x, 0) + edge_sample(rgba, width, x, height - 1) + row_samples(
            rgba,
            width,
            height,
            step,
            x + step,
        )
    }
}

/// Samples from the left and right columns, for rows y, y + step, ... below height.
pub open spec fn column_samples(
    rgba: Seq<u8>,
    width: int,
    height: int,
    step: int,
    y: int,
) -> Seq<EdgeSample>
    decreases (if y < height {
        height - y
    } else {
        0
    }),
{
    if y >= height || step <= 0 {
        seq![]
    } else {
        edge_sample(rgba, width, 0, y) + edge_sample(rgba, width, width - 1, y) + column_samples(
            rgba,
            width,
            height,
            step,
            y + step,
        )
    }
}

/// The distance between sampled columns (and rows): one per 1600 border pixels, at least 1.
pub open spec fn edge_step(width: int, height: int) -> int {
    let s = (width * 2 + height * 2) / 1600;
    if s < 1 {
        1
    } else {
        s
    }
}

/// All border samples, in the order they are taken: rows first, then columns.
pub open spec fn edge_samples(rgba: Seq<u8>, width: int, height: int) -> Seq<EdgeSample> {
    let step = edge_step(width, height);
    row_samples(rgba, width, height, step, 0) + column_samples(rgba, width, height, step, 0)
}

/// The brightness key samples are ordered by.
pub open spec fn sample_key(s: EdgeSample) -> int {
    s.0 + s.1 + s.2
}

/// Inserts `x` into `sorted` after every element whose key is not above x's.
pub open spec fn insert_stable(sorted: Seq<EdgeSample>, x: EdgeSample) -> Seq<EdgeSample>
    decreases sorted.len(),
{
    if sorted.len() == 0 {
        seq![x]
    } else if sample_key(sorted.last()) <= sample_key(x) {
        sorted.push(x)
    } else {
        insert_stable(sorted.drop_last(), x).push(sorted.last())
    }
}

/// The stable sort of `s` by `sample_key` (equal keys keep their order).
pub open spec fn stable_sort(s: Seq<EdgeSample>) -> Seq<EdgeSample>
    decreases s.len(),
{
    if s.len() == 0 {
        s
    } else {
        insert_stable(stable_sort(s.drop_last()), s.last())
    }
}

/// The samples that are averaged: the sorted samples from position
/// `len * 55 / 100` on, or all of them if that leaves none.
pub open spec fn background_pool(samples: Seq<EdgeSample>) -> Seq<EdgeSample> {
    let sorted = stable_sort(samples);
    let start = samples.len() * 55 / 100;
    if start < sorted.len() {
        sorted.subrange(start as int, sorted.len() as int)
    } else {
        sorted
    }
}

/// The sum of channel `c` (0 = red, 1 = green, 2 = blue) over `s`.
pub open spec fn channel_sum(s: Seq<EdgeSample>, c: int) -> int
    decreases s.len(),
{
    if s.len() == 0 {
        0
    } else {
        channel_sum(s.drop_last(), c) + if c == 0 {
            s.last().0 as int
        } else if c == 1 {
            s.last().1 as int
        } else {
            s.last().2 as int
        }
    }
}

/// Channel sums over the pool of bright border samples. When `count` is 0
/// no border pixel was opaque enough and the background is taken as white;
/// otherwise each channel's background value is its sum divided by `count`.
pub struct EdgeBackground {
    pub red_sum: u128,
    pub green_sum: u128,
    pub blue_sum: u128,
    pub count: u64,
}

proof fn lemma_insert_stable_at(s: Seq<EdgeSample>, x: EdgeSample, j: int)
    requires
        0 <= j <= s.len(),
        forall|k: int| j <= k < s.len() ==> sample_key(#[trigger] s[k]) > sample_key(x),
        j > 0 ==> sample_key(s[j - 1]) <= sample_key(x),
    ensures
        insert_stable(s, x) == s.subrange(0, j).push(x) + s.subrange(j, s.len() as int),
    decreases s.len() - j,
{
    if s.len() == j {
        assert(s.subrange(j, s.len() as int) =~= Seq::<EdgeSample>::empty());
        if j == 0 {
            assert(insert_stable(s, x) =~= seq![x]);
            assert(s.subrange(0, j).push(x) =~= seq![x]);
        } else {
            assert(s.subrange(0, j) =~= s);
        }
    } else {
        let d = s.drop_last();
        assert(sample_key(s.last()) > sample_key(x));
        assert forall|k: int| j <= k < d.len() implies sample_key(#[trigger] d[k]) > sample_key(
            x,
        ) by {
            assert(d[k] == s[k]);
        }
        lemma_insert_stable_at(d, x, j);
        assert(insert_stable(s, x) == insert_stable(d, x).push(s.last()));
        assert(d.subrange(0, j) =~= s.subrange(0, j));
        assert(d.subrange(j, d.len() as int).push(s.last()) =~= s.subrange(j, s.len() as int));
        assert(insert_stable(s, x) =~= s.subrange(0, j).push(x) + s.subrange(j, s.len() as int));
    }
}

proof fn lemma_insert_stable_len(s: Seq<EdgeSample>, x: EdgeSample)
    ensures
        insert_stable(s, x).len() == s.len() + 1,
    decreases s.len(),
{
    if s.len() > 0 && sample_key(s.last()) > sample_key(x) {
        lemma_insert_stable_len(s.drop_last(), x);
    }
}

proof fn lemma_stable_sort_len(s: Seq<EdgeSample>)
    ensures
        stable_sort(s).len() == s.len(),
    decreases s.len(),
{
    if s.len() > 0 {
        lemma_stable_sort_len(s.drop_last());
        lemma_insert_stable_len(stable_sort(s.drop_last()), s.last());
    }
}

/// Whether samples are ordered by brightness key.
pub open spec fn sorted_by_key(s: Seq<EdgeSample>) -> bool {
    forall|i: int, j: int| 0 <= i <= j < s.len() ==> sample_key(#[trigger] s[i]) <= sample_key(
        #[trigger] s[j],
    )
}

proof fn lemma_insert_stable_members(s: Seq<EdgeSample>, x: EdgeSample)
    ensures
        forall|i: int|
            0 <= i < insert_stable(s, x).len() ==> #[trigger] insert_stable(s, x)[i] == x
                || s.contains(insert_stable(s, x)[i]),
    decreases s.len(),
{
    lemma_insert_stable_len(s, x);
    if s.len() > 0 && sample_key(s.last()) > sample_key(x) {
        let d = s.drop_last();
        lemma_insert_stable_members(d, x);
        lemma_insert_stable_len(d, x);
        let r = insert_stable(s, x);
        let inner = insert_stable(d, x);
        assert forall|i: int| 0 <= i < r.len() implies #[trigger] r[i] == x || s.contains(r[i]) by {
            if i < inner.len() {
                assert(r[i] == inner[i]);
                if inner[i] != x {
                    let k = choose|k: int| 0 <= k < d.len() && d[k] == inner[i];
                    assert(s[k] == d[k]);
                }
            } else {
                assert(r[i] == s.last());
                assert(s[s.len() - 1] == s.last());
            }
        }
    } else if s.len() > 0 {
        let r = insert_stable(s, x);
        assert forall|i: int| 0 <= i < r.len() implies #[trigger] r[i] == x || s.contains(r[i]) by {
            if i < s.len() {
                assert(r[i] == s[i]);
            }
        }
    }
}

proof fn lemma_insert_stable_sorted(s: Seq<EdgeSample>, x: EdgeSample)
    requires
        sorted_by_key(s),
    ensures
        sorted_by_key(insert_stable(s, x)),
    decreases s.len(),
{
    lemma_insert_stable_len(s, x);
    if s.len() == 0 {
    } else if sample_key(s.last()) <= sample_key(x) {
        let r = insert_stable(s, x);
        assert forall|i: int, j: int| 0 <= i <= j < r.len() implies sample_key(#[trigger] r[i])
            <= sample_key(#[trigger] r[j]) by {
            if j == s.len() {
                if i < s.len() {
                    assert(sample_key(s[i]) <= sample_key(s[s.len() - 1]));
                }
            }
        }
    } else {
        let d = s.drop_last();
        assert(sorted_by_key(d)) by {
            assert forall|i: int, j: int| 0 <= i <= j < d.len() implies sample_key(#[trigger] d[i])
                <= sample_key(#[trigger] d[j]) by {
                assert(d[i] == s[i] && d[j] == s[j]);
            }
        }
        lemma_insert_stable_sorted(d, x);
        lemma_insert_stable_members(d, x);
        lemma_insert_stable_len(d, x);
        let inner = insert_stable(d, x);
        let r = insert_stable(s, x);
        assert forall|i: int, j: int| 0 <= i <= j < r.len() implies sample_key(#[trigger] r[i])
            <= sample_key(#[trigger] r[j]) by {
            if j == inner.len() {
                assert(r[j] == s.last());
                if i < inner.len() {
                    assert(r[i] == inner[i]);
                    if inner[i] != x {
                        let k = choose|k: int| 0 <= k < d.len() && d[k] == inner[i];
                        assert(s[k] == d[k]);
                        assert(sample_key(s[k]) <= sample_key(s[s.len() - 1]));
                    }
                }
            } else {
                assert(r[i] == inner[i] && r[j] == inner[j]);
            }
        }
    }
}

/// The brightness sort orders the samples by key: the samples the
/// background is averaged over are the brightest ones.
pub proof fn lemma_stable_sort_sorted(s: Seq<EdgeSample>)
    ensures
        sorted_by_key(stable_sort(s)),
        stable_sort(s).len() == s.len(),
    decreases s.len(),
{
    lemma_stable_sort_len(s);
    if s.len() > 0 {
        lemma_stable_sort_sorted(s.drop_last());
        lemma_insert_stable_sorted(stable_sort(s.drop_last()), s.last());
    }
}

fn key_of(s: EdgeSample) -> (k: u16)
    ensures
        k == sample_key(s),
{
    s.0 as u16 + s.1 as u16 + s.2 as u16
}

/// Sorts the samples by brightness, keeping the order of equally bright ones.
fn sort_samples_stable(v: &mut Vec<EdgeSample>)
    ensures
        final(v)@ == stable_sort(old(v)@),
{
    let ghost orig = v@;
    let n = v.len();
    if n == 0 {
        return;
    }
    proof {
        let o1 = orig.subrange(0, 1);
        assert(o1.drop_last() =~= Seq::<EdgeSample>::empty());
        assert(stable_sort(o1.drop_last()) == o1.drop_last());
        assert(insert_stable(o1.drop_last(), o1.last()) == seq![o1.last()]);
        assert(v@.subrange(0, 1) =~= stable_sort(o1));
    }
    let mut i: usize = 1;
    while i < n
        invariant
            n == v.len(),
            n == orig.len(),
            1 <= i <= n,
            v@.subrange(0, i as int) == stable_sort(orig.subrange(0, i as int)),
            v@.subrange(i as int, n as int) == orig.subrange(i as int, n as int),
        decreases n - i,
    {
        let ghost s = v@;
        let x = v[i];
        assert(x == s[i as int]);
        assert(s[i as int] == s.subrange(i as int, n as int)[0]);
        assert(x == orig[i as int]);
        let mut j: usize = i;
        while j > 0 && key_of(v[j - 1]) > key_of(x)
            invariant
                n == v.len(),
                n == s.len(),
                j <= i < n,
                x == s[i as int],
                forall|k: int| 0 <= k < j ==> v@[k] == s[k],
                forall|k: int| j < k <= i ==> v@[k] == s[k - 1],
                forall|k: int| i < k < n ==> v@[k] == s[k],
                forall|k: int| j <= k < i ==> sample_key(#[trigger] s[k]) > sample_key(x),
            decreases j,
        {
            let prev = v[j - 1];
            v.set(j, prev);
            j = j - 1;
        }
        v.set(j, x);
        proof {
            let p = s.subrange(0, i as int);
            assert forall|k: int| j <= k < p.len() implies sample_key(#[trigger] p[k])
                > sample_key(x) by {
                assert(p[k] == s[k]);
            }
            if j > 0 {
                assert(p[j - 1] == s[j - 1]);
            }
            lemma_insert_stable_at(p, x, j as int);
            let q = orig.subrange(0, i + 1);
            assert(q.drop_last() =~= orig.subrange(0, i as int));
            assert(q.last() == x);
            assert(stable_sort(q) == insert_stable(stable_sort(q.drop_last()), q.last()));
            assert(v@.subrange(0, i + 1) =~= p.subrange(0, j as int).push(x) + p.subrange(
                j as int,
                p.len() as int,
            ));
            assert(v@.subrange(i + 1, n as int) =~= orig.subrange(i + 1, n as int)) by {
                assert forall|k: int| 0 <= k < n - (i + 1) implies #[trigger] v@.subrange(i + 1, n as int)[k]
                    == orig.subrange(i + 1, n as int)[k] by {
                    assert(v@[i + 1 + k] == s[i + 1 + k]);
                    assert(s[i + 1 + k] == s.subrange(i as int, n as int)[k + 1]);
                }
            }
        }
        i = i + 1;
    }
    assert(v@.subrange(0, n as int) =~= v@);
    assert(orig.subrange(0, n as int) =~= orig);
}

proof fn lemma_pixel_index_bound(x: int, y: int, w: int, h: int)
    requires
        0 <= x < w,
        0 <= y < h,
        w * h * 4 <= usize::MAX,
    ensures
        0 <= (y * w + x) * 4,
        (y * w + x) * 4 + 3 <= usize::MAX,
{
    assert(0 <= y * w + x && y * w + x <= h * w - 1) by (nonlinear_arith)
        requires
            0 <= x < w,
            0 <= y < h,
    ;
    assert(h * w == w * h) by (nonlinear_arith);
}

/// Appends the sample of pixel (x, y) when that pixel is opaque enough.
fn take_edge_sample(
    rgba: &[u8],
    width: usize,
    height: usize,
    x: usize,
    y: usize,
    samples: &mut Vec<EdgeSample>,
)
    requires
        x < width,
        y < height,
        width * height * 4 <= usize::MAX,
    ensures
        final(samples)@ == old(samples)@ + edge_sample(rgba@, width as int, x as int, y as int),
{
    proof {
        lemma_pixel_index_bound(x as int, y as int, width as int, height as int);
    }
    let i = (y * width + x) * 4;
    if i + 3 < rgba.len() && rgba[i + 3] >= EDGE_ALPHA_THRESHOLD {
        samples.push((rgba[i], rgba[i + 1], rgba[i + 2]));
    } else {
        assert(samples@ =~= samples@ + edge_sample(rgba@, width as int, x as int, y as int));
    }
}

/// Sums the brightest border samples of a `width` x `height` RGBA image
/// (the integer part of `edge_background_from_rgba`).
pub fn edge_background_sums(rgba: &[u8], width: usize, height: usize) -> (bg: EdgeBackground)
    requires
        (width == 0) == (height == 0),
        width * height * 4 <= usize::MAX,
    ensures
        bg.count == background_pool(edge_samples(rgba@, width as int, height as int)).len(),
        bg.red_sum == channel_sum(background_pool(edge_samples(rgba@, width as int, height as int)), 0),
        bg.green_sum == channel_sum(
            background_pool(edge_samples(rgba@, width as int, height as int)),
            1,
        ),
        bg.blue_sum == channel_sum(
            background_pool(edge_samples(rgba@, width as int, height as int)),
            2,
        ),
{
    let ghost w = width as int;
    let ghost h = height as int;
    assert(width * 2 + height * 2 <= usize::MAX) by (nonlinear_arith)
        requires
            (width == 0) == (height == 0),
            width * height * 4 <= usize::MAX,
    ;
    let raw_step = (width * 2 + height * 2) / 1600;
    let step = if raw_step < 1 {
        1
    } else {
        raw_step
    };
    assert(step == edge_step(w, h));
    let mut samples: Vec<EdgeSample> = Vec::new();
    let mut x: usize = 0;
    while x < width
        invariant
            (width == 0) == (height == 0),
            width * height * 4 <= usize::MAX,
            width * 2 + height * 2 <= usize::MAX,
            step == edge_step(w, h),
            w == width,
            h == height,
            1 <= step,
            step <= (width * 2 + height * 2) / 1600 || step == 1,
            samples@ + row_samples(rgba@, w, h, step as int, x as int) == row_samples(
                rgba@,
                w,
                h,
                step as int,
                0,
            ),
        decreases (if x < width {
            width - x
        } else {
            0
        }),
    {
        let ghost before = samples@;
        take_edge_sample(rgba, width, height, x, 0, &mut samples);
        take_edge_sample(rgba, width, height, x, height - 1, &mut samples);
        assert(row_samples(rgba@, w, h, step as int, x as int) == edge_sample(rgba@, w, x as int, 0)
            + edge_sample(rgba@, w, x as int, h - 1) + row_samples(
            rgba@,
            w,
            h,
            step as int,
            x + step,
        ));
        assert(samples@ + row_samples(rgba@, w, h, step as int, x + step) =~= before
            + row_samples(rgba@, w, h, step as int, x as int));
        x = x + step;
    }
    assert(samples@ =~= row_samples(rgba@, w, h, step as int, 0));
    let mut y: usize = 0;
    while y < height
        invariant
            (width == 0) == (height == 0),
            width * height * 4 <= usize::MAX,
            width * 2 + height * 2 <= usize::MAX,
            w == width,
            h == height,
            1 <= step,
            step <= (width * 2 + height * 2) / 1600 || step == 1,
            samples@ + column_samples(rgba@, w, h, step as int, y as int) == row_samples(
                rgba@,
                w,
                h,
                step as int,
                0,
            ) + column_samples(rgba@, w, h, step as int, 0),
        decreases (if y < height {
            height - y
        } else {
            0
        }),
    {
        let ghost before = samples@;
        take_edge_sample(rgba, width, height, 0, y, &mut samples);
        take_edge_sample(rgba, width, height, width - 1, y, &mut samples);
        assert(column_samples(rgba@, w, h, step as int, y as int) == edge_sample(
            rgba@,
            w,
            0,
            y as int,
        ) + edge_sample(rgba@, w, w - 1, y as int) + column_samples(
            rgba@,
            w,
            h,
            step as int,
            y + step,
        ));
        assert(samples@ + column_samples(rgba@, w, h, step as int, y + step) =~= before
            + column_samples(rgba@, w, h, step as int, y as int));
        y = y + step;
    }
    assert(samples@ =~= edge_samples(rgba@, w, h));
    let ghost all = samples@;
    sort_samples_stable(&mut samples);
    proof {
        lemma_stable_sort_len(all);
    }
    let n = samples.len();
    let start = (n as u128 * 55 / 100) as usize;
    let from = if start < n {
        start
    } else {
        0
    };
    let ghost pool = samples@.subrange(from as int, n as int);
    assert(pool == background_pool(all)) by {
        if start >= n {
            assert(samples@.subrange(0, n as int) =~= samples@);
        }
    }
    let mut red: u128 = 0;
    let mut green: u128 = 0;
    let mut blue: u128 = 0;
    let mut k: usize = from;
    while k < n
        invariant
            from <= k <= n,
            n == samples@.len(),
            red == channel_sum(samples@.subrange(from as int, k as int), 0),
            green == channel_sum(samples@.subrange(from as int, k as int), 1),
            blue == channel_sum(samples@.subrange(from as int, k as int), 2),
            red <= 255 * (k - from),
            green <= 255 * (k - from),
            blue <= 255 * (k - from),
        decreases n - k,
    {
        let sample = samples[k];
        proof {
            let next = samples@.subrange(from as int, k + 1);
            assert(next.drop_last() =~= samples@.subrange(from as int, k as int));
            assert(next.last() == sample);
        }
        red = red + sample.0 as u128;
        green = green + sample.1 as u128;
        blue = blue + sample.2 as u128;
        k = k + 1;
    }
    EdgeBackground { red_sum: red, green_sum: green, blue_sum: blue, count: (n - from) as u64 }
}

} // verus!
