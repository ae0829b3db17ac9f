//! Province Colors map-mode structural editing: add / expand / dissolve
//! provinces by rewriting `map/provinces.bmp` pixels.
//!
//! A province's identity is a region of same-coloured pixels, so adding,
//! expanding or removing one means reassigning pixels. The edit stays
//! semantic and colour-space ([`BmpOp`]); the bitmap is materialised only
//! once, in [`apply_ops`]:
//!
//! - [`BmpOp::Paint`]: the listed pixels (top-down `y*w + x` flat indices)
//!   become one colour. Out-of-range indices are ignored.
//! - [`BmpOp::Dissolve`]: every pixel of a colour goes to one of the target
//!   colours: a pixel bordering a target takes the first bordering target's
//!   colour, the rest flood outward through the dissolved region from those
//!   (4-connected, horizontal wrap), and a region no target borders falls
//!   back to the first target.
//!
//! Decoding goes through the `image` crate; encoding is a plain 24-bit,
//! bottom-up, BI_RGB BMP with a 54-byte header.

use vstd::prelude::*;
use crate::missions::{parse_u32, u32_of};
use crate::paradox::{parse, parse_spec, scalar_of};
use crate::script_tree::{trim_chars, trim_spec};
use crate::text::{chars_of, decimal, lossy_string, lossy_utf8, opt_view, str_eq, string_from_chars, usize_to_string};

verus! {

/// One colour-space operation on the province bitmap.
#[derive(Debug, Clone)]
pub enum BmpOp {
    /// Set every listed pixel (top-down flat index `y*width + x`) to `color`;
    /// out-of-range indices are ignored.
    Paint { pixels: Vec<u32>, color: [u8; 3] },
    /// Reassign every pixel currently `from` among the `into` colours.
    Dissolve { from: [u8; 3], into: Vec<[u8; 3]> },
}

/// A colour as a triple.
pub open spec fn rgb_of(c: [u8; 3]) -> (u8, u8, u8) {
    (c[0], c[1], c[2])
}

/// The colour of pixel `i` of a top-down RGB buffer.
pub open spec fn pixel(rgb: Seq<u8>, i: int) -> (u8, u8, u8) {
    let _len = rgb.len();
    (rgb[3 * i], rgb[3 * i + 1], rgb[3 * i + 2])
}

/// Channel `k` (0, 1 or 2) of a colour.
pub open spec fn channel(c: (u8, u8, u8), k: int) -> u8 {
    if k == 0 {
        c.0
    } else if k == 1 {
        c.1
    } else {
        c.2
    }
}

/// What `image` decodes the bytes to: width, height and the top-down RGB
/// buffer, or nothing when they are no image it reads.
pub uninterp spec fn decoded_bitmap(bytes: Seq<u8>) -> Option<(u32, u32, Seq<u8>)>;

/// `image::load_from_memory` then `to_rgb8`: the decoded image's dimensions
/// and raw RGB buffer, which holds at least `width * height * 3` bytes (the
/// image buffer's invariant). The error is the decoder's own message.
#[verifier::external_body]
fn decode_image(base: &[u8]) -> (r: Result<(u32, u32, Vec<u8>), String>)
    ensures
        match r {
            Ok((w, h, rgb)) => decoded_bitmap(base@) == Some((w, h, rgb@)) && rgb@.len() >= w * h * 3,
            Err(_) => decoded_bitmap(base@) is None,
        },
{
    match image::load_from_memory(base) {
        Ok(img) => {
            let buf = img.to_rgb8();
            let (w, h) = buf.dimensions();
            Ok((w, h, buf.into_raw()))
        },
        Err(e) => Err(e.to_string()),
    }
}

/// Whether `i` is one of the listed pixel indices.
pub open spec fn listed(pixels: Seq<u32>, i: int) -> bool {
    exists|k: int| 0 <= k < pixels.len() && pixels[k] as int == i
}

/// The buffer with every listed pixel below `n` set to `color`.
pub open spec fn painted(rgb: Seq<u8>, n: int, pixels: Seq<u32>, color: [u8; 3]) -> Seq<u8> {
    Seq::new(rgb.len(), |j: int| if j < 3 * n && listed(pixels, j / 3) { channel(rgb_of(color), j % 3) } else { rgb[j] })
}

proof fn lemma_listed_step(pixels: Seq<u32>, k: int)
    requires
        0 <= k < pixels.len(),
    ensures
        forall|i: int| #[trigger] listed(pixels.take(k + 1), i) == (listed(pixels.take(k), i) || pixels[k] as int == i),
{
    assert forall|i: int| #[trigger] listed(pixels.take(k + 1), i) == (listed(pixels.take(k), i) || pixels[k] as int == i) by {
        if listed(pixels.take(k + 1), i) {
            let m = choose|m: int| 0 <= m < pixels.take(k + 1).len() && #[trigger] pixels.take(k + 1)[m] as int == i;
            if m < k {
                assert(pixels.take(k)[m] == pixels.take(k + 1)[m]);
            }
        }
        if listed(pixels.take(k), i) {
            let m = choose|m: int| 0 <= m < pixels.take(k).len() && #[trigger] pixels.take(k)[m] as int == i;
            assert(pixels.take(k + 1)[m] == pixels.take(k)[m]);
        }
        if pixels[k] as int == i {
            assert(pixels.take(k + 1)[k] == pixels[k]);
        }
    }
}

/// Paints the listed pixels of the first `n` pixels of `rgb`.
pub fn paint(rgb: &mut Vec<u8>, n: usize, pixels: &[u32], color: [u8; 3])
    requires
        3 * n <= old(rgb)@.len(),
    ensures
        final(rgb)@ == painted(old(rgb)@, n as int, pixels@, color),
{
    let ghost orig = rgb@;
    let len0 = rgb.len();
    let mut k: usize = 0;
    assert(rgb@ =~= painted(orig, n as int, pixels@.take(0), color));
    while k < pixels.len()
        invariant
            k <= pixels@.len(),
            3 * n <= orig.len(),
            orig.len() == len0,
            rgb@ == painted(orig, n as int, pixels@.take(k as int), color),
        decreases pixels@.len() - k,
    {
        let ghost before = rgb@;
        let idx = pixels[k] as usize;
        if idx < n {
            let o = idx * 3;
            rgb.set(o, color[0]);
            rgb.set(o + 1, color[1]);
            rgb.set(o + 2, color[2]);
        }
        proof {
            lemma_listed_step(pixels@, k as int);
        }
        assert(rgb@ =~= painted(orig, n as int, pixels@.take(k + 1), color));
        k = k + 1;
    }
    assert(pixels@.take(pixels@.len() as int) =~= pixels@);
}

/// The 4-connected neighbours of pixel `idx` of a `w`×`h` map: left and
/// right wrapping around the row, then up and down when inside the map.
pub open spec fn neighbors_spec(w: int, h: int, idx: int) -> Seq<int> {
    let x = idx % w;
    let y = idx / w;
    seq![if x == 0 { idx + w - 1 } else { idx - 1 }, if x + 1 == w { idx + 1 - w } else { idx + 1 }]
        + (if y > 0 { seq![idx - w] } else { Seq::empty() })
        + (if y + 1 < h { seq![idx + w] } else { Seq::empty() })
}

proof fn lemma_neighbors_in_map(w: int, h: int, idx: int)
    requires
        w > 0,
        h > 0,
        0 <= idx < w * h,
    ensures
        idx % w == 0 ==> idx + w - 1 < w * h,
        idx % w != 0 ==> idx >= 1,
        idx % w + 1 == w ==> idx + 1 >= w,
        idx % w + 1 != w ==> idx + 1 < w * h,
        idx / w > 0 ==> idx >= w,
        idx / w + 1 < h ==> idx + w < w * h,
        forall|k: int| 0 <= k < neighbors_spec(w, h, idx).len() ==> 0 <= #[trigger] neighbors_spec(w, h, idx)[k] < w * h,
{
    let x = idx % w;
    let y = idx / w;
    vstd::arithmetic::div_mod::lemma_fundamental_div_mod(idx, w);
    assert(0 <= x < w);
    assert(idx == w * y + x);
    assert(0 <= y < h) by (nonlinear_arith)
        requires
            idx == w * y + x,
            0 <= x < w,
            0 <= idx < w * h,
            w > 0,
    ;
    assert(w * y + w <= w * h) by (nonlinear_arith)
        requires
            y < h,
            w > 0,
    ;
    assert(y > 0 ==> w * y >= w) by (nonlinear_arith)
        requires
            w > 0,
    ;
    if y + 1 < h {
        assert(w * y + 2 * w <= w * h) by (nonlinear_arith)
            requires
                y + 2 <= h,
                w > 0,
        ;
    }
}

fn neighbors(w: usize, h: usize, idx: usize) -> (r: Vec<usize>)
    requires
        w > 0,
        h > 0,
        idx < w * h,
        w * h <= usize::MAX,
    ensures
        r@.len() == neighbors_spec(w as int, h as int, idx as int).len(),
        forall|k: int| 0 <= k < r@.len() ==> (#[trigger] r@[k]) as int == neighbors_spec(w as int, h as int, idx as int)[k],
        forall|k: int| 0 <= k < r@.len() ==> (#[trigger] r@[k]) < w * h,
{
    proof {
        lemma_neighbors_in_map(w as int, h as int, idx as int);
    }
    let x = idx % w;
    let y = idx / w;
    let mut out: Vec<usize> = Vec::new();
    out.push(if x == 0 { idx + w - 1 } else { idx - 1 });
    out.push(if x + 1 == w { idx + 1 - w } else { idx + 1 });
    if y > 0 {
        out.push(idx - w);
    }
    if y + 1 < h {
        out.push(idx + w);
    }
    out
}


/// Whether `c` is one of the target colours.
pub open spec fn in_targets(into: Seq<[u8; 3]>, c: (u8, u8, u8)) -> bool {
    exists|t: int| 0 <= t < into.len() && rgb_of(#[trigger] into[t]) == c
}

/// The colour of the first of the neighbours `nb[k..]` whose colour is a
/// target.
pub open spec fn first_target_from(rgb: Seq<u8>, nb: Seq<int>, into: Seq<[u8; 3]>, k: int) -> Option<(u8, u8, u8)>
    decreases nb.len() - k,
{
    if k < 0 || k >= nb.len() {
        None
    } else if in_targets(into, pixel(rgb, nb[k])) {
        Some(pixel(rgb, nb[k]))
    } else {
        first_target_from(rgb, nb, into, k + 1)
    }
}

/// The colour a dissolved pixel bordering a target takes: its first
/// neighbour's (in [`neighbors_spec`] order) whose colour is a target.
pub open spec fn seed_color(rgb: Seq<u8>, w: int, h: int, into: Seq<[u8; 3]>, p: int) -> Option<(u8, u8, u8)> {
    first_target_from(rgb, neighbors_spec(w, h, p), into, 0)
}

/// The number of assigned entries.
pub open spec fn count_some(s: Seq<Option<(u8, u8, u8)>>) -> nat
    decreases s.len(),
{
    if s.len() == 0 {
        0
    } else {
        count_some(s.drop_last()) + if s.last() is Some { 1nat } else { 0nat }
    }
}

proof fn lemma_count_some_le(s: Seq<Option<(u8, u8, u8)>>)
    ensures
        count_some(s) <= s.len(),
    decreases s.len(),
{
    if s.len() > 0 {
        lemma_count_some_le(s.drop_last());
    }
}

proof fn lemma_count_some_set(s: Seq<Option<(u8, u8, u8)>>, i: int, c: (u8, u8, u8))
    requires
        0 <= i < s.len(),
        s[i] is None,
    ensures
        count_some(s.update(i, Some(c))) == count_some(s) + 1,
    decreases s.len(),
{
    let t = s.update(i, Some(c));
    if i == s.len() - 1 {
        assert(t.drop_last() =~= s.drop_last());
    } else {
        assert(t.drop_last() =~= s.drop_last().update(i, Some(c)));
        lemma_count_some_set(s.drop_last(), i, c);
    }
}

fn pixel_at(rgb: &Vec<u8>, i: usize) -> (r: (u8, u8, u8))
    requires
        3 * i + 2 < rgb@.len(),
    ensures
        r == pixel(rgb@, i as int),
{
    let _len = rgb.len();
    (rgb[3 * i], rgb[3 * i + 1], rgb[3 * i + 2])
}

/// Whether byte `j` belongs to one of the pixels `fp[..k]`.
pub open spec fn covered(fp: Seq<usize>, k: int, j: int) -> bool {
    exists|a: int| 0 <= a < k && #[trigger] fp[a] as int == j / 3
}

fn same_rgb(a: (u8, u8, u8), b: (u8, u8, u8)) -> (r: bool)
    ensures
        r == (a == b),
{
    a.0 == b.0 && a.1 == b.1 && a.2 == b.2
}

fn is_target(into: &Vec<[u8; 3]>, c: (u8, u8, u8)) -> (r: bool)
    ensures
        r == in_targets(into@, c),
{
    let mut t: usize = 0;
    while t < into.len()
        invariant
            t <= into@.len(),
            forall|m: int| 0 <= m < t ==> rgb_of(#[trigger] into@[m]) != c,
        decreases into@.len() - t,
    {
        let x = into[t];
        if x[0] == c.0 && x[1] == c.1 && x[2] == c.2 {
            assert(rgb_of(into@[t as int]) == c);
            return true;
        }
        t = t + 1;
    }
    false
}

/// What flooding the dissolved region assigns: `a[m]` the colour pixel `m`
/// takes from the flood (none where no seed reaches), `d[m]` its distance
/// from the seeds through dissolved pixels and `par[m]` the neighbour it
/// took its colour from. Seeds (dissolved pixels bordering a target) take
/// their seed colour at distance 0; every other flooded pixel takes the
/// colour of a flooded neighbour one step nearer; and every dissolved
/// neighbour of a flooded pixel is flooded, at most one step farther. So
/// `d` is the distance to the nearest seed and each pixel's colour is that
/// of a nearest seed.
pub open spec fn flood_ok(
    rgb: Seq<u8>,
    w: int,
    h: int,
    fc: (u8, u8, u8),
    into: Seq<[u8; 3]>,
    a: Seq<Option<(u8, u8, u8)>>,
    d: Seq<nat>,
    par: Seq<int>,
) -> bool {
    &&& a.len() == w * h
    &&& d.len() == w * h
    &&& par.len() == w * h
    &&& forall|m: int| #![trigger a[m]] 0 <= m < w * h && a[m] is Some ==> pixel(rgb, m) == fc && in_targets(into, a[m]->0)
    &&& forall|m: int| 0 <= m < w * h && pixel(rgb, m) == fc && (#[trigger] seed_color(rgb, w, h, into, m)) is Some
        ==> a[m] == seed_color(rgb, w, h, into, m) && d[m] == 0
    &&& forall|m: int| #![trigger par[m]] 0 <= m < w * h && a[m] is Some && seed_color(rgb, w, h, into, m) is None
        ==> 0 <= par[m] < w * h && a[par[m]] == a[m] && d[par[m]] + 1 == d[m] && neighbors_spec(w, h, par[m]).contains(m)
    &&& forall|p: int, k: int| 0 <= p < w * h && a[p] is Some && 0 <= k < neighbors_spec(w, h, p).len()
        && pixel(rgb, #[trigger] neighbors_spec(w, h, p)[k]) == fc
        ==> a[neighbors_spec(w, h, p)[k]] is Some && d[neighbors_spec(w, h, p)[k]] <= d[p] + 1
}

/// Floods the seeds' colours through the dissolved region, breadth first
/// from the seeds in `q`.
#[verifier::rlimit(100)]
#[verifier::spinoff_prover]
fn flood_assign(
    rgb: &Vec<u8>,
    w: usize,
    h: usize,
    fc: (u8, u8, u8),
    into: &Vec<[u8; 3]>,
    assigned: &mut Vec<Option<(u8, u8, u8)>>,
    q: &mut Vec<usize>,
) -> (r: Ghost<(Seq<nat>, Seq<int>)>)
    requires
        w > 0,
        h > 0,
        3 * (w * h) <= rgb@.len(),
        old(assigned)@.len() == w * h,
        forall|m: int| #![trigger old(assigned)@[m]] 0 <= m < w * h && old(assigned)@[m] is Some ==> pixel(rgb@, m) == fc
            && in_targets(into@, old(assigned)@[m]->0)
            && seed_color(rgb@, w as int, h as int, into@, m) == old(assigned)@[m],
        forall|m: int| 0 <= m < w * h && pixel(rgb@, m) == fc && (#[trigger] seed_color(rgb@, w as int, h as int, into@, m)) is Some
            ==> old(assigned)@[m] is Some,
        old(q)@.len() == count_some(old(assigned)@),
        forall|b: int| 0 <= b < old(q)@.len() ==> (#[trigger] old(q)@[b]) < w * h && old(assigned)@[old(q)@[b] as int] is Some,
        forall|m: int| #![trigger old(assigned)@[m]] 0 <= m < w * h && old(assigned)@[m] is Some
            ==> exists|b: int| 0 <= b < old(q)@.len() && old(q)@[b] == m,
    ensures
        flood_ok(rgb@, w as int, h as int, fc, into@, final(assigned)@, r@.0, r@.1),
{
    let _len = rgb.len();
    let n = w * h;
    let ghost wi = w as int;
    let ghost hi = h as int;
    let ghost mut d: Seq<nat> = Seq::new(n as nat, |i: int| 0nat);
    let ghost mut par: Seq<int> = Seq::new(n as nat, |i: int| 0int);
    proof {
        lemma_count_some_le(assigned@);
    }
    let mut head: usize = 0;
    while head < q.len()
        invariant
            head <= q@.len(),
            n == w * h,
            wi == w,
            hi == h,
            w > 0,
            h > 0,
            3 * n <= rgb@.len(),
            assigned@.len() == n,
            d.len() == n,
            par.len() == n,
            forall|m: int| #![trigger assigned@[m]] 0 <= m < n && assigned@[m] is Some ==> pixel(rgb@, m) == fc
                && in_targets(into@, assigned@[m]->0),
            forall|m: int| 0 <= m < n && pixel(rgb@, m) == fc && (#[trigger] seed_color(rgb@, wi, hi, into@, m)) is Some
                ==> assigned@[m] == seed_color(rgb@, wi, hi, into@, m) && d[m] == 0,
            forall|m: int| #![trigger par[m]] 0 <= m < n && assigned@[m] is Some && seed_color(rgb@, wi, hi, into@, m) is None
                ==> 0 <= par[m] < n && assigned@[par[m]] == assigned@[m] && d[par[m]] + 1 == d[m]
                && neighbors_spec(wi, hi, par[m]).contains(m),
            q@.len() == count_some(assigned@),
            count_some(assigned@) <= n,
            forall|b: int| 0 <= b < q@.len() ==> (#[trigger] q@[b]) < n && assigned@[q@[b] as int] is Some,
            forall|m: int| #![trigger assigned@[m]] 0 <= m < n && assigned@[m] is Some ==> exists|b: int| 0 <= b < q@.len() && q@[b] == m,
            forall|b1: int, b2: int| 0 <= b1 <= b2 < q@.len() ==> d[#[trigger] q@[b1] as int] <= d[#[trigger] q@[b2] as int],
            head < q@.len() ==> d[q@[q@.len() - 1] as int] <= d[q@[head as int] as int] + 1,
            forall|b: int, k: int| 0 <= b < head && 0 <= k < neighbors_spec(wi, hi, q@[b] as int).len()
                && pixel(rgb@, #[trigger] neighbors_spec(wi, hi, q@[b] as int)[k]) == fc
                ==> assigned@[neighbors_spec(wi, hi, q@[b] as int)[k]] is Some
                && d[neighbors_spec(wi, hi, q@[b] as int)[k]] <= d[q@[b] as int] + 1,
        decreases n - head,
    {
        let p = q[head];
        assert(p < n && assigned@[p as int] is Some);
        let c = match assigned[p] {
            Some(c) => c,
            None => (0, 0, 0),
        };
        assert(c == assigned@[p as int]->0);
        let ghost dp = d[p as int];
        let ghost qlen0 = q@.len();
        let nbs = neighbors(w, h, p);
        let ghost nbv = neighbors_spec(wi, hi, p as int);
        let mut t: usize = 0;
        while t < nbs.len()
            invariant
                t <= nbs@.len(),
                nbs@.len() == nbv.len(),
                nbv == neighbors_spec(wi, hi, p as int),
                forall|m: int| 0 <= m < nbs@.len() ==> (#[trigger] nbs@[m]) as int == nbv[m],
                forall|m: int| 0 <= m < nbs@.len() ==> (#[trigger] nbs@[m]) < n,
                head < qlen0 <= q@.len(),
                q@[head as int] == p,
                p < n,
                assigned@[p as int] == Some(c),
                d[p as int] == dp,
                n == w * h,
                wi == w,
                hi == h,
                w > 0,
                h > 0,
                3 * n <= rgb@.len(),
                assigned@.len() == n,
                d.len() == n,
                par.len() == n,
                forall|m: int| #![trigger assigned@[m]] 0 <= m < n && assigned@[m] is Some ==> pixel(rgb@, m) == fc
                    && in_targets(into@, assigned@[m]->0),
                forall|m: int| 0 <= m < n && pixel(rgb@, m) == fc && (#[trigger] seed_color(rgb@, wi, hi, into@, m)) is Some
                    ==> assigned@[m] == seed_color(rgb@, wi, hi, into@, m) && d[m] == 0,
                forall|m: int| #![trigger par[m]] 0 <= m < n && assigned@[m] is Some && seed_color(rgb@, wi, hi, into@, m) is None
                    ==> 0 <= par[m] < n && assigned@[par[m]] == assigned@[m] && d[par[m]] + 1 == d[m]
                    && neighbors_spec(wi, hi, par[m]).contains(m),
                q@.len() == count_some(assigned@),
                count_some(assigned@) <= n,
                forall|b: int| 0 <= b < q@.len() ==> (#[trigger] q@[b]) < n && assigned@[q@[b] as int] is Some,
                forall|m: int| #![trigger assigned@[m]] 0 <= m < n && assigned@[m] is Some ==> exists|b: int| 0 <= b < q@.len() && q@[b] == m,
                forall|b1: int, b2: int| 0 <= b1 <= b2 < q@.len() ==> d[#[trigger] q@[b1] as int] <= d[#[trigger] q@[b2] as int],
                d[q@[q@.len() - 1] as int] <= dp + 1,
                forall|b: int, k: int| 0 <= b < head && 0 <= k < neighbors_spec(wi, hi, q@[b] as int).len()
                    && pixel(rgb@, #[trigger] neighbors_spec(wi, hi, q@[b] as int)[k]) == fc
                    ==> assigned@[neighbors_spec(wi, hi, q@[b] as int)[k]] is Some
                    && d[neighbors_spec(wi, hi, q@[b] as int)[k]] <= d[q@[b] as int] + 1,
                forall|k: int| 0 <= k < t && pixel(rgb@, #[trigger] nbv[k]) == fc ==> assigned@[nbv[k]] is Some && d[nbv[k]] <= dp + 1,
            decreases nbs@.len() - t,
        {
            let nb = nbs[t];
            assert(nbs@[t as int] as int == nbv[t as int]);
            let from_coloured = same_rgb(pixel_at(rgb, nb), fc);
            if from_coloured && assigned[nb].is_none() {
                let ghost a0 = assigned@;
                let ghost d0 = d;
                let ghost q0 = q@;
                proof {
                    lemma_count_some_set(assigned@, nb as int, c);
                    lemma_count_some_le(assigned@.update(nb as int, Some(c)));
                    assert(seed_color(rgb@, wi, hi, into@, nb as int) is None);
                    d = d.update(nb as int, dp + 1);
                    par = par.update(nb as int, p as int);
                    assert(nbv[t as int] == nb as int);
                    assert(neighbors_spec(wi, hi, p as int).contains(nb as int));
                }
                assigned.set(nb, Some(c));
                q.push(nb);
                proof {
                    assert(assigned@ == a0.update(nb as int, Some(c)));
                    assert(q@ == q0.push(nb));
                    assert(d == d0.update(nb as int, dp + 1));
                    assert forall|m: int| #![trigger assigned@[m]] 0 <= m < n && assigned@[m] is Some
                        implies exists|b: int| 0 <= b < q@.len() && q@[b] == m by {
                        if m == nb {
                            assert(q@[q@.len() - 1] == nb);
                        } else {
                            assert(a0[m] is Some);
                            let b = choose|b: int| 0 <= b < q0.len() && q0[b] == m;
                            assert(q@[b] == m);
                        }
                    }
                    assert forall|b1: int, b2: int| 0 <= b1 <= b2 < q@.len() implies d[#[trigger] q@[b1] as int] <= d[#[trigger] q@[b2] as int] by {
                        if b2 == q@.len() - 1 {
                            if b1 < b2 {
                                assert(q@[b1] == q0[b1]);
                                assert(a0[q0[b1] as int] is Some);
                                assert(q0[b1] != nb);
                                assert(d0[q0[b1] as int] <= d0[q0[q0.len() - 1] as int]);
                                assert(a0[q0[q0.len() - 1] as int] is Some);
                                assert(q0[q0.len() - 1] != nb);
                            }
                        } else {
                            assert(q@[b1] == q0[b1] && q@[b2] == q0[b2]);
                            assert(a0[q0[b1] as int] is Some && a0[q0[b2] as int] is Some);
                            assert(q0[b1] != nb && q0[b2] != nb);
                        }
                    }
                    assert forall|m: int| #![trigger par[m]] 0 <= m < n && assigned@[m] is Some && seed_color(rgb@, wi, hi, into@, m) is None
                        implies 0 <= par[m] < n && assigned@[par[m]] == assigned@[m] && d[par[m]] + 1 == d[m]
                        && neighbors_spec(wi, hi, par[m]).contains(m) by {
                        if m != nb {
                            assert(a0[m] is Some);
                            assert(a0[par[m]] is Some);
                            assert(par[m] != nb);
                        } else {
                            assert(par[m] == p);
                            assert(p != nb);
                        }
                    }
                    assert forall|b: int, k: int| 0 <= b < head && 0 <= k < neighbors_spec(wi, hi, q@[b] as int).len()
                        && pixel(rgb@, #[trigger] neighbors_spec(wi, hi, q@[b] as int)[k]) == fc
                        implies assigned@[neighbors_spec(wi, hi, q@[b] as int)[k]] is Some
                        && d[neighbors_spec(wi, hi, q@[b] as int)[k]] <= d[q@[b] as int] + 1 by {
                        assert(q@[b] == q0[b]);
                        let x = neighbors_spec(wi, hi, q0[b] as int)[k];
                        lemma_neighbors_in_map(wi, hi, q0[b] as int);
                        assert(0 <= x < n);
                        assert(pixel(rgb@, x) == fc);
                        assert(a0[x] is Some && d0[x] <= d0[q0[b] as int] + 1);
                        assert(x != nb);
                        assert(a0[q0[b] as int] is Some);
                        assert(q0[b] != nb);
                        assert(assigned@[x] == a0[x]);
                        assert(d[x] == d0[x]);
                        assert(d[q0[b] as int] == d0[q0[b] as int]);
                    }
                    assert forall|k: int| 0 <= k < t + 1 && pixel(rgb@, #[trigger] nbv[k]) == fc implies assigned@[nbv[k]] is Some && d[nbv[k]] <= dp + 1 by {
                        if k < t {
                            assert(nbs@[k] as int == nbv[k] && nbs@[k] < n);
                            assert(a0[nbv[k]] is Some && d0[nbv[k]] <= dp + 1);
                            assert(nbv[k] != nb);
                            assert(assigned@[nbv[k]] == a0[nbv[k]]);
                            assert(d[nbv[k]] == d0[nbv[k]]);
                        } else {
                            assert(nbv[k] == nb);
                        }
                    }
                }
            } else if from_coloured {
                proof {
                    assert(assigned@[nb as int] is Some);
                    let b = choose|b: int| 0 <= b < q@.len() && q@[b] == nb;
                    assert(d[q@[b] as int] <= d[q@[q@.len() - 1] as int]);
                }
            }
            t = t + 1;
        }
        proof {
            assert forall|b: int, k: int| 0 <= b < head + 1 && 0 <= k < neighbors_spec(wi, hi, q@[b] as int).len()
                && pixel(rgb@, #[trigger] neighbors_spec(wi, hi, q@[b] as int)[k]) == fc
                implies assigned@[neighbors_spec(wi, hi, q@[b] as int)[k]] is Some
                && d[neighbors_spec(wi, hi, q@[b] as int)[k]] <= d[q@[b] as int] + 1 by {
                if b == head {
                    assert(nbv[k] == neighbors_spec(wi, hi, q@[b] as int)[k]);
                }
            }
            if head + 1 < q@.len() {
                assert(d[q@[head as int] as int] <= d[q@[head + 1] as int]);
            }
        }
        head = head + 1;
    }
    proof {
        assert forall|p: int, k: int| 0 <= p < wi * hi && assigned@[p] is Some && 0 <= k < neighbors_spec(wi, hi, p).len()
            && pixel(rgb@, #[trigger] neighbors_spec(wi, hi, p)[k]) == fc
            implies assigned@[neighbors_spec(wi, hi, p)[k]] is Some && d[neighbors_spec(wi, hi, p)[k]] <= d[p] + 1 by {
            let b = choose|b: int| 0 <= b < q@.len() && q@[b] == p;
            assert(neighbors_spec(wi, hi, q@[b] as int)[k] == neighbors_spec(wi, hi, p)[k]);
        }
    }
    Ghost((d, par))
}

/// `next` is `rgb` with colour `from` dissolved among `into` in the first
/// `w * h` pixels: other pixels and trailing bytes keep theirs, every
/// dissolved pixel takes a target colour, one bordering a target takes its
/// first bordering target's colour, the rest take the colour the flood from
/// those seeds gives them (see [`flood_ok`]: the colour of a nearest seed),
/// and a pixel no seed reaches takes the first target's colour.
#[verifier::opaque]
pub open spec fn dissolved(rgb: Seq<u8>, next: Seq<u8>, w: int, h: int, from: [u8; 3], into: Seq<[u8; 3]>) -> bool {
    &&& next.len() == rgb.len()
    &&& forall|j: int| 3 * (w * h) <= j < rgb.len() ==> next[j] == rgb[j]
    &&& forall|i: int| 0 <= i < w * h && pixel(rgb, i) != rgb_of(from) ==> pixel(next, i) == pixel(rgb, i)
    &&& forall|i: int| 0 <= i < w * h && pixel(rgb, i) == rgb_of(from) ==> in_targets(into, pixel(next, i))
    &&& forall|i: int| 0 <= i < w * h && pixel(rgb, i) == rgb_of(from)
        ==> (#[trigger] seed_color(rgb, w, h, into, i) matches Some(c) ==> pixel(next, i) == c)
    &&& exists|a: Seq<Option<(u8, u8, u8)>>, d: Seq<nat>, par: Seq<int>| #[trigger] flood_ok(rgb, w, h, rgb_of(from), into, a, d, par)
        && forall|i: int| 0 <= i < w * h && pixel(rgb, i) == rgb_of(from) ==> pixel(next, i) == match #[trigger] a[i] {
            Some(c) => c,
            None => rgb_of(into[0]),
        }
}

/// The message of a dissolve with no target.
pub open spec fn no_target_message() -> Seq<char> {
    "dissolve needs at least one target province"@
}

/// Dissolves every pixel of colour `from` in the first `w * h` pixels of
/// `rgb` among the `into` colours (see the module doc): pixels of other
/// colours keep theirs, every dissolved pixel takes a target colour, and
/// one bordering a target takes its first bordering target's colour.
#[verifier::rlimit(80)]
pub fn dissolve(rgb: &mut Vec<u8>, w: usize, h: usize, from: [u8; 3], into: &Vec<[u8; 3]>) -> (r: Result<(), String>)
    requires
        3 * (w * h) <= old(rgb)@.len(),
    ensures
        final(rgb)@.len() == old(rgb)@.len(),
        match r {
            Err(e) => into@.len() == 0 && e@ == no_target_message() && final(rgb)@ == old(rgb)@,
            Ok(_) => into@.len() > 0 && dissolved(old(rgb)@, final(rgb)@, w as int, h as int, from, into@),
        },
{
    if into.len() == 0 {
        return Err(String::from_str("dissolve needs at least one target province"));
    }
    let ghost orig = rgb@;
    let len0 = rgb.len();
    let n = w * h;
    let fc = (from[0], from[1], from[2]);
    if n == 0 {
        proof {
            let a0: Seq<Option<(u8, u8, u8)>> = Seq::empty();
            let d0: Seq<nat> = Seq::empty();
            let p0: Seq<int> = Seq::empty();
            assert(flood_ok(orig, w as int, h as int, rgb_of(from), into@, a0, d0, p0));
            reveal(dissolved);
        }
        return Ok(());
    }
    assert(w > 0 && h > 0) by (nonlinear_arith)
        requires
            w * h == n,
            n > 0,
    ;
    // The dissolved region, in index order.
    let mut fp: Vec<usize> = Vec::new();
    let mut i: usize = 0;
    while i < n
        invariant
            i <= n,
            n == w * h,
            3 * n <= len0,
            rgb@ == orig,
            orig.len() == len0,
            fc == rgb_of(from),
            forall|k: int| 0 <= k < fp@.len() ==> (#[trigger] fp@[k]) < i && pixel(orig, fp@[k] as int) == fc,
            forall|a: int, b: int| 0 <= a < b < fp@.len() ==> fp@[a] < fp@[b],
            forall|m: int| 0 <= m < i && pixel(orig, m) == fc ==> fp@.contains(m as usize),
        decreases n - i,
    {
        let ghost before = fp@;
        if same_rgb(pixel_at(rgb, i), fc) {
            fp.push(i);
            assert(fp@[fp@.len() - 1] == i);
        }
        proof {
            assert forall|m: int| 0 <= m < i + 1 && pixel(orig, m) == fc implies fp@.contains(m as usize) by {
                if m == i {
                    assert(fp@[fp@.len() - 1] == i);
                } else {
                    let x = choose|x: int| 0 <= x < before.len() && before[x] == m as usize;
                    assert(fp@[x] == before[x]);
                }
            }
        }
        i = i + 1;
    }
    if fp.len() == 0 {
        proof {
            assert forall|m: int| 0 <= m < n implies pixel(orig, m) != fc by {
                if pixel(orig, m) == fc {
                    assert(fp@.contains(m as usize));
                }
            }
            let a0: Seq<Option<(u8, u8, u8)>> = Seq::new(n as nat, |i: int| None::<(u8, u8, u8)>);
            let d0: Seq<nat> = Seq::new(n as nat, |i: int| 0nat);
            let p0: Seq<int> = Seq::new(n as nat, |i: int| 0int);
            assert(flood_ok(orig, w as int, h as int, rgb_of(from), into@, a0, d0, p0));
            reveal(dissolved);
        }
        return Ok(());
    }
    // Seed every dissolved pixel that borders a target.
    let mut assigned: Vec<Option<(u8, u8, u8)>> = Vec::new();
    let mut z: usize = 0;
    while z < n
        invariant
            z <= n,
            assigned@.len() == z,
            forall|m: int| 0 <= m < z ==> assigned@[m] is None,
        decreases n - z,
    {
        assigned.push(None);
        z = z + 1;
    }
    assert(count_some(assigned@) == 0) by {
        assert(forall|m: int| 0 <= m < assigned@.len() ==> assigned@[m] is None);
        lemma_count_zero(assigned@);
    }
    let mut q: Vec<usize> = Vec::new();
    let mut k: usize = 0;
    while k < fp.len()
        invariant
            k <= fp@.len(),
            n == w * h,
            w > 0,
            h > 0,
            3 * n <= len0,
            rgb@ == orig,
            orig.len() == len0,
            fc == rgb_of(from),
            assigned@.len() == n,
            forall|a: int| 0 <= a < fp@.len() ==> (#[trigger] fp@[a]) < n && pixel(orig, fp@[a] as int) == fc,
            forall|a: int, b: int| 0 <= a < b < fp@.len() ==> fp@[a] < fp@[b],
            forall|m: int| #![trigger assigned@[m]] 0 <= m < n && assigned@[m] is Some ==> pixel(orig, m) == fc
                && in_targets(into@, assigned@[m]->0)
                && seed_color(orig, w as int, h as int, into@, m) == assigned@[m],
            forall|m: int| #![trigger assigned@[m]] 0 <= m < n && assigned@[m] is Some ==> exists|a: int| 0 <= a < k && fp@[a] == m,
            forall|m: int| #![trigger assigned@[m]] 0 <= m < n && assigned@[m] is Some ==> exists|b: int| 0 <= b < q@.len() && q@[b] == m,
            forall|a: int| 0 <= a < k && (#[trigger] seed_color(orig, w as int, h as int, into@, fp@[a] as int)) is Some
                ==> assigned@[fp@[a] as int] is Some,
            forall|m: int| 0 <= m < n && pixel(orig, m) == fc ==> fp@.contains(m as usize),
            q@.len() == count_some(assigned@),
            forall|b: int| 0 <= b < q@.len() ==> (#[trigger] q@[b]) < n && assigned@[q@[b] as int] is Some,
        decreases fp@.len() - k,
    {
        let p = fp[k];
        let ghost q_pre = q@;
        let ghost a_pre = assigned@;
        proof {
            assert forall|m: int| 0 <= m < n && assigned@[m] is Some implies m != p by {
                let a = choose|a: int| 0 <= a < k && fp@[a] == m;
                assert(fp@[a] < fp@[k as int]);
            }
        }
        let nbs = neighbors(w, h, p);
        let ghost nbv = neighbors_spec(w as int, h as int, p as int);
        let mut seed: Option<(u8, u8, u8)> = None;
        let mut t: usize = nbs.len();
        // Scan backwards so the first target neighbour wins.
        while t > 0
            invariant
                t <= nbs@.len(),
                nbs@.len() == nbv.len(),
                forall|m: int| 0 <= m < nbs@.len() ==> (#[trigger] nbs@[m]) as int == nbv[m],
                forall|m: int| 0 <= m < nbs@.len() ==> (#[trigger] nbs@[m]) < n,
                3 * n <= len0,
                rgb@ == orig,
                orig.len() == len0,
                seed == first_target_from(orig, nbv, into@, t as int),
            decreases t,
        {
            let c = pixel_at(rgb, nbs[t - 1]);
            if is_target(into, c) {
                seed = Some(c);
            }
            t = t - 1;
        }
        match seed {
            Some(c) => {
                proof {
                    lemma_first_target_in(orig, nbv, into@, 0);
                    lemma_count_some_set(assigned@, p as int, c);
                }
                assigned.set(p, Some(c));
                q.push(p);
            },
            None => {},
        }
        proof {
            assert forall|m: int| 0 <= m < n && assigned@[m] is Some implies exists|a: int| 0 <= a < k + 1 && fp@[a] == m by {
                if m == p {
                    assert(fp@[k as int] == m);
                } else {
                    let a = choose|a: int| 0 <= a < k && fp@[a] == m;
                    assert(fp@[a] == m);
                }
            }
            assert forall|m: int| #![trigger assigned@[m]] 0 <= m < n && assigned@[m] is Some implies exists|b: int| 0 <= b < q@.len() && q@[b] == m by {
                if m == p {
                    assert(q@[q@.len() - 1] == m);
                } else {
                    assert(a_pre[m] is Some);
                    let b = choose|b: int| 0 <= b < q_pre.len() && q_pre[b] == m;
                    assert(q@[b] == m);
                }
            }
        }
        k = k + 1;
    }
    proof {
        lemma_count_some_le(assigned@);
    }
    // Flood the seeds' colours through the dissolved region.
    proof {
        assert forall|m: int| 0 <= m < n && pixel(orig, m) == fc && (#[trigger] seed_color(orig, w as int, h as int, into@, m)) is Some
            implies assigned@[m] is Some by {
            assert(fp@.contains(m as usize));
            let a = choose|a: int| 0 <= a < fp@.len() && fp@[a] == m as usize;
            assert(seed_color(orig, w as int, h as int, into@, fp@[a] as int) is Some);
        }
    }
    let fl = flood_assign(rgb, w, h, fc, into, &mut assigned, &mut q);
    let ghost fd = fl@.0;
    let ghost fpar = fl@.1;
    proof {
        assert forall|m: int| #![trigger assigned@[m]] 0 <= m < n && assigned@[m] is Some implies pixel(orig, m) == fc
            && in_targets(into@, assigned@[m]->0)
            && (seed_color(orig, w as int, h as int, into@, m) is Some ==> seed_color(orig, w as int, h as int, into@, m) == assigned@[m]) by {
            if seed_color(orig, w as int, h as int, into@, m) is Some {
                assert(pixel(orig, m) == fc);
            }
        }
        assert forall|a: int| 0 <= a < fp@.len() && (#[trigger] seed_color(orig, w as int, h as int, into@, fp@[a] as int)) is Some
            implies assigned@[fp@[a] as int] is Some by {
            assert(fp@[a] < n && pixel(orig, fp@[a] as int) == fc);
        }
    }
    // Apply, falling back to the first target where no seed reached.
    let fallback = (into[0][0], into[0][1], into[0][2]);
    assert(rgb_of(into@[0]) == fallback);
    let mut k2: usize = 0;
    while k2 < fp.len()
        invariant
            k2 <= fp@.len(),
            n == w * h,
            3 * n <= len0,
            rgb@.len() == len0,
            orig.len() == len0,
            fc == rgb_of(from),
            assigned@.len() == n,
            in_targets(into@, fallback),
            flood_ok(orig, w as int, h as int, fc, into@, assigned@, fd, fpar),
            forall|m: int| 0 <= m < n && pixel(orig, m) == fc ==> fp@.contains(m as usize),
            forall|a: int| 0 <= a < fp@.len() ==> (#[trigger] fp@[a]) < n && pixel(orig, fp@[a] as int) == fc,
            forall|a: int, b: int| 0 <= a < b < fp@.len() ==> fp@[a] < fp@[b],
            forall|m: int| #![trigger assigned@[m]] 0 <= m < n && assigned@[m] is Some ==> pixel(orig, m) == fc
                && in_targets(into@, assigned@[m]->0)
                && (seed_color(orig, w as int, h as int, into@, m) is Some ==> seed_color(orig, w as int, h as int, into@, m) == assigned@[m]),
            forall|a: int| 0 <= a < fp@.len() && (#[trigger] seed_color(orig, w as int, h as int, into@, fp@[a] as int)) is Some
                ==> assigned@[fp@[a] as int] is Some,
            forall|j: int| 0 <= j < len0 && !covered(fp@, k2 as int, j) ==> rgb@[j] == orig[j],
            forall|a: int| 0 <= a < k2 ==> pixel(rgb@, #[trigger] fp@[a] as int) == match assigned@[fp@[a] as int] {
                Some(c) => c,
                None => fallback,
            },
        decreases fp@.len() - k2,
    {
        let p = fp[k2];
        let c = match assigned[p] {
            Some(c) => c,
            None => fallback,
        };
        let ghost before = rgb@;
        rgb.set(3 * p, c.0);
        rgb.set(3 * p + 1, c.1);
        rgb.set(3 * p + 2, c.2);
        proof {
            assert forall|a: int| 0 <= a < k2 + 1 implies pixel(rgb@, #[trigger] fp@[a] as int) == match assigned@[fp@[a] as int] {
                Some(c) => c,
                None => fallback,
            } by {
                if a < k2 {
                    assert(fp@[a] < fp@[k2 as int]);
                    assert(pixel(rgb@, fp@[a] as int) == pixel(before, fp@[a] as int));
                }
            }
            assert forall|j: int| 0 <= j < len0 && !covered(fp@, k2 + 1, j) implies rgb@[j] == orig[j] by {
                assert(!(3 * p <= j < 3 * p + 3)) by {
                    if 3 * p <= j < 3 * p + 3 {
                        assert(fp@[k2 as int] as int == j / 3);
                    }
                }
                assert(!covered(fp@, k2 as int, j)) by {
                    if covered(fp@, k2 as int, j) {
                        let a = choose|a: int| 0 <= a < k2 && #[trigger] fp@[a] as int == (j) / 3;
                        assert(fp@[a] as int == j / 3);
                    }
                }
            }
        }
        k2 = k2 + 1;
    }
    proof {
        assert forall|j: int| 3 * (w * h) <= j < orig.len() implies rgb@[j] == orig[j] by {
            if covered(fp@, fp@.len() as int, j) {
                let a = choose|a: int| 0 <= a < fp@.len() && #[trigger] fp@[a] as int == j / 3;
                assert(fp@[a] < n);
            }
        }
        assert forall|i: int| 0 <= i < w * h && pixel(orig, i) != rgb_of(from) implies pixel(rgb@, i) == pixel(orig, i) by {
            if covered(fp@, fp@.len() as int, 3 * i) {
                let a = choose|a: int| 0 <= a < fp@.len() && #[trigger] fp@[a] as int == (3 * i) / 3;
                assert(fp@[a] == i);
            }
            if covered(fp@, fp@.len() as int, 3 * i + 1) {
                let a = choose|a: int| 0 <= a < fp@.len() && #[trigger] fp@[a] as int == (3 * i + 1) / 3;
                assert(fp@[a] == i);
            }
            if covered(fp@, fp@.len() as int, 3 * i + 2) {
                let a = choose|a: int| 0 <= a < fp@.len() && #[trigger] fp@[a] as int == (3 * i + 2) / 3;
                assert(fp@[a] == i);
            }
            assert(rgb@[3 * i] == orig[3 * i]);
            assert(rgb@[3 * i + 1] == orig[3 * i + 1]);
            assert(rgb@[3 * i + 2] == orig[3 * i + 2]);
        }
        assert forall|i: int| 0 <= i < w * h && pixel(orig, i) == rgb_of(from) implies in_targets(into@, pixel(rgb@, i))
            && (#[trigger] seed_color(orig, w as int, h as int, into@, i) matches Some(c) ==> pixel(rgb@, i) == c) by {
            assert(fp@.contains(i as usize));
            let a = choose|a: int| 0 <= a < fp@.len() && fp@[a] == i as usize;
            assert(pixel(rgb@, fp@[a] as int) == match assigned@[fp@[a] as int] {
                Some(c) => c,
                None => fallback,
            });
            if seed_color(orig, w as int, h as int, into@, fp@[a] as int) is Some {
                assert(assigned@[fp@[a] as int] is Some);
            }
        }
        assert forall|i: int| 0 <= i < w * h && pixel(orig, i) == rgb_of(from) implies pixel(rgb@, i) == match #[trigger] assigned@[i] {
            Some(c) => c,
            None => rgb_of(into@[0]),
        } by {
            assert(fp@.contains(i as usize));
            let a = choose|a: int| 0 <= a < fp@.len() && fp@[a] == i as usize;
            assert(pixel(rgb@, fp@[a] as int) == match assigned@[fp@[a] as int] {
                Some(c) => c,
                None => fallback,
            });
        }
        assert(flood_ok(orig, w as int, h as int, rgb_of(from), into@, assigned@, fd, fpar));
        reveal(dissolved);
    }
    Ok(())
}

proof fn lemma_first_target_in(rgb: Seq<u8>, nb: Seq<int>, into: Seq<[u8; 3]>, k: int)
    ensures
        first_target_from(rgb, nb, into, k) matches Some(c) ==> in_targets(into, c),
    decreases nb.len() - k,
{
    if 0 <= k < nb.len() && !in_targets(into, pixel(rgb, nb[k])) {
        lemma_first_target_in(rgb, nb, into, k + 1);
    }
}

proof fn lemma_count_zero(s: Seq<Option<(u8, u8, u8)>>)
    requires
        forall|m: int| 0 <= m < s.len() ==> s[m] is None,
    ensures
        count_some(s) == 0,
    decreases s.len(),
{
    if s.len() > 0 {
        lemma_count_zero(s.drop_last());
    }
}


// ---------------------------------------------------------------------------
// 24-bit BMP encoding
// ---------------------------------------------------------------------------

/// The four little-endian bytes of `x` (taken modulo 2^32).
pub open spec fn le32(x: int) -> Seq<u8> {
    seq![(x % 256) as u8, ((x / 256) % 256) as u8, ((x / 65536) % 256) as u8, ((x / 16777216) % 256) as u8]
}

/// The two little-endian bytes of `x` (taken modulo 2^16).
pub open spec fn le16(x: int) -> Seq<u8> {
    seq![(x % 256) as u8, ((x / 256) % 256) as u8]
}

/// Padding bytes after a row of `w` pixels (rows are 4-byte aligned).
pub open spec fn row_pad(w: int) -> int {
    (4 - (3 * w) % 4) % 4
}

/// Bytes per stored row.
pub open spec fn stride(w: int) -> int {
    3 * w + row_pad(w)
}

/// The 54-byte BITMAPFILEHEADER + BITMAPINFOHEADER of a 24-bit, bottom-up,
/// BI_RGB `w`×`h` bitmap (sizes written modulo 2^32, 2835 pixels/metre).
pub open spec fn bmp_header(w: int, h: int) -> Seq<u8> {
    let pixel_bytes = stride(w) * h;
    seq![66u8, 77u8] + le32(54 + pixel_bytes) + le32(0) + le32(54) + le32(40) + le32(w) + le32(h) + le16(1) + le16(24)
        + le32(0) + le32(pixel_bytes) + le32(2835) + le32(2835) + le32(0) + le32(0)
}

/// Byte `i` of the pixel data: rows bottom-up, each pixel stored B, G, R,
/// then the row's zero padding.
pub open spec fn pix_byte(rgb: Seq<u8>, w: int, h: int, i: int) -> u8 {
    let r = i / stride(w);
    let k = i % stride(w);
    let y = h - 1 - r;
    if k < 3 * w {
        rgb[3 * (y * w + k / 3) + 2 - k % 3]
    } else {
        0
    }
}

/// The BMP file of a top-down RGB buffer.
#[verifier::opaque]
pub open spec fn bmp24(rgb: Seq<u8>, w: int, h: int) -> Seq<u8> {
    bmp_header(w, h) + Seq::new((stride(w) * h) as nat, |i: int| pix_byte(rgb, w, h, i))
}

fn push_le32(out: &mut Vec<u8>, x: usize)
    ensures
        final(out)@ == old(out)@ + le32(x as int),
{
    out.push((x % 256) as u8);
    out.push(((x / 256) % 256) as u8);
    out.push(((x / 65536) % 256) as u8);
    out.push(((x / 16777216) % 256) as u8);
    assert(final(out)@ =~= old(out)@ + le32(x as int));
}

fn push_le16(out: &mut Vec<u8>, x: usize)
    ensures
        final(out)@ == old(out)@ + le16(x as int),
{
    out.push((x % 256) as u8);
    out.push(((x / 256) % 256) as u8);
    assert(final(out)@ =~= old(out)@ + le16(x as int));
}

proof fn lemma_pix_index(rgb: Seq<u8>, w: int, h: int, r: int, k: int)
    requires
        w > 0,
        0 <= r,
        0 <= k < stride(w),
    ensures
        pix_byte(rgb, w, h, r * stride(w) + k) == if k < 3 * w {
            rgb[3 * ((h - 1 - r) * w + k / 3) + 2 - k % 3]
        } else {
            0u8
        },
{
    let i = r * stride(w) + k;
    vstd::arithmetic::div_mod::lemma_fundamental_div_mod_converse(i, stride(w), r, k);
}

proof fn lemma_third(x: int, d: int)
    requires
        0 <= x,
        0 <= d < 3,
    ensures
        (3 * x + d) / 3 == x,
        (3 * x + d) % 3 == d,
{
    vstd::arithmetic::div_mod::lemma_fundamental_div_mod_converse(3 * x + d, 3, x, d);
}

/// Byte `k` of stored row `r` (row `r` from the bottom).
pub open spec fn row_bytes(rgb: Seq<u8>, w: int, h: int, r: int) -> Seq<u8> {
    Seq::new(stride(w) as nat, |k: int| pix_byte(rgb, w, h, r * stride(w) + k))
}

fn push_row(out: &mut Vec<u8>, rgb: &[u8], width: usize, height: usize, r: usize)
    requires
        width > 0,
        r < height,
        3 * width * height <= rgb@.len(),
        3 * width + 3 <= usize::MAX,
    ensures
        final(out)@ == old(out)@ + row_bytes(rgb@, width as int, height as int, r as int),
{
    let ghost w = width as int;
    let ghost h = height as int;
    let ghost start = out@;
    let ghost row = row_bytes(rgb@, w, h, r as int);
    let rl = rgb.len();
    let row_raw = width * 3;
    let pad = (4 - (row_raw % 4)) % 4;
    let y = height - 1 - r;
    assert((y + 1) * row_raw <= row_raw * height) by (nonlinear_arith)
        requires
            y < height,
            row_raw >= 0,
    ;
    let mut x: usize = 0;
    while x < width
        invariant
            0 <= x <= width,
            y == height - 1 - r,
            w == width as int,
            h == height as int,
            width > 0,
            row_raw == 3 * width,
            pad == row_pad(w),
            3 * width * height <= rgb@.len(),
            rgb@.len() == rl,
            (y + 1) * row_raw <= row_raw * height,
            row == row_bytes(rgb@, w, h, r as int),
            out@ == start + row.take(3 * x),
        decreases width - x,
    {
        assert(y * row_raw + x * 3 + 2 < rgb@.len()) by (nonlinear_arith)
            requires
                x < width,
                row_raw == 3 * width,
                (y + 1) * row_raw <= row_raw * height,
                3 * width * height <= rgb@.len(),
        ;
        let base = y * row_raw + x * 3;
        proof {
            assert(3 * (y * w + x) == base) by (nonlinear_arith)
                requires
                    base == y * row_raw + x * 3,
                    row_raw == 3 * width,
                    w == width,
            ;
            lemma_third(x as int, 0);
            lemma_third(x as int, 1);
            lemma_third(x as int, 2);
            lemma_pix_index(rgb@, w, h, r as int, 3 * x);
            lemma_pix_index(rgb@, w, h, r as int, 3 * x + 1);
            lemma_pix_index(rgb@, w, h, r as int, 3 * x + 2);
            assert(row[3 * x] == rgb@[base + 2]);
            assert(row[3 * x + 1] == rgb@[base + 1]);
            assert(row[3 * x + 2] == rgb@[base as int]);
        }
        out.push(rgb[base + 2]);
        out.push(rgb[base + 1]);
        out.push(rgb[base]);
        assert(out@ =~= start + row.take(3 * (x + 1)));
        x = x + 1;
    }
    let mut q: usize = 0;
    while q < pad
        invariant
            0 <= q <= pad,
            pad == row_pad(w),
            w == width as int,
            h == height as int,
            width > 0,
            row == row_bytes(rgb@, w, h, r as int),
            out@ == start + row.take(3 * width + q),
        decreases pad - q,
    {
        proof {
            lemma_pix_index(rgb@, w, h, r as int, 3 * width + q);
            assert(row[3 * width + q] == 0u8);
        }
        out.push(0u8);
        assert(out@ =~= start + row.take(3 * width + q + 1));
        q = q + 1;
    }
    assert(row.take(3 * width + pad) =~= row);
}

/// Encodes a top-down RGB buffer of `width`×`height` pixels as a plain
/// 24-bit, bottom-up, BI_RGB BMP with a 54-byte header ([`bmp24`]).
pub fn encode_bmp24(rgb: &[u8], width: usize, height: usize) -> (r: Vec<u8>)
    requires
        3 * width * height <= rgb@.len(),
        3 * width + 3 <= usize::MAX,
        54 + stride(width as int) * height <= usize::MAX,
    ensures
        r@ == bmp24(rgb@, width as int, height as int),
{
    let ghost w = width as int;
    let ghost h = height as int;
    let row_raw = width * 3;
    let pad = (4 - (row_raw % 4)) % 4;
    let stride_len = row_raw + pad;
    assert(stride_len == stride(w));
    assert(stride_len * height <= usize::MAX) by (nonlinear_arith)
        requires
            54 + stride_len * height <= usize::MAX,
    ;
    let pixel_bytes = stride_len * height;
    let file_size = 54 + pixel_bytes;
    let mut out: Vec<u8> = Vec::new();
    out.push(66u8);
    out.push(77u8);
    push_le32(&mut out, file_size);
    push_le32(&mut out, 0);
    push_le32(&mut out, 54);
    push_le32(&mut out, 40);
    push_le32(&mut out, width);
    push_le32(&mut out, height);
    push_le16(&mut out, 1);
    push_le16(&mut out, 24);
    push_le32(&mut out, 0);
    push_le32(&mut out, pixel_bytes);
    push_le32(&mut out, 2835);
    push_le32(&mut out, 2835);
    push_le32(&mut out, 0);
    push_le32(&mut out, 0);
    let ghost head = bmp_header(w, h);
    assert(out@ =~= head);
    let ghost all = Seq::new((stride(w) * h) as nat, |i: int| pix_byte(rgb@, w, h, i));
    proof {
        reveal(bmp24);
    }
    if width == 0 {
        assert(stride(w) == 0);
        assert(stride(w) * h == 0);
        assert(all =~= Seq::<u8>::empty());
        return out;
    }
    let mut r: usize = 0;
    while r < height
        invariant
            0 <= r <= height,
            w == width as int,
            h == height as int,
            width > 0,
            stride_len == stride(w),
            3 * width * height <= rgb@.len(),
            3 * width + 3 <= usize::MAX,
            head == bmp_header(w, h),
            all == Seq::new((stride(w) * h) as nat, |i: int| pix_byte(rgb@, w, h, i)),
            r * stride_len <= stride_len * height,
            out@ == head + all.take(r * stride_len),
        decreases height - r,
    {
        let ghost before = out@;
        push_row(&mut out, rgb, width, height, r);
        proof {
            assert(r * stride_len + stride_len <= stride_len * height) by (nonlinear_arith)
                requires
                    r < height,
                    stride_len >= 0,
            ;
            assert((r + 1) * stride_len == r * stride_len + stride_len) by (nonlinear_arith);
            assert(all.take((r + 1) * stride_len) =~= all.take(r * stride_len) + row_bytes(rgb@, w, h, r as int));
        }
        r = r + 1;
    }
    assert(height * stride_len == stride(w) * h) by (nonlinear_arith)
        requires
            stride_len == stride(w),
            h == height,
    ;
    assert(all.take(height * stride_len) =~= all);
    out
}


// ---------------------------------------------------------------------------
// Replaying the operations
// ---------------------------------------------------------------------------

/// `next` is what the operation `op` makes of the `w`×`h` buffer `rgb`.
#[verifier::opaque]
pub open spec fn op_step(rgb: Seq<u8>, w: int, h: int, op: BmpOp, next: Seq<u8>) -> bool {
    match op {
        BmpOp::Paint { pixels, color } => next == painted(rgb, w * h, pixels@, color),
        BmpOp::Dissolve { from, into } => into@.len() > 0 && dissolved(rgb, next, w, h, from, into@),
    }
}

/// `states` is a run of `ops` from `start`: each state what the next
/// operation makes of the one before.
pub open spec fn op_run(start: Seq<u8>, w: int, h: int, ops: Seq<BmpOp>, states: Seq<Seq<u8>>) -> bool {
    &&& states.len() == ops.len() + 1
    &&& states[0] == start
    &&& forall|k: int| 0 <= k < ops.len() ==> op_step(states[k], w, h, #[trigger] ops[k], states[k + 1])
}

/// Whether some operation is a dissolve with no target.
pub open spec fn has_empty_dissolve(ops: Seq<BmpOp>) -> bool {
    exists|k: int| 0 <= k < ops.len() && (#[trigger] ops[k] matches BmpOp::Dissolve { into, .. } && into@.len() == 0)
}

/// Whether the sizes of a `w`×`h` bitmap fit the encoder.
pub open spec fn encodable(w: int, h: int) -> bool {
    3 * w + 3 <= usize::MAX && 54 + stride(w) * h <= usize::MAX
}

/// The message for a decoded bitmap too large to encode.
pub open spec fn too_large_message() -> Seq<char> {
    "provinces.bmp is too large to encode"@
}

/// Applies one operation to the `w`×`h` buffer.
fn apply_one(rgb: &mut Vec<u8>, w: usize, h: usize, n: usize, op: &BmpOp) -> (r: Result<(), String>)
    requires
        n == w * h,
        3 * (w * h) <= old(rgb)@.len(),
    ensures
        final(rgb)@.len() == old(rgb)@.len(),
        match r {
            Ok(_) => op_step(old(rgb)@, w as int, h as int, *op, final(rgb)@)
                && !(*op matches BmpOp::Dissolve { into, .. } && into@.len() == 0),
            Err(e) => (*op matches BmpOp::Dissolve { into, .. } && into@.len() == 0) && e@ == no_target_message(),
        },
{
    proof {
        reveal(op_step);
    }
    match op {
        BmpOp::Paint { pixels, color } => {
            paint(rgb, n, pixels.as_slice(), *color);
            Ok(())
        },
        BmpOp::Dissolve { from, into } => dissolve(rgb, w, h, *from, into),
    }
}

/// Replays `ops` in order on the province bitmap `base` (raw image bytes)
/// and re-encodes it as a 24-bit BMP.
#[verifier::spinoff_prover]
#[verifier::rlimit(60)]
pub fn apply_ops(base: &[u8], ops: &[BmpOp]) -> (r: Result<Vec<u8>, String>)
    ensures
        match decoded_bitmap(base@) {
            None => r matches Err(e) && exists|d: Seq<char>| e@ == "Failed to decode provinces.bmp: "@ + d,
            Some((w, h, rgb)) => match r {
                Ok(bytes) => !has_empty_dissolve(ops@) && encodable(w as int, h as int)
                    && exists|states: Seq<Seq<u8>>| op_run(rgb, w as int, h as int, ops@, states)
                        && bytes@ == bmp24(states.last(), w as int, h as int),
                Err(e) => has_empty_dissolve(ops@) && e@ == no_target_message()
                    || !encodable(w as int, h as int) && e@ == too_large_message(),
            },
        },
{
    let (w32, h32, mut rgb) = match decode_image(base) {
        Ok(t) => t,
        Err(e) => {
            let mut m = String::from_str("Failed to decode provinces.bmp: ");
            m.append(e.as_str());
            return Err(m);
        },
    };
    let w = w32 as usize;
    let h = h32 as usize;
    let ghost w0 = w as int;
    let ghost h0 = h as int;
    let ghost rgb0 = rgb@;
    let len0 = rgb.len();
    proof {
        assert(w * h * 3 == 3 * (w * h)) by (nonlinear_arith);
    }
    let n = w * h;
    let ghost mut states: Seq<Seq<u8>> = seq![rgb@];
    let mut k: usize = 0;
    while k < ops.len()
        invariant
            k <= ops@.len(),
            n == w * h,
            3 * n <= len0,
            rgb@.len() == len0,
            decoded_bitmap(base@) == Some((w32, h32, rgb0)),
            w == w32,
            h == h32,
            states.len() == k + 1,
            states[0] == rgb0,
            states.last() == rgb@,
            forall|j: int| 0 <= j < k ==> op_step(states[j], w as int, h as int, #[trigger] ops@[j], states[j + 1]),
            forall|j: int| 0 <= j < k ==> !(#[trigger] ops@[j] matches BmpOp::Dissolve { into, .. } && into@.len() == 0),
        decreases ops@.len() - k,
    {
        match apply_one(&mut rgb, w, h, n, &ops[k]) {
            Ok(()) => {},
            Err(e) => {
                assert(ops@[k as int] matches BmpOp::Dissolve { into, .. } && into@.len() == 0);
                assert(has_empty_dissolve(ops@));
                return Err(e);
            },
        }
        proof {
            let old_states = states;
            states = states.push(rgb@);
            assert forall|j: int| 0 <= j < k + 1 implies op_step(states[j], w as int, h as int, #[trigger] ops@[j], states[j + 1]) by {
                if j < k {
                    assert(states[j] == old_states[j]);
                    assert(states[j + 1] == old_states[j + 1]);
                }
            }
        }
        k = k + 1;
    }
    proof {
        assert(!has_empty_dissolve(ops@));
        assert(3 * w * h == 3 * n) by (nonlinear_arith)
            requires
                n == w * h,
        ;
        assert(op_run(rgb0, w as int, h as int, ops@, states));
    }
    let r = encode_checked(rgb.as_slice(), w, h);
    proof {
        assert(w as int == w32 as int && h as int == h32 as int);
        assert(decoded_bitmap(base@) == Some((w32, h32, rgb0)));
        if r is Ok {
            assert(exists|st: Seq<Seq<u8>>| op_run(rgb0, w as int, h as int, ops@, st)
                && r->Ok_0@ == bmp24(st.last(), w as int, h as int)) by {
                assert(op_run(rgb0, w as int, h as int, ops@, states) && r->Ok_0@ == bmp24(states.last(), w as int, h as int));
            }
            assert(encodable(w32 as int, h32 as int));
        } else {
            assert(!encodable(w32 as int, h32 as int));
            assert(r->Err_0@ == too_large_message());
        }
        let dd = decoded_bitmap(base@)->0;
        assert(dd.0 == w32 && dd.1 == h32 && dd.2 == rgb0);
        assert(r is Ok ==> !has_empty_dissolve(ops@) && encodable(dd.0 as int, dd.1 as int));
        assert(r is Ok ==> exists|st: Seq<Seq<u8>>| op_run(dd.2, dd.0 as int, dd.1 as int, ops@, st)
                        && r->Ok_0@ == bmp24(st.last(), dd.0 as int, dd.1 as int));
        assert(r is Err ==> !encodable(dd.0 as int, dd.1 as int) && r->Err_0@ == too_large_message());
    }
    r
}

/// The bitmap encoded, or the too-large error when its sizes do not fit.
fn encode_checked(rgb: &[u8], w: usize, h: usize) -> (r: Result<Vec<u8>, String>)
    requires
        3 * w * h <= rgb@.len(),
    ensures
        match r {
            Ok(bytes) => encodable(w as int, h as int) && bytes@ == bmp24(rgb@, w as int, h as int),
            Err(e) => !encodable(w as int, h as int) && e@ == too_large_message(),
        },
{
    if w > (usize::MAX - 3) / 3 {
        return Err(String::from_str("provinces.bmp is too large to encode"));
    }
    let row = 3 * w + (4 - (3 * w) % 4) % 4;
    assert(row == stride(w as int));
    if h > 0 && row > (usize::MAX - 54) / h {
        proof {
            assert(row * h > usize::MAX - 54) by (nonlinear_arith)
                requires
                    row > (usize::MAX - 54) / (h as int),
                    h > 0,
            ;
        }
        return Err(String::from_str("provinces.bmp is too large to encode"));
    }
    proof {
        if h > 0 {
            assert(row * h <= usize::MAX - 54) by (nonlinear_arith)
                requires
                    row <= (usize::MAX - 54) / (h as int),
                    h > 0,
            ;
        }
        assert(stride(w as int) * h == row * h);
    }
    Ok(encode_bmp24(rgb, w, h))
}


// ---------------------------------------------------------------------------
// Add-province scaffold helpers
// ---------------------------------------------------------------------------

/// A character a file stem keeps: ASCII letter or digit, space or hyphen.
pub open spec fn stem_char(c: char) -> bool {
    ('a' <= c <= 'z') || ('A' <= c <= 'Z') || ('0' <= c <= '9') || c == ' ' || c == '-'
}

/// The words of `s[i..]` (runs of non-spaces) appended to `acc`, joined by
/// single spaces; `pending` when a space separates `acc` from what follows.
pub open spec fn squeeze_from(s: Seq<char>, i: int, acc: Seq<char>, pending: bool) -> Seq<char>
    decreases s.len() - i,
{
    if i < 0 || i >= s.len() {
        acc
    } else if s[i] == ' ' {
        squeeze_from(s, i + 1, acc, acc.len() > 0)
    } else {
        squeeze_from(s, i + 1, (if pending { acc.push(' ') } else { acc }).push(s[i]), false)
    }
}

/// A file-safe stem for a province name: every character other than ASCII
/// letters, digits, space and hyphen becomes a space, the words are joined
/// by single spaces, and an empty result is `Province`.
pub open spec fn stem_spec(name: Seq<char>) -> Seq<char> {
    let mapped = Seq::new(name.len(), |i: int| if stem_char(name[i]) { name[i] } else { ' ' });
    let s = squeeze_from(mapped, 0, Seq::empty(), false);
    if s.len() == 0 { "Province"@ } else { s }
}

pub fn safe_stem(name: &str) -> (r: String)
    ensures
        r@ == stem_spec(name@),
{
    let cs = chars_of(name);
    let ghost mapped = Seq::new(name@.len(), |i: int| if stem_char(name@[i]) { name@[i] } else { ' ' });
    let mut acc: Vec<char> = Vec::new();
    let mut pending = false;
    let mut i: usize = 0;
    while i < cs.len()
        invariant
            i <= cs@.len(),
            cs@ == name@,
            mapped == Seq::new(name@.len(), |i: int| if stem_char(name@[i]) { name@[i] } else { ' ' }),
            squeeze_from(mapped, i as int, acc@, pending) == squeeze_from(mapped, 0, Seq::empty(), false),
        decreases cs@.len() - i,
    {
        let c = cs[i];
        let keep = ('a' <= c && c <= 'z') || ('A' <= c && c <= 'Z') || ('0' <= c && c <= '9') || c == ' ' || c == '-';
        let m = if keep { c } else { ' ' };
        assert(mapped[i as int] == m);
        if m == ' ' {
            pending = acc.len() > 0;
        } else {
            if pending {
                acc.push(' ');
            }
            acc.push(m);
            pending = false;
        }
        i = i + 1;
    }
    if acc.len() == 0 {
        String::from_str("Province")
    } else {
        string_from_chars(acc.as_slice())
    }
}

/// The colour the walk reaches at position `v` of the 24-bit space.
pub open spec fn walk_color(v: int) -> (u8, u8, u8) {
    (((v / 65536) % 256) as u8, ((v / 256) % 256) as u8, (v % 256) as u8)
}

/// The additive step of the colour walk.
pub open spec fn walk_step() -> int {
    2654435761
}

/// The first colour of the walk from `v` (at most `steps` positions) not
/// among `used`.
pub open spec fn first_free(used: Seq<[u8; 3]>, v: int, steps: nat) -> Option<(u8, u8, u8)>
    decreases steps,
{
    if steps == 0 {
        None
    } else if !in_targets(used, walk_color(v)) {
        Some(walk_color(v))
    } else {
        first_free(used, (v + walk_step()) % 16777216, (steps - 1) as nat)
    }
}

/// A stable colour not among `used`: the first free colour of the walk over
/// the 24-bit space seeded by `seed` (which visits every colour), or, if
/// all are used, the seed's own bytes.
pub open spec fn distinct_spec(used: Seq<[u8; 3]>, seed: u32) -> (u8, u8, u8) {
    match first_free(used, (seed * walk_step() + 1) % 16777216, 16777216) {
        Some(c) => c,
        None => ((seed % 256) as u8, ((seed / 256) % 256) as u8, ((seed / 65536) % 256) as u8),
    }
}

pub fn distinct_color(used: &Vec<[u8; 3]>, seed: u32) -> (r: [u8; 3])
    ensures
        rgb_of(r) == distinct_spec(used@, seed),
{
    let mut v: u64 = ((seed as u64) * 2654435761u64 + 1) % 16777216;
    let mut left: u64 = 16777216;
    while left > 0
        invariant
            v < 16777216,
            left <= 16777216,
            first_free(used@, v as int, left as nat) == first_free(used@, (seed * walk_step() + 1) % 16777216, 16777216),
        decreases left,
    {
        let c = (((v / 65536) % 256) as u8, ((v / 256) % 256) as u8, (v % 256) as u8);
        assert(c == walk_color(v as int));
        if !is_target(used, c) {
            return [c.0, c.1, c.2];
        }
        v = (v + 2654435761u64) % 16777216;
        left = left - 1;
    }
    [(seed % 256) as u8, ((seed / 256) % 256) as u8, ((seed / 65536) % 256) as u8]
}

// ---------------------------------------------------------------------------
// The colour walk visits every colour.
// ---------------------------------------------------------------------------

/// Position `k` of the walk started at `v`.
pub open spec fn walk_pos(v: int, k: int) -> int {
    (v + k * walk_step()) % 16777216
}

proof fn lemma_first_free_none(used: Seq<[u8; 3]>, v: int, steps: nat)
    requires
        0 <= v < 16777216,
        first_free(used, v, steps) is None,
    ensures
        forall|k: int| 0 <= k < steps ==> in_targets(used, #[trigger] walk_color(walk_pos(v, k))),
    decreases steps,
{
    if steps > 0 {
        let v2 = (v + walk_step()) % 16777216;
        lemma_first_free_none(used, v2, (steps - 1) as nat);
        assert forall|k: int| 0 <= k < steps implies in_targets(used, #[trigger] walk_color(walk_pos(v, k))) by {
            if k == 0 {
                assert(walk_pos(v, 0) == v % 16777216);
                vstd::arithmetic::div_mod::lemma_small_mod(v as nat, 16777216);
            } else {
                assert(walk_pos(v2, k - 1) == walk_pos(v, k)) by {
                    vstd::arithmetic::div_mod::lemma_add_mod_noop(v + walk_step(), (k - 1) * walk_step(), 16777216);
                    vstd::arithmetic::div_mod::lemma_mod_twice((k - 1) * walk_step(), 16777216);
                    vstd::arithmetic::div_mod::lemma_add_mod_noop(v2, (k - 1) * walk_step(), 16777216);
                    vstd::arithmetic::div_mod::lemma_mod_twice(v + walk_step(), 16777216);
                    assert(v + walk_step() + (k - 1) * walk_step() == v + k * walk_step());
                }
            }
        }
    }
}

proof fn lemma_walk_color_injective(a: u32, b: u32)
    requires
        a < 16777216,
        b < 16777216,
        walk_color(a as int) == walk_color(b as int),
    ensures
        a == b,
{
    assert((a / 65536) % 256 == (b / 65536) % 256);
    assert((a / 256) % 256 == (b / 256) % 256);
    assert(a % 256 == b % 256);
    assert(a < 16777216 && b < 16777216 && (a / 65536) % 256 == (b / 65536) % 256 && (a / 256) % 256 == (b / 256)
        % 256 && a % 256 == b % 256 ==> a == b) by (bit_vector);
}

proof fn lemma_walk_pos_injective(v: int, k1: int, k2: int)
    requires
        0 <= v,
        0 <= k1 < k2 < 16777216,
    ensures
        walk_pos(v, k1) != walk_pos(v, k2),
{
    let n: int = 16777216;
    let d = k2 - k1;
    if walk_pos(v, k1) == walk_pos(v, k2) {
        assert((v + k2 * 2654435761) - (v + k1 * 2654435761) == (k2 - k1) * 2654435761) by (nonlinear_arith);
        vstd::arithmetic::div_mod::lemma_mod_equivalence(v + k2 * walk_step(), v + k1 * walk_step(), n);
        assert((d * walk_step()) % n == 0);
        vstd::arithmetic::div_mod::lemma_mul_mod_noop(d * walk_step(), 9121617, n);
        assert(((d * walk_step()) * 9121617) % n == 0);
        assert(((k2 - k1) * 2654435761) * 9121617 == 16777216 * ((k2 - k1) * 1443192146) + (k2 - k1)) by (nonlinear_arith);
        vstd::arithmetic::div_mod::lemma_mod_multiples_vanish(d * 1443192146, d, n);
        vstd::arithmetic::div_mod::lemma_small_mod(d as nat, n as nat);
        assert(false);
    }
}

/// A new province's colour is free: whenever fewer than 2^24 colours are
/// defined, the walk finds a colour that no defined province uses (the walk
/// visits every colour of the 24-bit space once).
pub proof fn lemma_distinct_color_unused(used: Seq<[u8; 3]>, seed: u32)
    requires
        used.len() < 16777216,
    ensures
        !in_targets(used, distinct_spec(used, seed)),
{
    let n: int = 16777216;
    let v0 = (seed * walk_step() + 1) % n;
    lemma_first_free_some(used, v0, n as nat);
    if first_free(used, v0, n as nat) is None {
        lemma_first_free_none(used, v0, n as nat);
        let dom = vstd::set_lib::set_int_range(0, n);
        let f = |k: int| choose|t: int| 0 <= t < used.len() && rgb_of(used[t]) == walk_color(walk_pos(v0, k));
        assert forall|k: int| dom.contains(k) implies 0 <= #[trigger] f(k) < used.len() && rgb_of(used[f(k)])
            == walk_color(walk_pos(v0, k)) by {
            assert(in_targets(used, walk_color(walk_pos(v0, k))));
        }
        assert(vstd::relations::injective_on(f, dom)) by {
            assert forall|k1: int, k2: int| dom.contains(k1) && dom.contains(k2) && #[trigger] f(k1) == #[trigger] f(k2)
                implies k1 == k2 by {
                if k1 != k2 {
                    let p1 = walk_pos(v0, k1);
                    let p2 = walk_pos(v0, k2);
                    if k1 < k2 {
                        lemma_walk_pos_injective(v0, k1, k2);
                    } else {
                        lemma_walk_pos_injective(v0, k2, k1);
                    }
                    lemma_walk_color_injective(p1 as u32, p2 as u32);
                }
            }
        }
        let img = dom.map(f);
        vstd::set_lib::lemma_int_range(0, n);
        vstd::set_lib::lemma_map_size(dom, img, f);
        let idx = vstd::set_lib::set_int_range(0, used.len() as int);
        vstd::set_lib::lemma_int_range(0, used.len() as int);
        assert(img.subset_of(idx));
        vstd::set_lib::lemma_len_subset(img, idx);
        assert(false);
    }
}

proof fn lemma_first_free_some(used: Seq<[u8; 3]>, v: int, steps: nat)
    ensures
        first_free(used, v, steps) matches Some(c) ==> !in_targets(used, c),
    decreases steps,
{
    if steps > 0 && in_targets(used, walk_color(v)) {
        lemma_first_free_some(used, (v + walk_step()) % 16777216, (steps - 1) as nat);
    }
}

/// The `max_provinces` ceiling of a `map/default.map` with bytes `bytes`:
/// its trimmed scalar read as a `u32`.
pub open spec fn default_max_spec(bytes: Seq<u8>) -> Option<u32> {
    match scalar_of(parse_spec(lossy_utf8(bytes)), "max_provinces"@) {
        Some(t) => u32_of(trim_spec(t, false)),
        None => None,
    }
}

pub fn default_map_max(bytes: &[u8]) -> (r: Option<u32>)
    ensures
        r == default_max_spec(bytes@),
{
    let text = lossy_string(bytes);
    let block = parse(text.as_str());
    match block.get_scalar("max_provinces") {
        Some(s) => {
            let cs = chars_of(s);
            let t = string_from_chars(trim_chars(cs.as_slice(), false).as_slice());
            parse_u32(t.as_str())
        },
        None => None,
    }
}

/// What a province's history holds that a carved province inherits.
#[derive(Debug, Clone)]
pub struct SourceState {
    pub culture: Option<String>,
    pub religion: Option<String>,
    pub trade_goods: Option<String>,
}

/// The line `key = value`, when there is a value.
pub open spec fn opt_line(key: Seq<char>, v: Option<Seq<char>>) -> Seq<char> {
    match v {
        Some(x) => key + " = "@ + x + "\n"@,
        None => Seq::empty(),
    }
}

/// A minimal history file for a new province, inheriting the source's
/// culture, religion and trade goods.
pub open spec fn history_spec(name: Seq<char>, source: Option<SourceState>) -> Seq<char> {
    "# "@ + name + " - added by EU Toolkit\n"@ + match source {
        Some(s) => opt_line("culture"@, opt_view(s.culture)) + opt_line("religion"@, opt_view(s.religion))
            + opt_line("trade_goods"@, opt_view(s.trade_goods)),
        None => Seq::empty(),
    }
}

fn push_line(out: &mut String, key: &str, v: &Option<String>)
    ensures
        final(out)@ == old(out)@ + opt_line(key@, opt_view(*v)),
{
    match v {
        Some(x) => {
            out.append(key);
            out.append(" = ");
            out.append(x.as_str());
            out.append("\n");
        },
        None => {},
    }
}

pub fn history_text(name: &str, source: Option<&SourceState>) -> (r: String)
    ensures
        r@ == history_spec(name@, match source {
            Some(s) => Some(*s),
            None => None,
        }),
{
    let mut out = String::from_str("# ");
    out.append(name);
    out.append(" - added by EU Toolkit\n");
    match source {
        Some(s) => {
            push_line(&mut out, "culture", &s.culture);
            push_line(&mut out, "religion", &s.religion);
            push_line(&mut out, "trade_goods", &s.trade_goods);
        },
        None => {},
    }
    out
}

// ---------------------------------------------------------------------------
// The add-province scaffold
// ---------------------------------------------------------------------------

/// One edit of the project edit queue, as the add-province cascade emits it.
#[derive(Debug, Clone)]
pub enum TypedEdit {
    /// Replay bitmap operations on a province map file.
    ProvinceBmp { file: String, ops: Vec<BmpOp> },
    /// Append text to a file.
    AppendText { file: String, text: String },
    /// Set the scalar at `path` of a script file.
    SetScalar { file: String, path: Vec<String>, value: String, quoted: bool },
    /// Add a bare id to the id list at `list_path`.
    AddId { file: String, list_path: Vec<String>, id: String },
    /// Create a file with `text`.
    CreateFile { file: String, text: String },
    /// Override a localisation key.
    LocOverride { key: String, value: String },
}

/// The spec view of a bitmap operation.
pub enum OpView {
    Paint(Seq<u32>, [u8; 3]),
    Dissolve([u8; 3], Seq<[u8; 3]>),
}

pub open spec fn op_view(o: BmpOp) -> OpView {
    match o {
        BmpOp::Paint { pixels, color } => OpView::Paint(pixels@, color),
        BmpOp::Dissolve { from, into } => OpView::Dissolve(from, into@),
    }
}

/// The spec view of an edit.
pub enum EditView {
    ProvinceBmp(Seq<char>, Seq<OpView>),
    AppendText(Seq<char>, Seq<char>),
    SetScalar(Seq<char>, Seq<Seq<char>>, Seq<char>, bool),
    AddId(Seq<char>, Seq<Seq<char>>, Seq<char>),
    CreateFile(Seq<char>, Seq<char>),
    LocOverride(Seq<char>, Seq<char>),
}

pub open spec fn strs(v: Seq<String>) -> Seq<Seq<char>> {
    v.map_values(|s: String| s@)
}

pub open spec fn edit_view(e: TypedEdit) -> EditView {
    match e {
        TypedEdit::ProvinceBmp { file, ops } => EditView::ProvinceBmp(file@, ops@.map_values(|o: BmpOp| op_view(o))),
        TypedEdit::AppendText { file, text } => EditView::AppendText(file@, text@),
        TypedEdit::SetScalar { file, path, value, quoted } => EditView::SetScalar(file@, strs(path@), value@, quoted),
        TypedEdit::AddId { file, list_path, id } => EditView::AddId(file@, strs(list_path@), id@),
        TypedEdit::CreateFile { file, text } => EditView::CreateFile(file@, text@),
        TypedEdit::LocOverride { key, value } => EditView::LocOverride(key@, value@),
    }
}

pub open spec fn edits_view(v: Seq<TypedEdit>) -> Seq<EditView> {
    v.map_values(|e: TypedEdit| edit_view(e))
}

/// Everything a freshly carved province needs, as one composite.
#[derive(Debug, Clone)]
pub struct ProvinceScaffold {
    pub id: u32,
    pub color: [u8; 3],
    pub name: String,
    pub area: String,
    pub edits: Vec<TypedEdit>,
}

/// The largest id among the definitions.
pub open spec fn max_id(defs: Seq<(u32, [u8; 3])>) -> nat
    decreases defs.len(),
{
    if defs.len() == 0 {
        0
    } else {
        let m = max_id(defs.drop_last());
        if defs.last().0 > m { defs.last().0 as nat } else { m }
    }
}

pub open spec fn def_color(d: (u32, [u8; 3])) -> [u8; 3] {
    d.1
}

/// The name of the first area listing `id`.
pub open spec fn area_of(areas: Seq<(String, Vec<u32>)>, id: u32) -> Option<Seq<char>>
    decreases areas.len(),
{
    if areas.len() == 0 {
        None
    } else if areas[0].1@.contains(id) {
        Some(areas[0].0@)
    } else {
        area_of(areas.drop_first(), id)
    }
}

/// The state of the first history entry for `id`.
pub open spec fn state_of(hist: Seq<(u32, SourceState)>, id: u32) -> Option<SourceState>
    decreases hist.len(),
{
    if hist.len() == 0 {
        None
    } else if hist[0].0 == id {
        Some(hist[0].1)
    } else {
        state_of(hist.drop_first(), id)
    }
}

/// The `definition.csv` row of a new province, on a line of its own.
pub open spec fn csv_row(csv: Seq<u8>, id: nat, c: (u8, u8, u8), stem: Seq<char>) -> Seq<char> {
    (if csv.len() > 0 && csv.last() != 10u8 { "\n"@ } else { Seq::empty() }) + decimal(id) + ";"@ + decimal(c.0 as nat)
        + ";"@ + decimal(c.1 as nat) + ";"@ + decimal(c.2 as nat) + ";"@ + stem + ";x\n"@
}

pub open spec fn no_pixels_message() -> Seq<char> {
    "No pixels were carved for the new province"@
}

pub open spec fn no_name_message() -> Seq<char> {
    "The new province needs a name"@
}

pub open spec fn no_defs_message() -> Seq<char> {
    "map/definition.csv has no province definitions"@
}

pub open spec fn no_area_message(source_id: u32) -> Seq<char> {
    "Source province "@ + decimal(source_id as nat)
        + " is not in any area; carve from a province that belongs to an area"@
}

/// The edits of the add-province cascade: paint the carved pixels, append
/// the definition row, raise `max_provinces` when below `id + 1`, join the
/// area, create the history file, localise `PROV<id>`.
pub open spec fn cascade_spec(
    pixels: Seq<u32>,
    name: Seq<char>,
    id: nat,
    color: [u8; 3],
    area: Seq<char>,
    source: Option<SourceState>,
    csv: Seq<u8>,
    default_max: Option<u32>,
) -> Seq<EditView> {
    let stem = stem_spec(name);
    seq![
        EditView::ProvinceBmp("map/provinces.bmp"@, seq![OpView::Paint(pixels, color)]),
        EditView::AppendText("map/definition.csv"@, csv_row(csv, id, rgb_of(color), stem)),
    ] + (match default_max {
        Some(m) => if id + 1 > m {
            seq![EditView::SetScalar("map/default.map"@, seq!["max_provinces"@], decimal(id + 1), false)]
        } else {
            Seq::empty()
        },
        None => Seq::empty(),
    }) + seq![
        EditView::AddId("map/area.txt"@, seq![area], decimal(id)),
        EditView::CreateFile("history/provinces/"@ + decimal(id) + " - "@ + stem + ".txt"@, history_spec(name, source)),
        EditView::LocOverride("PROV"@ + decimal(id), name),
    ]
}

fn push_str_decimal(out: &mut String, n: usize)
    ensures
        final(out)@ == old(out)@ + decimal(n as nat),
{
    let d = usize_to_string(n);
    out.append(d.as_str());
}

/// Builds the add-province composite for the carved `pixels` named `name`
/// out of `source_id`: the new id is one past the largest defined one, its
/// colour the first free one of the walk ([`distinct_spec`]) against the
/// defined colours, its area the first listing the source, and its history
/// inherits the source's first history state. `definition_csv` is the
/// current `map/definition.csv` and `default_max` the `max_provinces` of
/// `map/default.map` ([`default_map_max`]).
pub fn prepare_add_province(
    pixels: Vec<u32>,
    name: &str,
    source_id: u32,
    defs: &Vec<(u32, [u8; 3])>,
    areas: &Vec<(String, Vec<u32>)>,
    histories: &Vec<(u32, SourceState)>,
    definition_csv: &[u8],
    default_max: Option<u32>,
) -> (r: Result<ProvinceScaffold, String>)
    requires
        forall|k: int| 0 <= k < defs@.len() ==> (#[trigger] defs@[k]).0 < u32::MAX - 1,
    ensures
        match r {
            Err(e) => if pixels@.len() == 0 {
                e@ == no_pixels_message()
            } else if trim_spec(name@, false).len() == 0 {
                e@ == no_name_message()
            } else if defs@.len() == 0 {
                e@ == no_defs_message()
            } else {
                area_of(areas@, source_id) is None && e@ == no_area_message(source_id)
            },
            Ok(sc) => {
                let nm = trim_spec(name@, false);
                let id = max_id(defs@) + 1;
                &&& pixels@.len() > 0 && nm.len() > 0 && defs@.len() > 0
                &&& area_of(areas@, source_id) == Some(sc.area@)
                &&& sc.id == id
                &&& rgb_of(sc.color) == distinct_spec(defs@.map_values(|d: (u32, [u8; 3])| def_color(d)), sc.id)
                &&& sc.name@ == nm
                &&& edits_view(sc.edits@) == cascade_spec(pixels@, nm, id, sc.color, sc.area@,
                    state_of(histories@, source_id), definition_csv@, default_max)
            },
        },
{
    if pixels.len() == 0 {
        return Err(String::from_str("No pixels were carved for the new province"));
    }
    let cs = chars_of(name);
    let tc = trim_chars(cs.as_slice(), false);
    if tc.len() == 0 {
        return Err(String::from_str("The new province needs a name"));
    }
    let name = string_from_chars(tc.as_slice());
    if defs.len() == 0 {
        return Err(String::from_str("map/definition.csv has no province definitions"));
    }
    // Id and colour.
    let mut maxv: u32 = 0;
    let mut used: Vec<[u8; 3]> = Vec::new();
    let mut k: usize = 0;
    while k < defs.len()
        invariant
            k <= defs@.len(),
            forall|j: int| 0 <= j < defs@.len() ==> (#[trigger] defs@[j]).0 < u32::MAX - 1,
            maxv == max_id(defs@.take(k as int)),
            maxv < u32::MAX - 1,
            used@ == defs@.take(k as int).map_values(|d: (u32, [u8; 3])| def_color(d)),
        decreases defs@.len() - k,
    {
        assert(defs@.take(k + 1).drop_last() =~= defs@.take(k as int));
        let d = defs[k];
        if d.0 > maxv {
            maxv = d.0;
        }
        used.push(d.1);
        assert(used@ =~= defs@.take(k + 1).map_values(|d: (u32, [u8; 3])| def_color(d)));
        k = k + 1;
    }
    assert(defs@.take(defs@.len() as int) =~= defs@);
    let new_id = maxv + 1;
    let color = distinct_color(&used, new_id);
    // Area: the first listing the source.
    let ghost av = areas@;
    let mut a: usize = 0;
    let mut area_found: Option<String> = None;
    assert(av.skip(0) =~= av);
    while area_found.is_none() && a < areas.len()
        invariant
            a <= av.len(),
            av == areas@,
            area_found is None ==> area_of(av.skip(a as int), source_id) == area_of(av, source_id),
            area_found matches Some(x) ==> area_of(av, source_id) == Some(x@),
        decreases av.len() - a + if area_found is None { 1int } else { 0int },
    {
        assert(av.skip(a as int)[0] == av[a as int]);
        assert(av.skip(a as int).drop_first() =~= av.skip(a + 1));
        let ids = &areas[a].1;
        let mut t: usize = 0;
        let mut hit = false;
        while !hit && t < ids.len()
            invariant
                t <= ids@.len(),
                !hit ==> forall|m: int| 0 <= m < t ==> ids@[m] != source_id,
                hit ==> ids@.contains(source_id),
            decreases ids@.len() - t + if hit { 0int } else { 1int },
        {
            if ids[t] == source_id {
                hit = true;
                assert(ids@[t as int] == source_id);
            } else {
                t = t + 1;
            }
        }
        if hit {
            area_found = Some(areas[a].0.clone());
        } else {
            proof {
                if ids@.contains(source_id) {
                    let m = choose|m: int| 0 <= m < ids@.len() && ids@[m] == source_id;
                    assert(ids@[m] == source_id);
                }
            }
            a = a + 1;
        }
    }
    let area = match area_found {
        Some(x) => x,
        None => {
            proof {
                assert(av.skip(a as int) =~= Seq::<(String, Vec<u32>)>::empty());
            }
            let mut e = String::from_str("Source province ");
            push_str_decimal(&mut e, source_id as usize);
            e.append(" is not in any area; carve from a province that belongs to an area");
            return Err(e);
        },
    };
    // The source's inherited state.
    let ghost hv = histories@;
    let mut hk: usize = 0;
    let mut found = false;
    assert(hv.skip(0) =~= hv);
    while !found && hk < histories.len()
        invariant
            hk <= hv.len(),
            hv == histories@,
            !found ==> state_of(hv.skip(hk as int), source_id) == state_of(hv, source_id),
            found ==> hk < hv.len() && hv[hk as int].0 == source_id && state_of(hv, source_id) == Some(hv[hk as int].1),
        decreases hv.len() - hk + if found { 0int } else { 1int },
    {
        assert(hv.skip(hk as int)[0] == hv[hk as int]);
        assert(hv.skip(hk as int).drop_first() =~= hv.skip(hk + 1));
        if histories[hk].0 == source_id {
            found = true;
        } else {
            hk = hk + 1;
        }
    }
    let source: Option<&SourceState> = if found { Some(&histories[hk].1) } else { None };
    proof {
        if !found {
            assert(hv.skip(hk as int) =~= Seq::<(u32, SourceState)>::empty());
        }
    }
    let stem = safe_stem(name.as_str());
    let mut edits: Vec<TypedEdit> = Vec::new();
    // 1. Paint the carved pixels with the new colour.
    let mut ops: Vec<BmpOp> = Vec::new();
    let ghost pv = pixels@;
    ops.push(BmpOp::Paint { pixels, color });
    assert(ops@.map_values(|o: BmpOp| op_view(o)) =~= seq![OpView::Paint(pv, color)]);
    edits.push(TypedEdit::ProvinceBmp { file: String::from_str("map/provinces.bmp"), ops });
    // 2. The definition row, on a line of its own.
    let mut row = String::new();
    let n = definition_csv.len();
    if n > 0 && definition_csv[n - 1] != 10u8 {
        row.append("\n");
    }
    push_str_decimal(&mut row, new_id as usize);
    row.append(";");
    push_str_decimal(&mut row, color[0] as usize);
    row.append(";");
    push_str_decimal(&mut row, color[1] as usize);
    row.append(";");
    push_str_decimal(&mut row, color[2] as usize);
    row.append(";");
    row.append(stem.as_str());
    row.append(";x\n");
    edits.push(TypedEdit::AppendText { file: String::from_str("map/definition.csv"), text: row });
    // 3. Raise the province ceiling if needed.
    match default_max {
        Some(m) => {
            if new_id + 1 > m {
                let mut v = String::new();
                push_str_decimal(&mut v, (new_id + 1) as usize);
                let path = vec![String::from_str("max_provinces")];
                assert(strs(path@) =~= seq!["max_provinces"@]);
                edits.push(TypedEdit::SetScalar { file: String::from_str("map/default.map"), path, value: v, quoted: false });
            }
        },
        None => {},
    }
    // 4. Join the source's area.
    let mut idt = String::new();
    push_str_decimal(&mut idt, new_id as usize);
    let list_path = vec![area.clone()];
    assert(strs(list_path@) =~= seq![area@]);
    edits.push(TypedEdit::AddId { file: String::from_str("map/area.txt"), list_path, id: idt });
    // 5. The history file.
    let mut hf = String::from_str("history/provinces/");
    push_str_decimal(&mut hf, new_id as usize);
    hf.append(" - ");
    hf.append(stem.as_str());
    hf.append(".txt");
    edits.push(TypedEdit::CreateFile { file: hf, text: history_text(name.as_str(), source) });
    // 6. Localise PROV<id>.
    let mut key = String::from_str("PROV");
    push_str_decimal(&mut key, new_id as usize);
    edits.push(TypedEdit::LocOverride { key, value: name.clone() });
    let sc = ProvinceScaffold { id: new_id, color, name, area, edits };
    assert(edits_view(sc.edits@) =~= cascade_spec(pv, sc.name@, (maxv + 1) as nat, color, sc.area@,
        state_of(histories@, source_id), definition_csv@, default_max));
    Ok(sc)
}
} // verus!
