//! Tropical attention and its split into heads.

use vstd::prelude::*;

use crate::rows::copy_range;
use crate::softmax::TropicalSoftmax;

verus! {

/// Tropical attention over model dimension `dim`, normalised by a tropical
/// softmax.
pub struct TropicalAttention<S> {
    pub dim: usize,
    pub softmax: TropicalSoftmax<S>,
}

impl<S> TropicalAttention<S> {
    /// Attention over dimension `dim` whose softmax has the given temperature.
    pub fn new(dim: usize, temperature: S) -> (res: Self)
        ensures
            res.dim == dim,
            res.softmax.temperature == temperature,
    {
        TropicalAttention { dim, softmax: TropicalSoftmax::new(temperature) }
    }
}

/// The width of one head when `dim` coordinates are shared by `n_heads`
/// heads; no head count counts as one head.
pub open spec fn head_width(dim: nat, n_heads: nat) -> nat {
    if n_heads == 0 {
        dim
    } else {
        dim / n_heads
    }
}

/// Where head `h` starts among the coordinates.
pub open spec fn head_start(dim: nat, n_heads: nat, h: nat) -> nat {
    h * head_width(dim, n_heads)
}

/// The part of `v` that head `h` sees: at most one head width of entries,
/// from the head's start, cut at the end of `v`.
pub open spec fn head_part<T>(v: Seq<T>, dim: nat, n_heads: nat, h: nat) -> Seq<T> {
    let start = head_start(dim, n_heads, h);
    let end = start + head_width(dim, n_heads);
    let s = if start < v.len() { start as int } else { v.len() as int };
    let e = if end < v.len() { end as int } else { v.len() as int };
    v.subrange(s, e)
}

/// Every head of a split of `dim` coordinates ends within them.
pub proof fn lemma_head_within(dim: nat, n_heads: nat, h: nat)
    requires
        h < n_heads,
    ensures
        head_start(dim, n_heads, h) + head_width(dim, n_heads) <= dim,
{
    let w = dim / n_heads;
    assert((h + 1) * w <= n_heads * w) by (nonlinear_arith)
        requires
            h + 1 <= n_heads,
    ;
    assert(n_heads * w <= dim) by (nonlinear_arith)
        requires
            n_heads > 0,
            w == dim / n_heads,
    ;
    assert(h * w + w == (h + 1) * w) by (nonlinear_arith);
}

/// The head width is the quotient of `dim` by the head count: `n_heads`
/// heads of that width and the remainder `dim % n_heads` make up `dim`
/// exactly, and without heads the one implicit head spans all of `dim`.
pub proof fn lemma_head_width_exact(dim: nat, n_heads: nat)
    ensures
        n_heads > 0 ==> n_heads * head_width(dim, n_heads) + dim % n_heads == dim,
        n_heads > 0 ==> dim % n_heads < n_heads,
        n_heads == 0 ==> head_width(dim, n_heads) == dim,
{
    if n_heads > 0 {
        let w = head_width(dim, n_heads);
        assert(n_heads * w + dim % n_heads == dim) by (nonlinear_arith)
            requires
                n_heads > 0,
                w == dim / n_heads,
        ;
    }
}

/// Head `h` starts `h` head widths in: `h * (dim / n_heads)`.
pub proof fn lemma_head_start_exact(dim: nat, n_heads: nat, h: nat)
    requires
        h < n_heads,
    ensures
        head_start(dim, n_heads, h) == h * (dim / n_heads),
{
}

/// What head `h` sees of `v`, entry by entry: with `w = dim / n_heads` and
/// `s = h * w`, it is the `w` entries of `v` from `s` on, as many of them as
/// `v` has; entry `i` of the part is entry `s + i` of `v`.
pub proof fn lemma_head_part_entries<T>(v: Seq<T>, dim: nat, n_heads: nat, h: nat)
    requires
        h < n_heads,
    ensures
        head_part(v, dim, n_heads, h).len() == (if h * (dim / n_heads) + dim / n_heads <= v.len() {
            (dim / n_heads) as int
        } else if h * (dim / n_heads) <= v.len() {
            v.len() - h * (dim / n_heads)
        } else {
            0
        }),
        forall|i: int|
            0 <= i < head_part(v, dim, n_heads, h).len() ==> #[trigger] head_part(
                v,
                dim,
                n_heads,
                h,
            )[i] == v[h * (dim / n_heads) + i],
{
}

/// Distinct heads occupy disjoint coordinates: a later head starts where an
/// earlier one has ended or after, so each coordinate of a multi-head
/// output is written by at most one head.
pub proof fn lemma_heads_disjoint(dim: nat, n_heads: nat, h1: nat, h2: nat)
    requires
        h1 < h2 < n_heads,
    ensures
        head_start(dim, n_heads, h1) + head_width(dim, n_heads) <= head_start(dim, n_heads, h2),
{
    let w = head_width(dim, n_heads);
    assert(h1 * w + w <= h2 * w) by (nonlinear_arith)
        requires
            h1 + 1 <= h2,
    ;
}

/// What the first `k` heads see of `v`, one after the other.
pub open spec fn heads_joined<T>(v: Seq<T>, dim: nat, n_heads: nat, k: nat) -> Seq<T>
    decreases k,
{
    if k == 0 {
        Seq::empty()
    } else {
        heads_joined(v, dim, n_heads, (k - 1) as nat) + head_part(v, dim, n_heads, (k - 1) as nat)
    }
}

/// Splitting into heads loses nothing and reorders nothing: the parts that
/// the first `k` heads see, joined in order, are the prefix of `v` of length
/// `k` head widths (cut at the end of `v`). With `k` the head count, what is
/// left out is only the remainder of `dim` that no head covers.
pub proof fn lemma_heads_cover<T>(v: Seq<T>, dim: nat, n_heads: nat, k: nat)
    requires
        k <= n_heads,
    ensures
        heads_joined(v, dim, n_heads, k) == v.subrange(
            0,
            if k * head_width(dim, n_heads) < v.len() {
                (k * head_width(dim, n_heads)) as int
            } else {
                v.len() as int
            },
        ),
    decreases k,
{
    let w = head_width(dim, n_heads);
    if k == 0 {
        assert(0 * w == 0) by (nonlinear_arith);
        assert(v.subrange(0, 0) =~= Seq::<T>::empty());
    } else {
        let j = (k - 1) as nat;
        lemma_heads_cover(v, dim, n_heads, j);
        assert(j * w + w == k * w) by (nonlinear_arith)
            requires
                j + 1 == k,
        ;
        let a: int = if j * w < v.len() { (j * w) as int } else { v.len() as int };
        let b: int = if k * w < v.len() { (k * w) as int } else { v.len() as int };
        assert(heads_joined(v, dim, n_heads, k) =~= v.subrange(0, a) + v.subrange(a, b));
        assert(v.subrange(0, a) + v.subrange(a, b) =~= v.subrange(0, b));
    }
}

/// The head width for `dim` coordinates and `n_heads` heads.
pub fn head_dim(dim: usize, n_heads: usize) -> (w: usize)
    ensures
        w == head_width(dim as nat, n_heads as nat),
        n_heads > 0 ==> n_heads * w + dim % n_heads == dim,
        n_heads == 0 ==> w == dim,
{
    proof {
        lemma_head_width_exact(dim as nat, n_heads as nat);
    }
    if n_heads == 0 {
        dim
    } else {
        dim / n_heads
    }
}

/// Where head `h` of `n_heads` starts among `dim` coordinates.
pub fn head_offset(dim: usize, n_heads: usize, h: usize) -> (start: usize)
    requires
        h < n_heads,
    ensures
        start == head_start(dim as nat, n_heads as nat, h as nat),
        start + head_width(dim as nat, n_heads as nat) <= dim,
        start == h * (dim / n_heads),
        start + dim / n_heads <= dim,
{
    proof {
        lemma_head_start_exact(dim as nat, n_heads as nat, h as nat);
        lemma_head_within(dim as nat, n_heads as nat, h as nat);
    }
    let w: usize = head_dim(dim, n_heads);
    h * w
}

/// The entries of `v` that head `h` of `n_heads` sees, for model dimension
/// `dim`.
pub fn head_slice<T: Copy>(v: &[T], dim: usize, n_heads: usize, h: usize) -> (part: Vec<T>)
    requires
        h < n_heads,
    ensures
        part@ == head_part(v@, dim as nat, n_heads as nat, h as nat),
        part@.len() == (if h * (dim / n_heads) + dim / n_heads <= v@.len() {
            (dim / n_heads) as int
        } else if h * (dim / n_heads) <= v@.len() {
            v@.len() - h * (dim / n_heads)
        } else {
            0
        }),
        forall|i: int| 0 <= i < part@.len() ==> #[trigger] part@[i] == v@[h * (dim / n_heads) + i],
{
    proof {
        lemma_head_part_entries(v@, dim as nat, n_heads as nat, h as nat);
    }
    let w: usize = head_dim(dim, n_heads);
    let start: usize = head_offset(dim, n_heads, h);
    let end: usize = start + w;
    let len: usize = v.len();
    let s: usize = if start < len { start } else { len };
    let e: usize = if end < len { end } else { len };
    copy_range(v, s, e)
}

/// The part of every row that head `h` of `n_heads` sees, row by row.
pub fn head_rows<T: Copy>(rows: &[Vec<T>], dim: usize, n_heads: usize, h: usize) -> (parts: Vec<Vec<T>>)
    requires
        h < n_heads,
    ensures
        parts@.len() == rows@.len(),
        forall|i: int|
            0 <= i < rows@.len() ==> #[trigger] parts@[i]@ == head_part(
                rows@[i]@,
                dim as nat,
                n_heads as nat,
                h as nat,
            ),
{
    let mut parts: Vec<Vec<T>> = Vec::new();
    let n: usize = rows.len();
    for i in 0..n
        invariant
            n == rows@.len(),
            h < n_heads,
            parts@.len() == i,
            forall|j: int|
                0 <= j < i ==> #[trigger] parts@[j]@ == head_part(
                    rows@[j]@,
                    dim as nat,
                    n_heads as nat,
                    h as nat,
                ),
    {
        parts.push(head_slice(rows[i].as_slice(), dim, n_heads, h));
    }
    parts
}

} // verus!
