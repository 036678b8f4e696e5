//! The conversation summary segment tree.
//!
//! Summaries form a segment tree whose combine operation is "summarize" — a
//! monoid with the empty summary as identity. The tree is bucketed along
//! *cumulative semantic distance*: a message at cumulative distance `S` belongs
//! to bucket `S / base^level` at each level. A node is **finalized** (summarized
//! once, never to change) when the cumulative distance crosses the upper
//! boundary of its bucket; the still-growing tail is represented by raw recent
//! messages instead.
use vstd::prelude::*;
use crate::entities::conversation_message_metric::CreateConversationMessageMetric;
use crate::entities::conversation_summary_node::{
    ConversationSummaryNodeEntity, InsertSummaryNodePlaceholder, ListChildSummaryNodes,
    MessageIdBounds, MessageIdBoundsInDistanceRange, MessageText, MessagesInDistanceRange,
    UpsertConversationSummaryNode,
};
use crate::services::ServiceError;

verus! {

/// Branching factor of the tree: a new node is created each time the cumulative
/// semantic distance crosses a multiple of `base^level`.
pub const SEGMENT_BASE: i64 = 100;

/// Address of a segment-tree node within a conversation.
#[derive(Debug, Clone, Copy, PartialEq, Eq, Structural)]
pub struct NodeAddr {
    /// Tree level (1 = finest summary level).
    pub level: i32,
    /// Bucket index along the cumulative-distance axis.
    pub bucket: i64,
}

// ─── Specification ──────────────────────────────────────────────────────────

/// Integer division as Rust computes it on signed integers (rounding toward
/// zero).
pub open spec fn trunc_div(a: int, b: int) -> int {
    if a >= 0 {
        a / b
    } else {
        -((-a) / b)
    }
}

/// `b` raised to the power `e`.
pub open spec fn ipow(b: int, e: nat) -> int
    decreases e,
{
    if e == 0 {
        1
    } else {
        b * ipow(b, (e - 1) as nat)
    }
}

/// The level-`level` nodes whose bucket (of width `width`) the cumulative
/// distance leaves when it moves from `cum_prev` to `cum_new`, in bucket order.
pub open spec fn level_nodes(cum_prev: int, cum_new: int, level: int, width: int) -> Seq<NodeAddr> {
    let lo = trunc_div(cum_prev, width);
    let hi = trunc_div(cum_new, width);
    Seq::new(
        if hi > lo {
            (hi - lo) as nat
        } else {
            0
        },
        |t: int| NodeAddr { level: level as i32, bucket: (lo + t) as i64 },
    )
}

/// The finalized nodes of level `level` (bucket width `width`) and of every
/// coarser level whose width still fits in `i64` and does not exceed `cum_new`.
pub open spec fn nodes_from(cum_prev: int, cum_new: int, base: int, level: nat, width: int) -> Seq<
    NodeAddr,
>
    decreases i64::MAX - width,
    when width >= 1 && base >= 2
{
    if width > cum_new {
        Seq::empty()
    } else if width * base > i64::MAX {
        level_nodes(cum_prev, cum_new, level as int, width)
    } else {
        proof {
            assert(width * base >= 2 * width) by (nonlinear_arith)
                requires
                    width >= 1,
                    base >= 2,
            ;
        }
        level_nodes(cum_prev, cum_new, level as int, width) + nodes_from(
            cum_prev,
            cum_new,
            base,
            level + 1,
            width * base,
        )
    }
}

/// The nodes finalized by advancing the cumulative distance from `cum_prev` to
/// `cum_new` with branching factor `base`: nothing when `base < 2` or the
/// distance does not grow; otherwise every level from 1 up, bottom-up.
pub open spec fn finalized_spec(cum_prev: int, cum_new: int, base: int) -> Seq<NodeAddr> {
    if base < 2 || cum_new <= cum_prev {
        Seq::empty()
    } else {
        nodes_from(cum_prev, cum_new, base, 1, base)
    }
}

// ─── Arithmetic lemmas ──────────────────────────────────────────────────────

proof fn lemma_ipow_pos(b: int, e: nat)
    requires
        b >= 1,
    ensures
        ipow(b, e) >= 1,
    decreases e,
{
    if e > 0 {
        lemma_ipow_pos(b, (e - 1) as nat);
        assert(b * ipow(b, (e - 1) as nat) >= ipow(b, (e - 1) as nat)) by (nonlinear_arith)
            requires
                b >= 1,
                ipow(b, (e - 1) as nat) >= 1,
        ;
    }
}

proof fn lemma_ipow_ge_pow2(b: int, e: nat)
    requires
        b >= 2,
    ensures
        ipow(b, e) >= ipow(2, e),
    decreases e,
{
    if e > 0 {
        lemma_ipow_ge_pow2(b, (e - 1) as nat);
        lemma_ipow_pos(2, (e - 1) as nat);
        let x = ipow(b, (e - 1) as nat);
        let y = ipow(2, (e - 1) as nat);
        assert(b * x >= 2 * y) by (nonlinear_arith)
            requires
                b >= 2,
                x >= y,
                y >= 1,
        ;
    }
}

proof fn lemma_pow2_monotone(a: nat, c: nat)
    requires
        a <= c,
    ensures
        ipow(2, a) <= ipow(2, c),
    decreases c,
{
    if a < c {
        lemma_pow2_monotone(a, (c - 1) as nat);
        lemma_ipow_pos(2, (c - 1) as nat);
    }
}

proof fn lemma_pow2_63()
    ensures
        ipow(2, 63) == 0x8000_0000_0000_0000,
{
    reveal_with_fuel(ipow, 64);
}

// ─── Computation ────────────────────────────────────────────────────────────

/// The nodes finalized by advancing the cumulative distance from `cum_prev` to
/// `cum_new`.
///
/// A node `(level, k)` is finalized when the cumulative distance leaves its
/// bucket `[k·base^level, (k+1)·base^level)`. Returned bottom-up (ascending
/// level) so a parent is recomputed only after its children.
pub fn finalized_nodes(cum_prev: i64, cum_new: i64, base: i64) -> (out: Vec<NodeAddr>)
    ensures
        out@ == finalized_spec(cum_prev as int, cum_new as int, base as int),
{
    let mut out: Vec<NodeAddr> = Vec::new();
    if base < 2 || cum_new <= cum_prev {
        return out;
    }
    let mut level: i32 = 1;
    let mut width: i64 = base;
    proof {
        reveal_with_fuel(ipow, 2);
        assert(ipow(base as int, 1) == base);
        reveal_with_fuel(ipow, 2);
        assert(ipow(2, 1) == 2);
    }
    loop
        invariant_except_break
            base >= 2,
            cum_new > cum_prev,
            1 <= level,
            width >= 1,
            width == ipow(base as int, level as nat),
            width >= ipow(2, level as nat),
            out@ + nodes_from(cum_prev as int, cum_new as int, base as int, level as nat, width as int)
                == finalized_spec(cum_prev as int, cum_new as int, base as int),
        ensures
            out@ == finalized_spec(cum_prev as int, cum_new as int, base as int),
        decreases i64::MAX - width,
    {
        if width > cum_new {
            proof {
                assert(out@ =~= out@ + Seq::<NodeAddr>::empty());
            }
            break;
        }
        let bucket_prev = cum_prev / width;
        let bucket_new = cum_new / width;
        let ghost start = out@;
        let ghost lvl = level_nodes(cum_prev as int, cum_new as int, level as int, width as int);
        let mut k = bucket_prev;
        while k < bucket_new
            invariant
                bucket_prev <= k,
                bucket_prev == trunc_div(cum_prev as int, width as int),
                bucket_new == trunc_div(cum_new as int, width as int),
                k <= bucket_new || bucket_new <= bucket_prev,
                bucket_new <= bucket_prev ==> k == bucket_prev,
                lvl == level_nodes(cum_prev as int, cum_new as int, level as int, width as int),
                out@ == start + lvl.subrange(0, k - bucket_prev),
                k <= bucket_new ==> k - bucket_prev <= lvl.len(),
            decreases bucket_new - k,
        {
            out.push(NodeAddr { level, bucket: k });
            proof {
                assert(lvl[k - bucket_prev] == NodeAddr { level, bucket: k });
                assert(lvl.subrange(0, k + 1 - bucket_prev) =~= lvl.subrange(0, k - bucket_prev).push(
                    NodeAddr { level, bucket: k },
                ));
            }
            k += 1;
        }
        proof {
            if bucket_new > bucket_prev {
                assert(lvl.subrange(0, k - bucket_prev) =~= lvl);
            } else {
                assert(lvl.subrange(0, k - bucket_prev) =~= lvl);
            }
        }
        match width.checked_mul(base) {
            Some(next) => {
                proof {
                    assert(out@ + nodes_from(
                        cum_prev as int,
                        cum_new as int,
                        base as int,
                        (level + 1) as nat,
                        next as int,
                    ) =~= start + (lvl + nodes_from(
                        cum_prev as int,
                        cum_new as int,
                        base as int,
                        (level + 1) as nat,
                        next as int,
                    )));
                    lemma_ipow_ge_pow2(base as int, (level + 1) as nat);
                    assert(ipow(base as int, (level + 1) as nat) == base * width) by {
                        assert(ipow(base as int, (level + 1) as nat) == base * ipow(
                            base as int,
                            level as nat,
                        ));
                    }
                    if level >= 62 {
                        lemma_pow2_monotone(63, (level + 1) as nat);
                        lemma_pow2_63();
                    }
                    assert(next == width * base);
                    assert(next >= 2 * width) by (nonlinear_arith)
                        requires
                            next == width * base,
                            base >= 2,
                            width >= 1,
                    ;
                }
                width = next;
                level += 1;
            },
            None => {
                proof {
                    assert(out@ =~= start + lvl);
                }
                break;
            },
        }
    }
    out
}

// ─── Laws ───────────────────────────────────────────────────────────────────

/// The node `x` is one whose bucket the cumulative distance leaves when it
/// moves from `cum_prev` to `cum_new`: the bucket's upper boundary
/// `(bucket + 1)·base^level` lies in `(cum_prev, cum_new]`.
pub open spec fn crosses_boundary(cum_prev: int, cum_new: int, base: int, x: NodeAddr) -> bool {
    &&& x.level >= 1
    &&& x.bucket >= 0
    &&& cum_prev < (x.bucket + 1) * ipow(base, x.level as nat) <= cum_new
}

/// Node `a` comes strictly before node `b` bottom-up: a lower level, or the
/// same level and a lower bucket.
pub open spec fn bottom_up_before(a: NodeAddr, b: NodeAddr) -> bool {
    a.level < b.level || (a.level == b.level && a.bucket < b.bucket)
}

proof fn lemma_bucket_bounds(c: int, w: int, k: int)
    requires
        c >= 0,
        w >= 1,
    ensures
        (k >= c / w) <==> (c < (k + 1) * w),
        (k < c / w) <==> ((k + 1) * w <= c),
{
    let q = c / w;
    let r = c % w;
    assert(c == q * w + r && 0 <= r < w) by {
        vstd::arithmetic::div_mod::lemma_fundamental_div_mod(c, w);
    }
    if k >= q {
        assert((k + 1) * w >= q * w + w) by (nonlinear_arith)
            requires
                k >= q,
                w >= 1,
        ;
    } else {
        assert((k + 1) * w <= q * w) by (nonlinear_arith)
            requires
                k + 1 <= q,
                w >= 1,
        ;
    }
}

proof fn lemma_ipow_monotone(b: int, a: nat, c: nat)
    requires
        b >= 2,
        a <= c,
    ensures
        ipow(b, a) <= ipow(b, c),
        a < c ==> ipow(b, a) * b <= ipow(b, c),
    decreases c,
{
    if a < c {
        lemma_ipow_monotone(b, a, (c - 1) as nat);
        lemma_ipow_pos(b, (c - 1) as nat);
        let x = ipow(b, (c - 1) as nat);
        assert(b * x >= x) by (nonlinear_arith)
            requires
                b >= 2,
                x >= 1,
        ;
        if a < c - 1 {
            let y = ipow(b, a);
            assert(y * b <= x * b) by (nonlinear_arith)
                requires
                    y <= x,
                    b >= 2,
            ;
        }
    }
}

/// A level whose width fits in `i64` is below 63.
proof fn lemma_level_small(b: int, l: nat)
    requires
        b >= 2,
        ipow(b, l) <= i64::MAX,
    ensures
        l <= 62,
{
    lemma_ipow_ge_pow2(b, l);
    if l >= 63 {
        lemma_pow2_monotone(63, l);
        lemma_pow2_63();
    }
}

proof fn lemma_level_nodes_members(cum_prev: int, cum_new: int, level: nat, width: int, x: NodeAddr)
    requires
        0 <= cum_prev < cum_new <= i64::MAX,
        1 <= level <= 62,
        width >= 1,
    ensures
        level_nodes(cum_prev, cum_new, level as int, width).contains(x) <==> (x.level == level
            && x.bucket >= 0 && cum_prev < (x.bucket + 1) * width <= cum_new),
{
    let s = level_nodes(cum_prev, cum_new, level as int, width);
    let lo = cum_prev / width;
    let hi = cum_new / width;
    assert(0 <= lo && hi <= cum_new) by {
        vstd::arithmetic::div_mod::lemma_div_pos_is_pos(cum_prev, width);
        vstd::arithmetic::div_mod::lemma_div_is_ordered_by_denominator(cum_new, 1, width);
    }
    lemma_bucket_bounds(cum_prev, width, x.bucket as int);
    lemma_bucket_bounds(cum_new, width, x.bucket as int);
    if s.contains(x) {
        let t = choose|t: int| 0 <= t < s.len() && s[t] == x;
        assert(s[t] == x);
    }
    if x.level == level && x.bucket >= 0 && cum_prev < (x.bucket + 1) * width <= cum_new {
        let t = x.bucket - lo;
        assert(0 <= t < s.len());
        assert(s[t] == x);
    }
}

proof fn lemma_nodes_from_members(
    cum_prev: int,
    cum_new: int,
    base: int,
    level: nat,
    width: int,
    x: NodeAddr,
)
    requires
        0 <= cum_prev < cum_new <= i64::MAX,
        base >= 2,
        level >= 1,
        width == ipow(base, level),
        width <= i64::MAX,
    ensures
        nodes_from(cum_prev, cum_new, base, level, width).contains(x) <==> (x.level >= level
            && crosses_boundary(cum_prev, cum_new, base, x)),
    decreases i64::MAX - width,
{
    lemma_ipow_pos(base, level);
    lemma_level_small(base, level);
    let s = nodes_from(cum_prev, cum_new, base, level, width);
    let here = level_nodes(cum_prev, cum_new, level as int, width);
    if x.level >= level && x.level > level as int {
        lemma_ipow_monotone(base, level, x.level as nat);
    }
    if x.level >= 1 && x.bucket >= 0 {
        lemma_ipow_pos(base, x.level as nat);
        let p = ipow(base, x.level as nat);
        assert((x.bucket + 1) * p >= p) by (nonlinear_arith)
            requires
                x.bucket >= 0,
                p >= 1,
        ;
    }
    lemma_level_nodes_members(cum_prev, cum_new, level, width, x);
    if width > cum_new {
        assert(s == Seq::<NodeAddr>::empty());
    } else if width * base > i64::MAX {
        assert(s == here);
        if x.level == level {
            assert(ipow(base, x.level as nat) == width);
        }
    } else {
        assert(width * base >= 2 * width) by (nonlinear_arith)
            requires
                width >= 1,
                base >= 2,
        ;
        let rest = nodes_from(cum_prev, cum_new, base, level + 1, width * base);
        assert(s == here + rest);
        assert(ipow(base, level + 1) == base * width);
        assert(width * base >= 2 * width) by (nonlinear_arith)
            requires
                width >= 1,
                base >= 2,
        ;
        lemma_nodes_from_members(cum_prev, cum_new, base, level + 1, width * base, x);
        if x.level == level {
            assert(ipow(base, x.level as nat) == width);
        }
        if s.contains(x) {
            let t = choose|t: int| 0 <= t < s.len() && s[t] == x;
            if t < here.len() {
                assert(here[t] == x);
            } else {
                assert(rest[t - here.len()] == x);
            }
        }
        if here.contains(x) {
            let t = choose|t: int| 0 <= t < here.len() && here[t] == x;
            assert(s[t] == x);
        }
        if rest.contains(x) {
            let t = choose|t: int| 0 <= t < rest.len() && rest[t] == x;
            assert(s[t + here.len()] == x);
        }
    }
}

/// Exactly the crossed buckets are finalized: for a non-negative starting
/// distance and a branching factor of at least 2, node `x` is among the
/// finalized nodes iff the move from `cum_prev` to `cum_new` crosses the upper
/// boundary `(bucket + 1)·base^level` of its bucket.
pub proof fn law_finalized_exactly_crossed(cum_prev: i64, cum_new: i64, base: i64, x: NodeAddr)
    requires
        base >= 2,
        cum_prev >= 0,
    ensures
        finalized_spec(cum_prev as int, cum_new as int, base as int).contains(x)
            <==> crosses_boundary(cum_prev as int, cum_new as int, base as int, x),
{
    if cum_new <= cum_prev {
        if x.level >= 1 && x.bucket >= 0 {
            lemma_ipow_pos(base as int, x.level as nat);
            let p = ipow(base as int, x.level as nat);
            assert((x.bucket + 1) * p >= p) by (nonlinear_arith)
                requires
                    x.bucket >= 0,
                    p >= 1,
            ;
        }
    } else {
        reveal_with_fuel(ipow, 2);
        lemma_nodes_from_members(cum_prev as int, cum_new as int, base as int, 1, base as int, x);
    }
}

proof fn lemma_nodes_from_levels(
    cum_prev: int,
    cum_new: int,
    base: int,
    level: nat,
    width: int,
)
    requires
        0 <= cum_prev < cum_new <= i64::MAX,
        base >= 2,
        level >= 1,
        width == ipow(base, level),
        width <= i64::MAX,
    ensures
        forall|a: int, b: int|
            0 <= a < b < nodes_from(cum_prev, cum_new, base, level, width).len() ==> bottom_up_before(
                #[trigger] nodes_from(cum_prev, cum_new, base, level, width)[a],
                #[trigger] nodes_from(cum_prev, cum_new, base, level, width)[b],
            ),
        forall|a: int|
            0 <= a < nodes_from(cum_prev, cum_new, base, level, width).len() ==> #[trigger] nodes_from(
                cum_prev,
                cum_new,
                base,
                level,
                width,
            )[a].level >= level,
    decreases i64::MAX - width,
{
    lemma_ipow_pos(base, level);
    lemma_level_small(base, level);
    let s = nodes_from(cum_prev, cum_new, base, level, width);
    let here = level_nodes(cum_prev, cum_new, level as int, width);
    if width > cum_new {
    } else if width * base > i64::MAX {
        assert(s == here);
    } else {
        assert(width * base >= 2 * width) by (nonlinear_arith)
            requires
                width >= 1,
                base >= 2,
        ;
        let rest = nodes_from(cum_prev, cum_new, base, level + 1, width * base);
        assert(s == here + rest);
        assert(ipow(base, level + 1) == base * width);
        assert(width * base >= 2 * width) by (nonlinear_arith)
            requires
                width >= 1,
                base >= 2,
        ;
        lemma_nodes_from_levels(cum_prev, cum_new, base, level + 1, width * base);
        assert forall|a: int, b: int| 0 <= a < b < s.len() implies bottom_up_before(
            #[trigger] s[a],
            #[trigger] s[b],
        ) by {
            if b < here.len() {
            } else if a < here.len() {
                assert(rest[b - here.len()].level >= level + 1);
            } else {
                assert(s[a] == rest[a - here.len()]);
                assert(s[b] == rest[b - here.len()]);
            }
        }
        assert forall|a: int| 0 <= a < s.len() implies #[trigger] s[a].level >= level by {
            if a >= here.len() {
                assert(s[a] == rest[a - here.len()]);
            }
        }
    }
}

/// The finalized nodes come bottom-up: by ascending level, and within a level
/// by ascending bucket, each at most once.
pub proof fn law_finalized_bottom_up(cum_prev: i64, cum_new: i64, base: i64)
    requires
        cum_prev >= 0,
    ensures
        forall|a: int, b: int|
            0 <= a < b < finalized_spec(cum_prev as int, cum_new as int, base as int).len()
                ==> bottom_up_before(
                #[trigger] finalized_spec(cum_prev as int, cum_new as int, base as int)[a],
                #[trigger] finalized_spec(cum_prev as int, cum_new as int, base as int)[b],
            ),
{
    if base >= 2 && cum_new > cum_prev {
        reveal_with_fuel(ipow, 2);
        lemma_nodes_from_levels(cum_prev as int, cum_new as int, base as int, 1, base as int);
    }
}

/// A parent is finalized only after its last child: when node `(l + 1, k)` is
/// finalized, so is `(l, k·base + base − 1)`, at an earlier position.
pub proof fn law_parent_after_last_child(cum_prev: i64, cum_new: i64, base: i64, b: int)
    requires
        base >= 2,
        cum_prev >= 0,
        0 <= b < finalized_spec(cum_prev as int, cum_new as int, base as int).len(),
        finalized_spec(cum_prev as int, cum_new as int, base as int)[b].level >= 2,
    ensures
        exists|a: int|
            0 <= a < b && #[trigger] finalized_spec(cum_prev as int, cum_new as int, base as int)[a]
                == (NodeAddr {
                level: (finalized_spec(cum_prev as int, cum_new as int, base as int)[b].level - 1) as i32,
                bucket: (finalized_spec(cum_prev as int, cum_new as int, base as int)[b].bucket * base
                    + base - 1) as i64,
            }),
{
    let s = finalized_spec(cum_prev as int, cum_new as int, base as int);
    let p = s[b];
    assert(s.contains(p));
    law_finalized_exactly_crossed(cum_prev, cum_new, base, p);
    law_finalized_bottom_up(cum_prev, cum_new, base);
    let l = (p.level - 1) as nat;
    let w = ipow(base as int, l);
    lemma_ipow_pos(base as int, l);
    assert(ipow(base as int, p.level as nat) == base * w);
    let kb = p.bucket * base + base - 1;
    assert((kb + 1) * w == (p.bucket + 1) * (base * w)) by (nonlinear_arith)
        requires
            kb == p.bucket * base + base - 1,
    ;
    assert(kb >= 0) by (nonlinear_arith)
        requires
            kb == p.bucket * base + base - 1,
            p.bucket >= 0,
            base >= 2,
    ;
    assert(kb + 1 <= (kb + 1) * w) by (nonlinear_arith)
        requires
            kb >= 0,
            w >= 1,
    ;
    let child = NodeAddr { level: l as i32, bucket: kb as i64 };
    assert(child.bucket == kb);
    law_finalized_exactly_crossed(cum_prev, cum_new, base, child);
    assert(s.contains(child));
    let a = choose|a: int| 0 <= a < s.len() && s[a] == child;
    if a >= b {
        if a > b {
            assert(bottom_up_before(s[b], s[a]));
        }
    }
    assert(s[a] == child);
}

/// As the distance grows, every node is finalized exactly once: two
/// consecutive advances never finalize the same node, and together they
/// finalize exactly what the single advance over both would.
pub proof fn law_each_node_finalized_once(a: i64, b: i64, c: i64, base: i64, x: NodeAddr)
    requires
        base >= 2,
        0 <= a <= b <= c,
    ensures
        !(finalized_spec(a as int, b as int, base as int).contains(x) && finalized_spec(
            b as int,
            c as int,
            base as int,
        ).contains(x)),
        finalized_spec(a as int, c as int, base as int).contains(x) <==> (finalized_spec(
            a as int,
            b as int,
            base as int,
        ).contains(x) || finalized_spec(b as int, c as int, base as int).contains(x)),
{
    law_finalized_exactly_crossed(a, b, base, x);
    law_finalized_exactly_crossed(b, c, base, x);
    law_finalized_exactly_crossed(a, c, base, x);
}

// ─── Node widths and spans ──────────────────────────────────────────────────

/// Whether `x` is representable as an `i64`.
pub open spec fn fits_i64(x: int) -> bool {
    i64::MIN <= x <= i64::MAX
}

/// `x` clamped to the range of `i64` (what saturating arithmetic yields).
pub open spec fn saturate_i64(x: int) -> int {
    if x > i64::MAX {
        i64::MAX as int
    } else if x < i64::MIN {
        i64::MIN as int
    } else {
        x
    }
}

proof fn lemma_ipow_unit(b: int, e: nat)
    requires
        -1 <= b <= 1,
    ensures
        -1 <= ipow(b, e) <= 1,
    decreases e,
{
    if e > 0 {
        lemma_ipow_unit(b, (e - 1) as nat);
        let p = ipow(b, (e - 1) as nat);
        assert(-1 <= b * p <= 1) by (nonlinear_arith)
            requires
                -1 <= b <= 1,
                -1 <= p <= 1,
        ;
    }
}

/// Once a power leaves the range of `i64`, every higher power stays out of it.
proof fn lemma_overflow_persists(b: int, i: nat, e: nat)
    requires
        i <= e,
        !fits_i64(ipow(b, i)),
    ensures
        !fits_i64(ipow(b, e)),
    decreases e - i,
{
    if i < e {
        if -1 <= b <= 1 {
            lemma_ipow_unit(b, i);
        }
        let p = ipow(b, i);
        assert(ipow(b, (i + 1) as nat) == b * p);
        assert(!fits_i64(b * p)) by (nonlinear_arith)
            requires
                p > 0x7fff_ffff_ffff_ffff || p < -0x8000_0000_0000_0000,
                b >= 2 || b <= -2,
        ;
        lemma_overflow_persists(b, (i + 1) as nat, e);
    }
}

/// `base^level`, the width of a level-`level` bucket: `InvalidInput` for a
/// negative level, `BusinessPanic` when the power does not fit in `i64`.
pub fn node_width(base: i64, level: i32) -> (r: Result<i64, ServiceError>)
    ensures
        level < 0 ==> r == Err::<i64, ServiceError>(ServiceError::InvalidInput),
        level >= 0 && fits_i64(ipow(base as int, level as nat)) ==> r == Ok::<i64, ServiceError>(
            ipow(base as int, level as nat) as i64,
        ),
        level >= 0 && !fits_i64(ipow(base as int, level as nat)) ==> r == Err::<i64, ServiceError>(
            ServiceError::BusinessPanic,
        ),
{
    if level < 0 {
        return Err(ServiceError::InvalidInput);
    }
    let mut acc: i64 = 1;
    let mut i: i32 = 0;
    while i < level
        invariant
            0 <= i <= level,
            acc as int == ipow(base as int, i as nat),
        decreases level - i,
    {
        proof {
            assert(ipow(base as int, (i + 1) as nat) == base * ipow(base as int, i as nat));
            assert(acc * base == base * acc) by (nonlinear_arith);
        }
        match acc.checked_mul(base) {
            Some(next) => {
                acc = next;
            },
            None => {
                proof {
                    lemma_overflow_persists(base as int, (i + 1) as nat, level as nat);
                }
                return Err(ServiceError::BusinessPanic);
            },
        }
        i += 1;
    }
    Ok(acc)
}

/// `a * b`, saturating at the bounds of `i64`.
fn saturating_mul_i64(a: i64, b: i64) -> (r: i64)
    ensures
        r == saturate_i64(a * b),
{
    match a.checked_mul(b) {
        Some(p) => p,
        None => {
            if (a < 0) == (b < 0) {
                assert(a * b >= 0) by (nonlinear_arith)
                    requires
                        (a < 0 && b < 0) || (a >= 0 && b >= 0),
                ;
                i64::MAX
            } else {
                assert(a * b <= 0) by (nonlinear_arith)
                    requires
                        (a < 0 && b >= 0) || (a >= 0 && b < 0),
                ;
                i64::MIN
            }
        },
    }
}

/// `a + b`, saturating at the bounds of `i64`.
fn saturating_add_i64(a: i64, b: i64) -> (r: i64)
    ensures
        r == saturate_i64(a + b),
{
    match a.checked_add(b) {
        Some(s) => s,
        None => if b > 0 {
            i64::MAX
        } else {
            i64::MIN
        },
    }
}

/// The cumulative-distance span `[from, to)` of bucket `bucket` at bucket
/// width `width`, each end saturated at the bounds of `i64`.
pub open spec fn span_spec(bucket: int, width: int) -> (int, int) {
    let from = saturate_i64(bucket * width);
    (from, saturate_i64(from + width))
}

/// The cumulative-distance span `[from, to)` covered by `node` in the tree of
/// branching factor [`SEGMENT_BASE`]; fails as [`node_width`] does.
pub fn node_span(node: NodeAddr) -> (r: Result<(i64, i64), ServiceError>)
    ensures
        node.level < 0 ==> r == Err::<(i64, i64), ServiceError>(ServiceError::InvalidInput),
        node.level >= 0 && !fits_i64(ipow(SEGMENT_BASE as int, node.level as nat)) ==> r == Err::<
            (i64, i64),
            ServiceError,
        >(ServiceError::BusinessPanic),
        node.level >= 0 && fits_i64(ipow(SEGMENT_BASE as int, node.level as nat)) ==> (r matches Ok(
            span,
        ) && (span.0 as int, span.1 as int) == span_spec(
            node.bucket as int,
            ipow(SEGMENT_BASE as int, node.level as nat),
        )),
{
    let width = match node_width(SEGMENT_BASE, node.level) {
        Ok(w) => w,
        Err(e) => {
            return Err(e);
        },
    };
    let from = saturating_mul_i64(node.bucket, width);
    let to = saturating_add_i64(from, width);
    Ok((from, to))
}

// ─── Recording messages ─────────────────────────────────────────────────────

/// Input to the semantic scorer: the prior context excerpt and the new message
/// excerpt. The scorer rates how much the new message shifts the topic,
/// conversation or task, on a scale of `1..=25`.
#[derive(Debug, Clone)]
pub struct ScoreMessage {
    pub previous: String,
    pub current: String,
}

/// Input to the summarizer, the combine operation of the summary monoid: the
/// parts (child summaries, or raw message texts) to fold into one summary. The
/// empty input is the identity.
#[derive(Debug, Clone)]
pub struct Summarize {
    /// Level of the node being produced (1 combines raw messages).
    pub level: i32,
    /// The pieces to combine, in order.
    pub parts: Vec<String>,
}

/// Score and record a newly appended message, returning the segment-tree nodes
/// that this append finalized (and therefore need (re)summarizing).
#[derive(Debug, Clone)]
pub struct RecordMessage {
    pub conversation_id: i64,
    pub message_id: i64,
    /// Excerpt of the prior context, for scoring topical shift.
    pub previous_excerpt: String,
    /// Excerpt of the new message, for scoring topical shift.
    pub current_excerpt: String,
}

/// Recompute one segment-tree node by combining its children (the summary
/// monoid) and upserting it as finalized.
#[derive(Debug, Clone, Copy, PartialEq, Eq, Structural)]
pub struct RecomputeNode {
    pub conversation_id: i64,
    pub node: NodeAddr,
}

/// Smallest topical-shift score.
pub const MIN_SCORE: i16 = 1;

/// Largest topical-shift score.
pub const MAX_SCORE: i16 = 25;

/// A raw scorer output forced into `1..=25`.
pub open spec fn clamp_score(s: int) -> int {
    if s < MIN_SCORE {
        MIN_SCORE as int
    } else if s > MAX_SCORE {
        MAX_SCORE as int
    } else {
        s
    }
}

/// What recording one scored message does: the metric row it writes, the
/// cumulative distance the conversation reaches, and the nodes it finalizes.
#[derive(Debug, Clone)]
pub struct RecordPlan {
    pub metric: CreateConversationMessageMetric,
    pub cumulative_distance: i64,
    pub finalized: Vec<NodeAddr>,
}

impl ScoreMessage {
    /// The scorer input for a record request.
    pub fn for_record(request: &RecordMessage) -> (r: ScoreMessage)
        ensures
            r.previous@ == request.previous_excerpt@,
            r.current@ == request.current_excerpt@,
    {
        ScoreMessage {
            previous: request.previous_excerpt.clone(),
            current: request.current_excerpt.clone(),
        }
    }
}

/// Record message `message_id` whose raw score is `raw_score`, in a
/// conversation whose cumulative distance so far is `cum_prev`: the score is
/// clamped into `1..=25`, added to the running distance, and the nodes whose
/// buckets the new distance leaves are returned bottom-up.
pub fn plan_record(message_id: i64, raw_score: i16, cum_prev: i64) -> (p: RecordPlan)
    requires
        cum_prev + clamp_score(raw_score as int) <= i64::MAX,
    ensures
        p.metric == (CreateConversationMessageMetric {
            message_id,
            score: clamp_score(raw_score as int) as i16,
        }),
        p.cumulative_distance == cum_prev + clamp_score(raw_score as int),
        p.finalized@ == finalized_spec(
            cum_prev as int,
            p.cumulative_distance as int,
            SEGMENT_BASE as int,
        ),
{
    let score: i16 = if raw_score < MIN_SCORE {
        MIN_SCORE
    } else if raw_score > MAX_SCORE {
        MAX_SCORE
    } else {
        raw_score
    };
    let cum_new = cum_prev + score as i64;
    let finalized = finalized_nodes(cum_prev, cum_new, SEGMENT_BASE);
    RecordPlan {
        metric: CreateConversationMessageMetric { message_id, score },
        cumulative_distance: cum_new,
        finalized,
    }
}

/// Every recorded message moves the conversation forward: its score lies in
/// `1..=25`, so the cumulative distance grows by at least one and at most
/// twenty-five.
pub proof fn law_recorded_distance_grows(raw_score: i16, cum_prev: i64)
    ensures
        MIN_SCORE <= clamp_score(raw_score as int) <= MAX_SCORE,
        cum_prev < cum_prev + clamp_score(raw_score as int) <= cum_prev + MAX_SCORE,
{
}

// ─── Recomputing nodes ──────────────────────────────────────────────────────

/// What a node is summarized from: the parts in order and the first and last
/// message ids they cover.
#[derive(Debug, Clone)]
pub struct SummarySource {
    pub parts: Vec<String>,
    pub covers_from: i64,
    pub covers_to: i64,
}

/// A level-1 node is summarized from the raw messages of its span, in order;
/// it covers the first through the last of them (`0` for both when the span
/// holds no message).
pub fn level_one_source(messages: &Vec<MessageText>) -> (s: SummarySource)
    ensures
        s.parts@.len() == messages@.len(),
        forall|i: int| 0 <= i < messages@.len() ==> #[trigger] s.parts@[i]@ == messages@[i].text@,
        s.covers_from == (if messages@.len() == 0 {
            0
        } else {
            messages@[0].message_id
        }),
        s.covers_to == (if messages@.len() == 0 {
            0
        } else {
            messages@.last().message_id
        }),
{
    let mut parts: Vec<String> = Vec::new();
    let mut k: usize = 0;
    while k < messages.len()
        invariant
            k <= messages@.len(),
            parts@.len() == k,
            forall|i: int| 0 <= i < k ==> #[trigger] parts@[i]@ == messages@[i].text@,
        decreases messages@.len() - k,
    {
        parts.push(messages[k].text.clone());
        k += 1;
    }
    let n = messages.len();
    let covers_from = if n == 0 {
        0
    } else {
        messages[0].message_id
    };
    let covers_to = if n == 0 {
        0
    } else {
        messages[n - 1].message_id
    };
    SummarySource { parts, covers_from, covers_to }
}

/// A higher node is summarized from the summaries of its children, in order;
/// it covers from the smallest first-covered id to the largest last-covered id
/// among them (`0` for both when it has no child).
pub fn children_source(children: &Vec<ConversationSummaryNodeEntity>) -> (s: SummarySource)
    ensures
        s.parts@.len() == children@.len(),
        forall|i: int|
            0 <= i < children@.len() ==> #[trigger] s.parts@[i]@ == children@[i].summary@,
        children@.len() == 0 ==> s.covers_from == 0 && s.covers_to == 0,
        children@.len() > 0 ==> (exists|i: int|
            0 <= i < children@.len() && s.covers_from == #[trigger] children@[i].covers_from_message_id),
        forall|i: int|
            0 <= i < children@.len() ==> s.covers_from <= #[trigger] children@[i].covers_from_message_id,
        children@.len() > 0 ==> (exists|i: int|
            0 <= i < children@.len() && s.covers_to == #[trigger] children@[i].covers_to_message_id),
        forall|i: int|
            0 <= i < children@.len() ==> s.covers_to >= #[trigger] children@[i].covers_to_message_id,
{
    let mut parts: Vec<String> = Vec::new();
    let mut covers_from: i64 = 0;
    let mut covers_to: i64 = 0;
    let mut k: usize = 0;
    while k < children.len()
        invariant
            k <= children@.len(),
            parts@.len() == k,
            forall|i: int| 0 <= i < k ==> #[trigger] parts@[i]@ == children@[i].summary@,
            k == 0 ==> covers_from == 0 && covers_to == 0,
            k > 0 ==> (exists|i: int|
                0 <= i < k && covers_from == #[trigger] children@[i].covers_from_message_id),
            forall|i: int| 0 <= i < k ==> covers_from <= #[trigger] children@[i].covers_from_message_id,
            k > 0 ==> (exists|i: int|
                0 <= i < k && covers_to == #[trigger] children@[i].covers_to_message_id),
            forall|i: int| 0 <= i < k ==> covers_to >= #[trigger] children@[i].covers_to_message_id,
        decreases children@.len() - k,
    {
        let c = &children[k];
        if k == 0 || c.covers_from_message_id < covers_from {
            covers_from = c.covers_from_message_id;
        }
        if k == 0 || c.covers_to_message_id > covers_to {
            covers_to = c.covers_to_message_id;
        }
        parts.push(c.summary.clone());
        k += 1;
    }
    SummarySource { parts, covers_from, covers_to }
}

/// The row that stores a recomputed node: finalized (no longer open), with the
/// span, the covered ids, the summary and the number of parts folded into it.
pub fn finalized_row(
    request: RecomputeNode,
    span: (i64, i64),
    covers: (i64, i64),
    children: usize,
    summary: String,
    updated_at: i64,
) -> (row: UpsertConversationSummaryNode)
    requires
        children <= i64::MAX,
    ensures
        row.conversation_id == request.conversation_id,
        row.level == request.node.level,
        row.bucket == request.node.bucket,
        row.distance_from == span.0,
        row.distance_to == span.1,
        row.covers_from_message_id == covers.0,
        row.covers_to_message_id == covers.1,
        row.summary == summary,
        !row.is_open,
        row.last_summary_children == children,
        row.updated_at == updated_at,
{
    UpsertConversationSummaryNode {
        conversation_id: request.conversation_id,
        level: request.node.level,
        bucket: request.node.bucket,
        covers_from_message_id: covers.0,
        covers_to_message_id: covers.1,
        distance_from: span.0,
        distance_to: span.1,
        summary,
        is_open: false,
        last_summary_children: children as i64,
        updated_at,
    }
}

/// Where a node's parts are read from.
#[derive(Debug, Clone, Copy, PartialEq, Eq, Structural)]
pub enum NodeSourceQuery {
    /// A level-1 node folds the raw messages of its span.
    Messages(MessagesInDistanceRange),
    /// A higher node folds its children one level down within its span.
    Children(ListChildSummaryNodes),
}

/// The read that gathers the parts of the node `request` names, whose span is
/// `span`: raw messages at level 1 (or below), child nodes above.
pub fn source_query(request: RecomputeNode, span: (i64, i64)) -> (q: NodeSourceQuery)
    ensures
        request.node.level <= 1 ==> q == NodeSourceQuery::Messages(
            MessagesInDistanceRange {
                conversation_id: request.conversation_id,
                distance_from: span.0,
                distance_to: span.1,
            },
        ),
        request.node.level > 1 ==> q == NodeSourceQuery::Children(
            ListChildSummaryNodes {
                conversation_id: request.conversation_id,
                level: request.node.level,
                distance_from: span.0,
                distance_to: span.1,
            },
        ),
{
    if request.node.level <= 1 {
        NodeSourceQuery::Messages(
            MessagesInDistanceRange {
                conversation_id: request.conversation_id,
                distance_from: span.0,
                distance_to: span.1,
            },
        )
    } else {
        NodeSourceQuery::Children(
            ListChildSummaryNodes {
                conversation_id: request.conversation_id,
                level: request.node.level,
                distance_from: span.0,
                distance_to: span.1,
            },
        )
    }
}

// ─── Registering filled nodes ───────────────────────────────────────────────

/// What [`node_span`] answers for `node`.
pub open spec fn span_result(node: NodeAddr) -> Result<(i64, i64), ServiceError> {
    let width = ipow(SEGMENT_BASE as int, node.level as nat);
    if node.level < 0 {
        Err(ServiceError::InvalidInput)
    } else if !fits_i64(width) {
        Err(ServiceError::BusinessPanic)
    } else {
        let span = span_spec(node.bucket as int, width);
        Ok((span.0 as i64, span.1 as i64))
    }
}

/// The spans of `nodes`, in order, or the error of the first node that has
/// none.
pub open spec fn spans_result(nodes: Seq<NodeAddr>) -> Result<Seq<(i64, i64)>, ServiceError>
    decreases nodes.len(),
{
    if nodes.len() == 0 {
        Ok(Seq::empty())
    } else {
        match spans_result(nodes.drop_last()) {
            Err(e) => Err(e),
            Ok(spans) => match span_result(nodes.last()) {
                Err(e) => Err(e),
                Ok(span) => Ok(spans.push(span)),
            },
        }
    }
}

proof fn lemma_spans_error_persists(nodes: Seq<NodeAddr>, k: int, e: ServiceError)
    requires
        0 <= k <= nodes.len(),
        spans_result(nodes.take(k)) == Err::<Seq<(i64, i64)>, ServiceError>(e),
    ensures
        spans_result(nodes) == Err::<Seq<(i64, i64)>, ServiceError>(e),
    decreases nodes.len() - k,
{
    if k < nodes.len() {
        assert(nodes.take(k + 1).drop_last() =~= nodes.take(k));
        lemma_spans_error_persists(nodes, k + 1, e);
    } else {
        assert(nodes.take(k) =~= nodes);
    }
}

/// The spans of the nodes an append filled, in order; fails with the error
/// [`node_span`] gives for the first node that has no span.
pub fn node_spans(nodes: &Vec<NodeAddr>) -> (r: Result<Vec<(i64, i64)>, ServiceError>)
    ensures
        spans_result(nodes@) matches Ok(spans) ==> (r matches Ok(v) && v@ == spans),
        spans_result(nodes@) matches Err(e) ==> r == Err::<Vec<(i64, i64)>, ServiceError>(e),
{
    let mut spans: Vec<(i64, i64)> = Vec::new();
    let mut k: usize = 0;
    while k < nodes.len()
        invariant
            k <= nodes@.len(),
            spans_result(nodes@.take(k as int)) == Ok::<Seq<(i64, i64)>, ServiceError>(spans@),
        decreases nodes@.len() - k,
    {
        proof {
            assert(nodes@.take(k + 1).drop_last() =~= nodes@.take(k as int));
            assert(nodes@.take(k + 1).last() == nodes@[k as int]);
        }
        let node = nodes[k];
        let span = node_span(node);
        proof {
            let width = ipow(SEGMENT_BASE as int, node.level as nat);
            if node.level >= 0 && fits_i64(width) {
                let sp = span_spec(node.bucket as int, width);
                assert(fits_i64(sp.0) && fits_i64(sp.1));
            }
        }
        match span {
            Ok(sp) => {
                spans.push(sp);
            },
            Err(e) => {
                proof {
                    lemma_spans_error_persists(nodes@, k + 1, e);
                }
                return Err(e);
            },
        }
        k += 1;
    }
    proof {
        assert(nodes@.take(nodes@.len() as int) =~= nodes@);
    }
    Ok(spans)
}

/// The reads of the first and last message id inside each span.
pub fn bounds_queries(conversation_id: i64, spans: &Vec<(i64, i64)>) -> (q: Vec<
    MessageIdBoundsInDistanceRange,
>)
    ensures
        q@.len() == spans@.len(),
        forall|i: int|
            0 <= i < spans@.len() ==> #[trigger] q@[i] == (MessageIdBoundsInDistanceRange {
                conversation_id,
                distance_from: spans@[i].0,
                distance_to: spans@[i].1,
            }),
{
    let mut q: Vec<MessageIdBoundsInDistanceRange> = Vec::new();
    let mut k: usize = 0;
    while k < spans.len()
        invariant
            k <= spans@.len(),
            q@.len() == k,
            forall|i: int|
                0 <= i < k ==> #[trigger] q@[i] == (MessageIdBoundsInDistanceRange {
                    conversation_id,
                    distance_from: spans@[i].0,
                    distance_to: spans@[i].1,
                }),
        decreases spans@.len() - k,
    {
        let (from, to) = spans[k];
        q.push(MessageIdBoundsInDistanceRange { conversation_id, distance_from: from, distance_to: to });
        k += 1;
    }
    q
}

/// The placeholder row registering a filled node: its address, its span, and
/// the first and last message id inside the span.
pub open spec fn placeholder_of(
    conversation_id: i64,
    node: NodeAddr,
    span: (i64, i64),
    bounds: MessageIdBounds,
    updated_at: i64,
) -> InsertSummaryNodePlaceholder {
    InsertSummaryNodePlaceholder {
        conversation_id,
        level: node.level,
        bucket: node.bucket,
        covers_from_message_id: bounds.from_id,
        covers_to_message_id: bounds.to_id,
        distance_from: span.0,
        distance_to: span.1,
        updated_at,
    }
}

/// The placeholder rows that register the nodes an append filled, so the
/// read path can find and summarize them lazily: one per node, in order, from
/// its span and the message ids found inside it.
pub fn placeholder_rows(
    conversation_id: i64,
    nodes: &Vec<NodeAddr>,
    spans: &Vec<(i64, i64)>,
    bounds: &Vec<MessageIdBounds>,
    updated_at: i64,
) -> (rows: Vec<InsertSummaryNodePlaceholder>)
    requires
        spans@.len() == nodes@.len(),
        bounds@.len() == nodes@.len(),
    ensures
        rows@.len() == nodes@.len(),
        forall|i: int|
            0 <= i < nodes@.len() ==> #[trigger] rows@[i] == placeholder_of(
                conversation_id,
                nodes@[i],
                spans@[i],
                bounds@[i],
                updated_at,
            ),
{
    let mut rows: Vec<InsertSummaryNodePlaceholder> = Vec::new();
    let mut k: usize = 0;
    while k < nodes.len()
        invariant
            k <= nodes@.len(),
            spans@.len() == nodes@.len(),
            bounds@.len() == nodes@.len(),
            rows@.len() == k,
            forall|i: int|
                0 <= i < k ==> #[trigger] rows@[i] == placeholder_of(
                    conversation_id,
                    nodes@[i],
                    spans@[i],
                    bounds@[i],
                    updated_at,
                ),
        decreases nodes@.len() - k,
    {
        let node = nodes[k];
        let (from, to) = spans[k];
        let b = bounds[k];
        rows.push(
            InsertSummaryNodePlaceholder {
                conversation_id,
                level: node.level,
                bucket: node.bucket,
                covers_from_message_id: b.from_id,
                covers_to_message_id: b.to_id,
                distance_from: from,
                distance_to: to,
                updated_at,
            },
        );
        k += 1;
    }
    rows
}

proof fn lemma_spans_ok(nodes: Seq<NodeAddr>)
    requires
        forall|i: int| 0 <= i < nodes.len() ==> #[trigger] span_result(nodes[i]) is Ok,
    ensures
        spans_result(nodes) is Ok,
    decreases nodes.len(),
{
    if nodes.len() > 0 {
        let front = nodes.drop_last();
        assert forall|i: int| 0 <= i < front.len() implies #[trigger] span_result(front[i]) is Ok by {
            assert(front[i] == nodes[i]);
        }
        lemma_spans_ok(front);
        assert(span_result(nodes[nodes.len() - 1]) is Ok);
    }
}

/// Every node an append finalizes has a span, so registering the filled
/// nodes never fails: its level is at least one and its width is no larger
/// than the cumulative distance.
pub proof fn law_finalized_nodes_have_spans(cum_prev: i64, cum_new: i64)
    requires
        cum_prev >= 0,
    ensures
        spans_result(finalized_spec(cum_prev as int, cum_new as int, SEGMENT_BASE as int)) is Ok,
{
    let nodes = finalized_spec(cum_prev as int, cum_new as int, SEGMENT_BASE as int);
    assert forall|i: int| 0 <= i < nodes.len() implies #[trigger] span_result(nodes[i]) is Ok by {
        let x = nodes[i];
        assert(nodes.contains(x));
        law_finalized_exactly_crossed(cum_prev, cum_new, SEGMENT_BASE, x);
        let w = ipow(SEGMENT_BASE as int, x.level as nat);
        lemma_ipow_pos(SEGMENT_BASE as int, x.level as nat);
        assert(w <= (x.bucket + 1) * w) by (nonlinear_arith)
            requires
                x.bucket >= 0,
                w >= 1,
        ;
    }
    lemma_spans_ok(nodes);
}

} // verus!
