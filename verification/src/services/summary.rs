//! Context selection over the summary tree.
//!
//! Given a token budget, keep the most recent raw messages and replace the
//! older history with the smallest, most-compressed set of summary nodes that
//! still covers it. Summaries are maintained lazily, so a node selected for the
//! context may be **stale**; the read path then answers with the nodes the
//! caller must recompute before a plan can be served (a saga that terminates
//! because freshness is permanent on append-only history).
use crate::entities::conversation_summary_node::{
    ConversationSummaryNodeEntity, CountSummaryNodeChildren,
};
use crate::services::segment_tree::NodeAddr;
use vstd::prelude::*;
use vstd::utf8::encode_utf8;
#[allow(unused_imports)]
use vstd::string::*;

verus! {

/// The token cost of one raw message.
#[derive(Debug, Clone, Copy, PartialEq, Eq, Structural)]
pub struct MessageCost {
    pub id: i64,
    pub tokens: u32,
}

/// A summary node competing for the budget.
#[derive(Debug, Clone, Copy, PartialEq, Eq, Structural)]
pub struct SummaryCandidate {
    pub id: i64,
    pub level: i32,
    pub from_id: i64,
    pub to_id: i64,
    pub tokens: u32,
}

/// What to load into context for a turn.
#[derive(Debug, Clone, PartialEq, Eq, Default)]
pub struct ContextPlan {
    /// Raw message ids to include, newest-first.
    pub raw_message_ids: Vec<i64>,
    /// Summary node ids to include for the older, compressed history.
    pub summary_ids: Vec<i64>,
}

/// Outcome of selecting a context: a plan to load, or the stale nodes that the
/// caller must recompute before retrying.
#[derive(Debug, Clone, PartialEq, Eq)]
pub enum ContextResolution {
    /// Every selected summary is up to date; here is the context plan to load.
    Ready(ContextPlan),
    /// One or more selected summaries are stale; recompute these nodes and
    /// re-issue the request.
    Pending(Vec<NodeAddr>),
}

/// A summary node the context plan selected, paired with the two child counts
/// that decide its freshness.
#[derive(Debug, Clone, Copy, PartialEq, Eq, Structural)]
pub struct SelectedNode {
    /// Address used to recompute the node if it turns out stale.
    pub node: NodeAddr,
    /// Children folded into the node's stored summary (`0` for a placeholder).
    pub last_summary_children: i64,
    /// Children currently underneath the node.
    pub current_children: i64,
}

// ─── Specification ──────────────────────────────────────────────────────────

/// Two inclusive id ranges overlap.
pub open spec fn ranges_overlap(a: (i64, i64), b: (i64, i64)) -> bool {
    a.0 <= b.1 && b.0 <= a.1
}

/// The number of newest messages kept raw: messages are taken newest-first
/// while their total cost stays within `budget`.
pub open spec fn raw_kept(budget: int, msgs: Seq<MessageCost>) -> nat
    decreases msgs.len(),
{
    if msgs.len() == 0 {
        0
    } else if msgs[0].tokens <= budget {
        1 + raw_kept(budget - msgs[0].tokens, msgs.drop_first())
    } else {
        0
    }
}

/// Total token cost of a list of messages.
pub open spec fn message_tokens(msgs: Seq<MessageCost>) -> int
    decreases msgs.len(),
{
    if msgs.len() == 0 {
        0
    } else {
        message_tokens(msgs.drop_last()) + msgs.last().tokens
    }
}

/// Total token cost of a list of summary candidates.
pub open spec fn summary_tokens(cands: Seq<SummaryCandidate>) -> int
    decreases cands.len(),
{
    if cands.len() == 0 {
        0
    } else {
        cands[0].tokens + summary_tokens(cands.drop_first())
    }
}

/// Candidate `a` is preferred to `b`: a higher level, or the same level and an
/// older span.
pub open spec fn preferred(a: SummaryCandidate, b: SummaryCandidate) -> bool {
    a.level > b.level || (a.level == b.level && a.from_id < b.from_id)
}

/// Inserting `c` into `s` just before the first element that `c` is
/// preferred to, scanning from the end (a stable insertion).
pub open spec fn insert_by_preference(s: Seq<SummaryCandidate>, c: SummaryCandidate) -> Seq<
    SummaryCandidate,
>
    decreases s.len(),
{
    if s.len() == 0 {
        seq![c]
    } else if preferred(c, s.last()) {
        insert_by_preference(s.drop_last(), c).push(s.last())
    } else {
        s.push(c)
    }
}

/// The candidates ordered by preference, equally preferred candidates keeping
/// their input order (a stable sort).
pub open spec fn order_by_preference(s: Seq<SummaryCandidate>) -> Seq<SummaryCandidate>
    decreases s.len(),
{
    if s.len() == 0 {
        s
    } else {
        insert_by_preference(order_by_preference(s.drop_last()), s.last())
    }
}

/// The candidates covering only history strictly older than `cutoff`.
pub open spec fn older_than(summaries: Seq<SummaryCandidate>, cutoff: int) -> Seq<SummaryCandidate>
    decreases summaries.len(),
{
    if summaries.len() == 0 {
        summaries
    } else if summaries.last().to_id < cutoff {
        older_than(summaries.drop_last(), cutoff).push(summaries.last())
    } else {
        older_than(summaries.drop_last(), cutoff)
    }
}

/// Whether `range` overlaps any range already covered.
pub open spec fn overlaps_any(covered: Seq<(i64, i64)>, range: (i64, i64)) -> bool {
    exists|k: int| 0 <= k < covered.len() && ranges_overlap(covered[k], range)
}

/// Greedy pick over `cands` in order: a candidate is taken when it overlaps no
/// covered span and still fits in `left`.
pub open spec fn pick(left: int, cands: Seq<SummaryCandidate>, covered: Seq<(i64, i64)>) -> Seq<
    SummaryCandidate,
>
    decreases cands.len(),
{
    if cands.len() == 0 {
        Seq::empty()
    } else {
        let c = cands[0];
        let range = (c.from_id, c.to_id);
        if !overlaps_any(covered, range) && c.tokens <= left {
            seq![c] + pick(left - c.tokens, cands.drop_first(), covered.push(range))
        } else {
            pick(left, cands.drop_first(), covered)
        }
    }
}

/// The oldest kept raw message bounds the history eligible for summaries.
pub open spec fn cutoff_of(recent: Seq<MessageCost>, budget: int) -> int {
    let n = raw_kept(budget, recent);
    if n == 0 {
        i64::MAX as int
    } else {
        recent[n - 1].id as int
    }
}

/// The summaries chosen for the older history.
pub open spec fn chosen_summaries(
    budget: int,
    recent: Seq<MessageCost>,
    summaries: Seq<SummaryCandidate>,
) -> Seq<SummaryCandidate> {
    let n = raw_kept(budget, recent);
    pick(
        budget - message_tokens(recent.take(n as int)),
        order_by_preference(older_than(summaries, cutoff_of(recent, budget))),
        Seq::empty(),
    )
}

/// Whether a selected node's summary no longer reflects its children.
pub open spec fn is_stale(s: SelectedNode) -> bool {
    s.current_children != s.last_summary_children
}

/// The stale nodes among `selected`, in selection order.
pub open spec fn stale_nodes(selected: Seq<SelectedNode>) -> Seq<NodeAddr>
    decreases selected.len(),
{
    if selected.len() == 0 {
        Seq::empty()
    } else {
        let rest = stale_nodes(selected.drop_last());
        if is_stale(selected.last()) {
            rest.push(selected.last().node)
        } else {
            rest
        }
    }
}

// ─── Computation ────────────────────────────────────────────────────────────

/// The token estimate of a text: one token per four bytes of its UTF-8
/// encoding, plus one (truncated to `u32`).
pub open spec fn token_estimate(text: Seq<char>) -> u32 {
    ((encode_utf8(text).len() as usize / 4 + 1) as u32)
}

/// Rough token estimate for a piece of text (≈ 4 bytes per token).
pub fn estimate_tokens(text: &str) -> (r: u32)
    ensures
        r == token_estimate(text@),
{
    #[verifier::truncate]
    ((text.len() / 4 + 1) as u32)
}

/// Two inclusive id ranges overlap.
pub fn overlaps(a: (i64, i64), b: (i64, i64)) -> (r: bool)
    ensures
        r == ranges_overlap(a, b),
{
    a.0 <= b.1 && b.0 <= a.1
}

/// Whether `range` overlaps one of the `covered` ranges.
fn overlaps_covered(covered: &Vec<(i64, i64)>, range: (i64, i64)) -> (r: bool)
    ensures
        r == overlaps_any(covered@, range),
{
    let mut k: usize = 0;
    while k < covered.len()
        invariant
            k <= covered@.len(),
            forall|m: int| 0 <= m < k ==> !ranges_overlap(covered@[m], range),
        decreases covered@.len() - k,
    {
        if overlaps(covered[k], range) {
            return true;
        }
        k += 1;
    }
    false
}

/// Inserts `c` into `ordered` after every candidate it is not preferred to.
fn insert_candidate(ordered: &mut Vec<SummaryCandidate>, c: SummaryCandidate)
    ensures
        final(ordered)@ == insert_by_preference(old(ordered)@, c),
{
    let ghost s = ordered@;
    let n = ordered.len();
    ordered.push(c);
    let mut p: usize = n;
    proof {
        assert(s.subrange(0, n as int) =~= s);
        assert(s.subrange(n as int, n as int) =~= Seq::<SummaryCandidate>::empty());
        assert(insert_by_preference(s, c) =~= insert_by_preference(s.subrange(0, p as int), c)
            + s.subrange(p as int, n as int));
    }
    while p > 0 && (c.level > ordered[p - 1].level || (c.level == ordered[p - 1].level && c.from_id
        < ordered[p - 1].from_id))
        invariant
            p <= n,
            n == s.len(),
            ordered@.len() == n + 1,
            forall|k: int| 0 <= k < p ==> ordered@[k] == s[k],
            forall|k: int| p < k <= n ==> ordered@[k] == s[k - 1],
            insert_by_preference(s, c) == insert_by_preference(s.subrange(0, p as int), c) + s.subrange(
                p as int,
                n as int,
            ),
        decreases p,
    {
        proof {
            let pre = s.subrange(0, p as int);
            assert(pre.last() == s[p - 1]);
            assert(pre.drop_last() =~= s.subrange(0, p - 1));
            assert(insert_by_preference(pre, c) == insert_by_preference(pre.drop_last(), c).push(
                pre.last(),
            ));
            assert(s.subrange(p - 1, n as int) =~= seq![s[p - 1]] + s.subrange(p as int, n as int));
            assert(insert_by_preference(pre.drop_last(), c).push(pre.last()) + s.subrange(
                p as int,
                n as int,
            ) =~= insert_by_preference(pre.drop_last(), c) + s.subrange(p - 1, n as int));
        }
        let prev = ordered[p - 1];
        ordered.set(p, prev);
        p -= 1;
    }
    ordered.set(p, c);
    proof {
        let pre = s.subrange(0, p as int);
        if p == 0 {
            assert(pre =~= Seq::<SummaryCandidate>::empty());
        } else {
            assert(pre.last() == s[p - 1]);
        }
        assert(insert_by_preference(pre, c) == pre.push(c));
        assert(ordered@ =~= pre.push(c) + s.subrange(p as int, n as int));
    }
}

/// Select the context that fits `budget`.
///
/// `recent_newest_first` must be ordered newest message first. The most recent
/// messages are kept raw while they fit; the remaining budget is then spent on
/// summary nodes covering only the older (dropped) region, preferring
/// higher-level (more compressed) nodes and never double-covering a span.
pub fn select_context(
    budget: u32,
    recent_newest_first: &[MessageCost],
    summaries: &[SummaryCandidate],
) -> (plan: ContextPlan)
    ensures
        plan.raw_message_ids@ == recent_newest_first@.take(
            raw_kept(budget as int, recent_newest_first@) as int,
        ).map_values(|m: MessageCost| m.id),
        plan.summary_ids@ == chosen_summaries(
            budget as int,
            recent_newest_first@,
            summaries@,
        ).map_values(|c: SummaryCandidate| c.id),
{
    let ghost recent = recent_newest_first@;
    let mut used: u32 = 0;
    let mut raw_message_ids: Vec<i64> = Vec::new();
    let mut i: usize = 0;
    proof {
        assert(recent.take(0) =~= Seq::<MessageCost>::empty());
        assert(recent.skip(0) =~= recent);
    }
    loop
        invariant_except_break
            i <= recent.len(),
            recent == recent_newest_first@,
            used <= budget,
            used == message_tokens(recent.take(i as int)),
            raw_message_ids@ == recent.take(i as int).map_values(|m: MessageCost| m.id),
            raw_kept(budget as int, recent) == i + raw_kept(budget - used, recent.skip(i as int)),
        ensures
            i <= recent.len(),
            used <= budget,
            used == message_tokens(recent.take(i as int)),
            raw_message_ids@ == recent.take(i as int).map_values(|m: MessageCost| m.id),
            raw_kept(budget as int, recent) == i,
        decreases recent.len() - i,
    {
        if i >= recent_newest_first.len() {
            break;
        }
        let msg = recent_newest_first[i];
        proof {
            assert(recent.skip(i as int)[0] == msg);
            assert(recent.skip(i as int).drop_first() =~= recent.skip(i + 1));
        }
        match used.checked_add(msg.tokens) {
            Some(next) if next <= budget => {
                proof {
                    assert(recent.take(i + 1).drop_last() =~= recent.take(i as int));
                    assert(recent.take(i + 1).map_values(|m: MessageCost| m.id) =~= recent.take(
                        i as int,
                    ).map_values(|m: MessageCost| m.id).push(msg.id));
                }
                used = next;
                raw_message_ids.push(msg.id);
            },
            _ => {
                break;
            },
        }
        i += 1;
    }
    let ghost n = i;
    let ghost raw_used = used;

    // Everything older than the oldest kept raw message is eligible for
    // summary coverage. With no raw message kept, the whole history is eligible.
    let cutoff = if raw_message_ids.len() > 0 {
        raw_message_ids[raw_message_ids.len() - 1]
    } else {
        i64::MAX
    };
    proof {
        if n > 0 {
            assert(raw_message_ids@[n - 1] == recent[n - 1].id);
        }
        assert(cutoff == cutoff_of(recent, budget as int));
    }

    let ghost cands = summaries@;
    let mut eligible: Vec<SummaryCandidate> = Vec::new();
    let mut j: usize = 0;
    while j < summaries.len()
        invariant
            j <= cands.len(),
            cands == summaries@,
            eligible@ == older_than(cands.take(j as int), cutoff as int),
        decreases cands.len() - j,
    {
        proof {
            assert(cands.take(j + 1).drop_last() =~= cands.take(j as int));
            assert(cands.take(j + 1).last() == cands[j as int]);
        }
        if summaries[j].to_id < cutoff {
            eligible.push(summaries[j]);
        }
        j += 1;
    }
    proof {
        assert(cands.take(cands.len() as int) =~= cands);
    }

    // Prefer more-compressed nodes first, then oldest span first for stability.
    let mut ordered: Vec<SummaryCandidate> = Vec::new();
    let mut t: usize = 0;
    while t < eligible.len()
        invariant
            t <= eligible@.len(),
            ordered@ == order_by_preference(eligible@.take(t as int)),
        decreases eligible@.len() - t,
    {
        proof {
            assert(eligible@.take(t + 1).drop_last() =~= eligible@.take(t as int));
            assert(eligible@.take(t + 1).last() == eligible@[t as int]);
        }
        insert_candidate(&mut ordered, eligible[t]);
        t += 1;
    }
    proof {
        assert(eligible@.take(eligible@.len() as int) =~= eligible@);
    }

    let ghost goal = chosen_summaries(budget as int, recent, cands);
    let mut summary_ids: Vec<i64> = Vec::new();
    let mut covered: Vec<(i64, i64)> = Vec::new();
    let ghost mut picked: Seq<SummaryCandidate> = Seq::empty();
    let mut u: usize = 0;
    proof {
        assert(ordered@.skip(0) =~= ordered@);
    }
    while u < ordered.len()
        invariant
            u <= ordered@.len(),
            used <= budget,
            goal == pick(budget - raw_used, ordered@, Seq::empty()),
            picked + pick(budget - used, ordered@.skip(u as int), covered@) == goal,
            summary_ids@ == picked.map_values(|c: SummaryCandidate| c.id),
        decreases ordered@.len() - u,
    {
        let cand = ordered[u];
        let range = (cand.from_id, cand.to_id);
        proof {
            assert(ordered@.skip(u as int)[0] == cand);
            assert(ordered@.skip(u as int).drop_first() =~= ordered@.skip(u + 1));
        }
        if !overlaps_covered(&covered, range) {
            match used.checked_add(cand.tokens) {
                Some(next) if next <= budget => {
                    proof {
                        assert(picked + (seq![cand] + pick(
                            budget - next,
                            ordered@.skip(u + 1),
                            covered@.push(range),
                        )) =~= picked.push(cand) + pick(
                            budget - next,
                            ordered@.skip(u + 1),
                            covered@.push(range),
                        ));
                        assert(picked.push(cand).map_values(|c: SummaryCandidate| c.id)
                            =~= picked.map_values(|c: SummaryCandidate| c.id).push(cand.id));
                        picked = picked.push(cand);
                    }
                    used = next;
                    summary_ids.push(cand.id);
                    covered.push(range);
                },
                _ => {},
            }
        }
        u += 1;
    }
    proof {
        assert(ordered@.skip(ordered@.len() as int) =~= Seq::<SummaryCandidate>::empty());
        assert(picked =~= goal);
    }
    ContextPlan { raw_message_ids, summary_ids }
}

/// Decide a [`ContextResolution`] from the chosen plan and the freshness of each
/// selected summary node: when any selected node is stale the plan is withheld
/// and the stale nodes are returned in selection order; otherwise the plan is
/// ready.
pub fn resolve_context(plan: ContextPlan, selected: &[SelectedNode]) -> (r: ContextResolution)
    ensures
        stale_nodes(selected@).len() == 0 ==> r == ContextResolution::Ready(plan),
        stale_nodes(selected@).len() > 0 ==> (r matches ContextResolution::Pending(p) && p@
            == stale_nodes(selected@)),
{
    let mut pending: Vec<NodeAddr> = Vec::new();
    let mut k: usize = 0;
    while k < selected.len()
        invariant
            k <= selected@.len(),
            pending@ == stale_nodes(selected@.take(k as int)),
        decreases selected@.len() - k,
    {
        proof {
            assert(selected@.take(k + 1).drop_last() =~= selected@.take(k as int));
            assert(selected@.take(k + 1).last() == selected@[k as int]);
        }
        if selected[k].current_children != selected[k].last_summary_children {
            pending.push(selected[k].node);
        }
        k += 1;
    }
    proof {
        assert(selected@.take(selected@.len() as int) =~= selected@);
    }
    if pending.len() == 0 {
        ContextResolution::Ready(plan)
    } else {
        ContextResolution::Pending(pending)
    }
}

// ─── Serving a request ──────────────────────────────────────────────────────

/// Select the context plan for a conversation given a token budget and the cost
/// of its most recent messages (newest-first).
#[derive(Debug, Clone)]
pub struct SelectContextRequest {
    pub conversation_id: i64,
    pub budget: u32,
    pub recent_message_costs: Vec<MessageCost>,
}

/// A stored node as a candidate for the budget, priced by its summary text.
pub open spec fn candidate_of(n: ConversationSummaryNodeEntity) -> SummaryCandidate {
    SummaryCandidate {
        id: n.id,
        level: n.level,
        from_id: n.covers_from_message_id,
        to_id: n.covers_to_message_id,
        tokens: token_estimate(n.summary@),
    }
}

/// The conversation's stored nodes as budget candidates, in the same order.
pub fn summary_candidates(nodes: &Vec<ConversationSummaryNodeEntity>) -> (c: Vec<SummaryCandidate>)
    ensures
        c@ == nodes@.map_values(|n: ConversationSummaryNodeEntity| candidate_of(n)),
{
    let mut c: Vec<SummaryCandidate> = Vec::new();
    let mut k: usize = 0;
    while k < nodes.len()
        invariant
            k <= nodes@.len(),
            c@ == nodes@.take(k as int).map_values(
                |n: ConversationSummaryNodeEntity| candidate_of(n),
            ),
        decreases nodes@.len() - k,
    {
        let n = &nodes[k];
        let cand = SummaryCandidate {
            id: n.id,
            level: n.level,
            from_id: n.covers_from_message_id,
            to_id: n.covers_to_message_id,
            tokens: estimate_tokens(n.summary.as_str()),
        };
        c.push(cand);
        proof {
            assert(nodes@.take(k + 1) =~= nodes@.take(k as int).push(nodes@[k as int]));
        }
        k += 1;
    }
    proof {
        assert(nodes@.take(nodes@.len() as int) =~= nodes@);
    }
    c
}

/// The position of the first node with id `id` at or after position `k`.
pub open spec fn first_from(nodes: Seq<ConversationSummaryNodeEntity>, id: i64, k: int) -> Option<
    int,
>
    decreases nodes.len() - k,
{
    if k < 0 || k >= nodes.len() {
        None
    } else if nodes[k].id == id {
        Some(k)
    } else {
        first_from(nodes, id, k + 1)
    }
}

/// A selected node whose live children must be counted before the plan can be
/// judged fresh or stale.
#[derive(Debug, Clone, Copy, PartialEq, Eq, Structural)]
pub struct ChildCountQuery {
    /// The count to run.
    pub query: CountSummaryNodeChildren,
    /// The node's address.
    pub node: NodeAddr,
    /// How many children its stored summary folded.
    pub last_summary_children: i64,
}

/// The count query for a stored node of conversation `conversation_id`.
pub open spec fn query_of(conversation_id: i64, n: ConversationSummaryNodeEntity) -> ChildCountQuery {
    ChildCountQuery {
        query: CountSummaryNodeChildren {
            conversation_id,
            level: n.level,
            distance_from: n.distance_from,
            distance_to: n.distance_to,
        },
        node: NodeAddr { level: n.level, bucket: n.bucket },
        last_summary_children: n.last_summary_children,
    }
}

/// For each chosen summary id in order, the count query of the first stored
/// node with that id; ids with no stored node are skipped.
pub open spec fn child_count_queries_spec(
    conversation_id: i64,
    ids: Seq<i64>,
    nodes: Seq<ConversationSummaryNodeEntity>,
) -> Seq<ChildCountQuery>
    decreases ids.len(),
{
    if ids.len() == 0 {
        Seq::empty()
    } else {
        let rest = child_count_queries_spec(conversation_id, ids.drop_last(), nodes);
        match first_from(nodes, ids.last(), 0) {
            Some(i) => rest.push(query_of(conversation_id, nodes[i])),
            None => rest,
        }
    }
}

proof fn lemma_first_from_in_range(nodes: Seq<ConversationSummaryNodeEntity>, id: i64, k: int)
    ensures
        first_from(nodes, id, k) matches Some(i) ==> 0 <= i < nodes.len() && nodes[i].id == id,
    decreases nodes.len() - k,
{
    if 0 <= k < nodes.len() && nodes[k].id != id {
        lemma_first_from_in_range(nodes, id, k + 1);
    }
}

/// The position of the first node with id `id`.
fn find_node(nodes: &Vec<ConversationSummaryNodeEntity>, id: i64) -> (r: Option<usize>)
    ensures
        r matches Some(i) ==> first_from(nodes@, id, 0) == Some(i as int),
        r is None ==> first_from(nodes@, id, 0) is None,
{
    let mut k: usize = 0;
    while k < nodes.len()
        invariant
            k <= nodes@.len(),
            first_from(nodes@, id, 0) == first_from(nodes@, id, k as int),
        decreases nodes@.len() - k,
    {
        if nodes[k].id == id {
            return Some(k);
        }
        k += 1;
    }
    None
}

/// The child counts to run for the summary nodes a plan chose: for each chosen
/// id, in order, the first stored node with that id (ids with no stored node
/// are skipped).
pub fn child_count_queries(
    conversation_id: i64,
    summary_ids: &Vec<i64>,
    nodes: &Vec<ConversationSummaryNodeEntity>,
) -> (q: Vec<ChildCountQuery>)
    ensures
        q@ == child_count_queries_spec(conversation_id, summary_ids@, nodes@),
{
    let mut q: Vec<ChildCountQuery> = Vec::new();
    let mut k: usize = 0;
    while k < summary_ids.len()
        invariant
            k <= summary_ids@.len(),
            q@ == child_count_queries_spec(conversation_id, summary_ids@.take(k as int), nodes@),
        decreases summary_ids@.len() - k,
    {
        proof {
            assert(summary_ids@.take(k + 1).drop_last() =~= summary_ids@.take(k as int));
            assert(summary_ids@.take(k + 1).last() == summary_ids@[k as int]);
        }
        match find_node(nodes, summary_ids[k]) {
            Some(i) => {
                proof {
                    lemma_first_from_in_range(nodes@, summary_ids@[k as int], 0);
                }
                let n = &nodes[i];
                q.push(
                    ChildCountQuery {
                        query: CountSummaryNodeChildren {
                            conversation_id,
                            level: n.level,
                            distance_from: n.distance_from,
                            distance_to: n.distance_to,
                        },
                        node: NodeAddr { level: n.level, bucket: n.bucket },
                        last_summary_children: n.last_summary_children,
                    },
                );
            },
            None => {},
        }
        k += 1;
    }
    proof {
        assert(summary_ids@.take(summary_ids@.len() as int) =~= summary_ids@);
    }
    q
}

/// Pair each count query with the live child count that answered it.
pub fn selected_nodes(queries: &Vec<ChildCountQuery>, counts: &Vec<i64>) -> (s: Vec<SelectedNode>)
    requires
        queries@.len() == counts@.len(),
    ensures
        s@.len() == queries@.len(),
        forall|i: int|
            0 <= i < queries@.len() ==> #[trigger] s@[i] == (SelectedNode {
                node: queries@[i].node,
                last_summary_children: queries@[i].last_summary_children,
                current_children: counts@[i],
            }),
{
    let mut s: Vec<SelectedNode> = Vec::new();
    let mut k: usize = 0;
    while k < queries.len()
        invariant
            k <= queries@.len(),
            queries@.len() == counts@.len(),
            s@.len() == k,
            forall|i: int|
                0 <= i < k ==> #[trigger] s@[i] == (SelectedNode {
                    node: queries@[i].node,
                    last_summary_children: queries@[i].last_summary_children,
                    current_children: counts@[i],
                }),
        decreases queries@.len() - k,
    {
        s.push(
            SelectedNode {
                node: queries[k].node,
                last_summary_children: queries[k].last_summary_children,
                current_children: counts[k],
            },
        );
        k += 1;
    }
    s
}

/// What serving `request` needs once the conversation's stored nodes are
/// loaded: the plan under the request's budget (the nodes priced by their
/// summaries) and, for the summaries it chose, the child counts to run.
pub fn prepare_context(
    request: &SelectContextRequest,
    nodes: &Vec<ConversationSummaryNodeEntity>,
) -> (r: (ContextPlan, Vec<ChildCountQuery>))
    ensures
        r.0.raw_message_ids@ == request.recent_message_costs@.take(
            raw_kept(request.budget as int, request.recent_message_costs@) as int,
        ).map_values(|m: MessageCost| m.id),
        r.0.summary_ids@ == chosen_summaries(
            request.budget as int,
            request.recent_message_costs@,
            nodes@.map_values(|n: ConversationSummaryNodeEntity| candidate_of(n)),
        ).map_values(|c: SummaryCandidate| c.id),
        r.1@ == child_count_queries_spec(request.conversation_id, r.0.summary_ids@, nodes@),
{
    let candidates = summary_candidates(nodes);
    let plan = select_context(
        request.budget,
        request.recent_message_costs.as_slice(),
        candidates.as_slice(),
    );
    let queries = child_count_queries(request.conversation_id, &plan.summary_ids, nodes);
    (plan, queries)
}

/// The answer to a request once every child count has come back: the plan
/// when all its summaries are fresh, otherwise the stale nodes to recompute.
pub fn finish_context(plan: ContextPlan, queries: &Vec<ChildCountQuery>, counts: &Vec<i64>) -> (r:
    ContextResolution)
    requires
        queries@.len() == counts@.len(),
    ensures
        ({
            let selected = Seq::new(
                queries@.len(),
                |i: int|
                    SelectedNode {
                        node: queries@[i].node,
                        last_summary_children: queries@[i].last_summary_children,
                        current_children: counts@[i],
                    },
            );
            &&& stale_nodes(selected).len() == 0 ==> r == ContextResolution::Ready(plan)
            &&& stale_nodes(selected).len() > 0 ==> (r matches ContextResolution::Pending(p)
                && p@ == stale_nodes(selected))
        }),
{
    let selected = selected_nodes(queries, counts);
    proof {
        let expected = Seq::new(
            queries@.len(),
            |i: int|
                SelectedNode {
                    node: queries@[i].node,
                    last_summary_children: queries@[i].last_summary_children,
                    current_children: counts@[i],
                },
        );
        assert(selected@ =~= expected);
    }
    resolve_context(plan, selected.as_slice())
}

// ─── Laws ───────────────────────────────────────────────────────────────────

proof fn lemma_message_tokens_cons(x: MessageCost, t: Seq<MessageCost>)
    ensures
        message_tokens(seq![x] + t) == x.tokens + message_tokens(t),
    decreases t.len(),
{
    if t.len() > 0 {
        lemma_message_tokens_cons(x, t.drop_last());
        assert((seq![x] + t).drop_last() =~= seq![x] + t.drop_last());
        assert((seq![x] + t).last() == t.last());
    } else {
        assert(seq![x] + t =~= seq![x]);
        assert(seq![x].drop_last() =~= Seq::<MessageCost>::empty());
        assert(message_tokens(Seq::<MessageCost>::empty()) == 0);
        assert(message_tokens(seq![x]) == message_tokens(seq![x].drop_last()) + x.tokens);
    }
}

proof fn lemma_raw_kept_fits(budget: int, s: Seq<MessageCost>)
    requires
        budget >= 0,
    ensures
        raw_kept(budget, s) <= s.len(),
        message_tokens(s.take(raw_kept(budget, s) as int)) <= budget,
        raw_kept(budget, s) < s.len() ==> message_tokens(s.take(raw_kept(budget, s) as int))
            + s[raw_kept(budget, s) as int].tokens > budget,
    decreases s.len(),
{
    let n = raw_kept(budget, s);
    if s.len() == 0 {
        assert(s.take(0) =~= Seq::<MessageCost>::empty());
    } else if s[0].tokens <= budget {
        let rest = s.drop_first();
        lemma_raw_kept_fits(budget - s[0].tokens, rest);
        let m = raw_kept(budget - s[0].tokens, rest);
        assert(s.take(n as int) =~= seq![s[0]] + rest.take(m as int));
        lemma_message_tokens_cons(s[0], rest.take(m as int));
        if n < s.len() {
            assert(s[n as int] == rest[m as int]);
        }
    } else {
        assert(s.take(0) =~= Seq::<MessageCost>::empty());
    }
}

proof fn lemma_pick_props(left: int, cands: Seq<SummaryCandidate>, covered: Seq<(i64, i64)>)
    requires
        left >= 0,
    ensures
        summary_tokens(pick(left, cands, covered)) <= left,
        forall|a: int|
            0 <= a < pick(left, cands, covered).len() ==> cands.contains(
                #[trigger] pick(left, cands, covered)[a],
            ),
        forall|a: int, k: int|
            0 <= a < pick(left, cands, covered).len() && 0 <= k < covered.len() ==> !ranges_overlap(
                #[trigger] covered[k],
                (#[trigger] pick(left, cands, covered)[a].from_id, pick(left, cands, covered)[a].to_id),
            ),
        forall|a: int, b: int|
            0 <= a < b < pick(left, cands, covered).len() ==> !ranges_overlap(
                (#[trigger] pick(left, cands, covered)[a].from_id, pick(left, cands, covered)[a].to_id),
                (#[trigger] pick(left, cands, covered)[b].from_id, pick(left, cands, covered)[b].to_id),
            ),
    decreases cands.len(),
{
    let p = pick(left, cands, covered);
    if cands.len() > 0 {
        let c = cands[0];
        let range = (c.from_id, c.to_id);
        let rest = cands.drop_first();
        if !overlaps_any(covered, range) && c.tokens <= left {
            let cov2 = covered.push(range);
            let q = pick(left - c.tokens, rest, cov2);
            lemma_pick_props(left - c.tokens, rest, cov2);
            assert(p == seq![c] + q);
            assert(seq![c] + q =~= q.insert(0, c));
            assert(p.drop_first() =~= q);
            assert(p[0] == c);
            assert(summary_tokens(p) == c.tokens + summary_tokens(q));
            assert forall|a: int| 0 <= a < p.len() implies cands.contains(#[trigger] p[a]) by {
                if a == 0 {
                    assert(cands[0] == p[a]);
                } else {
                    assert(p[a] == q[a - 1]);
                    assert(rest.contains(q[a - 1]));
                    let w = choose|w: int| 0 <= w < rest.len() && rest[w] == q[a - 1];
                    assert(cands[w + 1] == p[a]);
                }
            }
            assert forall|a: int, k: int|
                0 <= a < p.len() && 0 <= k < covered.len() implies !ranges_overlap(
                #[trigger] covered[k],
                (#[trigger] p[a].from_id, p[a].to_id),
            ) by {
                if a == 0 {
                } else {
                    assert(p[a] == q[a - 1]);
                    assert(cov2[k] == covered[k]);
                }
            }
            assert forall|a: int, b: int| 0 <= a < b < p.len() implies !ranges_overlap(
                (#[trigger] p[a].from_id, p[a].to_id),
                (#[trigger] p[b].from_id, p[b].to_id),
            ) by {
                assert(p[b] == q[b - 1]);
                if a == 0 {
                    assert(cov2[covered.len() as int] == range);
                } else {
                    assert(p[a] == q[a - 1]);
                }
            }
        } else {
            lemma_pick_props(left, rest, covered);
            assert(p == pick(left, rest, covered));
            assert forall|a: int| 0 <= a < p.len() implies cands.contains(#[trigger] p[a]) by {
                let w = choose|w: int| 0 <= w < rest.len() && rest[w] == p[a];
                assert(cands[w + 1] == p[a]);
            }
        }
    }
}

proof fn lemma_insert_contains(s: Seq<SummaryCandidate>, c: SummaryCandidate, x: SummaryCandidate)
    ensures
        insert_by_preference(s, c).contains(x) ==> (x == c || s.contains(x)),
    decreases s.len(),
{
    let r = insert_by_preference(s, c);
    if r.contains(x) {
        let w = choose|w: int| 0 <= w < r.len() && r[w] == x;
        if s.len() == 0 {
        } else if preferred(c, s.last()) {
            let r0 = insert_by_preference(s.drop_last(), c);
            lemma_insert_contains(s.drop_last(), c, x);
            if w < r0.len() {
                assert(r0[w] == x);
                if x != c {
                    let v = choose|v: int| 0 <= v < s.drop_last().len() && s.drop_last()[v] == x;
                    assert(s[v] == x);
                }
            } else {
                assert(s[s.len() - 1] == x);
            }
        } else {
            if w < s.len() {
                assert(s[w] == x);
            }
        }
    }
}

proof fn lemma_order_contains(s: Seq<SummaryCandidate>, x: SummaryCandidate)
    ensures
        order_by_preference(s).contains(x) ==> s.contains(x),
    decreases s.len(),
{
    if s.len() > 0 && order_by_preference(s).contains(x) {
        lemma_insert_contains(order_by_preference(s.drop_last()), s.last(), x);
        lemma_order_contains(s.drop_last(), x);
        if x == s.last() {
            assert(s[s.len() - 1] == x);
        } else {
            let v = choose|v: int| 0 <= v < s.drop_last().len() && s.drop_last()[v] == x;
            assert(s[v] == x);
        }
    }
}

proof fn lemma_older_than_contains(s: Seq<SummaryCandidate>, cutoff: int, x: SummaryCandidate)
    ensures
        older_than(s, cutoff).contains(x) ==> s.contains(x) && x.to_id < cutoff,
    decreases s.len(),
{
    let r = older_than(s, cutoff);
    if s.len() > 0 && r.contains(x) {
        let r0 = older_than(s.drop_last(), cutoff);
        lemma_older_than_contains(s.drop_last(), cutoff, x);
        let w = choose|w: int| 0 <= w < r.len() && r[w] == x;
        if w < r0.len() {
            assert(r0[w] == x);
            let v = choose|v: int| 0 <= v < s.drop_last().len() && s.drop_last()[v] == x;
            assert(s[v] == x);
        } else {
            assert(s[s.len() - 1] == x);
        }
    }
}

/// The selected context never exceeds the budget: the kept raw messages and
/// the chosen summaries together cost at most `budget` tokens.
pub proof fn law_context_within_budget(
    budget: u32,
    recent: Seq<MessageCost>,
    summaries: Seq<SummaryCandidate>,
)
    ensures
        message_tokens(recent.take(raw_kept(budget as int, recent) as int)) + summary_tokens(
            chosen_summaries(budget as int, recent, summaries),
        ) <= budget,
{
    lemma_raw_kept_fits(budget as int, recent);
    let n = raw_kept(budget as int, recent);
    let left = budget - message_tokens(recent.take(n as int));
    lemma_pick_props(
        left,
        order_by_preference(older_than(summaries, cutoff_of(recent, budget as int))),
        Seq::empty(),
    );
}

/// The newest messages are kept raw as long as they fit: the kept messages are
/// a prefix of the newest-first list, and the first message left out would
/// not have fit.
pub proof fn law_raw_prefix_is_maximal(budget: u32, recent: Seq<MessageCost>)
    ensures
        raw_kept(budget as int, recent) <= recent.len(),
        raw_kept(budget as int, recent) < recent.len() ==> message_tokens(
            recent.take(raw_kept(budget as int, recent) as int),
        ) + recent[raw_kept(budget as int, recent) as int].tokens > budget,
{
    lemma_raw_kept_fits(budget as int, recent);
}

/// The chosen summaries are input candidates covering only history older than
/// the oldest kept raw message, and no two of them cover overlapping spans.
pub proof fn law_summaries_cover_older_history_once(
    budget: u32,
    recent: Seq<MessageCost>,
    summaries: Seq<SummaryCandidate>,
)
    ensures
        forall|a: int|
            0 <= a < chosen_summaries(budget as int, recent, summaries).len() ==> summaries.contains(
                #[trigger] chosen_summaries(budget as int, recent, summaries)[a],
            ) && chosen_summaries(budget as int, recent, summaries)[a].to_id < cutoff_of(
                recent,
                budget as int,
            ),
        forall|a: int, b: int|
            0 <= a < b < chosen_summaries(budget as int, recent, summaries).len() ==> !ranges_overlap(
                (
                    #[trigger] chosen_summaries(budget as int, recent, summaries)[a].from_id,
                    chosen_summaries(budget as int, recent, summaries)[a].to_id,
                ),
                (
                    #[trigger] chosen_summaries(budget as int, recent, summaries)[b].from_id,
                    chosen_summaries(budget as int, recent, summaries)[b].to_id,
                ),
            ),
{
    lemma_raw_kept_fits(budget as int, recent);
    let n = raw_kept(budget as int, recent);
    let left = budget - message_tokens(recent.take(n as int));
    let cutoff = cutoff_of(recent, budget as int);
    let elig = older_than(summaries, cutoff);
    let ord = order_by_preference(elig);
    lemma_pick_props(left, ord, Seq::empty());
    let p = chosen_summaries(budget as int, recent, summaries);
    assert forall|a: int| 0 <= a < p.len() implies summaries.contains(#[trigger] p[a]) && p[a].to_id
        < cutoff by {
        assert(ord.contains(p[a]));
        lemma_order_contains(elig, p[a]);
        lemma_older_than_contains(summaries, cutoff, p[a]);
    }
}

/// A selected node after it was recomputed: its summary folds every child it
/// currently has.
pub open spec fn refreshed(s: SelectedNode) -> SelectedNode {
    SelectedNode { node: s.node, last_summary_children: s.current_children, current_children: s.current_children }
}

/// One round of the read-path saga: once the nodes a pending answer names are
/// recomputed, and while no message is appended meanwhile, that same
/// selection has no stale node left.
pub proof fn law_recomputing_pending_nodes_resolves(selected: Seq<SelectedNode>)
    ensures
        stale_nodes(selected.map_values(|s: SelectedNode| refreshed(s))).len() == 0,
    decreases selected.len(),
{
    if selected.len() > 0 {
        law_recomputing_pending_nodes_resolves(selected.drop_last());
        assert(selected.map_values(|s: SelectedNode| refreshed(s)).drop_last() =~= selected.drop_last().map_values(
            |s: SelectedNode| refreshed(s),
        ));
    }
}

/// How many of the conversation's nodes have a stale summary.
pub open spec fn stale_count(nodes: Seq<SelectedNode>) -> nat
    decreases nodes.len(),
{
    if nodes.len() == 0 {
        0
    } else {
        stale_count(nodes.drop_last()) + if is_stale(nodes.last()) {
            1nat
        } else {
            0nat
        }
    }
}

/// The nodes a request selected, given by their positions among the
/// conversation's nodes.
pub open spec fn selection(nodes: Seq<SelectedNode>, picked: Seq<int>) -> Seq<SelectedNode> {
    picked.map_values(|i: int| nodes[i])
}

/// The conversation's nodes after the selected ones are recomputed: each now
/// folds every child it has (for a fresh node nothing changes).
pub open spec fn recompute_selected(nodes: Seq<SelectedNode>, picked: Seq<int>) -> Seq<SelectedNode> {
    Seq::new(
        nodes.len(),
        |j: int|
            if picked.contains(j) {
                refreshed(nodes[j])
            } else {
                nodes[j]
            },
    )
}

/// How many of the re-issued requests, each selecting `rounds[r]`, are
/// answered with pending nodes, when the caller recomputes the named nodes
/// after each such answer and no message is appended meanwhile.
pub open spec fn pending_rounds(nodes: Seq<SelectedNode>, rounds: Seq<Seq<int>>) -> nat
    decreases rounds.len(),
{
    if rounds.len() == 0 {
        0
    } else if stale_nodes(selection(nodes, rounds[0])).len() > 0 {
        1 + pending_rounds(recompute_selected(nodes, rounds[0]), rounds.drop_first())
    } else {
        pending_rounds(nodes, rounds.drop_first())
    }
}

proof fn lemma_pending_names_a_stale_node(selected: Seq<SelectedNode>)
    requires
        stale_nodes(selected).len() > 0,
    ensures
        exists|k: int| 0 <= k < selected.len() && is_stale(#[trigger] selected[k]),
    decreases selected.len(),
{
    if is_stale(selected.last()) {
        assert(is_stale(selected[selected.len() - 1]));
    } else {
        lemma_pending_names_a_stale_node(selected.drop_last());
        let k = choose|k: int| 0 <= k < selected.drop_last().len() && is_stale(
            #[trigger] selected.drop_last()[k],
        );
        assert(selected[k] == selected.drop_last()[k]);
    }
}

proof fn lemma_stale_count_shrinks(s: Seq<SelectedNode>, t: Seq<SelectedNode>, j0: int)
    requires
        s.len() == t.len(),
        forall|j: int| 0 <= j < s.len() && is_stale(#[trigger] t[j]) ==> is_stale(s[j]),
        0 <= j0 < s.len() ==> is_stale(s[j0]) && !is_stale(t[j0]),
    ensures
        stale_count(t) <= stale_count(s),
        0 <= j0 < s.len() ==> stale_count(t) < stale_count(s),
    decreases s.len(),
{
    if s.len() > 0 {
        let n = s.len() - 1;
        assert forall|j: int|
            0 <= j < s.drop_last().len() && is_stale(#[trigger] t.drop_last()[j]) implies is_stale(
            s.drop_last()[j],
        ) by {
            assert(t.drop_last()[j] == t[j] && s.drop_last()[j] == s[j]);
        }
        if j0 == n {
            lemma_stale_count_shrinks(s.drop_last(), t.drop_last(), -1);
            assert(is_stale(s[n]) && !is_stale(t[n]));
        } else {
            if 0 <= j0 < n {
                assert(s.drop_last()[j0] == s[j0] && t.drop_last()[j0] == t[j0]);
            }
            lemma_stale_count_shrinks(s.drop_last(), t.drop_last(), if 0 <= j0 < n {
                j0
            } else {
                -1
            });
            if is_stale(t[n]) {
                assert(is_stale(s[n]));
            }
        }
    }
}

proof fn lemma_stale_count_at_most_len(nodes: Seq<SelectedNode>)
    ensures
        stale_count(nodes) <= nodes.len(),
    decreases nodes.len(),
{
    if nodes.len() > 0 {
        lemma_stale_count_at_most_len(nodes.drop_last());
    }
}

/// The read-path saga terminates. While no message is appended, a request
/// that is re-issued after every pending answer (with the named nodes
/// recomputed) is answered with pending nodes at most once per node of the
/// conversation that is stale at the start, whatever nodes each request
/// selects: each pending round makes at least one stale node fresh, and a
/// fresh node stays fresh. Every later request is answered with its plan.
pub proof fn law_saga_terminates(nodes: Seq<SelectedNode>, rounds: Seq<Seq<int>>)
    requires
        forall|r: int, k: int|
            0 <= r < rounds.len() && 0 <= k < rounds[r].len() ==> 0 <= #[trigger] rounds[r][k]
                < nodes.len(),
    ensures
        pending_rounds(nodes, rounds) <= stale_count(nodes),
        stale_count(nodes) <= nodes.len(),
    decreases rounds.len(),
{
    lemma_stale_count_at_most_len(nodes);
    if rounds.len() > 0 {
        let picked = rounds[0];
        let rest = rounds.drop_first();
        assert forall|r: int, k: int| 0 <= r < rest.len() && 0 <= k < rest[r].len() implies 0
            <= #[trigger] rest[r][k] < nodes.len() by {
            assert(rest[r] == rounds[r + 1]);
        }
        let sel = selection(nodes, picked);
        if stale_nodes(sel).len() > 0 {
            let next = recompute_selected(nodes, picked);
            lemma_pending_names_a_stale_node(sel);
            let k = choose|k: int| 0 <= k < sel.len() && is_stale(#[trigger] sel[k]);
            let j0 = picked[k];
            assert(0 <= picked[k] < nodes.len());
            assert(picked.contains(j0));
            assert forall|j: int| 0 <= j < nodes.len() && is_stale(#[trigger] next[j]) implies is_stale(
                nodes[j],
            ) by {}
            lemma_stale_count_shrinks(nodes, next, j0);
            law_saga_terminates(next, rest);
        } else {
            law_saga_terminates(nodes, rest);
        }
    }
}

/// A plan is served exactly when every selected node's child count equals
/// the count its summary folded; otherwise the answer names, in selection
/// order, exactly the selected nodes whose two counts differ.
pub proof fn law_pending_names_exactly_the_changed_nodes(selected: Seq<SelectedNode>)
    ensures
        stale_nodes(selected) == selected.filter(
            |s: SelectedNode| s.current_children != s.last_summary_children,
        ).map_values(|s: SelectedNode| s.node),
        stale_nodes(selected).len() == 0 <==> forall|i: int|
            0 <= i < selected.len() ==> (#[trigger] selected[i]).current_children
                == selected[i].last_summary_children,
    decreases selected.len(),
{
    reveal(Seq::filter);
    let pred = |s: SelectedNode| s.current_children != s.last_summary_children;
    if selected.len() > 0 {
        let front = selected.drop_last();
        law_pending_names_exactly_the_changed_nodes(front);
        let ff = front.filter(pred);
        assert(selected.filter(pred) == (if pred(selected.last()) {
            ff.push(selected.last())
        } else {
            ff
        }));
        assert(ff.push(selected.last()).map_values(|s: SelectedNode| s.node) =~= ff.map_values(
            |s: SelectedNode| s.node,
        ).push(selected.last().node));
        if stale_nodes(selected).len() == 0 {
            assert forall|i: int| 0 <= i < selected.len() implies (#[trigger] selected[i]).current_children
                == selected[i].last_summary_children by {
                if i < front.len() {
                    assert(front[i] == selected[i]);
                }
            }
        }
        if forall|i: int|
            0 <= i < selected.len() ==> (#[trigger] selected[i]).current_children
                == selected[i].last_summary_children {
            assert forall|i: int| 0 <= i < front.len() implies (#[trigger] front[i]).current_children
                == front[i].last_summary_children by {
                assert(front[i] == selected[i]);
            }
            assert(selected[selected.len() - 1] == selected.last());
        }
    }
}

/// No message is loaded twice: when `n` raw messages are kept, every chosen
/// summary ends before the oldest of them, `recent[n - 1]`; when none is kept,
/// the summaries may cover any history.
pub proof fn law_summaries_end_before_oldest_raw(
    budget: u32,
    recent: Seq<MessageCost>,
    summaries: Seq<SummaryCandidate>,
)
    ensures
        forall|a: int|
            0 <= a < chosen_summaries(budget as int, recent, summaries).len() && 0 < raw_kept(
                budget as int,
                recent,
            ) <= recent.len() ==> (#[trigger] chosen_summaries(budget as int, recent, summaries)[a]).to_id
                < recent[raw_kept(budget as int, recent) - 1].id,
        raw_kept(budget as int, recent) <= recent.len(),
{
    law_summaries_cover_older_history_once(budget, recent, summaries);
    lemma_raw_kept_fits(budget as int, recent);
}

proof fn lemma_insert_keeps(s: Seq<SummaryCandidate>, c: SummaryCandidate, x: SummaryCandidate)
    ensures
        (x == c || s.contains(x)) ==> insert_by_preference(s, c).contains(x),
    decreases s.len(),
{
    let r = insert_by_preference(s, c);
    if s.len() == 0 {
        if x == c {
            assert(r[0] == c);
        }
    } else if preferred(c, s.last()) {
        let r0 = insert_by_preference(s.drop_last(), c);
        lemma_insert_keeps(s.drop_last(), c, x);
        if x == c || s.drop_last().contains(x) {
            let w = choose|w: int| 0 <= w < r0.len() && r0[w] == x;
            assert(r[w] == x);
        } else if s.contains(x) {
            let v = choose|v: int| 0 <= v < s.len() && s[v] == x;
            if v < s.len() - 1 {
                assert(s.drop_last()[v] == x);
            }
            assert(r[r.len() - 1] == s.last());
        }
    } else {
        if x == c {
            assert(r[r.len() - 1] == c);
        } else if s.contains(x) {
            let v = choose|v: int| 0 <= v < s.len() && s[v] == x;
            assert(r[v] == x);
        }
    }
}

proof fn lemma_order_keeps(s: Seq<SummaryCandidate>, x: SummaryCandidate)
    ensures
        s.contains(x) ==> order_by_preference(s).contains(x),
    decreases s.len(),
{
    if s.len() > 0 && s.contains(x) {
        lemma_order_keeps(s.drop_last(), x);
        let v = choose|v: int| 0 <= v < s.len() && s[v] == x;
        if v < s.len() - 1 {
            assert(s.drop_last()[v] == x);
        }
        lemma_insert_keeps(order_by_preference(s.drop_last()), s.last(), x);
    }
}

proof fn lemma_older_than_keeps(s: Seq<SummaryCandidate>, cutoff: int, x: SummaryCandidate)
    ensures
        s.contains(x) && x.to_id < cutoff ==> older_than(s, cutoff).contains(x),
    decreases s.len(),
{
    if s.len() > 0 && s.contains(x) && x.to_id < cutoff {
        let r0 = older_than(s.drop_last(), cutoff);
        lemma_older_than_keeps(s.drop_last(), cutoff, x);
        let v = choose|v: int| 0 <= v < s.len() && s[v] == x;
        if v < s.len() - 1 {
            assert(s.drop_last()[v] == x);
            let w = choose|w: int| 0 <= w < r0.len() && r0[w] == x;
            assert(older_than(s, cutoff)[w] == x);
        } else {
            assert(older_than(s, cutoff) == r0.push(x));
            assert(older_than(s, cutoff)[r0.len() as int] == x);
        }
    }
}

proof fn lemma_summary_tokens_nonneg(cands: Seq<SummaryCandidate>)
    ensures
        summary_tokens(cands) >= 0,
    decreases cands.len(),
{
    if cands.len() > 0 {
        lemma_summary_tokens_nonneg(cands.drop_first());
    }
}

proof fn lemma_pick_maximal(
    left: int,
    cands: Seq<SummaryCandidate>,
    covered: Seq<(i64, i64)>,
    x: SummaryCandidate,
)
    requires
        left >= 0,
        cands.contains(x),
    ensures
        pick(left, cands, covered).contains(x) || overlaps_any(covered, (x.from_id, x.to_id))
            || (exists|a: int|
            0 <= a < pick(left, cands, covered).len() && ranges_overlap(
                (
                    (#[trigger] pick(left, cands, covered)[a]).from_id,
                    pick(left, cands, covered)[a].to_id,
                ),
                (x.from_id, x.to_id),
            )) || x.tokens > left - summary_tokens(pick(left, cands, covered)),
    decreases cands.len(),
{
    let p = pick(left, cands, covered);
    let c = cands[0];
    let range = (c.from_id, c.to_id);
    let rest = cands.drop_first();
    let xr = (x.from_id, x.to_id);
    lemma_pick_props(left, cands, covered);
    if x == c {
        if !overlaps_any(covered, range) && c.tokens <= left {
            assert(p[0] == c);
        } else {
            lemma_pick_props(left, rest, covered);
            lemma_summary_tokens_nonneg(p);
        }
    } else {
        let v = choose|v: int| 0 <= v < cands.len() && cands[v] == x;
        assert(rest[v - 1] == x);
        if !overlaps_any(covered, range) && c.tokens <= left {
            let cov2 = covered.push(range);
            let q = pick(left - c.tokens, rest, cov2);
            lemma_pick_maximal(left - c.tokens, rest, cov2, x);
            assert(p == seq![c] + q);
            assert(summary_tokens(p) == c.tokens + summary_tokens(q)) by {
                assert((seq![c] + q).drop_first() =~= q);
            }
            if q.contains(x) {
                let w = choose|w: int| 0 <= w < q.len() && q[w] == x;
                assert(p[w + 1] == x);
            } else if overlaps_any(cov2, xr) {
                let k = choose|k: int| 0 <= k < cov2.len() && ranges_overlap(cov2[k], xr);
                if k == covered.len() {
                    assert(p[0] == c);
                    assert(ranges_overlap((p[0].from_id, p[0].to_id), xr));
                } else {
                    assert(cov2[k] == covered[k]);
                }
            } else if exists|a: int|
                0 <= a < q.len() && ranges_overlap(((#[trigger] q[a]).from_id, q[a].to_id), xr) {
                let a = choose|a: int|
                    0 <= a < q.len() && ranges_overlap(((#[trigger] q[a]).from_id, q[a].to_id), xr);
                assert(p[a + 1] == q[a]);
            }
        } else {
            lemma_pick_maximal(left, rest, covered, x);
            assert(p == pick(left, rest, covered));
        }
    }
}

/// The greedy choice leaves no room: every candidate summary that covers only
/// history older than the oldest kept raw message (any history, when none is
/// kept) and was not chosen either overlaps a chosen summary or costs more
/// than the budget has left after the raw messages and the chosen summaries.
pub proof fn law_no_eligible_summary_left_out(
    budget: u32,
    recent: Seq<MessageCost>,
    summaries: Seq<SummaryCandidate>,
    x: SummaryCandidate,
)
    requires
        summaries.contains(x),
        raw_kept(budget as int, recent) > 0 ==> x.to_id < recent[raw_kept(budget as int, recent)
            - 1].id,
        raw_kept(budget as int, recent) == 0 ==> x.to_id < i64::MAX,
    ensures
        chosen_summaries(budget as int, recent, summaries).contains(x) || (exists|a: int|
            0 <= a < chosen_summaries(budget as int, recent, summaries).len() && ranges_overlap(
                (
                    (#[trigger] chosen_summaries(budget as int, recent, summaries)[a]).from_id,
                    chosen_summaries(budget as int, recent, summaries)[a].to_id,
                ),
                (x.from_id, x.to_id),
            )) || x.tokens > budget - message_tokens(
            recent.take(raw_kept(budget as int, recent) as int),
        ) - summary_tokens(chosen_summaries(budget as int, recent, summaries)),
{
    lemma_raw_kept_fits(budget as int, recent);
    let n = raw_kept(budget as int, recent);
    let left = budget - message_tokens(recent.take(n as int));
    let cutoff = cutoff_of(recent, budget as int);
    let elig = older_than(summaries, cutoff);
    lemma_older_than_keeps(summaries, cutoff, x);
    lemma_order_keeps(elig, x);
    lemma_pick_maximal(left, order_by_preference(elig), Seq::empty(), x);
}

/// No candidate comes after one it is strictly preferred to.
pub open spec fn by_preference(s: Seq<SummaryCandidate>) -> bool {
    forall|a: int, b: int|
        0 <= a < b < s.len() ==> !(#[trigger] s[b].level > #[trigger] s[a].level || (s[b].level
            == s[a].level && s[b].from_id < s[a].from_id))
}

proof fn lemma_insert_sorted(s: Seq<SummaryCandidate>, c: SummaryCandidate)
    requires
        by_preference(s),
    ensures
        by_preference(insert_by_preference(s, c)),
    decreases s.len(),
{
    let r = insert_by_preference(s, c);
    if s.len() == 0 {
    } else if preferred(c, s.last()) {
        let front = s.drop_last();
        let r0 = insert_by_preference(front, c);
        assert(by_preference(front)) by {
            assert forall|a: int, b: int| 0 <= a < b < front.len() implies !(#[trigger] front[b].level
                > #[trigger] front[a].level || (front[b].level == front[a].level && front[b].from_id
                < front[a].from_id)) by {
                assert(front[a] == s[a] && front[b] == s[b]);
            }
        }
        lemma_insert_sorted(front, c);
        assert forall|a: int| 0 <= a < r0.len() implies !(s.last().level > (#[trigger] r0[a]).level
            || (s.last().level == r0[a].level && s.last().from_id < r0[a].from_id)) by {
            assert(r0.contains(r0[a]));
            lemma_insert_contains(front, c, r0[a]);
            if r0[a] != c {
                let v = choose|v: int| 0 <= v < front.len() && front[v] == r0[a];
                assert(s[v] == r0[a]);
                assert(s[s.len() - 1] == s.last());
            }
        }
        assert forall|a: int, b: int| 0 <= a < b < r.len() implies !(#[trigger] r[b].level
            > #[trigger] r[a].level || (r[b].level == r[a].level && r[b].from_id < r[a].from_id)) by {
            assert(r == r0.push(s.last()));
            if b == r0.len() {
                assert(r[b] == s.last());
                assert(r[a] == r0[a]);
            } else {
                assert(r[a] == r0[a] && r[b] == r0[b]);
            }
        }
    } else {
        assert forall|a: int, b: int| 0 <= a < b < r.len() implies !(#[trigger] r[b].level
            > #[trigger] r[a].level || (r[b].level == r[a].level && r[b].from_id < r[a].from_id)) by {
            assert(r == s.push(c));
            if b == s.len() {
                assert(r[b] == c && r[a] == s[a]);
                if a < s.len() - 1 {
                    assert(s[s.len() - 1] == s.last());
                }
            } else {
                assert(r[a] == s[a] && r[b] == s[b]);
            }
        }
    }
}

proof fn lemma_order_sorted(s: Seq<SummaryCandidate>)
    ensures
        by_preference(order_by_preference(s)),
    decreases s.len(),
{
    if s.len() > 0 {
        lemma_order_sorted(s.drop_last());
        lemma_insert_sorted(order_by_preference(s.drop_last()), s.last());
    }
}

proof fn lemma_pick_sorted(left: int, cands: Seq<SummaryCandidate>, covered: Seq<(i64, i64)>)
    requires
        by_preference(cands),
    ensures
        by_preference(pick(left, cands, covered)),
    decreases cands.len(),
{
    if cands.len() > 0 {
        let c = cands[0];
        let range = (c.from_id, c.to_id);
        let rest = cands.drop_first();
        assert(by_preference(rest)) by {
            assert forall|a: int, b: int| 0 <= a < b < rest.len() implies !(#[trigger] rest[b].level
                > #[trigger] rest[a].level || (rest[b].level == rest[a].level && rest[b].from_id
                < rest[a].from_id)) by {
                assert(rest[a] == cands[a + 1] && rest[b] == cands[b + 1]);
            }
        }
        if !overlaps_any(covered, range) && c.tokens <= left {
            let cov2 = covered.push(range);
            let q = pick(left - c.tokens, rest, cov2);
            lemma_pick_sorted(left - c.tokens, rest, cov2);
            lemma_pick_props(left - c.tokens, rest, cov2);
            let p = pick(left, cands, covered);
            assert(p == seq![c] + q);
            assert forall|a: int, b: int| 0 <= a < b < p.len() implies !(#[trigger] p[b].level
                > #[trigger] p[a].level || (p[b].level == p[a].level && p[b].from_id < p[a].from_id)) by {
                assert(p[b] == q[b - 1]);
                if a == 0 {
                    assert(p[a] == c);
                    assert(rest.contains(q[b - 1]));
                    let w = choose|w: int| 0 <= w < rest.len() && rest[w] == q[b - 1];
                    assert(cands[w + 1] == q[b - 1] && cands[0] == c);
                } else {
                    assert(p[a] == q[a - 1]);
                }
            }
        } else {
            lemma_pick_sorted(left, rest, covered);
        }
    }
}

/// The chosen summaries come most-compressed first: no chosen summary comes
/// after one of a lower level, and among summaries of one level the older span
/// comes first.
pub proof fn law_summaries_most_compressed_first(
    budget: u32,
    recent: Seq<MessageCost>,
    summaries: Seq<SummaryCandidate>,
)
    ensures
        forall|a: int, b: int|
            0 <= a < b < chosen_summaries(budget as int, recent, summaries).len() ==> (
            #[trigger] chosen_summaries(budget as int, recent, summaries)[a]).level > (
            #[trigger] chosen_summaries(budget as int, recent, summaries)[b]).level || (
            chosen_summaries(budget as int, recent, summaries)[a].level == chosen_summaries(
                budget as int,
                recent,
                summaries,
            )[b].level && chosen_summaries(budget as int, recent, summaries)[a].from_id
                <= chosen_summaries(budget as int, recent, summaries)[b].from_id),
{
    let n = raw_kept(budget as int, recent);
    let left = budget - message_tokens(recent.take(n as int));
    let ord = order_by_preference(older_than(summaries, cutoff_of(recent, budget as int)));
    lemma_order_sorted(older_than(summaries, cutoff_of(recent, budget as int)));
    lemma_pick_sorted(left, ord, Seq::empty());
    let p = chosen_summaries(budget as int, recent, summaries);
    assert forall|a: int, b: int| 0 <= a < b < p.len() implies (#[trigger] p[a]).level > (
    #[trigger] p[b]).level || (p[a].level == p[b].level && p[a].from_id <= p[b].from_id) by {
        assert(!(p[b].level > p[a].level || (p[b].level == p[a].level && p[b].from_id
            < p[a].from_id)));
    }
}

} // verus!
