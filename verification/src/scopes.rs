//! Scope-based permission system for vault secrets.
//!
//! Scopes are hierarchical, dot-separated identifiers (e.g.
//! `@isla.memory_repository.object_storage`), and scope ranges are patterns
//! that match one or more scopes using wildcards:
//! - a literal segment matches exactly that segment;
//! - `*` matches exactly one segment;
//! - `**` matches zero or more segments;
//! - `+` matches one or more segments.
//!
//! System scopes (those whose first segment is `@isla`) are reserved for
//! internal services.
use compact_str::CompactString;
use smallvec::SmallVec;
use vstd::prelude::*;
#[allow(unused_imports)]
use vstd::string::*;

verus! {

// ─── Outside types ──────────────────────────────────────────────────────────

#[verifier::external_type_specification]
#[verifier::external_body]
pub struct ExCompactString(CompactString);

/// The sections of a [`ScopeRange`], kept in a `SmallVec` with room for three
/// sections inline.
#[verifier::external_body]
#[derive(Debug, PartialEq, Eq)]
pub struct Sections {
    inner: SmallVec<[ScopeRangeSection; 3]>,
}

/// The matcher's table of flags, kept in a `SmallVec` with room for eight
/// flags inline.
#[verifier::external_body]
pub struct FlagTable {
    inner: SmallVec<[bool; 8]>,
}

/// The characters held by a `CompactString`.
pub uninterp spec fn compact_chars(s: CompactString) -> Seq<char>;

/// The sections held by a pattern's section vector, in order.
pub uninterp spec fn sections_of(v: Sections) -> Seq<ScopeRangeSection>;

/// The flags held by the matcher's table, in order.
pub uninterp spec fn flags_of(v: FlagTable) -> Seq<bool>;

/// `CompactString::from(&str)`: the new string holds exactly the characters of
/// `s`. (The crate panics only when memory cannot be allocated.)
#[verifier::external_body]
fn compact_from_str(s: &str) -> (r: CompactString)
    ensures
        compact_chars(r) == s@,
{
    CompactString::from(s)
}

/// `<CompactString as PartialEq<&str>>::eq`: compares the held characters
/// with those of `s` (the crate compares `as_str()` with `s`).
#[verifier::external_body]
fn compact_eq_str(l: &CompactString, s: &str) -> (r: bool)
    ensures
        r == (compact_chars(*l) == s@),
{
    *l == s
}

/// `<CompactString as Clone>::clone`: a copy holding the same characters.
pub assume_specification[ <CompactString as Clone>::clone ](s: &CompactString) -> (r: CompactString)
    ensures
        compact_chars(r) == compact_chars(*s),
;

/// Two sections of the same kind; literals hold the same characters.
pub open spec fn same_section(a: ScopeRangeSection, b: ScopeRangeSection) -> bool {
    match (a, b) {
        (ScopeRangeSection::Lit(x), ScopeRangeSection::Lit(y)) => compact_chars(x) == compact_chars(y),
        (ScopeRangeSection::AnyOne, ScopeRangeSection::AnyOne) => true,
        (ScopeRangeSection::Wildcard, ScopeRangeSection::Wildcard) => true,
        (ScopeRangeSection::OneOrMore, ScopeRangeSection::OneOrMore) => true,
        _ => false,
    }
}

impl Clone for Sections {
    /// `<SmallVec<_> as Clone>::clone`: clones every section in order (the
    /// crate builds the copy from `as_slice()`, cloning each item).
    #[verifier::external_body]
    fn clone(&self) -> (r: Self)
        ensures
            sections_of(r).len() == sections_of(*self).len(),
            forall|k: int|
                0 <= k < sections_of(r).len() ==> same_section(
                    #[trigger] sections_of(r)[k],
                    sections_of(*self)[k],
                ),
    {
        Sections { inner: self.inner.clone() }
    }
}

/// `SmallVec::from_vec`: the vector's items, in order. The crate moves the
/// items inline when the vector's capacity fits the inline storage and
/// otherwise takes over the vector's buffer; it allocates nothing.
#[verifier::external_body]
fn sections_from_vec(v: Vec<ScopeRangeSection>) -> (r: Sections)
    ensures
        sections_of(r) == v@,
{
    Sections { inner: SmallVec::from_vec(v) }
}

/// `SmallVec::len`: the number of items held.
#[verifier::external_body]
fn sections_len(v: &Sections) -> (r: usize)
    ensures
        r == sections_of(*v).len(),
{
    v.inner.len()
}

/// `SmallVec` indexing (`v[i]`): the item at position `i`.
#[verifier::external_body]
fn sections_get(v: &Sections, i: usize) -> (r: &ScopeRangeSection)
    requires
        i < sections_of(*v).len(),
    ensures
        *r == sections_of(*v)[i as int],
{
    &v.inner[i]
}

/// `SmallVec::from_elem`: `n` copies of `b`. (Above the inline capacity the
/// crate builds a `Vec`, which panics when `n` exceeds `isize::MAX` bytes.)
#[verifier::external_body]
fn flags_from_elem(b: bool, n: usize) -> (r: FlagTable)
    requires
        n <= isize::MAX,
    ensures
        flags_of(r) == Seq::new(n as nat, |_i: int| b),
{
    FlagTable { inner: SmallVec::from_elem(b, n) }
}

/// `SmallVec` indexing (`v[i]`): the flag at position `i`.
#[verifier::external_body]
fn flags_get(v: &FlagTable, i: usize) -> (r: bool)
    requires
        i < flags_of(*v).len(),
    ensures
        r == flags_of(*v)[i as int],
{
    v.inner[i]
}

/// `SmallVec` index assignment (`v[i] = b`): replaces the flag at `i` only.
#[verifier::external_body]
fn flags_set(v: &mut FlagTable, i: usize, b: bool)
    requires
        i < flags_of(*old(v)).len(),
    ensures
        flags_of(*final(v)) == flags_of(*old(v)).update(i as int, b),
{
    v.inner[i] = b;
}

// ─── Types ──────────────────────────────────────────────────────────────────

/// A single segment within a [`ScopeRange`] pattern.
#[derive(Debug, Clone, PartialEq, Eq)]
pub enum ScopeRangeSection {
    /// A literal string that must match exactly.
    Lit(CompactString),
    /// `*` matches exactly one segment (any value).
    AnyOne,
    /// `**` matches zero or more segments.
    Wildcard,
    /// `+` matches one or more segments.
    OneOrMore,
}

/// A pattern that matches zero or more [`Scope`]s.
#[derive(Debug, Clone, PartialEq, Eq)]
pub struct ScopeRange(pub Sections);

/// A concrete permission scope represented as a static slice of segments.
#[derive(Debug, Clone, Copy, PartialEq, Eq)]
pub struct Scope(pub &'static [&'static str]);

/// Error returned when parsing a [`ScopeRange`] from a string fails.
#[derive(Debug, Clone, PartialEq, Eq)]
pub enum ScopeParseError {
    /// A segment in the pattern was empty (e.g. `foo..bar` has an empty
    /// segment at index 1).
    Empty(usize),
}

// ─── Specification ──────────────────────────────────────────────────────────

impl ScopeRange {
    /// The sections of the pattern.
    pub open spec fn sections(self) -> Seq<ScopeRangeSection> {
        sections_of(self.0)
    }
}

impl Scope {
    /// The segments of the scope, each as its characters.
    pub open spec fn segments(self) -> Seq<Seq<char>> {
        self.0@.map_values(|s: &str| s@)
    }
}

/// Whether the first `i` sections of `pat` match exactly the first `j`
/// segments of `segs` (glob semantics read from the last section backwards).
pub open spec fn prefix_matches(
    pat: Seq<ScopeRangeSection>,
    i: nat,
    segs: Seq<Seq<char>>,
    j: nat,
) -> bool
    decreases i, j,
{
    if i == 0 {
        j == 0
    } else {
        match pat[i - 1] {
            ScopeRangeSection::Lit(l) => j > 0 && segs[j - 1] == compact_chars(l)
                && prefix_matches(pat, (i - 1) as nat, segs, (j - 1) as nat),
            ScopeRangeSection::AnyOne => j > 0 && prefix_matches(
                pat,
                (i - 1) as nat,
                segs,
                (j - 1) as nat,
            ),
            ScopeRangeSection::Wildcard => prefix_matches(pat, (i - 1) as nat, segs, j) || (j > 0
                && prefix_matches(pat, i, segs, (j - 1) as nat)),
            ScopeRangeSection::OneOrMore => j > 0 && (prefix_matches(
                pat,
                (i - 1) as nat,
                segs,
                (j - 1) as nat,
            ) || prefix_matches(pat, i, segs, (j - 1) as nat)),
        }
    }
}

/// Whether the whole pattern `pat` matches the whole segment list `segs`.
pub open spec fn pattern_matches(pat: Seq<ScopeRangeSection>, segs: Seq<Seq<char>>) -> bool {
    prefix_matches(pat, pat.len(), segs, segs.len())
}

/// The characters of `@isla`, the first segment of every system scope.
pub open spec fn system_prefix() -> Seq<char> {
    seq!['@', 'i', 's', 'l', 'a']
}

/// Splitting `s` on every `.`: the pieces between consecutive dots, in order
/// (one piece more than there are dots).
pub open spec fn split_dots(s: Seq<char>) -> Seq<Seq<char>>
    decreases s.len(),
{
    if s.len() == 0 {
        seq![Seq::<char>::empty()]
    } else {
        let p = split_dots(s.drop_last());
        if s.last() == '.' {
            p.push(Seq::<char>::empty())
        } else {
            p.update(p.len() - 1, p.last().push(s.last()))
        }
    }
}

/// Index of the first empty piece, if any.
pub open spec fn first_empty(pieces: Seq<Seq<char>>) -> Option<nat> {
    if exists|k: int| 0 <= k < pieces.len() && pieces[k].len() == 0 {
        Some(
            (choose|k: int|
                0 <= k < pieces.len() && pieces[k].len() == 0 && forall|m: int|
                    0 <= m < k ==> pieces[m].len() != 0) as nat,
        )
    } else {
        None
    }
}

/// Whether `sec` is the section that the piece `p` of a pattern denotes.
pub open spec fn denotes(sec: ScopeRangeSection, p: Seq<char>) -> bool {
    let wild = seq!['*', '*'];
    let one = seq!['*'];
    let plus = seq!['+'];
    match sec {
        ScopeRangeSection::Wildcard => p == wild,
        ScopeRangeSection::AnyOne => p == one,
        ScopeRangeSection::OneOrMore => p == plus,
        ScopeRangeSection::Lit(l) => compact_chars(l) == p && p != wild && p != one && p != plus,
    }
}

/// Joining `parts` with `.` between consecutive parts.
pub open spec fn join_dots(parts: Seq<Seq<char>>) -> Seq<char>
    decreases parts.len(),
{
    if parts.len() == 0 {
        Seq::<char>::empty()
    } else if parts.len() == 1 {
        parts[0]
    } else {
        join_dots(parts.drop_last()) + seq!['.'] + parts.last()
    }
}

// ─── Lemmas ─────────────────────────────────────────────────────────────────

/// A non-empty pattern of only `**` sections matches every segment list.
pub proof fn lemma_wildcards_match_everything(
    pat: Seq<ScopeRangeSection>,
    i: nat,
    segs: Seq<Seq<char>>,
    j: nat,
)
    requires
        i <= pat.len(),
        i > 0 || j == 0,
        forall|k: int| 0 <= k < i ==> pat[k] == ScopeRangeSection::Wildcard,
    ensures
        prefix_matches(pat, i, segs, j),
    decreases i, j,
{
    if i > 0 {
        assert(pat[i - 1] == ScopeRangeSection::Wildcard);
        assert(prefix_matches(pat, i, segs, j) == (prefix_matches(pat, (i - 1) as nat, segs, j)
            || (j > 0 && prefix_matches(pat, i, segs, (j - 1) as nat))));
        if j > 0 {
            lemma_wildcards_match_everything(pat, i, segs, (j - 1) as nat);
        } else if i > 1 {
            lemma_wildcards_match_everything(pat, (i - 1) as nat, segs, j);
        }
    }
}

/// A trailing `**` extends any match of the sections before it: the prefix
/// ending in `**` matches `j` segments exactly when the shorter prefix matches
/// some `k <= j` of them.
proof fn lemma_trailing_wildcard(pat: Seq<ScopeRangeSection>, i: nat, segs: Seq<Seq<char>>, j: nat)
    requires
        0 < i <= pat.len(),
        pat[i - 1] == ScopeRangeSection::Wildcard,
    ensures
        prefix_matches(pat, i, segs, j) <==> exists|k: nat|
            k <= j && #[trigger] prefix_matches(pat, (i - 1) as nat, segs, k),
    decreases j,
{
    if j > 0 {
        lemma_trailing_wildcard(pat, i, segs, (j - 1) as nat);
        if prefix_matches(pat, i, segs, j) {
            if prefix_matches(pat, (i - 1) as nat, segs, j) {
            } else {
                let k = choose|k: nat|
                    k <= (j - 1) as nat && #[trigger] prefix_matches(pat, (i - 1) as nat, segs, k);
                assert(k <= j);
            }
        }
        if exists|k: nat| k <= j && #[trigger] prefix_matches(pat, (i - 1) as nat, segs, k) {
            let k = choose|k: nat| k <= j && #[trigger] prefix_matches(pat, (i - 1) as nat, segs, k);
            if k < j {
                assert(k <= (j - 1) as nat);
            }
        }
    } else {
        if prefix_matches(pat, i, segs, j) {
            assert(prefix_matches(pat, (i - 1) as nat, segs, 0));
        }
    }
}

/// The system range `@isla.**` matches exactly the scopes whose first segment
/// is `@isla`.
pub proof fn lemma_system_range(pat: Seq<ScopeRangeSection>, segs: Seq<Seq<char>>)
    requires
        pat.len() == 2,
        pat[0] matches ScopeRangeSection::Lit(l) && compact_chars(l) == system_prefix(),
        pat[1] == ScopeRangeSection::Wildcard,
    ensures
        pattern_matches(pat, segs) <==> (segs.len() >= 1 && segs[0] == system_prefix()),
{
    lemma_trailing_wildcard(pat, 2, segs, segs.len());
    if segs.len() >= 1 && segs[0] == system_prefix() {
        assert(prefix_matches(pat, 0, segs, 0));
        assert(prefix_matches(pat, 1, segs, 1));
    }
    if pattern_matches(pat, segs) {
        let k = choose|k: nat| k <= segs.len() && #[trigger] prefix_matches(pat, 1, segs, k);
        assert(prefix_matches(pat, 1, segs, k));
        assert(k > 0 && prefix_matches(pat, 0, segs, (k - 1) as nat));
        assert(k == 1);
    }
}

/// The empty pattern matches only the empty scope.
pub proof fn law_empty_pattern_matches_only_empty(segs: Seq<Seq<char>>)
    ensures
        pattern_matches(Seq::<ScopeRangeSection>::empty(), segs) <==> segs.len() == 0,
{
}

/// A literal section matches exactly the one segment equal to it.
pub proof fn law_literal_matches_itself_only(pat: Seq<ScopeRangeSection>, segs: Seq<Seq<char>>)
    requires
        pat.len() == 1,
        pat[0] is Lit,
    ensures
        pattern_matches(pat, segs) <==> (segs.len() == 1 && segs[0] == compact_chars(
            pat[0]->Lit_0,
        )),
{
    if segs.len() >= 1 {
        assert(prefix_matches(pat, 0, segs, (segs.len() - 1) as nat) <==> segs.len() == 1);
    }
}

/// `*` matches exactly one segment, whatever it is.
pub proof fn law_any_one_matches_one_segment(pat: Seq<ScopeRangeSection>, segs: Seq<Seq<char>>)
    requires
        pat == seq![ScopeRangeSection::AnyOne],
    ensures
        pattern_matches(pat, segs) <==> segs.len() == 1,
{
    if segs.len() >= 1 {
        assert(prefix_matches(pat, 0, segs, (segs.len() - 1) as nat) <==> segs.len() == 1);
    }
}

proof fn lemma_one_or_more(pat: Seq<ScopeRangeSection>, segs: Seq<Seq<char>>, j: nat)
    requires
        pat == seq![ScopeRangeSection::OneOrMore],
    ensures
        prefix_matches(pat, 1, segs, j) <==> j >= 1,
    decreases j,
{
    if j >= 1 {
        lemma_one_or_more(pat, segs, (j - 1) as nat);
        assert(prefix_matches(pat, 0, segs, (j - 1) as nat) <==> j == 1);
    }
}

/// `+` matches one or more segments, whatever they are.
pub proof fn law_one_or_more_matches_nonempty(pat: Seq<ScopeRangeSection>, segs: Seq<Seq<char>>)
    requires
        pat == seq![ScopeRangeSection::OneOrMore],
    ensures
        pattern_matches(pat, segs) <==> segs.len() >= 1,
{
    lemma_one_or_more(pat, segs, segs.len());
}

/// `**` matches every scope, the empty one included.
pub proof fn law_wildcard_matches_everything(pat: Seq<ScopeRangeSection>, segs: Seq<Seq<char>>)
    requires
        pat == seq![ScopeRangeSection::Wildcard],
    ensures
        pattern_matches(pat, segs),
{
    lemma_wildcards_match_everything(pat, 1, segs, segs.len());
}

/// Segments that display and parse back unchanged: at least one, none empty,
/// none holding a dot.
pub open spec fn plain_segments(segs: Seq<Seq<char>>) -> bool {
    segs.len() >= 1 && forall|k: int|
        0 <= k < segs.len() ==> (#[trigger] segs[k]).len() > 0 && !segs[k].contains('.')
}

proof fn lemma_split_append(x: Seq<char>, y: Seq<char>)
    requires
        !y.contains('.'),
    ensures
        split_dots(x + y) == split_dots(x).update(
            split_dots(x).len() - 1,
            split_dots(x).last() + y,
        ),
    decreases y.len(),
{
    lemma_split_nonempty(x);
    if y.len() == 0 {
        assert(x + y =~= x);
        assert(split_dots(x).last() + y =~= split_dots(x).last());
        assert(split_dots(x).update(split_dots(x).len() - 1, split_dots(x).last()) =~= split_dots(x));
    } else {
        let y0 = y.drop_last();
        let c = y.last();
        assert(!y0.contains('.')) by {
            if y0.contains('.') {
                let i = choose|i: int| 0 <= i < y0.len() && y0[i] == '.';
                assert(y[i] == '.');
            }
        }
        assert(c != '.') by {
            assert(y[y.len() - 1] == c);
        }
        lemma_split_append(x, y0);
        lemma_split_nonempty(x + y0);
        assert((x + y).drop_last() =~= x + y0);
        assert((x + y).last() == c);
        let p = split_dots(x);
        let q = split_dots(x + y0);
        assert(q.len() == p.len());
        assert(q.last() == p.last() + y0);
        assert(split_dots(x + y) == q.update(q.len() - 1, q.last().push(c)));
        assert((p.last() + y0).push(c) =~= p.last() + y);
        assert(split_dots(x + y) =~= p.update(p.len() - 1, p.last() + y));
    }
}

proof fn lemma_split_nonempty(x: Seq<char>)
    ensures
        split_dots(x).len() >= 1,
    decreases x.len(),
{
    if x.len() > 0 {
        lemma_split_nonempty(x.drop_last());
    }
}

proof fn lemma_split_join(segs: Seq<Seq<char>>)
    requires
        plain_segments(segs),
    ensures
        split_dots(join_dots(segs)) == segs,
    decreases segs.len(),
{
    if segs.len() == 1 {
        assert(segs[0].len() > 0);
        lemma_split_append(Seq::<char>::empty(), segs[0]);
        assert(Seq::<char>::empty() + segs[0] =~= segs[0]);
        assert(split_dots(Seq::<char>::empty()) == seq![Seq::<char>::empty()]);
        assert(split_dots(segs[0]) =~= segs);
    } else {
        let front = segs.drop_last();
        assert(plain_segments(front)) by {
            assert forall|k: int| 0 <= k < front.len() implies (#[trigger] front[k]).len() > 0
                && !front[k].contains('.') by {
                assert(front[k] == segs[k]);
            }
        }
        lemma_split_join(front);
        let j = join_dots(front);
        let jd = j + seq!['.'];
        assert(jd.drop_last() =~= j);
        assert(jd.last() == '.');
        assert(split_dots(jd) == split_dots(j).push(Seq::<char>::empty()));
        assert(segs[segs.len() - 1].len() > 0);
        lemma_split_append(jd, segs.last());
        assert(join_dots(segs) == jd + segs.last());
        assert(split_dots(join_dots(segs)) =~= segs);
    }
}

proof fn lemma_denoting_pattern_matches(pat: Seq<ScopeRangeSection>, segs: Seq<Seq<char>>, k: nat)
    requires
        pat.len() == segs.len(),
        k <= pat.len(),
        forall|m: int| 0 <= m < pat.len() ==> denotes(#[trigger] pat[m], segs[m]),
    ensures
        prefix_matches(pat, k, segs, k),
    decreases k,
{
    if k > 0 {
        lemma_denoting_pattern_matches(pat, segs, (k - 1) as nat);
        assert(denotes(pat[k - 1], segs[k - 1]));
        if pat[k - 1] == ScopeRangeSection::Wildcard {
            assert(prefix_matches(pat, k, segs, (k - 1) as nat));
        }
    }
}

/// A scope's dotted text parses back to a range that matches the scope: for
/// segments that are not empty and hold no dot, parsing the text that
/// [`Scope::to_string`] writes succeeds, and any pattern it may return (one
/// section denoting each piece) matches those segments.
pub proof fn law_displayed_scope_parses_to_a_matching_range(
    segs: Seq<Seq<char>>,
    pat: Seq<ScopeRangeSection>,
)
    requires
        plain_segments(segs),
    ensures
        first_empty(split_dots(join_dots(segs))) is None,
        pat.len() == split_dots(join_dots(segs)).len() && (forall|k: int|
            0 <= k < pat.len() ==> denotes(#[trigger] pat[k], split_dots(join_dots(segs))[k]))
            ==> pattern_matches(pat, segs),
{
    lemma_split_join(segs);
    if pat.len() == split_dots(join_dots(segs)).len() && (forall|k: int|
        0 <= k < pat.len() ==> denotes(#[trigger] pat[k], split_dots(join_dots(segs))[k])) {
        lemma_denoting_pattern_matches(pat, segs, pat.len());
    }
}

/// Whether the first `i` sections match the first `j` segments depends only on
/// those sections and those segments.
proof fn lemma_prefix_frame(
    p1: Seq<ScopeRangeSection>,
    p2: Seq<ScopeRangeSection>,
    i: nat,
    s1: Seq<Seq<char>>,
    s2: Seq<Seq<char>>,
    j: nat,
)
    requires
        i <= p1.len(),
        i <= p2.len(),
        j <= s1.len(),
        j <= s2.len(),
        forall|k: int| 0 <= k < i ==> p1[k] == p2[k],
        forall|k: int| 0 <= k < j ==> s1[k] == s2[k],
    ensures
        prefix_matches(p1, i, s1, j) == prefix_matches(p2, i, s2, j),
    decreases i, j,
{
    if i > 0 {
        assert(p1[i - 1] == p2[i - 1]);
        if j > 0 {
            assert(s1[j - 1] == s2[j - 1]);
            lemma_prefix_frame(p1, p2, (i - 1) as nat, s1, s2, (j - 1) as nat);
            lemma_prefix_frame(p1, p2, i, s1, s2, (j - 1) as nat);
        }
        lemma_prefix_frame(p1, p2, (i - 1) as nat, s1, s2, j);
    }
}

/// A trailing `+` extends any match of the sections before it by at least one
/// segment.
proof fn lemma_trailing_plus(pat: Seq<ScopeRangeSection>, i: nat, segs: Seq<Seq<char>>, j: nat)
    requires
        0 < i <= pat.len(),
        pat[i - 1] == ScopeRangeSection::OneOrMore,
    ensures
        prefix_matches(pat, i, segs, j) <==> exists|k: nat|
            k < j && #[trigger] prefix_matches(pat, (i - 1) as nat, segs, k),
    decreases j,
{
    if j > 0 {
        lemma_trailing_plus(pat, i, segs, (j - 1) as nat);
        if prefix_matches(pat, i, segs, j) {
            if prefix_matches(pat, (i - 1) as nat, segs, (j - 1) as nat) {
                assert(((j - 1) as nat) < j);
            } else {
                let k = choose|k: nat|
                    k < (j - 1) as nat && #[trigger] prefix_matches(pat, (i - 1) as nat, segs, k);
                assert(k < j);
            }
        }
        if exists|k: nat| k < j && #[trigger] prefix_matches(pat, (i - 1) as nat, segs, k) {
            let k = choose|k: nat| k < j && #[trigger] prefix_matches(pat, (i - 1) as nat, segs, k);
            if k < j - 1 {
                assert(k < (j - 1) as nat);
            }
        }
    }
}

/// `*` at the end of a pattern consumes exactly one segment: the pattern
/// matches a scope exactly when the scope is not empty and the sections before
/// the `*` match the scope without its last segment.
pub proof fn law_any_one_takes_one_segment(p: Seq<ScopeRangeSection>, s: Seq<Seq<char>>)
    ensures
        pattern_matches(p.push(ScopeRangeSection::AnyOne), s) <==> (s.len() >= 1
            && pattern_matches(p, s.drop_last())),
{
    let pat = p.push(ScopeRangeSection::AnyOne);
    assert(pat[pat.len() - 1] == ScopeRangeSection::AnyOne);
    if s.len() >= 1 {
        lemma_prefix_frame(pat, p, p.len(), s, s.drop_last(), (s.len() - 1) as nat);
    }
}

/// A literal at the end of a pattern consumes exactly one segment, equal to
/// it: the pattern matches a scope exactly when the scope's last segment is
/// the literal and the sections before it match the rest.
pub proof fn law_literal_takes_its_segment(
    p: Seq<ScopeRangeSection>,
    l: CompactString,
    s: Seq<Seq<char>>,
)
    ensures
        pattern_matches(p.push(ScopeRangeSection::Lit(l)), s) <==> (s.len() >= 1 && s.last()
            == compact_chars(l) && pattern_matches(p, s.drop_last())),
{
    let pat = p.push(ScopeRangeSection::Lit(l));
    assert(pat[pat.len() - 1] == ScopeRangeSection::Lit(l));
    if s.len() >= 1 {
        lemma_prefix_frame(pat, p, p.len(), s, s.drop_last(), (s.len() - 1) as nat);
    }
}

/// `**` at the end of a pattern consumes any number of segments, none
/// included: the pattern matches a scope exactly when the sections before it
/// match some prefix of the scope.
pub proof fn law_wildcard_takes_any_tail(p: Seq<ScopeRangeSection>, s: Seq<Seq<char>>)
    ensures
        pattern_matches(p.push(ScopeRangeSection::Wildcard), s) <==> exists|k: int|
            0 <= k <= s.len() && #[trigger] pattern_matches(p, s.take(k)),
{
    let pat = p.push(ScopeRangeSection::Wildcard);
    assert(pat[pat.len() - 1] == ScopeRangeSection::Wildcard);
    lemma_trailing_wildcard(pat, pat.len(), s, s.len());
    assert forall|k: int| 0 <= k <= s.len() implies prefix_matches(pat, p.len(), s, k as nat)
        == #[trigger] pattern_matches(p, s.take(k)) by {
        lemma_prefix_frame(pat, p, p.len(), s, s.take(k), k as nat);
    }
    if pattern_matches(pat, s) {
        let k = choose|k: nat| k <= s.len() && #[trigger] prefix_matches(pat, p.len(), s, k);
        assert(pattern_matches(p, s.take(k as int)));
    }
    if exists|k: int| 0 <= k <= s.len() && #[trigger] pattern_matches(p, s.take(k)) {
        let k = choose|k: int| 0 <= k <= s.len() && #[trigger] pattern_matches(p, s.take(k));
        assert(prefix_matches(pat, p.len(), s, k as nat));
    }
}

/// `+` at the end of a pattern consumes one or more segments: the pattern
/// matches a scope exactly when the sections before it match a prefix of the
/// scope that leaves at least one segment.
pub proof fn law_one_or_more_takes_a_nonempty_tail(p: Seq<ScopeRangeSection>, s: Seq<Seq<char>>)
    ensures
        pattern_matches(p.push(ScopeRangeSection::OneOrMore), s) <==> exists|k: int|
            0 <= k < s.len() && #[trigger] pattern_matches(p, s.take(k)),
{
    let pat = p.push(ScopeRangeSection::OneOrMore);
    assert(pat[pat.len() - 1] == ScopeRangeSection::OneOrMore);
    lemma_trailing_plus(pat, pat.len(), s, s.len());
    assert forall|k: int| 0 <= k <= s.len() implies prefix_matches(pat, p.len(), s, k as nat)
        == #[trigger] pattern_matches(p, s.take(k)) by {
        lemma_prefix_frame(pat, p, p.len(), s, s.take(k), k as nat);
    }
    if pattern_matches(pat, s) {
        let k = choose|k: nat| k < s.len() && #[trigger] prefix_matches(pat, p.len(), s, k);
        assert(pattern_matches(p, s.take(k as int)));
    }
    if exists|k: int| 0 <= k < s.len() && #[trigger] pattern_matches(p, s.take(k)) {
        let k = choose|k: int| 0 <= k < s.len() && #[trigger] pattern_matches(p, s.take(k));
        assert(prefix_matches(pat, p.len(), s, k as nat));
    }
}

// ─── Matching ───────────────────────────────────────────────────────────────

impl ScopeRange {
    /// O(m·n) dynamic-programming match, where m = pattern sections and
    /// n = scope segments: after processing `i` sections, `dp[j]` tells whether
    /// the first `i` sections match the first `j` segments.
    pub fn matches(&self, scope: Scope) -> (r: bool)
        requires
            scope.0@.len() < isize::MAX,
        ensures
            r == pattern_matches(self.sections(), scope.segments()),
    {
        let segs = scope.0;
        let n = segs.len();
        let ghost pat = self.sections();
        let ghost sg = scope.segments();
        let mut dp = flags_from_elem(false, n + 1);
        flags_set(&mut dp, 0, true);
        let m = sections_len(&self.0);
        let mut i: usize = 0;
        assert forall|j: int| 0 <= j <= n implies flags_of(dp)[j] == prefix_matches(
            pat,
            0,
            sg,
            j as nat,
        ) by {}
        while i < m
            invariant
                m == pat.len(),
                pat == self.sections(),
                sg == scope.segments(),
                segs == scope.0,
                n == segs@.len(),
                n < usize::MAX,
                i <= m,
                flags_of(dp).len() == n + 1,
                forall|j: int| 0 <= j <= n ==> #[trigger] flags_of(dp)[j] == prefix_matches(pat, i as nat, sg, j as nat),
            decreases m - i,
        {
            let section = sections_get(&self.0, i);
            let ghost before = flags_of(dp);
            match section {
                ScopeRangeSection::Wildcard => {
                    let mut j: usize = 1;
                    while j <= n
                        invariant
                            1 <= j <= n + 1,
                            n < usize::MAX,
                            flags_of(dp).len() == n + 1,
                            pat[i as int] == ScopeRangeSection::Wildcard,
                            i < pat.len(),
                            forall|k: int| 0 <= k < j ==> #[trigger] flags_of(dp)[k] == prefix_matches(pat, (i + 1) as nat, sg, k as nat),
                            forall|k: int| j <= k <= n ==> #[trigger] flags_of(dp)[k] == before[k],
                            before.len() == n + 1,
                            forall|k: int| 0 <= k <= n ==> #[trigger] before[k] == prefix_matches(pat, i as nat, sg, k as nat),
                        decreases n + 1 - j,
                    {
                        let v = flags_get(&dp, j) || flags_get(&dp, j - 1);
                        proof {
                            assert(prefix_matches(pat, (i + 1) as nat, sg, j as nat) == (
                            prefix_matches(pat, i as nat, sg, j as nat) || prefix_matches(
                                pat,
                                (i + 1) as nat,
                                sg,
                                (j - 1) as nat,
                            )));
                        }
                        flags_set(&mut dp, j, v);
                        assert(flags_of(dp)[j as int] == prefix_matches(pat, (i + 1) as nat, sg, j as nat));
                        assert(forall|k: int| 0 <= k < j ==> #[trigger] flags_of(dp)[k] == prefix_matches(pat, (i + 1) as nat, sg, k as nat));
                        j += 1;
                    }
                },
                ScopeRangeSection::OneOrMore => {
                    let mut prev_old = flags_get(&dp, 0);
                    flags_set(&mut dp, 0, false);
                    let mut j: usize = 1;
                    while j <= n
                        invariant
                            1 <= j <= n + 1,
                            n < usize::MAX,
                            flags_of(dp).len() == n + 1,
                            pat[i as int] == ScopeRangeSection::OneOrMore,
                            i < pat.len(),
                            prev_old == before[j - 1],
                            forall|k: int| 0 <= k < j ==> #[trigger] flags_of(dp)[k] == prefix_matches(pat, (i + 1) as nat, sg, k as nat),
                            forall|k: int| j <= k <= n ==> #[trigger] flags_of(dp)[k] == before[k],
                            before.len() == n + 1,
                            forall|k: int| 0 <= k <= n ==> #[trigger] before[k] == prefix_matches(pat, i as nat, sg, k as nat),
                        decreases n + 1 - j,
                    {
                        let old_j = flags_get(&dp, j);
                        let v = prev_old || flags_get(&dp, j - 1);
                        proof {
                            assert(prefix_matches(pat, (i + 1) as nat, sg, j as nat) == (
                            prefix_matches(pat, i as nat, sg, (j - 1) as nat) || prefix_matches(
                                pat,
                                (i + 1) as nat,
                                sg,
                                (j - 1) as nat,
                            )));
                        }
                        flags_set(&mut dp, j, v);
                        prev_old = old_j;
                        j += 1;
                    }
                },
                ScopeRangeSection::AnyOne => {
                    let mut j: usize = n;
                    while j >= 1
                        invariant
                            j <= n,
                            n < usize::MAX,
                            flags_of(dp).len() == n + 1,
                            pat[i as int] == ScopeRangeSection::AnyOne,
                            i < pat.len(),
                            forall|k: int| j < k <= n ==> #[trigger] flags_of(dp)[k] == prefix_matches(pat, (i + 1) as nat, sg, k as nat),
                            forall|k: int| 0 <= k <= j ==> #[trigger] flags_of(dp)[k] == before[k],
                            before.len() == n + 1,
                            forall|k: int| 0 <= k <= n ==> #[trigger] before[k] == prefix_matches(pat, i as nat, sg, k as nat),
                        decreases j,
                    {
                        let v = flags_get(&dp, j - 1);
                        proof {
                            assert(prefix_matches(pat, (i + 1) as nat, sg, j as nat)
                                == prefix_matches(pat, i as nat, sg, (j - 1) as nat));
                        }
                        flags_set(&mut dp, j, v);
                        j -= 1;
                    }
                    flags_set(&mut dp, 0, false);
                },
                ScopeRangeSection::Lit(l) => {
                    let mut j: usize = n;
                    while j >= 1
                        invariant
                            j <= n,
                            n < usize::MAX,
                            n == segs@.len(),
                            sg == scope.segments(),
                            segs == scope.0,
                            flags_of(dp).len() == n + 1,
                            pat[i as int] == ScopeRangeSection::Lit(*l),
                            i < pat.len(),
                            forall|k: int| j < k <= n ==> #[trigger] flags_of(dp)[k] == prefix_matches(pat, (i + 1) as nat, sg, k as nat),
                            forall|k: int| 0 <= k <= j ==> #[trigger] flags_of(dp)[k] == before[k],
                            before.len() == n + 1,
                            forall|k: int| 0 <= k <= n ==> #[trigger] before[k] == prefix_matches(pat, i as nat, sg, k as nat),
                        decreases j,
                    {
                        let v = flags_get(&dp, j - 1) && compact_eq_str(l, segs[j - 1]);
                        proof {
                            assert(sg[j - 1] == segs@[j - 1]@);
                            assert(prefix_matches(pat, (i + 1) as nat, sg, j as nat) == (sg[j - 1]
                                == compact_chars(*l) && prefix_matches(
                                pat,
                                i as nat,
                                sg,
                                (j - 1) as nat,
                            )));
                        }
                        flags_set(&mut dp, j, v);
                        j -= 1;
                    }
                    flags_set(&mut dp, 0, false);
                },
            }
            i += 1;
        }
        flags_get(&dp, n)
    }
}

// ─── Parsing ────────────────────────────────────────────────────────────────

/// Whether the piece `s[from..to]` is exactly the one-character token `c`.
fn piece_is_char(s: &str, from: usize, to: usize, c: char) -> (r: bool)
    requires
        from <= to <= s@.len(),
    ensures
        r == (s@.subrange(from as int, to as int) == seq![c]),
{
    if to - from != 1 {
        proof {
            assert(s@.subrange(from as int, to as int).len() != 1);
        }
        false
    } else {
        let r = s.get_char(from) == c;
        proof {
            if r {
                assert(s@.subrange(from as int, to as int) =~= seq![c]);
            } else {
                assert(s@.subrange(from as int, to as int)[0] != seq![c][0]);
            }
        }
        r
    }
}

/// Whether the piece `s[from..to]` is exactly `**`.
fn piece_is_double_star(s: &str, from: usize, to: usize) -> (r: bool)
    requires
        from <= to <= s@.len(),
    ensures
        r == (s@.subrange(from as int, to as int) == seq!['*', '*']),
{
    if to - from != 2 {
        proof {
            assert(s@.subrange(from as int, to as int).len() != 2);
        }
        false
    } else {
        let a = s.get_char(from);
        let b = s.get_char(from + 1);
        let r = a == '*' && b == '*';
        proof {
            let p = s@.subrange(from as int, to as int);
            if r {
                assert(p =~= seq!['*', '*']);
            } else if a != '*' {
                assert(p[0] != seq!['*', '*'][0]);
            } else {
                assert(p[1] != seq!['*', '*'][1]);
            }
        }
        r
    }
}

/// The section that the piece `s[from..to]` (non-empty) denotes.
fn section_of_piece(s: &str, from: usize, to: usize) -> (r: ScopeRangeSection)
    requires
        from < to <= s@.len(),
    ensures
        denotes(r, s@.subrange(from as int, to as int)),
{
    if piece_is_double_star(s, from, to) {
        ScopeRangeSection::Wildcard
    } else if piece_is_char(s, from, to, '*') {
        ScopeRangeSection::AnyOne
    } else if piece_is_char(s, from, to, '+') {
        ScopeRangeSection::OneOrMore
    } else {
        let piece = s.substring_char(from, to);
        ScopeRangeSection::Lit(compact_from_str(piece))
    }
}

/// The `[start, end)` character positions of the pieces of `s` split on `.`.
fn piece_bounds(s: &str) -> (r: Vec<(usize, usize)>)
    ensures
        r@.len() == split_dots(s@).len(),
        forall|k: int|
            #![trigger r@[k]]
            #![trigger split_dots(s@)[k]]
            0 <= k < r@.len() ==> r@[k].0 <= r@[k].1 <= s@.len() && s@.subrange(
                r@[k].0 as int,
                r@[k].1 as int,
            ) == split_dots(s@)[k],
{
    let n = s.unicode_len();
    let mut bounds: Vec<(usize, usize)> = Vec::new();
    let mut start: usize = 0;
    let mut i: usize = 0;
    proof {
        assert(s@.subrange(0, 0) =~= Seq::<char>::empty());
        assert(s@.subrange(0, 0) =~= Seq::<char>::empty());
    }
    while i < n
        invariant
            n == s@.len(),
            start <= i <= n,
            bounds@.len() + 1 == split_dots(s@.subrange(0, i as int)).len(),
            forall|k: int|
                #![trigger bounds@[k]]
                0 <= k < bounds@.len() ==> bounds@[k].0 <= bounds@[k].1 <= s@.len()
                    && s@.subrange(bounds@[k].0 as int, bounds@[k].1 as int) == split_dots(
                    s@.subrange(0, i as int),
                )[k],
            s@.subrange(start as int, i as int) == split_dots(s@.subrange(0, i as int)).last(),
        decreases n - i,
    {
        let c = s.get_char(i);
        let ghost cur = s@.subrange(0, i as int);
        let ghost nxt = s@.subrange(0, i + 1);
        let ghost p_old = split_dots(cur);
        let ghost b_old = bounds@;
        proof {
            assert(nxt.drop_last() =~= cur);
            assert(nxt.last() == c);
        }
        if c == '.' {
            bounds.push((start, i));
            start = i + 1;
            proof {
                let p_new = split_dots(nxt);
                assert(p_new == p_old.push(Seq::<char>::empty()));
                assert(s@.subrange(start as int, (i + 1) as int) =~= Seq::<char>::empty());
                assert forall|k: int| 0 <= k < bounds@.len() implies bounds@[k].0 <= bounds@[k].1
                    <= s@.len() && s@.subrange(bounds@[k].0 as int, bounds@[k].1 as int)
                    == p_new[k] by {
                    if k < b_old.len() {
                        assert(bounds@[k] == b_old[k]);
                        assert(p_new[k] == p_old[k]);
                    } else {
                        assert(k == p_old.len() - 1);
                        assert(p_new[k] == p_old.last());
                    }
                }
            }
        } else {
            proof {
                let p_new = split_dots(nxt);
                assert(p_new == p_old.update(p_old.len() - 1, p_old.last().push(c)));
                assert(s@.subrange(start as int, i + 1) =~= s@.subrange(start as int, i as int).push(c));
                assert forall|k: int| 0 <= k < bounds@.len() implies bounds@[k].0 <= bounds@[k].1
                    <= s@.len() && s@.subrange(bounds@[k].0 as int, bounds@[k].1 as int)
                    == p_new[k] by {
                    assert(p_new[k] == p_old[k]);
                }
            }
        }
        i += 1;
    }
    let ghost b_old = bounds@;
    bounds.push((start, n));
    proof {
        assert(s@.subrange(0, n as int) =~= s@);
        let p = split_dots(s@);
        assert forall|k: int| 0 <= k < bounds@.len() implies bounds@[k].0 <= bounds@[k].1
            <= s@.len() && s@.subrange(bounds@[k].0 as int, bounds@[k].1 as int)
            == p[k] by {
            if k < b_old.len() {
                assert(bounds@[k] == b_old[k]);
            }
        }
    }
    bounds
}

impl ScopeRange {
    /// Parses a dot-separated pattern such as `@isla.**.read`.
    ///
    /// Fails with [`ScopeParseError::Empty`] carrying the index of the first
    /// empty segment; otherwise each segment becomes `**`, `*`, `+` or a literal.
    pub fn from_str(s: &str) -> (r: Result<ScopeRange, ScopeParseError>)
        ensures
            match r {
                Err(ScopeParseError::Empty(i)) => first_empty(split_dots(s@)) == Some(i as nat),
                Ok(range) => first_empty(split_dots(s@)) is None && range.sections().len()
                    == split_dots(s@).len() && forall|k: int|
                    0 <= k < range.sections().len() ==> denotes(
                        #[trigger] range.sections()[k],
                        split_dots(s@)[k],
                    ),
            },
    {
        let bounds = piece_bounds(s);
        let ghost pieces = split_dots(s@);
        let mut sections: Vec<ScopeRangeSection> = Vec::new();
        let mut k: usize = 0;
        while k < bounds.len()
            invariant
                bounds@.len() == pieces.len(),
                pieces == split_dots(s@),
                forall|m: int|
                    #![trigger bounds@[m]]
                    0 <= m < bounds@.len() ==> bounds@[m].0 <= bounds@[m].1 <= s@.len()
                        && s@.subrange(bounds@[m].0 as int, bounds@[m].1 as int)
                        == pieces[m],
                k <= bounds@.len(),
                sections@.len() == k,
                forall|m: int| 0 <= m < k ==> pieces[m].len() != 0,
                forall|m: int| 0 <= m < k ==> denotes(#[trigger] sections@[m], pieces[m]),
            decreases bounds@.len() - k,
        {
            let (from, to) = bounds[k];
            proof {
                assert(s@.subrange(from as int, to as int) == pieces[k as int]);
            }
            if from == to {
                proof {
                    assert(pieces[k as int].len() == 0);
                    let c = choose|c: int|
                        0 <= c < pieces.len() && pieces[c].len() == 0 && forall|m: int|
                            0 <= m < c ==> pieces[m].len() != 0;
                    assert(0 <= k < pieces.len() && pieces[k as int].len() == 0 && forall|m: int|
                        0 <= m < k ==> pieces[m].len() != 0);
                    if c > k {
                        assert(pieces[k as int].len() != 0);
                    }
                }
                return Err(ScopeParseError::Empty(k));
            }
            let sec = section_of_piece(s, from, to);
            sections.push(sec);
            k += 1;
        }
        Ok(ScopeRange(sections_from_vec(sections)))
    }
}

impl ScopeRange {
    /// The pattern made of `sections`, in order.
    pub fn from_sections(sections: Vec<ScopeRangeSection>) -> (r: ScopeRange)
        ensures
            r.sections() == sections@,
    {
        ScopeRange(sections_from_vec(sections))
    }
}

impl core::str::FromStr for ScopeRange {
    type Err = ScopeParseError;

    /// Parses a dot-separated pattern, as [`ScopeRange::from_str`] does.
    fn from_str(s: &str) -> Result<ScopeRange, ScopeParseError> {
        ScopeRange::from_str(s)
    }
}

// ─── System scopes ──────────────────────────────────────────────────────────

/// The range `@isla.**`, matching all system-reserved scopes.
pub fn system_scope_range() -> (r: ScopeRange)
    ensures
        r.sections().len() == 2,
        r.sections()[0] matches ScopeRangeSection::Lit(l) && compact_chars(l) == system_prefix(),
        r.sections()[1] == ScopeRangeSection::Wildcard,
{
    let mut sections: Vec<ScopeRangeSection> = Vec::new();
    let lit = compact_from_str("@isla");
    proof {
        reveal_strlit("@isla");
        assert(compact_chars(lit) =~= system_prefix());
    }
    sections.push(ScopeRangeSection::Lit(lit));
    sections.push(ScopeRangeSection::Wildcard);
    ScopeRange(sections_from_vec(sections))
}

/// Scope for accessing the object storage subsystem in the memory repository.
pub fn object_storage_scope() -> (r: Scope)
    ensures
        r.0@.len() == 3,
        r.0@[0]@ == "@isla"@,
        r.0@[1]@ == "memory_repository"@,
        r.0@[2]@ == "object_storage"@,
{
    Scope(&["@isla", "memory_repository", "object_storage"])
}

impl Scope {
    /// Returns `true` exactly when this scope is a system scope: its first
    /// segment is `@isla` (the range `@isla.**` matches it).
    pub fn is_system_scope(self) -> (r: bool)
        requires
            self.0@.len() < isize::MAX,
        ensures
            r == (self.segments().len() >= 1 && self.segments()[0] == system_prefix()),
    {
        let range = system_scope_range();
        let r = range.matches(self);
        proof {
            lemma_system_range(range.sections(), self.segments());
        }
        r
    }

    /// The scope written with `.` between its segments (how it is displayed).
    pub fn to_string(&self) -> (r: String)
        ensures
            r@ == join_dots(self.segments()),
    {
        let segs = self.0;
        let mut out = String::new();
        let mut i: usize = 0;
        while i < segs.len()
            invariant
                i <= segs@.len(),
                segs == self.0,
                out@ == join_dots(self.segments().subrange(0, i as int)),
            decreases segs@.len() - i,
        {
            let ghost parts = self.segments().subrange(0, i + 1);
            proof {
                assert(parts.drop_last() =~= self.segments().subrange(0, i as int));
                assert(parts.last() == segs@[i as int]@);
            }
            if i > 0 {
                out.append(".");
                proof {
                    reveal_strlit(".");
                }
            }
            out.append(segs[i]);
            proof {
                if i == 0 {
                    assert(out@ =~= parts[0]);
                } else {
                    assert(out@ =~= join_dots(parts.drop_last()) + seq!['.'] + parts.last());
                }
            }
            i += 1;
        }
        proof {
            assert(self.segments().subrange(0, segs@.len() as int) =~= self.segments());
        }
        out
    }
}

} // verus!
