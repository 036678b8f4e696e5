//! Business logic of the memory repository services.
use vstd::prelude::*;
#[allow(unused_imports)]
use vstd::string::*;

pub mod calender;
pub mod contact;
pub mod conversation;
pub mod diary;
pub mod embedding;
pub mod personality;
pub mod segment_tree;
pub mod summary;

verus! {

/// Why a service refused a request.
#[derive(Debug, Clone, Copy, PartialEq, Eq, Structural)]
pub enum ServiceError {
    /// The request breaks one of the service's input rules.
    InvalidInput,
    /// A computation left the range the service can represent.
    BusinessPanic,
}

/// Whether `c` has the Unicode `White_Space` property (what
/// `char::is_whitespace` tests).
pub open spec fn is_whitespace_char(c: char) -> bool {
    ||| '\u{9}' <= c <= '\u{d}'
    ||| c == ' '
    ||| c == '\u{85}'
    ||| c == '\u{a0}'
    ||| c == '\u{1680}'
    ||| '\u{2000}' <= c <= '\u{200a}'
    ||| c == '\u{2028}'
    ||| c == '\u{2029}'
    ||| c == '\u{202f}'
    ||| c == '\u{205f}'
    ||| c == '\u{3000}'
}

/// A text is blank when trimming whitespace leaves nothing: every character is
/// whitespace (the empty text included).
pub open spec fn is_blank_text(s: Seq<char>) -> bool {
    forall|i: int| 0 <= i < s.len() ==> is_whitespace_char(#[trigger] s[i])
}

/// Whether `c` is whitespace.
pub fn is_whitespace(c: char) -> (r: bool)
    ensures
        r == is_whitespace_char(c),
{
    ('\u{9}' <= c && c <= '\u{d}') || c == ' ' || c == '\u{85}' || c == '\u{a0}' || c == '\u{1680}'
        || ('\u{2000}' <= c && c <= '\u{200a}') || c == '\u{2028}' || c == '\u{2029}' || c
        == '\u{202f}' || c == '\u{205f}' || c == '\u{3000}'
}

/// Whether the text is blank (`text.trim().is_empty()`).
pub fn is_blank(text: &str) -> (r: bool)
    ensures
        r == is_blank_text(text@),
{
    broadcast use vstd::string::group_string_axioms;
    for c in it: text.chars()
        invariant
            it.seq() == text@,
            forall|k: int| 0 <= k < it.index() ==> is_whitespace_char(#[trigger] text@[k]),
    {
        if !is_whitespace(c) {
            return false;
        }
    }
    true
}

/// The rule every required text field follows: a blank text is refused.
pub open spec fn text_rule(text: Seq<char>) -> Result<(), ServiceError> {
    if is_blank_text(text) {
        Err(ServiceError::InvalidInput)
    } else {
        Ok(())
    }
}

/// Refuse a blank required text.
pub fn check_text(text: &String) -> (r: Result<(), ServiceError>)
    ensures
        r == text_rule(text@),
{
    if is_blank(text.as_str()) {
        Err(ServiceError::InvalidInput)
    } else {
        Ok(())
    }
}

/// The text an entry is indexed under when it has a heading and a body: the
/// two joined by a line break.
pub open spec fn two_line_text(first: Seq<char>, second: Seq<char>) -> Seq<char> {
    first + seq!['\n'] + second
}

/// `first` and `second` joined by a line break.
pub fn index_text(first: &str, second: &str) -> (r: String)
    ensures
        r@ == two_line_text(first@, second@),
{
    let mut r = String::from_str(first);
    let newline = "\n";
    proof {
        reveal_strlit("\n");
    }
    r.append(newline);
    r.append(second);
    r
}

/// The texts that are present, in order.
pub open spec fn present_texts(texts: Seq<Option<String>>) -> Seq<Seq<char>>
    decreases texts.len(),
{
    if texts.len() == 0 {
        Seq::empty()
    } else {
        let rest = present_texts(texts.drop_last());
        match texts.last() {
            Some(t) => rest.push(t@),
            None => rest,
        }
    }
}

/// `parts` joined by single spaces.
pub open spec fn join_spaced(parts: Seq<Seq<char>>) -> Seq<char>
    decreases parts.len(),
{
    if parts.len() == 0 {
        Seq::empty()
    } else if parts.len() == 1 {
        parts[0]
    } else {
        join_spaced(parts.drop_last()) + seq![' '] + parts.last()
    }
}

/// The excerpt of an appended message that the segment-tree scorer reads: the
/// text of each of its content blocks that has one, in order, joined by single
/// spaces.
pub fn message_excerpt(texts: &Vec<Option<String>>) -> (r: String)
    ensures
        r@ == join_spaced(present_texts(texts@)),
{
    let mut r = String::new();
    let mut count: usize = 0;
    let space = " ";
    proof {
        reveal_strlit(" ");
    }
    let mut k: usize = 0;
    while k < texts.len()
        invariant
            k <= texts@.len(),
            space@ == seq![' '],
            count <= k,
            count == present_texts(texts@.take(k as int)).len(),
            r@ == join_spaced(present_texts(texts@.take(k as int))),
        decreases texts@.len() - k,
    {
        proof {
            assert(texts@.take(k + 1).drop_last() =~= texts@.take(k as int));
            assert(texts@.take(k + 1).last() == texts@[k as int]);
        }
        match &texts[k] {
            Some(t) => {
                if count > 0 {
                    r.append(space);
                }
                r.append(t.as_str());
                proof {
                    let p = present_texts(texts@.take(k as int));
                    assert(p.push(t@).drop_last() =~= p);
                    if count == 0 {
                        assert(r@ =~= p.push(t@)[0]);
                    }
                }
                count = count + 1;
            },
            None => {},
        }
        k += 1;
    }
    proof {
        assert(texts@.take(texts@.len() as int) =~= texts@);
    }
    r
}

} // verus!
