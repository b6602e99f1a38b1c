//! Work on texts: the escaping of a text for a string of the
//! configuration language, and comparisons of lists of texts.
use vstd::prelude::*;

verus! {

/// The views of a list of strings.
pub open spec fn texts(strings: Seq<String>) -> Seq<Seq<char>> {
    strings.map_values(|s: String| s@)
}

/// What stands for a character inside a double-quoted string: a
/// backslash before a quote, a backslash and a dollar sign, so that
/// nothing in the text closes the string or opens an interpolation; a
/// letter after a backslash for a line feed, a carriage return and a
/// tab, so that the string stays on one line.
pub open spec fn escaped_char(c: char) -> Seq<char> {
    if c == '"' {
        seq!['\\', '"']
    } else if c == '\\' {
        seq!['\\', '\\']
    } else if c == '$' {
        seq!['\\', '$']
    } else if c == '\n' {
        seq!['\\', 'n']
    } else if c == '\r' {
        seq!['\\', 'r']
    } else if c == '\t' {
        seq!['\\', 't']
    } else {
        seq![c]
    }
}

/// A text with each character escaped.
pub open spec fn escaped(text: Seq<char>) -> Seq<char>
    decreases text.len(),
{
    if text.len() == 0 {
        Seq::empty()
    } else {
        escaped(text.drop_last()) + escaped_char(text.last())
    }
}

/// Appends a character to a string, with `String::push`.
#[verifier::external_body]
fn push_char(text: &mut String, c: char)
    ensures
        final(text)@ == old(text)@.push(c),
{
    text.push(c);
}

/// Appends to `out` what stands for `c` inside a string.
fn push_escaped(out: &mut String, c: char)
    ensures
        final(out)@ == old(out)@ + escaped_char(c),
{
    if c == '"' {
        push_char(out, '\\');
        push_char(out, '"');
    } else if c == '\\' {
        push_char(out, '\\');
        push_char(out, '\\');
    } else if c == '$' {
        push_char(out, '\\');
        push_char(out, '$');
    } else if c == '\n' {
        push_char(out, '\\');
        push_char(out, 'n');
    } else if c == '\r' {
        push_char(out, '\\');
        push_char(out, 'r');
    } else if c == '\t' {
        push_char(out, '\\');
        push_char(out, 't');
    } else {
        push_char(out, c);
    }
    assert(out@ =~= old(out)@ + escaped_char(c));
}

/// Escapes a text for a double-quoted string.
pub fn escape(text: &str) -> (out: String)
    ensures
        out@ == escaped(text@),
{
    let mut out = String::new();
    for c in it: text.chars()
        invariant
            it.seq() == text@,
            out@ == escaped(text@.take(it.index() as int)),
    {
        assert(text@.take(it.index() + 1).drop_last() == text@.take(it.index() as int));
        push_escaped(&mut out, c);
    }
    assert(text@.take(text@.len() as int) == text@);
    out
}

/// An escaped text holds no line feed, and a quote only after a
/// backslash: it cannot end the string that it stands in.
pub proof fn lemma_escaped_stays_in_string(text: Seq<char>)
    ensures
        forall|i: int|
            0 <= i < escaped(text).len() ==> {
                &&& #[trigger] escaped(text)[i] != '\n'
                &&& escaped(text)[i] == '"' ==> i > 0 && escaped(text)[i - 1] == '\\'
            },
    decreases text.len(),
{
    if text.len() > 0 {
        lemma_escaped_stays_in_string(text.drop_last());
        let front = escaped(text.drop_last());
        let tail = escaped_char(text.last());
        let all = escaped(text);
        assert(all == front + tail);
        assert forall|i: int| 0 <= i < all.len() implies {
            &&& #[trigger] all[i] != '\n'
            &&& all[i] == '"' ==> i > 0 && all[i - 1] == '\\'
        } by {
            if i < front.len() {
                assert(all[i] == front[i]);
                if i > 0 {
                    assert(all[i - 1] == front[i - 1]);
                }
            } else {
                assert(all[i] == tail[i - front.len()]);
                if i > front.len() {
                    assert(all[i - 1] == tail[i - 1 - front.len()]);
                }
            }
        }
    }
}

/// Whether a list of texts holds a text.
pub fn contains_text(list: &Vec<String>, wanted: &String) -> (found: bool)
    ensures
        found == texts(list@).contains(wanted@),
{
    let mut i: usize = 0;
    while i < list.len()
        invariant
            i <= list@.len(),
            forall|k: int| 0 <= k < i ==> texts(list@)[k] != wanted@,
        decreases list@.len() - i,
    {
        if list[i] == *wanted {
            assert(texts(list@)[i as int] == wanted@);
            return true;
        }
        i += 1;
    }
    false
}

/// Whether `longer` is `shorter` followed by `last`.
pub fn is_extended_by(longer: &Vec<String>, shorter: &Vec<String>, last: &String) -> (same: bool)
    ensures
        same == (texts(longer@) == texts(shorter@).push(last@)),
{
    if longer.len() == 0 || longer.len() - 1 != shorter.len() {
        assert(texts(longer@).len() != texts(shorter@).push(last@).len());
        return false;
    }
    let mut i: usize = 0;
    while i < shorter.len()
        invariant
            i <= shorter@.len(),
            longer@.len() == shorter@.len() + 1,
            forall|k: int| 0 <= k < i ==> texts(longer@)[k] == texts(shorter@)[k],
        decreases shorter@.len() - i,
    {
        if longer[i] != shorter[i] {
            assert(texts(longer@)[i as int] != texts(shorter@).push(last@)[i as int]);
            return false;
        }
        i += 1;
    }
    if longer[i] != *last {
        assert(texts(longer@)[i as int] != texts(shorter@).push(last@)[i as int]);
        return false;
    }
    assert(texts(longer@) =~= texts(shorter@).push(last@));
    true
}

} // verus!
