//! Pieces of text that messages are made of.

use vstd::prelude::*;

verus! {

/// `parts` one after the other, with `separator` between each two.
pub open spec fn joined(parts: Seq<Seq<char>>, separator: Seq<char>) -> Seq<char>
    decreases parts.len(),
{
    if parts.len() == 0 {
        seq![]
    } else if parts.len() == 1 {
        parts[0]
    } else {
        joined(parts.drop_last(), separator) + separator + parts.last()
    }
}

/// The text of each of `parts`.
pub open spec fn texts(parts: Seq<String>) -> Seq<Seq<char>> {
    Seq::new(parts.len(), |i: int| parts[i]@)
}

/// Joins `parts` with `itertools::join`, which writes them one after the other with `separator`
/// between each two, and gives the empty string where there are none.
#[verifier::external_body]
pub(crate) fn join(parts: &Vec<String>, separator: &str) -> (text: String)
    ensures
        text@ == joined(texts(parts@), separator@),
{
    itertools::join(parts, separator)
}

/// `text` with a backslash before each double quote.
pub open spec fn escaped(text: Seq<char>) -> Seq<char>
    decreases text.len(),
{
    if text.len() == 0 {
        seq![]
    } else {
        escaped(text.drop_last()) + (if text.last() == '"' {
            seq!['\\', '"']
        } else {
            seq![text.last()]
        })
    }
}

/// `text` between double quotes, with a backslash before each double quote in it.
pub open spec fn in_quotes(text: Seq<char>) -> Seq<char> {
    seq!['"'] + escaped(text) + seq!['"']
}

/// Puts `text` between double quotes.
pub fn quoted(text: &str) -> (quoted: String)
    ensures
        quoted@ == in_quotes(text@),
{
    proof {
        reveal_strlit("\"");
        reveal_strlit("\\\"");
    }
    let mut quoted = String::from_str("\"");
    let n: usize = text.unicode_len();
    assert(text@.take(0) =~= Seq::empty());
    assert("\""@ =~= seq!['"']);
    assert("\\\""@ =~= seq!['\\', '"']);
    assert(quoted@ =~= seq!['"'] + escaped(text@.take(0)));
    for i in 0..n
        invariant
            n == text@.len(),
            quoted@ == seq!['"'] + escaped(text@.take(i as int)),
            "\\\""@ == seq!['\\', '"'],
    {
        assert(text@.take(i + 1).drop_last() =~= text@.take(i as int));
        assert(text@.take(i + 1).last() == text@[i as int]);
        if text.get_char(i) == '"' {
            quoted.append("\\\"");
        } else {
            quoted.append(text.substring_char(i, i + 1));
            assert(text@.subrange(i as int, i + 1) =~= seq![text@[i as int]]);
        }
        assert(quoted@ =~= seq!['"'] + escaped(text@.take(i + 1)));
    }
    assert(text@.take(n as int) =~= text@);
    quoted.append("\"");
    quoted
}

} // verus!
