//! The pieces that help texts are made of.

use vstd::prelude::*;
use vstd::string::StringExecFns;
use vstd::utf8::encode_utf8;

verus! {

/// The parts in order, with the separator between each two.
pub open spec fn join(parts: Seq<Seq<char>>, separator: Seq<char>) -> Seq<char>
    decreases parts.len(),
{
    if parts.len() == 0 {
        Seq::empty()
    } else if parts.len() == 1 {
        parts[0]
    } else {
        join(parts.drop_last(), separator) + separator + parts.last()
    }
}

/// A run of `n` spaces.
pub open spec fn spaces(n: nat) -> Seq<char> {
    Seq::new(n, |i: int| ' ')
}

/// The width that a text takes in a column: its length in bytes of UTF-8.
pub open spec fn width(text: Seq<char>) -> nat {
    encode_utf8(text).len()
}

/// The greatest width among the texts; 0 where there is none.
pub open spec fn widest(texts: Seq<Seq<char>>) -> nat
    decreases texts.len(),
{
    if texts.len() == 0 {
        0
    } else if width(texts.last()) > widest(texts.drop_last()) {
        width(texts.last())
    } else {
        widest(texts.drop_last())
    }
}

/// A titled block: the title, and below it the body set in by a tab.
pub open spec fn block(title: Seq<char>, body: Seq<char>) -> Seq<char> {
    title + ":\n\t"@ + body + "\n\n"@
}

/// One row of a table whose first column is `column` wide: the label,
/// filled up with spaces to the column's width, and the description.
pub open spec fn row(label: Seq<char>, column: nat, description: Seq<char>) -> Seq<char> {
    "\t"@ + label + " "@ + spaces((column - width(label)) as nat) + ": "@ + description + "\n"@
}

/// No text is wider than the widest.
pub proof fn lemma_widest_bounds(texts: Seq<Seq<char>>, i: int)
    requires
        0 <= i < texts.len(),
    ensures
        width(texts[i]) <= widest(texts),
    decreases texts.len(),
{
    if i < texts.len() - 1 {
        lemma_widest_bounds(texts.drop_last(), i);
    }
}

/// Where there are texts, one of them is as wide as the widest.
pub proof fn lemma_widest_reached(texts: Seq<Seq<char>>)
    requires
        texts.len() > 0,
    ensures
        exists|i: int| 0 <= i < texts.len() && width(#[trigger] texts[i]) == widest(texts),
    decreases texts.len(),
{
    let last = texts.len() - 1;
    if texts.len() == 1 {
        assert(widest(texts.drop_last()) == 0);
        assert(width(texts[last]) == widest(texts));
    } else if width(texts.last()) > widest(texts.drop_last()) {
        assert(width(texts[last]) == widest(texts));
    } else {
        lemma_widest_reached(texts.drop_last());
        let i = choose|i: int|
            0 <= i < texts.drop_last().len() && width(#[trigger] texts.drop_last()[i]) == widest(
                texts.drop_last(),
            );
        assert(width(texts[i]) == widest(texts));
    }
}

/// The width of a string.
pub fn text_width(text: &str) -> (w: usize)
    ensures
        w == width(text@),
{
    text.as_bytes().len()
}

/// Joins the parts with the separator between each two.
pub fn join_strings(parts: &Vec<String>, separator: &str) -> (joined: String)
    ensures
        joined@ == join(parts.deep_view(), separator@),
{
    let mut joined = String::new();
    let mut i: usize = 0;
    while i < parts.len()
        invariant
            i <= parts.len(),
            joined@ == join(parts.deep_view().take(i as int), separator@),
        decreases parts.len() - i,
    {
        if i > 0 {
            joined.append(separator);
        }
        joined.append(parts[i].as_str());
        proof {
            let all = parts.deep_view();
            assert(all.take(i + 1).drop_last() =~= all.take(i as int));
            assert(all.take(i + 1).last() == parts[i as int]@);
            assert(joined@ =~= join(all.take(i + 1), separator@));
        }
        i = i + 1;
    }
    assert(parts.deep_view().take(i as int) =~= parts.deep_view());
    joined
}

/// Appends `n` spaces to the text.
pub fn pad(text: &mut String, n: usize)
    ensures
        final(text)@ == old(text)@ + spaces(n as nat),
{
    let mut i: usize = 0;
    while i < n
        invariant
            i <= n,
            text@ == old(text)@ + spaces(i as nat),
        decreases n - i,
    {
        text.append(" ");
        proof {
            reveal_strlit(" ");
            assert(text@ =~= old(text)@ + spaces((i + 1) as nat));
        }
        i = i + 1;
    }
}

/// Appends a titled block to the text.
pub fn append_block(text: &mut String, title: &str, body: &str)
    ensures
        final(text)@ == old(text)@ + block(title@, body@),
{
    text.append(title);
    text.append(":\n\t");
    text.append(body);
    text.append("\n\n");
    assert(text@ =~= old(text)@ + block(title@, body@));
}

/// Appends one table row to the text.
pub fn append_row(text: &mut String, label: &str, column: usize, description: &str)
    requires
        width(label@) <= column,
    ensures
        final(text)@ == old(text)@ + row(label@, column as nat, description@),
{
    text.append("\t");
    text.append(label);
    text.append(" ");
    pad(text, column - text_width(label));
    text.append(": ");
    text.append(description);
    text.append("\n");
    assert(text@ =~= old(text)@ + row(label@, column as nat, description@));
}

} // verus!
