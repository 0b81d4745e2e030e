//! How a text is split into lines: at each `\n`, with a `\r` that stands
//! right before the `\n` dropped; a text that ends in `\n` has no empty last
//! line.
use vstd::prelude::*;

verus! {

pub const LINE_FEED: u8 = 0x0a;

pub const CARRIAGE_RETURN: u8 = 0x0d;

/// The index of the first `\n` in `s` at or after `i`, or the length of `s`.
pub open spec fn line_end(s: Seq<u8>, i: int) -> int
    decreases s.len() - i,
{
    if i >= s.len() {
        s.len() as int
    } else if s[i] == LINE_FEED {
        i
    } else {
        line_end(s, i + 1)
    }
}

/// The line of `s` that starts at `i`, without its line ending.
pub open spec fn line_at(s: Seq<u8>, i: int) -> Seq<u8> {
    let e = line_end(s, i);
    if i < e < s.len() && s[e - 1] == CARRIAGE_RETURN {
        s.subrange(i, e - 1)
    } else {
        s.subrange(i, e)
    }
}

/// The lines of `s` from index `i` on.
pub open spec fn lines_from(s: Seq<u8>, i: int) -> Seq<Seq<u8>>
    decreases s.len() - i,
{
    if i >= s.len() {
        Seq::empty()
    } else {
        let e = line_end(s, i);
        if e < i || e >= s.len() {
            seq![line_at(s, i)]
        } else {
            seq![line_at(s, i)] + lines_from(s, e + 1)
        }
    }
}

/// The lines of `s`.
pub open spec fn lines_of(s: Seq<u8>) -> Seq<Seq<u8>> {
    lines_from(s, 0)
}

/// `ls` without its leading empty lines.
pub open spec fn skip_blank(ls: Seq<Seq<u8>>) -> Seq<Seq<u8>>
    decreases ls.len(),
{
    if ls.len() == 0 {
        ls
    } else if ls[0].len() == 0 {
        skip_blank(ls.drop_first())
    } else {
        ls
    }
}

/// The lines of `ls` that are not empty, in order.
pub open spec fn non_blank(ls: Seq<Seq<u8>>) -> Seq<Seq<u8>>
    decreases ls.len(),
{
    if ls.len() == 0 {
        ls
    } else if ls[0].len() == 0 {
        non_blank(ls.drop_first())
    } else {
        seq![ls[0]] + non_blank(ls.drop_first())
    }
}

/// The non-empty lines of `ls` are the first line left after skipping blank
/// ones, followed by the non-empty lines after it.
pub proof fn lemma_non_blank_skip(ls: Seq<Seq<u8>>)
    ensures
        skip_blank(ls).len() == 0 ==> non_blank(ls).len() == 0,
        skip_blank(ls).len() > 0 ==> non_blank(ls) == seq![skip_blank(ls)[0]] + non_blank(
            skip_blank(ls).drop_first(),
        ),
    decreases ls.len(),
{
    if ls.len() > 0 && ls[0].len() == 0 {
        lemma_non_blank_skip(ls.drop_first());
    }
}

/// The line end found from `i` lies at or after `i`, and within `s` when `i` does.
pub proof fn lemma_line_end_bounds(s: Seq<u8>, i: int)
    requires
        0 <= i,
    ensures
        i <= s.len() ==> i <= line_end(s, i) <= s.len(),
        line_end(s, i) < s.len() ==> s[line_end(s, i)] == LINE_FEED,
        forall|k: int| i <= k < line_end(s, i) ==> s[k] != LINE_FEED,
    decreases s.len() - i,
{
    if i < s.len() && s[i] != LINE_FEED {
        lemma_line_end_bounds(s, i + 1);
    }
}

} // verus!
