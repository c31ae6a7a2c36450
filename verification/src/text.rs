//! Text helpers for node titles and contents: rendering an id in decimal,
//! and clamping a multi-line text to a maximum number of lines.

use crate::geometry::HEADER_HEIGHT;
use vstd::prelude::*;

verus! {

/// Vertical padding around a node's content area.
pub const CONTENT_PADDING_Y: i64 = 8;

/// Extra vertical inset of the content text inside its area.
pub const CONTENT_TEXT_INSET: i64 = 12;

/// Height of one content text line.
pub const CONTENT_LINE_HEIGHT: i64 = 18;

pub open spec fn spec_digit_char(d: nat) -> char {
    if d == 0 {
        '0'
    } else if d == 1 {
        '1'
    } else if d == 2 {
        '2'
    } else if d == 3 {
        '3'
    } else if d == 4 {
        '4'
    } else if d == 5 {
        '5'
    } else if d == 6 {
        '6'
    } else if d == 7 {
        '7'
    } else if d == 8 {
        '8'
    } else {
        '9'
    }
}

/// The decimal digits of `n`, most significant first.
pub open spec fn spec_digits(n: nat) -> Seq<char>
    decreases n,
{
    if n < 10 {
        seq![spec_digit_char(n)]
    } else {
        spec_digits(n / 10).push(spec_digit_char(n % 10))
    }
}

/// The default title of the node with the given id.
pub open spec fn spec_node_title(id: u64) -> Seq<char> {
    "Node "@ + spec_digits(id as nat)
}

/// Append the decimal digits of `n` to `out`.
fn push_digits(out: &mut String, n: u64)
    ensures
        final(out)@ == old(out)@ + spec_digits(n as nat),
    decreases n,
{
    if n >= 10 {
        push_digits(out, n / 10);
    }
    let d: u64 = n % 10;
    let ds: &str = if d == 0 {
        "0"
    } else if d == 1 {
        "1"
    } else if d == 2 {
        "2"
    } else if d == 3 {
        "3"
    } else if d == 4 {
        "4"
    } else if d == 5 {
        "5"
    } else if d == 6 {
        "6"
    } else if d == 7 {
        "7"
    } else if d == 8 {
        "8"
    } else {
        "9"
    };
    proof {
        reveal_strlit("0");
        reveal_strlit("1");
        reveal_strlit("2");
        reveal_strlit("3");
        reveal_strlit("4");
        reveal_strlit("5");
        reveal_strlit("6");
        reveal_strlit("7");
        reveal_strlit("8");
        reveal_strlit("9");
        assert(ds@ =~= seq![spec_digit_char((n % 10) as nat)]);
    }
    out.append(ds);
    proof {
        if n >= 10 {
            assert(out@ =~= old(out)@ + spec_digits(n as nat));
        } else {
            assert(out@ =~= old(out)@ + spec_digits(n as nat));
        }
    }
}

/// The default title of a freshly added node: `Node ` followed by the
/// decimal id.
pub fn node_title(id: u64) -> (r: String)
    ensures
        r@ == spec_node_title(id),
{
    let mut s = String::from_str("Node ");
    push_digits(&mut s, id);
    s
}

/// How many content lines fit a node of the given height: the content
/// area below the header, minus padding, divided by the line height,
/// and at least one.
pub open spec fn spec_max_content_lines(height: int) -> int {
    if height < HEADER_HEIGHT + 2 * CONTENT_PADDING_Y + CONTENT_TEXT_INSET + CONTENT_LINE_HEIGHT {
        1
    } else {
        (height - (HEADER_HEIGHT + 2 * CONTENT_PADDING_Y + CONTENT_TEXT_INSET)) / (
        CONTENT_LINE_HEIGHT as int)
    }
}

pub fn max_content_lines(height: i64) -> (r: i64)
    requires
        0 <= height <= 100_000,
    ensures
        r == spec_max_content_lines(height as int),
        1 <= r,
{
    let limit: i64 = HEADER_HEIGHT + 2 * CONTENT_PADDING_Y + CONTENT_TEXT_INSET;
    if height < limit + CONTENT_LINE_HEIGHT {
        1
    } else {
        let num: u64 = (height - limit) as u64;
        let q: u64 = num / (CONTENT_LINE_HEIGHT as u64);
        q as i64
    }
}

/// Index at which a text must be cut so that at most `max` lines remain:
/// the position of the `max`-th newline, or the length of the text if it
/// has fewer newlines than that.
pub open spec fn spec_cut_idx(s: Seq<char>, max: nat) -> int
    decreases s.len(),
{
    if s.len() == 0 {
        0
    } else if s[0] == '\n' && max <= 1 {
        0
    } else if s[0] == '\n' {
        1 + spec_cut_idx(s.skip(1), (max - 1) as nat)
    } else {
        1 + spec_cut_idx(s.skip(1), max)
    }
}

/// The first `max` lines of the text: everything before the `max`-th
/// newline.
pub open spec fn spec_clamp_lines(s: Seq<char>, max: nat) -> Seq<char> {
    s.take(spec_cut_idx(s, max))
}

proof fn lemma_cut_idx_bounds(s: Seq<char>, max: nat)
    ensures
        0 <= spec_cut_idx(s, max) <= s.len(),
    decreases s.len(),
{
    if s.len() != 0 {
        lemma_cut_idx_bounds(s.skip(1), max);
        lemma_cut_idx_bounds(s.skip(1), (max - 1) as nat);
    }
}

/// Find the cut index of the text's character sequence, scanning from
/// character `i` with `max` lines still allowed.
fn cut_index(s: &str, i: usize, max: u64, len: usize) -> (r: usize)
    requires
        i <= s@.len(),
        1 <= max,
        len == s@.len(),
        s@.len() < usize::MAX,
    ensures
        r == i + spec_cut_idx(s@.skip(i as int), max as nat),
        i <= r <= s@.len(),
    decreases s@.len() - i,
{
    proof {
        lemma_cut_idx_bounds(s@.skip(i as int), max as nat);
    }
    if i == len {
        assert(s@.skip(i as int) =~= Seq::<char>::empty());
        return i;
    }
    let c = s.get_char(i);
    assert(s@.skip(i as int)[0] == s@[i as int]);
    proof {
        assert(s@.skip(i as int).skip(1) =~= s@.skip(i as int + 1));
    }
    if c == '\n' {
        if max <= 1 {
            i
        } else {
            cut_index(s, i + 1, max - 1, len)
        }
    } else {
        cut_index(s, i + 1, max, len)
    }
}

/// The text clamped to at most `max` lines, everything from the `max`-th
/// newline on removed. Texts with at most `max` lines come back unchanged.
pub fn clamp_text_lines(text: &String, max: u64) -> (r: String)
    requires
        1 <= max,
        text@.len() < usize::MAX,
    ensures
        r@ == spec_clamp_lines(text@, max as nat),
{
    let s: &str = text.as_str();
    let len: usize = s.unicode_len();
    let cut: usize = cut_index(s, 0, max, len);
    proof {
        assert(s@.skip(0) =~= s@);
    }
    if cut == len {
        let r = text.clone();
        proof {
            assert(text@.take(cut as int) =~= text@);
        }
        r
    } else {
        let piece: &str = s.substring_char(0, cut);
        proof {
            assert(s@.subrange(0, cut as int) =~= s@.take(cut as int));
        }
        String::from_str(piece)
    }
}

} // verus!
