//! Fitting text to a column: truncation, padding and both together.
use crate::{
    calculate_width, char_width, codepoint_width, grapheme_safe_truncate, lemma_text_width_concat,
    text_width, truncated,
};
use vstd::prelude::*;
use vstd::string::*;

verus! {

/// Where a text sits inside the column that padding widens it to.
#[derive(Debug, Clone, Copy, PartialEq, Eq, Structural)]
pub enum Alignment {
    Left,
    Right,
    Center,
}

/// The alignment that a lowercase token names: `left`, `right` or `center`.
pub open spec fn alignment_named(t: Seq<char>) -> Option<Alignment> {
    if t == seq!['l', 'e', 'f', 't'] {
        Some(Alignment::Left)
    } else if t == seq!['r', 'i', 'g', 'h', 't'] {
        Some(Alignment::Right)
    } else if t == seq!['c', 'e', 'n', 't', 'e', 'r'] {
        Some(Alignment::Center)
    } else {
        None
    }
}

/// A text under Unicode's lowercase mapping.
pub uninterp spec fn lowercase_of(s: Seq<char>) -> Seq<char>;

/// Relies on `str::to_lowercase`: the text under Unicode's lowercase mapping,
/// a function of the text alone.
#[verifier::external_body]
fn to_lowercase(s: &str) -> (r: String)
    ensures
        r@ == lowercase_of(s@),
{
    s.to_lowercase()
}

/// The alignment that an already lowercased token names, if any.
pub fn alignment_from_lowercase(t: &str) -> (r: Option<Alignment>)
    ensures
        r == alignment_named(t@),
{
    proof {
        reveal_strlit("left");
        reveal_strlit("right");
        reveal_strlit("center");
        assert("left"@ =~= seq!['l', 'e', 'f', 't']);
        assert("right"@ =~= seq!['r', 'i', 'g', 'h', 't']);
        assert("center"@ =~= seq!['c', 'e', 'n', 't', 'e', 'r']);
    }
    let token = t.to_owned();
    if token == "left".to_owned() {
        Some(Alignment::Left)
    } else if token == "right".to_owned() {
        Some(Alignment::Right)
    } else if token == "center".to_owned() {
        Some(Alignment::Center)
    } else {
        None
    }
}

/// Reads an alignment token, in any letter case. Any other token is refused
/// with a message that quotes it.
pub fn parse_alignment(s: &str) -> (r: Result<Alignment, String>)
    ensures
        r is Ok <==> alignment_named(lowercase_of(s@)) is Some,
        r matches Ok(a) ==> alignment_named(lowercase_of(s@)) == Some(a),
        r matches Err(msg) ==> msg@ == "Invalid alignment: "@ + s@,
{
    let lowered = to_lowercase(s);
    match alignment_from_lowercase(lowered.as_str()) {
        Some(a) => Ok(a),
        None => {
            let mut msg = "Invalid alignment: ".to_owned();
            msg.append(s);
            Err(msg)
        },
    }
}

/// `n` space characters.
pub open spec fn spaces(n: nat) -> Seq<char> {
    Seq::new(n, |_i: int| ' ')
}

/// `s` widened with spaces to `target` columns, placed as `align` says; a text
/// already at least that wide is left as it is. Centering puts the odd space on
/// the right.
pub open spec fn padded(s: Seq<char>, target: nat, align: Alignment) -> Seq<char> {
    let current = text_width(s);
    if current >= target {
        s
    } else {
        let deficit = (target - current) as nat;
        match align {
            Alignment::Left => s + spaces(deficit),
            Alignment::Right => spaces(deficit) + s,
            Alignment::Center => spaces(deficit / 2) + s + spaces((deficit - deficit / 2) as nat),
        }
    }
}

/// A run of spaces is as wide as it is long, given that a space is one column.
proof fn lemma_spaces_width(n: nat)
    requires
        char_width(' ') == 1,
    ensures
        text_width(spaces(n)) == n,
    decreases n,
{
    if n > 0 {
        assert(spaces(n).drop_first() == spaces((n - 1) as nat));
        lemma_spaces_width((n - 1) as nat);
    } else {
        assert(text_width(spaces(0)) == 0);
    }
}

/// Appends `n` spaces to `r`.
fn push_spaces(r: &mut String, n: usize)
    ensures
        final(r)@ == old(r)@ + spaces(n as nat),
{
    proof {
        reveal_strlit(" ");
    }
    let mut i: usize = 0;
    assert(old(r)@ + spaces(0) == old(r)@);
    while i < n
        invariant
            i <= n,
            r@ == old(r)@ + spaces(i as nat),
        decreases n - i,
    {
        let ghost before = r@;
        r.append(" ");
        proof {
            reveal_strlit(" ");
            assert(r@ == before + seq![' ']);
            assert(old(r)@ + spaces((i + 1) as nat) =~= before + seq![' ']);
        }
        i = i + 1;
    }
}

/// Truncates `s` to at most `max_width` columns, codepoint by codepoint.
pub fn truncate(s: &str, max_width: usize) -> (r: String)
    ensures
        r@ == truncated(s@, max_width as nat),
        text_width(r@) <= max_width,
{
    grapheme_safe_truncate(s, max_width)
}

/// Pads `s` with spaces to `target_width` columns as `align` says. Padding
/// never shrinks: a text already that wide comes back unchanged, and the
/// result is exactly as wide as the wider of the two.
pub fn pad(s: &str, target_width: usize, align: Alignment) -> (r: String)
    ensures
        r@ == padded(s@, target_width as nat, align),
        text_width(r@) == if text_width(s@) >= target_width {
            text_width(s@)
        } else {
            target_width as nat
        },
        text_width(r@) >= text_width(s@),
        align == Alignment::Center && text_width(s@) < target_width ==> ({
            let deficit = (target_width - text_width(s@)) as nat;
            let left = deficit / 2;
            let right = (deficit - left) as nat;
            &&& r@ == spaces(left) + s@ + spaces(right)
            &&& (right == left || right == left + 1)
        }),
{
    let current_width = calculate_width(s);
    // Each space inserted below is one column wide; the width table says so.
    let space = codepoint_width(' ');
    assert(' ' as u32 == 0x20);
    assert(space == 1);
    if current_width >= target_width {
        return s.to_owned();
    }
    let padding_needed = target_width - current_width;
    let ghost d = padding_needed as nat;
    assert(current_width == text_width(s@));
    match align {
        Alignment::Left => {
            let mut r = s.to_owned();
            push_spaces(&mut r, padding_needed);
            proof {
                lemma_spaces_width(d);
                lemma_text_width_concat(s@, spaces(d));
            }
            r
        },
        Alignment::Right => {
            let mut r = String::new();
            push_spaces(&mut r, padding_needed);
            r.append(s);
            proof {
                assert(Seq::<char>::empty() + spaces(d) == spaces(d));
                lemma_spaces_width(d);
                lemma_text_width_concat(spaces(d), s@);
            }
            r
        },
        Alignment::Center => {
            let left_pad = padding_needed / 2;
            let right_pad = padding_needed - left_pad;
            let mut r = String::new();
            push_spaces(&mut r, left_pad);
            r.append(s);
            push_spaces(&mut r, right_pad);
            proof {
                assert(Seq::<char>::empty() + spaces(left_pad as nat) == spaces(left_pad as nat));
                lemma_spaces_width(left_pad as nat);
                lemma_spaces_width(right_pad as nat);
                lemma_text_width_concat(spaces(left_pad as nat), s@);
                lemma_text_width_concat(spaces(left_pad as nat) + s@, spaces(right_pad as nat));
            }
            r
        },
    }
}

/// Truncates `s` to `width` columns, then pads what is left back to `width`:
/// the result is always exactly `width` columns wide.
pub fn truncate_and_pad(s: &str, width: usize, align: Alignment) -> (r: String)
    ensures
        r@ == padded(truncated(s@, width as nat), width as nat, align),
        text_width(r@) == width,
{
    let t = truncate(s, width);
    pad(&t, width, align)
}

} // verus!
