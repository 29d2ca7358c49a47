//! Terminal display width of Unicode text, measured one codepoint at a time.
use unicode_width::UnicodeWidthChar;
use vstd::prelude::*;
use vstd::string::*;

pub mod truncate;

verus! {

/// The column width that the Unicode width tables give a single codepoint;
/// `None` for control characters.
pub uninterp spec fn unicode_char_width(c: char) -> Option<usize>;

/// Width of one codepoint in columns: a codepoint without a width counts as zero.
pub open spec fn char_width(c: char) -> nat {
    match unicode_char_width(c) {
        Some(w) => w as nat,
        None => 0,
    }
}

/// Total width of a codepoint sequence: each codepoint is priced on its own.
pub open spec fn text_width(s: Seq<char>) -> nat
    decreases s.len(),
{
    if s.len() == 0 {
        0
    } else {
        char_width(s[0]) + text_width(s.drop_first())
    }
}

/// Each codepoint of `s` paired with its width, in order.
pub open spec fn breakdown_of(s: Seq<char>) -> Seq<(char, usize)> {
    s.map_values(|c: char| (c, char_width(c) as usize))
}

/// Sum of the widths listed in a breakdown.
pub open spec fn breakdown_total(b: Seq<(char, usize)>) -> nat
    decreases b.len(),
{
    if b.len() == 0 {
        0
    } else {
        b[0].1 as nat + breakdown_total(b.drop_first())
    }
}

/// A width as a `usize`, held at `usize::MAX` where it would not fit.
pub open spec fn saturated(n: nat) -> usize {
    if n <= usize::MAX {
        n as usize
    } else {
        usize::MAX
    }
}

/// Greedy truncation: whole codepoints are taken from the start of `s` while
/// their widths fit in `budget`; the first one that would overflow it ends the
/// result, and nothing after it is taken.
pub open spec fn truncated(s: Seq<char>, budget: nat) -> Seq<char>
    decreases s.len(),
{
    if s.len() == 0 || char_width(s[0]) > budget {
        Seq::empty()
    } else {
        seq![s[0]] + truncated(s.drop_first(), (budget - char_width(s[0])) as nat)
    }
}

/// Appending a codepoint adds its width.
pub proof fn lemma_text_width_push(s: Seq<char>, c: char)
    ensures
        text_width(s.push(c)) == text_width(s) + char_width(c),
    decreases s.len(),
{
    if s.len() > 0 {
        assert(s.push(c).drop_first() == s.drop_first().push(c));
        lemma_text_width_push(s.drop_first(), c);
        assert(s.push(c)[0] == s[0]);
    } else {
        assert(s.push(c).drop_first() == Seq::<char>::empty());
        assert(text_width(Seq::<char>::empty()) == 0);
    }
}

/// The width of a concatenation is the sum of the widths of its parts.
pub proof fn lemma_text_width_concat(a: Seq<char>, b: Seq<char>)
    ensures
        text_width(a + b) == text_width(a) + text_width(b),
    decreases a.len(),
{
    if a.len() > 0 {
        assert((a + b).drop_first() == a.drop_first() + b);
        lemma_text_width_concat(a.drop_first(), b);
    } else {
        assert(a + b == b);
    }
}

/// Additivity: the width of a text is the sum of the widths that its
/// breakdown lists, one entry per codepoint.
pub proof fn lemma_width_is_breakdown_sum(s: Seq<char>)
    ensures
        text_width(s) == breakdown_total(breakdown_of(s)),
        breakdown_of(s).len() == s.len(),
    decreases s.len(),
{
    if s.len() > 0 {
        assert(breakdown_of(s).drop_first() == breakdown_of(s.drop_first()));
        lemma_width_is_breakdown_sum(s.drop_first());
    }
}

/// A truncated text never takes more columns than its budget.
pub proof fn lemma_truncated_fits(s: Seq<char>, budget: nat)
    ensures
        text_width(truncated(s, budget)) <= budget,
    decreases s.len(),
{
    if s.len() > 0 && char_width(s[0]) <= budget {
        let b2 = (budget - char_width(s[0])) as nat;
        lemma_truncated_fits(s.drop_first(), b2);
        lemma_text_width_concat(seq![s[0]], truncated(s.drop_first(), b2));
        assert(seq![s[0]].drop_first() == Seq::<char>::empty());
        assert(text_width(Seq::<char>::empty()) == 0);
    } else {
        assert(text_width(Seq::<char>::empty()) == 0);
    }
}

/// A truncated text is a prefix of the original, codepoint for codepoint.
pub proof fn lemma_truncated_is_prefix(s: Seq<char>, budget: nat)
    ensures
        truncated(s, budget).len() <= s.len(),
        truncated(s, budget) == s.take(truncated(s, budget).len() as int),
    decreases s.len(),
{
    if s.len() > 0 && char_width(s[0]) <= budget {
        let b2 = (budget - char_width(s[0])) as nat;
        lemma_truncated_is_prefix(s.drop_first(), b2);
        let t = truncated(s, budget);
        assert(t == s.take(t.len() as int));
    } else {
        assert(truncated(s, budget) == s.take(0));
    }
}

/// Truncation is monotone in the budget: a smaller budget gives a prefix of
/// what a larger one gives.
pub proof fn lemma_truncated_monotone(s: Seq<char>, w1: nat, w2: nat)
    requires
        w1 <= w2,
    ensures
        truncated(s, w1).len() <= truncated(s, w2).len(),
        truncated(s, w1) == truncated(s, w2).take(truncated(s, w1).len() as int),
    decreases s.len(),
{
    if s.len() > 0 && char_width(s[0]) <= w1 {
        let c = char_width(s[0]);
        lemma_truncated_monotone(s.drop_first(), (w1 - c) as nat, (w2 - c) as nat);
        let t1 = truncated(s, w1);
        let t2 = truncated(s, w2);
        assert(t1 == t2.take(t1.len() as int));
    } else {
        assert(truncated(s, w1) == truncated(s, w2).take(0));
    }
}

/// Relies on `UnicodeWidthChar::width` for `char` (unicode-width): the width of
/// one codepoint from the crate's tables, `None` for the C0 and C1 control
/// codes, one column for printable ASCII, and never more than three columns.
#[verifier::external_body]
fn lookup_char_width(c: char) -> (r: Option<usize>)
    ensures
        r == unicode_char_width(c),
        0x20 <= c as u32 && c as u32 <= 0x7e ==> r == Some(1usize),
        c as u32 <= 0x1f || (0x7f <= c as u32 && c as u32 <= 0x9f) ==> r is None,
        r matches Some(w) ==> w <= 3,
{
    UnicodeWidthChar::width(c)
}

/// Width of one codepoint, zero where the tables give none.
pub fn codepoint_width(c: char) -> (w: usize)
    ensures
        w == char_width(c),
        w <= 3,
        0x20 <= c as u32 && c as u32 <= 0x7e ==> w == 1,
{
    match lookup_char_width(c) {
        Some(w) => w,
        None => 0,
    }
}

/// Display width of `s`: the sum of its codepoints' widths (held at
/// `usize::MAX`, which no text that fits in memory reaches).
pub fn calculate_width(s: &str) -> (r: usize)
    ensures
        r == saturated(text_width(s@)),
{
    let mut total: usize = 0;
    for c in it: s.chars()
        invariant
            it.seq() == s@,
            total == saturated(text_width(s@.take(it.index() as int))),
    {
        let w = codepoint_width(c);
        proof {
            assert(s@.take(it.index() as int + 1) == s@.take(it.index() as int).push(c));
            lemma_text_width_push(s@.take(it.index() as int), c);
        }
        total = total.saturating_add(w);
    }
    assert(s@.take(s@.len() as int) == s@);
    total
}

/// Each codepoint of `s` with its display width, in text order.
pub fn width_breakdown(s: &str) -> (r: Vec<(char, usize)>)
    ensures
        r@ == breakdown_of(s@),
{
    let mut r: Vec<(char, usize)> = Vec::new();
    for c in it: s.chars()
        invariant
            it.seq() == s@,
            r@ == breakdown_of(s@.take(it.index() as int)),
    {
        let w = codepoint_width(c);
        r.push((c, w));
        assert(s@.take(it.index() as int + 1) == s@.take(it.index() as int).push(c));
    }
    assert(s@.take(s@.len() as int) == s@);
    r
}

/// The longest prefix of `s` whose width fits in `max_width`, built greedily
/// codepoint by codepoint. A codepoint that would overflow the budget ends the
/// result, so a wide codepoint is never split and may leave a column unused.
/// Multi-codepoint clusters are not kept together.
pub fn grapheme_safe_truncate(s: &str, max_width: usize) -> (r: String)
    ensures
        r@ == truncated(s@, max_width as nat),
        text_width(r@) <= max_width,
{
    let len = s.unicode_len();
    let mut kept: usize = 0;
    let mut current: usize = 0;
    assert(s@.skip(0) == s@);
    assert(s@.take(0) + s@ == s@);
    for c in it: s.chars()
        invariant_except_break
            kept == it.index(),
            truncated(s@, max_width as nat) == s@.take(kept as int) + truncated(
                s@.skip(kept as int),
                (max_width - current) as nat,
            ),
        invariant
            it.seq() == s@,
            len == s@.len(),
            current <= max_width,
        ensures
            kept <= s@.len(),
            truncated(s@, max_width as nat) == s@.take(kept as int),
    {
        let w = codepoint_width(c);
        let ghost rest = s@.skip(kept as int);
        assert(rest[0] == c);
        if w > max_width - current {
            assert(truncated(rest, (max_width - current) as nat) == Seq::<char>::empty());
            assert(s@.take(kept as int) + Seq::<char>::empty() == s@.take(kept as int));
            break;
        }
        proof {
            let b = (max_width - current) as nat;
            assert(rest.drop_first() == s@.skip(kept + 1));
            assert(s@.take(kept + 1) == s@.take(kept as int) + seq![c]);
            assert(s@.take(kept as int) + (seq![c] + truncated(rest.drop_first(), (b - w) as nat))
                == s@.take(kept + 1) + truncated(rest.drop_first(), (b - w) as nat));
        }
        kept = kept + 1;
        current = current + w;
    }
    proof {
        if kept == s@.len() {
            assert(s@.skip(kept as int) == Seq::<char>::empty());
        }
        lemma_truncated_fits(s@, max_width as nat);
    }
    let prefix = s.substring_char(0, kept);
    prefix.to_owned()
}

} // verus!
