//! Text utilities for formatting and display.

use vstd::prelude::*;
use crate::strings::{
    chars_to_string, dec_rep, digit_of, is_ws, is_ws_char, join_strings, join_with, push_char,
    str_to_chars, u64_to_dec, views_of,
};

verus! {

/// What `unicode_width`'s character width reports: the number of
/// terminal columns, absent for a control character; a function of the
/// character alone.
pub uninterp spec fn width_of(c: char) -> Option<usize>;

/// What `unicode_width`'s string width reports for a text: a function
/// of the characters alone.
pub uninterp spec fn str_width_of(s: Seq<char>) -> nat;

/// Relies on unicode_width::UnicodeWidthChar::width: the displayed
/// column width of one character.
#[verifier::external_body]
fn char_width(c: char) -> (r: Option<usize>)
    ensures
        r == width_of(c),
{
    unicode_width::UnicodeWidthChar::width(c)
}

/// Relies on unicode_width::UnicodeWidthStr::width: the displayed
/// column width of a text; an empty text has width zero.
#[verifier::external_body]
fn str_width(s: &str) -> (r: usize)
    ensures
        r as nat == str_width_of(s@),
        s@.len() == 0 ==> r == 0,
{
    unicode_width::UnicodeWidthStr::width(s)
}

/// The width a character contributes when accumulated: a control
/// character counts as zero.
pub open spec fn char_cols(c: char) -> int {
    match width_of(c) {
        Some(w) => w as int,
        None => 0,
    }
}

/// The prefix kept by truncation to a width: the longest run of leading
/// characters whose accumulated width, plus one column for the
/// ellipsis, stays within the bound.
pub open spec fn trunc_keep(s: Seq<char>, width: int, max_width: int) -> int
    decreases s.len(),
{
    if s.len() == 0 {
        0
    } else if width + char_cols(s[0]) + 1 > max_width {
        0
    } else {
        1 + trunc_keep(s.drop_first(), width + char_cols(s[0]), max_width)
    }
}

/// A text truncated to a column width: the text itself when it fits,
/// else its kept prefix with an ellipsis appended.
pub open spec fn truncate_spec(s: Seq<char>, max_width: int) -> Seq<char> {
    if str_width_of(s) <= max_width {
        s
    } else {
        s.take(trunc_keep(s, 0, max_width)) + "\u{2026}"@
    }
}

proof fn lemma_trunc_keep_step(s: Seq<char>, width: int, max_width: int, j: int)
    requires
        0 <= j <= s.len(),
        forall|k: int| 1 <= k <= j ==> #[trigger] cols_upto(s, k) + 1 <= max_width,
        j < s.len() ==> cols_upto(s, j + 1) + 1 > max_width,
        width == 0,
    ensures
        trunc_keep(s, 0, max_width) == j,
    decreases s.len(),
{
    lemma_trunc_keep_gen(s, 0, max_width, j);
}

/// The accumulated width of the first `i` characters.
pub open spec fn cols_upto(s: Seq<char>, i: int) -> int
    decreases i,
{
    if i <= 0 {
        0
    } else {
        cols_upto(s, i - 1) + char_cols(s[i - 1])
    }
}

proof fn lemma_trunc_keep_gen(s: Seq<char>, base: int, max_width: int, j: int)
    requires
        0 <= j <= s.len(),
        forall|k: int| 1 <= k <= j ==> base + #[trigger] cols_upto(s, k) + 1 <= max_width,
        j < s.len() ==> base + cols_upto(s, j + 1) + 1 > max_width,
    ensures
        trunc_keep(s, base, max_width) == j,
    decreases s.len(),
{
    if s.len() == 0 {
    } else if j == 0 {
        assert(cols_upto(s, 0) == 0);
        assert(cols_upto(s, 1) == char_cols(s[0]));
    } else {
        assert(cols_upto(s, 0) == 0);
        assert(cols_upto(s, 1) == char_cols(s[0]));
        assert(base + cols_upto(s, 1) + 1 <= max_width);
        let t = s.drop_first();
        assert forall|k: int| 1 <= k <= j - 1 implies (base + char_cols(s[0])) + #[trigger] cols_upto(
            t,
            k,
        ) + 1 <= max_width by {
            lemma_cols_shift(s, k);
            assert(cols_upto(s, k + 1) + 1 <= max_width + 0 - base);
        }
        if j - 1 < t.len() {
            lemma_cols_shift(s, j);
        }
        lemma_trunc_keep_gen(t, base + char_cols(s[0]), max_width, j - 1);
    }
}

proof fn lemma_cols_shift(s: Seq<char>, i: int)
    requires
        s.len() > 0,
        1 <= i + 1 <= s.len(),
    ensures
        cols_upto(s, i + 1) == char_cols(s[0]) + cols_upto(s.drop_first(), i),
    decreases i,
{
    if i > 0 {
        lemma_cols_shift(s, i - 1);
        assert(s.drop_first()[i - 1] == s[i]);
    } else {
        assert(cols_upto(s, 0) == 0);
        assert(cols_upto(s.drop_first(), 0) == 0);
        assert(cols_upto(s, 1) == char_cols(s[0]));
    }
}

/// Truncates a text to fit a column width, appending an ellipsis when
/// anything was cut.
#[verifier::loop_isolation(false)]
pub fn truncate(s: &str, max_width: usize) -> (r: String)
    ensures
        r@ == truncate_spec(s@, max_width as int),
{
    let w = str_width(s);
    if w <= max_width {
        return s.to_owned();
    }
    let v = str_to_chars(s);
    let n = v.len();
    let mut width: usize = 0;
    let mut i: usize = 0;
    let mut out: Vec<char> = Vec::new();
    proof {
        assert(v@.take(0) =~= Seq::<char>::empty());
        assert(cols_upto(v@, 0) == 0);
    }
    while i < n
        invariant
            i <= n,
            n == v@.len(),
            width == cols_upto(v@, i as int),
            width + 1 <= usize::MAX,
            out@ == v@.take(i as int),
            forall|k: int| 1 <= k <= i ==> #[trigger] cols_upto(v@, k) + 1 <= max_width,
        decreases n - i,
    {
        let c = v[i];
        let cw: usize = match char_width(c) {
            Some(cw) => cw,
            None => 0,
        };
        proof {
            assert(cols_upto(v@, i + 1) == cols_upto(v@, i as int) + char_cols(v@[i as int]));
        }
        if cw > usize::MAX - 1 - width || width + cw + 1 > max_width {
            proof {
                assert(cols_upto(v@, i + 1) + 1 > max_width);
                lemma_trunc_keep_step(v@, 0, max_width as int, i as int);
            }
            out.push('\u{2026}');
            proof {
                reveal_strlit("\u{2026}");
                assert(out@ =~= v@.take(i as int) + "\u{2026}"@);
            }
            return chars_to_string(&out);
        }
        out.push(c);
        proof {
            assert(out@ =~= v@.take(i + 1));
        }
        width = width + cw;
        i = i + 1;
    }
    proof {
        lemma_trunc_keep_step(v@, 0, max_width as int, n as int);
        assert(v@.take(n as int) =~= v@);
    }
    out.push('\u{2026}');
    proof {
        reveal_strlit("\u{2026}");
        assert(out@ =~= v@.take(n as int) + "\u{2026}"@);
    }
    chars_to_string(&out)
}

/// A count shortened for display: millions and thousands with one
/// decimal digit rounded half to even on the exact quotient, smaller
/// counts in full.
pub open spec fn format_number_spec(n: u64) -> Seq<char> {
    if n >= 1000000 {
        scaled_count(crate::utils::path::tenths_of(n as int, 1000000), "M"@)
    } else if n >= 1000 {
        scaled_count(crate::utils::path::tenths_of(n as int, 1000), "K"@)
    } else {
        dec_rep(n as nat)
    }
}

/// The text of a scaled count: whole part, a dot, one digit, suffix.
pub open spec fn scaled_count(tenths: int, suffix: Seq<char>) -> Seq<char> {
    dec_rep((tenths / 10) as nat) + "."@ + seq![crate::strings::digit_char((tenths % 10) as nat)]
        + suffix
}

/// Formats a count with a thousands or millions suffix and one rounded
/// decimal.
pub fn format_number(n: u64) -> (r: String)
    ensures
        r@ == format_number_spec(n),
{
    if n >= 1000000 {
        let t = count_tenths(n, 1000000);
        let mut r = u64_to_dec(t / 10);
        r.append(".");
        push_char(&mut r, digit_of(t % 10));
        r.append("M");
        proof {
            assert(r@ =~= scaled_count(t as int, "M"@));
        }
        r
    } else if n >= 1000 {
        let t = count_tenths(n, 1000);
        let mut r = u64_to_dec(t / 10);
        r.append(".");
        push_char(&mut r, digit_of(t % 10));
        r.append("K");
        proof {
            assert(r@ =~= scaled_count(t as int, "K"@));
        }
        r
    } else {
        u64_to_dec(n)
    }
}

/// Computes the rounded tenths of `n / unit`.
fn count_tenths(n: u64, unit: u64) -> (r: u64)
    requires
        unit >= 1000,
        n >= unit,
        unit <= 1000000,
    ensures
        r == crate::utils::path::tenths_of(n as int, unit as int),
        r >= 10,
{
    proof {
        let b = n as int;
        let u = unit as int;
        vstd::arithmetic::div_mod::lemma_div_is_ordered_by_denominator(b, 1000, u);
        assert(b / u <= b / 1000);
        vstd::arithmetic::div_mod::lemma_div_is_ordered(b, 0xFFFF_FFFF_FFFF_FFFF, 1000);
        assert(b / 1000 <= 0xFFFF_FFFF_FFFF_FFFFint / 1000);
        assert(b % u * 10 / u < 10) by (nonlinear_arith)
            requires
                u >= 1,
                0 <= b % u < u,
        ;
        assert(b % u * 10 / u >= 0) by (nonlinear_arith)
            requires
                u >= 1,
                b % u >= 0,
        ;
        assert(b * 10 / u == b / u * 10 + b % u * 10 / u && b * 10 % u == b % u * 10 % u) by (
        nonlinear_arith)
            requires
                u >= 1,
                b >= 0,
        ;
        assert(b / u >= 1) by (nonlinear_arith)
            requires
                b >= u,
                u >= 1,
        ;
    }
    let q = (n / unit) * 10 + (n % unit) * 10 / unit;
    let rem = (n % unit) * 10 % unit;
    if 2 * rem > unit {
        q + 1
    } else if 2 * rem < unit {
        q
    } else if q % 2 == 0 {
        q
    } else {
        q + 1
    }
}

/// A text padded with spaces on the right up to a column width; a text
/// already that wide passes through.
pub open spec fn pad_right_spec(s: Seq<char>, width: int) -> Seq<char> {
    if str_width_of(s) >= width {
        s
    } else {
        s + spaces(width - str_width_of(s))
    }
}

/// A run of spaces.
pub open spec fn spaces(n: int) -> Seq<char>
    decreases n,
{
    if n <= 0 {
        Seq::empty()
    } else {
        spaces(n - 1).push(' ')
    }
}

/// Pads a text with spaces on the right to a column width.
pub fn pad_right(s: &str, width: usize) -> (r: String)
    ensures
        r@ == pad_right_spec(s@, width as int),
{
    let current = str_width(s);
    if current >= width {
        return s.to_owned();
    }
    let mut r = s.to_owned();
    let mut k: usize = 0;
    let pad = width - current;
    while k < pad
        invariant
            k <= pad,
            r@ == s@ + spaces(k as int),
        decreases pad - k,
    {
        push_char(&mut r, ' ');
        k = k + 1;
    }
    r
}

/// The whitespace-separated words of a text, in order.
pub open spec fn ws_tokens(s: Seq<char>) -> Seq<Seq<char>>
    decreases s.len(),
{
    if s.len() == 0 {
        Seq::empty()
    } else {
        let t = ws_tokens(s.drop_last());
        let c = s.last();
        if is_ws(c) {
            t
        } else if s.len() >= 2 && !is_ws(s[s.len() - 2]) {
            t.update(t.len() - 1, t.last().push(c))
        } else {
            t.push(seq![c])
        }
    }
}

/// A text with its whitespace normalized: its words joined by single
/// spaces.
pub open spec fn normalize_spec(s: Seq<char>) -> Seq<char> {
    join_with(ws_tokens(s), " "@)
}

/// Collapses every whitespace run to a single space and trims the ends.
#[verifier::loop_isolation(false)]
pub fn normalize_whitespace(s: &str) -> (r: String)
    ensures
        r@ == normalize_spec(s@),
{
    let v = str_to_chars(s);
    let n = v.len();
    let mut words: Vec<String> = Vec::new();
    let mut cur: Vec<char> = Vec::new();
    let mut i: usize = 0;
    proof {
        assert(v@.take(0) =~= Seq::<char>::empty());
        assert(views_of(words@) =~= ws_tokens(v@.take(0)));
    }
    while i < n
        invariant
            i <= n,
            n == v@.len(),
            cur@.len() > 0 <==> (i > 0 && !is_ws(v@[i - 1])),
            cur@.len() > 0 ==> ws_tokens(v@.take(i as int)) == views_of(words@).push(cur@),
            cur@.len() == 0 ==> ws_tokens(v@.take(i as int)) == views_of(words@),
        decreases n - i,
    {
        let c = v[i];
        proof {
            assert(v@.take(i + 1).drop_last() =~= v@.take(i as int));
            assert(v@.take(i + 1).last() == v@[i as int]);
            if i > 0 {
                assert(v@.take(i + 1)[i - 1] == v@[i - 1]);
            }
        }
        if is_ws_char(c) {
            if cur.len() > 0 {
                words.push(chars_to_string(&cur));
                cur = Vec::new();
                proof {
                    assert(views_of(words@) =~= ws_tokens(v@.take(i + 1)));
                }
            }
        } else {
            if cur.len() > 0 {
                let ghost oldcur = cur@;
                proof {
                    let t = ws_tokens(v@.take(i as int));
                    assert(t =~= views_of(words@).push(oldcur));
                    assert(t.len() == views_of(words@).len() + 1);
                    assert(t.last() == oldcur);
                }
                cur.push(c);
                proof {
                    let t0 = ws_tokens(v@.take(i as int));
                    assert(cur@ == oldcur.push(c));
                    assert(ws_tokens(v@.take(i + 1)) =~= t0.update(
                        t0.len() - 1,
                        t0.last().push(c),
                    ));
                    assert(t0.update(t0.len() - 1, t0.last().push(c)) =~= views_of(
                        words@,
                    ).push(oldcur.push(c)));
                    assert(ws_tokens(v@.take(i + 1)) =~= views_of(words@).push(cur@));
                }
            } else {
                let ghost oldcur = cur@;
                cur.push(c);
                proof {
                    assert(oldcur =~= Seq::<char>::empty());
                    assert(cur@ =~= seq![c]);
                    assert(ws_tokens(v@.take(i + 1)) =~= views_of(words@).push(cur@));
                }
            }
        }
        i = i + 1;
    }
    if cur.len() > 0 {
        words.push(chars_to_string(&cur));
    }
    proof {
        assert(v@.take(n as int) =~= v@);
        assert(views_of(words@) =~= ws_tokens(v@));
    }
    join_strings(&words, " ")
}

} // verus!
