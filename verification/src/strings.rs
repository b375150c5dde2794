//! Verified helpers for character-level string work.
//!
//! Strings are handled as sequences of characters: a `&str` or `String` is
//! read into a `Vec<char>`, the logic runs over plain characters, and the
//! result is rebuilt as a `String`.

use vstd::prelude::*;

verus! {

broadcast use vstd::string::group_string_axioms;

/// Relies on String::push: appends exactly one character at the end.
#[verifier::external_body]
pub fn push_char(s: &mut String, c: char)
    ensures
        final(s)@ == old(s)@.push(c),
{
    s.push(c);
}

/// Reads a string slice into its characters.
pub fn str_to_chars(s: &str) -> (v: Vec<char>)
    ensures
        v@ == s@,
{
    let n = s.unicode_len();
    let mut v: Vec<char> = Vec::new();
    let mut i: usize = 0;
    while i < n
        invariant
            n == s@.len(),
            i <= n,
            v@ == s@.subrange(0, i as int),
        decreases n - i,
    {
        let c = s.get_char(i);
        v.push(c);
        i = i + 1;
    }
    proof {
        assert(v@ =~= s@);
    }
    v
}

/// Builds a string from its characters.
pub fn chars_to_string(v: &Vec<char>) -> (s: String)
    ensures
        s@ == v@,
{
    let mut s = String::new();
    let mut i: usize = 0;
    while i < v.len()
        invariant
            i <= v@.len(),
            s@ == v@.subrange(0, i as int),
        decreases v@.len() - i,
    {
        push_char(&mut s, v[i]);
        i = i + 1;
    }
    proof {
        assert(s@ =~= v@);
    }
    s
}

/// Whether two string slices hold the same characters.
pub fn str_eq(a: &str, b: &str) -> (r: bool)
    ensures
        r == (a@ == b@),
{
    let oa = a.to_owned();
    let ob = b.to_owned();
    oa == ob
}

/// The White_Space characters, as `char::is_whitespace` reports them.
pub open spec fn is_ws(c: char) -> bool {
    c == ' ' || c == '\t' || c == '\n' || c == '\u{b}' || c == '\u{c}' || c == '\r' || c
        == '\u{85}' || c == '\u{a0}' || c == '\u{1680}' || c == '\u{2000}' || c == '\u{2001}' || c
        == '\u{2002}' || c == '\u{2003}' || c == '\u{2004}' || c == '\u{2005}' || c == '\u{2006}'
        || c == '\u{2007}' || c == '\u{2008}' || c == '\u{2009}' || c == '\u{200a}' || c
        == '\u{2028}' || c == '\u{2029}' || c == '\u{202f}' || c == '\u{205f}' || c == '\u{3000}'
}

/// Executable check matching `is_ws`.
pub fn is_ws_char(c: char) -> (r: bool)
    ensures
        r == is_ws(c),
{
    c == ' ' || c == '\t' || c == '\n' || c == '\u{b}' || c == '\u{c}' || c == '\r' || c
        == '\u{85}' || c == '\u{a0}' || c == '\u{1680}' || c == '\u{2000}' || c == '\u{2001}' || c
        == '\u{2002}' || c == '\u{2003}' || c == '\u{2004}' || c == '\u{2005}' || c == '\u{2006}'
        || c == '\u{2007}' || c == '\u{2008}' || c == '\u{2009}' || c == '\u{200a}' || c
        == '\u{2028}' || c == '\u{2029}' || c == '\u{202f}' || c == '\u{205f}' || c == '\u{3000}'
}

/// The sequence without its leading whitespace.
pub open spec fn trim_start_spec(s: Seq<char>) -> Seq<char>
    decreases s.len(),
{
    if s.len() > 0 && is_ws(s[0]) {
        trim_start_spec(s.drop_first())
    } else {
        s
    }
}

/// The sequence without its trailing whitespace.
pub open spec fn trim_end_spec(s: Seq<char>) -> Seq<char>
    decreases s.len(),
{
    if s.len() > 0 && is_ws(s[s.len() - 1]) {
        trim_end_spec(s.drop_last())
    } else {
        s
    }
}

/// The sequence without leading or trailing whitespace, as `str::trim`.
pub open spec fn trim_spec(s: Seq<char>) -> Seq<char> {
    trim_end_spec(trim_start_spec(s))
}

proof fn lemma_trim_start_range(s: Seq<char>, i: int)
    requires
        0 <= i <= s.len(),
        forall|j: int| 0 <= j < i ==> is_ws(s[j]),
    ensures
        trim_start_spec(s) == trim_start_spec(s.skip(i)),
    decreases i,
{
    if i > 0 {
        assert(s.len() > 0 && is_ws(s[0]));
        assert(trim_start_spec(s) == trim_start_spec(s.drop_first()));
        assert(s.drop_first() =~= s.skip(1));
        lemma_trim_start_range(s.skip(1), i - 1);
        assert(s.skip(1).skip(i - 1) =~= s.skip(i));
    } else {
        assert(s.skip(0) =~= s);
    }
}

proof fn lemma_trim_end_range(s: Seq<char>, i: int)
    requires
        0 <= i <= s.len(),
        forall|j: int| i <= j < s.len() ==> is_ws(s[j]),
    ensures
        trim_end_spec(s) == trim_end_spec(s.take(i)),
    decreases s.len() - i,
{
    if i < s.len() {
        assert(is_ws(s[s.len() - 1]));
        assert(trim_end_spec(s) == trim_end_spec(s.drop_last()));
        assert(s.drop_last() =~= s.take(s.len() - 1));
        lemma_trim_end_range(s.take(s.len() - 1), i);
        assert(s.take(s.len() - 1).take(i) =~= s.take(i));
    } else {
        assert(s.take(s.len() as int) =~= s);
    }
}

/// Trims the characters of `v` on both ends, as `str::trim` would.
pub fn trim_chars(v: &Vec<char>) -> (r: Vec<char>)
    ensures
        r@ == trim_spec(v@),
{
    let n = v.len();
    let mut lo: usize = 0;
    while lo < n && is_ws_char(v[lo])
        invariant
            lo <= n,
            n == v@.len(),
            forall|j: int| 0 <= j < lo ==> is_ws(v@[j]),
        decreases n - lo,
    {
        lo = lo + 1;
    }
    let mut hi: usize = n;
    while hi > lo && is_ws_char(v[hi - 1])
        invariant
            lo <= hi <= n,
            n == v@.len(),
            forall|j: int| hi <= j < n ==> is_ws(v@[j]),
        decreases hi,
    {
        hi = hi - 1;
    }
    let mut r: Vec<char> = Vec::new();
    let mut i: usize = lo;
    while i < hi
        invariant
            lo <= i <= hi <= n,
            n == v@.len(),
            r@ == v@.subrange(lo as int, i as int),
        decreases hi - i,
    {
        r.push(v[i]);
        i = i + 1;
    }
    proof {
        lemma_trim_start_range(v@, lo as int);
        let t = v@.skip(lo as int);
        if lo < n {
            assert(!is_ws(v@[lo as int]));
            assert(t.len() > 0 && !is_ws(t[0]));
            assert(trim_start_spec(t) == t);
        } else {
            assert(t.len() == 0);
            assert(trim_start_spec(t) == t);
        }
        assert(trim_start_spec(v@) == t);
        lemma_trim_end_range(t, hi - lo);
        let u = t.take(hi - lo);
        if hi > lo {
            assert(!is_ws(v@[hi - 1]));
            assert(u[u.len() - 1] == v@[hi - 1]);
            assert(trim_end_spec(u) == u);
        } else {
            assert(u.len() == 0);
            assert(trim_end_spec(u) == u);
        }
        assert(trim_spec(v@) == u);
        assert(r@ =~= u);
    }
    r
}

/// Trims a string slice on both ends, as `str::trim`.
pub fn trim_str(s: &str) -> (r: String)
    ensures
        r@ == trim_spec(s@),
{
    let v = str_to_chars(s);
    let t = trim_chars(&v);
    chars_to_string(&t)
}

/// The views of a list of strings.
pub open spec fn views_of(parts: Seq<String>) -> Seq<Seq<char>> {
    parts.map_values(|p: String| p@)
}

/// `parts` joined with `sep` between consecutive parts.
pub open spec fn join_with(parts: Seq<Seq<char>>, sep: Seq<char>) -> Seq<char>
    decreases parts.len(),
{
    if parts.len() == 0 {
        Seq::empty()
    } else if parts.len() == 1 {
        parts[0]
    } else {
        parts[0] + sep + join_with(parts.drop_first(), sep)
    }
}

/// Joins strings with a separator, as `[String]::join`.
pub fn join_strings(parts: &Vec<String>, sep: &str) -> (r: String)
    ensures
        r@ == join_with(views_of(parts@), sep@),
{
    let mut r = String::new();
    let mut i: usize = 0;
    while i < parts.len()
        invariant
            i <= parts@.len(),
            r@ == join_with(views_of(parts@.take(i as int)), sep@),
        decreases parts@.len() - i,
    {
        if i > 0 {
            r.append(sep);
        }
        r.append(parts[i].as_str());
        proof {
            lemma_join_step(views_of(parts@), sep@, i as int);
            assert(views_of(parts@.take(i + 1)) =~= views_of(parts@).take(i + 1));
            assert(views_of(parts@.take(i as int)) =~= views_of(parts@).take(i as int));
        }
        i = i + 1;
    }
    proof {
        assert(parts@.take(parts@.len() as int) =~= parts@);
    }
    r
}

/// Appending one more part extends a join by a separator (when nonempty)
/// and the part.
proof fn lemma_join_step(parts: Seq<Seq<char>>, sep: Seq<char>, i: int)
    requires
        0 <= i < parts.len(),
    ensures
        i == 0 ==> join_with(parts.take(1), sep) == parts[0],
        i > 0 ==> join_with(parts.take(i + 1), sep) == join_with(parts.take(i), sep) + sep
            + parts[i],
    decreases i,
{
    if i == 0 {
        assert(parts.take(1).len() == 1);
        assert(join_with(parts.take(1), sep) == parts.take(1)[0]);
    } else {
        let a = parts.take(i + 1);
        let b = parts.take(i);
        assert(a.len() == i + 1);
        assert(b.len() == i);
        if i == 1 {
            assert(join_with(a, sep) == a[0] + sep + join_with(a.drop_first(), sep));
            assert(a.drop_first() =~= seq![parts[1]]);
            assert(join_with(a.drop_first(), sep) == parts[1]);
            assert(join_with(b, sep) == b[0]);
            assert(b[0] == parts[0]);
            assert(a[0] == parts[0]);
        } else {
            lemma_join_step(parts.drop_first(), sep, i - 1);
            assert(a.drop_first() =~= parts.drop_first().take(i as int));
            assert(b.drop_first() =~= parts.drop_first().take(i - 1));
            assert(join_with(a, sep) == a[0] + sep + join_with(a.drop_first(), sep));
            assert(join_with(b, sep) == b[0] + sep + join_with(b.drop_first(), sep));
            assert(parts.drop_first()[i - 1] == parts[i]);
            assert(join_with(parts.drop_first().take(i as int), sep) == join_with(
                parts.drop_first().take(i - 1),
                sep,
            ) + sep + parts[i]);
            assert(a[0] + sep + (join_with(b.drop_first(), sep) + sep + parts[i]) =~= (b[0] + sep
                + join_with(b.drop_first(), sep)) + sep + parts[i]);
        }
    }
}

/// Whether `needle` occurs in `hay` starting at position `i`.
pub open spec fn occurs_at(hay: Seq<char>, needle: Seq<char>, i: int) -> bool {
    0 <= i && i + needle.len() <= hay.len() && hay.subrange(i, i + needle.len()) == needle
}

/// Whether `needle` occurs anywhere in `hay`, as `str::contains`.
pub open spec fn contains_seq(hay: Seq<char>, needle: Seq<char>) -> bool {
    exists|i: int| occurs_at(hay, needle, i)
}

/// Whether the characters of `needle` occur as a contiguous run in `hay`.
pub fn chars_contain(hay: &Vec<char>, needle: &Vec<char>) -> (r: bool)
    ensures
        r == contains_seq(hay@, needle@),
{
    let hn = hay.len();
    let nn = needle.len();
    if nn > hn {
        proof {
            assert(forall|i: int| !occurs_at(hay@, needle@, i));
        }
        return false;
    }
    let mut i: usize = 0;
    while i <= hn - nn
        invariant
            nn <= hn,
            hn == hay@.len(),
            nn == needle@.len(),
            i <= hn - nn + 1,
            forall|k: int| 0 <= k < i ==> !occurs_at(hay@, needle@, k),
        decreases hn - i,
    {
        let mut j: usize = 0;
        let mut same = true;
        while j < nn
            invariant
                nn == needle@.len(),
                hn == hay@.len(),
                i + nn <= hn,
                j <= nn,
                same == (forall|k: int| 0 <= k < j ==> hay@[i + k] == needle@[k]),
            decreases nn - j,
        {
            if hay[i + j] != needle[j] {
                same = false;
                proof {
                    assert(!(forall|k: int| 0 <= k < j + 1 ==> hay@[i + k] == needle@[k]));
                }
            }
            j = j + 1;
        }
        if same {
            proof {
                assert(hay@.subrange(i as int, i + nn) =~= needle@);
                assert(occurs_at(hay@, needle@, i as int));
            }
            return true;
        }
        proof {
            if occurs_at(hay@, needle@, i as int) {
                assert(forall|k: int|
                    0 <= k < nn ==> #[trigger] needle@[k] == hay@.subrange(i as int, i + nn)[k]);
            }
        }
        i = i + 1;
    }
    proof {
        assert(forall|k: int| !occurs_at(hay@, needle@, k)) by {
            assert(forall|k: int| k + needle@.len() > hay@.len() ==> !occurs_at(hay@, needle@, k));
        }
    }
    false
}

/// Whether `s` starts with `prefix`.
pub open spec fn starts_with_spec(s: Seq<char>, prefix: Seq<char>) -> bool {
    prefix.len() <= s.len() && s.subrange(0, prefix.len() as int) == prefix
}

/// Whether the characters of `v` start with those of `prefix`.
pub fn chars_start_with(v: &Vec<char>, prefix: &Vec<char>) -> (r: bool)
    ensures
        r == starts_with_spec(v@, prefix@),
{
    let nn = prefix.len();
    if nn > v.len() {
        return false;
    }
    let mut j: usize = 0;
    while j < nn
        invariant
            nn == prefix@.len(),
            nn <= v@.len(),
            j <= nn,
            forall|k: int| 0 <= k < j ==> v@[k] == prefix@[k],
        decreases nn - j,
    {
        if v[j] != prefix[j] {
            proof {
                assert(v@.subrange(0, nn as int)[j as int] != prefix@[j as int]);
            }
            return false;
        }
        j = j + 1;
    }
    proof {
        assert(v@.subrange(0, nn as int) =~= prefix@);
    }
    true
}

/// `s` split at every occurrence of `sep`, keeping empty segments, as
/// `str::split` on a character.
pub open spec fn split_spec(s: Seq<char>, sep: char) -> Seq<Seq<char>>
    decreases s.len(),
{
    if s.len() == 0 {
        seq![Seq::<char>::empty()]
    } else if s.last() == sep {
        split_spec(s.drop_last(), sep).push(Seq::<char>::empty())
    } else {
        let r = split_spec(s.drop_last(), sep);
        r.update(r.len() - 1, r.last().push(s.last()))
    }
}

/// A split has at least one segment.
pub proof fn lemma_split_len(s: Seq<char>, sep: char)
    ensures
        split_spec(s, sep).len() >= 1,
    decreases s.len(),
{
    if s.len() > 0 {
        lemma_split_len(s.drop_last(), sep);
    }
}

/// Splits the characters of `v` at every `sep`.
pub fn split_chars(v: &Vec<char>, sep: char) -> (r: Vec<String>)
    ensures
        views_of(r@) == split_spec(v@, sep),
{
    let mut segs: Vec<String> = Vec::new();
    let mut cur = String::new();
    let mut i: usize = 0;
    proof {
        assert(v@.take(0) =~= Seq::<char>::empty());
        assert(views_of(segs@).push(cur@) =~= split_spec(v@.take(0), sep));
    }
    while i < v.len()
        invariant
            i <= v@.len(),
            views_of(segs@).push(cur@) == split_spec(v@.take(i as int), sep),
        decreases v@.len() - i,
    {
        let c = v[i];
        proof {
            assert(v@.take(i + 1).drop_last() =~= v@.take(i as int));
            assert(v@.take(i + 1).last() == v@[i as int]);
            lemma_split_len(v@.take(i as int), sep);
        }
        if c == sep {
            segs.push(cur);
            cur = String::new();
            proof {
                assert(views_of(segs@).push(cur@) =~= split_spec(v@.take(i + 1), sep));
            }
        } else {
            push_char(&mut cur, c);
            proof {
                let prev = split_spec(v@.take(i as int), sep);
                assert(views_of(segs@).push(cur@) =~= prev.update(
                    prev.len() - 1,
                    prev.last().push(c),
                ));
            }
        }
        i = i + 1;
    }
    proof {
        assert(v@.take(v@.len() as int) =~= v@);
    }
    segs.push(cur);
    segs
}

/// Whether `s` ends with `suffix`.
pub open spec fn ends_with_spec(s: Seq<char>, suffix: Seq<char>) -> bool {
    suffix.len() <= s.len() && s.subrange(s.len() - suffix.len(), s.len() as int) == suffix
}

/// Whether the characters of `v` end with those of `suffix`.
pub fn chars_end_with(v: &Vec<char>, suffix: &Vec<char>) -> (r: bool)
    ensures
        r == ends_with_spec(v@, suffix@),
{
    let nn = suffix.len();
    let vn = v.len();
    if nn > vn {
        return false;
    }
    let mut j: usize = 0;
    while j < nn
        invariant
            nn == suffix@.len(),
            vn == v@.len(),
            nn <= vn,
            j <= nn,
            forall|k: int| 0 <= k < j ==> v@[vn - nn + k] == suffix@[k],
        decreases nn - j,
    {
        if v[vn - nn + j] != suffix[j] {
            proof {
                assert(v@.subrange(vn - nn, vn as int)[j as int] != suffix@[j as int]);
            }
            return false;
        }
        j = j + 1;
    }
    proof {
        assert(v@.subrange(vn - nn, vn as int) =~= suffix@);
    }
    true
}

/// `s` with every trailing repetition of `suffix` removed, as
/// `str::trim_end_matches` on a nonempty pattern.
pub open spec fn strip_all_suffix(s: Seq<char>, suffix: Seq<char>) -> Seq<char>
    decreases s.len(),
{
    if suffix.len() > 0 && ends_with_spec(s, suffix) {
        strip_all_suffix(s.take(s.len() - suffix.len()), suffix)
    } else {
        s
    }
}

/// Removes every trailing repetition of `suffix` from the characters of `v`.
pub fn strip_suffix_chars(v: Vec<char>, suffix: &Vec<char>) -> (r: Vec<char>)
    requires
        suffix@.len() > 0,
    ensures
        r@ == strip_all_suffix(v@, suffix@),
{
    let mut v = v;
    let ghost orig = v@;
    while chars_end_with(&v, suffix)
        invariant
            suffix@.len() > 0,
            strip_all_suffix(v@, suffix@) == strip_all_suffix(orig, suffix@),
        decreases v@.len(),
    {
        let n = v.len() - suffix.len();
        v.truncate(n);
    }
    v
}

/// Strict lexicographic order on character sequences by scalar value:
/// the order `str`'s comparison gives.
pub open spec fn lex_lt(a: Seq<char>, b: Seq<char>) -> bool
    decreases a.len(),
{
    if b.len() == 0 {
        false
    } else if a.len() == 0 {
        true
    } else if (a[0] as u32) < (b[0] as u32) {
        true
    } else if (a[0] as u32) > (b[0] as u32) {
        false
    } else {
        lex_lt(a.drop_first(), b.drop_first())
    }
}

/// Compares two character lists lexicographically.
pub fn chars_lex_lt(a: &Vec<char>, b: &Vec<char>) -> (r: bool)
    ensures
        r == lex_lt(a@, b@),
{
    let mut i: usize = 0;
    proof {
        assert(a@.skip(0) =~= a@);
        assert(b@.skip(0) =~= b@);
    }
    while i < a.len() && i < b.len()
        invariant
            i <= a@.len(),
            i <= b@.len(),
            lex_lt(a@, b@) == lex_lt(a@.skip(i as int), b@.skip(i as int)),
        decreases a@.len() - i,
    {
        let ca = a[i];
        let cb = b[i];
        proof {
            let sa = a@.skip(i as int);
            let sb = b@.skip(i as int);
            assert(sa[0] == a@[i as int] && sb[0] == b@[i as int]);
            assert(sa.drop_first() =~= a@.skip(i + 1));
            assert(sb.drop_first() =~= b@.skip(i + 1));
        }
        if (ca as u32) < (cb as u32) {
            return true;
        }
        if (ca as u32) > (cb as u32) {
            return false;
        }
        i = i + 1;
    }
    proof {
        let sa = a@.skip(i as int);
        let sb = b@.skip(i as int);
        assert(sa.len() == 0 || sb.len() == 0);
    }
    i < b.len()
}

/// The sequence without leading repeats of one character.
pub open spec fn trim_char_start(s: Seq<char>, c: char) -> Seq<char>
    decreases s.len(),
{
    if s.len() > 0 && s[0] == c {
        trim_char_start(s.drop_first(), c)
    } else {
        s
    }
}

/// The sequence without trailing repeats of one character.
pub open spec fn trim_char_end(s: Seq<char>, c: char) -> Seq<char>
    decreases s.len(),
{
    if s.len() > 0 && s[s.len() - 1] == c {
        trim_char_end(s.drop_last(), c)
    } else {
        s
    }
}

/// The sequence without leading or trailing repeats of one character, as
/// `str::trim_matches` on a character pattern.
pub open spec fn trim_char_spec(s: Seq<char>, c: char) -> Seq<char> {
    trim_char_end(trim_char_start(s, c), c)
}

proof fn lemma_trim_char_start_range(s: Seq<char>, c: char, i: int)
    requires
        0 <= i <= s.len(),
        forall|j: int| 0 <= j < i ==> s[j] == c,
    ensures
        trim_char_start(s, c) == trim_char_start(s.skip(i), c),
    decreases i,
{
    if i > 0 {
        assert(s.len() > 0 && s[0] == c);
        assert(s.drop_first() =~= s.skip(1));
        lemma_trim_char_start_range(s.skip(1), c, i - 1);
        assert(s.skip(1).skip(i - 1) =~= s.skip(i));
    } else {
        assert(s.skip(0) =~= s);
    }
}

proof fn lemma_trim_char_end_range(s: Seq<char>, c: char, i: int)
    requires
        0 <= i <= s.len(),
        forall|j: int| i <= j < s.len() ==> s[j] == c,
    ensures
        trim_char_end(s, c) == trim_char_end(s.take(i), c),
    decreases s.len() - i,
{
    if i < s.len() {
        assert(s[s.len() - 1] == c);
        assert(s.drop_last() =~= s.take(s.len() - 1));
        lemma_trim_char_end_range(s.take(s.len() - 1), c, i);
        assert(s.take(s.len() - 1).take(i) =~= s.take(i));
    } else {
        assert(s.take(s.len() as int) =~= s);
    }
}

/// Trims repeats of one character from both ends.
pub fn trim_char_chars(v: &Vec<char>, c: char) -> (r: Vec<char>)
    ensures
        r@ == trim_char_spec(v@, c),
{
    let n = v.len();
    let mut lo: usize = 0;
    while lo < n && v[lo] == c
        invariant
            lo <= n,
            n == v@.len(),
            forall|j: int| 0 <= j < lo ==> v@[j] == c,
        decreases n - lo,
    {
        lo = lo + 1;
    }
    let mut hi: usize = n;
    while hi > lo && v[hi - 1] == c
        invariant
            lo <= hi <= n,
            n == v@.len(),
            forall|j: int| hi <= j < n ==> v@[j] == c,
        decreases hi,
    {
        hi = hi - 1;
    }
    let mut r: Vec<char> = Vec::new();
    let mut i: usize = lo;
    while i < hi
        invariant
            lo <= i <= hi <= n,
            n == v@.len(),
            r@ == v@.subrange(lo as int, i as int),
        decreases hi - i,
    {
        r.push(v[i]);
        i = i + 1;
    }
    proof {
        lemma_trim_char_start_range(v@, c, lo as int);
        let t = v@.skip(lo as int);
        if lo < n {
            assert(t[0] == v@[lo as int]);
            assert(trim_char_start(t, c) == t);
        } else {
            assert(t.len() == 0);
        }
        assert(trim_char_start(v@, c) == t);
        lemma_trim_char_end_range(t, c, hi - lo);
        let u = t.take(hi - lo);
        if hi > lo {
            assert(u[u.len() - 1] == v@[hi - 1]);
            assert(trim_char_end(u, c) == u);
        } else {
            assert(u.len() == 0);
        }
        assert(trim_char_spec(v@, c) == u);
        assert(r@ =~= u);
    }
    r
}

/// Trims repeats of one character from the end only.
pub fn trim_char_end_chars(v: &Vec<char>, c: char) -> (r: Vec<char>)
    ensures
        r@ == trim_char_end(v@, c),
{
    let n = v.len();
    let mut hi: usize = n;
    while hi > 0 && v[hi - 1] == c
        invariant
            hi <= n,
            n == v@.len(),
            forall|j: int| hi <= j < n ==> v@[j] == c,
        decreases hi,
    {
        hi = hi - 1;
    }
    let mut r: Vec<char> = Vec::new();
    let mut i: usize = 0;
    while i < hi
        invariant
            i <= hi <= n,
            n == v@.len(),
            r@ == v@.subrange(0, i as int),
        decreases hi - i,
    {
        r.push(v[i]);
        i = i + 1;
    }
    proof {
        lemma_trim_char_end_range(v@, c, hi as int);
        let u = v@.take(hi as int);
        if hi > 0 {
            assert(u[u.len() - 1] == v@[hi - 1]);
            assert(trim_char_end(u, c) == u);
        } else {
            assert(u.len() == 0);
        }
        assert(trim_char_end(v@, c) == u);
        assert(r@ =~= u);
    }
    r
}

/// A line with one trailing carriage return removed.
pub open spec fn strip_cr(t: Seq<char>) -> Seq<char> {
    if t.len() > 0 && t[t.len() - 1] == '\r' {
        t.drop_last()
    } else {
        t
    }
}

/// The lines of a text, as `str::lines`: split at every newline, the
/// final empty segment of a trailing newline dropped, and one carriage
/// return stripped from each line's end.
pub open spec fn lines_spec(s: Seq<char>) -> Seq<Seq<char>> {
    let parts = split_spec(s, '\n');
    let kept = if parts.last().len() == 0 {
        parts.drop_last()
    } else {
        parts
    };
    kept.map_values(|t: Seq<char>| strip_cr(t))
}

/// Splits a text into its lines.
pub fn split_lines(s: &str) -> (r: Vec<String>)
    ensures
        views_of(r@) == lines_spec(s@),
{
    let chars = str_to_chars(s);
    let mut parts = split_chars(&chars, '\n');
    proof {
        lemma_split_len(s@, '\n');
    }
    let keep_last = {
        let last = &parts[parts.len() - 1];
        !last.as_str().is_empty()
    };
    if !keep_last {
        let _ = parts.pop();
    }
    let ghost kept = views_of(parts@);
    let mut out: Vec<String> = Vec::new();
    let mut i: usize = 0;
    while i < parts.len()
        invariant
            i <= parts@.len(),
            kept == views_of(parts@),
            out@.len() == i,
            forall|k: int| 0 <= k < i ==> out@[k]@ == strip_cr(#[trigger] views_of(parts@)[k]),
        decreases parts@.len() - i,
    {
        let pv = str_to_chars(parts[i].as_str());
        if pv.len() > 0 && pv[pv.len() - 1] == '\r' {
            let mut pv2 = pv;
            let m = pv2.len() - 1;
            pv2.truncate(m);
            proof {
                assert(pv2@ =~= views_of(parts@)[i as int].drop_last());
            }
            out.push(chars_to_string(&pv2));
        } else {
            out.push(parts[i].clone());
        }
        i = i + 1;
    }
    proof {
        assert(views_of(out@) =~= kept.map_values(|t: Seq<char>| strip_cr(t)));
    }
    out
}

/// What `str::to_lowercase` returns: a function of the characters alone.
pub uninterp spec fn lower_of(s: Seq<char>) -> Seq<char>;

/// Relies on str::to_lowercase: the result depends on the characters
/// alone, and an empty string stays empty.
#[verifier::external_body]
pub fn lowercase(s: &str) -> (r: String)
    ensures
        r@ == lower_of(s@),
        s@.len() == 0 ==> r@.len() == 0,
{
    s.to_lowercase()
}

/// The decimal digit character for `d`.
pub open spec fn digit_char(d: nat) -> char {
    if d == 0 {
        '0'
    } else if d == 1 {
        '1'
    } else if d == 2 {
        '2'
    } else if d == 3 {
        '3'
    } else if d == 4 {
        '4'
    } else if d == 5 {
        '5'
    } else if d == 6 {
        '6'
    } else if d == 7 {
        '7'
    } else if d == 8 {
        '8'
    } else {
        '9'
    }
}

/// The decimal rendering of `n`, without sign or leading zeros.
pub open spec fn dec_rep(n: nat) -> Seq<char>
    decreases n,
{
    if n < 10 {
        seq![digit_char(n)]
    } else {
        dec_rep(n / 10).push(digit_char(n % 10))
    }
}

/// Renders `n` in decimal, as `u64::to_string` does.
pub fn u64_to_dec(n: u64) -> (r: String)
    ensures
        r@ == dec_rep(n as nat),
{
    let mut digits: Vec<char> = Vec::new();
    let mut m: u64 = n;
    if m == 0 {
        let mut s = String::new();
        push_char(&mut s, '0');
        proof {
            assert(s@ =~= dec_rep(0));
        }
        return s;
    }
    while m > 0
        invariant
            n > 0,
            m > 0 ==> dec_rep(n as nat) == dec_rep(m as nat) + digits@,
            m == 0 ==> n > 0 && dec_rep(n as nat) == digits@,
        decreases m,
    {
        let d = m % 10;
        let dc = digit_of(d);
        digits.insert(0, dc);
        proof {
            if m >= 10 {
                assert(dec_rep(m as nat) == dec_rep((m / 10) as nat).push(digit_char((m
                    % 10) as nat)));
                assert(dec_rep((m / 10) as nat).push(digit_char((m % 10) as nat)) + digits@.drop_first()
                    =~= dec_rep((m / 10) as nat) + digits@);
            } else {
                assert(dec_rep(m as nat) == seq![digit_char((m % 10) as nat)]);
                assert(seq![digit_char((m % 10) as nat)] + digits@.drop_first() =~= digits@);
            }
        }
        m = m / 10;
    }
    chars_to_string(&digits)
}

/// The digit character for `d`, which must be below ten.
pub fn digit_of(d: u64) -> (c: char)
    requires
        d < 10,
    ensures
        c == digit_char(d as nat),
{
    if d == 0 {
        '0'
    } else if d == 1 {
        '1'
    } else if d == 2 {
        '2'
    } else if d == 3 {
        '3'
    } else if d == 4 {
        '4'
    } else if d == 5 {
        '5'
    } else if d == 6 {
        '6'
    } else if d == 7 {
        '7'
    } else if d == 8 {
        '8'
    } else {
        '9'
    }
}

} // verus!
