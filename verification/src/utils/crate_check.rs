//! Crate installation detection: simplified version comparison, lock
//! file lookup, registry cache lookup, and install suggestions.

use vstd::prelude::*;
use crate::analyzer::registry::is_digit;
use crate::strings::{
    chars_to_string, lines_spec, split_chars, split_lines, split_spec, starts_with_spec, str_eq,
    str_to_chars, trim_char_spec, trim_char_start, trim_spec, views_of,
};
use core::cmp::Ordering;

verus! {

/// The numeric value of a digit string.
pub open spec fn dec_value(s: Seq<char>) -> int
    decreases s.len(),
{
    if s.len() == 0 {
        0
    } else {
        dec_value(s.drop_last()) * 10 + ((s.last() as u32) - 48)
    }
}

/// The digit part of a numeral: the text without an optional leading
/// plus sign.
pub open spec fn numeral_digits(s: Seq<char>) -> Seq<char> {
    if s.len() > 0 && s[0] == '+' {
        s.drop_first()
    } else {
        s
    }
}

/// Whether every character is a decimal digit.
pub open spec fn all_digits(d: Seq<char>) -> bool {
    forall|k: int| 0 <= k < d.len() ==> is_digit(#[trigger] d[k])
}

/// Whether `str::parse::<u32>` accepts the text: an optional plus sign,
/// then digits whose value fits.
pub open spec fn is_u32_numeral(s: Seq<char>) -> bool {
    &&& numeral_digits(s).len() > 0
    &&& all_digits(numeral_digits(s))
    &&& dec_value(numeral_digits(s)) <= u32::MAX
}

/// The parsed value of a numeral.
pub open spec fn u32_numeral_value(s: Seq<char>) -> int {
    dec_value(numeral_digits(s))
}

proof fn lemma_dec_value_take_step(s: Seq<char>, i: int)
    requires
        0 <= i < s.len(),
    ensures
        dec_value(s.take(i + 1)) == dec_value(s.take(i)) * 10 + ((s[i] as u32) - 48),
{
    assert(s.take(i + 1).drop_last() =~= s.take(i));
    assert(s.take(i + 1).last() == s[i]);
}

proof fn lemma_dec_value_nonneg(s: Seq<char>)
    requires
        all_digits(s),
    ensures
        dec_value(s) >= 0,
    decreases s.len(),
{
    if s.len() > 0 {
        assert forall|k: int| 0 <= k < s.drop_last().len() implies is_digit(
            #[trigger] s.drop_last()[k],
        ) by {
            assert(s.drop_last()[k] == s[k]);
        }
        assert(all_digits(s.drop_last()));
        lemma_dec_value_nonneg(s.drop_last());
    }
}

proof fn lemma_dec_value_mono(s: Seq<char>, i: int)
    requires
        0 <= i <= s.len(),
        all_digits(s),
    ensures
        dec_value(s) >= dec_value(s.take(i)),
    decreases s.len() - i,
{
    if i < s.len() {
        lemma_dec_value_take_step(s, i);
        assert forall|k: int| 0 <= k < s.take(i).len() implies is_digit(
            #[trigger] s.take(i)[k],
        ) by {
            assert(s.take(i)[k] == s[k]);
        }
        assert(all_digits(s.take(i)));
        lemma_dec_value_nonneg(s.take(i));
        lemma_dec_value_mono(s, i + 1);
    } else {
        assert(s.take(s.len() as int) =~= s);
    }
}

/// Parses a `u32` as `str::parse` does: an optional plus sign, then
/// digits whose value fits; anything else is rejected.
#[verifier::loop_isolation(false)]
pub fn parse_u32(s: &str) -> (r: Option<u32>)
    ensures
        match r {
            Some(v) => is_u32_numeral(s@) && v as int == u32_numeral_value(s@),
            None => !is_u32_numeral(s@),
        },
{
    let v = str_to_chars(s);
    let n = v.len();
    let start: usize = if n > 0 && v[0] == '+' {
        1
    } else {
        0
    };
    let ghost digits = numeral_digits(s@);
    proof {
        assert(digits =~= v@.skip(start as int));
    }
    if n == start {
        proof {
            assert(!is_u32_numeral(s@));
        }
        return None;
    }
    let mut acc: u64 = 0;
    let mut i: usize = start;
    while i < n
        invariant
            start <= i <= n,
            n == v@.len(),
            v@ == s@,
            start == (if s@.len() > 0 && s@[0] == '+' {
                1int
            } else {
                0int
            }),
            digits == numeral_digits(s@),
            digits == v@.skip(start as int),
            digits.len() == n - start,
            forall|k: int| 0 <= k < i - start ==> is_digit(#[trigger] digits[k]),
            acc as int == dec_value(digits.take(i - start)),
            acc <= u32::MAX,
        decreases n - i,
    {
        let c = v[i];
        if !((c as u32) >= 48 && (c as u32) <= 57) {
            proof {
                assert(digits[i - start] == v@[i as int]);
                assert(!is_digit(digits[i - start]));
                assert(!all_digits(digits));
                assert(!is_u32_numeral(s@));
            }
            return None;
        }
        let d: u64 = ((c as u32) - 48) as u64;
        let next: u64 = acc * 10 + d;
        proof {
            lemma_dec_value_take_step(digits, i - start);
            assert(digits[i - start] == v@[i as int]);
        }
        if next > 0xFFFF_FFFF {
            proof {
                assert(digits[i - start] == v@[i as int]);
                assert(dec_value(digits.take(i - start + 1)) == acc * 10 + (d as int));
                if all_digits(digits) {
                    lemma_dec_value_mono(digits, i - start + 1);
                    assert(dec_value(digits) > u32::MAX);
                }
                assert(!is_u32_numeral(s@));
            }
            return None;
        }
        acc = next;
        i = i + 1;
    }
    proof {
        assert(digits.take(digits.len() as int) =~= digits);
        assert(all_digits(digits));
        assert(is_u32_numeral(s@));
    }
    Some(acc as u32)
}

/// The digits before the first hyphen of a segment; the whole segment
/// when it has none.
pub open spec fn before_dash(s: Seq<char>) -> Seq<char>
    decreases s.len(),
{
    if s.len() == 0 {
        s
    } else if s[0] == '-' {
        Seq::empty()
    } else {
        seq![s[0]] + before_dash(s.drop_first())
    }
}

/// Takes the prefix of the characters before the first hyphen.
fn take_before_dash(v: &Vec<char>) -> (r: Vec<char>)
    ensures
        r@ == before_dash(v@),
{
    let mut out: Vec<char> = Vec::new();
    let mut i: usize = 0;
    while i < v.len()
        invariant
            i <= v@.len(),
            forall|k: int| 0 <= k < i ==> v@[k] != '-',
            out@ == v@.take(i as int),
        decreases v@.len() - i,
    {
        if v[i] == '-' {
            proof {
                lemma_before_dash_at(v@, i as int);
            }
            return out;
        }
        out.push(v[i]);
        proof {
            assert(out@ =~= v@.take(i + 1));
        }
        i = i + 1;
    }
    proof {
        assert(v@.take(v@.len() as int) =~= v@);
        lemma_before_dash_all(v@);
    }
    out
}

proof fn lemma_before_dash_at(s: Seq<char>, i: int)
    requires
        0 <= i < s.len(),
        s[i] == '-',
        forall|k: int| 0 <= k < i ==> s[k] != '-',
    ensures
        before_dash(s) == s.take(i),
    decreases i,
{
    if i == 0 {
        assert(s.take(0) =~= Seq::<char>::empty());
    } else {
        lemma_before_dash_at(s.drop_first(), i - 1);
        assert(s.drop_first().take(i - 1) =~= s.take(i).drop_first());
        assert(seq![s[0]] + s.take(i).drop_first() =~= s.take(i));
    }
}

proof fn lemma_before_dash_all(s: Seq<char>)
    requires
        forall|k: int| 0 <= k < s.len() ==> s[k] != '-',
    ensures
        before_dash(s) == s,
    decreases s.len(),
{
    if s.len() > 0 {
        lemma_before_dash_all(s.drop_first());
        assert(seq![s[0]] + s.drop_first() =~= s);
    }
}

/// One version segment's contribution to the parsed number list.
pub open spec fn segment_number(s: Seq<char>) -> Seq<u32> {
    if is_u32_numeral(before_dash(s)) {
        seq![u32_numeral_value(before_dash(s)) as u32]
    } else {
        Seq::empty()
    }
}

/// The parsed numbers of a version text: a leading `v` run dropped, the
/// text split at dots, and each segment's part before a hyphen parsed;
/// unparsable segments are skipped.
pub open spec fn parse_version_spec(s: Seq<char>) -> Seq<u32>
    decreases s.len(),
{
    version_numbers(split_spec(trim_char_start(s, 'v'), '.'))
}

/// The numbers of a list of version segments.
pub open spec fn version_numbers(segs: Seq<Seq<char>>) -> Seq<u32>
    decreases segs.len(),
{
    if segs.len() == 0 {
        Seq::empty()
    } else {
        segment_number(segs[0]) + version_numbers(segs.drop_first())
    }
}

proof fn lemma_version_numbers_take(segs: Seq<Seq<char>>, i: int)
    requires
        0 <= i < segs.len(),
    ensures
        version_numbers(segs.take(i + 1)) == version_numbers(segs.take(i)) + segment_number(
            segs[i],
        ),
    decreases i,
{
    let a = segs.take(i + 1);
    let b = segs.take(i);
    if i == 0 {
        assert(a.drop_first() =~= Seq::<Seq<char>>::empty());
        assert(b =~= Seq::<Seq<char>>::empty());
        assert(version_numbers(a) =~= version_numbers(b) + segment_number(segs[0]));
    } else {
        lemma_version_numbers_take(segs.drop_first(), i - 1);
        assert(a.drop_first() =~= segs.drop_first().take(i as int));
        assert(b.drop_first() =~= segs.drop_first().take(i - 1));
        assert(segs.drop_first()[i - 1] == segs[i]);
        assert(version_numbers(a) =~= version_numbers(b) + segment_number(segs[i]));
    }
}

/// Parses the numbers of a version text.
fn parse_version(s: &str) -> (r: Vec<u32>)
    ensures
        r@ == parse_version_spec(s@),
{
    let chars = str_to_chars(s);
    let mut lo: usize = 0;
    while lo < chars.len() && chars[lo] == 'v'
        invariant
            lo <= chars@.len(),
            chars@ == s@,
            forall|j: int| 0 <= j < lo ==> chars@[j] == 'v',
        decreases chars@.len() - lo,
    {
        lo = lo + 1;
    }
    let mut trimmed: Vec<char> = Vec::new();
    let mut i: usize = lo;
    while i < chars.len()
        invariant
            lo <= i <= chars@.len(),
            chars@ == s@,
            trimmed@ == chars@.subrange(lo as int, i as int),
        decreases chars@.len() - i,
    {
        trimmed.push(chars[i]);
        proof {
            assert(trimmed@ =~= chars@.subrange(lo as int, i + 1));
        }
        i = i + 1;
    }
    proof {
        lemma_trim_v(s@, lo as int);
        if lo < s@.len() {
            assert(trimmed@ =~= s@.skip(lo as int));
        } else {
            assert(trimmed@ =~= s@.skip(lo as int));
        }
    }
    let segs = split_chars(&trimmed, '.');
    let ghost sseq = views_of(segs@);
    let mut out: Vec<u32> = Vec::new();
    let mut k: usize = 0;
    proof {
        assert(sseq.take(0) =~= Seq::<Seq<char>>::empty());
        assert(out@ =~= version_numbers(sseq.take(0)));
    }
    while k < segs.len()
        invariant
            k <= segs@.len(),
            sseq == views_of(segs@),
            out@ == version_numbers(sseq.take(k as int)),
        decreases segs@.len() - k,
    {
        proof {
            lemma_version_numbers_take(sseq, k as int);
        }
        let sc = str_to_chars(segs[k].as_str());
        let pre = take_before_dash(&sc);
        let pres = chars_to_string(&pre);
        match parse_u32(pres.as_str()) {
            Some(val) => {
                out.push(val);
            },
            None => {},
        }
        proof {
            assert(out@ =~= version_numbers(sseq.take(k + 1)));
        }
        k = k + 1;
    }
    proof {
        assert(sseq.take(sseq.len() as int) =~= sseq);
    }
    out
}

proof fn lemma_trim_v(s: Seq<char>, lo: int)
    requires
        0 <= lo <= s.len(),
        forall|j: int| 0 <= j < lo ==> s[j] == 'v',
        lo < s.len() ==> s[lo] != 'v',
    ensures
        trim_char_start(s, 'v') == s.skip(lo),
    decreases lo,
{
    if lo == 0 {
        assert(s.skip(0) =~= s);
    } else {
        assert(s.len() > 0 && s[0] == 'v');
        assert(s.drop_first() =~= s.skip(1));
        lemma_trim_v(s.skip(1), lo - 1);
        assert(s.skip(1).skip(lo - 1) =~= s.skip(lo));
    }
}

/// Lexicographic comparison of number lists, as slices compare.
pub open spec fn cmp_nums(a: Seq<u32>, b: Seq<u32>) -> Ordering
    decreases a.len(),
{
    if a.len() == 0 && b.len() == 0 {
        Ordering::Equal
    } else if a.len() == 0 {
        Ordering::Less
    } else if b.len() == 0 {
        Ordering::Greater
    } else if a[0] < b[0] {
        Ordering::Less
    } else if a[0] > b[0] {
        Ordering::Greater
    } else {
        cmp_nums(a.drop_first(), b.drop_first())
    }
}

/// Compares two version texts by their parsed number lists,
/// lexicographically.
pub fn version_compare(a: &str, b: &str) -> (r: Ordering)
    ensures
        r == cmp_nums(parse_version_spec(a@), parse_version_spec(b@)),
{
    let va = parse_version(a);
    let vb = parse_version(b);
    let mut i: usize = 0;
    proof {
        assert(va@.skip(0) =~= va@);
        assert(vb@.skip(0) =~= vb@);
    }
    while i < va.len() && i < vb.len()
        invariant
            i <= va@.len(),
            i <= vb@.len(),
            va@ == parse_version_spec(a@),
            vb@ == parse_version_spec(b@),
            cmp_nums(va@, vb@) == cmp_nums(va@.skip(i as int), vb@.skip(i as int)),
        decreases va@.len() - i,
    {
        proof {
            assert(va@.skip(i as int)[0] == va@[i as int]);
            assert(vb@.skip(i as int)[0] == vb@[i as int]);
            assert(va@.skip(i as int).drop_first() =~= va@.skip(i + 1));
            assert(vb@.skip(i as int).drop_first() =~= vb@.skip(i + 1));
        }
        if va[i] < vb[i] {
            return Ordering::Less;
        }
        if va[i] > vb[i] {
            return Ordering::Greater;
        }
        i = i + 1;
    }
    proof {
        assert(va@.skip(i as int).len() == 0 || vb@.skip(i as int).len() == 0);
    }
    if va.len() < vb.len() {
        Ordering::Less
    } else if va.len() > vb.len() {
        Ordering::Greater
    } else {
        Ordering::Equal
    }
}

/// Result of checking whether a crate is available.
#[derive(Debug, Clone, PartialEq, Eq)]
pub struct CrateAvailability {
    pub name: String,
    pub is_installed: bool,
    pub installed_version: Option<String>,
    pub latest_version: Option<String>,
    pub is_local: bool,
    pub local_path: Option<String>,
}

impl CrateAvailability {
    /// Whether the crate still needs installation: neither installed nor
    /// local.
    pub fn needs_install(&self) -> (r: bool)
        ensures
            r == (!self.is_installed && !self.is_local),
    {
        !self.is_installed && !self.is_local
    }

    /// Whether a newer version than the installed one is known: both
    /// versions present, different, and the installed one ordered below.
    pub fn has_update(&self) -> (r: bool)
        ensures
            r == match (self.installed_version, self.latest_version) {
                (Some(iv), Some(lv)) => iv@ != lv@ && cmp_nums(
                    parse_version_spec(iv@),
                    parse_version_spec(lv@),
                ) == Ordering::Less,
                _ => false,
            },
    {
        match (&self.installed_version, &self.latest_version) {
            (Some(iv), Some(lv)) => {
                if str_eq(iv.as_str(), lv.as_str()) {
                    false
                } else {
                    let ord = version_compare(iv.as_str(), lv.as_str());
                    matches!(ord, Ordering::Less)
                }
            },
            _ => false,
        }
    }

    /// The suggested install command: `cargo add` with the local path
    /// when one is known, else with the crate name.
    pub fn install_command(&self) -> (r: String)
        ensures
            r@ == (if self.is_local && self.local_path is Some {
                "cargo add --path "@ + self.local_path->0@
            } else {
                "cargo add "@ + self.name@
            }),
    {
        if self.is_local {
            match &self.local_path {
                Some(p) => {
                    let mut r = String::new();
                    r.append("cargo add --path ");
                    r.append(p.as_str());
                    proof {
                        assert(r@ =~= "cargo add --path "@ + self.local_path->0@);
                    }
                    return r;
                },
                None => {},
            }
        }
        let mut r = String::new();
        r.append("cargo add ");
        r.append(self.name.as_str());
        proof {
            assert(r@ =~= "cargo add "@ + self.name@);
        }
        r
    }
}

/// The version a lock file records for a crate, as a simple walk over
/// the `[[package]]` stanzas finds it.
pub open spec fn locked_version_from(
    lines: Seq<Seq<char>>,
    target: Seq<char>,
    in_pkg: bool,
    cur: Seq<char>,
) -> Option<Seq<char>>
    decreases lines.len(),
{
    if lines.len() == 0 {
        None
    } else {
        let line = trim_spec(lines[0]);
        if line == "[[package]]"@ {
            locked_version_from(lines.drop_first(), target, true, Seq::empty())
        } else if in_pkg {
            if starts_with_spec(line, "name = "@) {
                locked_version_from(
                    lines.drop_first(),
                    target,
                    true,
                    trim_char_spec(line.skip("name = "@.len() as int), '"'),
                )
            } else if starts_with_spec(line, "version = "@) && cur == target {
                Some(trim_char_spec(line.skip("version = "@.len() as int), '"'))
            } else if line.len() == 0 || (line.len() > 0 && line[0] == '[') {
                locked_version_from(lines.drop_first(), target, false, cur)
            } else {
                locked_version_from(lines.drop_first(), target, true, cur)
            }
        } else {
            locked_version_from(lines.drop_first(), target, false, cur)
        }
    }
}

/// Reads the version a lock file text records for a crate: the walk
/// enters each `[[package]]` stanza, remembers the quoted `name`, and
/// returns the quoted `version` of the stanza naming the crate.
#[verifier::loop_isolation(false)]
pub fn get_locked_version(lock_content: &str, crate_name: &str) -> (r: Option<String>)
    ensures
        opt_seq_view(r) == locked_version_from(
            lines_spec(lock_content@),
            crate_name@,
            false,
            Seq::empty(),
        ),
{
    let all_lines = split_lines(lock_content);
    let ghost lseq = views_of(all_lines@);
    let mut in_package = false;
    let mut current_name = String::new();
    let mut i: usize = 0;
    proof {
        assert(lseq.skip(0) =~= lseq);
    }
    while i < all_lines.len()
        invariant
            i <= all_lines@.len(),
            lseq == views_of(all_lines@),
            locked_version_from(lseq, crate_name@, false, Seq::empty()) == locked_version_from(
                lseq.skip(i as int),
                crate_name@,
                in_package,
                current_name@,
            ),
        decreases all_lines@.len() - i,
    {
        proof {
            assert(lseq.skip(i as int)[0] == lseq[i as int]);
            assert(lseq.skip(i as int).drop_first() =~= lseq.skip(i + 1));
        }
        let ghost old_in = in_package;
        let ghost old_cur = current_name@;
        let line = crate::strings::trim_str(all_lines[i].as_str());
        proof {
            assert(line@ == trim_spec(lseq[i as int]));
        }
        if str_eq(line.as_str(), "[[package]]") {
            in_package = true;
            current_name = String::new();
            proof {
                assert(locked_version_from(lseq.skip(i as int), crate_name@, old_in, old_cur)
                    == locked_version_from(lseq.skip(i + 1), crate_name@, true, Seq::empty()));
            }
        } else if in_package {
            let lc = str_to_chars(line.as_str());
            let name_pre = str_to_chars("name = ");
            let ver_pre = str_to_chars("version = ");
            proof {
                reveal_strlit("name = ");
                reveal_strlit("version = ");
            }
            if crate::strings::chars_start_with(&lc, &name_pre) {
                let mut rest: Vec<char> = Vec::new();
                let mut k: usize = 7;
                while k < lc.len()
                    invariant
                        7 <= k <= lc@.len(),
                        rest@ == lc@.subrange(7, k as int),
                    decreases lc@.len() - k,
                {
                    rest.push(lc[k]);
                    proof {
                        assert(rest@ =~= lc@.subrange(7, k + 1));
                    }
                    k = k + 1;
                }
                proof {
                    assert(rest@ =~= lc@.skip(7));
                    assert("name = "@.len() == 7);
                }
                let t = crate::strings::trim_char_chars(&rest, '"');
                current_name = chars_to_string(&t);
                proof {
                    assert(current_name@ == trim_char_spec(line@.skip(7), '"'));
                    assert(locked_version_from(lseq.skip(i as int), crate_name@, old_in, old_cur)
                        == locked_version_from(
                        lseq.skip(i + 1),
                        crate_name@,
                        true,
                        current_name@,
                    ));
                }
            } else if crate::strings::chars_start_with(&lc, &ver_pre) && str_eq(
                current_name.as_str(),
                crate_name,
            ) {
                let mut rest: Vec<char> = Vec::new();
                let mut k: usize = 10;
                while k < lc.len()
                    invariant
                        10 <= k <= lc@.len(),
                        rest@ == lc@.subrange(10, k as int),
                    decreases lc@.len() - k,
                {
                    rest.push(lc[k]);
                    proof {
                        assert(rest@ =~= lc@.subrange(10, k + 1));
                    }
                    k = k + 1;
                }
                proof {
                    assert(rest@ =~= lc@.skip(10));
                    assert("version = "@.len() == 10);
                }
                let t = crate::strings::trim_char_chars(&rest, '"');
                let result = chars_to_string(&t);
                proof {
                    assert(locked_version_from(lseq.skip(i as int), crate_name@, old_in, old_cur)
                        == Some(trim_char_spec(line@.skip(10), '"')));
                    assert(result@ == trim_char_spec(line@.skip(10), '"'));
                }
                return Some(result);
            } else if line.as_str().is_empty() || lc.len() > 0 && lc[0] == '[' {
                in_package = false;
                proof {
                    assert(locked_version_from(lseq.skip(i as int), crate_name@, old_in, old_cur)
                        == locked_version_from(lseq.skip(i + 1), crate_name@, false, old_cur));
                }
            } else {
                proof {
                    assert(locked_version_from(lseq.skip(i as int), crate_name@, old_in, old_cur)
                        == locked_version_from(lseq.skip(i + 1), crate_name@, true, old_cur));
                }
            }
        } else {
            proof {
                assert(locked_version_from(lseq.skip(i as int), crate_name@, old_in, old_cur)
                    == locked_version_from(lseq.skip(i + 1), crate_name@, old_in, old_cur));
            }
        }
        i = i + 1;
    }
    proof {
        assert(lseq.skip(lseq.len() as int) =~= Seq::<Seq<char>>::empty());
    }
    None
}

/// The view of an optional string, shared by the lookups here.
pub open spec fn opt_seq_view(o: Option<String>) -> Option<Seq<char>> {
    match o {
        Some(s) => Some(s@),
        None => None,
    }
}

/// What a registry cache lookup yields over a list of crate directory
/// names: the first directory whose part before its first hyphen is the
/// crate name decides, yielding its version suffix when the name is
/// followed by a hyphen.
pub open spec fn registry_lookup(dirs: Seq<Seq<char>>, name: Seq<char>) -> Option<Seq<char>>
    decreases dirs.len(),
{
    if dirs.len() == 0 {
        None
    } else if before_dash(dirs[0]) == name {
        if starts_with_spec(dirs[0], name) && dirs[0].len() > name.len() && dirs[0][name.len() as int]
            == '-' {
            Some(dirs[0].skip(name.len() as int + 1))
        } else {
            None
        }
    } else {
        registry_lookup(dirs.drop_first(), name)
    }
}

/// Looks a crate up in a list of registry cache directory names, as a
/// scan of the cache would.
pub fn check_crate_in_registry(dir_names: &Vec<String>, name: &str) -> (r: Option<String>)
    ensures
        opt_seq_view(r) == registry_lookup(views_of(dir_names@), name@),
{
    let ghost dseq = views_of(dir_names@);
    let nc = str_to_chars(name);
    let mut i: usize = 0;
    proof {
        assert(dseq.skip(0) =~= dseq);
    }
    while i < dir_names.len()
        invariant
            i <= dir_names@.len(),
            dseq == views_of(dir_names@),
            nc@ == name@,
            registry_lookup(dseq, name@) == registry_lookup(dseq.skip(i as int), name@),
        decreases dir_names@.len() - i,
    {
        proof {
            assert(dseq.skip(i as int)[0] == dseq[i as int]);
            assert(dseq.skip(i as int).drop_first() =~= dseq.skip(i + 1));
        }
        let dc = str_to_chars(dir_names[i].as_str());
        let pre = take_before_dash(&dc);
        let pres = chars_to_string(&pre);
        if str_eq(pres.as_str(), name) {
            if crate::strings::chars_start_with(&dc, &nc) && dc.len() > nc.len() && dc[nc.len()]
                == '-' {
                let mut rest: Vec<char> = Vec::new();
                let mut k: usize = nc.len() + 1;
                let ghost rstart = nc.len() + 1;
                proof {
                    assert(rest@ =~= dc@.subrange(rstart as int, rstart as int));
                }
                while k < dc.len()
                    invariant
                        0 <= rstart <= k <= dc@.len(),
                        rest@ == dc@.subrange(rstart as int, k as int),
                    decreases dc@.len() - k,
                {
                    rest.push(dc[k]);
                    proof {
                        assert(rest@ =~= dc@.subrange(rstart as int, k + 1));
                    }
                    k = k + 1;
                }
                proof {
                    assert(rest@ =~= dc@.skip(rstart as int));
                }
                return Some(chars_to_string(&rest));
            }
            return None;
        }
        i = i + 1;
    }
    proof {
        assert(dseq.skip(dseq.len() as int) =~= Seq::<Seq<char>>::empty());
    }
    None
}

/// Assembles the overall availability of a crate from the versions the
/// caller looked up: the lock file's version, if any, wins over the
/// registry cache's.
pub fn check_availability(
    name: &str,
    project_path: Option<&String>,
    installed_version: Option<String>,
    registry_version: Option<String>,
) -> (r: CrateAvailability)
    ensures
        r.name@ == name@,
        r.is_installed == (installed_version is Some || registry_version is Some),
        opt_seq_view(r.installed_version) == (match installed_version {
            Some(v) => Some(v@),
            None => opt_seq_view(registry_version),
        }),
        r.latest_version is None,
        r.is_local == (project_path is Some),
        match project_path {
            Some(p) => r.local_path matches Some(lp) && lp@ == p@,
            None => r.local_path is None,
        },
{
    let is_local = project_path.is_some();
    let local_path = match project_path {
        Some(p) => Some(p.clone()),
        None => None,
    };
    let is_installed = installed_version.is_some() || registry_version.is_some();
    let installed = match installed_version {
        Some(v) => Some(v),
        None => registry_version,
    };
    CrateAvailability {
        name: name.to_owned(),
        is_installed,
        installed_version: installed,
        latest_version: None,
        is_local,
        local_path,
    }
}

/// A suggested crate operation.
#[derive(Debug, Clone, PartialEq, Eq)]
pub struct CrateSuggestion {
    pub action: SuggestedAction,
    pub command: String,
    pub description: String,
}

/// The kind of a suggested operation.
#[derive(Debug, Clone, Copy, PartialEq, Eq, Structural)]
pub enum SuggestedAction {
    Install,
    Update,
    AddDependency,
    ViewDocs,
    ViewSource,
}

impl CrateSuggestion {
    /// The suggestion to add a crate to the project.
    pub fn install(name: &str) -> (r: CrateSuggestion)
        ensures
            r.action == SuggestedAction::Install,
            r.command@ == "cargo add "@ + name@,
            r.description@ == "Add "@ + name@ + " to your project dependencies"@,
    {
        let mut command = String::new();
        command.append("cargo add ");
        command.append(name);
        let mut description = String::new();
        description.append("Add ");
        description.append(name);
        description.append(" to your project dependencies");
        proof {
            assert(command@ =~= "cargo add "@ + name@);
            assert(description@ =~= "Add "@ + name@ + " to your project dependencies"@);
        }
        CrateSuggestion { action: SuggestedAction::Install, command, description }
    }

    /// The suggestion to update a crate to a version.
    pub fn update(name: &str, version: &str) -> (r: CrateSuggestion)
        ensures
            r.action == SuggestedAction::Update,
            r.command@ == "cargo update -p "@ + name@ + "@"@ + version@,
            r.description@ == "Update "@ + name@ + " to version "@ + version@,
    {
        let mut command = String::new();
        command.append("cargo update -p ");
        command.append(name);
        command.append("@");
        command.append(version);
        let mut description = String::new();
        description.append("Update ");
        description.append(name);
        description.append(" to version ");
        description.append(version);
        proof {
            assert(command@ =~= "cargo update -p "@ + name@ + "@"@ + version@);
            assert(description@ =~= "Update "@ + name@ + " to version "@ + version@);
        }
        CrateSuggestion { action: SuggestedAction::Update, command, description }
    }

    /// The suggestion to open the built documentation.
    pub fn view_docs(name: &str) -> (r: CrateSuggestion)
        ensures
            r.action == SuggestedAction::ViewDocs,
            r.command@ == "cargo doc -p "@ + name@ + " --open"@,
            r.description@ == "Open documentation for "@ + name@,
    {
        let mut command = String::new();
        command.append("cargo doc -p ");
        command.append(name);
        command.append(" --open");
        let mut description = String::new();
        description.append("Open documentation for ");
        description.append(name);
        proof {
            assert(command@ =~= "cargo doc -p "@ + name@ + " --open"@);
            assert(description@ =~= "Open documentation for "@ + name@);
        }
        CrateSuggestion { action: SuggestedAction::ViewDocs, command, description }
    }

    /// The suggestion to open the online documentation page.
    pub fn view_online_docs(name: &str) -> (r: CrateSuggestion)
        ensures
            r.action == SuggestedAction::ViewDocs,
            r.command@ == "xdg-open https://docs.rs/"@ + name@,
            r.description@ == "Open docs.rs page for "@ + name@,
    {
        let mut command = String::new();
        command.append("xdg-open https://docs.rs/");
        command.append(name);
        let mut description = String::new();
        description.append("Open docs.rs page for ");
        description.append(name);
        proof {
            assert(command@ =~= "xdg-open https://docs.rs/"@ + name@);
            assert(description@ =~= "Open docs.rs page for "@ + name@);
        }
        CrateSuggestion { action: SuggestedAction::ViewDocs, command, description }
    }
}

/// Assembles the suggestions for a crate, in order: install when the
/// crate is neither installed nor local, update when a newer version is
/// known, always the online documentation page, and the built
/// documentation when installed.
pub fn generate_suggestions(availability: &CrateAvailability) -> (r: Vec<CrateSuggestion>)
    ensures
        ({
            let ni: int = if !availability.is_installed && !availability.is_local {
                1
            } else {
                0
            };
            let up: int = if (match (availability.installed_version, availability.latest_version) {
                (Some(iv), Some(lv)) => iv@ != lv@ && cmp_nums(
                    parse_version_spec(iv@),
                    parse_version_spec(lv@),
                ) == Ordering::Less,
                _ => false,
            }) && availability.latest_version is Some {
                1
            } else {
                0
            };
            let di: int = if availability.is_installed {
                1
            } else {
                0
            };
            &&& r@.len() == ni + up + 1 + di
            &&& (ni == 1 ==> r@[0].action == SuggestedAction::Install && r@[0].command@
                == "cargo add "@ + availability.name@)
            &&& (up == 1 ==> r@[ni].action == SuggestedAction::Update && r@[ni].command@
                == "cargo update -p "@ + availability.name@ + "@"@
                + availability.latest_version->0@)
            &&& r@[ni + up].action == SuggestedAction::ViewDocs
            &&& r@[ni + up].command@ == "xdg-open https://docs.rs/"@ + availability.name@
            &&& (di == 1 ==> r@[ni + up + 1].action == SuggestedAction::ViewDocs && r@[ni + up
                + 1].command@ == "cargo doc -p "@ + availability.name@ + " --open"@)
        }),
{
    let mut suggestions: Vec<CrateSuggestion> = Vec::new();
    if availability.needs_install() {
        suggestions.push(CrateSuggestion::install(availability.name.as_str()));
    }
    if availability.has_update() {
        match &availability.latest_version {
            Some(version) => {
                suggestions.push(
                    CrateSuggestion::update(availability.name.as_str(), version.as_str()),
                );
            },
            None => {},
        }
    }
    suggestions.push(CrateSuggestion::view_online_docs(availability.name.as_str()));
    if availability.is_installed {
        suggestions.push(CrateSuggestion::view_docs(availability.name.as_str()));
    }
    suggestions
}

} // verus!
