//! Installed crates registry: holds the crates found in a local registry
//! cache, keyed by name, with their manifest metadata.

use vstd::prelude::*;
use crate::analyzer::parser::{clone_opt_string, clone_strings, RustAnalyzer};
use crate::analyzer::syn_bridge::parse_of;
use crate::analyzer::toml_bridge::{parse_toml, toml_of, TomlNode};
use crate::analyzer::types::{opt_view, AnalyzedItem, AnalyzedItemV};
use crate::error::OracleError;
use crate::strings::{
    chars_lex_lt, chars_to_string, contains_seq, lex_lt, lower_of, lowercase, split_chars,
    split_spec, str_eq, str_to_chars, strip_all_suffix, strip_suffix_chars, views_of,
};

verus! {

/// Information about an installed crate.
#[derive(Debug, Clone, PartialEq, Eq)]
pub struct InstalledCrate {
    pub name: String,
    pub version: String,
    /// The crate's directory in the registry cache.
    pub path: String,
    pub readme: Option<String>,
    pub license: Option<String>,
    pub description: Option<String>,
    pub authors: Vec<String>,
    pub repository: Option<String>,
    pub documentation: Option<String>,
    pub keywords: Vec<String>,
    pub categories: Vec<String>,
}

/// Mathematical model of an installed crate record.
#[verifier::ext_equal]
pub struct InstalledCrateV {
    pub name: Seq<char>,
    pub version: Seq<char>,
    pub path: Seq<char>,
    pub readme: Option<Seq<char>>,
    pub license: Option<Seq<char>>,
    pub description: Option<Seq<char>>,
    pub authors: Seq<Seq<char>>,
    pub repository: Option<Seq<char>>,
    pub documentation: Option<Seq<char>>,
    pub keywords: Seq<Seq<char>>,
    pub categories: Seq<Seq<char>>,
}

impl View for InstalledCrate {
    type V = InstalledCrateV;

    open spec fn view(&self) -> InstalledCrateV {
        InstalledCrateV {
            name: self.name@,
            version: self.version@,
            path: self.path@,
            readme: opt_view(self.readme),
            license: opt_view(self.license),
            description: opt_view(self.description),
            authors: views_of(self.authors@),
            repository: opt_view(self.repository),
            documentation: opt_view(self.documentation),
            keywords: views_of(self.keywords@),
            categories: views_of(self.categories@),
        }
    }
}

/// One source file of a crate, read by the caller: its path and text.
#[derive(Debug, Clone, PartialEq, Eq)]
pub struct SourceFile {
    pub path: String,
    pub content: String,
}

/// The manifest metadata fields the registry reads.
#[derive(Debug, Clone, PartialEq, Eq)]
pub struct ManifestFields {
    pub description: Option<String>,
    pub authors: Vec<String>,
    pub license: Option<String>,
    pub repository: Option<String>,
    pub documentation: Option<String>,
    pub keywords: Vec<String>,
    pub categories: Vec<String>,
}

/// The value of the first pair with the given key.
pub open spec fn pairs_get(pairs: Seq<(String, TomlNode)>, key: Seq<char>) -> Option<TomlNode>
    decreases pairs.len(),
{
    if pairs.len() == 0 {
        None
    } else if pairs[0].0@ == key {
        Some(pairs[0].1)
    } else {
        pairs_get(pairs.drop_first(), key)
    }
}

/// Looks a key up in a table node; anything else holds no keys.
pub open spec fn table_get(n: TomlNode, key: Seq<char>) -> Option<TomlNode> {
    match n {
        TomlNode::Table(ps) => pairs_get(ps@, key),
        _ => None,
    }
}

/// The text of a string node.
pub open spec fn as_str_node(n: TomlNode) -> Option<Seq<char>> {
    match n {
        TomlNode::Str(s) => Some(s@),
        _ => None,
    }
}

/// The texts of the string items of a list, in order; other items are
/// skipped.
pub open spec fn str_items(items: Seq<TomlNode>) -> Seq<Seq<char>>
    decreases items.len(),
{
    if items.len() == 0 {
        Seq::empty()
    } else {
        (match items[0] {
            TomlNode::Str(s) => seq![s@],
            _ => Seq::empty(),
        }) + str_items(items.drop_first())
    }
}

/// A string field of the manifest's `package` table.
pub open spec fn pkg_field_str(doc: Option<TomlNode>, key: Seq<char>) -> Option<Seq<char>> {
    match doc {
        Some(root) => match table_get(root, "package"@) {
            Some(p) => match table_get(p, key) {
                Some(n) => as_str_node(n),
                None => None,
            },
            None => None,
        },
        None => None,
    }
}

/// A string list field of the manifest's `package` table; a missing or
/// differently shaped field degrades to the empty list.
pub open spec fn pkg_field_arr(doc: Option<TomlNode>, key: Seq<char>) -> Seq<Seq<char>> {
    match doc {
        Some(root) => match table_get(root, "package"@) {
            Some(p) => match table_get(p, key) {
                Some(TomlNode::Arr(items)) => str_items(items@),
                _ => Seq::empty(),
            },
            None => Seq::empty(),
        },
        None => Seq::empty(),
    }
}

proof fn lemma_pairs_get_found(pairs: Seq<(String, TomlNode)>, j: int, key: Seq<char>)
    requires
        0 <= j < pairs.len(),
        pairs[j].0@ == key,
        forall|k: int| 0 <= k < j ==> (#[trigger] pairs[k]).0@ != key,
    ensures
        pairs_get(pairs, key) == Some(pairs[j].1),
    decreases j,
{
    if j > 0 {
        lemma_pairs_get_found(pairs.drop_first(), j - 1, key);
    }
}

proof fn lemma_pairs_get_none(pairs: Seq<(String, TomlNode)>, key: Seq<char>)
    requires
        forall|k: int| 0 <= k < pairs.len() ==> (#[trigger] pairs[k]).0@ != key,
    ensures
        pairs_get(pairs, key) is None,
    decreases pairs.len(),
{
    if pairs.len() > 0 {
        lemma_pairs_get_none(pairs.drop_first(), key);
    }
}

/// Looks a key up in a table node.
fn node_get<'a>(n: &'a TomlNode, key: &str) -> (r: Option<&'a TomlNode>)
    ensures
        match r {
            Some(x) => table_get(*n, key@) == Some(*x),
            None => table_get(*n, key@) is None,
        },
{
    match n {
        TomlNode::Table(ps) => {
            let mut j: usize = 0;
            while j < ps.len()
                invariant
                    j <= ps@.len(),
                    table_get(*n, key@) == pairs_get(ps@, key@),
                    forall|k: int| 0 <= k < j ==> (#[trigger] ps@[k]).0@ != key@,
                decreases ps@.len() - j,
            {
                if str_eq(ps[j].0.as_str(), key) {
                    let pair = &ps[j];
                    proof {
                        lemma_pairs_get_found(ps@, j as int, key@);
                        assert(pairs_get(ps@, key@) == Some(ps@[j as int].1));
                        assert(pair.1 == ps@[j as int].1);
                    }
                    return Some(&pair.1);
                }
                j = j + 1;
            }
            proof {
                lemma_pairs_get_none(ps@, key@);
            }
            None
        },
        _ => None,
    }
}

/// The text of a string node, copied.
fn node_str(n: &TomlNode) -> (r: Option<String>)
    ensures
        opt_view(r) == as_str_node(*n),
{
    match n {
        TomlNode::Str(s) => Some(s.clone()),
        _ => None,
    }
}

proof fn lemma_str_items_take(items: Seq<TomlNode>, i: int)
    requires
        0 <= i < items.len(),
    ensures
        str_items(items.take(i + 1)) == str_items(items.take(i)) + (match items[i] {
            TomlNode::Str(s) => seq![s@],
            _ => Seq::empty(),
        }),
    decreases i,
{
    let a = items.take(i + 1);
    let b = items.take(i);
    if i == 0 {
        assert(a.drop_first() =~= Seq::<TomlNode>::empty());
        assert(b =~= Seq::<TomlNode>::empty());
        assert(str_items(a) =~= str_items(b) + (match items[0] {
            TomlNode::Str(s) => seq![s@],
            _ => Seq::empty(),
        }));
    } else {
        lemma_str_items_take(items.drop_first(), i - 1);
        assert(a.drop_first() =~= items.drop_first().take(i as int));
        assert(b.drop_first() =~= items.drop_first().take(i - 1));
        assert(items.drop_first()[i - 1] == items[i]);
        assert(str_items(a) =~= str_items(b) + (match items[i] {
            TomlNode::Str(s) => seq![s@],
            _ => Seq::empty(),
        }));
    }
}

/// Collects the string items of a list.
fn collect_str_items(items: &Vec<TomlNode>) -> (r: Vec<String>)
    ensures
        views_of(r@) == str_items(items@),
{
    let mut out: Vec<String> = Vec::new();
    let mut i: usize = 0;
    proof {
        assert(items@.take(0) =~= Seq::<TomlNode>::empty());
        assert(views_of(out@) =~= str_items(items@.take(0)));
    }
    while i < items.len()
        invariant
            i <= items@.len(),
            views_of(out@) == str_items(items@.take(i as int)),
        decreases items@.len() - i,
    {
        proof {
            lemma_str_items_take(items@, i as int);
        }
        match &items[i] {
            TomlNode::Str(s) => {
                out.push(s.clone());
                proof {
                    assert(views_of(out@) =~= str_items(items@.take(i + 1)));
                }
            },
            _ => {
                proof {
                    assert(views_of(out@) =~= str_items(items@.take(i + 1)));
                }
            },
        }
        i = i + 1;
    }
    proof {
        assert(items@.take(items@.len() as int) =~= items@);
    }
    out
}

/// One string field of the `package` table, or nothing.
fn manifest_str_field(doc: &Option<TomlNode>, key: &str) -> (r: Option<String>)
    ensures
        opt_view(r) == pkg_field_str(*doc, key@),
{
    match doc {
        Some(root) => match node_get(root, "package") {
            Some(p) => match node_get(p, key) {
                Some(n) => node_str(n),
                None => None,
            },
            None => None,
        },
        None => None,
    }
}

/// One string list field of the `package` table, or the empty list.
fn manifest_arr_field(doc: &Option<TomlNode>, key: &str) -> (r: Vec<String>)
    ensures
        views_of(r@) == pkg_field_arr(*doc, key@),
{
    let empty_case = Vec::new();
    proof {
        assert(views_of(empty_case@) =~= Seq::<Seq<char>>::empty());
    }
    match doc {
        Some(root) => match node_get(root, "package") {
            Some(p) => match node_get(p, key) {
                Some(n) => match n {
                    TomlNode::Arr(items) => collect_str_items(items),
                    _ => empty_case,
                },
                None => empty_case,
            },
            None => empty_case,
        },
        None => empty_case,
    }
}

/// Parses the metadata fields out of a manifest text. A text the
/// external parser rejects, or a missing or differently shaped field,
/// degrades to absent or empty fields, never to an error.
pub fn parse_cargo_toml(content: &str) -> (r: ManifestFields)
    ensures
        opt_view(r.description) == pkg_field_str(toml_of(content@), "description"@),
        views_of(r.authors@) == pkg_field_arr(toml_of(content@), "authors"@),
        opt_view(r.license) == pkg_field_str(toml_of(content@), "license"@),
        opt_view(r.repository) == pkg_field_str(toml_of(content@), "repository"@),
        opt_view(r.documentation) == pkg_field_str(toml_of(content@), "documentation"@),
        views_of(r.keywords@) == pkg_field_arr(toml_of(content@), "keywords"@),
        views_of(r.categories@) == pkg_field_arr(toml_of(content@), "categories"@),
{
    let doc = parse_toml(content);
    ManifestFields {
        description: manifest_str_field(&doc, "description"),
        authors: manifest_arr_field(&doc, "authors"),
        license: manifest_str_field(&doc, "license"),
        repository: manifest_str_field(&doc, "repository"),
        documentation: manifest_str_field(&doc, "documentation"),
        keywords: manifest_arr_field(&doc, "keywords"),
        categories: manifest_arr_field(&doc, "categories"),
    }
}

/// An ASCII decimal digit.
pub open spec fn is_digit(c: char) -> bool {
    48 <= (c as u32) <= 57
}

/// The position where a registry directory name splits into crate name
/// and version: the last hyphen that a digit follows.
pub open spec fn split_pos(s: Seq<char>) -> Option<int>
    decreases s.len(),
{
    if s.len() < 2 {
        None
    } else if s[s.len() - 2] == '-' && is_digit(s[s.len() - 1]) {
        Some(s.len() - 2)
    } else {
        split_pos(s.drop_last())
    }
}

proof fn lemma_split_pos_found(s: Seq<char>, i: int)
    requires
        0 <= i,
        i + 1 < s.len(),
        s[i] == '-',
        is_digit(s[i + 1]),
        forall|k: int| i < k && k + 1 < s.len() ==> !(s[k] == '-' && is_digit(#[trigger] s[k + 1])),
    ensures
        split_pos(s) == Some(i),
    decreases s.len(),
{
    if i + 2 < s.len() {
        let k = s.len() - 2;
        assert(!(s[k] == '-' && is_digit(s[k + 1])));
        let t = s.drop_last();
        assert(t[i] == s[i] && t[i + 1] == s[i + 1]);
        assert forall|m: int| i < m && m + 1 < t.len() implies !(t[m] == '-' && is_digit(
            #[trigger] t[m + 1],
        )) by {
            assert(t[m] == s[m] && t[m + 1] == s[m + 1]);
            assert(!(s[m] == '-' && is_digit(s[m + 1])));
        }
        lemma_split_pos_found(t, i);
    }
}

proof fn lemma_split_pos_none(s: Seq<char>)
    requires
        forall|k: int| 0 <= k && k + 1 < s.len() ==> !(s[k] == '-' && is_digit(#[trigger] s[k + 1])),
    ensures
        split_pos(s) is None,
    decreases s.len(),
{
    if s.len() >= 2 {
        let k = s.len() - 2;
        assert(!(s[k] == '-' && is_digit(s[k + 1])));
        let t = s.drop_last();
        assert forall|m: int| 0 <= m && m + 1 < t.len() implies !(t[m] == '-' && is_digit(
            #[trigger] t[m + 1],
        )) by {
            assert(t[m] == s[m] && t[m + 1] == s[m + 1]);
            assert(!(s[m] == '-' && is_digit(s[m + 1])));
        }
        lemma_split_pos_none(t);
    }
}

/// The UTF-8 encoded length of one character.
pub open spec fn char_utf8_len(c: char) -> int {
    if (c as u32) < 0x80 {
        1
    } else if (c as u32) < 0x800 {
        2
    } else if (c as u32) < 0x10000 {
        3
    } else {
        4
    }
}

/// The UTF-8 encoded length of a text.
pub open spec fn byte_len(s: Seq<char>) -> int
    decreases s.len(),
{
    if s.len() == 0 {
        0
    } else {
        char_utf8_len(s[0]) + byte_len(s.drop_first())
    }
}

proof fn lemma_byte_len_take_step(s: Seq<char>, i: int)
    requires
        0 <= i < s.len(),
    ensures
        byte_len(s.take(i + 1)) == byte_len(s.take(i)) + char_utf8_len(s[i]),
    decreases i,
{
    let a = s.take(i + 1);
    let b = s.take(i);
    if i == 0 {
        assert(a.drop_first() =~= Seq::<char>::empty());
        assert(b =~= Seq::<char>::empty());
    } else {
        lemma_byte_len_take_step(s.drop_first(), i - 1);
        assert(a.drop_first() =~= s.drop_first().take(i as int));
        assert(b.drop_first() =~= s.drop_first().take(i - 1));
        assert(s.drop_first()[i - 1] == s[i]);
    }
}

proof fn lemma_byte_len_prefix(s: Seq<char>, i: int)
    requires
        0 <= i <= s.len(),
    ensures
        byte_len(s) >= byte_len(s.take(i)) + (s.len() - i),
    decreases s.len() - i,
{
    if i < s.len() {
        lemma_byte_len_take_step(s, i);
        lemma_byte_len_prefix(s, i + 1);
        assert(char_utf8_len(s[i]) >= 1);
    } else {
        assert(s.take(s.len() as int) =~= s);
    }
}

/// The number of leading characters whose encoded start offset lies
/// below the budget.
pub open spec fn head_chars(s: Seq<char>, budget: int) -> int
    decreases s.len(),
{
    if s.len() == 0 || budget <= 0 {
        0
    } else {
        1 + head_chars(s.drop_first(), budget - char_utf8_len(s[0]))
    }
}

proof fn lemma_head_chars(s: Seq<char>, budget: int, j: int)
    requires
        0 <= j <= s.len(),
        forall|k: int| 0 <= k < j ==> byte_len(s.take(k)) < budget,
        j < s.len() ==> byte_len(s.take(j)) >= budget,
    ensures
        head_chars(s, budget) == j,
    decreases s.len(),
{
    if s.len() == 0 {
    } else if j == 0 {
        assert(byte_len(s.take(0)) == 0) by {
            assert(s.take(0) =~= Seq::<char>::empty());
        }
        assert(budget <= 0);
    } else {
        assert(byte_len(s.take(0)) == 0) by {
            assert(s.take(0) =~= Seq::<char>::empty());
        }
        assert(budget > 0);
        let t = s.drop_first();
        let b2 = budget - char_utf8_len(s[0]);
        assert forall|k: int| 0 <= k < j - 1 implies byte_len(t.take(k)) < b2 by {
            assert(s.take(k + 1).drop_first() =~= t.take(k));
            lemma_byte_len_take_step(s, k);
            assert(byte_len(s.take(k + 1)) == char_utf8_len(s[0]) + byte_len(t.take(k))) by {
                assert(s.take(k + 1)[0] == s[0]);
            }
        }
        if j - 1 < t.len() {
            assert(s.take(j).drop_first() =~= t.take(j - 1));
            assert(byte_len(s.take(j)) == char_utf8_len(s[0]) + byte_len(t.take(j - 1))) by {
                assert(s.take(j)[0] == s[0]);
            }
        }
        lemma_head_chars(t, b2, j - 1);
    }
}

/// A readme text truncated for display: when its encoded form is over
/// 10000 bytes, the characters that start below that bound are kept and
/// a truncation marker is appended.
pub open spec fn truncate_readme_spec(s: Seq<char>) -> Seq<char> {
    if byte_len(s) > 10000 {
        s.take(head_chars(s, 10000)) + "\n...[truncated]"@
    } else {
        s
    }
}

/// Truncates a readme text at a character boundary near 10000 encoded
/// bytes, appending a marker; a shorter text passes through unchanged.
pub fn truncate_readme(content: &str) -> (r: String)
    ensures
        r@ == truncate_readme_spec(content@),
{
    let v = str_to_chars(content);
    let n = v.len();
    let mut j: usize = 0;
    let mut acc: usize = 0;
    proof {
        assert(v@.take(0) =~= Seq::<char>::empty());
    }
    while j < n && acc < 10000
        invariant
            j <= n,
            n == v@.len(),
            acc == byte_len(v@.take(j as int)),
            acc <= 10003,
            forall|k: int| 0 <= k < j ==> byte_len(v@.take(k)) < 10000,
        decreases n - j,
    {
        let c = v[j];
        let cl: usize = if (c as u32) < 0x80 {
            1
        } else if (c as u32) < 0x800 {
            2
        } else if (c as u32) < 0x10000 {
            3
        } else {
            4
        };
        proof {
            lemma_byte_len_take_step(v@, j as int);
        }
        acc = acc + cl;
        j = j + 1;
    }
    proof {
        lemma_head_chars(v@, 10000, j as int);
    }
    if j == n && acc <= 10000 {
        proof {
            assert(v@.take(n as int) =~= v@);
            assert(byte_len(v@) <= 10000);
        }
        let r = content.to_owned();
        return r;
    }
    proof {
        if j < n {
            lemma_byte_len_prefix(v@, j as int);
            assert(byte_len(v@) > 10000);
        } else {
            assert(v@.take(n as int) =~= v@);
            assert(byte_len(v@) > 10000);
        }
    }
    let mut kept: Vec<char> = Vec::new();
    let mut i: usize = 0;
    while i < j
        invariant
            i <= j <= n,
            n == v@.len(),
            kept@ == v@.take(i as int),
        decreases j - i,
    {
        kept.push(v[i]);
        proof {
            assert(kept@ =~= v@.take(i + 1));
        }
        i = i + 1;
    }
    let mut r = chars_to_string(&kept);
    r.append("\n...[truncated]");
    proof {
        assert(r@ =~= truncate_readme_spec(content@));
    }
    r
}

/// Copies an installed crate record.
fn clone_installed(c: &InstalledCrate) -> (r: InstalledCrate)
    ensures
        r@ == c@,
{
    InstalledCrate {
        name: c.name.clone(),
        version: c.version.clone(),
        path: c.path.clone(),
        readme: clone_opt_string(&c.readme),
        license: clone_opt_string(&c.license),
        description: clone_opt_string(&c.description),
        authors: clone_strings(&c.authors),
        repository: clone_opt_string(&c.repository),
        documentation: clone_opt_string(&c.documentation),
        keywords: clone_strings(&c.keywords),
        categories: clone_strings(&c.categories),
    }
}

/// `x` inserted into an ascending run: before the first strictly greater
/// name, after equals.
pub open spec fn insert_asc(x: String, s: Seq<String>) -> Seq<String>
    decreases s.len(),
{
    if s.len() == 0 {
        seq![x]
    } else if lex_lt(x@, s[0]@) {
        seq![x] + s
    } else {
        seq![s[0]] + insert_asc(x, s.drop_first())
    }
}

/// The names sorted ascending by insertion, stably.
pub open spec fn sort_asc(s: Seq<String>) -> Seq<String>
    decreases s.len(),
{
    if s.len() == 0 {
        Seq::empty()
    } else {
        insert_asc(s.last(), sort_asc(s.drop_last()))
    }
}

proof fn lemma_insert_asc_at(x: String, s: Seq<String>, j: int)
    requires
        0 <= j <= s.len(),
        forall|k: int| 0 <= k < j ==> !lex_lt(x@, (#[trigger] s[k])@),
        j < s.len() ==> lex_lt(x@, s[j]@),
    ensures
        insert_asc(x, s) == s.take(j) + seq![x] + s.skip(j),
    decreases j,
{
    if s.len() == 0 {
        assert(s.take(0) =~= Seq::<String>::empty());
        assert(s.skip(0) =~= Seq::<String>::empty());
        assert(insert_asc(x, s) =~= s.take(j) + seq![x] + s.skip(j));
    } else if j == 0 {
        assert(s.take(0) =~= Seq::<String>::empty());
        assert(s.skip(0) =~= s);
        assert(insert_asc(x, s) =~= s.take(0) + seq![x] + s.skip(0));
    } else {
        lemma_insert_asc_at(x, s.drop_first(), j - 1);
        assert(s.drop_first().take(j - 1) =~= s.take(j).drop_first());
        assert(s.drop_first().skip(j - 1) =~= s.skip(j));
        assert(seq![s[0]] + (s.drop_first().take(j - 1) + seq![x] + s.drop_first().skip(j - 1))
            =~= s.take(j) + seq![x] + s.skip(j));
    }
}

/// Inserts a name into an ascending run.
fn insert_name_sorted(out: &mut Vec<String>, x: String)
    ensures
        final(out)@ == insert_asc(x, old(out)@),
{
    let xc = str_to_chars(x.as_str());
    let mut j: usize = 0;
    let mut stop = false;
    while j < out.len() && !stop
        invariant
            j <= out@.len(),
            out@ == old(out)@,
            xc@ == x@,
            forall|k: int| 0 <= k < j ==> !lex_lt(x@, (#[trigger] out@[k])@),
            stop ==> j < out@.len() && lex_lt(x@, out@[j as int]@),
        decreases out@.len() - j + (if stop { 0int } else { 1int }),
    {
        let oc = str_to_chars(out[j].as_str());
        if chars_lex_lt(&xc, &oc) {
            stop = true;
        } else {
            j = j + 1;
        }
    }
    proof {
        lemma_insert_asc_at(x, out@, j as int);
    }
    out.insert(j, x);
    proof {
        assert(final(out)@ =~= old(out)@.take(j as int) + seq![x] + old(out)@.skip(j as int));
    }
}

/// The views of a list of installed crate records.
pub open spec fn crate_views(s: Seq<InstalledCrate>) -> Seq<InstalledCrateV> {
    s.map_values(|c: InstalledCrate| c@)
}

/// `x` inserted into a run descending by version: before the first
/// strictly older entry, after equals.
pub open spec fn insert_desc(x: InstalledCrateV, s: Seq<InstalledCrateV>) -> Seq<InstalledCrateV>
    decreases s.len(),
{
    if s.len() == 0 {
        seq![x]
    } else if lex_lt(s[0].version, x.version) {
        seq![x] + s
    } else {
        seq![s[0]] + insert_desc(x, s.drop_first())
    }
}

/// The records sorted by version descending by insertion, stably: the
/// order a stable sort under the reversed version comparison gives.
pub open spec fn sort_desc(s: Seq<InstalledCrateV>) -> Seq<InstalledCrateV>
    decreases s.len(),
{
    if s.len() == 0 {
        Seq::empty()
    } else {
        insert_desc(s.last(), sort_desc(s.drop_last()))
    }
}

proof fn lemma_insert_desc_at(x: InstalledCrateV, s: Seq<InstalledCrateV>, j: int)
    requires
        0 <= j <= s.len(),
        forall|k: int| 0 <= k < j ==> !lex_lt((#[trigger] s[k]).version, x.version),
        j < s.len() ==> lex_lt(s[j].version, x.version),
    ensures
        insert_desc(x, s) == s.take(j) + seq![x] + s.skip(j),
    decreases j,
{
    if s.len() == 0 {
        assert(s.take(0) =~= Seq::<InstalledCrateV>::empty());
        assert(s.skip(0) =~= Seq::<InstalledCrateV>::empty());
        assert(insert_desc(x, s) =~= s.take(j) + seq![x] + s.skip(j));
    } else if j == 0 {
        assert(s.take(0) =~= Seq::<InstalledCrateV>::empty());
        assert(s.skip(0) =~= s);
        assert(insert_desc(x, s) =~= s.take(0) + seq![x] + s.skip(0));
    } else {
        lemma_insert_desc_at(x, s.drop_first(), j - 1);
        assert(s.drop_first().take(j - 1) =~= s.take(j).drop_first());
        assert(s.drop_first().skip(j - 1) =~= s.skip(j));
        assert(seq![s[0]] + (s.drop_first().take(j - 1) + seq![x] + s.drop_first().skip(j - 1))
            =~= s.take(j) + seq![x] + s.skip(j));
    }
}

/// Inserts a record into a version-descending run.
fn insert_crate_sorted(out: &mut Vec<InstalledCrate>, x: InstalledCrate)
    ensures
        crate_views(final(out)@) == insert_desc(x@, crate_views(old(out)@)),
{
    let xc = str_to_chars(x.version.as_str());
    let mut j: usize = 0;
    let mut stop = false;
    while j < out.len() && !stop
        invariant
            j <= out@.len(),
            out@ == old(out)@,
            xc@ == x.version@,
            forall|k: int| 0 <= k < j ==> !lex_lt((#[trigger] out@[k]).version@, x.version@),
            stop ==> j < out@.len() && lex_lt(out@[j as int].version@, x.version@),
        decreases out@.len() - j + (if stop { 0int } else { 1int }),
    {
        let oc = str_to_chars(out[j].version.as_str());
        if chars_lex_lt(&oc, &xc) {
            stop = true;
        } else {
            j = j + 1;
        }
    }
    proof {
        let sv = crate_views(old(out)@);
        assert forall|k: int| 0 <= k < j implies !lex_lt(
            (#[trigger] sv[k]).version,
            x@.version,
        ) by {
            assert(sv[k] == old(out)@[k]@);
        }
        if (j as int) < sv.len() {
            assert(sv[j as int] == old(out)@[j as int]@);
        }
        lemma_insert_desc_at(x@, sv, j as int);
    }
    out.insert(j, x);
    proof {
        assert(crate_views(final(out)@) =~= crate_views(old(out)@).take(j as int) + seq![x@]
            + crate_views(old(out)@).skip(j as int));
    }
}

/// The position of the entry with the given name.
pub open spec fn entry_idx(
    entries: Seq<(String, Vec<InstalledCrate>)>,
    name: Seq<char>,
) -> Option<int>
    decreases entries.len(),
{
    if entries.len() == 0 {
        None
    } else if entries[0].0@ == name {
        Some(0int)
    } else {
        match entry_idx(entries.drop_first(), name) {
            Some(i) => Some(i + 1),
            None => None,
        }
    }
}

/// The stored records of a name; empty for an unknown name.
pub open spec fn group_of(
    entries: Seq<(String, Vec<InstalledCrate>)>,
    name: Seq<char>,
) -> Seq<InstalledCrate> {
    match entry_idx(entries, name) {
        Some(i) => entries[i].1@,
        None => Seq::empty(),
    }
}

/// The position of the first record with the given version.
pub open spec fn first_version_idx(group: Seq<InstalledCrate>, ver: Seq<char>) -> Option<int>
    decreases group.len(),
{
    if group.len() == 0 {
        None
    } else if group[0].version@ == ver {
        Some(0int)
    } else {
        match first_version_idx(group.drop_first(), ver) {
            Some(i) => Some(i + 1),
            None => None,
        }
    }
}

/// Every stored record, entry by entry in insertion order.
pub open spec fn all_crates(entries: Seq<(String, Vec<InstalledCrate>)>) -> Seq<InstalledCrate>
    decreases entries.len(),
{
    if entries.len() == 0 {
        Seq::empty()
    } else {
        entries[0].1@ + all_crates(entries.drop_first())
    }
}

/// The records whose lowercased name holds the query.
pub open spec fn search_matches(cs: Seq<InstalledCrateV>, q: Seq<char>) -> Seq<InstalledCrateV>
    decreases cs.len(),
{
    if cs.len() == 0 {
        Seq::empty()
    } else {
        (if contains_seq(lower_of(cs[0].name), q) {
            seq![cs[0]]
        } else {
            Seq::empty()
        }) + search_matches(cs.drop_first(), q)
    }
}

proof fn lemma_entry_idx_found(
    entries: Seq<(String, Vec<InstalledCrate>)>,
    j: int,
    name: Seq<char>,
)
    requires
        0 <= j < entries.len(),
        entries[j].0@ == name,
        forall|k: int| 0 <= k < j ==> (#[trigger] entries[k]).0@ != name,
    ensures
        entry_idx(entries, name) == Some(j),
    decreases j,
{
    if j > 0 {
        lemma_entry_idx_found(entries.drop_first(), j - 1, name);
    }
}

proof fn lemma_entry_idx_none(entries: Seq<(String, Vec<InstalledCrate>)>, name: Seq<char>)
    requires
        forall|k: int| 0 <= k < entries.len() ==> (#[trigger] entries[k]).0@ != name,
    ensures
        entry_idx(entries, name) is None,
    decreases entries.len(),
{
    if entries.len() > 0 {
        lemma_entry_idx_none(entries.drop_first(), name);
    }
}

/// Registry of installed crates, keyed by crate name.
pub struct CrateRegistry {
    crates: Vec<(String, Vec<InstalledCrate>)>,
    registry_path: String,
}

impl CrateRegistry {
    /// The stored entries: each name once, with its records in insertion
    /// order.
    pub closed spec fn spec_entries(self) -> Seq<(String, Vec<InstalledCrate>)> {
        self.crates@
    }

    /// The registry cache directory this registry was pointed at.
    pub closed spec fn spec_registry_path(self) -> Seq<char> {
        self.registry_path@
    }

    /// Each name owns at most one entry.
    pub closed spec fn wf(self) -> bool {
        forall|i: int, j: int|
            0 <= i < j < self.crates@.len() ==> (#[trigger] self.crates@[i]).0@ != (
            #[trigger] self.crates@[j]).0@
    }

    /// An empty registry over a custom cache directory.
    pub fn with_path(path: String) -> (r: CrateRegistry)
        ensures
            r.wf(),
            r.spec_entries() == Seq::<(String, Vec<InstalledCrate>)>::empty(),
            r.spec_registry_path() == path@,
    {
        CrateRegistry { crates: Vec::new(), registry_path: path }
    }

    /// Parses a registry directory name, such as `serde-1.0.193`, into
    /// crate name and version: the split is at the last hyphen that a
    /// digit follows, and a name without one is rejected.
    pub fn parse_crate_name_version(dir_name: &str) -> (r: Option<(String, String)>)
        ensures
            match split_pos(dir_name@) {
                Some(i) => r matches Some(p) && p.0@ == dir_name@.take(i) && p.1@
                    == dir_name@.skip(i + 1),
                None => r is None,
            },
    {
        let v = str_to_chars(dir_name);
        let n = v.len();
        let mut j: usize = n;
        while j > 1
            invariant
                j <= n,
                n == v@.len(),
                v@ == dir_name@,
                forall|k: int|
                    j - 1 <= k && k + 1 < n ==> !(v@[k] == '-' && is_digit(#[trigger] v@[k + 1])),
            decreases j,
        {
            j = j - 1;
            let c0 = v[j - 1];
            let c1 = v[j];
            if c0 == '-' && (c1 as u32) >= 48 && (c1 as u32) <= 57 {
                proof {
                    lemma_split_pos_found(v@, j - 1);
                }
                let mut name_chars: Vec<char> = Vec::new();
                let mut k: usize = 0;
                while k < j - 1
                    invariant
                        k <= j - 1 < n,
                        n == v@.len(),
                        v@ == dir_name@,
                        name_chars@ == v@.subrange(0, k as int),
                    decreases j - 1 - k,
                {
                    name_chars.push(v[k]);
                    k = k + 1;
                }
                let mut ver_chars: Vec<char> = Vec::new();
                let mut m: usize = j;
                while m < n
                    invariant
                        j <= m <= n,
                        n == v@.len(),
                        v@ == dir_name@,
                        ver_chars@ == v@.subrange(j as int, m as int),
                    decreases n - m,
                {
                    ver_chars.push(v[m]);
                    m = m + 1;
                }
                proof {
                    assert(name_chars@ =~= dir_name@.take(j - 1));
                    assert(ver_chars@ =~= dir_name@.skip(j as int));
                }
                return Some((chars_to_string(&name_chars), chars_to_string(&ver_chars)));
            }
        }
        proof {
            lemma_split_pos_none(v@);
        }
        None
    }

    /// Assembles an installed crate record from a registry directory:
    /// the directory name gives crate name and version, the manifest
    /// text (when one was found) gives the metadata fields, and the
    /// readme text (when one was found) is truncated for display. A
    /// directory name without a version split yields nothing.
    pub fn parse_crate_directory(
        &self,
        dir_name: &str,
        path: String,
        cargo_toml: Option<&str>,
        readme: Option<String>,
    ) -> (r: Option<InstalledCrate>)
        ensures
            match split_pos(dir_name@) {
                Some(i) => r matches Some(c) && {
                    let doc = match cargo_toml {
                        Some(t) => toml_of(t@),
                        None => None,
                    };
                    &&& c.name@ == dir_name@.take(i)
                    &&& c.version@ == dir_name@.skip(i + 1)
                    &&& c.path@ == path@
                    &&& opt_view(c.readme) == (match readme {
                        Some(t) => Some(truncate_readme_spec(t@)),
                        None => None,
                    })
                    &&& opt_view(c.description) == pkg_field_str(doc, "description"@)
                    &&& views_of(c.authors@) == pkg_field_arr(doc, "authors"@)
                    &&& opt_view(c.license) == pkg_field_str(doc, "license"@)
                    &&& opt_view(c.repository) == pkg_field_str(doc, "repository"@)
                    &&& opt_view(c.documentation) == pkg_field_str(doc, "documentation"@)
                    &&& views_of(c.keywords@) == pkg_field_arr(doc, "keywords"@)
                    &&& views_of(c.categories@) == pkg_field_arr(doc, "categories"@)
                },
                None => r is None,
            },
    {
        match Self::parse_crate_name_version(dir_name) {
            Some((name, version)) => {
                let fields = match cargo_toml {
                    Some(t) => parse_cargo_toml(t),
                    None => ManifestFields {
                        description: None,
                        authors: Vec::new(),
                        license: None,
                        repository: None,
                        documentation: None,
                        keywords: Vec::new(),
                        categories: Vec::new(),
                    },
                };
                proof {
                    if cargo_toml is None {
                        assert(views_of(Seq::<String>::empty()) =~= Seq::<Seq<char>>::empty());
                    }
                }
                let readme_text = match readme {
                    Some(t) => Some(truncate_readme(t.as_str())),
                    None => None,
                };
                Some(
                    InstalledCrate {
                        name,
                        version,
                        path,
                        readme: readme_text,
                        license: fields.license,
                        description: fields.description,
                        authors: fields.authors,
                        repository: fields.repository,
                        documentation: fields.documentation,
                        keywords: fields.keywords,
                        categories: fields.categories,
                    },
                )
            },
            None => None,
        }
    }

    /// Stores one record under its crate name, appending to the name's
    /// entry or opening a new one.
    pub fn add_crate(&mut self, c: InstalledCrate)
        requires
            old(self).wf(),
        ensures
            final(self).wf(),
            final(self).spec_registry_path() == old(self).spec_registry_path(),
            match entry_idx(old(self).spec_entries(), c.name@) {
                Some(i) => {
                    &&& final(self).spec_entries().len() == old(self).spec_entries().len()
                    &&& final(self).spec_entries()[i].0 == old(self).spec_entries()[i].0
                    &&& final(self).spec_entries()[i].1@ == old(self).spec_entries()[i].1@.push(c)
                    &&& forall|k: int|
                        0 <= k < old(self).spec_entries().len() && k != i
                            ==> #[trigger] final(self).spec_entries()[k] == old(
                            self,
                        ).spec_entries()[k]
                },
                None => {
                    &&& final(self).spec_entries().len() == old(self).spec_entries().len() + 1
                    &&& final(self).spec_entries().last().0 == c.name
                    &&& final(self).spec_entries().last().1@ == seq![c]
                    &&& forall|k: int|
                        0 <= k < old(self).spec_entries().len()
                            ==> #[trigger] final(self).spec_entries()[k] == old(
                            self,
                        ).spec_entries()[k]
                },
            },
    {
        let mut j: usize = 0;
        while j < self.crates.len()
            invariant
                j <= self.crates@.len(),
                self == old(self),
                old(self).wf(),
                forall|k: int| 0 <= k < j ==> (#[trigger] self.crates@[k]).0@ != c.name@,
            decreases self.crates@.len() - j,
        {
            if str_eq(self.crates[j].0.as_str(), c.name.as_str()) {
                proof {
                    lemma_entry_idx_found(self.crates@, j as int, c.name@);
                }
                let ghost cg = c;
                let ghost oldpair = self.crates@[j as int];
                let mut pair = self.crates.remove(j);
                proof {
                    assert(pair == oldpair);
                }
                pair.1.push(c);
                self.crates.insert(j, pair);
                proof {
                    assert(self.crates@ =~= old(self).crates@.update(
                        j as int,
                        self.crates@[j as int],
                    ));
                    assert(self.crates@[j as int].0 == oldpair.0);
                    assert(self.crates@[j as int].1@ =~= oldpair.1@.push(cg));
                    assert forall|a: int, b: int|
                        0 <= a < b < self.crates@.len() implies (#[trigger] self.crates@[a]).0@
                        != (#[trigger] self.crates@[b]).0@ by {
                        if a == j {
                            assert(self.crates@[a].0 == oldpair.0);
                        } else {
                            assert(self.crates@[a] == old(self).crates@[a]);
                        }
                        if b == j {
                            assert(self.crates@[b].0 == oldpair.0);
                        } else {
                            assert(self.crates@[b] == old(self).crates@[b]);
                        }
                        assert((old(self).crates@[a]).0@ != (old(self).crates@[b]).0@);
                    }
                }
                return ;
            }
            j = j + 1;
        }
        proof {
            lemma_entry_idx_none(self.crates@, c.name@);
        }
        let name_key = c.name.clone();
        let mut group: Vec<InstalledCrate> = Vec::new();
        let ghost cg = c;
        group.push(c);
        proof {
            assert(group@ =~= seq![cg]);
        }
        self.crates.push((name_key, group));
        proof {
            assert forall|a: int, b: int|
                0 <= a < b < self.crates@.len() implies (#[trigger] self.crates@[a]).0@ != (
            #[trigger] self.crates@[b]).0@ by {
                if b < self.crates@.len() - 1 {
                    assert(self.crates@[a].0@ == old(self).crates@[a].0@);
                    assert(self.crates@[b].0@ == old(self).crates@[b].0@);
                } else {
                    assert(self.crates@[a].0@ == old(self).crates@[a].0@);
                    assert(self.crates@[b].0@ == cg.name@);
                }
            }
        }
    }

    /// All installed crate names, sorted ascending.
    pub fn crate_names(&self) -> (r: Vec<String>)
        ensures
            r@ == sort_asc(self.spec_entries().map_values(
                |e: (String, Vec<InstalledCrate>)| e.0,
            )),
    {
        let ghost keys = self.spec_entries().map_values(|e: (String, Vec<InstalledCrate>)| e.0);
        let mut out: Vec<String> = Vec::new();
        let mut i: usize = 0;
        proof {
            assert(keys.take(0) =~= Seq::<String>::empty());
        }
        while i < self.crates.len()
            invariant
                i <= self.crates@.len(),
                keys == self.spec_entries().map_values(
                    |e: (String, Vec<InstalledCrate>)| e.0,
                ),
                keys.len() == self.crates@.len(),
                out@ == sort_asc(keys.take(i as int)),
            decreases self.crates@.len() - i,
        {
            let name = self.crates[i].0.clone();
            insert_name_sorted(&mut out, name);
            proof {
                assert(keys.take(i + 1).drop_last() =~= keys.take(i as int));
                assert(keys.take(i + 1).last() == keys[i as int]);
            }
            i = i + 1;
        }
        proof {
            assert(keys.take(keys.len() as int) =~= keys);
        }
        out
    }

    /// All stored records of a crate, newest version first by the
    /// simplified textual order; empty for an unknown name.
    pub fn versions(&self, name: &str) -> (r: Vec<InstalledCrate>)
        ensures
            crate_views(r@) == sort_desc(crate_views(group_of(self.spec_entries(), name@))),
    {
        let mut out: Vec<InstalledCrate> = Vec::new();
        let mut j: usize = 0;
        let mut found = false;
        while j < self.crates.len() && !found
            invariant
                j <= self.crates@.len(),
                !found ==> forall|k: int|
                    0 <= k < j ==> (#[trigger] self.crates@[k]).0@ != name@,
                !found ==> out@.len() == 0,
                found ==> crate_views(out@) == sort_desc(
                    crate_views(group_of(self.spec_entries(), name@)),
                ),
            decreases self.crates@.len() - j + (if found { 0int } else { 1int }),
        {
            if str_eq(self.crates[j].0.as_str(), name) {
                proof {
                    lemma_entry_idx_found(self.crates@, j as int, name@);
                }
                let group = &self.crates[j].1;
                let ghost gseq = group@;
                let mut m: usize = 0;
                proof {
                    assert(crate_views(gseq).take(0) =~= Seq::<InstalledCrateV>::empty());
                    assert(crate_views(out@) =~= sort_desc(crate_views(gseq).take(0)));
                }
                while m < group.len()
                    invariant
                        m <= group@.len(),
                        gseq == group@,
                        crate_views(out@) == sort_desc(crate_views(gseq).take(m as int)),
                    decreases group@.len() - m,
                {
                    let c = clone_installed(&group[m]);
                    proof {
                        assert(c@ == crate_views(gseq)[m as int]);
                    }
                    insert_crate_sorted(&mut out, c);
                    proof {
                        assert(crate_views(gseq).take(m + 1).drop_last() =~= crate_views(
                            gseq,
                        ).take(m as int));
                        assert(crate_views(gseq).take(m + 1).last() == crate_views(
                            gseq,
                        )[m as int]);
                    }
                    m = m + 1;
                }
                proof {
                    assert(crate_views(gseq).take(crate_views(gseq).len() as int) =~= crate_views(
                        gseq,
                    ));
                }
                found = true;
            } else {
                j = j + 1;
            }
        }
        proof {
            if !found {
                lemma_entry_idx_none(self.crates@, name@);
                assert(crate_views(Seq::<InstalledCrate>::empty()) =~= Seq::<
                    InstalledCrateV,
                >::empty());
                assert(crate_views(out@) =~= sort_desc(
                    crate_views(group_of(self.spec_entries(), name@)),
                ));
            }
        }
        out
    }

    /// The newest stored record of a crate, by the simplified textual
    /// order.
    pub fn latest(&self, name: &str) -> (r: Option<InstalledCrate>)
        ensures
            match r {
                Some(c) => sort_desc(crate_views(group_of(self.spec_entries(), name@))).len() > 0
                    && c@ == sort_desc(crate_views(group_of(self.spec_entries(), name@)))[0],
                None => sort_desc(crate_views(group_of(self.spec_entries(), name@))).len() == 0,
            },
    {
        let mut v = self.versions(name);
        if v.len() > 0 {
            Some(v.remove(0))
        } else {
            None
        }
    }

    /// The stored record with the given name and version, if any.
    pub fn get(&self, name: &str, version: &str) -> (r: Option<InstalledCrate>)
        ensures
            match first_version_idx(group_of(self.spec_entries(), name@), version@) {
                Some(i) => r matches Some(c) && c@ == group_of(self.spec_entries(), name@)[i]@,
                None => r is None,
            },
    {
        let mut j: usize = 0;
        while j < self.crates.len()
            invariant
                j <= self.crates@.len(),
                forall|k: int| 0 <= k < j ==> (#[trigger] self.crates@[k]).0@ != name@,
            decreases self.crates@.len() - j,
        {
            if str_eq(self.crates[j].0.as_str(), name) {
                proof {
                    lemma_entry_idx_found(self.crates@, j as int, name@);
                }
                let group = &self.crates[j].1;
                let mut m: usize = 0;
                while m < group.len()
                    invariant
                        m <= group@.len(),
                        group@ == self.crates@[j as int].1@,
                        entry_idx(self.spec_entries(), name@) == Some(j as int),
                        j < self.crates@.len(),
                        forall|k: int|
                            0 <= k < m ==> (#[trigger] group@[k]).version@ != version@,
                    decreases group@.len() - m,
                {
                    if str_eq(group[m].version.as_str(), version) {
                        proof {
                            lemma_first_version_found(group@, m as int, version@);
                        }
                        return Some(clone_installed(&group[m]));
                    }
                    m = m + 1;
                }
                proof {
                    lemma_first_version_none(group@, version@);
                }
                return None;
            }
            j = j + 1;
        }
        proof {
            lemma_entry_idx_none(self.crates@, name@);
        }
        None
    }

    /// Whether any version of the named crate is stored.
    pub fn is_installed(&self, name: &str) -> (r: bool)
        ensures
            r == (entry_idx(self.spec_entries(), name@) is Some),
    {
        let mut j: usize = 0;
        while j < self.crates.len()
            invariant
                j <= self.crates@.len(),
                forall|k: int| 0 <= k < j ==> (#[trigger] self.crates@[k]).0@ != name@,
            decreases self.crates@.len() - j,
        {
            if str_eq(self.crates[j].0.as_str(), name) {
                proof {
                    lemma_entry_idx_found(self.crates@, j as int, name@);
                }
                return true;
            }
            j = j + 1;
        }
        proof {
            lemma_entry_idx_none(self.crates@, name@);
        }
        false
    }

    /// The number of distinct installed crate names.
    pub fn count(&self) -> (r: usize)
        ensures
            r == self.spec_entries().len(),
    {
        self.crates.len()
    }

    /// The stored records whose lowercased name holds the lowercased
    /// query, in storage order.
    pub fn search(&self, query: &str) -> (r: Vec<InstalledCrate>)
        ensures
            crate_views(r@) == search_matches(
                crate_views(all_crates(self.spec_entries())),
                lower_of(query@),
            ),
    {
        let query_lower = lowercase(query);
        let qc = str_to_chars(query_lower.as_str());
        let mut out: Vec<InstalledCrate> = Vec::new();
        let mut i: usize = 0;
        proof {
            assert(self.spec_entries().take(0) =~= Seq::<(String, Vec<InstalledCrate>)>::empty());
            assert(crate_views(out@) =~= search_matches(
                crate_views(all_crates(self.spec_entries().take(0))),
                lower_of(query@),
            ));
        }
        while i < self.crates.len()
            invariant
                i <= self.crates@.len(),
                qc@ == lower_of(query@),
                crate_views(out@) == search_matches(
                    crate_views(all_crates(self.spec_entries().take(i as int))),
                    lower_of(query@),
                ),
            decreases self.crates@.len() - i,
        {
            proof {
                lemma_all_crates_take(self.spec_entries(), i as int);
            }
            let ghost before_group = crate_views(out@);
            let group = &self.crates[i].1;
            let ghost gseq = crate_views(group@);
            let mut m: usize = 0;
            proof {
                assert(gseq.take(0) =~= Seq::<InstalledCrateV>::empty());
                assert(crate_views(out@) =~= before_group + search_matches(
                    gseq.take(0),
                    lower_of(query@),
                ));
            }
            while m < group.len()
                invariant
                    i < self.crates@.len(),
                    m <= group@.len(),
                    group == self.crates@[i as int].1,
                    gseq == crate_views(group@),
                    qc@ == lower_of(query@),
                    crate_views(out@) == before_group + search_matches(
                        gseq.take(m as int),
                        lower_of(query@),
                    ),
                decreases group@.len() - m,
            {
                proof {
                    lemma_search_matches_take(gseq, lower_of(query@), m as int);
                    assert(gseq[m as int] == group@[m as int]@);
                }
                let lname = lowercase(group[m].name.as_str());
                let lc = str_to_chars(lname.as_str());
                let ghost prev = out@;
                if crate::strings::chars_contain(&lc, &qc) {
                    let c = clone_installed(&group[m]);
                    let ghost cv = c@;
                    out.push(c);
                    proof {
                        assert(out@ =~= prev.push(out@[prev.len() as int]));
                        assert(out@[prev.len() as int]@ == cv);
                        assert(crate_views(out@) =~= crate_views(prev).push(cv));
                    }
                }
                proof {
                    assert(crate_views(out@) =~= before_group + search_matches(
                        gseq.take(m + 1),
                        lower_of(query@),
                    ));
                }
                m = m + 1;
            }
            proof {
                assert(gseq.take(gseq.len() as int) =~= gseq);
                lemma_search_matches_append(
                    crate_views(all_crates(self.spec_entries().take(i as int))),
                    gseq,
                    lower_of(query@),
                );
                lemma_all_crates_take(self.spec_entries(), i as int);
                assert(crate_views(all_crates(self.spec_entries().take(i + 1))) =~= crate_views(
                    all_crates(self.spec_entries().take(i as int)),
                ) + gseq);
                assert(crate_views(out@) =~= search_matches(
                    crate_views(all_crates(self.spec_entries().take(i + 1))),
                    lower_of(query@),
                ));
            }
            i = i + 1;
        }
        proof {
            assert(self.spec_entries().take(self.spec_entries().len() as int)
                =~= self.spec_entries());
        }
        out
    }
}

/// The start of the last occurrence of `pat` in `s`.
pub open spec fn last_occurrence(s: Seq<char>, pat: Seq<char>) -> Option<int>
    decreases s.len(),
{
    if pat.len() > s.len() {
        None
    } else if crate::strings::occurs_at(s, pat, s.len() - pat.len()) {
        Some(s.len() - pat.len())
    } else if s.len() == pat.len() {
        None
    } else {
        last_occurrence(s.drop_last(), pat)
    }
}

proof fn lemma_last_occ_step(s: Seq<char>, pat: Seq<char>, i: int)
    requires
        pat.len() >= 1,
        0 <= i,
        i + pat.len() <= s.len() - 1,
    ensures
        crate::strings::occurs_at(s.drop_last(), pat, i) == crate::strings::occurs_at(s, pat, i),
{
    assert(s.drop_last().subrange(i, i + pat.len()) =~= s.subrange(i, i + pat.len()));
}

proof fn lemma_last_occ_found(s: Seq<char>, pat: Seq<char>, i: int)
    requires
        pat.len() >= 1,
        crate::strings::occurs_at(s, pat, i),
        forall|k: int| i < k ==> !crate::strings::occurs_at(s, pat, k),
    ensures
        last_occurrence(s, pat) == Some(i),
    decreases s.len(),
{
    if i + pat.len() == s.len() {
    } else {
        assert(!crate::strings::occurs_at(s, pat, s.len() - pat.len()));
        lemma_last_occ_step(s, pat, i);
        assert forall|k: int| i < k implies !crate::strings::occurs_at(
            s.drop_last(),
            pat,
            k,
        ) by {
            if 0 <= k && k + pat.len() <= s.len() - 1 {
                lemma_last_occ_step(s, pat, k);
            }
        }
        lemma_last_occ_found(s.drop_last(), pat, i);
    }
}

proof fn lemma_last_occ_none(s: Seq<char>, pat: Seq<char>)
    requires
        pat.len() >= 1,
        forall|k: int| !crate::strings::occurs_at(s, pat, k),
    ensures
        last_occurrence(s, pat) is None,
    decreases s.len(),
{
    if pat.len() <= s.len() && s.len() > pat.len() {
        assert forall|k: int| !crate::strings::occurs_at(s.drop_last(), pat, k) by {
            if 0 <= k && k + pat.len() <= s.len() - 1 {
                lemma_last_occ_step(s, pat, k);
            }
        }
        lemma_last_occ_none(s.drop_last(), pat);
    }
}

/// Finds the start of the last occurrence of a pattern.
fn find_last_occurrence(v: &Vec<char>, pat: &Vec<char>) -> (r: Option<usize>)
    requires
        pat@.len() >= 1,
    ensures
        match r {
            Some(i) => i + pat@.len() <= v@.len() && last_occurrence(v@, pat@) == Some(i as int),
            None => last_occurrence(v@, pat@) is None,
        },
{
    let n = v.len();
    let m = pat.len();
    if m > n {
        proof {
            assert(forall|k: int| !crate::strings::occurs_at(v@, pat@, k));
            lemma_last_occ_none(v@, pat@);
        }
        return None;
    }
    let mut i: usize = n - m + 1;
    while i > 0
        invariant
            m == pat@.len(),
            n == v@.len(),
            1 <= m <= n,
            i <= n - m + 1,
            forall|k: int| i <= k ==> !crate::strings::occurs_at(v@, pat@, k),
        decreases i,
    {
        i = i - 1;
        let mut j: usize = 0;
        let mut same = true;
        while j < m
            invariant
                m == pat@.len(),
                n == v@.len(),
                i + m <= n,
                j <= m,
                same == (forall|k: int| 0 <= k < j ==> v@[i + k] == pat@[k]),
            decreases m - j,
        {
            if v[i + j] != pat[j] {
                same = false;
                proof {
                    assert(!(forall|k: int| 0 <= k < j + 1 ==> v@[i + k] == pat@[k]));
                }
            }
            j = j + 1;
        }
        if same {
            proof {
                assert(v@.subrange(i as int, i + m) =~= pat@);
                assert(crate::strings::occurs_at(v@, pat@, i as int));
                lemma_last_occ_found(v@, pat@, i as int);
            }
            return Some(i);
        }
        proof {
            if crate::strings::occurs_at(v@, pat@, i as int) {
                assert(forall|k: int|
                    0 <= k < m ==> #[trigger] pat@[k] == v@.subrange(i as int, i + m)[k]);
            }
        }
    }
    proof {
        assert(forall|k: int| !crate::strings::occurs_at(v@, pat@, k));
        lemma_last_occ_none(v@, pat@);
    }
    None
}

/// One path segment's contribution to a module path: a source file name
/// loses its extension and the module-root names are dropped; an empty
/// segment contributes nothing.
pub open spec fn segment_module(part: Seq<char>) -> Seq<Seq<char>> {
    if crate::strings::ends_with_spec(part, ".rs"@) {
        let m = strip_all_suffix(part, ".rs"@);
        if crate::analyzer::parser::is_special_segment(m) {
            Seq::empty()
        } else {
            seq![m]
        }
    } else if part.len() > 0 {
        seq![part]
    } else {
        Seq::empty()
    }
}

/// The module path segments of a list of path parts.
pub open spec fn module_segments(parts: Seq<Seq<char>>) -> Seq<Seq<char>>
    decreases parts.len(),
{
    if parts.len() == 0 {
        Seq::empty()
    } else {
        segment_module(parts[0]) + module_segments(parts.drop_first())
    }
}

proof fn lemma_module_segments_take(parts: Seq<Seq<char>>, i: int)
    requires
        0 <= i < parts.len(),
    ensures
        module_segments(parts.take(i + 1)) == module_segments(parts.take(i)) + segment_module(
            parts[i],
        ),
    decreases i,
{
    let a = parts.take(i + 1);
    let b = parts.take(i);
    if i == 0 {
        assert(a.drop_first() =~= Seq::<Seq<char>>::empty());
        assert(b =~= Seq::<Seq<char>>::empty());
        assert(module_segments(a) =~= module_segments(b) + segment_module(parts[0]));
    } else {
        lemma_module_segments_take(parts.drop_first(), i - 1);
        assert(a.drop_first() =~= parts.drop_first().take(i as int));
        assert(b.drop_first() =~= parts.drop_first().take(i - 1));
        assert(parts.drop_first()[i - 1] == parts[i]);
        assert(module_segments(a) =~= module_segments(b) + segment_module(parts[i]));
    }
}

/// The module path of a source file within a crate: the crate's module
/// name, then the cleaned segments after the last `/src/` of the path.
pub open spec fn build_module_path_spec(
    file_path: Seq<char>,
    crate_name: Seq<char>,
) -> Seq<Seq<char>> {
    match last_occurrence(file_path, "/src/"@) {
        Some(i) => seq![crate_name] + module_segments(
            split_spec(file_path.skip(i + "/src/"@.len()), '/'),
        ),
        None => seq![crate_name],
    }
}

impl CrateRegistry {
    /// Builds the module path of a source file from its path, rooted at
    /// the crate's module name.
    pub fn build_module_path(file_path: &str, crate_name: &str) -> (r: Vec<String>)
        ensures
            views_of(r@) == build_module_path_spec(file_path@, crate_name@),
    {
        let mut out: Vec<String> = Vec::new();
        out.push(crate_name.to_owned());
        let v = str_to_chars(file_path);
        let nv = v.len();
        let pat = str_to_chars("/src/");
        proof {
            reveal_strlit("/src/");
        }
        match find_last_occurrence(&v, &pat) {
            Some(idx) => {
                proof {
                    assert(pat@.len() == 5);
                    assert(idx + 5 <= nv);
                }
                let mut after: Vec<char> = Vec::new();
                let mut k: usize = idx + 5;
                let ghost astart = idx + 5;
                proof {
                    assert(after@ =~= v@.subrange(astart as int, astart as int));
                }
                while k < nv
                    invariant
                        nv == v@.len(),
                        0 <= astart <= k <= nv,
                        after@ == v@.subrange(astart as int, k as int),
                    decreases nv - k,
                {
                    after.push(v[k]);
                    proof {
                        assert(after@ =~= v@.subrange(astart as int, k + 1));
                    }
                    k = k + 1;
                }
                proof {
                    assert(after@ =~= v@.skip(astart as int));
                }
                let parts = split_chars(&after, '/');
                let ghost pseq = views_of(parts@);
                let mut i: usize = 0;
                let ghost base = views_of(out@);
                proof {
                    assert(base =~= seq![crate_name@]);
                    assert(pseq.take(0) =~= Seq::<Seq<char>>::empty());
                    assert(views_of(out@) =~= base + module_segments(pseq.take(0)));
                }
                while i < parts.len()
                    invariant
                        i <= parts@.len(),
                        pseq == views_of(parts@),
                        views_of(out@) == base + module_segments(pseq.take(i as int)),
                    decreases parts@.len() - i,
                {
                    proof {
                        lemma_module_segments_take(pseq, i as int);
                    }
                    let part = &parts[i];
                    let pc = str_to_chars(part.as_str());
                    let rs = str_to_chars(".rs");
                    proof {
                        reveal_strlit(".rs");
                    }
                    let ghost out_before = views_of(out@);
                    if crate::strings::chars_end_with(&pc, &rs) {
                        let mc = strip_suffix_chars(pc, &rs);
                        let module = chars_to_string(&mc);
                        let special = str_eq(module.as_str(), "lib") || str_eq(
                            module.as_str(),
                            "main",
                        ) || str_eq(module.as_str(), "mod");
                        if !special {
                            out.push(module);
                            proof {
                                assert(views_of(out@) =~= out_before + seq![
                                    strip_all_suffix(pseq[i as int], ".rs"@),
                                ]);
                            }
                        }
                        proof {
                            assert(views_of(out@) =~= out_before + segment_module(
                                pseq[i as int],
                            ));
                        }
                    } else if !part.as_str().is_empty() {
                        out.push(part.clone());
                        proof {
                            assert(views_of(out@) =~= out_before + segment_module(
                                pseq[i as int],
                            ));
                        }
                    } else {
                        proof {
                            assert(views_of(out@) =~= out_before + segment_module(
                                pseq[i as int],
                            ));
                        }
                    }
                    proof {
                        assert(views_of(out@) =~= base + module_segments(pseq.take(i + 1)));
                    }
                    i = i + 1;
                }
                proof {
                    assert(pseq.take(pseq.len() as int) =~= pseq);
                    assert(views_of(out@) =~= build_module_path_spec(file_path@, crate_name@));
                }
                out
            },
            None => {
                proof {
                    assert(views_of(out@) =~= seq![crate_name@]);
                }
                out
            },
        }
    }

    /// Analyzes one installed crate from its supplied source files: the
    /// chosen version's sources are parsed one file at a time, each
    /// rooted at the crate's module name; a file the parser rejects is
    /// skipped, and an unknown crate yields an empty catalog.
    pub fn analyze_crate(&self, name: &str, version: Option<&str>, files: &Vec<SourceFile>) -> (r:
        Result<Vec<AnalyzedItem>, OracleError>)
        ensures
            r matches Ok(v) && v@.map_values(|x: AnalyzedItem| x@) == (if crate_selected(
                self.spec_entries(),
                name@,
                match version {
                    Some(ver) => Some(ver@),
                    None => None,
                },
            ) {
                analyze_files_spec(files@, dash_to_underscore(name@))
            } else {
                Seq::<AnalyzedItemV>::empty()
            }),
    {
        let crate_info = match version {
            Some(ver) => self.get(name, ver),
            None => self.latest(name),
        };
        if crate_info.is_none() {
            let out: Vec<AnalyzedItem> = Vec::new();
            proof {
                assert(out@.map_values(|x: AnalyzedItem| x@) =~= Seq::<AnalyzedItemV>::empty());
            }
            return Ok(out);
        }
        let analyzer = RustAnalyzer::new();
        let nc = str_to_chars(name);
        let mut mc: Vec<char> = Vec::new();
        let mut i: usize = 0;
        while i < nc.len()
            invariant
                i <= nc@.len(),
                mc@ == dash_to_underscore(nc@.take(i as int)),
            decreases nc@.len() - i,
        {
            let c = nc[i];
            if c == '-' {
                mc.push('_');
            } else {
                mc.push(c);
            }
            proof {
                assert(mc@ =~= dash_to_underscore(nc@.take(i + 1)));
            }
            i = i + 1;
        }
        proof {
            assert(nc@.take(nc@.len() as int) =~= nc@);
        }
        let crate_module_name = chars_to_string(&mc);
        let mut items: Vec<AnalyzedItem> = Vec::new();
        let mut k: usize = 0;
        proof {
            assert(files@.take(0) =~= Seq::<SourceFile>::empty());
            assert(items@.map_values(|x: AnalyzedItem| x@) =~= analyze_files_spec(
                files@.take(0),
                dash_to_underscore(name@),
            ));
        }
        while k < files.len()
            invariant
                k <= files@.len(),
                crate_module_name@ == dash_to_underscore(name@),
                analyzer.include_private == true,
                items@.map_values(|x: AnalyzedItem| x@) == analyze_files_spec(
                    files@.take(k as int),
                    dash_to_underscore(name@),
                ),
            decreases files@.len() - k,
        {
            proof {
                lemma_analyze_files_take(files@, dash_to_underscore(name@), k as int);
            }
            let f = &files[k];
            let pc = str_to_chars(f.path.as_str());
            let rs = str_to_chars(".rs");
            proof {
                reveal_strlit(".rs");
            }
            if crate::strings::chars_end_with(&pc, &rs) {
                let mod_path = Self::build_module_path(f.path.as_str(), crate_module_name.as_str());
                match analyzer.analyze_source_with_module(
                    f.content.as_str(),
                    Some(f.path.clone()),
                    mod_path,
                ) {
                    Ok(mut file_items) => {
                        items.append(&mut file_items);
                    },
                    Err(_) => {},
                }
            }
            proof {
                assert(items@.map_values(|x: AnalyzedItem| x@) =~= analyze_files_spec(
                    files@.take(k + 1),
                    dash_to_underscore(name@),
                ));
            }
            k = k + 1;
        }
        proof {
            assert(files@.take(files@.len() as int) =~= files@);
        }
        Ok(items)
    }
}

/// Whether a crate selection resolves: a given version must be stored,
/// and otherwise some version must be.
pub open spec fn crate_selected(
    entries: Seq<(String, Vec<InstalledCrate>)>,
    name: Seq<char>,
    version: Option<Seq<char>>,
) -> bool {
    match version {
        Some(ver) => first_version_idx(group_of(entries, name), ver) is Some,
        None => group_of(entries, name).len() > 0,
    }
}

/// A crate name with hyphens replaced by underscores: its module name.
pub open spec fn dash_to_underscore(s: Seq<char>) -> Seq<char> {
    s.map_values(
        |c: char|
            if c == '-' {
                '_'
            } else {
                c
            },
    )
}

/// The records of a list of source files: each `.rs` file's parse,
/// expanded and stamped under its derived module path; a rejected file
/// contributes nothing.
pub open spec fn analyze_files_spec(files: Seq<SourceFile>, modname: Seq<char>) -> Seq<
    AnalyzedItemV,
>
    decreases files.len(),
{
    if files.len() == 0 {
        Seq::empty()
    } else {
        file_records(files[0], modname) + analyze_files_spec(files.drop_first(), modname)
    }
}

/// The records one source file contributes.
pub open spec fn file_records(f: SourceFile, modname: Seq<char>) -> Seq<AnalyzedItemV> {
    if crate::strings::ends_with_spec(f.path@, ".rs"@) {
        match parse_of(f.content@) {
            Some(raw) => crate::analyzer::parser::expand_items_spec(
                raw,
                build_module_path_spec(f.path@, modname),
                Some(f.path@),
                true,
            ),
            None => Seq::empty(),
        }
    } else {
        Seq::empty()
    }
}

proof fn lemma_analyze_files_take(files: Seq<SourceFile>, modname: Seq<char>, i: int)
    requires
        0 <= i < files.len(),
    ensures
        analyze_files_spec(files.take(i + 1), modname) == analyze_files_spec(
            files.take(i),
            modname,
        ) + file_records(files[i], modname),
    decreases i,
{
    let a = files.take(i + 1);
    let b = files.take(i);
    if i == 0 {
        assert(a.drop_first() =~= Seq::<SourceFile>::empty());
        assert(b =~= Seq::<SourceFile>::empty());
        assert(analyze_files_spec(a, modname) =~= analyze_files_spec(b, modname) + file_records(
            files[0],
            modname,
        ));
    } else {
        lemma_analyze_files_take(files.drop_first(), modname, i - 1);
        assert(a.drop_first() =~= files.drop_first().take(i as int));
        assert(b.drop_first() =~= files.drop_first().take(i - 1));
        assert(files.drop_first()[i - 1] == files[i]);
        assert(analyze_files_spec(a, modname) =~= analyze_files_spec(b, modname) + file_records(
            files[i],
            modname,
        ));
    }
}

proof fn lemma_first_version_found(group: Seq<InstalledCrate>, j: int, ver: Seq<char>)
    requires
        0 <= j < group.len(),
        group[j].version@ == ver,
        forall|k: int| 0 <= k < j ==> (#[trigger] group[k]).version@ != ver,
    ensures
        first_version_idx(group, ver) == Some(j),
    decreases j,
{
    if j > 0 {
        lemma_first_version_found(group.drop_first(), j - 1, ver);
    }
}

proof fn lemma_first_version_none(group: Seq<InstalledCrate>, ver: Seq<char>)
    requires
        forall|k: int| 0 <= k < group.len() ==> (#[trigger] group[k]).version@ != ver,
    ensures
        first_version_idx(group, ver) is None,
    decreases group.len(),
{
    if group.len() > 0 {
        lemma_first_version_none(group.drop_first(), ver);
    }
}

proof fn lemma_all_crates_take(entries: Seq<(String, Vec<InstalledCrate>)>, i: int)
    requires
        0 <= i < entries.len(),
    ensures
        all_crates(entries.take(i + 1)) == all_crates(entries.take(i)) + entries[i].1@,
    decreases i,
{
    let a = entries.take(i + 1);
    let b = entries.take(i);
    if i == 0 {
        assert(a.drop_first() =~= Seq::<(String, Vec<InstalledCrate>)>::empty());
        assert(b =~= Seq::<(String, Vec<InstalledCrate>)>::empty());
        assert(all_crates(a) =~= all_crates(b) + entries[0].1@);
    } else {
        lemma_all_crates_take(entries.drop_first(), i - 1);
        assert(a.drop_first() =~= entries.drop_first().take(i as int));
        assert(b.drop_first() =~= entries.drop_first().take(i - 1));
        assert(entries.drop_first()[i - 1] == entries[i]);
        assert(all_crates(a) =~= all_crates(b) + entries[i].1@);
    }
}

proof fn lemma_search_matches_take(cs: Seq<InstalledCrateV>, q: Seq<char>, i: int)
    requires
        0 <= i < cs.len(),
    ensures
        search_matches(cs.take(i + 1), q) == search_matches(cs.take(i), q) + (if contains_seq(
            lower_of(cs[i].name),
            q,
        ) {
            seq![cs[i]]
        } else {
            Seq::empty()
        }),
    decreases i,
{
    let a = cs.take(i + 1);
    let b = cs.take(i);
    if i == 0 {
        assert(a.drop_first() =~= Seq::<InstalledCrateV>::empty());
        assert(b =~= Seq::<InstalledCrateV>::empty());
        assert(search_matches(a, q) =~= search_matches(b, q) + (if contains_seq(
            lower_of(cs[0].name),
            q,
        ) {
            seq![cs[0]]
        } else {
            Seq::empty()
        }));
    } else {
        lemma_search_matches_take(cs.drop_first(), q, i - 1);
        assert(a.drop_first() =~= cs.drop_first().take(i as int));
        assert(b.drop_first() =~= cs.drop_first().take(i - 1));
        assert(cs.drop_first()[i - 1] == cs[i]);
        assert(search_matches(a, q) =~= search_matches(b, q) + (if contains_seq(
            lower_of(cs[i].name),
            q,
        ) {
            seq![cs[i]]
        } else {
            Seq::empty()
        }));
    }
}

proof fn lemma_search_matches_append(a: Seq<InstalledCrateV>, b: Seq<InstalledCrateV>, q: Seq<char>)
    ensures
        search_matches(a + b, q) == search_matches(a, q) + search_matches(b, q),
    decreases a.len(),
{
    if a.len() == 0 {
        assert(a + b =~= b);
        assert(search_matches(a, q) + search_matches(b, q) =~= search_matches(b, q));
    } else {
        lemma_search_matches_append(a.drop_first(), b, q);
        assert((a + b).drop_first() =~= a.drop_first() + b);
        assert((a + b)[0] == a[0]);
        assert(search_matches(a + b, q) =~= search_matches(a, q) + search_matches(b, q));
    }
}

} // verus!
