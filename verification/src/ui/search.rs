//! Search completion candidates and fuzzy filtering.

use vstd::prelude::*;
use crate::analyzer::parser::clone_opt_string;

verus! {

/// One completion candidate.
#[derive(Debug, Clone, PartialEq, Eq)]
pub struct CompletionCandidate {
    pub primary: String,
    pub secondary: Option<String>,
    pub kind: CandidateKind,
    pub score: i64,
}

/// The kind of item a candidate stands for.
#[derive(Debug, Clone, Copy, PartialEq, Eq, Structural)]
pub enum CandidateKind {
    Function,
    Struct,
    Enum,
    Trait,
    Module,
    Type,
    Const,
    Crate,
    Other,
}

impl CandidateKind {
    /// The two-letter icon of a kind.
    pub fn icon(&self) -> (r: &'static str)
        ensures
            match self {
                CandidateKind::Function => r@ == "fn"@,
                CandidateKind::Struct => r@ == "st"@,
                CandidateKind::Enum => r@ == "en"@,
                CandidateKind::Trait => r@ == "tr"@,
                CandidateKind::Module => r@ == "md"@,
                CandidateKind::Type => r@ == "ty"@,
                CandidateKind::Const => r@ == "ct"@,
                CandidateKind::Crate => r@ == "cr"@,
                CandidateKind::Other => r@ == "  "@,
            },
    {
        match self {
            CandidateKind::Function => "fn",
            CandidateKind::Struct => "st",
            CandidateKind::Enum => "en",
            CandidateKind::Trait => "tr",
            CandidateKind::Module => "md",
            CandidateKind::Type => "ty",
            CandidateKind::Const => "ct",
            CandidateKind::Crate => "cr",
            CandidateKind::Other => "  ",
        }
    }
}

/// What the fuzzy matcher scores a candidate text against a pattern:
/// a match score, or nothing when the pattern does not match; with the
/// matcher's default options, a function of the two texts alone.
pub uninterp spec fn fuzzy_score_of(choice: Seq<char>, pattern: Seq<char>) -> Option<i64>;

/// Relies on fuzzy_matcher's SkimMatcherV2::fuzzy_match with default
/// options: scores a candidate against a pattern, deterministically.
#[verifier::external_body]
fn fuzzy_match(choice: &str, pattern: &str) -> (r: Option<i64>)
    ensures
        r == fuzzy_score_of(choice@, pattern@),
{
    fuzzy_matcher::FuzzyMatcher::fuzzy_match(
        &fuzzy_matcher::skim::SkimMatcherV2::default(),
        choice,
        pattern,
    )
}

/// Mathematical model of a candidate.
#[verifier::ext_equal]
pub struct CompletionCandidateV {
    pub primary: Seq<char>,
    pub secondary: Option<Seq<char>>,
    pub kind: CandidateKind,
    pub score: i64,
}

impl View for CompletionCandidate {
    type V = CompletionCandidateV;

    open spec fn view(&self) -> CompletionCandidateV {
        CompletionCandidateV {
            primary: self.primary@,
            secondary: crate::analyzer::types::opt_view(self.secondary),
            kind: self.kind,
            score: self.score,
        }
    }
}

/// The candidates the pattern matches, each with its score filled in,
/// in input order.
pub open spec fn scored_matches(cs: Seq<CompletionCandidateV>, q: Seq<char>) -> Seq<
    CompletionCandidateV,
>
    decreases cs.len(),
{
    if cs.len() == 0 {
        Seq::empty()
    } else {
        (match fuzzy_score_of(cs[0].primary, q) {
            Some(sc) => seq![CompletionCandidateV { score: sc, ..cs[0] }],
            None => Seq::empty(),
        }) + scored_matches(cs.drop_first(), q)
    }
}

/// `x` inserted into a run descending by score: before the first
/// strictly lower-scored entry, after equals.
pub open spec fn insert_by_score(
    x: CompletionCandidateV,
    s: Seq<CompletionCandidateV>,
) -> Seq<CompletionCandidateV>
    decreases s.len(),
{
    if s.len() == 0 {
        seq![x]
    } else if s[0].score < x.score {
        seq![x] + s
    } else {
        seq![s[0]] + insert_by_score(x, s.drop_first())
    }
}

/// The candidates sorted by score descending by insertion, stably.
pub open spec fn sort_by_score(s: Seq<CompletionCandidateV>) -> Seq<CompletionCandidateV>
    decreases s.len(),
{
    if s.len() == 0 {
        Seq::empty()
    } else {
        insert_by_score(s.last(), sort_by_score(s.drop_last()))
    }
}

proof fn lemma_scored_matches_take(cs: Seq<CompletionCandidateV>, q: Seq<char>, i: int)
    requires
        0 <= i < cs.len(),
    ensures
        scored_matches(cs.take(i + 1), q) == scored_matches(cs.take(i), q) + (
        match fuzzy_score_of(cs[i].primary, q) {
            Some(sc) => seq![CompletionCandidateV { score: sc, ..cs[i] }],
            None => Seq::empty(),
        }),
    decreases i,
{
    let a = cs.take(i + 1);
    let b = cs.take(i);
    if i == 0 {
        assert(a.drop_first() =~= Seq::<CompletionCandidateV>::empty());
        assert(b =~= Seq::<CompletionCandidateV>::empty());
        assert(scored_matches(a, q) =~= scored_matches(b, q) + (match fuzzy_score_of(
            cs[0].primary,
            q,
        ) {
            Some(sc) => seq![CompletionCandidateV { score: sc, ..cs[0] }],
            None => Seq::empty(),
        }));
    } else {
        lemma_scored_matches_take(cs.drop_first(), q, i - 1);
        assert(a.drop_first() =~= cs.drop_first().take(i as int));
        assert(b.drop_first() =~= cs.drop_first().take(i - 1));
        assert(cs.drop_first()[i - 1] == cs[i]);
        assert(scored_matches(a, q) =~= scored_matches(b, q) + (match fuzzy_score_of(
            cs[i].primary,
            q,
        ) {
            Some(sc) => seq![CompletionCandidateV { score: sc, ..cs[i] }],
            None => Seq::empty(),
        }));
    }
}

proof fn lemma_insert_by_score_at(
    x: CompletionCandidateV,
    s: Seq<CompletionCandidateV>,
    j: int,
)
    requires
        0 <= j <= s.len(),
        forall|k: int| 0 <= k < j ==> !((#[trigger] s[k]).score < x.score),
        j < s.len() ==> s[j].score < x.score,
    ensures
        insert_by_score(x, s) == s.take(j) + seq![x] + s.skip(j),
    decreases j,
{
    if s.len() == 0 {
        assert(s.take(0) =~= Seq::<CompletionCandidateV>::empty());
        assert(s.skip(0) =~= Seq::<CompletionCandidateV>::empty());
        assert(insert_by_score(x, s) =~= s.take(j) + seq![x] + s.skip(j));
    } else if j == 0 {
        assert(s.take(0) =~= Seq::<CompletionCandidateV>::empty());
        assert(s.skip(0) =~= s);
        assert(insert_by_score(x, s) =~= s.take(0) + seq![x] + s.skip(0));
    } else {
        lemma_insert_by_score_at(x, s.drop_first(), j - 1);
        assert(s.drop_first().take(j - 1) =~= s.take(j).drop_first());
        assert(s.drop_first().skip(j - 1) =~= s.skip(j));
        assert(seq![s[0]] + (s.drop_first().take(j - 1) + seq![x] + s.drop_first().skip(j - 1))
            =~= s.take(j) + seq![x] + s.skip(j));
    }
}

/// The views of a candidate list.
pub open spec fn candidate_views(s: Seq<CompletionCandidate>) -> Seq<CompletionCandidateV> {
    s.map_values(|c: CompletionCandidate| c@)
}

/// Inserts a candidate into a score-descending run.
fn insert_candidate(out: &mut Vec<CompletionCandidate>, x: CompletionCandidate)
    ensures
        candidate_views(final(out)@) == insert_by_score(x@, candidate_views(old(out)@)),
{
    let mut j: usize = 0;
    let mut stop = false;
    while j < out.len() && !stop
        invariant
            j <= out@.len(),
            out@ == old(out)@,
            forall|k: int| 0 <= k < j ==> !((#[trigger] out@[k]).score < x.score),
            stop ==> j < out@.len() && out@[j as int].score < x.score,
        decreases out@.len() - j + (if stop { 0int } else { 1int }),
    {
        if out[j].score < x.score {
            stop = true;
        } else {
            j = j + 1;
        }
    }
    proof {
        let sv = candidate_views(old(out)@);
        assert forall|k: int| 0 <= k < j implies !((#[trigger] sv[k]).score < x@.score) by {
            assert(sv[k] == old(out)@[k]@);
        }
        if (j as int) < sv.len() {
            assert(sv[j as int] == old(out)@[j as int]@);
        }
        lemma_insert_by_score_at(x@, sv, j as int);
    }
    let ghost xv = x@;
    out.insert(j, x);
    proof {
        assert(candidate_views(final(out)@) =~= candidate_views(old(out)@).take(j as int) + seq![
            xv,
        ] + candidate_views(old(out)@).skip(j as int));
    }
}

/// Filters candidates by a fuzzy pattern: an empty pattern keeps them
/// all unchanged; otherwise the matching candidates, their scores
/// filled in, sorted by score descending and stably.
pub fn filter_candidates(candidates: &Vec<CompletionCandidate>, query: &str) -> (r: Vec<
    CompletionCandidate,
>)
    ensures
        query@.len() == 0 ==> candidate_views(r@) == candidate_views(candidates@),
        query@.len() > 0 ==> candidate_views(r@) == sort_by_score(
            scored_matches(candidate_views(candidates@), query@),
        ),
{
    if query.is_empty() {
        let mut out: Vec<CompletionCandidate> = Vec::new();
        let mut i: usize = 0;
        while i < candidates.len()
            invariant
                i <= candidates@.len(),
                out@.len() == i,
                forall|k: int| 0 <= k < i ==> out@[k]@ == (#[trigger] candidates@[k])@,
            decreases candidates@.len() - i,
        {
            let c = &candidates[i];
            let copy = CompletionCandidate {
                primary: c.primary.clone(),
                secondary: clone_opt_string(&c.secondary),
                kind: c.kind,
                score: c.score,
            };
            proof {
                assert(copy@ =~= candidates@[i as int]@);
            }
            out.push(copy);
            i = i + 1;
        }
        proof {
            assert(candidate_views(out@) =~= candidate_views(candidates@));
        }
        return out;
    }
    let ghost cviews = candidate_views(candidates@);
    let mut scored: Vec<CompletionCandidate> = Vec::new();
    let mut i: usize = 0;
    proof {
        assert(cviews.take(0) =~= Seq::<CompletionCandidateV>::empty());
        assert(candidate_views(scored@) =~= scored_matches(cviews.take(0), query@));
        assert(candidate_views(scored@) =~= sort_by_score(
            scored_matches(cviews.take(0), query@),
        ));
    }
    while i < candidates.len()
        invariant
            i <= candidates@.len(),
            cviews == candidate_views(candidates@),
            candidate_views(scored@) == sort_by_score(scored_matches(cviews.take(i as int), query@)),
        decreases candidates@.len() - i,
    {
        proof {
            lemma_scored_matches_take(cviews, query@, i as int);
            assert(cviews[i as int] == candidates@[i as int]@);
        }
        let c = &candidates[i];
        match fuzzy_match(c.primary.as_str(), query) {
            Some(sc) => {
                let candidate = CompletionCandidate {
                    primary: c.primary.clone(),
                    secondary: clone_opt_string(&c.secondary),
                    kind: c.kind,
                    score: sc,
                };
                proof {
                    assert(candidate@ =~= (CompletionCandidateV {
                        score: sc,
                        ..cviews[i as int]
                    }));
                    let m = scored_matches(cviews.take(i as int), query@);
                    assert(m.push(candidate@) =~= scored_matches(cviews.take(i + 1), query@));
                    assert(scored_matches(cviews.take(i + 1), query@).drop_last() =~= m);
                    assert(scored_matches(cviews.take(i + 1), query@).last() == candidate@);
                }
                insert_candidate(&mut scored, candidate);
            },
            None => {
                proof {
                    assert(scored_matches(cviews.take(i + 1), query@) =~= scored_matches(
                        cviews.take(i as int),
                        query@,
                    ));
                }
            },
        }
        i = i + 1;
    }
    proof {
        assert(cviews.take(cviews.len() as int) =~= cviews);
    }
    scored
}

} // verus!
