//! The matcher: the lines of a text that contain a query, in their original
//! order, with an empty selection reported as an error.

use vstd::prelude::*;

use crate::config::Config;
use crate::text::{contains_str, has_substring, line_views, lines_of, lower_of, lowercase, split_lines};

verus! {

/// The message carried by the error that reports that no line matched.
pub const NO_MATCH: &'static str = "No result found for query.";

/// The lines whose mark is set, in their original order.
pub open spec fn kept(lines: Seq<Seq<char>>, marks: Seq<bool>) -> Seq<Seq<char>>
    decreases lines.len(),
{
    if lines.len() == 0 || marks.len() == 0 {
        Seq::empty()
    } else {
        let prev = kept(lines.drop_last(), marks.drop_last());
        if marks.last() {
            prev.push(lines.last())
        } else {
            prev
        }
    }
}

/// The lines of `content` that contain `query` verbatim, in order.
pub open spec fn sensitive_matches(query: Seq<char>, content: Seq<char>) -> Seq<Seq<char>> {
    split_lines(content).filter(|l: Seq<char>| has_substring(l, query))
}

/// The lines of `content` whose lowercase form contains the lowercase form of
/// `query`, in order.
pub open spec fn insensitive_matches(query: Seq<char>, content: Seq<char>) -> Seq<Seq<char>> {
    split_lines(content).filter(|l: Seq<char>| has_substring(lower_of(l), lower_of(query)))
}

/// Selecting lines by marks that agree with a predicate is filtering by it.
proof fn lemma_kept_is_filter(
    lines: Seq<Seq<char>>,
    marks: Seq<bool>,
    pred: spec_fn(Seq<char>) -> bool,
)
    requires
        lines.len() == marks.len(),
        forall|i: int| 0 <= i < lines.len() ==> marks[i] == pred(#[trigger] lines[i]),
    ensures
        kept(lines, marks) == lines.filter(pred),
    decreases lines.len(),
{
    reveal(Seq::filter);
    if lines.len() > 0 {
        let (l, m) = (lines.drop_last(), marks.drop_last());
        assert forall|i: int| 0 <= i < l.len() implies m[i] == pred(#[trigger] l[i]) by {
            assert(lines[i] == l[i]);
        }
        lemma_kept_is_filter(l, m, pred);
        assert(marks.last() == pred(lines.last()));
    }
}

/// Keeps the lines whose mark is set, in order; fails with `NO_MATCH` when
/// none is set.
pub fn keep_marked<'a>(lines: &Vec<&'a str>, marks: &Vec<bool>) -> (r: Result<Vec<&'a str>, &'a str>)
    requires
        lines.len() == marks.len(),
    ensures
        r is Ok <==> kept(line_views(lines@), marks@).len() > 0,
        r matches Ok(v) ==> line_views(v@) == kept(line_views(lines@), marks@),
        r matches Err(e) ==> e@ == NO_MATCH@,
{
    let mut results: Vec<&'a str> = Vec::new();
    let mut i: usize = 0;
    while i < lines.len()
        invariant
            lines.len() == marks.len(),
            i <= lines.len(),
            line_views(results@) == kept(line_views(lines@).subrange(0, i as int), marks@.subrange(0, i as int)),
        decreases lines.len() - i,
    {
        let ghost (ls, ms) = (line_views(lines@), marks@);
        assert(ls.subrange(0, i + 1).drop_last() == ls.subrange(0, i as int));
        assert(ms.subrange(0, i + 1).drop_last() == ms.subrange(0, i as int));
        if marks[i] {
            results.push(lines[i]);
        }
        i = i + 1;
        assert(line_views(results@) =~= kept(ls.subrange(0, i as int), ms.subrange(0, i as int)));
    }
    assert(line_views(lines@).subrange(0, i as int) == line_views(lines@));
    assert(marks@.subrange(0, i as int) == marks@);
    if results.len() >= 1 {
        Ok(results)
    } else {
        proof { reveal_strlit("No result found for query."); }
        Err(NO_MATCH)
    }
}

/// The lines of `content` that contain `query` verbatim, as slices of
/// `content` in their original order; fails with `NO_MATCH` when no line does.
pub fn search<'a>(query: &str, content: &'a str) -> (r: Result<Vec<&'a str>, &'a str>)
    ensures
        r is Ok <==> sensitive_matches(query@, content@).len() > 0,
        r matches Ok(v) ==> line_views(v@) == sensitive_matches(query@, content@),
        r matches Err(e) ==> e@ == NO_MATCH@,
{
    let lines = lines_of(content);
    let mut marks: Vec<bool> = Vec::new();
    let mut i: usize = 0;
    while i < lines.len()
        invariant
            i <= lines.len(),
            marks.len() == i,
            forall|j: int| 0 <= j < i ==> marks@[j] == has_substring(#[trigger] lines@[j]@, query@),
        decreases lines.len() - i,
    {
        marks.push(contains_str(lines[i], query));
        i = i + 1;
    }
    let ghost pred = |l: Seq<char>| has_substring(l, query@);
    proof {
        let ls = line_views(lines@);
        assert forall|j: int| 0 <= j < ls.len() implies marks@[j] == pred(#[trigger] ls[j]) by {
            assert(ls[j] == lines@[j]@);
        }
        lemma_kept_is_filter(ls, marks@, pred);
    }
    keep_marked(&lines, &marks)
}

/// The lines of `content` whose lowercase form contains the lowercase form of
/// `query`, as slices of `content` in their original order; fails with
/// `NO_MATCH` when no line does.
pub fn search_case_insensitive<'a>(query: &str, content: &'a str) -> (r: Result<Vec<&'a str>, &'a str>)
    ensures
        r is Ok <==> insensitive_matches(query@, content@).len() > 0,
        r matches Ok(v) ==> line_views(v@) == insensitive_matches(query@, content@),
        r matches Err(e) ==> e@ == NO_MATCH@,
{
    let q = lowercase(query);
    let lines = lines_of(content);
    let mut marks: Vec<bool> = Vec::new();
    let mut i: usize = 0;
    while i < lines.len()
        invariant
            i <= lines.len(),
            marks.len() == i,
            q@ == lower_of(query@),
            forall|j: int|
                0 <= j < i ==> marks@[j] == has_substring(lower_of(#[trigger] lines@[j]@), lower_of(query@)),
        decreases lines.len() - i,
    {
        let folded = lowercase(lines[i]);
        marks.push(contains_str(folded.as_str(), q.as_str()));
        i = i + 1;
    }
    let ghost pred = |l: Seq<char>| has_substring(lower_of(l), lower_of(query@));
    proof {
        let ls = line_views(lines@);
        assert forall|j: int| 0 <= j < ls.len() implies marks@[j] == pred(#[trigger] ls[j]) by {
            assert(ls[j] == lines@[j]@);
        }
        lemma_kept_is_filter(ls, marks@, pred);
    }
    keep_marked(&lines, &marks)
}

/// Runs the matcher that `config` asks for on `content`.
pub fn search_with_config<'a>(config: &Config, content: &'a str) -> (r: Result<Vec<&'a str>, &'a str>)
    ensures
        ({
            let m = if config.case_sensitive {
                sensitive_matches(config.query@, content@)
            } else {
                insensitive_matches(config.query@, content@)
            };
            &&& r is Ok <==> m.len() > 0
            &&& r matches Ok(v) ==> line_views(v@) == m
            &&& r matches Err(e) ==> e@ == NO_MATCH@
        }),
{
    if config.case_sensitive {
        search(config.query.as_str(), content)
    } else {
        search_case_insensitive(config.query.as_str(), content)
    }
}

/// Case-insensitive matching sees the query only through its lowercase form:
/// two queries that fold to the same text, such as the all-uppercase and the
/// all-lowercase spelling of one word, select the same lines of every content.
pub proof fn lemma_fold_equal_queries_match_alike(q1: Seq<char>, q2: Seq<char>, content: Seq<char>)
    requires
        lower_of(q1) == lower_of(q2),
    ensures
        insensitive_matches(q1, content) == insensitive_matches(q2, content),
{
    let p1 = |l: Seq<char>| has_substring(lower_of(l), lower_of(q1));
    let p2 = |l: Seq<char>| has_substring(lower_of(l), lower_of(q2));
    assert(p1 == p2);
}

} // verus!
