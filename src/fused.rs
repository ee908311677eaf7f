//! The fused driver: lexes and parses each physical line on its own, in parallel, and joins the
//! per-line results in line order. Grammars never look past the newline that ends their line,
//! so the result is exactly that of lexing and parsing the whole text in one pass.
use vstd::prelude::*;

use rayon::iter::{IndexedParallelIterator, IntoParallelRefIterator, ParallelIterator};

use crate::compiler_errors::{problem_views, CompilerProblem, ProblemView};
use crate::lex::{
    lex_line, lex_spec, line_tokens, newlines, pieces, source_lines, token_views,
    tokens_of_lines, Symbol, Token, TokenView,
};
use crate::parse::{
    join_results, join_segments, lemma_parse_segments, node_views, parse, parse_spec,
    segment_results, segments_end_lines, Node, NodeView,
};
use crate::text::{chars_of, string_from_chars};

verus! {

// -------------------- Lines as segments of the token stream --------------------

/// The tokens of line `i` of `n` when it is lexed on its own: all of them but the newline
/// after the last line.
pub open spec fn line_segment(line: Seq<char>, i: int, n: int) -> Seq<TokenView> {
    if i + 1 == n {
        line_tokens(line, i).drop_last()
    } else {
        line_tokens(line, i)
    }
}

/// The segments of a text, one per physical line.
pub open spec fn segments_of(text: Seq<char>) -> Seq<Seq<TokenView>> {
    let ls = source_lines(text);
    Seq::new(ls.len(), |i: int| line_segment(ls[i], i, ls.len() as int))
}

/// What lexing and parsing each line of a text on its own yields, joined in line order.
pub open spec fn fused_spec(text: Seq<char>) -> (Seq<NodeView>, Seq<ProblemView>) {
    join_results(segment_results(segments_of(text)))
}

proof fn lemma_tokens_of_lines_join(ls: Seq<Seq<char>>)
    ensures
        tokens_of_lines(ls) == join_segments(
            Seq::new(ls.len(), |i: int| line_tokens(ls[i], i)),
        ),
    decreases ls.len(),
{
    if ls.len() > 0 {
        lemma_tokens_of_lines_join(ls.drop_last());
        assert(Seq::new(ls.len(), |i: int| line_tokens(ls[i], i)).drop_last() =~= Seq::new(
            ls.drop_last().len(),
            |i: int| line_tokens(ls.drop_last()[i], i),
        ));
    }
}

/// The segments of a text join into its token stream, and each but the last ends a line.
pub proof fn lemma_segments_of(text: Seq<char>)
    ensures
        join_segments(segments_of(text)) == lex_spec(text),
        segments_end_lines(segments_of(text)),
{
    let ls = source_lines(text);
    let n = ls.len() as int;
    let full = Seq::new(ls.len(), |i: int| line_tokens(ls[i], i));
    let segs = segments_of(text);
    lemma_tokens_of_lines_join(ls);
    crate::lex::lemma_newline_symbol();
    if n > 0 {
        assert(segs.drop_last() =~= full.drop_last());
        let last = line_tokens(ls[n - 1], n - 1);
        assert(last.len() > 0);
        assert(join_segments(full) == join_segments(full.drop_last()) + last);
        assert((join_segments(full.drop_last()) + last).drop_last() =~= join_segments(
            full.drop_last(),
        ) + last.drop_last());
    }
    assert forall|i: int| 0 <= i < segs.len() - 1 implies (#[trigger] segs[i]).len() > 0
        && segs[i].last().symbol == Symbol::Newline by {
        assert(segs[i] == line_tokens(ls[i], i));
    }
}

/// Lexing and parsing each line on its own, then joining the results in line order, gives
/// exactly what lexing and parsing the whole text gives: the same nodes, in the same order,
/// and the same problems.
pub proof fn lemma_fused_matches_sequential(text: Seq<char>)
    ensures
        fused_spec(text) == parse_spec(lex_spec(text)),
{
    lemma_segments_of(text);
    lemma_parse_segments(segments_of(text));
}

// -------------------- The driver --------------------

/// The physical lines of a text.
pub fn split_lines(text: &str) -> (r: Vec<String>)
    ensures
        r@.map_values(|s: String| s@) == source_lines(text@),
{
    let chars = chars_of(text);
    let n = chars.len();
    let mut lines: Vec<String> = Vec::new();
    let mut start: usize = 0;
    let mut i: usize = 0;
    while i < n
        invariant
            n == chars@.len(),
            chars@ == text@,
            start <= i <= n,
            pieces(chars@.subrange(0, i as int), newlines()).len() > 0,
            pieces(chars@.subrange(0, i as int), newlines()).last() == chars@.subrange(
                start as int,
                i as int,
            ),
            lines@.map_values(|s: String| s@) == pieces(
                chars@.subrange(0, i as int),
                newlines(),
            ).drop_last(),
        decreases n - i,
    {
        let ghost p = pieces(chars@.subrange(0, i as int), newlines());
        assert(chars@.subrange(0, i + 1).drop_last() =~= chars@.subrange(0, i as int));
        if chars[i] == '\n' {
            let line = string_from_chars(&chars.as_slice()[start..i]);
            let ghost before = lines@;
            lines.push(line);
            assert(lines@.map_values(|s: String| s@) =~= before.map_values(|s: String| s@).push(
                line@,
            ));
            assert(pieces(chars@.subrange(0, i + 1), newlines()).drop_last() =~= p);
            assert(p =~= p.drop_last().push(p.last()));
            start = i + 1;
        } else {
            assert(pieces(chars@.subrange(0, i + 1), newlines()).drop_last() =~= p.drop_last());
            assert(chars@.subrange(start as int, i + 1) =~= chars@.subrange(
                start as int,
                i as int,
            ).push(chars@[i as int]));
        }
        i = i + 1;
    }
    assert(chars@.subrange(0, n as int) =~= text@);
    let ghost p = pieces(text@, newlines());
    if start < n {
        let line = string_from_chars(&chars.as_slice()[start..n]);
        let ghost before = lines@;
        lines.push(line);
        assert(lines@.map_values(|s: String| s@) =~= before.map_values(|s: String| s@).push(
            line@,
        ));
        assert(p =~= p.drop_last().push(p.last()));
    }
    lines
}

/// The views of one line's result.
pub open spec fn result_view(r: (Vec<Node>, Vec<CompilerProblem>)) -> (
    Seq<NodeView>,
    Seq<ProblemView>,
) {
    (node_views(r.0@), problem_views(r.1@))
}

/// Lexes and parses line `index` of `count` on its own.
pub fn lex_and_parse_line(line: &str, index: usize, count: usize) -> (r: (
    Vec<Node>,
    Vec<CompilerProblem>,
))
    requires
        index < count,
    ensures
        result_view(r) == parse_spec(line_segment(line@, index as int, count as int)),
{
    let chars = chars_of(line);
    let mut tokens: Vec<Token> = Vec::new();
    lex_line(&chars, 0, chars.len(), index, &mut tokens);
    assert(chars@.subrange(0, chars@.len() as int) =~= line@);
    assert(token_views(tokens@) =~= line_tokens(line@, index as int));
    if index + 1 == count {
        let ghost before = tokens@;
        tokens.pop();
        assert(token_views(tokens@) =~= token_views(before).drop_last());
    }
    parse(tokens)
}

/// Relies on rayon's `par_iter`, `enumerate`, `map` and `IndexedParallelIterator::collect_into_vec`:
/// each line is lexed and parsed with its index, and the results stand in line order.
#[verifier::external_body]
fn lex_and_parse_lines(lines: &Vec<String>) -> (r: Vec<(Vec<Node>, Vec<CompilerProblem>)>)
    ensures
        r@.len() == lines@.len(),
        forall|i: int|
            0 <= i < lines@.len() ==> result_view(#[trigger] r@[i]) == parse_spec(
                line_segment(lines@[i]@, i, lines@.len() as int),
            ),
{
    let count = lines.len();
    let mut out = Vec::new();
    lines.par_iter().enumerate().map(|(i, l)| lex_and_parse_line(l.as_str(), i, count)).collect_into_vec(
        &mut out,
    );
    out
}

/// Lexes and parses every physical line of the text independently and in parallel, then joins
/// the nodes and problems in line order: the same result as parsing `lex(input)`.
pub fn fused_lex_and_parse(input: &str) -> (r: (Vec<Node>, Vec<CompilerProblem>))
    ensures
        result_view(r) == parse_spec(lex_spec(input@)),
        result_view(r) == fused_spec(input@),
{
    let lines = split_lines(input);
    let ghost segs = segments_of(input@);
    let ghost n = lines@.len();
    assert(lines@.map_values(|s: String| s@).len() == n);
    let mut results = lex_and_parse_lines(&lines);
    let ghost res = results@;
    assert forall|i: int| 0 <= i < n implies result_view(#[trigger] res[i]) == segment_results(
        segs,
    )[i] by {
        assert(lines@.map_values(|s: String| s@)[i] == lines@[i]@);
    }
    let mut reversed: Vec<(Vec<Node>, Vec<CompilerProblem>)> = Vec::new();
    while results.len() > 0
        invariant
            results@.len() + reversed@.len() == n,
            results@ == res.take(results@.len() as int),
            res.len() == n,
            forall|j: int| 0 <= j < reversed@.len() ==> #[trigger] reversed@[j] == res[n - 1 - j],
        decreases results@.len(),
    {
        let ghost k = results@.len();
        match results.pop() {
            Some(x) => {
                reversed.push(x);
                assert(results@ =~= res.take(k - 1));
            },
            None => {},
        }
    }
    let mut nodes: Vec<Node> = Vec::new();
    let mut problems: Vec<CompilerProblem> = Vec::new();
    proof {
        assert(segment_results(segs).take(0) =~= Seq::empty());
        assert(node_views(nodes@) =~= Seq::empty());
        assert(problem_views(problems@) =~= Seq::empty());
    }
    while reversed.len() > 0
        invariant
            reversed@.len() <= n,
            res.len() == n,
            segment_results(segs).len() == n,
            forall|j: int| 0 <= j < reversed@.len() ==> #[trigger] reversed@[j] == res[n - 1 - j],
            forall|i: int| 0 <= i < n ==> result_view(#[trigger] res[i]) == segment_results(segs)[i],
            (node_views(nodes@), problem_views(problems@)) == join_results(
                segment_results(segs).take(n - reversed@.len()),
            ),
        decreases reversed@.len(),
    {
        let ghost k = n - reversed@.len();
        match reversed.pop() {
            Some(x) => {
                let (mut ns, mut ps) = x;
                let ghost nb = nodes@;
                let ghost pb = problems@;
                let ghost nsv = ns@;
                let ghost psv = ps@;
                nodes.append(&mut ns);
                problems.append(&mut ps);
                proof {
                    assert(x == res[k]);
                    assert(segment_results(segs).take(k + 1).drop_last() =~= segment_results(
                        segs,
                    ).take(k));
                    assert(node_views(nodes@) =~= node_views(nb) + node_views(nsv));
                    assert(problem_views(problems@) =~= problem_views(pb) + problem_views(psv));
                }
            },
            None => {},
        }
    }
    proof {
        assert(segment_results(segs).take(n as int) =~= segment_results(segs));
        lemma_fused_matches_sequential(input@);
    }
    (nodes, problems)
}

} // verus!
