//! What holds of every lexing: the tokens cover the source, balanced
//! delimiters always group, and the result depends on the text alone.
use vstd::prelude::*;
use super::scanner::whitespace_char;
use vstd::utf8::encode_utf8;
use super::cursor::{byte_offset, lemma_encode_concat};
use super::{
    located, add_tree, closes, keeps_text, lemma_next_lexeme, lex_from, lex_trees, next_lexeme, opens,
    outcome, root, step, trees_from, Fault, LexError, Level,
};
use super::scanner::ScannedTokenKind;
use crate::token::{Delimiter, Lexeme, TokenStream, Tree};

verus! {

/// `units` with their character indices turned into byte offsets.
pub open spec fn locate_all(s: Seq<char>, units: Seq<Lexeme>) -> Seq<Lexeme> {
    units.map_values(|t: Lexeme| located(s, t))
}

/// The tokens of `s`, up to and including the end-of-input token, their
/// spans given as byte offsets; or the first error met.
pub open spec fn tokens_of(s: Seq<char>) -> Result<Seq<Lexeme>, Fault> {
    match lex_from(s, 0) {
        Ok(units) => Ok(locate_all(s, units)),
        Err(e) => Err(e),
    }
}

/// The bytes between the offsets of two characters are the encoding of the
/// characters between them.
pub proof fn lemma_span_bytes(s: Seq<char>, a: int, b: int)
    requires
        0 <= a <= b <= s.len(),
    ensures
        encode_utf8(s).subrange(byte_offset(s, a) as int, byte_offset(s, b) as int)
            == encode_utf8(s.subrange(a, b)),
{
    let head = s.take(a);
    let mid = s.subrange(a, b);
    let tail = s.skip(b);
    assert(s =~= head + mid + tail);
    assert(s.take(b) =~= head + mid);
    lemma_encode_concat(head, mid);
    lemma_encode_concat(head + mid, tail);
    assert(encode_utf8(s).subrange(byte_offset(s, a) as int, byte_offset(s, b) as int)
        =~= encode_utf8(mid));
}

/// `toks`, whose spans are character indices, lie in order between `from`
/// and the end of `s`, with nothing but whitespace before and between them,
/// and each keeps the characters its span covers.
pub open spec fn tiles(s: Seq<char>, from: int, toks: Seq<Lexeme>) -> bool
    decreases toks.len(),
{
    if toks.len() == 0 {
        from == s.len()
    } else {
        let t = toks[0];
        &&& from <= t.start <= t.end <= s.len()
        &&& forall|j: int| from <= j < t.start ==> whitespace_char(#[trigger] s[j])
        &&& keeps_text(t.kind) ==> t.text == s.subrange(t.start, t.end)
        &&& tiles(s, t.end, toks.drop_first())
    }
}

/// The text that each token's span covers, in order, with the characters
/// between the spans put back, from `from` on.
pub open spec fn rejoin(s: Seq<char>, from: int, toks: Seq<Lexeme>) -> Seq<char>
    decreases toks.len(),
{
    if toks.len() == 0 {
        Seq::empty()
    } else {
        let t = toks[0];
        s.subrange(from, t.start) + s.subrange(t.start, t.end) + rejoin(
            s,
            t.end,
            toks.drop_first(),
        )
    }
}

proof fn lemma_cover_from(s: Seq<char>, i: nat)
    requires
        i <= s.len(),
        lex_from(s, i) is Ok,
    ensures
        tiles(s, i as int, lex_from(s, i)->Ok_0),
        rejoin(s, i as int, lex_from(s, i)->Ok_0) == s.subrange(i as int, s.len() as int),
    decreases s.len() - i,
{
    lemma_next_lexeme(s, i);
    let t = next_lexeme(s, i)->Ok_0;
    let toks = lex_from(s, i)->Ok_0;
    if t.kind == ScannedTokenKind::Eof {
        assert(toks =~= seq![t]);
        assert(toks.drop_first() =~= Seq::<Lexeme>::empty());
        assert(tiles(s, t.end, toks.drop_first()));
        assert(rejoin(s, t.end, toks.drop_first()) =~= Seq::<char>::empty());
        assert(rejoin(s, i as int, toks) =~= s.subrange(i as int, s.len() as int));
    } else {
        let rest = lex_from(s, t.end as nat)->Ok_0;
        lemma_cover_from(s, t.end as nat);
        assert(toks.drop_first() =~= rest);
        assert(rejoin(s, i as int, toks) =~= s.subrange(i as int, s.len() as int));
    }
}

/// The tokens of a text cover it: measured in characters they lie in order,
/// only whitespace lies outside them, and their spans' text with the
/// whitespace between put back is the text again; the tokens' spans are the
/// byte offsets of those character ranges (see [`lemma_span_bytes`]).
pub proof fn lemma_tokens_cover_source(s: Seq<char>)
    requires
        tokens_of(s) is Ok,
    ensures
        tiles(s, 0, lex_from(s, 0)->Ok_0),
        rejoin(s, 0, lex_from(s, 0)->Ok_0) == s,
        tokens_of(s) == Ok::<Seq<Lexeme>, Fault>(locate_all(s, lex_from(s, 0)->Ok_0)),
{
    lemma_cover_from(s, 0);
    assert(s.subrange(0, s.len() as int) =~= s);
}

/// The delimiters left open by `toks`, innermost last; `None` once a
/// closing delimiter has not closed the innermost open one.
pub open spec fn open_after(toks: Seq<Lexeme>) -> Option<Seq<Delimiter>>
    decreases toks.len(),
{
    if toks.len() == 0 {
        Some(Seq::empty())
    } else {
        match open_after(toks.drop_last()) {
            None => None,
            Some(open) => {
                let k = toks.last().kind;
                match opens(k) {
                    Some(d) => Some(open.push(d)),
                    None => match closes(k) {
                        Some(d) => if open.len() > 0 && open.last() == d {
                            Some(open.drop_last())
                        } else {
                            None
                        },
                        None => Some(open),
                    },
                }
            },
        }
    }
}

/// Every delimiter in `toks` is closed, in order, by a matching one.
pub open spec fn balanced(toks: Seq<Lexeme>) -> bool {
    open_after(toks) == Some(Seq::<Delimiter>::empty())
}

pub open spec fn is_delimiter(t: Lexeme) -> bool {
    opens(t.kind) is Some || closes(t.kind) is Some
}

/// `toks` with the delimiter tokens left out.
pub open spec fn without_delimiters(toks: Seq<Lexeme>) -> Seq<Lexeme>
    decreases toks.len(),
{
    if toks.len() == 0 {
        Seq::empty()
    } else if is_delimiter(toks.last()) {
        without_delimiters(toks.drop_last())
    } else {
        without_delimiters(toks.drop_last()).push(toks.last())
    }
}

/// The tokens held by `trees`, groups opened up, in order.
pub open spec fn flatten(trees: Seq<Tree>) -> Seq<Lexeme>
    decreases trees,
{
    if trees.len() == 0 {
        Seq::empty()
    } else {
        let last = trees[trees.len() - 1];
        let init = trees.subrange(0, trees.len() - 1);
        flatten(init) + match last {
            Tree::Leaf(t) => seq![t],
            Tree::Group(_, inner) => flatten(inner),
        }
    }
}

/// The tokens held by the frames of a grouping stack, outermost first.
pub open spec fn flatten_levels(stack: Seq<Level>) -> Seq<Lexeme>
    decreases stack.len(),
{
    if stack.len() == 0 {
        Seq::empty()
    } else {
        flatten_levels(stack.drop_last()) + flatten(stack.last().trees)
    }
}

/// The grouping stack after the tokens `p`: one frame above the outermost
/// for each delimiter left open, holding the tokens of `p` but delimiters.
pub open spec fn tracks(stack: Seq<Level>, p: Seq<Lexeme>) -> bool {
    match open_after(p) {
        None => false,
        Some(open) => {
            &&& stack.len() == open.len() + 1
            &&& stack[0].delimiter is None
            &&& forall|k: int| 0 <= k < open.len() ==> stack[k + 1].delimiter == Some(open[k])
            &&& flatten_levels(stack) == without_delimiters(p)
        },
    }
}

proof fn lemma_flatten_push(trees: Seq<Tree>, tree: Tree)
    ensures
        flatten(trees.push(tree)) == flatten(trees) + match tree {
            Tree::Leaf(t) => seq![t],
            Tree::Group(_, inner) => flatten(inner),
        },
{
    assert(trees.push(tree).subrange(0, trees.len() as int) =~= trees);
}

proof fn lemma_open_after_prefix(a: Seq<Lexeme>, b: Seq<Lexeme>)
    requires
        open_after(a + b) is Some,
    ensures
        open_after(a) is Some,
    decreases b.len(),
{
    if b.len() == 0 {
        assert(a + b =~= a);
    } else {
        assert((a + b).drop_last() =~= a + b.drop_last());
        lemma_open_after_prefix(a, b.drop_last());
    }
}

proof fn lemma_step_tracks(stack: Seq<Level>, p: Seq<Lexeme>, t: Lexeme)
    requires
        tracks(stack, p),
        t.kind != ScannedTokenKind::Eof,
        open_after(p.push(t)) is Some,
    ensures
        step(stack, t) is Ok,
        tracks(step(stack, t)->Ok_0, p.push(t)),
{
    let open = open_after(p)->Some_0;
    let q = p.push(t);
    assert(q.drop_last() =~= p);
    let n: int = stack.len() - 1;
    let top = stack[n];
    match opens(t.kind) {
        Some(d) => {
            let next = stack.push(Level { delimiter: Some(d), open: t.start, trees: Seq::empty() });
            assert(next.drop_last() =~= stack);
            assert(flatten_levels(next) =~= flatten_levels(stack));
        },
        None => match closes(t.kind) {
            Some(d) => {
                let parent = stack[n - 1];
                let group = Tree::Group(d, top.trees);
                let next = add_tree(stack.drop_last(), group);
                lemma_flatten_push(parent.trees, group);
                let outer = stack.drop_last().drop_last();
                assert(next.drop_last() =~= outer);
                assert(stack.drop_last().last() == parent);
                assert(next.last().trees == parent.trees.push(group));
                assert(flatten_levels(stack.drop_last()) == flatten_levels(outer) + flatten(
                    parent.trees,
                ));
                assert(flatten_levels(next) == flatten_levels(outer) + flatten(
                    parent.trees.push(group),
                ));
                assert(flatten_levels(next) =~= flatten_levels(stack));
                assert(open_after(q)->Some_0 =~= open.drop_last());
            },
            None => {
                let next = add_tree(stack, Tree::Leaf(t));
                lemma_flatten_push(top.trees, Tree::Leaf(t));
                assert(next.drop_last() =~= stack.drop_last());
                assert(flatten_levels(next) =~= flatten_levels(stack).push(t));
            },
        },
    }
}

proof fn lemma_groups_from(s: Seq<char>, i: nat, stack: Seq<Level>, p: Seq<Lexeme>)
    requires
        i <= s.len(),
        lex_from(s, i) is Ok,
        tracks(stack, p),
        balanced(p + locate_all(s, lex_from(s, i)->Ok_0).drop_last()),
    ensures
        trees_from(s, i, stack) is Ok,
        flatten(trees_from(s, i, stack)->Ok_0) == without_delimiters(
            p + locate_all(s, lex_from(s, i)->Ok_0).drop_last(),
        ),
    decreases s.len() - i,
{
    lemma_next_lexeme(s, i);
    let t = next_lexeme(s, i)->Ok_0;
    let lt = located(s, t);
    let toks = locate_all(s, lex_from(s, i)->Ok_0);
    if t.kind == ScannedTokenKind::Eof {
        assert(toks.drop_last() =~= Seq::<Lexeme>::empty());
        assert(p + toks.drop_last() =~= p);
        assert(stack.len() == 1);
        assert(stack.drop_last() =~= Seq::<Level>::empty());
        assert(flatten_levels(stack.drop_last()) == Seq::<Lexeme>::empty());
        assert(flatten_levels(stack) =~= flatten(stack[0].trees));
    } else {
        let rest = locate_all(s, lex_from(s, t.end as nat)->Ok_0);
        let q = p.push(lt);
        assert(toks =~= seq![lt] + rest);
        assert(rest.len() >= 1);
        assert(p + toks.drop_last() =~= q + rest.drop_last());
        lemma_open_after_prefix(q, rest.drop_last());
        lemma_step_tracks(stack, p, lt);
        lemma_groups_from(s, t.end as nat, step(stack, lt)->Ok_0, q);
    }
}

/// Grouping the tokens of a text whose delimiters are balanced succeeds, and
/// the trees hold the tokens in their order with the delimiters left out.
pub proof fn lemma_balanced_groups(s: Seq<char>)
    requires
        tokens_of(s) is Ok,
        balanced(tokens_of(s)->Ok_0.drop_last()),
    ensures
        lex_trees(s) is Ok,
        flatten(lex_trees(s)->Ok_0) == without_delimiters(tokens_of(s)->Ok_0.drop_last()),
{
    let p = Seq::<Lexeme>::empty();
    let toks = tokens_of(s)->Ok_0;
    assert(root().drop_last() =~= Seq::<Level>::empty());
    assert(flatten_levels(root().drop_last()) == Seq::<Lexeme>::empty());
    assert(flatten(root().last().trees) == Seq::<Lexeme>::empty());
    assert(flatten_levels(root()) =~= Seq::<Lexeme>::empty());
    assert(p + toks.drop_last() =~= toks.drop_last());
    lemma_groups_from(s, 0, root(), p);
}

/// Lexing depends on the source text alone: two lexings of one text give
/// equal streams, or equal errors.
pub proof fn lemma_relex_identical(
    s: Seq<char>,
    first: Result<TokenStream, LexError>,
    second: Result<TokenStream, LexError>,
)
    requires
        outcome(first) == lex_trees(s),
        outcome(second) == lex_trees(s),
    ensures
        outcome(first) == outcome(second),
{
}

} // verus!
