use vstd::prelude::*;
use crate::lexer::{
    LexError, digit_class, digits_value, is_digit, is_lower, is_space, keyword, lemma_run_end,
    lemma_run_end_at, lex_from, lower_class, prepend, run_end,
};
use crate::token::{LexemeView, Token, kind_of};

verus! {

/// `p` is the text of one token of kind `k`.
pub open spec fn piece_ok(p: Seq<char>, k: Token) -> bool {
    match k {
        Token::ID => p.len() > 0 && (forall|i: int| 0 <= i < p.len() ==> is_lower(#[trigger] p[i]))
            && p != keyword(),
        Token::POINT => p == keyword(),
        Token::NUM => p.len() > 0 && (forall|i: int| 0 <= i < p.len() ==> is_digit(#[trigger] p[i]))
            && digits_value(p) <= u32::MAX,
        Token::ASSIGN => p == seq!['='],
        Token::LPAREN => p == seq!['('],
        Token::COMMA => p == seq![','],
        Token::RPAREN => p == seq![')'],
        Token::SEMICOLON => p == seq![';'],
        Token::PERIOD => p == seq!['.'],
    }
}

/// The lexeme that the text `p` of a token of kind `k` stands for.
pub open spec fn piece_lexeme(p: Seq<char>, k: Token) -> LexemeView {
    match k {
        Token::ID => LexemeView::Id(p),
        Token::POINT => LexemeView::Point(p),
        Token::NUM => LexemeView::Num(digits_value(p) as u32),
        Token::ASSIGN => LexemeView::Assign('='),
        Token::LPAREN => LexemeView::LParen('('),
        Token::COMMA => LexemeView::Comma(','),
        Token::RPAREN => LexemeView::RParen(')'),
        Token::SEMICOLON => LexemeView::Semicolon(';'),
        Token::PERIOD => LexemeView::Period('.'),
    }
}

/// Kinds whose text is a run of letters or digits.
pub open spec fn is_word_kind(k: Token) -> bool {
    k == Token::ID || k == Token::POINT || k == Token::NUM
}

/// A run of whitespace, possibly empty.
pub open spec fn blank(g: Seq<char>) -> bool {
    forall|i: int| 0 <= i < g.len() ==> is_space(#[trigger] g[i])
}

/// The text `gaps[0] + pieces[0] + gaps[1] + ... + pieces[n - 1] + gaps[n]`.
pub open spec fn layout(pieces: Seq<Seq<char>>, gaps: Seq<Seq<char>>) -> Seq<char>
    decreases pieces.len(),
{
    if gaps.len() == 0 {
        seq![]
    } else if pieces.len() == 0 {
        gaps[0]
    } else {
        gaps[0] + pieces[0] + layout(pieces.drop_first(), gaps.drop_first())
    }
}

/// `pieces` are texts of tokens of kinds `ks`, `gaps` are whitespace around them,
/// and no two runs of letters or digits touch.
pub open spec fn layout_ok(pieces: Seq<Seq<char>>, gaps: Seq<Seq<char>>, ks: Seq<Token>) -> bool {
    &&& pieces.len() == ks.len()
    &&& gaps.len() == ks.len() + 1
    &&& forall|i: int| 0 <= i < gaps.len() ==> blank(#[trigger] gaps[i])
    &&& forall|i: int| 0 <= i < ks.len() ==> piece_ok(#[trigger] pieces[i], ks[i])
    &&& forall|i: int|
        0 <= i < ks.len() - 1 ==> is_word_kind(#[trigger] ks[i]) ==> !is_word_kind(ks[i + 1])
}

/// The lexemes of the pieces.
pub open spec fn piece_lexemes(pieces: Seq<Seq<char>>, ks: Seq<Token>) -> Seq<LexemeView> {
    Seq::new(ks.len(), |i: int| piece_lexeme(pieces[i], ks[i]))
}

proof fn lemma_run_end_shift(a: Seq<char>, b: Seq<char>, i: int, p: spec_fn(char) -> bool)
    requires
        0 <= i <= b.len(),
    ensures
        run_end(a + b, a.len() + i, p) == a.len() + run_end(b, i, p),
    decreases b.len() - i,
{
    if i < b.len() && p(b[i]) {
        assert((a + b)[a.len() + i] == b[i]);
        lemma_run_end_shift(a, b, i + 1, p);
    }
}

/// Lexing looks only at the text from the current position on.
pub proof fn lemma_lex_shift(a: Seq<char>, b: Seq<char>, i: int)
    requires
        0 <= i <= b.len(),
    ensures
        lex_from(a + b, a.len() + i) == lex_from(b, i),
    decreases b.len() - i,
{
    let s = a + b;
    let k = a.len() + i;
    if i < b.len() {
        assert(s[k] == b[i]);
        let c = b[i];
        lemma_run_end(b, i, digit_class());
        lemma_run_end(b, i, lower_class());
        if is_digit(c) {
            let j = run_end(b, i, digit_class());
            lemma_run_end_shift(a, b, i, digit_class());
            assert(s.subrange(k, a.len() + j) =~= b.subrange(i, j));
            lemma_lex_shift(a, b, j);
        } else if is_lower(c) {
            let j = run_end(b, i, lower_class());
            lemma_run_end_shift(a, b, i, lower_class());
            assert(s.subrange(k, a.len() + j) =~= b.subrange(i, j));
            lemma_lex_shift(a, b, j);
        } else {
            lemma_lex_shift(a, b, i + 1);
        }
    }
}

/// Leading whitespace is skipped.
pub proof fn lemma_lex_blank(g: Seq<char>, r: Seq<char>)
    requires
        blank(g),
    ensures
        lex_from(g + r, 0) == lex_from(r, 0),
    decreases g.len(),
{
    if g.len() == 0 {
        assert(g + r =~= r);
    } else {
        let s = g + r;
        let h = seq![g[0]];
        let t = g.drop_first();
        assert(s =~= h + (t + r));
        assert(is_space(s[0]));
        lemma_lex_shift(h, t + r, 0);
        assert(blank(t)) by {
            assert forall|i: int| 0 <= i < t.len() implies is_space(#[trigger] t[i]) by {
                assert(t[i] == g[i + 1]);
            }
        }
        lemma_lex_blank(t, r);
    }
}

/// A token's text followed by text that cannot continue it lexes to that token.
pub proof fn lemma_lex_piece(p: Seq<char>, k: Token, r: Seq<char>)
    requires
        piece_ok(p, k),
        r.len() > 0 && (k == Token::ID || k == Token::POINT) ==> !is_lower(r[0]),
        r.len() > 0 && k == Token::NUM ==> !is_digit(r[0]),
    ensures
        lex_from(p + r, 0) == prepend(seq![piece_lexeme(p, k)], lex_from(r, 0)),
{
    let s = p + r;
    assert(s[0] == p[0]);
    lemma_lex_shift(p, r, 0);
    if k == Token::ID || k == Token::POINT {
        assert(is_lower(p[0]));
        assert forall|i: int| 0 <= i < p.len() implies lower_class()(#[trigger] s[i]) by {
            assert(s[i] == p[i]);
        }
        if r.len() > 0 {
            assert(s[p.len() as int] == r[0]);
        }
        lemma_run_end_at(s, 0, p.len() as int, lower_class());
        assert(s.subrange(0, p.len() as int) =~= p);
    } else if k == Token::NUM {
        assert(is_digit(p[0]));
        assert forall|i: int| 0 <= i < p.len() implies digit_class()(#[trigger] s[i]) by {
            assert(s[i] == p[i]);
        }
        if r.len() > 0 {
            assert(s[p.len() as int] == r[0]);
        }
        lemma_run_end_at(s, 0, p.len() as int, digit_class());
        assert(s.subrange(0, p.len() as int) =~= p);
    }
}

/// Text laid out from token pieces and whitespace lexes to the pieces' lexemes.
pub proof fn lemma_lex_layout(pieces: Seq<Seq<char>>, gaps: Seq<Seq<char>>, ks: Seq<Token>)
    requires
        layout_ok(pieces, gaps, ks),
    ensures
        lex_from(layout(pieces, gaps), 0) == Ok::<Seq<LexemeView>, LexError>(
            piece_lexemes(pieces, ks),
        ),
    decreases ks.len(),
{
    if ks.len() == 0 {
        assert(blank(gaps[0]));
        lemma_lex_blank(gaps[0], seq![]);
        assert(gaps[0] + seq![] =~= gaps[0]);
        assert(piece_lexemes(pieces, ks) =~= seq![]);
    } else {
        let ps2 = pieces.drop_first();
        let gs2 = gaps.drop_first();
        let ks2 = ks.drop_first();
        let rest = layout(ps2, gs2);
        assert(layout_ok(ps2, gs2, ks2)) by {
            assert forall|i: int| 0 <= i < gs2.len() implies blank(#[trigger] gs2[i]) by {
                assert(gs2[i] == gaps[i + 1]);
            }
            assert forall|i: int| 0 <= i < ks2.len() implies piece_ok(#[trigger] ps2[i], ks2[i]) by {
                assert(ps2[i] == pieces[i + 1] && ks2[i] == ks[i + 1]);
            }
            assert forall|i: int|
                0 <= i < ks2.len() - 1 && is_word_kind(#[trigger] ks2[i]) implies !is_word_kind(
                ks2[i + 1],
            ) by {
                assert(ks2[i] == ks[i + 1] && ks2[i + 1] == ks[i + 2]);
            }
        }
        lemma_lex_layout(ps2, gs2, ks2);
        assert(blank(gaps[0]));
        assert(piece_ok(pieces[0], ks[0]));
        assert(layout(pieces, gaps) =~= gaps[0] + (pieces[0] + rest));
        lemma_lex_blank(gaps[0], pieces[0] + rest);
        if rest.len() > 0 {
            let g1 = gs2[0];
            assert(blank(gaps[1]));
            if ps2.len() == 0 {
                assert(rest == g1);
                assert(is_space(rest[0]));
            } else {
                assert(rest =~= g1 + (ps2[0] + layout(ps2.drop_first(), gs2.drop_first())));
                if g1.len() > 0 {
                    assert(rest[0] == g1[0]);
                    assert(is_space(rest[0]));
                } else {
                    assert(piece_ok(pieces[1], ks[1]));
                    assert(rest[0] == pieces[1][0]);
                    if is_word_kind(ks[0]) {
                        assert(!is_word_kind(ks[1]));
                    }
                }
            }
        }
        lemma_lex_piece(pieces[0], ks[0], rest);
        assert(seq![piece_lexeme(pieces[0], ks[0])] + piece_lexemes(ps2, ks2) =~= piece_lexemes(
            pieces,
            ks,
        ));
    }
}

/// The kinds of the lexemes of the pieces are the pieces' kinds.
pub proof fn lemma_piece_kinds(pieces: Seq<Seq<char>>, ks: Seq<Token>)
    ensures
        piece_lexemes(pieces, ks).map_values(|l: LexemeView| kind_of(l)) == ks,
{
    assert(piece_lexemes(pieces, ks).map_values(|l: LexemeView| kind_of(l)) =~= ks);
}

} // verus!
