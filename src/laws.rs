use vstd::prelude::*;
use crate::codegen::{OutputMode, decimal_spec, digit_char};
use crate::grammar::{expected_kind, grammar_ok};
use crate::lexer::{
    LexError, digit_class, digit_value, digits_value, is_allowed, is_digit, lemma_run_end, lemma_run_end_at,
    lex_from, lex_spec, lower_class, run_end,
};
use crate::pipeline::{lexeme_kinds, output_spec};
use crate::layout::{
    blank, is_word_kind, layout, layout_ok, lemma_lex_layout, lemma_piece_kinds, piece_lexemes,
    piece_ok,
};
use crate::token::{LexemeView, Token};

verus! {

proof fn lemma_digit_char(d: nat)
    requires
        d < 10,
    ensures
        is_digit(digit_char(d)),
        digit_value(digit_char(d)) == d,
{
}

proof fn lemma_decimal_digits(n: nat)
    ensures
        decimal_spec(n).len() > 0,
        forall|k: int| 0 <= k < decimal_spec(n).len() ==> is_digit(#[trigger] decimal_spec(n)[k]),
        digits_value(decimal_spec(n)) == n,
    decreases n,
{
    lemma_digit_char(n % 10);
    let d = decimal_spec(n);
    if n < 10 {
        assert(d.drop_last() =~= seq![]);
        assert(digits_value(d) == digits_value(d.drop_last()) * 10 + digit_value(d.last()));
    } else {
        lemma_decimal_digits(n / 10);
        assert(d.drop_last() =~= decimal_spec(n / 10));
        assert(d.last() == digit_char(n % 10));
        assert(digits_value(d) == (n / 10) * 10 + n % 10);
    }
}

/// The base-10 text of a `u32` lexes back to a single number token of the same
/// value.
pub proof fn law_decimal_round_trip(n: u32)
    ensures
        lex_spec(decimal_spec(n as nat)) == Ok::<Seq<LexemeView>, LexError>(
            seq![LexemeView::Num(n)],
        ),
{
    let s = decimal_spec(n as nat);
    lemma_decimal_digits(n as nat);
    lemma_run_end_at(s, 0, s.len() as int, digit_class());
    assert(s.subrange(0, s.len() as int) =~= s);
    assert(lex_from(s, s.len() as int) == Ok::<Seq<LexemeView>, LexError>(seq![]));
    assert(is_digit(s[0]));
    assert(seq![LexemeView::Num(n)] + seq![] =~= seq![LexemeView::Num(n)]);
}

/// A text that holds a character which starts no token and is not whitespace
/// fails to lex, wherever that character stands.
pub proof fn law_disallowed_char_rejected(s: Seq<char>, k: int)
    requires
        0 <= k < s.len(),
        !is_allowed(s[k]),
    ensures
        lex_spec(s) is Err,
{
    lemma_lex_from_err(s, 0, k);
}

proof fn lemma_lex_from_err(s: Seq<char>, i: int, k: int)
    requires
        0 <= i <= k < s.len(),
        !is_allowed(s[k]),
    ensures
        lex_from(s, i) is Err,
    decreases s.len() - i,
{
    let c = s[i];
    lemma_run_end(s, i, digit_class());
    lemma_run_end(s, i, lower_class());
    if is_digit(c) {
        let j = run_end(s, i, digit_class());
        if j > k {
            assert(digit_class()(s[k]));
        }
        if digits_value(s.subrange(i, j)) <= u32::MAX {
            lemma_lex_from_err(s, j, k);
        }
    } else if crate::lexer::is_lower(c) {
        let j = run_end(s, i, lower_class());
        if j > k {
            assert(lower_class()(s[k]));
        }
        lemma_lex_from_err(s, j, k);
    } else if i < k {
        lemma_lex_from_err(s, i + 1, k);
    }
}

/// The kinds of a program, position by position.
pub open spec fn program_kinds() -> Seq<Token> {
    Seq::new(27, |i: int| expected_kind(i))
}

/// `pieces` are the texts of the tokens of a program, in order, and `gaps` the runs
/// of whitespace before, between and after them.
pub open spec fn program_pieces_ok(pieces: Seq<Seq<char>>, gaps: Seq<Seq<char>>) -> bool {
    &&& pieces.len() == 27
    &&& gaps.len() == 28
    &&& forall|i: int| 0 <= i < 28 ==> blank(#[trigger] gaps[i])
    &&& forall|i: int| 0 <= i < 27 ==> piece_ok(#[trigger] pieces[i], expected_kind(i))
}

proof fn lemma_program_layout_ok(pieces: Seq<Seq<char>>, gaps: Seq<Seq<char>>)
    requires
        program_pieces_ok(pieces, gaps),
    ensures
        layout_ok(pieces, gaps, program_kinds()),
        lex_spec(layout(pieces, gaps)) == Ok::<Seq<LexemeView>, LexError>(
            piece_lexemes(pieces, program_kinds()),
        ),
{
    let ks = program_kinds();
    assert forall|i: int| 0 <= i < ks.len() implies piece_ok(#[trigger] pieces[i], ks[i]) by {
        assert(ks[i] == expected_kind(i));
    }
    assert forall|i: int| 0 <= i < ks.len() - 1 && is_word_kind(#[trigger] ks[i]) implies !is_word_kind(
        ks[i + 1],
    ) by {
        assert(ks[i] == expected_kind(i) && ks[i + 1] == expected_kind(i + 1));
        assert(i % 9 + 1 == (i + 1) % 9 || i % 9 == 8);
    }
    lemma_lex_layout(pieces, gaps, ks);
}

/// Every program text, whatever whitespace stands around its tokens, lexes to
/// exactly 27 tokens that pass the grammar check, and so yields code.
pub proof fn law_program_accepted(pieces: Seq<Seq<char>>, gaps: Seq<Seq<char>>, mode: OutputMode)
    requires
        program_pieces_ok(pieces, gaps),
    ensures
        lex_spec(layout(pieces, gaps)) is Ok,
        lex_spec(layout(pieces, gaps))->Ok_0.len() == 27,
        grammar_ok(lexeme_kinds(lex_spec(layout(pieces, gaps))->Ok_0)),
        output_spec(layout(pieces, gaps), mode) is Some,
{
    lemma_program_layout_ok(pieces, gaps);
    lemma_piece_kinds(pieces, program_kinds());
}

/// The code generated for a program does not depend on the whitespace around its
/// tokens.
pub proof fn law_whitespace_insensitive(
    pieces: Seq<Seq<char>>,
    gaps1: Seq<Seq<char>>,
    gaps2: Seq<Seq<char>>,
    mode: OutputMode,
)
    requires
        program_pieces_ok(pieces, gaps1),
        program_pieces_ok(pieces, gaps2),
    ensures
        output_spec(layout(pieces, gaps1), mode) == output_spec(layout(pieces, gaps2), mode),
{
    lemma_program_layout_ok(pieces, gaps1);
    lemma_program_layout_ok(pieces, gaps2);
}

/// A text made of well-formed tokens whose kinds are not those of a program (a
/// missing or extra token, a misspelled keyword, which lexes as a name, or any
/// token of the wrong kind) lexes, fails the grammar check, and yields no code.
pub proof fn law_misshapen_program_rejected(
    pieces: Seq<Seq<char>>,
    gaps: Seq<Seq<char>>,
    ks: Seq<Token>,
    mode: OutputMode,
)
    requires
        layout_ok(pieces, gaps, ks),
        ks != program_kinds(),
    ensures
        lex_spec(layout(pieces, gaps)) is Ok,
        !grammar_ok(lexeme_kinds(lex_spec(layout(pieces, gaps))->Ok_0)),
        output_spec(layout(pieces, gaps), mode) is None,
{
    lemma_lex_layout(pieces, gaps, ks);
    lemma_piece_kinds(pieces, ks);
    if grammar_ok(ks) {
        assert(ks =~= program_kinds());
    }
}

} // verus!
