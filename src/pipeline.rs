use vstd::prelude::*;
use crate::codegen::{OutputMode, code_text, coordinates, generate};
use crate::grammar::{SyntaxError, find_syntax_error, first_mismatch, grammar_ok};
use crate::lexer::{LexError, lex, lex_spec};
use crate::token::{LexemeView, Token, all_wf, kind_of, kinds, lexemes};

verus! {

/// Why a source text was not translated.
#[derive(Debug, Clone, Copy, PartialEq, Eq, Structural)]
pub enum TranslateError {
    Lex(LexError),
    Syntax(SyntaxError),
}

/// The kinds of a sequence of lexemes.
pub open spec fn lexeme_kinds(ls: Seq<LexemeView>) -> Seq<Token> {
    ls.map_values(|l: LexemeView| kind_of(l))
}

/// The code for source text `s` in the language `mode`, where `s` is a program.
pub open spec fn output_spec(s: Seq<char>, mode: OutputMode) -> Option<Seq<char>> {
    match lex_spec(s) {
        Ok(ls) => if grammar_ok(lexeme_kinds(ls)) {
            Some(code_text(coordinates(ls), mode))
        } else {
            None
        },
        Err(_) => None,
    }
}

proof fn lemma_kinds_of_wf(ts: Seq<crate::token::Node>)
    requires
        all_wf(ts),
    ensures
        kinds(ts) == lexeme_kinds(lexemes(ts)),
{
    assert(kinds(ts) =~= lexeme_kinds(lexemes(ts)));
}

/// Translates source text to code in the language `mode`: lexes it, checks it
/// against the program shape, and generates the code.
pub fn translate(source: &String, mode: OutputMode) -> (r: Result<String, TranslateError>)
    ensures
        r is Ok <==> output_spec(source@, mode) is Some,
        r is Ok ==> r->Ok_0@ == output_spec(source@, mode)->0,
        lex_spec(source@) is Err ==> r == Err::<String, TranslateError>(
            TranslateError::Lex(lex_spec(source@)->Err_0),
        ),
        lex_spec(source@) is Ok && !grammar_ok(lexeme_kinds(lex_spec(source@)->Ok_0)) ==> (
        r matches Err(TranslateError::Syntax(e)) && first_mismatch(
            lexeme_kinds(lex_spec(source@)->Ok_0),
            e,
        )),
{
    let tokens = match lex(source) {
        Ok(t) => t,
        Err(e) => {
            return Err(TranslateError::Lex(e));
        },
    };
    proof {
        lemma_kinds_of_wf(tokens@);
    }
    match find_syntax_error(&tokens) {
        Some(e) => Err(TranslateError::Syntax(e)),
        None => Ok(generate(&tokens, mode)),
    }
}

} // verus!
