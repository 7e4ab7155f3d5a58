use vstd::prelude::*;
use crate::token::{Node, Token, kinds};

verus! {

/// Tokens in one point definition: `ID = point ( NUM , NUM ) ;`
pub const GROUP_LEN: usize = 9;

/// Point definitions in a program.
pub const GROUPS: usize = 3;

/// Tokens in a program.
pub const PROGRAM_LEN: usize = 27;

/// The kind expected at `slot` of a point definition; `last` tells whether the
/// definition ends the program.
pub open spec fn slot_kind(slot: int, last: bool) -> Token {
    if slot == 0 {
        Token::ID
    } else if slot == 1 {
        Token::ASSIGN
    } else if slot == 2 {
        Token::POINT
    } else if slot == 3 {
        Token::LPAREN
    } else if slot == 4 || slot == 6 {
        Token::NUM
    } else if slot == 5 {
        Token::COMMA
    } else if slot == 7 {
        Token::RPAREN
    } else if last {
        Token::PERIOD
    } else {
        Token::SEMICOLON
    }
}

/// The kind expected at position `i` of a program.
pub open spec fn expected_kind(i: int) -> Token {
    slot_kind(i % 9, i / 9 == 2)
}

/// The program shape `ID = point(NUM, NUM); ID = point(NUM, NUM); ID = point(NUM, NUM).`
pub open spec fn grammar_ok(ks: Seq<Token>) -> bool {
    &&& ks.len() == 27
    &&& forall|i: int| 0 <= i < 27 ==> #[trigger] ks[i] == expected_kind(i)
}

/// Where a token sequence leaves the program shape.
#[derive(Debug, Clone, Copy, PartialEq, Eq, Structural)]
pub struct SyntaxError {
    /// The first position that does not fit.
    pub index: usize,
    /// The kind the grammar asks for there; `None` past the end of a program.
    pub expected: Option<Token>,
    /// The kind found there; `None` past the end of the input.
    pub found: Option<Token>,
}

/// `e` describes the first place where `ks` leaves the program shape.
pub open spec fn first_mismatch(ks: Seq<Token>, e: SyntaxError) -> bool {
    let i = e.index as int;
    &&& forall|j: int| 0 <= j < i ==> #[trigger] ks[j] == expected_kind(j)
    &&& e.expected == (if i < 27 { Some(expected_kind(i)) } else { None::<Token> })
    &&& e.found == (if i < ks.len() { Some(ks[i]) } else { None::<Token> })
    &&& e.expected != e.found
    &&& i <= 27
    &&& i <= ks.len()
}

fn slot_kind_exec(slot: usize, last: bool) -> (r: Token)
    requires
        slot < GROUP_LEN,
    ensures
        r == slot_kind(slot as int, last),
{
    match slot {
        0 => Token::ID,
        1 => Token::ASSIGN,
        2 => Token::POINT,
        3 => Token::LPAREN,
        4 | 6 => Token::NUM,
        5 => Token::COMMA,
        7 => Token::RPAREN,
        _ => if last {
            Token::PERIOD
        } else {
            Token::SEMICOLON
        },
    }
}

/// Walks the tokens through the program shape, one point definition after
/// another, and reports the first position that does not fit.
pub fn find_syntax_error(tokens: &Vec<Node>) -> (r: Option<SyntaxError>)
    ensures
        r is None <==> grammar_ok(kinds(tokens@)),
        r is Some ==> first_mismatch(kinds(tokens@), r->0),
{
    let ghost ks = kinds(tokens@);
    let n = tokens.len();
    let mut group: usize = 0;
    let mut slot: usize = 0;
    let mut i: usize = 0;
    while group < GROUPS
        invariant
            ks == kinds(tokens@),
            n == tokens.len(),
            group <= GROUPS,
            slot < GROUP_LEN,
            i == group * 9 + slot,
            i <= n,
            group == GROUPS ==> slot == 0,
            forall|j: int| 0 <= j < i ==> #[trigger] ks[j] == expected_kind(j),
        decreases 27 - i,
    {
        let expected = slot_kind_exec(slot, group == GROUPS - 1);
        assert(expected == expected_kind(i as int)) by (nonlinear_arith)
            requires
                i == group * 9 + slot,
                slot < 9,
                group < 3,
                expected == slot_kind(slot as int, group == 2),
        ;
        if i == n {
            return Some(SyntaxError { index: i, expected: Some(expected), found: None });
        }
        let found = tokens[i].name;
        assert(ks[i as int] == found);
        if found != expected {
            assert(i < 27 && ks[i as int] != expected_kind(i as int));
            return Some(SyntaxError { index: i, expected: Some(expected), found: Some(found) });
        }
        i = i + 1;
        if slot + 1 == GROUP_LEN {
            slot = 0;
            group = group + 1;
        } else {
            slot = slot + 1;
        }
    }
    assert(i == 27);
    if n > PROGRAM_LEN {
        assert(ks[27] == tokens@[27].name);
        return Some(SyntaxError { index: PROGRAM_LEN, expected: None, found: Some(tokens[PROGRAM_LEN].name) });
    }
    None
}

/// Whether the tokens form a program: three point definitions, the first two
/// ended by `;` and the last by `.`.
pub fn parse(tokens: &Vec<Node>) -> (r: bool)
    ensures
        r == grammar_ok(kinds(tokens@)),
{
    find_syntax_error(tokens).is_none()
}

} // verus!
