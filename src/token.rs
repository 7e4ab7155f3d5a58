use vstd::prelude::*;

verus! {

/// The data carried by one token, as the lexer read it from the source text.
#[allow(non_camel_case_types)]
#[derive(Debug)]
pub enum Lexeme {
    _ID(String),
    _ASSIGN(char),
    _POINT(String),
    _LPAREN(char),
    _NUM(u32),
    _COMMA(char),
    _RPAREN(char),
    _SEMICOLON(char),
    _PERIOD(char),
}

/// The kind of a token.
#[allow(non_camel_case_types, clippy::upper_case_acronyms)]
#[derive(Debug, Clone, Copy, PartialEq, Eq, Structural)]
pub enum Token {
    ID,
    ASSIGN,
    POINT,
    LPAREN,
    NUM,
    COMMA,
    RPAREN,
    SEMICOLON,
    PERIOD,
}

/// A token: its kind and its data.
#[derive(Debug)]
pub struct Node {
    pub name: Token,
    pub data: Lexeme,
}

/// The mathematical value of a `Lexeme`: strings become character sequences.
pub enum LexemeView {
    Id(Seq<char>),
    Assign(char),
    Point(Seq<char>),
    LParen(char),
    Num(u32),
    Comma(char),
    RParen(char),
    Semicolon(char),
    Period(char),
}

impl View for Lexeme {
    type V = LexemeView;

    open spec fn view(&self) -> LexemeView {
        match self {
            Lexeme::_ID(s) => LexemeView::Id(s@),
            Lexeme::_ASSIGN(c) => LexemeView::Assign(*c),
            Lexeme::_POINT(s) => LexemeView::Point(s@),
            Lexeme::_LPAREN(c) => LexemeView::LParen(*c),
            Lexeme::_NUM(n) => LexemeView::Num(*n),
            Lexeme::_COMMA(c) => LexemeView::Comma(*c),
            Lexeme::_RPAREN(c) => LexemeView::RParen(*c),
            Lexeme::_SEMICOLON(c) => LexemeView::Semicolon(*c),
            Lexeme::_PERIOD(c) => LexemeView::Period(*c),
        }
    }
}

/// The kind that belongs to a lexeme.
pub open spec fn kind_of(l: LexemeView) -> Token {
    match l {
        LexemeView::Id(_) => Token::ID,
        LexemeView::Assign(_) => Token::ASSIGN,
        LexemeView::Point(_) => Token::POINT,
        LexemeView::LParen(_) => Token::LPAREN,
        LexemeView::Num(_) => Token::NUM,
        LexemeView::Comma(_) => Token::COMMA,
        LexemeView::RParen(_) => Token::RPAREN,
        LexemeView::Semicolon(_) => Token::SEMICOLON,
        LexemeView::Period(_) => Token::PERIOD,
    }
}

impl Node {
    /// A node whose kind agrees with its data.
    pub open spec fn wf(&self) -> bool {
        self.name == kind_of(self.data@)
    }

    pub fn new(n: Token, d: Lexeme) -> (r: Node)
        ensures
            r.name == n,
            r.data@ == d@,
    {
        Node { name: n, data: d }
    }
}

/// The lexemes of a token sequence.
pub open spec fn lexemes(ts: Seq<Node>) -> Seq<LexemeView> {
    ts.map_values(|t: Node| t.data@)
}

/// The kinds of a token sequence.
pub open spec fn kinds(ts: Seq<Node>) -> Seq<Token> {
    ts.map_values(|t: Node| t.name)
}

/// Every node of the sequence has the kind that its data calls for.
pub open spec fn all_wf(ts: Seq<Node>) -> bool {
    forall|i: int| 0 <= i < ts.len() ==> (#[trigger] ts[i]).wf()
}

} // verus!
