use vstd::prelude::*;
use crate::token::{Lexeme, LexemeView, Node, Token, lexemes, all_wf};

verus! {

/// Why the lexer gave up.
#[derive(Debug, Clone, Copy, PartialEq, Eq, Structural)]
pub enum LexError {
    /// A character that starts no token and is not whitespace.
    UnexpectedChar(char),
    /// A run of digits whose value does not fit in a `u32`.
    NumberTooLarge,
}

pub open spec fn is_digit(c: char) -> bool {
    '0' <= c <= '9'
}

pub open spec fn is_lower(c: char) -> bool {
    'a' <= c <= 'z'
}

/// The Unicode `White_Space` characters.
pub open spec fn is_space(c: char) -> bool {
    ||| '\t' <= c <= '\r'
    ||| c == ' '
    ||| c == '\u{85}'
    ||| c == '\u{a0}'
    ||| c == '\u{1680}'
    ||| '\u{2000}' <= c <= '\u{200a}'
    ||| c == '\u{2028}'
    ||| c == '\u{2029}'
    ||| c == '\u{202f}'
    ||| c == '\u{205f}'
    ||| c == '\u{3000}'
}

/// The single-character token that `c` stands for, if any.
pub open spec fn punct(c: char) -> Option<LexemeView> {
    if c == '=' {
        Some(LexemeView::Assign(c))
    } else if c == ',' {
        Some(LexemeView::Comma(c))
    } else if c == '(' {
        Some(LexemeView::LParen(c))
    } else if c == ')' {
        Some(LexemeView::RParen(c))
    } else if c == '.' {
        Some(LexemeView::Period(c))
    } else if c == ';' {
        Some(LexemeView::Semicolon(c))
    } else {
        None
    }
}

/// A character that the lexer accepts.
pub open spec fn is_allowed(c: char) -> bool {
    is_digit(c) || is_lower(c) || punct(c) is Some || is_space(c)
}

pub open spec fn digit_class() -> spec_fn(char) -> bool {
    |c: char| is_digit(c)
}

pub open spec fn lower_class() -> spec_fn(char) -> bool {
    |c: char| is_lower(c)
}

pub open spec fn digit_value(c: char) -> nat {
    (c as int - '0' as int) as nat
}

/// The base-10 value of a sequence of digits.
pub open spec fn digits_value(d: Seq<char>) -> nat
    decreases d.len(),
{
    if d.len() == 0 {
        0
    } else {
        digits_value(d.drop_last()) * 10 + digit_value(d.last())
    }
}

/// The end of the run of characters satisfying `p` that starts at `i`.
pub open spec fn run_end(s: Seq<char>, i: int, p: spec_fn(char) -> bool) -> int
    decreases s.len() - i,
{
    if i < 0 || i >= s.len() || !p(s[i]) {
        i
    } else {
        run_end(s, i + 1, p)
    }
}

pub open spec fn keyword() -> Seq<char> {
    seq!['p', 'o', 'i', 'n', 't']
}

/// Puts `p` in front of the tokens of a successful scan; an error stays as it is.
pub open spec fn prepend(p: Seq<LexemeView>, r: Result<Seq<LexemeView>, LexError>) -> Result<
    Seq<LexemeView>,
    LexError,
> {
    match r {
        Ok(ts) => Ok(p + ts),
        Err(e) => Err(e),
    }
}

/// The tokens of `s` from position `i` on: a single left-to-right scan that takes
/// maximal runs of digits and of lowercase letters, single punctuation characters,
/// and skips whitespace.
pub open spec fn lex_from(s: Seq<char>, i: int) -> Result<Seq<LexemeView>, LexError>
    decreases s.len() - i
        via lex_from_decreases
{
    if i < 0 || i >= s.len() {
        Ok(seq![])
    } else {
        let c = s[i];
        if is_digit(c) {
            let j = run_end(s, i, digit_class());
            let v = digits_value(s.subrange(i, j));
            if v > u32::MAX {
                Err(LexError::NumberTooLarge)
            } else {
                prepend(seq![LexemeView::Num(v as u32)], lex_from(s, j))
            }
        } else if is_lower(c) {
            let j = run_end(s, i, lower_class());
            let w = s.subrange(i, j);
            let t = if w == keyword() {
                LexemeView::Point(w)
            } else {
                LexemeView::Id(w)
            };
            prepend(seq![t], lex_from(s, j))
        } else if punct(c) is Some {
            prepend(seq![punct(c)->0], lex_from(s, i + 1))
        } else if is_space(c) {
            lex_from(s, i + 1)
        } else {
            Err(LexError::UnexpectedChar(c))
        }
    }
}

/// A run that starts on a character satisfying `p` is not empty and stays inside `s`.
pub proof fn lemma_run_end(s: Seq<char>, i: int, p: spec_fn(char) -> bool)
    requires
        0 <= i <= s.len(),
    ensures
        i <= run_end(s, i, p) <= s.len(),
        i < s.len() && p(s[i]) ==> i < run_end(s, i, p),
        forall|k: int| i <= k < run_end(s, i, p) ==> p(#[trigger] s[k]),
        run_end(s, i, p) < s.len() ==> !p(s[run_end(s, i, p)]),
    decreases s.len() - i,
{
    if i < s.len() && p(s[i]) {
        lemma_run_end(s, i + 1, p);
    }
}

#[via_fn]
proof fn lex_from_decreases(s: Seq<char>, i: int) {
    if 0 <= i < s.len() {
        lemma_run_end(s, i, digit_class());
        lemma_run_end(s, i, lower_class());
    }
}

/// The tokens of the whole text `s`.
pub open spec fn lex_spec(s: Seq<char>) -> Result<Seq<LexemeView>, LexError> {
    lex_from(s, 0)
}

/// The characters of `s`, in order.
fn chars_of(s: &str) -> (r: Vec<char>)
    ensures
        r@ == s@,
{
    broadcast use vstd::string::group_string_axioms;

    let mut r: Vec<char> = Vec::new();
    for c in it: s.chars()
        invariant
            r@ == it.seq().take(it.index() as int),
    {
        r.push(c);
        assert(r@ =~= it.seq().take(it.index() as int + 1));
    }
    assert(r@ =~= s@);
    r
}

/// Relies on `String::push`: appends one character.
#[verifier::external_body]
pub(crate) fn push_char(s: &mut String, c: char)
    ensures
        final(s)@ == old(s)@.push(c),
{
    s.push(c)
}

fn is_digit_exec(c: char) -> (r: bool)
    ensures
        r == is_digit(c),
{
    '0' <= c && c <= '9'
}

/// Whether `c` is a lowercase ASCII letter.
pub fn digit_rx(c: &char) -> (r: bool)
    ensures
        r == is_lower(*c),
{
    'a' <= *c && *c <= 'z'
}

fn is_space_exec(c: char) -> (r: bool)
    ensures
        r == is_space(c),
{
    ('\t' <= c && c <= '\r') || c == ' ' || c == '\u{85}' || c == '\u{a0}' || c == '\u{1680}'
        || ('\u{2000}' <= c && c <= '\u{200a}') || c == '\u{2028}' || c == '\u{2029}' || c
        == '\u{202f}' || c == '\u{205f}' || c == '\u{3000}'
}

fn punct_node(c: char) -> (r: Option<Node>)
    ensures
        r is Some <==> punct(c) is Some,
        r is Some ==> r->0.data@ == punct(c)->0 && r->0.wf(),
{
    if c == '=' {
        Some(Node::new(Token::ASSIGN, Lexeme::_ASSIGN(c)))
    } else if c == ',' {
        Some(Node::new(Token::COMMA, Lexeme::_COMMA(c)))
    } else if c == '(' {
        Some(Node::new(Token::LPAREN, Lexeme::_LPAREN(c)))
    } else if c == ')' {
        Some(Node::new(Token::RPAREN, Lexeme::_RPAREN(c)))
    } else if c == '.' {
        Some(Node::new(Token::PERIOD, Lexeme::_PERIOD(c)))
    } else if c == ';' {
        Some(Node::new(Token::SEMICOLON, Lexeme::_SEMICOLON(c)))
    } else {
        None
    }
}

pub proof fn lemma_run_end_at(s: Seq<char>, i: int, j: int, p: spec_fn(char) -> bool)
    requires
        0 <= i <= j <= s.len(),
        forall|k: int| i <= k < j ==> p(#[trigger] s[k]),
        j == s.len() || !p(s[j]),
    ensures
        run_end(s, i, p) == j,
    decreases j - i,
{
    if i < j {
        lemma_run_end_at(s, i + 1, j, p);
    }
}

proof fn lemma_prepend_assoc(
    a: Seq<LexemeView>,
    b: Seq<LexemeView>,
    r: Result<Seq<LexemeView>, LexError>,
)
    ensures
        prepend(a, prepend(b, r)) == prepend(a + b, r),
{
    if let Ok(ts) = r {
        assert(a + (b + ts) =~= (a + b) + ts);
    }
}

/// A prefix of a run of digits is worth no more than the whole run.
proof fn lemma_digits_mono(d: Seq<char>, k: int)
    requires
        0 <= k <= d.len(),
    ensures
        digits_value(d.take(k)) <= digits_value(d),
    decreases d.len(),
{
    if k < d.len() {
        lemma_digits_mono(d.drop_last(), k);
        assert(d.drop_last().take(k) =~= d.take(k));
    } else {
        assert(d.take(k) =~= d);
    }
}

proof fn lemma_push_lexeme(toks: Seq<Node>, t: Node)
    ensures
        lexemes(toks.push(t)) == lexemes(toks) + seq![t.data@],
{
    assert(lexemes(toks.push(t)) =~= lexemes(toks) + seq![t.data@]);
}

/// Splits source text into tokens, or names the first character or number
/// that cannot be a token. A number too large for a `u32` is rejected rather
/// than wrapped or clamped.
pub fn lex(input: &String) -> (r: Result<Vec<Node>, LexError>)
    ensures
        match lex_spec(input@) {
            Ok(ts) => r is Ok && lexemes(r->Ok_0@) == ts && all_wf(r->Ok_0@),
            Err(e) => r is Err && r->Err_0 == e,
        },
{
    let s = chars_of(input.as_str());
    let n = s.len();
    let mut toks: Vec<Node> = Vec::new();
    let mut i: usize = 0;
    assert(lexemes(toks@) =~= seq![]);
    assert(lex_spec(s@) == prepend(lexemes(toks@), lex_from(s@, 0))) by {
        if let Ok(ts) = lex_from(s@, 0) {
            assert(seq![] + ts =~= ts);
        }
    }
    while i < n
        invariant
            s@ == input@,
            n == s.len(),
            i <= n,
            lex_spec(s@) == prepend(lexemes(toks@), lex_from(s@, i as int)),
            all_wf(toks@),
        decreases n - i,
    {
        let c = s[i];
        proof {
            lemma_run_end(s@, i as int, digit_class());
            lemma_run_end(s@, i as int, lower_class());
        }
        if is_digit_exec(c) {
            let mut j: usize = i;
            let mut v: u32 = 0;
            assert(s@.subrange(i as int, i as int) =~= seq![]);
            while j < n && is_digit_exec(s[j])
                invariant
                    i <= j <= n,
                    n == s.len(),
                    s@ == input@,
                    lex_spec(s@) == prepend(lexemes(toks@), lex_from(s@, i as int)),
                    forall|k: int| i <= k < j ==> is_digit(#[trigger] s@[k]),
                    v == digits_value(s@.subrange(i as int, j as int)),
                decreases n - j,
            {
                let d = (s[j] as u32) - ('0' as u32);
                let ghost w = s@.subrange(i as int, j as int + 1);
                assert(w.drop_last() =~= s@.subrange(i as int, j as int));
                if v > (u32::MAX - d) / 10 {
                    proof {
                        assert(v * 10 + d > u32::MAX) by (nonlinear_arith)
                            requires
                                v > (u32::MAX - d) / 10,
                                d <= 9,
                        ;
                        let e = run_end(s@, i as int, digit_class());
                        lemma_run_end(s@, i as int, digit_class());
                        let whole = s@.subrange(i as int, e);
                        assert(is_digit(s@[j as int]));
                        if e <= j {
                            assert(!digit_class()(s@[e]));
                            assert(is_digit(s@[e]));
                        }
                        assert(e > j);
                        lemma_digits_mono(whole, j - i + 1);
                        assert(whole.take(j - i + 1) =~= w);
                        assert(digits_value(w) == v * 10 + d);
                        assert(digits_value(whole) > u32::MAX);
                        assert(lex_from(s@, i as int) == Err::<Seq<LexemeView>, LexError>(
                            LexError::NumberTooLarge,
                        ));
                    }
                    return Err(LexError::NumberTooLarge);
                }
                v = v * 10 + d;
                j = j + 1;
            }
            proof {
                lemma_run_end_at(s@, i as int, j as int, digit_class());
                lemma_prepend_assoc(lexemes(toks@), seq![LexemeView::Num(v)], lex_from(s@, j as int));
            }
            let t = Node::new(Token::NUM, Lexeme::_NUM(v));
            proof {
                lemma_push_lexeme(toks@, t);
            }
            toks.push(t);
            i = j;
        } else if digit_rx(&c) {
            let mut j: usize = i;
            let mut word = String::new();
            assert(s@.subrange(i as int, i as int) =~= seq![]);
            while j < n && digit_rx(&s[j])
                invariant
                    i <= j <= n,
                    n == s.len(),
                    s@ == input@,
                    lex_spec(s@) == prepend(lexemes(toks@), lex_from(s@, i as int)),
                    forall|k: int| i <= k < j ==> is_lower(#[trigger] s@[k]),
                    word@ == s@.subrange(i as int, j as int),
                decreases n - j,
            {
                push_char(&mut word, s[j]);
                assert(word@ =~= s@.subrange(i as int, j as int + 1));
                j = j + 1;
            }
            proof {
                lemma_run_end_at(s@, i as int, j as int, lower_class());
            }
            let is_keyword = j - i == 5 && s[i] == 'p' && s[i + 1] == 'o' && s[i + 2] == 'i'
                && s[i + 3] == 'n' && s[i + 4] == 't';
            proof {
                if is_keyword {
                    assert(word@ =~= keyword());
                } else if word@ == keyword() {
                    assert(word@[0] == 'p' && word@[1] == 'o' && word@[2] == 'i');
                    assert(word@[3] == 'n' && word@[4] == 't');
                }
            }
            let t = if is_keyword {
                Node::new(Token::POINT, Lexeme::_POINT(word))
            } else {
                Node::new(Token::ID, Lexeme::_ID(word))
            };
            proof {
                lemma_prepend_assoc(lexemes(toks@), seq![t.data@], lex_from(s@, j as int));
                lemma_push_lexeme(toks@, t);
            }
            toks.push(t);
            i = j;
        } else if let Some(t) = punct_node(c) {
            proof {
                lemma_prepend_assoc(lexemes(toks@), seq![t.data@], lex_from(s@, i + 1));
                lemma_push_lexeme(toks@, t);
            }
            toks.push(t);
            i = i + 1;
        } else if is_space_exec(c) {
            i = i + 1;
        } else {
            return Err(LexError::UnexpectedChar(c));
        }
    }
    proof {
        if let Ok(ts) = lex_spec(s@) {
            assert(lexemes(toks@) + seq![] =~= lexemes(toks@));
        }
    }
    Ok(toks)
}

} // verus!
