use vstd::prelude::*;
use crate::grammar::grammar_ok;
use crate::lexer::push_char;
use crate::template::{
    fill, fill_named, lemma_fill_named_placeholder, lemma_fill_placeholder, lemma_fill_plain, placeholder, render_named,
    render_positional, views,
};
use crate::token::{Lexeme, LexemeView, Node, all_wf, kinds, lexemes};

verus! {

/// The target language of the generated code.
#[derive(Debug, Clone, Copy, PartialEq, Eq, Structural)]
pub enum OutputMode {
    Scheme,
    Prolog,
}

/// The three points of the Scheme call.
pub const SCHEME_POINTS: &'static str = "(make-point {{}} {{}}) (make-point {{}} {{}}) (make-point {{}} {{}})";

/// The three points shared by every Prolog query. The space after the comma of the
/// third point, and only there, is part of the expected output.
pub const PROLOG_POINTS: &'static str = "(point2d({{}},{{}}), point2d({{}},{{}}), point2d({{}}, {{}}))";

/// One Prolog query: a predicate name followed by its arguments.
pub const QUERY_TEMPLATE: &'static str = "{{lhs_obj}}{{rhs_point}}";

/// The lines after the queries, which run them all.
pub const PROLOG_TRAILER: &'static str = "writeln(T) :- write(T), nl.\nmain:- forall(query(Q), Q-> (writeln(‘yes’)) ; (writeln(‘no’))),\n      halt.";

pub open spec fn digit_char(d: nat) -> char {
    ('0' as int + d) as char
}

/// The base-10 digits of `n`, without leading zeros.
pub open spec fn decimal_spec(n: nat) -> Seq<char>
    decreases n,
{
    if n < 10 {
        seq![digit_char(n)]
    } else {
        decimal_spec(n / 10).push(digit_char(n % 10))
    }
}

/// The base-10 text of `n`.
pub fn decimal(n: u32) -> (r: String)
    ensures
        r@ == decimal_spec(n as nat),
    decreases n,
{
    let d = ((n % 10) as u8 + 48u8) as char;
    assert(d == digit_char((n % 10) as nat));
    if n < 10 {
        let mut s = String::new();
        push_char(&mut s, d);
        assert(s@ =~= seq![d]);
        s
    } else {
        let mut s = decimal(n / 10);
        push_char(&mut s, d);
        s
    }
}

/// The number that a lexeme carries, or 0 where it carries none.
pub open spec fn num_of(l: LexemeView) -> u32 {
    match l {
        LexemeView::Num(n) => n,
        _ => 0,
    }
}

/// Positions of the six coordinates in a program.
pub open spec fn coordinate_positions() -> Seq<int> {
    seq![4, 6, 13, 15, 22, 24]
}

/// The six coordinates of a program, point by point.
pub open spec fn coordinates(ls: Seq<LexemeView>) -> Seq<u32> {
    coordinate_positions().map_values(|p: int| num_of(ls[p]))
}

pub open spec fn decimals(c: Seq<u32>) -> Seq<Seq<char>> {
    c.map_values(|n: u32| decimal_spec(n as nat))
}

/// The three points of the Scheme call, given the texts of their coordinates.
pub open spec fn scheme_points(d: Seq<Seq<char>>) -> Seq<char> {
    "(make-point "@ + d[0] + " "@ + d[1] + ") (make-point "@ + d[2] + " "@ + d[3]
        + ") (make-point "@ + d[4] + " "@ + d[5] + ")"@
}

/// The Scheme code for the coordinates `c`.
pub open spec fn scheme_text(c: Seq<u32>) -> Seq<char> {
    "(calculate-triangle "@ + scheme_points(decimals(c)) + ")"@
}

proof fn lemma_scheme_points(d: Seq<Seq<char>>)
    requires
        d.len() == 6,
    ensures
        fill(SCHEME_POINTS@, d) == scheme_points(d),
{
    reveal_strlit("(make-point {{}} {{}}) (make-point {{}} {{}}) (make-point {{}} {{}})");
    reveal_strlit("(make-point ");
    reveal_strlit(" ");
    reveal_strlit(") (make-point ");
    reveal_strlit(")");
    let ph = placeholder(seq![]);
    let a = "(make-point "@;
    let b = " "@;
    let m = ") (make-point "@;
    let z = ")"@;
    let t6 = b + (ph + z);
    let t5 = m + (ph + t6);
    let t4 = b + (ph + t5);
    let t3 = m + (ph + t4);
    let t2 = b + (ph + t3);
    let t1 = a + (ph + t2);
    assert(SCHEME_POINTS@ =~= t1);
    let d1 = d.drop_first();
    let d2 = d1.drop_first();
    let d3 = d2.drop_first();
    let d4 = d3.drop_first();
    let d5 = d4.drop_first();
    let d6 = d5.drop_first();
    lemma_fill_plain(z, seq![], d6);
    lemma_fill_placeholder(z, d5);
    lemma_fill_plain(b, ph + z, d5);
    lemma_fill_placeholder(t6, d4);
    lemma_fill_plain(m, ph + t6, d4);
    lemma_fill_placeholder(t5, d3);
    lemma_fill_plain(b, ph + t5, d3);
    lemma_fill_placeholder(t4, d2);
    lemma_fill_plain(m, ph + t4, d2);
    lemma_fill_placeholder(t3, d1);
    lemma_fill_plain(b, ph + t3, d1);
    lemma_fill_placeholder(t2, d);
    lemma_fill_plain(a, ph + t2, d);
    assert(z + seq![] =~= z);
    assert(fill(z, d6) == z);
    assert(fill(t1, d) =~= scheme_points(d));
}

/// The geometric predicates that the Prolog code asks about, in order.
pub open spec fn predicate_names() -> Seq<Seq<char>> {
    seq![
        "line"@,
        "triangle"@,
        "vertical"@,
        "horizontal"@,
        "equilateral"@,
        "isosceles"@,
        "right"@,
        "scalene"@,
        "acute"@,
        "obtuse"@,
    ]
}

/// The query line for predicate `p` over the arguments `rhs`.
pub open spec fn query_line(p: Seq<char>, rhs: Seq<char>) -> Seq<char> {
    "query("@ + p + rhs + ")\n"@
}

/// The three points of every Prolog query, given the texts of their coordinates.
pub open spec fn prolog_points(d: Seq<Seq<char>>) -> Seq<char> {
    "(point2d("@ + d[0] + ","@ + d[1] + "), point2d("@ + d[2] + ","@ + d[3] + "), point2d("@
        + d[4] + ", "@ + d[5] + "))"@
}

proof fn lemma_prolog_points(d: Seq<Seq<char>>)
    requires
        d.len() == 6,
    ensures
        fill(PROLOG_POINTS@, d) == prolog_points(d),
{
    reveal_strlit("(point2d({{}},{{}}), point2d({{}},{{}}), point2d({{}}, {{}}))");
    reveal_strlit("(point2d(");
    reveal_strlit(",");
    reveal_strlit("), point2d(");
    reveal_strlit(", ");
    reveal_strlit("))");
    let ph = placeholder(seq![]);
    let a = "(point2d("@;
    let b = ","@;
    let m = "), point2d("@;
    let b2 = ", "@;
    let z = "))"@;
    let t6 = b2 + (ph + z);
    let t5 = m + (ph + t6);
    let t4 = b + (ph + t5);
    let t3 = m + (ph + t4);
    let t2 = b + (ph + t3);
    let t1 = a + (ph + t2);
    assert(PROLOG_POINTS@ =~= t1);
    let d1 = d.drop_first();
    let d2 = d1.drop_first();
    let d3 = d2.drop_first();
    let d4 = d3.drop_first();
    let d5 = d4.drop_first();
    let d6 = d5.drop_first();
    lemma_fill_plain(z, seq![], d6);
    lemma_fill_placeholder(z, d5);
    lemma_fill_plain(b2, ph + z, d5);
    lemma_fill_placeholder(t6, d4);
    lemma_fill_plain(m, ph + t6, d4);
    lemma_fill_placeholder(t5, d3);
    lemma_fill_plain(b, ph + t5, d3);
    lemma_fill_placeholder(t4, d2);
    lemma_fill_plain(m, ph + t4, d2);
    lemma_fill_placeholder(t3, d1);
    lemma_fill_plain(b, ph + t3, d1);
    lemma_fill_placeholder(t2, d);
    lemma_fill_plain(a, ph + t2, d);
    assert(z + seq![] =~= z);
    assert(fill(z, d6) == z);
    assert(fill(t1, d) =~= prolog_points(d));
}

proof fn lemma_query(p: Seq<char>, rhs: Seq<char>)
    ensures
        fill_named(
            QUERY_TEMPLATE@,
            Map::empty().insert("lhs_obj"@, p).insert("rhs_point"@, rhs),
        ) == p + rhs,
{
    reveal_strlit("{{lhs_obj}}{{rhs_point}}");
    reveal_strlit("lhs_obj");
    reveal_strlit("rhs_point");
    let m = Map::empty().insert("lhs_obj"@, p).insert("rhs_point"@, rhs);
    let k1 = "lhs_obj"@;
    let k2 = "rhs_point"@;
    assert(k1.len() != k2.len());
    assert(m[k1] == p);
    assert(QUERY_TEMPLATE@ =~= placeholder(k1) + (placeholder(k2) + seq![]));
    lemma_fill_named_placeholder(k2, seq![], m);
    lemma_fill_named_placeholder(k1, placeholder(k2) + seq![], m);
    assert(p + (rhs + seq![]) =~= p + rhs);
}

/// One query line for each predicate of `ps`, in order.
pub open spec fn query_lines(ps: Seq<Seq<char>>, rhs: Seq<char>) -> Seq<char>
    decreases ps.len(),
{
    if ps.len() == 0 {
        seq![]
    } else {
        query_lines(ps.drop_last(), rhs) + query_line(ps.last(), rhs)
    }
}

/// The Prolog code for the coordinates `c`.
pub open spec fn prolog_text(c: Seq<u32>) -> Seq<char> {
    query_lines(predicate_names(), prolog_points(decimals(c))) + PROLOG_TRAILER@
}

/// The code for the coordinates `c` in the language `mode`.
pub open spec fn code_text(c: Seq<u32>, mode: OutputMode) -> Seq<char> {
    match mode {
        OutputMode::Scheme => scheme_text(c),
        OutputMode::Prolog => prolog_text(c),
    }
}

/// The number that a number token carries.
pub fn get_num(node: &Node) -> (r: u32)
    requires
        node.data is _NUM,
    ensures
        node.data@ == LexemeView::Num(r),
{
    match &node.data {
        Lexeme::_NUM(val) => *val,
        _ => 0,
    }
}

/// The decimal text of the six coordinates of a program.
fn coordinate_texts(tokens: &Vec<Node>) -> (r: Vec<String>)
    requires
        grammar_ok(kinds(tokens@)),
        all_wf(tokens@),
    ensures
        views(r@) == decimals(coordinates(lexemes(tokens@))),
{
    let positions: Vec<usize> = vec![4, 6, 13, 15, 22, 24];
    let ghost ls = lexemes(tokens@);
    let ghost want = decimals(coordinates(ls));
    let mut r: Vec<String> = Vec::new();
    let mut k: usize = 0;
    while k < positions.len()
        invariant
            positions@ == seq![4usize, 6, 13, 15, 22, 24],
            k <= 6,
            ls == lexemes(tokens@),
            want == decimals(coordinates(ls)),
            grammar_ok(kinds(tokens@)),
            all_wf(tokens@),
            views(r@) == want.take(k as int),
        decreases 6 - k,
    {
        let p = positions[k];
        assert(kinds(tokens@)[p as int] == crate::token::Token::NUM);
        assert(tokens@[p as int].wf());
        let v = get_num(&tokens[p]);
        let s = decimal(v);
        assert(coordinates(ls)[k as int] == v);
        assert(want[k as int] == s@);
        let ghost before = r@;
        r.push(s);
        assert(views(r@) =~= views(before).push(s@));
        assert(want.take(k as int + 1) =~= want.take(k as int).push(s@));
        k = k + 1;
    }
    assert(want.take(6) =~= want);
    r
}

/// The Scheme code for a program: one call of `calculate-triangle` on its three points.
pub fn scheme_code(tokens: &Vec<Node>) -> (r: String)
    requires
        grammar_ok(kinds(tokens@)),
        all_wf(tokens@),
    ensures
        r@ == scheme_text(coordinates(lexemes(tokens@))),
{
    let nums = coordinate_texts(tokens);
    let points = render_positional(SCHEME_POINTS, &nums);
    proof {
        lemma_scheme_points(views(nums@));
    }
    let mut out = String::from_str("(calculate-triangle ");
    out.append(points.as_str());
    out.append(")");
    out
}

/// The Prolog code for a program: a query of each geometric predicate on its three
/// points, then a `main` that runs every query and prints `yes` or `no`.
pub fn prolog_code(tokens: &Vec<Node>) -> (r: String)
    requires
        grammar_ok(kinds(tokens@)),
        all_wf(tokens@),
    ensures
        r@ == prolog_text(coordinates(lexemes(tokens@))),
{
    let nums = coordinate_texts(tokens);
    let rhs = render_positional(PROLOG_POINTS, &nums);
    proof {
        lemma_prolog_points(views(nums@));
    }
    let names: Vec<&str> = vec![
        "line",
        "triangle",
        "vertical",
        "horizontal",
        "equilateral",
        "isosceles",
        "right",
        "scalene",
        "acute",
        "obtuse",
    ];
    let ghost ps = predicate_names();
    assert(names@.map_values(|p: &str| p@) =~= ps);
    let mut out = String::new();
    let mut k: usize = 0;
    assert(ps.take(0) =~= seq![]);
    while k < names.len()
        invariant
            names@.len() == 10,
            ps == predicate_names(),
            names@.map_values(|p: &str| p@) == ps,
            k <= 10,
            out@ == query_lines(ps.take(k as int), rhs@),
        decreases 10 - k,
    {
        let name = names[k];
        assert(name@ == ps[k as int]);
        let q = render_named(QUERY_TEMPLATE, "lhs_obj", name, "rhs_point", rhs.as_str());
        proof {
            lemma_query(name@, rhs@);
        }
        out.append("query(");
        out.append(q.as_str());
        out.append(")\n");
        assert(ps.take(k as int + 1).drop_last() =~= ps.take(k as int));
        assert(out@ =~= query_lines(ps.take(k as int + 1), rhs@));
        k = k + 1;
    }
    assert(ps.take(10) =~= ps);
    out.append(PROLOG_TRAILER);
    out
}

/// The code for a program in the language `mode`.
pub fn generate(tokens: &Vec<Node>, mode: OutputMode) -> (r: String)
    requires
        grammar_ok(kinds(tokens@)),
        all_wf(tokens@),
    ensures
        r@ == code_text(coordinates(lexemes(tokens@)), mode),
{
    match mode {
        OutputMode::Scheme => scheme_code(tokens),
        OutputMode::Prolog => prolog_code(tokens),
    }
}

} // verus!
