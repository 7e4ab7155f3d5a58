use vstd::prelude::*;

verus! {

/// The first position at or after `i` that holds `}`, or the length of `t`.
pub open spec fn close_index(t: Seq<char>, i: int) -> int
    decreases t.len() - i,
{
    if i < 0 || i >= t.len() || t[i] == '}' {
        i
    } else {
        close_index(t, i + 1)
    }
}

/// The length of the placeholder `{{name}}` (a name without `}`) that starts `t`, if
/// one does.
pub open spec fn placeholder_len(t: Seq<char>) -> Option<int> {
    if t.len() >= 2 && t[0] == '{' && t[1] == '{' {
        let j = close_index(t, 2);
        if j + 1 < t.len() && t[j + 1] == '}' {
            Some(j + 2)
        } else {
            None
        }
    } else {
        None
    }
}

pub proof fn lemma_close_index(t: Seq<char>, i: int)
    requires
        0 <= i <= t.len(),
    ensures
        i <= close_index(t, i) <= t.len(),
    decreases t.len() - i,
{
    if i < t.len() && t[i] != '}' {
        lemma_close_index(t, i + 1);
    }
}

#[via_fn]
proof fn fill_decreases(t: Seq<char>, vals: Seq<Seq<char>>) {
    if t.len() >= 2 {
        lemma_close_index(t, 2);
    }
}

#[via_fn]
proof fn fill_named_decreases(t: Seq<char>, m: Map<Seq<char>, Seq<char>>) {
    if t.len() >= 2 {
        lemma_close_index(t, 2);
    }
}

/// `t` with its placeholders, left to right, replaced by `vals` in order; once
/// `vals` runs out the rest of `t` is kept as it is.
pub open spec fn fill(t: Seq<char>, vals: Seq<Seq<char>>) -> Seq<char>
    decreases t.len()
        via fill_decreases
{
    if t.len() == 0 {
        seq![]
    } else if placeholder_len(t) is Some && vals.len() > 0 {
        vals[0] + fill(t.skip(placeholder_len(t)->0), vals.drop_first())
    } else {
        seq![t[0]] + fill(t.skip(1), vals)
    }
}

/// `t` with each placeholder `{{name}}` whose name `m` holds replaced by its value;
/// other placeholders are kept as they are.
pub open spec fn fill_named(t: Seq<char>, m: Map<Seq<char>, Seq<char>>) -> Seq<char>
    decreases t.len()
        via fill_named_decreases
{
    if t.len() == 0 {
        seq![]
    } else if placeholder_len(t) is Some {
        let n = placeholder_len(t)->0;
        let name = t.subrange(2, n - 2);
        if m.contains_key(name) {
            m[name] + fill_named(t.skip(n), m)
        } else {
            t.take(n) + fill_named(t.skip(n), m)
        }
    } else {
        seq![t[0]] + fill_named(t.skip(1), m)
    }
}

/// Text without an opening brace starts no placeholder.
pub open spec fn no_open_brace(p: Seq<char>) -> bool {
    forall|i: int| 0 <= i < p.len() ==> #[trigger] p[i] != '{'
}

proof fn lemma_close_index_at(t: Seq<char>, i: int, j: int)
    requires
        0 <= i <= j < t.len(),
        t[j] == '}',
        forall|k: int| i <= k < j ==> #[trigger] t[k] != '}',
    ensures
        close_index(t, i) == j,
    decreases j - i,
{
    if i < j {
        lemma_close_index_at(t, i + 1, j);
    }
}

/// Text with no opening brace in front of a template is copied as it is.
pub proof fn lemma_fill_plain(p: Seq<char>, rest: Seq<char>, vals: Seq<Seq<char>>)
    requires
        no_open_brace(p),
    ensures
        fill(p + rest, vals) == p + fill(rest, vals),
    decreases p.len(),
{
    if p.len() == 0 {
        assert(p + rest =~= rest);
    } else {
        let t = p + rest;
        assert(t[0] == p[0]);
        assert(t.skip(1) =~= p.drop_first() + rest);
        lemma_fill_plain(p.drop_first(), rest, vals);
        assert(seq![p[0]] + (p.drop_first() + fill(rest, vals)) =~= p + fill(rest, vals));
    }
}

/// The same for named placeholders.
pub proof fn lemma_fill_named_plain(p: Seq<char>, rest: Seq<char>, m: Map<Seq<char>, Seq<char>>)
    requires
        no_open_brace(p),
    ensures
        fill_named(p + rest, m) == p + fill_named(rest, m),
    decreases p.len(),
{
    if p.len() == 0 {
        assert(p + rest =~= rest);
    } else {
        let t = p + rest;
        assert(t[0] == p[0]);
        assert(t.skip(1) =~= p.drop_first() + rest);
        lemma_fill_named_plain(p.drop_first(), rest, m);
        assert(seq![p[0]] + (p.drop_first() + fill_named(rest, m)) =~= p + fill_named(rest, m));
    }
}

/// The placeholder `{{name}}`, for a name without a closing brace.
pub open spec fn placeholder(name: Seq<char>) -> Seq<char> {
    seq!['{', '{'] + name + seq!['}', '}']
}

proof fn lemma_placeholder_len(name: Seq<char>, rest: Seq<char>)
    requires
        forall|i: int| 0 <= i < name.len() ==> #[trigger] name[i] != '}',
    ensures
        placeholder_len(placeholder(name) + rest) == Some(name.len() + 4int),
        (placeholder(name) + rest).skip(name.len() + 4int) == rest,
        (placeholder(name) + rest).subrange(2, name.len() + 2int) == name,
{
    let t = placeholder(name) + rest;
    let j = name.len() + 2int;
    assert forall|k: int| 2 <= k < j implies #[trigger] t[k] != '}' by {
        assert(t[k] == name[k - 2]);
    }
    assert(t[j] == '}' && t[j + 1] == '}');
    lemma_close_index_at(t, 2, j);
    assert(t.skip(name.len() + 4int) =~= rest);
    assert(t.subrange(2, j) =~= name);
}

/// A positional placeholder takes the next value.
pub proof fn lemma_fill_placeholder(rest: Seq<char>, vals: Seq<Seq<char>>)
    requires
        vals.len() > 0,
    ensures
        fill(placeholder(seq![]) + rest, vals) == vals[0] + fill(rest, vals.drop_first()),
{
    lemma_placeholder_len(seq![], rest);
}

/// A named placeholder whose name the map holds takes its value.
pub proof fn lemma_fill_named_placeholder(
    name: Seq<char>,
    rest: Seq<char>,
    m: Map<Seq<char>, Seq<char>>,
)
    requires
        forall|i: int| 0 <= i < name.len() ==> #[trigger] name[i] != '}',
        m.contains_key(name),
    ensures
        fill_named(placeholder(name) + rest, m) == m[name] + fill_named(rest, m),
{
    lemma_placeholder_len(name, rest);
}

pub open spec fn views(vals: Seq<String>) -> Seq<Seq<char>> {
    vals.map_values(|v: String| v@)
}

/// Relies on `string_template::Template::new` and `Template::render_positional`:
/// the placeholders, found left to right by the pattern `\{\{([^}]*)\}\}`, are
/// replaced by the values in order; text after the last one used is copied.
#[verifier::external_body]
pub(crate) fn render_positional(template: &str, vals: &Vec<String>) -> (r: String)
    ensures
        vals@.len() > 0 ==> r@ == fill(template@, views(vals@)),
{
    let refs: Vec<&str> = vals.iter().map(|v| v.as_str()).collect();
    string_template::Template::new(template).render_positional(&refs)
}

/// Relies on `string_template::Template::new` and `Template::render`: each
/// placeholder whose name is a key of the map is replaced by its value, the
/// others are copied. The map is built by inserting `k1` and then `k2`.
#[verifier::external_body]
pub(crate) fn render_named(template: &str, k1: &str, v1: &str, k2: &str, v2: &str) -> (r:
    String)
    ensures
        r@ == fill_named(template@, Map::empty().insert(k1@, v1@).insert(k2@, v2@)),
{
    let mut vals = std::collections::HashMap::new();
    vals.insert(k1, v1);
    vals.insert(k2, v2);
    string_template::Template::new(template).render(&vals)
}

} // verus!
