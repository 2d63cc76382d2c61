//! Positional templates: `{}` placeholders numbered from zero, `{{` and `}}`
//! standing for literal braces.
use crate::jinja::{identifier_start, print_tag, simple_piece, simple_template};
use crate::text::{chars_of, decimal, lemma_decimal_digits, push_char, push_decimal};
use vstd::prelude::*;

verus! {

/// The template expression that the `k`-th placeholder becomes: `{{ _k }}`.
pub open spec fn placeholder(k: nat) -> Seq<char> {
    seq!['{', '{', ' ', '_'] + decimal(k) + seq![' ', '}', '}']
}

/// The name under which the `k`-th positional argument is passed: `_k`.
pub open spec fn argument_name(k: nat) -> Seq<char> {
    seq!['_'] + decimal(k)
}

/// The template text that renders as a literal `{`: the expression `{{ "{" }}`.
pub open spec fn literal_open_brace() -> Seq<char> {
    seq!['{', '{', ' ', '"', '{', '"', ' ', '}', '}']
}

/// The empty expression `{{ "" }}` that closes every rewritten template, so
/// that a line break at the end of the positional template is kept (the
/// template engine drops one at the very end of a template's source).
pub open spec fn end_guard() -> Seq<char> {
    seq!['{', '{', ' ', '"', '"', ' ', '}', '}']
}

/// The template text that the positional template `s` becomes when `k`
/// placeholders came before it. The input is read from the left: `{{` gives a
/// literal `{`, then `}}` gives `}`, then `{}` gives the next placeholder; any
/// other `{` is a literal `{` too, and any other character stays. Every
/// literal `{` is written as `{{ "{" }}`, so that no brace of the input can
/// open a tag of the template engine.
pub open spec fn named_template(s: Seq<char>, k: nat) -> Seq<char>
    decreases s.len(),
{
    if s.len() == 0 {
        seq![]
    } else if s.len() >= 2 && s[0] == '{' && s[1] == '{' {
        literal_open_brace() + named_template(s.skip(2), k)
    } else if s.len() >= 2 && s[0] == '}' && s[1] == '}' {
        seq!['}'] + named_template(s.skip(2), k)
    } else if s.len() >= 2 && s[0] == '{' && s[1] == '}' {
        placeholder(k) + named_template(s.skip(2), k + 1)
    } else if s[0] == '{' {
        literal_open_brace() + named_template(s.skip(1), k)
    } else {
        seq![s[0]] + named_template(s.skip(1), k)
    }
}

/// The template that the positional template `s` is rendered from.
pub open spec fn positional_template(s: Seq<char>) -> Seq<char> {
    named_template(s, 0) + end_guard()
}

/// The number of `{}` placeholders in `s`, read as `named_template` reads it.
pub open spec fn placeholder_count(s: Seq<char>) -> nat
    decreases s.len(),
{
    if s.len() == 0 {
        0
    } else if s.len() >= 2 && s[0] == '{' && s[1] == '{' {
        placeholder_count(s.skip(2))
    } else if s.len() >= 2 && s[0] == '}' && s[1] == '}' {
        placeholder_count(s.skip(2))
    } else if s.len() >= 2 && s[0] == '{' && s[1] == '}' {
        1 + placeholder_count(s.skip(2))
    } else {
        placeholder_count(s.skip(1))
    }
}

/// Rewrites the positional template `source` as a template with named
/// placeholders, and counts its placeholders.
pub fn to_named_template(source: &str) -> (r: (String, usize))
    ensures
        r.0@ == positional_template(source@),
        r.1 == placeholder_count(source@),
{
    let chars = chars_of(source);
    let n = chars.len();
    let mut out = String::new();
    let mut count: usize = 0;
    let mut i: usize = 0;
    assert(chars@.skip(0) =~= chars@);
    while i < n
        invariant
            n == chars@.len(),
            chars@ == source@,
            i <= n,
            count <= i,
            out@ + named_template(chars@.skip(i as int), count as nat) == named_template(chars@, 0),
            count + placeholder_count(chars@.skip(i as int)) == placeholder_count(chars@),
        decreases n - i,
    {
        let ghost rest = chars@.skip(i as int);
        let ghost before = out@;
        if i + 1 < n && chars[i] == '{' && chars[i + 1] == '{' {
            push_open_brace(&mut out);
            assert(rest.skip(2) =~= chars@.skip(i + 2));
            assert(out@ + named_template(rest.skip(2), count as nat) =~= before + named_template(rest, count as nat));
            i = i + 2;
        } else if i + 1 < n && chars[i] == '}' && chars[i + 1] == '}' {
            push_char(&mut out, '}');
            assert(rest.skip(2) =~= chars@.skip(i + 2));
            assert(out@ + named_template(rest.skip(2), count as nat) =~= before + named_template(rest, count as nat));
            i = i + 2;
        } else if i + 1 < n && chars[i] == '{' && chars[i + 1] == '}' {
            push_char(&mut out, '{');
            push_char(&mut out, '{');
            push_char(&mut out, ' ');
            push_char(&mut out, '_');
            push_decimal(&mut out, count as u64);
            push_char(&mut out, ' ');
            push_char(&mut out, '}');
            push_char(&mut out, '}');
            assert(out@ =~= before + placeholder(count as nat));
            assert(rest.skip(2) =~= chars@.skip(i + 2));
            assert(out@ + named_template(rest.skip(2), (count + 1) as nat) =~= before + named_template(rest, count as nat));
            count = count + 1;
            i = i + 2;
        } else if chars[i] == '{' {
            push_open_brace(&mut out);
            assert(rest.skip(1) =~= chars@.skip(i + 1));
            assert(out@ + named_template(rest.skip(1), count as nat) =~= before + named_template(rest, count as nat));
            i = i + 1;
        } else {
            push_char(&mut out, chars[i]);
            assert(rest.skip(1) =~= chars@.skip(i + 1));
            assert(out@ + named_template(rest.skip(1), count as nat) =~= before + named_template(rest, count as nat));
            i = i + 1;
        }
    }
    assert(chars@.skip(n as int) =~= Seq::<char>::empty());
    let ghost body = out@;
    push_char(&mut out, '{');
    push_char(&mut out, '{');
    push_char(&mut out, ' ');
    push_char(&mut out, '"');
    push_char(&mut out, '"');
    push_char(&mut out, ' ');
    push_char(&mut out, '}');
    push_char(&mut out, '}');
    assert(out@ =~= body + end_guard());
    (out, count)
}

/// Appends the literal-brace expression `{{ "{" }}`.
fn push_open_brace(out: &mut String)
    ensures
        final(out)@ == old(out)@ + literal_open_brace(),
{
    push_char(out, '{');
    push_char(out, '{');
    push_char(out, ' ');
    push_char(out, '"');
    push_char(out, '{');
    push_char(out, '"');
    push_char(out, ' ');
    push_char(out, '}');
    push_char(out, '}');
    assert(final(out)@ =~= old(out)@ + literal_open_brace());
}

/// A template without braces has no placeholders and is rendered from itself.
pub proof fn law_brace_free_template_unchanged(s: Seq<char>, k: nat)
    requires
        forall|i: int| 0 <= i < s.len() ==> #[trigger] s[i] != '{' && s[i] != '}',
    ensures
        named_template(s, k) == s,
        placeholder_count(s) == 0,
    decreases s.len(),
{
    if s.len() > 0 {
        law_brace_free_template_unchanged(s.skip(1), k);
        assert(seq![s[0]] + s.skip(1) =~= s);
    }
}

/// `{{` and `}}` stand for literal braces: `{{` becomes the literal-brace
/// expression, `}}` one `}`, and neither numbers a placeholder.
pub proof fn law_escaped_braces(s: Seq<char>, k: nat)
    ensures
        named_template(seq!['{', '{'] + s, k) == literal_open_brace() + named_template(s, k),
        named_template(seq!['}', '}'] + s, k) == seq!['}'] + named_template(s, k),
        placeholder_count(seq!['{', '{'] + s) == placeholder_count(s),
        placeholder_count(seq!['}', '}'] + s) == placeholder_count(s),
{
    assert((seq!['{', '{'] + s).skip(2) =~= s);
    assert((seq!['}', '}'] + s).skip(2) =~= s);
}

/// A `{` that is neither `{{` nor `{}` is a literal `{` as well.
pub proof fn law_lone_open_brace(s: Seq<char>, k: nat)
    requires
        s.len() == 0 || (s[0] != '{' && s[0] != '}'),
    ensures
        named_template(seq!['{'] + s, k) == literal_open_brace() + named_template(s, k),
        placeholder_count(seq!['{'] + s) == placeholder_count(s),
{
    assert((seq!['{'] + s).skip(1) =~= s);
}

/// Position `i` of `t` holds no `{`, or one followed by `{`, a space or `"`.
pub open spec fn brace_opens_expression(t: Seq<char>, i: int) -> bool {
    t[i] == '{' ==> i + 1 < t.len() && (t[i + 1] == '{' || t[i + 1] == ' ' || t[i + 1] == '"')
}

/// Every `{` of `t` is followed by `{`, a space or `"`: no `{%` or `{#` tag
/// and no `{` at the end.
pub open spec fn braces_open_expressions_only(t: Seq<char>) -> bool {
    forall|i: int| 0 <= i < t.len() ==> #[trigger] brace_opens_expression(t, i)
}

proof fn lemma_braces_concat(a: Seq<char>, b: Seq<char>)
    requires
        braces_open_expressions_only(a),
        braces_open_expressions_only(b),
    ensures
        braces_open_expressions_only(a + b),
{
    let t = a + b;
    assert forall|i: int| 0 <= i < t.len() implies #[trigger] brace_opens_expression(t, i) by {
        if i < a.len() {
            assert(brace_opens_expression(a, i));
            assert(t[i] == a[i]);
            if i + 1 < a.len() {
                assert(t[i + 1] == a[i + 1]);
            }
        } else {
            assert(brace_opens_expression(b, i - a.len()));
            assert(t[i] == b[i - a.len()]);
            if i + 1 < t.len() {
                assert(t[i + 1] == b[i - a.len() + 1]);
            }
        }
    }
}

proof fn lemma_braces_named(s: Seq<char>, k: nat)
    ensures
        braces_open_expressions_only(named_template(s, k)),
    decreases s.len(),
{
    if s.len() > 0 {
        let d = decimal(k);
        assert forall|i: int| 0 <= i < d.len() implies #[trigger] d[i] != '{' by {
            lemma_decimal_digits(k, i);
        }
        let p = placeholder(k);
        assert forall|i: int| 0 <= i < p.len() implies #[trigger] brace_opens_expression(p, i) by {
            if 4 <= i < 4 + d.len() {
                assert(p[i] == d[i - 4]);
            } else if i >= 4 + d.len() {
                assert(p[i] == seq![' ', '}', '}'][i - 4 - d.len()]);
            }
        }
        let l = literal_open_brace();
        assert forall|i: int| 0 <= i < l.len() implies #[trigger] brace_opens_expression(l, i) by {}
        assert forall|i: int| 0 <= i < 1 implies #[trigger] brace_opens_expression(seq!['}'], i) by {}
        if s.len() >= 2 && s[0] == '{' && s[1] == '{' {
            lemma_braces_named(s.skip(2), k);
            lemma_braces_concat(l, named_template(s.skip(2), k));
        } else if s.len() >= 2 && s[0] == '}' && s[1] == '}' {
            lemma_braces_named(s.skip(2), k);
            lemma_braces_concat(seq!['}'], named_template(s.skip(2), k));
        } else if s.len() >= 2 && s[0] == '{' && s[1] == '}' {
            lemma_braces_named(s.skip(2), k + 1);
            lemma_braces_concat(p, named_template(s.skip(2), k + 1));
        } else if s[0] == '{' {
            lemma_braces_named(s.skip(1), k);
            lemma_braces_concat(l, named_template(s.skip(1), k));
        } else {
            assert forall|i: int| 0 <= i < 1 implies #[trigger] brace_opens_expression(seq![s[0]], i) by {}
            lemma_braces_named(s.skip(1), k);
            lemma_braces_concat(seq![s[0]], named_template(s.skip(1), k));
        }
    }
}

/// No brace of a positional template can open a tag of the template engine:
/// every `{` of the rewritten template starts one of the generated `{{ ... }}`
/// expressions, and none is followed by `%` or `#`.
pub proof fn law_no_stray_tags(s: Seq<char>)
    ensures
        braces_open_expressions_only(positional_template(s)),
{
    lemma_braces_named(s, 0);
    let g = end_guard();
    assert forall|i: int| 0 <= i < g.len() implies #[trigger] brace_opens_expression(g, i) by {}
    lemma_braces_concat(named_template(s, 0), end_guard());
}

/// Each `{}` becomes one placeholder: the rewritten template of `{}` followed
/// by `s` is the `k`-th placeholder followed by the rest, numbered from `k + 1`.
pub proof fn law_placeholder_numbering(s: Seq<char>, k: nat)
    ensures
        named_template(seq!['{', '}'] + s, k) == placeholder(k) + named_template(s, k + 1),
        placeholder_count(seq!['{', '}'] + s) == 1 + placeholder_count(s),
{
    assert((seq!['{', '}'] + s).skip(2) =~= s);
}

/// The pieces `named_template(s, k)` is made of, in order.
pub open spec fn named_pieces(s: Seq<char>, k: nat) -> Seq<Seq<char>>
    decreases s.len(),
{
    if s.len() == 0 {
        seq![]
    } else if s.len() >= 2 && s[0] == '{' && s[1] == '{' {
        seq![literal_open_brace()] + named_pieces(s.skip(2), k)
    } else if s.len() >= 2 && s[0] == '}' && s[1] == '}' {
        seq![seq!['}']] + named_pieces(s.skip(2), k)
    } else if s.len() >= 2 && s[0] == '{' && s[1] == '}' {
        seq![placeholder(k)] + named_pieces(s.skip(2), k + 1)
    } else if s[0] == '{' {
        seq![literal_open_brace()] + named_pieces(s.skip(1), k)
    } else {
        seq![seq![s[0]]] + named_pieces(s.skip(1), k)
    }
}

proof fn lemma_flatten_prepend(p: Seq<char>, rest: Seq<Seq<char>>)
    ensures
        (seq![p] + rest).flatten() == p + rest.flatten(),
{
    let all = seq![p] + rest;
    assert(all.first() == p);
    assert(all.drop_first() =~= rest);
}

proof fn lemma_named_pieces(s: Seq<char>, k: nat)
    ensures
        named_pieces(s, k).flatten() == named_template(s, k),
        forall|i: int| 0 <= i < named_pieces(s, k).len() ==> #[trigger] simple_piece(named_pieces(s, k)[i]),
    decreases s.len(),
{
    if s.len() > 0 {
        let l = literal_open_brace();
        assert(l.subrange(3, l.len() - 3) =~= seq!['"', '{', '"']);
        assert(print_tag(seq!['"', '{', '"']) =~= l);
        let p = placeholder(k);
        let x = seq!['_'] + decimal(k);
        assert(p.subrange(3, p.len() - 3) =~= x);
        assert(print_tag(x) =~= p);
        assert forall|i: int| 0 <= i < x.len() implies identifier_start(#[trigger] x[i]) || ('0' <= x[i] && x[i] <= '9') by {
            if i > 0 {
                assert(x[i] == decimal(k)[i - 1]);
                lemma_decimal_digits(k, i - 1);
            }
        }
        assert(simple_piece(l));
        assert(simple_piece(p));
        assert(simple_piece(seq!['}']));
        let (piece, rest_s, k2) = if s.len() >= 2 && s[0] == '{' && s[1] == '{' {
            (l, s.skip(2), k)
        } else if s.len() >= 2 && s[0] == '}' && s[1] == '}' {
            (seq!['}'], s.skip(2), k)
        } else if s.len() >= 2 && s[0] == '{' && s[1] == '}' {
            (p, s.skip(2), k + 1)
        } else if s[0] == '{' {
            (l, s.skip(1), k)
        } else {
            (seq![s[0]], s.skip(1), k)
        };
        assert(simple_piece(piece));
        lemma_named_pieces(rest_s, k2);
        lemma_flatten_prepend(piece, named_pieces(rest_s, k2));
        assert(named_pieces(s, k) == seq![piece] + named_pieces(rest_s, k2));
        assert(named_template(s, k) == piece + named_template(rest_s, k2));
        let all = named_pieces(s, k);
        assert forall|i: int| 0 <= i < all.len() implies #[trigger] simple_piece(all[i]) by {
            if i > 0 {
                assert(all[i] == named_pieces(rest_s, k2)[i - 1]);
            }
        }
    }
}

/// Every positional template text is a simple template.
pub proof fn lemma_positional_is_simple(s: Seq<char>)
    ensures
        simple_template(positional_template(s)),
{
    lemma_named_pieces(s, 0);
    let pieces = named_pieces(s, 0);
    let g = end_guard();
    assert(g.subrange(3, g.len() - 3) =~= seq!['"', '"']);
    assert(print_tag(seq!['"', '"']) =~= g);
    assert(simple_piece(g));
    pieces.lemma_flatten_push(g);
    let all = pieces.push(g);
    assert forall|i: int| 0 <= i < all.len() implies #[trigger] simple_piece(all[i]) by {
        if i < pieces.len() {
            assert(all[i] == pieces[i]);
        }
    }
    assert(positional_template(s) == all.flatten());
}

} // verus!
