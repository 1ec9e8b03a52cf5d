//! Placeholders in rendered SQL text.
//!
//! The clause compiler keeps placeholders as segments; the statement gets
//! them as text, `$` and a decimal index. This module reads the placeholders
//! back out of a text and proves that, for the clause of a filter node whose
//! field names hold no `$`, what is read back is `$1, $2, .., $N` in this
//! order, one for each of the `N` parameters.

use vstd::prelude::*;
use crate::clause::{
    atom, conj, lemma_render_concat, lemma_slots_concat, numbering, paren, piece_text, render,
    shift, slots, Clause, Piece,
};
use crate::filter::{
    and_sep, compiled, group, int_param, lemma_compiled_well_formed, or_sep, pattern_param,
    text_param, where_text, with_condition, with_field, with_fields, FieldView, FilterNodeView,
    PredicateView,
};
use crate::text::{all_digits, decimal, is_digit, lemma_decimal, number};
use crate::value::Value;

verus! {

/// The length of the longest run of decimal digits at the start of `s`.
pub open spec fn digits_len(s: Seq<char>) -> nat
    decreases s.len(),
{
    if s.len() > 0 && is_digit(s[0]) {
        1 + digits_len(s.drop_first())
    } else {
        0
    }
}

/// The indices of the placeholders of a text, in order of occurrence: each
/// `$` with the number that the digits behind it denote.
pub open spec fn placeholders(s: Seq<char>) -> Seq<nat>
    decreases s.len(),
{
    if s.len() == 0 {
        Seq::empty()
    } else if s[0] == '$' {
        let n = digits_len(s.drop_first()) as int;
        seq![number(s.subrange(1, 1 + n))] + placeholders(s.drop_first())
    } else {
        placeholders(s.drop_first())
    }
}

/// Whether `s` holds no `$`.
pub open spec fn no_dollar(s: Seq<char>) -> bool {
    forall|i: int| 0 <= i < s.len() ==> #[trigger] s[i] != '$'
}

/// Whether `s` is not empty and does not start with a digit, so that it ends
/// a placeholder that stands before it.
pub open spec fn ends_number(s: Seq<char>) -> bool {
    s.len() > 0 && !is_digit(s[0])
}

/// A text piece without `$`, or a placeholder.
pub open spec fn calm(p: Piece) -> bool {
    p is Text ==> no_dollar(p->Text_0)
}

/// A text piece that ends the placeholder before it.
pub open spec fn closes(p: Piece) -> bool {
    p is Text && ends_number(p->Text_0)
}

/// A template whose text reads back unambiguously: no text piece holds `$`,
/// and every placeholder is the last piece or is followed by a text piece
/// that does not start with a digit.
pub open spec fn quiet(pieces: Seq<Piece>) -> bool {
    &&& forall|i: int| 0 <= i < pieces.len() ==> calm(#[trigger] pieces[i])
    &&& forall|i: int|
        0 <= i < pieces.len() - 1 && (#[trigger] pieces[i]) is Param ==> closes(pieces[i + 1])
}

/// Digits followed by something that is no digit are read as a whole.
proof fn lemma_digits_len(d: Seq<char>, r: Seq<char>)
    requires
        all_digits(d),
        r.len() == 0 || !is_digit(r[0]),
    ensures
        digits_len(d + r) == d.len(),
    decreases d.len(),
{
    if d.len() == 0 {
        assert(d + r =~= r);
    } else {
        assert((d + r)[0] == d[0]);
        assert((d + r).drop_first() =~= d.drop_first() + r);
        assert forall|i: int| 0 <= i < d.drop_first().len() implies is_digit(
            #[trigger] d.drop_first()[i],
        ) by {
            assert(d.drop_first()[i] == d[i + 1]);
        }
        lemma_digits_len(d.drop_first(), r);
    }
}

/// Text without `$` before a text adds no placeholder.
proof fn lemma_skip_text(t: Seq<char>, r: Seq<char>)
    requires
        no_dollar(t),
    ensures
        placeholders(t + r) == placeholders(r),
    decreases t.len(),
{
    if t.len() == 0 {
        assert(t + r =~= r);
    } else {
        assert((t + r)[0] == t[0]);
        assert((t + r).drop_first() =~= t.drop_first() + r);
        assert forall|i: int| 0 <= i < t.drop_first().len() implies #[trigger] t.drop_first()[i]
            != '$' by {
            assert(t.drop_first()[i] == t[i + 1]);
        }
        lemma_skip_text(t.drop_first(), r);
    }
}

/// A rendered placeholder before a text that ends it is read back as its
/// index.
proof fn lemma_read_placeholder(k: nat, r: Seq<char>)
    requires
        r.len() == 0 || !is_digit(r[0]),
    ensures
        placeholders(piece_text(Piece::Param(k)) + r) == seq![k] + placeholders(r),
{
    let d = decimal(k);
    let s = piece_text(Piece::Param(k)) + r;
    lemma_decimal(k);
    assert(s[0] == '$');
    assert(s.drop_first() =~= d + r);
    lemma_digits_len(d, r);
    let n = digits_len(s.drop_first()) as int;
    assert(s.subrange(1, 1 + n) =~= d);
    assert forall|i: int| 0 <= i < d.len() implies #[trigger] d[i] != '$' by {
        assert(is_digit(d[i]));
    }
    lemma_skip_text(d, r);
}

/// The text of a template starts with the text of its first piece.
proof fn lemma_render_first(pieces: Seq<Piece>)
    requires
        pieces.len() > 0,
    ensures
        render(pieces) == piece_text(pieces[0]) + render(pieces.drop_first()),
        slots(pieces) == slots(seq![pieces[0]]) + slots(pieces.drop_first()),
{
    let head = seq![pieces[0]];
    assert(pieces =~= head + pieces.drop_first());
    lemma_render_concat(head, pieces.drop_first());
    lemma_slots_concat(head, pieces.drop_first());
    assert(head.drop_last() =~= Seq::<Piece>::empty());
    assert(render(head.drop_last()) =~= Seq::<char>::empty());
    assert(render(head) =~= piece_text(pieces[0]));
}

/// Reading the placeholders back from the text of a quiet template gives
/// the placeholders of the template, in order.
pub proof fn lemma_placeholders_of_render(pieces: Seq<Piece>)
    requires
        quiet(pieces),
    ensures
        placeholders(render(pieces)) == slots(pieces),
    decreases pieces.len(),
{
    if pieces.len() == 0 {
    } else {
        let rest = pieces.drop_first();
        assert forall|i: int| 0 <= i < rest.len() implies calm(#[trigger] rest[i]) by {
            assert(rest[i] == pieces[i + 1]);
        }
        assert forall|i: int| 0 <= i < rest.len() - 1 && (#[trigger] rest[i]) is Param implies closes(
            rest[i + 1],
        ) by {
            assert(rest[i] == pieces[i + 1]);
            assert(rest[i + 1] == pieces[i + 2]);
        }
        lemma_placeholders_of_render(rest);
        lemma_render_first(pieces);
        let head = seq![pieces[0]];
        assert(head.drop_last() =~= Seq::<Piece>::empty());
        assert(slots(head.drop_last()) =~= Seq::<nat>::empty());
        match pieces[0] {
            Piece::Text(t) => {
                assert(calm(pieces[0]));
                lemma_skip_text(t, render(rest));
                assert(slots(head) =~= Seq::<nat>::empty());
                assert(slots(head) + slots(rest) =~= slots(rest));
            },
            Piece::Param(k) => {
                if rest.len() > 0 {
                    assert(closes(pieces[1]));
                    assert(rest[0] == pieces[1]);
                    lemma_render_first(rest);
                    assert(render(rest)[0] == rest[0]->Text_0[0]);
                }
                lemma_read_placeholder(k, render(rest));
                assert(slots(head) =~= seq![k]);
            },
        }
    }
}

/// Two quiet templates in a row are quiet, where the second ends a
/// placeholder at the end of the first.
proof fn lemma_quiet_concat(a: Seq<Piece>, b: Seq<Piece>)
    requires
        quiet(a),
        quiet(b),
        a.len() > 0 && a.last() is Param && b.len() > 0 ==> closes(b[0]),
    ensures
        quiet(a + b),
{
    let c = a + b;
    assert forall|i: int| 0 <= i < c.len() implies calm(#[trigger] c[i]) by {
        if i < a.len() {
            assert(c[i] == a[i]);
        } else {
            assert(c[i] == b[i - a.len()]);
        }
    }
    assert forall|i: int| 0 <= i < c.len() - 1 && (#[trigger] c[i]) is Param implies closes(
        c[i + 1],
    ) by {
        if i < a.len() - 1 {
            assert(c[i] == a[i]);
            assert(c[i + 1] == a[i + 1]);
        } else if i == a.len() - 1 {
            assert(c[i] == a.last());
            assert(c[i + 1] == b[0]);
        } else {
            assert(c[i] == b[i - a.len()]);
            assert(c[i + 1] == b[i - a.len() + 1]);
        }
    }
}

/// Renumbering keeps a template quiet.
proof fn lemma_quiet_shift(pieces: Seq<Piece>, by: nat)
    requires
        quiet(pieces),
    ensures
        quiet(shift(pieces, by)),
{
    let s = shift(pieces, by);
    assert forall|i: int| 0 <= i < s.len() implies calm(#[trigger] s[i]) by {
        assert(calm(pieces[i]));
    }
    assert forall|i: int| 0 <= i < s.len() - 1 && (#[trigger] s[i]) is Param implies closes(
        s[i + 1],
    ) by {
        assert(pieces[i] is Param);
        assert(closes(pieces[i + 1]));
    }
}

/// A single text piece without `$` is a quiet template.
proof fn lemma_quiet_text(t: Seq<char>)
    requires
        no_dollar(t),
    ensures
        quiet(seq![Piece::Text(t)]),
{
}

/// A separator: text without `$` that ends a placeholder before it.
pub open spec fn separates(sep: Seq<char>) -> bool {
    no_dollar(sep) && ends_number(sep)
}

/// Joining two quiet clauses by a separator gives a quiet clause.
proof fn lemma_quiet_conj(a: Clause, sep: Seq<char>, b: Clause)
    requires
        quiet(a.pieces),
        quiet(b.pieces),
        separates(sep),
    ensures
        quiet(conj(a, sep, b).pieces),
{
    if !a.is_empty() && !b.is_empty() {
        let mid = seq![Piece::Text(sep)];
        lemma_quiet_text(sep);
        lemma_quiet_concat(a.pieces, mid);
        lemma_quiet_shift(b.pieces, a.params.len());
        assert((a.pieces + mid).last() == mid[0]);
        lemma_quiet_concat(a.pieces + mid, shift(b.pieces, a.params.len()));
    }
}

/// Parentheses keep a clause quiet.
proof fn lemma_quiet_paren(c: Clause)
    requires
        quiet(c.pieces),
    ensures
        quiet(paren(c).pieces),
{
    if !c.is_empty() {
        reveal_strlit("(");
        reveal_strlit(")");
        let open = seq![Piece::Text("("@)];
        let close = seq![Piece::Text(")"@)];
        lemma_quiet_text("("@);
        lemma_quiet_text(")"@);
        assert(open.last() == open[0]);
        lemma_quiet_concat(open, c.pieces);
        lemma_quiet_concat(open + c.pieces, close);
    }
}

/// The separators of the compiler separate.
proof fn lemma_separators()
    ensures
        separates(and_sep()),
        separates(or_sep()),
{
    reveal_strlit(" AND ");
    reveal_strlit(" OR ");
}

/// Whether `op` is one of the comparison operators of the compiler, with the
/// blanks around it.
pub open spec fn is_operator(op: Seq<char>) -> bool {
    ||| op == " = "@
    ||| op == " > "@
    ||| op == " < "@
    ||| op == " >= "@
    ||| op == " <= "@
    ||| op == " LIKE "@
    ||| op == " ILIKE "@
}

/// The operators hold no `$`.
proof fn lemma_operator(op: Seq<char>)
    requires
        is_operator(op),
    ensures
        no_dollar(op),
{
    reveal_strlit(" = ");
    reveal_strlit(" > ");
    reveal_strlit(" < ");
    reveal_strlit(" >= ");
    reveal_strlit(" <= ");
    reveal_strlit(" LIKE ");
    reveal_strlit(" ILIKE ");
}

/// A condition on a field whose name holds no `$` keeps a clause quiet.
proof fn lemma_quiet_condition(acc: Clause, name: Seq<char>, op: Seq<char>, value: Option<Value>)
    requires
        quiet(acc.pieces),
        no_dollar(name),
        is_operator(op),
    ensures
        quiet(with_condition(acc, name, op, value).pieces),
{
    if let Some(v) = value {
        lemma_operator(op);
        lemma_separators();
        let text = name + op;
        assert forall|i: int| 0 <= i < text.len() implies #[trigger] text[i] != '$' by {
            if i < name.len() {
                assert(text[i] == name[i]);
            } else {
                assert(text[i] == op[i - name.len()]);
            }
        }
        let a = atom(text, v);
        assert(quiet(a.pieces));
        lemma_quiet_conj(acc, and_sep(), a);
    }
}

/// The conditions of a field whose name holds no `$` keep a clause quiet.
proof fn lemma_quiet_field(acc: Clause, field: FieldView)
    requires
        quiet(acc.pieces),
        no_dollar(field.name),
    ensures
        quiet(with_field(acc, field).pieces),
{
    let name = field.name;
    match field.predicate {
        PredicateView::Int(f) => {
            let c1 = with_condition(acc, name, " = "@, int_param(f.equals));
            let c2 = with_condition(c1, name, " > "@, int_param(f.gt));
            let c3 = with_condition(c2, name, " < "@, int_param(f.lt));
            let c4 = with_condition(c3, name, " >= "@, int_param(f.gte));
            lemma_quiet_condition(acc, name, " = "@, int_param(f.equals));
            lemma_quiet_condition(c1, name, " > "@, int_param(f.gt));
            lemma_quiet_condition(c2, name, " < "@, int_param(f.lt));
            lemma_quiet_condition(c3, name, " >= "@, int_param(f.gte));
            lemma_quiet_condition(c4, name, " <= "@, int_param(f.lte));
        },
        PredicateView::Text(f) => {
            let contains = pattern_param("%"@, f.contains, "%"@);
            let starts_with = pattern_param(Seq::empty(), f.starts_with, "%"@);
            let ends_with = pattern_param("%"@, f.ends_with, Seq::empty());
            let insensitive = pattern_param("%"@, f.contains_insensitive, "%"@);
            let c1 = with_condition(acc, name, " = "@, text_param(f.equals));
            let c2 = with_condition(c1, name, " LIKE "@, contains);
            let c3 = with_condition(c2, name, " LIKE "@, starts_with);
            let c4 = with_condition(c3, name, " LIKE "@, ends_with);
            lemma_quiet_condition(acc, name, " = "@, text_param(f.equals));
            lemma_quiet_condition(c1, name, " LIKE "@, contains);
            lemma_quiet_condition(c2, name, " LIKE "@, starts_with);
            lemma_quiet_condition(c3, name, " LIKE "@, ends_with);
            lemma_quiet_condition(c4, name, " ILIKE "@, insensitive);
        },
    }
}

/// Whether no name among `fields` holds a `$`.
pub open spec fn plain_fields(fields: Seq<FieldView>) -> bool {
    forall|i: int| 0 <= i < fields.len() ==> no_dollar(#[trigger] fields[i].name)
}

/// The conditions of fields whose names hold no `$` keep a clause quiet.
proof fn lemma_quiet_fields(acc: Clause, fields: Seq<FieldView>)
    requires
        quiet(acc.pieces),
        plain_fields(fields),
    ensures
        quiet(with_fields(acc, fields).pieces),
    decreases fields.len(),
{
    if fields.len() > 0 {
        assert forall|i: int| 0 <= i < fields.drop_last().len() implies no_dollar(
            #[trigger] fields.drop_last()[i].name,
        ) by {
            assert(fields.drop_last()[i] == fields[i]);
        }
        lemma_quiet_fields(acc, fields.drop_last());
        assert(no_dollar(fields[fields.len() - 1].name));
        lemma_quiet_field(with_fields(acc, fields.drop_last()), fields.last());
    }
}

/// Whether no field name of the node, at any depth, holds a `$`.
pub open spec fn plain_names(node: FilterNodeView) -> bool
    decreases node,
{
    &&& plain_fields(node.fields)
    &&& match node.and {
        Some(children) => all_plain_names(children),
        None => true,
    }
    &&& match node.or {
        Some(children) => all_plain_names(children),
        None => true,
    }
}

/// Whether no field name of any of the nodes, at any depth, holds a `$`.
pub open spec fn all_plain_names(children: Seq<FilterNodeView>) -> bool
    decreases children,
{
    if children.len() == 0 {
        true
    } else {
        all_plain_names(children.drop_last()) && plain_names(children.last())
    }
}

/// The clause of a node whose field names hold no `$` is quiet.
pub proof fn lemma_compiled_quiet(node: FilterNodeView)
    requires
        plain_names(node),
    ensures
        quiet(compiled(node).pieces),
    decreases node,
{
    lemma_separators();
    let scalar = with_fields(Clause::empty(), node.fields);
    lemma_quiet_fields(Clause::empty(), node.fields);
    let with_and = match node.and {
        Some(children) => conj(scalar, and_sep(), group(children, and_sep())),
        None => scalar,
    };
    if let Some(children) = node.and {
        lemma_group_quiet(children, and_sep());
        lemma_quiet_conj(scalar, and_sep(), group(children, and_sep()));
    }
    if let Some(children) = node.or {
        lemma_group_quiet(children, or_sep());
        lemma_quiet_conj(with_and, and_sep(), group(children, or_sep()));
    }
}

/// The clause of a list of nodes whose field names hold no `$` is quiet.
pub proof fn lemma_group_quiet(children: Seq<FilterNodeView>, sep: Seq<char>)
    requires
        all_plain_names(children),
        separates(sep),
    ensures
        quiet(group(children, sep).pieces),
    decreases children,
{
    if children.len() > 0 {
        lemma_group_quiet(children.drop_last(), sep);
        lemma_compiled_quiet(children.last());
        lemma_quiet_paren(compiled(children.last()));
        lemma_quiet_conj(group(children.drop_last(), sep), sep, paren(compiled(children.last())));
    }
}

/// Placeholders and parameters correspond in the SQL text: for a filter node
/// whose field names hold no `$`, the placeholders read back from the text
/// of its clause, with or without the `WHERE` keyword before it, are
/// `$1, $2, .., $N` in this order, where `N` is the number of parameters. So
/// the text holds as many placeholders as there are parameters, and each
/// index from 1 to `N` occurs exactly once.
pub proof fn lemma_text_placeholders(node: FilterNodeView)
    requires
        plain_names(node),
    ensures
        placeholders(compiled(node).text()) == numbering(compiled(node).params.len()),
        placeholders(where_text(compiled(node))) == numbering(compiled(node).params.len()),
{
    let c = compiled(node);
    lemma_compiled_quiet(node);
    lemma_compiled_well_formed(node);
    lemma_placeholders_of_render(c.pieces);
    if c.is_empty() {
        assert(c.params.len() == 0) by {
            crate::clause::lemma_empty_has_no_params(c);
        }
        assert(numbering(0) =~= Seq::<nat>::empty());
    } else {
        reveal_strlit(" WHERE ");
        lemma_skip_text(" WHERE "@, c.text());
    }
}

} // verus!
