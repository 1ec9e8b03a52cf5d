//! Filter nodes and their compilation into a parameterized clause.
//!
//! A filter node holds comparison predicates on named fields and two optional
//! lists of nested nodes, one combined by AND and one by OR. Compilation lowers
//! a node to a [`CompiledClause`]: user-supplied values never reach the SQL
//! text, they become parameters, and the k-th placeholder of the text refers
//! to the k-th parameter at every depth of nesting.

use vstd::prelude::*;
use crate::clause::{
    atom, conj, lemma_atom_well_formed, lemma_conj_well_formed, lemma_empty_has_no_params, lemma_paren_well_formed,
    lemma_slots_shift, numbering, paren, shift, slots, Clause, CompiledClause, Piece,
};
use crate::placeholder::{lemma_text_placeholders, placeholders, plain_names};
use crate::value::{ParamValue, Value};

verus! {

/// A comparison predicate on an integer field. The operators that are set
/// combine by AND.
#[derive(Clone, Copy, Debug, PartialEq, Eq)]
pub struct IntFilter {
    pub equals: Option<i32>,
    pub gt: Option<i32>,
    pub lt: Option<i32>,
    pub gte: Option<i32>,
    pub lte: Option<i32>,
}

/// A comparison predicate on a text field. The operators that are set combine
/// by AND.
#[derive(Debug, PartialEq, Eq)]
pub struct StringFilter {
    pub equals: Option<String>,
    pub contains: Option<String>,
    pub starts_with: Option<String>,
    pub ends_with: Option<String>,
    pub contains_insensitive: Option<String>,
}

/// The model of a [`StringFilter`].
pub struct StringFilterView {
    pub equals: Option<Seq<char>>,
    pub contains: Option<Seq<char>>,
    pub starts_with: Option<Seq<char>>,
    pub ends_with: Option<Seq<char>>,
    pub contains_insensitive: Option<Seq<char>>,
}

/// The model of an optional string.
pub open spec fn text_of(s: Option<String>) -> Option<Seq<char>> {
    match s {
        Some(s) => Some(s@),
        None => None,
    }
}

impl View for StringFilter {
    type V = StringFilterView;

    open spec fn view(&self) -> StringFilterView {
        StringFilterView {
            equals: text_of(self.equals),
            contains: text_of(self.contains),
            starts_with: text_of(self.starts_with),
            ends_with: text_of(self.ends_with),
            contains_insensitive: text_of(self.contains_insensitive),
        }
    }
}

/// A comparison predicate, by the logical type of its field.
#[derive(Debug, PartialEq, Eq)]
pub enum Predicate {
    Int(IntFilter),
    Text(StringFilter),
}

/// The model of a [`Predicate`].
pub enum PredicateView {
    Int(IntFilter),
    Text(StringFilterView),
}

impl View for Predicate {
    type V = PredicateView;

    open spec fn view(&self) -> PredicateView {
        match self {
            Predicate::Int(f) => PredicateView::Int(*f),
            Predicate::Text(f) => PredicateView::Text(f@),
        }
    }
}

/// A predicate on a named field.
#[derive(Debug, PartialEq, Eq)]
pub struct Field {
    pub name: String,
    pub predicate: Predicate,
}

/// The model of a [`Field`].
pub struct FieldView {
    pub name: Seq<char>,
    pub predicate: PredicateView,
}

impl View for Field {
    type V = FieldView;

    open spec fn view(&self) -> FieldView {
        FieldView { name: self.name@, predicate: self.predicate@ }
    }
}

/// The models of a sequence of fields, in order.
pub open spec fn fields_view(fields: Seq<Field>) -> Seq<FieldView> {
    fields.map_values(|f: Field| f@)
}

/// A filter node: predicates on fields, in the fixed order in which they are
/// compiled, and nested nodes combined by AND and by OR.
#[derive(Debug, PartialEq, Eq)]
pub struct FilterNode {
    pub fields: Vec<Field>,
    pub and: Option<Vec<FilterNode>>,
    pub or: Option<Vec<FilterNode>>,
}

/// The model of a [`FilterNode`].
pub struct FilterNodeView {
    pub fields: Seq<FieldView>,
    pub and: Option<Seq<FilterNodeView>>,
    pub or: Option<Seq<FilterNodeView>>,
}

/// The models of a sequence of filter nodes, in order.
pub open spec fn nodes_view(nodes: Seq<FilterNode>) -> Seq<FilterNodeView>
    decreases nodes,
{
    if nodes.len() == 0 {
        Seq::empty()
    } else {
        nodes_view(nodes.drop_last()).push(nodes.last()@)
    }
}

/// The model of an optional list of filter nodes.
pub open spec fn children_view(nodes: Option<Vec<FilterNode>>) -> Option<Seq<FilterNodeView>>
    decreases nodes,
{
    match nodes {
        Some(v) => Some(nodes_view(v@)),
        None => None,
    }
}

impl View for FilterNode {
    type V = FilterNodeView;

    open spec fn view(&self) -> FilterNodeView
        decreases self,
    {
        FilterNodeView {
            fields: fields_view(self.fields@),
            and: children_view(self.and),
            or: children_view(self.or),
        }
    }
}

/// The model of a list of nodes has the length of the list and holds the
/// model of each node at its place.
pub proof fn lemma_nodes_view(nodes: Seq<FilterNode>)
    ensures
        nodes_view(nodes).len() == nodes.len(),
        forall|i: int| 0 <= i < nodes.len() ==> #[trigger] nodes_view(nodes)[i] == nodes[i]@,
    decreases nodes.len(),
{
    if nodes.len() > 0 {
        lemma_nodes_view(nodes.drop_last());
        assert(nodes_view(nodes) == nodes_view(nodes.drop_last()).push(nodes.last()@));
        assert forall|i: int| 0 <= i < nodes.len() implies #[trigger] nodes_view(nodes)[i]
            == nodes[i]@ by {
            if i < nodes.len() - 1 {
                assert(nodes.drop_last()[i] == nodes[i]);
            }
        }
    } else {
        assert(nodes_view(nodes) == Seq::<FilterNodeView>::empty());
    }
}

/// The separator of conditions that must all hold.
pub open spec fn and_sep() -> Seq<char> {
    " AND "@
}

/// The separator of alternatives.
pub open spec fn or_sep() -> Seq<char> {
    " OR "@
}

/// `acc` with the condition `name op $k` for `value`, if there is a value.
pub open spec fn with_condition(
    acc: Clause,
    name: Seq<char>,
    op: Seq<char>,
    value: Option<Value>,
) -> Clause {
    match value {
        Some(v) => conj(acc, and_sep(), atom(name + op, v)),
        None => acc,
    }
}

/// The parameter of an integer comparison: the literal itself.
pub open spec fn int_param(literal: Option<i32>) -> Option<Value> {
    match literal {
        Some(v) => Some(Value::Int(v as i64)),
        None => None,
    }
}

/// The parameter of a text comparison for equality: the literal itself.
pub open spec fn text_param(literal: Option<Seq<char>>) -> Option<Value> {
    match literal {
        Some(v) => Some(Value::Text(v)),
        None => None,
    }
}

/// The parameter of a pattern comparison: the literal between `before` and
/// `after`.
pub open spec fn pattern_param(
    before: Seq<char>,
    literal: Option<Seq<char>>,
    after: Seq<char>,
) -> Option<Value> {
    match literal {
        Some(v) => Some(Value::Text(before + v + after)),
        None => None,
    }
}

/// `acc` with one condition for each operator that is set on an integer
/// predicate, in the order `equals`, `gt`, `lt`, `gte`, `lte`.
pub open spec fn with_int_filter(acc: Clause, name: Seq<char>, f: IntFilter) -> Clause {
    let c = with_condition(acc, name, " = "@, int_param(f.equals));
    let c = with_condition(c, name, " > "@, int_param(f.gt));
    let c = with_condition(c, name, " < "@, int_param(f.lt));
    let c = with_condition(c, name, " >= "@, int_param(f.gte));
    with_condition(c, name, " <= "@, int_param(f.lte))
}

/// `acc` with one condition for each operator that is set on a text predicate,
/// in the order `equals`, `contains`, `starts_with`, `ends_with`,
/// `contains_insensitive`. The pattern operators wrap the literal in `%`.
pub open spec fn with_string_filter(acc: Clause, name: Seq<char>, f: StringFilterView) -> Clause {
    let c = with_condition(acc, name, " = "@, text_param(f.equals));
    let c = with_condition(c, name, " LIKE "@, pattern_param("%"@, f.contains, "%"@));
    let c = with_condition(c, name, " LIKE "@, pattern_param(Seq::empty(), f.starts_with, "%"@));
    let c = with_condition(c, name, " LIKE "@, pattern_param("%"@, f.ends_with, Seq::empty()));
    with_condition(c, name, " ILIKE "@, pattern_param("%"@, f.contains_insensitive, "%"@))
}

/// `acc` with the conditions of one field.
pub open spec fn with_field(acc: Clause, field: FieldView) -> Clause {
    match field.predicate {
        PredicateView::Int(f) => with_int_filter(acc, field.name, f),
        PredicateView::Text(f) => with_string_filter(acc, field.name, f),
    }
}

/// `acc` with the conditions of `fields`, field by field.
pub open spec fn with_fields(acc: Clause, fields: Seq<FieldView>) -> Clause
    decreases fields.len(),
{
    if fields.len() == 0 {
        acc
    } else {
        with_field(with_fields(acc, fields.drop_last()), fields.last())
    }
}

/// The clause of a filter node: the conditions of its fields, then the group
/// of its `and` list, then the group of its `or` list, joined by ` AND `.
pub open spec fn compiled(node: FilterNodeView) -> Clause
    decreases node,
{
    let scalar = with_fields(Clause::empty(), node.fields);
    let with_and = match node.and {
        Some(children) => conj(scalar, and_sep(), group(children, and_sep())),
        None => scalar,
    };
    match node.or {
        Some(children) => conj(with_and, and_sep(), group(children, or_sep())),
        None => with_and,
    }
}

/// The clause of a list of nested nodes: the clause of each node that has
/// one, in parentheses, joined by `sep`.
pub open spec fn group(children: Seq<FilterNodeView>, sep: Seq<char>) -> Clause
    decreases children,
{
    if children.len() == 0 {
        Clause::empty()
    } else {
        conj(group(children.drop_last(), sep), sep, paren(compiled(children.last())))
    }
}

/// The text handed to the statement: a non-empty clause behind ` WHERE `.
pub open spec fn where_text(c: Clause) -> Seq<char> {
    if c.is_empty() {
        Seq::empty()
    } else {
        " WHERE "@ + c.text()
    }
}

/// Adding a condition keeps a clause well formed.
pub proof fn lemma_with_condition_well_formed(
    acc: Clause,
    name: Seq<char>,
    op: Seq<char>,
    value: Option<Value>,
)
    requires
        acc.well_formed(),
    ensures
        with_condition(acc, name, op, value).well_formed(),
{
    if let Some(v) = value {
        lemma_atom_well_formed(name + op, v);
        lemma_conj_well_formed(acc, and_sep(), atom(name + op, v));
    }
}

/// Adding the conditions of a field keeps a clause well formed.
pub proof fn lemma_with_field_well_formed(acc: Clause, field: FieldView)
    requires
        acc.well_formed(),
    ensures
        with_field(acc, field).well_formed(),
{
    let name = field.name;
    match field.predicate {
        PredicateView::Int(f) => {
            let c1 = with_condition(acc, name, " = "@, int_param(f.equals));
            let c2 = with_condition(c1, name, " > "@, int_param(f.gt));
            let c3 = with_condition(c2, name, " < "@, int_param(f.lt));
            let c4 = with_condition(c3, name, " >= "@, int_param(f.gte));
            lemma_with_condition_well_formed(acc, name, " = "@, int_param(f.equals));
            lemma_with_condition_well_formed(c1, name, " > "@, int_param(f.gt));
            lemma_with_condition_well_formed(c2, name, " < "@, int_param(f.lt));
            lemma_with_condition_well_formed(c3, name, " >= "@, int_param(f.gte));
            lemma_with_condition_well_formed(c4, name, " <= "@, int_param(f.lte));
        },
        PredicateView::Text(f) => {
            let contains = pattern_param("%"@, f.contains, "%"@);
            let starts_with = pattern_param(Seq::empty(), f.starts_with, "%"@);
            let ends_with = pattern_param("%"@, f.ends_with, Seq::empty());
            let insensitive = pattern_param("%"@, f.contains_insensitive, "%"@);
            let c1 = with_condition(acc, name, " = "@, text_param(f.equals));
            let c2 = with_condition(c1, name, " LIKE "@, contains);
            let c3 = with_condition(c2, name, " LIKE "@, starts_with);
            let c4 = with_condition(c3, name, " LIKE "@, ends_with);
            lemma_with_condition_well_formed(acc, name, " = "@, text_param(f.equals));
            lemma_with_condition_well_formed(c1, name, " LIKE "@, contains);
            lemma_with_condition_well_formed(c2, name, " LIKE "@, starts_with);
            lemma_with_condition_well_formed(c3, name, " LIKE "@, ends_with);
            lemma_with_condition_well_formed(c4, name, " ILIKE "@, insensitive);
        },
    }
}

/// Adding the conditions of a list of fields keeps a clause well formed.
pub proof fn lemma_with_fields_well_formed(acc: Clause, fields: Seq<FieldView>)
    requires
        acc.well_formed(),
    ensures
        with_fields(acc, fields).well_formed(),
    decreases fields.len(),
{
    if fields.len() > 0 {
        lemma_with_fields_well_formed(acc, fields.drop_last());
        lemma_with_field_well_formed(with_fields(acc, fields.drop_last()), fields.last());
    }
}

/// Placeholders and parameters correspond: in the clause of any filter node
/// the placeholders, read in the order in which they occur, are
/// `$1, $2, .., $N`, where `N` is the number of parameters. So there are as
/// many placeholders as parameters, each index from 1 to `N` occurs exactly
/// once, and the k-th placeholder refers to the k-th parameter.
pub proof fn lemma_compiled_well_formed(node: FilterNodeView)
    ensures
        compiled(node).well_formed(),
        slots(compiled(node).pieces).len() == compiled(node).params.len(),
        forall|k: int|
            0 <= k < compiled(node).params.len() ==> #[trigger] slots(compiled(node).pieces)[k]
                == k + 1,
    decreases node,
{
    let scalar = with_fields(Clause::empty(), node.fields);
    assert(slots(Clause::empty().pieces) =~= numbering(0));
    lemma_with_fields_well_formed(Clause::empty(), node.fields);
    let with_and = match node.and {
        Some(children) => conj(scalar, and_sep(), group(children, and_sep())),
        None => scalar,
    };
    if let Some(children) = node.and {
        lemma_group_well_formed(children, and_sep());
        lemma_conj_well_formed(scalar, and_sep(), group(children, and_sep()));
    }
    if let Some(children) = node.or {
        lemma_group_well_formed(children, or_sep());
        lemma_conj_well_formed(with_and, and_sep(), group(children, or_sep()));
    }
}

/// The clause of a list of nested nodes is well formed.
pub proof fn lemma_group_well_formed(children: Seq<FilterNodeView>, sep: Seq<char>)
    ensures
        group(children, sep).well_formed(),
    decreases children,
{
    if children.len() == 0 {
        assert(slots(Clause::empty().pieces) =~= numbering(0));
    } else {
        lemma_group_well_formed(children.drop_last(), sep);
        lemma_compiled_well_formed(children.last());
        lemma_paren_well_formed(compiled(children.last()));
        lemma_conj_well_formed(
            group(children.drop_last(), sep),
            sep,
            paren(compiled(children.last())),
        );
    }
}

/// Renumbering on merge: where two nested nodes each have a clause, numbered
/// on its own from 1, their group holds the parameters of the first and then
/// those of the second, the placeholders of the first keep their indices
/// `1..=a`, and each placeholder of the second is raised by `a`, the number of
/// parameters of the first, so that they take the indices `a+1..=a+b`.
pub proof fn lemma_pair_renumbering(a: FilterNodeView, b: FilterNodeView, sep: Seq<char>)
    requires
        !compiled(a).is_empty(),
        !compiled(b).is_empty(),
    ensures
        ({
            let ca = paren(compiled(a));
            let cb = paren(compiled(b));
            let g = group(seq![a, b], sep);
            let n = compiled(a).params.len();
            let m = compiled(b).params.len();
            &&& g.params == compiled(a).params + compiled(b).params
            &&& g.pieces == ca.pieces + seq![Piece::Text(sep)] + shift(cb.pieces, n)
            &&& slots(ca.pieces) == numbering(n)
            &&& slots(shift(cb.pieces, n)) == Seq::new(m, |i: int| (n + i + 1) as nat)
            &&& slots(g.pieces) == numbering(n + m)
        }),
{
    let children = seq![a, b];
    let first = children.drop_last();
    assert(first =~= seq![a]);
    assert(first.drop_last() =~= Seq::<FilterNodeView>::empty());
    assert(first.last() == a);
    assert(children.last() == b);
    let ca = paren(compiled(a));
    let cb = paren(compiled(b));
    lemma_compiled_well_formed(a);
    lemma_compiled_well_formed(b);
    lemma_paren_well_formed(compiled(a));
    lemma_paren_well_formed(compiled(b));
    assert(group(first.drop_last(), sep) == Clause::empty());
    assert(group(first, sep) == conj(Clause::empty(), sep, ca));
    assert(group(first, sep) == ca);
    assert(group(children, sep) == conj(ca, sep, cb));
    lemma_conj_well_formed(ca, sep, cb);
    lemma_slots_shift(cb.pieces, ca.params.len());
    assert(slots(shift(cb.pieces, ca.params.len())) =~= Seq::new(
        cb.params.len(),
        |i: int| (ca.params.len() + i + 1) as nat,
    ));
}

/// The node that combines two nested nodes by AND and has nothing else
/// compiles to the group of the two.
pub proof fn lemma_and_pair(a: FilterNodeView, b: FilterNodeView)
    ensures
        compiled(FilterNodeView { fields: Seq::empty(), and: Some(seq![a, b]), or: None })
            == group(seq![a, b], and_sep()),
{
    let g = group(seq![a, b], and_sep());
    lemma_group_well_formed(seq![a, b], and_sep());
    lemma_empty_has_no_params(g);
    if g.is_empty() {
        assert(g.pieces =~= Seq::<Piece>::empty());
        assert(g.params =~= Seq::<Value>::empty());
    }
}

/// A node without fields and without nested lists.
pub open spec fn vacant(node: FilterNodeView) -> bool {
    node.fields.len() == 0 && node.and is None && node.or is None
}

/// A node in which everything is absent has the empty clause: no text and no
/// parameters.
pub proof fn lemma_vacant_node(node: FilterNodeView)
    requires
        vacant(node),
    ensures
        compiled(node) == Clause::empty(),
        where_text(compiled(node)) == Seq::<char>::empty(),
{
}

/// A nested node with an empty clause contributes nothing, wherever it
/// stands in its list: the group is that of the list without it.
pub proof fn lemma_empty_child(children: Seq<FilterNodeView>, i: int, sep: Seq<char>)
    requires
        0 <= i < children.len(),
        compiled(children[i]).is_empty(),
    ensures
        group(children, sep) == group(children.remove(i), sep),
    decreases children.len(),
{
    if i == children.len() - 1 {
        assert(children.remove(i) =~= children.drop_last());
    } else {
        lemma_empty_child(children.drop_last(), i, sep);
        assert(children.remove(i).drop_last() =~= children.drop_last().remove(i));
        assert(children.remove(i).last() == children.last());
    }
}

/// A list of nested nodes in which everything is absent gives no clause, so
/// the enclosing node compiles as if the list were absent.
pub proof fn lemma_vacant_children(children: Seq<FilterNodeView>, sep: Seq<char>)
    requires
        forall|i: int| 0 <= i < children.len() ==> vacant(#[trigger] children[i]),
    ensures
        group(children, sep) == Clause::empty(),
    decreases children.len(),
{
    if children.len() > 0 {
        lemma_vacant_children(children.drop_last(), sep);
        lemma_vacant_node(children.last());
    }
}

/// `literal`, behind `%` where `open_start` is set and before `%` where
/// `open_end` is set.
fn pattern(open_start: bool, literal: &String, open_end: bool) -> (s: String)
    ensures
        s@ == (if open_start {
            "%"@
        } else {
            Seq::empty()
        }) + literal@ + (if open_end {
            "%"@
        } else {
            Seq::empty()
        }),
{
    let mut s = String::new();
    if open_start {
        s.append("%");
    }
    s.append(literal.as_str());
    if open_end {
        s.append("%");
    }
    assert(s@ =~= (if open_start {
        "%"@
    } else {
        Seq::empty()
    }) + literal@ + (if open_end {
        "%"@
    } else {
        Seq::empty()
    }));
    s
}

/// Adds the condition `name op $k` for `value`.
fn push_comparison(acc: &mut CompiledClause, name: &String, op: &str, value: ParamValue)
    requires
        old(acc)@.well_formed(),
    ensures
        final(acc)@ == with_condition(old(acc)@, name@, op@, Some(value@)),
        final(acc)@.well_formed(),
{
    let mut text = String::new();
    text.append(name.as_str());
    text.append(op);
    assert(text@ =~= name@ + op@);
    acc.push_condition(" AND ", text, value);
}

/// Adds the condition of one integer operator, if it is set.
fn push_int(acc: &mut CompiledClause, name: &String, op: &str, literal: Option<i32>)
    requires
        old(acc)@.well_formed(),
    ensures
        final(acc)@ == with_condition(old(acc)@, name@, op@, int_param(literal)),
        final(acc)@.well_formed(),
{
    if let Some(v) = literal {
        push_comparison(acc, name, op, ParamValue::Int(v as i64));
    }
}

/// Adds the equality condition of a text predicate, if it is set.
fn push_text(acc: &mut CompiledClause, name: &String, op: &str, literal: &Option<String>)
    requires
        old(acc)@.well_formed(),
    ensures
        final(acc)@ == with_condition(old(acc)@, name@, op@, text_param(text_of(*literal))),
        final(acc)@.well_formed(),
{
    if let Some(v) = literal {
        push_comparison(acc, name, op, ParamValue::Text(v.clone()));
    }
}

/// Adds the condition of one pattern operator, if it is set.
fn push_pattern(
    acc: &mut CompiledClause,
    name: &String,
    op: &str,
    open_start: bool,
    literal: &Option<String>,
    open_end: bool,
)
    requires
        old(acc)@.well_formed(),
    ensures
        final(acc)@ == with_condition(
            old(acc)@,
            name@,
            op@,
            pattern_param(
                if open_start {
                    "%"@
                } else {
                    Seq::empty()
                },
                text_of(*literal),
                if open_end {
                    "%"@
                } else {
                    Seq::empty()
                },
            ),
        ),
        final(acc)@.well_formed(),
{
    if let Some(v) = literal {
        push_comparison(acc, name, op, ParamValue::Text(pattern(open_start, v, open_end)));
    }
}

impl IntFilter {
    /// Adds one condition on the field `name` for each operator that is set.
    pub fn push_conditions(&self, name: &String, acc: &mut CompiledClause)
        requires
            old(acc)@.well_formed(),
        ensures
            final(acc)@ == with_int_filter(old(acc)@, name@, *self),
            final(acc)@.well_formed(),
    {
        push_int(acc, name, " = ", self.equals);
        push_int(acc, name, " > ", self.gt);
        push_int(acc, name, " < ", self.lt);
        push_int(acc, name, " >= ", self.gte);
        push_int(acc, name, " <= ", self.lte);
    }
}

impl StringFilter {
    /// Adds one condition on the field `name` for each operator that is set.
    pub fn push_conditions(&self, name: &String, acc: &mut CompiledClause)
        requires
            old(acc)@.well_formed(),
        ensures
            final(acc)@ == with_string_filter(old(acc)@, name@, self@),
            final(acc)@.well_formed(),
    {
        push_text(acc, name, " = ", &self.equals);
        push_pattern(acc, name, " LIKE ", true, &self.contains, true);
        push_pattern(acc, name, " LIKE ", false, &self.starts_with, true);
        push_pattern(acc, name, " LIKE ", true, &self.ends_with, false);
        push_pattern(acc, name, " ILIKE ", true, &self.contains_insensitive, true);
    }
}

impl Field {
    /// Adds the conditions of this field.
    pub fn push_conditions(&self, acc: &mut CompiledClause)
        requires
            old(acc)@.well_formed(),
        ensures
            final(acc)@ == with_field(old(acc)@, self@),
            final(acc)@.well_formed(),
    {
        match &self.predicate {
            Predicate::Int(f) => f.push_conditions(&self.name, acc),
            Predicate::Text(f) => f.push_conditions(&self.name, acc),
        }
    }
}

/// Compiles a list of nested nodes into one clause: each node is compiled on
/// its own, with placeholders from 1, put in parentheses and merged in.
fn compile_group(children: &Vec<FilterNode>, sep: &str) -> (g: CompiledClause)
    ensures
        g@ == group(nodes_view(children@), sep@),
        g@.well_formed(),
    decreases children, 0nat,
{
    let ghost models = nodes_view(children@);
    proof {
        lemma_nodes_view(children@);
    }
    let mut g = CompiledClause::new();
    let mut i: usize = 0;
    while i < children.len()
        invariant
            i <= children.len(),
            models == nodes_view(children@),
            models.len() == children@.len(),
            forall|j: int| 0 <= j < children@.len() ==> #[trigger] models[j] == children@[j]@,
            g@ == group(models.take(i as int), sep@),
            g@.well_formed(),
        decreases children.len() - i,
    {
        proof {
            assert(decreases_to!(children => children@));
            assert(decreases_to!(children@ => children@[i as int]));
            assert(models.take(i + 1).drop_last() =~= models.take(i as int));
            assert(models.take(i + 1).last() == children@[i as int]@);
        }
        let child = children[i].compile();
        g.merge(sep, child.enclose());
        i = i + 1;
    }
    assert(models.take(i as int) =~= models);
    g
}

impl FilterNode {
    /// A node without fields and without nested nodes.
    pub fn new() -> (node: FilterNode)
        ensures
            node@ == (FilterNodeView { fields: Seq::empty(), and: None, or: None }),
    {
        let node = FilterNode { fields: Vec::new(), and: None, or: None };
        assert(node@.fields =~= Seq::<FieldView>::empty());
        node
    }

    /// Compiles the node into a clause whose placeholders are numbered from 1.
    pub fn compile(&self) -> (c: CompiledClause)
        ensures
            c@ == compiled(self@),
            c@.well_formed(),
        decreases self, 1nat,
    {
        let ghost fields = fields_view(self.fields@);
        let mut acc = CompiledClause::new();
        let mut i: usize = 0;
        while i < self.fields.len()
            invariant
                i <= self.fields.len(),
                fields == fields_view(self.fields@),
                acc@ == with_fields(Clause::empty(), fields.take(i as int)),
                acc@.well_formed(),
            decreases self.fields.len() - i,
        {
            proof {
                assert(fields.take(i + 1).drop_last() =~= fields.take(i as int));
                assert(fields.take(i + 1).last() == self.fields@[i as int]@);
            }
            self.fields[i].push_conditions(&mut acc);
            i = i + 1;
        }
        assert(fields.take(i as int) =~= fields);
        if let Some(children) = &self.and {
            proof {
                assert(decreases_to!(self => self.and));
                assert(decreases_to!(self.and => self.and->0));
            }
            let g = compile_group(children, " AND ");
            acc.merge(" AND ", g);
        }
        if let Some(children) = &self.or {
            proof {
                assert(decreases_to!(self => self.or));
                assert(decreases_to!(self.or => self.or->0));
            }
            let g = compile_group(children, " OR ");
            acc.merge(" AND ", g);
        }
        acc
    }

    /// The compiled clause as SQL text and parameters, without the `WHERE`
    /// keyword. A node without conditions gives the empty string and no
    /// parameters. Where no field name holds a `$`, the placeholders of the
    /// text are `$1` to `$N`, in this order, for the `N` parameters.
    pub fn build_where_clause_inner(&self) -> (r: (String, Vec<ParamValue>))
        ensures
            r.0@ == compiled(self@).text(),
            crate::value::values(r.1@) == compiled(self@).params,
            plain_names(self@) ==> placeholders(r.0@) == numbering(r.1@.len()),
    {
        proof {
            if plain_names(self@) {
                lemma_text_placeholders(self@);
            }
        }
        let c = self.compile();
        let sql = c.render();
        (sql, c.params)
    }

    /// The compiled clause as it is appended to a statement: ` WHERE ` and
    /// the SQL text, or the empty string where the node has no conditions,
    /// and the parameters in the order of their placeholders. Where no field
    /// name holds a `$`, the placeholders of the text are `$1` to `$N`, in
    /// this order, for the `N` parameters.
    pub fn build_where_clause(&self) -> (r: (String, Vec<ParamValue>))
        ensures
            r.0@ == where_text(compiled(self@)),
            crate::value::values(r.1@) == compiled(self@).params,
            plain_names(self@) ==> placeholders(r.0@) == numbering(r.1@.len()),
    {
        proof {
            if plain_names(self@) {
                lemma_text_placeholders(self@);
            }
        }
        let c = self.compile();
        if c.is_empty() {
            (String::new(), c.params)
        } else {
            let mut sql = String::new();
            sql.append(" WHERE ");
            let inner = c.render();
            sql.append(inner.as_str());
            (sql, c.params)
        }
    }
}

} // verus!
