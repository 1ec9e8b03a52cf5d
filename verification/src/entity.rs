//! The filters of the two entities, users and posts.
//!
//! Each is a typed record with one optional predicate per filterable column.
//! Its model is the filter node that holds the predicates that are present,
//! in the order of the columns; it is compiled as that node.

use vstd::prelude::*;
use crate::clause::numbering;
use crate::filter::{
    compiled, where_text, Field, FieldView, FilterNode, FilterNodeView, IntFilter, Predicate,
    PredicateView, StringFilter,
};
use crate::placeholder::{
    all_plain_names, lemma_text_placeholders, no_dollar, placeholders, plain_fields, plain_names,
};
use crate::value::{values, ParamValue};

verus! {

/// The field of an integer column, if a predicate is set on it.
pub open spec fn int_field(name: Seq<char>, predicate: Option<IntFilter>) -> Seq<FieldView> {
    match predicate {
        Some(f) => seq![FieldView { name, predicate: PredicateView::Int(f) }],
        None => Seq::empty(),
    }
}

/// The field of a text column, if a predicate is set on it.
pub open spec fn text_field(name: Seq<char>, predicate: Option<StringFilter>) -> Seq<FieldView> {
    match predicate {
        Some(f) => seq![FieldView { name, predicate: PredicateView::Text(f@) }],
        None => Seq::empty(),
    }
}

/// The fields of a record whose column names hold no `$` hold none either.
proof fn lemma_plain_columns(columns: Seq<Seq<FieldView>>, names: Seq<Seq<char>>)
    requires
        columns.len() == names.len(),
        forall|i: int| 0 <= i < names.len() ==> no_dollar(#[trigger] names[i]),
        forall|i: int, j: int|
            0 <= i < columns.len() && 0 <= j < columns[i].len() ==> (#[trigger] columns[i][j]).name
                == names[i],
    ensures
        plain_fields(columns.flatten()),
    decreases columns.len(),
{
    let all = columns.flatten();
    if columns.len() == 0 {
    } else {
        let rest = columns.drop_first();
        let rest_names = names.drop_first();
        assert forall|i: int| 0 <= i < rest_names.len() implies no_dollar(
            #[trigger] rest_names[i],
        ) by {
            assert(rest_names[i] == names[i + 1]);
        }
        assert forall|i: int, j: int|
            0 <= i < rest.len() && 0 <= j < rest[i].len() implies (#[trigger] rest[i][j]).name
            == rest_names[i] by {
            assert(rest[i] == columns[i + 1]);
            assert(rest_names[i] == names[i + 1]);
        }
        lemma_plain_columns(rest, rest_names);
        assert(all == columns.first() + rest.flatten());
        assert forall|k: int| 0 <= k < all.len() implies no_dollar(#[trigger] all[k].name) by {
            if k < columns.first().len() {
                assert(all[k] == columns[0][k]);
                assert(no_dollar(names[0]));
            } else {
                assert(all[k] == rest.flatten()[k - columns.first().len()]);
            }
        }
    }
}

/// A copy of an optional string.
fn copy_text(text: &Option<String>) -> (copy: Option<String>)
    ensures
        crate::filter::text_of(copy) == crate::filter::text_of(*text),
{
    match text {
        Some(s) => Some(s.clone()),
        None => None,
    }
}

/// A copy of a text predicate.
fn copy_string_filter(f: &StringFilter) -> (copy: StringFilter)
    ensures
        copy@ == f@,
{
    StringFilter {
        equals: copy_text(&f.equals),
        contains: copy_text(&f.contains),
        starts_with: copy_text(&f.starts_with),
        ends_with: copy_text(&f.ends_with),
        contains_insensitive: copy_text(&f.contains_insensitive),
    }
}

/// Appends the field of an integer column, if a predicate is set on it.
fn push_int_field(fields: &mut Vec<Field>, name: &str, predicate: &Option<IntFilter>)
    ensures
        crate::filter::fields_view(final(fields)@) == crate::filter::fields_view(old(fields)@)
            + int_field(name@, *predicate),
{
    if let Some(f) = predicate {
        fields.push(Field { name: name.to_owned(), predicate: Predicate::Int(*f) });
    }
    assert(crate::filter::fields_view(fields@) =~= crate::filter::fields_view(old(fields)@)
        + int_field(name@, *predicate));
}

/// Appends the field of a text column, if a predicate is set on it.
fn push_text_field(fields: &mut Vec<Field>, name: &str, predicate: &Option<StringFilter>)
    ensures
        crate::filter::fields_view(final(fields)@) == crate::filter::fields_view(old(fields)@)
            + text_field(name@, *predicate),
{
    if let Some(f) = predicate {
        fields.push(
            Field { name: name.to_owned(), predicate: Predicate::Text(copy_string_filter(f)) },
        );
    }
    assert(crate::filter::fields_view(fields@) =~= crate::filter::fields_view(old(fields)@)
        + text_field(name@, *predicate));
}

/// The filter on users: predicates on `id`, `name`, `age`, `email` and
/// `phone`, and nested filters combined by AND and by OR.
#[derive(Debug, PartialEq, Eq)]
pub struct UserFilters {
    pub id: Option<IntFilter>,
    pub name: Option<StringFilter>,
    pub age: Option<IntFilter>,
    pub email: Option<StringFilter>,
    pub phone: Option<StringFilter>,
    pub and: Option<Vec<UserFilters>>,
    pub or: Option<Vec<UserFilters>>,
}

/// The models of a sequence of user filters, in order.
pub open spec fn user_nodes(filters: Seq<UserFilters>) -> Seq<FilterNodeView>
    decreases filters,
{
    if filters.len() == 0 {
        Seq::empty()
    } else {
        user_nodes(filters.drop_last()).push(filters.last()@)
    }
}

/// The model of an optional list of user filters.
pub open spec fn user_children(filters: Option<Vec<UserFilters>>) -> Option<Seq<FilterNodeView>>
    decreases filters,
{
    match filters {
        Some(v) => Some(user_nodes(v@)),
        None => None,
    }
}

impl View for UserFilters {
    type V = FilterNodeView;

    open spec fn view(&self) -> FilterNodeView
        decreases self,
    {
        FilterNodeView {
            fields: int_field("id"@, self.id) + text_field("name"@, self.name) + int_field(
                "age"@,
                self.age,
            ) + text_field("email"@, self.email) + text_field("phone"@, self.phone),
            and: user_children(self.and),
            or: user_children(self.or),
        }
    }
}

/// No column name of the users holds a `$`, at any depth of a filter.
pub proof fn lemma_user_names_plain(filters: UserFilters)
    ensures
        plain_names(filters@),
    decreases filters,
{
    reveal_strlit("id");
    reveal_strlit("name");
    reveal_strlit("age");
    reveal_strlit("email");
    reveal_strlit("phone");
    let columns = seq![
        int_field("id"@, filters.id),
        text_field("name"@, filters.name),
        int_field("age"@, filters.age),
        text_field("email"@, filters.email),
        text_field("phone"@, filters.phone),
    ];
    let names = seq!["id"@, "name"@, "age"@, "email"@, "phone"@];
    lemma_plain_columns(columns, names);
    lemma_flatten_five(columns);
    if let Some(children) = filters.and {
        assert(decreases_to!(filters => filters.and));
        assert(decreases_to!(filters.and => filters.and->0));
        assert(decreases_to!(children => children@));
        lemma_user_nodes_plain(children@);
    }
    if let Some(children) = filters.or {
        assert(decreases_to!(filters => filters.or));
        assert(decreases_to!(filters.or => filters.or->0));
        assert(decreases_to!(children => children@));
        lemma_user_nodes_plain(children@);
    }
}

/// No column name of the users holds a `$` in a list of filters.
pub proof fn lemma_user_nodes_plain(filters: Seq<UserFilters>)
    ensures
        all_plain_names(user_nodes(filters)),
    decreases filters,
{
    if filters.len() > 0 {
        lemma_user_nodes_plain(filters.drop_last());
        lemma_user_names_plain(filters.last());
        assert(user_nodes(filters).drop_last() =~= user_nodes(filters.drop_last()));
    }
}

/// Four or five sequences, flattened, are their concatenation.
proof fn lemma_flatten_five(columns: Seq<Seq<FieldView>>)
    requires
        4 <= columns.len() <= 5,
    ensures
        columns.len() == 5 ==> columns.flatten() == columns[0] + columns[1] + columns[2]
            + columns[3] + columns[4],
        columns.len() == 4 ==> columns.flatten() == columns[0] + columns[1] + columns[2]
            + columns[3],
{
    let c1 = columns.drop_first();
    let c2 = c1.drop_first();
    let c3 = c2.drop_first();
    let c4 = c3.drop_first();
    assert(c4.len() == 0 ==> c4.flatten() =~= Seq::<FieldView>::empty());
    if columns.len() == 5 {
        let c5 = c4.drop_first();
        assert(c5.flatten() =~= Seq::<FieldView>::empty());
        assert(c4.flatten() =~= columns[4]);
        assert(c3.flatten() =~= columns[3] + columns[4]);
        assert(c2.flatten() =~= columns[2] + columns[3] + columns[4]);
        assert(c1.flatten() =~= columns[1] + columns[2] + columns[3] + columns[4]);
        assert(columns.flatten() =~= columns[0] + columns[1] + columns[2] + columns[3]
            + columns[4]);
    } else {
        assert(c3.flatten() =~= columns[3]);
        assert(c2.flatten() =~= columns[2] + columns[3]);
        assert(c1.flatten() =~= columns[1] + columns[2] + columns[3]);
        assert(columns.flatten() =~= columns[0] + columns[1] + columns[2] + columns[3]);
    }
}

/// The filter nodes of a list of user filters.
fn user_filter_nodes(filters: &Vec<UserFilters>) -> (nodes: Vec<FilterNode>)
    ensures
        crate::filter::nodes_view(nodes@) == user_nodes(filters@),
    decreases filters, 0nat,
{
    let mut nodes: Vec<FilterNode> = Vec::new();
    let mut i: usize = 0;
    while i < filters.len()
        invariant
            i <= filters.len(),
            crate::filter::nodes_view(nodes@) == user_nodes(filters@.take(i as int)),
        decreases filters.len() - i,
    {
        proof {
            assert(decreases_to!(filters => filters@));
            assert(decreases_to!(filters@ => filters@[i as int]));
            assert(filters@.take(i + 1).drop_last() =~= filters@.take(i as int));
            assert(filters@.take(i + 1).last() == filters@[i as int]);
        }
        let ghost before = nodes@;
        let node = filters[i].to_node();
        nodes.push(node);
        assert(nodes@.drop_last() =~= before);
        i = i + 1;
    }
    assert(filters@.take(i as int) =~= filters@);
    nodes
}

impl UserFilters {
    /// The filter node of this filter.
    pub fn to_node(&self) -> (node: FilterNode)
        ensures
            node@ == self@,
        decreases self, 1nat,
    {
        let mut fields: Vec<Field> = Vec::new();
        assert(crate::filter::fields_view(fields@) =~= Seq::<FieldView>::empty());
        push_int_field(&mut fields, "id", &self.id);
        push_text_field(&mut fields, "name", &self.name);
        push_int_field(&mut fields, "age", &self.age);
        push_text_field(&mut fields, "email", &self.email);
        push_text_field(&mut fields, "phone", &self.phone);
        assert(crate::filter::fields_view(fields@) =~= self@.fields);
        let and = match &self.and {
            Some(children) => {
                proof {
                    assert(decreases_to!(self => self.and));
                    assert(decreases_to!(self.and => self.and->0));
                }
                Some(user_filter_nodes(children))
            },
            None => None,
        };
        let or = match &self.or {
            Some(children) => {
                proof {
                    assert(decreases_to!(self => self.or));
                    assert(decreases_to!(self.or => self.or->0));
                }
                Some(user_filter_nodes(children))
            },
            None => None,
        };
        FilterNode { fields, and, or }
    }

    /// The compiled clause as SQL text and parameters, without the `WHERE`
    /// keyword.
    pub fn build_where_clause_inner(&self) -> (r: (String, Vec<ParamValue>))
        ensures
            r.0@ == compiled(self@).text(),
            values(r.1@) == compiled(self@).params,
    {
        self.to_node().build_where_clause_inner()
    }

    /// The compiled clause as it is appended to a statement on users:
    /// ` WHERE ` and the SQL text, or the empty string where no condition is
    /// set, and the parameters in the order of their placeholders. The
    /// placeholders of the text are `$1` to `$N`, in this order, for the `N`
    /// parameters.
    pub fn build_where_clause(&self) -> (r: (String, Vec<ParamValue>))
        ensures
            r.0@ == where_text(compiled(self@)),
            values(r.1@) == compiled(self@).params,
            placeholders(r.0@) == numbering(r.1@.len()),
    {
        proof {
            lemma_user_names_plain(*self);
            lemma_text_placeholders(self@);
        }
        self.to_node().build_where_clause()
    }
}

/// The filter on posts: predicates on `id`, `user_id`, `title` and `content`,
/// and nested filters combined by OR.
#[derive(Debug, PartialEq, Eq)]
pub struct PostFilters {
    pub id: Option<IntFilter>,
    pub user_id: Option<IntFilter>,
    pub title: Option<StringFilter>,
    pub content: Option<StringFilter>,
    pub or: Option<Vec<PostFilters>>,
}

/// The models of a sequence of post filters, in order.
pub open spec fn post_nodes(filters: Seq<PostFilters>) -> Seq<FilterNodeView>
    decreases filters,
{
    if filters.len() == 0 {
        Seq::empty()
    } else {
        post_nodes(filters.drop_last()).push(filters.last()@)
    }
}

/// The model of an optional list of post filters.
pub open spec fn post_children(filters: Option<Vec<PostFilters>>) -> Option<Seq<FilterNodeView>>
    decreases filters,
{
    match filters {
        Some(v) => Some(post_nodes(v@)),
        None => None,
    }
}

impl View for PostFilters {
    type V = FilterNodeView;

    open spec fn view(&self) -> FilterNodeView
        decreases self,
    {
        FilterNodeView {
            fields: int_field("id"@, self.id) + int_field("user_id"@, self.user_id) + text_field(
                "title"@,
                self.title,
            ) + text_field("content"@, self.content),
            and: None,
            or: post_children(self.or),
        }
    }
}

/// No column name of the posts holds a `$`, at any depth of a filter.
pub proof fn lemma_post_names_plain(filters: PostFilters)
    ensures
        plain_names(filters@),
    decreases filters,
{
    reveal_strlit("id");
    reveal_strlit("user_id");
    reveal_strlit("title");
    reveal_strlit("content");
    let columns = seq![
        int_field("id"@, filters.id),
        int_field("user_id"@, filters.user_id),
        text_field("title"@, filters.title),
        text_field("content"@, filters.content),
    ];
    let names = seq!["id"@, "user_id"@, "title"@, "content"@];
    lemma_plain_columns(columns, names);
    lemma_flatten_five(columns);
    if let Some(children) = filters.or {
        assert(decreases_to!(filters => filters.or));
        assert(decreases_to!(filters.or => filters.or->0));
        assert(decreases_to!(children => children@));
        lemma_post_nodes_plain(children@);
    }
}

/// No column name of the posts holds a `$` in a list of filters.
pub proof fn lemma_post_nodes_plain(filters: Seq<PostFilters>)
    ensures
        all_plain_names(post_nodes(filters)),
    decreases filters,
{
    if filters.len() > 0 {
        lemma_post_nodes_plain(filters.drop_last());
        lemma_post_names_plain(filters.last());
        assert(post_nodes(filters).drop_last() =~= post_nodes(filters.drop_last()));
    }
}

/// The filter nodes of a list of post filters.
fn post_filter_nodes(filters: &Vec<PostFilters>) -> (nodes: Vec<FilterNode>)
    ensures
        crate::filter::nodes_view(nodes@) == post_nodes(filters@),
    decreases filters, 0nat,
{
    let mut nodes: Vec<FilterNode> = Vec::new();
    let mut i: usize = 0;
    while i < filters.len()
        invariant
            i <= filters.len(),
            crate::filter::nodes_view(nodes@) == post_nodes(filters@.take(i as int)),
        decreases filters.len() - i,
    {
        proof {
            assert(decreases_to!(filters => filters@));
            assert(decreases_to!(filters@ => filters@[i as int]));
            assert(filters@.take(i + 1).drop_last() =~= filters@.take(i as int));
            assert(filters@.take(i + 1).last() == filters@[i as int]);
        }
        let ghost before = nodes@;
        let node = filters[i].to_node();
        nodes.push(node);
        assert(nodes@.drop_last() =~= before);
        i = i + 1;
    }
    assert(filters@.take(i as int) =~= filters@);
    nodes
}

impl PostFilters {
    /// The filter node of this filter.
    pub fn to_node(&self) -> (node: FilterNode)
        ensures
            node@ == self@,
        decreases self, 1nat,
    {
        let mut fields: Vec<Field> = Vec::new();
        assert(crate::filter::fields_view(fields@) =~= Seq::<FieldView>::empty());
        push_int_field(&mut fields, "id", &self.id);
        push_int_field(&mut fields, "user_id", &self.user_id);
        push_text_field(&mut fields, "title", &self.title);
        push_text_field(&mut fields, "content", &self.content);
        assert(crate::filter::fields_view(fields@) =~= self@.fields);
        let or = match &self.or {
            Some(children) => {
                proof {
                    assert(decreases_to!(self => self.or));
                    assert(decreases_to!(self.or => self.or->0));
                }
                Some(post_filter_nodes(children))
            },
            None => None,
        };
        FilterNode { fields, and: None, or }
    }

    /// The compiled clause as SQL text and parameters, without the `WHERE`
    /// keyword.
    pub fn build_where_clause_inner(&self) -> (r: (String, Vec<ParamValue>))
        ensures
            r.0@ == compiled(self@).text(),
            values(r.1@) == compiled(self@).params,
    {
        self.to_node().build_where_clause_inner()
    }

    /// The compiled clause as it is appended to a statement on posts:
    /// ` WHERE ` and the SQL text, or the empty string where no condition is
    /// set, and the parameters in the order of their placeholders. The
    /// placeholders of the text are `$1` to `$N`, in this order, for the `N`
    /// parameters.
    pub fn build_where_clause(&self) -> (r: (String, Vec<ParamValue>))
        ensures
            r.0@ == where_text(compiled(self@)),
            values(r.1@) == compiled(self@).params,
            placeholders(r.0@) == numbering(r.1@.len()),
    {
        proof {
            lemma_post_names_plain(*self);
            lemma_text_placeholders(self@);
        }
        self.to_node().build_where_clause()
    }
}

} // verus!
