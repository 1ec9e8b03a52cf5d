//! The query assembler: the statements of the list queries and of the post
//! mutations, each as SQL text with its typed bind slots.
//!
//! A statement is ready to be prepared and executed: the slot at position `i`
//! belongs to the placeholder `$(i + 1)` of the text.

use vstd::prelude::*;
use crate::bind::{bind_dynamic_params, bound_of, bounds, Bound, BoundParam};
use crate::clause::Clause;
use crate::entity::{PostFilters, UserFilters};
use crate::filter::{compiled, where_text, FilterNodeView};
use crate::text::{decimal, push_decimal, trim, trimmed};
use crate::value::{values, ParamValue, Value};

verus! {

/// A statement: SQL text and the typed slots of its placeholders, in order.
#[derive(Debug, PartialEq, Eq)]
pub struct Statement {
    pub sql: String,
    pub params: Vec<BoundParam>,
}

/// The model of a [`Statement`].
pub struct StatementView {
    pub sql: Seq<char>,
    pub params: Seq<Bound>,
}

impl View for Statement {
    type V = StatementView;

    open spec fn view(&self) -> StatementView {
        StatementView { sql: self.sql@, params: bounds(self.params@) }
    }
}

/// The two statements of a list query: the count of all rows that pass the
/// filter, and the page of rows.
#[derive(Debug, PartialEq, Eq)]
pub struct PagedQuery {
    pub count: Statement,
    pub select: Statement,
}

/// The page size: 10 where none is asked for, and at least 1 and at most 200.
pub open spec fn page_limit(limit: Option<i32>) -> nat {
    match limit {
        None => 10,
        Some(l) => if l < 1 {
            1
        } else if l > 200 {
            200
        } else {
            l as nat
        },
    }
}

/// The number of rows to skip: 0 where none is asked for, and never negative.
pub open spec fn page_offset(offset: Option<i32>) -> nat {
    match offset {
        None => 0,
        Some(o) => if o < 0 {
            0
        } else {
            o as nat
        },
    }
}

/// The text of the statement that counts the rows of `table` that pass the
/// clause.
pub open spec fn count_sql(table: Seq<char>, where_clause: Seq<char>) -> Seq<char> {
    "SELECT COUNT(*)::int FROM "@ + table + where_clause
}

/// The text of the statement that selects one page of the rows of `table`
/// that pass the clause.
pub open spec fn select_sql(
    table: Seq<char>,
    where_clause: Seq<char>,
    order: Seq<char>,
    limit: nat,
    offset: nat,
) -> Seq<char> {
    "SELECT * FROM "@ + table + where_clause + " ORDER BY "@ + order + " LIMIT "@ + decimal(limit)
        + " OFFSET "@ + decimal(offset)
}

/// The clause of an optional filter: no filter passes every row.
pub open spec fn clause_of(filter: Option<FilterNodeView>) -> Clause {
    match filter {
        Some(f) => compiled(f),
        None => Clause::empty(),
    }
}

/// The slots of a sequence of values.
pub open spec fn bound_all(params: Seq<Value>) -> Seq<Bound> {
    params.map_values(|v: Value| bound_of(v))
}

/// The two statements of a list query on `table`, ordered by `order`, for the
/// rows that pass `clause`. Both statements hold the same clause and the same
/// slots, so the count is that of the rows from which the page is cut.
pub open spec fn paged(
    table: Seq<char>,
    order: Seq<char>,
    clause: Clause,
    limit: Option<i32>,
    offset: Option<i32>,
) -> (StatementView, StatementView) {
    (
        StatementView {
            sql: count_sql(table, where_text(clause)),
            params: bound_all(clause.params),
        },
        StatementView {
            sql: select_sql(
                table,
                where_text(clause),
                order,
                page_limit(limit),
                page_offset(offset),
            ),
            params: bound_all(clause.params),
        },
    )
}

/// The page size for a requested limit.
pub fn clamp_limit(limit: Option<i32>) -> (r: i32)
    ensures
        r == page_limit(limit),
        1 <= r <= 200,
{
    match limit {
        None => 10,
        Some(l) => if l < 1 {
            1
        } else if l > 200 {
            200
        } else {
            l
        },
    }
}

/// The number of rows to skip for a requested offset.
pub fn clamp_offset(offset: Option<i32>) -> (r: i32)
    ensures
        r == page_offset(offset),
        r >= 0,
{
    match offset {
        None => 0,
        Some(o) => if o < 0 {
            0
        } else {
            o
        },
    }
}

/// A copy of a list of slots.
fn copy_slots(slots: &Vec<BoundParam>) -> (copy: Vec<BoundParam>)
    ensures
        bounds(copy@) == bounds(slots@),
{
    let mut copy: Vec<BoundParam> = Vec::new();
    let mut i: usize = 0;
    while i < slots.len()
        invariant
            i <= slots.len(),
            copy@.len() == i,
            forall|j: int| 0 <= j < i ==> #[trigger] copy@[j]@ == slots@[j]@,
        decreases slots.len() - i,
    {
        copy.push(slots[i].clone());
        i = i + 1;
    }
    assert(bounds(copy@) =~= bounds(slots@));
    copy
}

/// The two statements of a list query on `table`, for a compiled clause.
pub fn paged_query(
    table: &str,
    order: &str,
    where_clause: &str,
    params: Vec<ParamValue>,
    limit: Option<i32>,
    offset: Option<i32>,
) -> (q: PagedQuery)
    ensures
        q.count@.sql == count_sql(table@, where_clause@),
        q.select@.sql == select_sql(
            table@,
            where_clause@,
            order@,
            page_limit(limit),
            page_offset(offset),
        ),
        q.count@.params == bound_all(values(params@)),
        q.select@.params == bound_all(values(params@)),
{
    let limit = clamp_limit(limit);
    let offset = clamp_offset(offset);
    let slots = bind_dynamic_params(params);
    let mut count = String::new();
    count.append("SELECT COUNT(*)::int FROM ");
    count.append(table);
    count.append(where_clause);
    let mut select = String::new();
    select.append("SELECT * FROM ");
    select.append(table);
    select.append(where_clause);
    select.append(" ORDER BY ");
    select.append(order);
    select.append(" LIMIT ");
    push_decimal(&mut select, limit as usize);
    select.append(" OFFSET ");
    push_decimal(&mut select, offset as usize);
    let count_slots = copy_slots(&slots);
    PagedQuery {
        count: Statement { sql: count, params: count_slots },
        select: Statement { sql: select, params: slots },
    }
}

/// The root of the queries.
#[derive(Clone, Copy, Debug, Default, PartialEq, Eq)]
pub struct Query;

impl Query {
    /// The statements that list users: those that pass `filters`, ordered by
    /// `id`, one page at a time.
    pub fn users(&self, filters: Option<UserFilters>, limit: Option<i32>, offset: Option<i32>) -> (q:
        PagedQuery)
        ensures
            (q.count@, q.select@) == paged(
                "users"@,
                "id ASC"@,
                clause_of(
                    match filters {
                        Some(f) => Some(f@),
                        None => None,
                    },
                ),
                limit,
                offset,
            ),
    {
        match filters {
            Some(f) => {
                let (where_clause, params) = f.build_where_clause();
                paged_query("users", "id ASC", where_clause.as_str(), params, limit, offset)
            },
            None => {
                let params: Vec<ParamValue> = Vec::new();
                proof {
                    reveal_strlit("");
                    assert(values(params@) =~= Clause::empty().params);
                    assert(""@ =~= where_text(Clause::empty()));
                }
                paged_query("users", "id ASC", "", params, limit, offset)
            },
        }
    }

    /// The statements that list posts: those that pass `filters`, the newest
    /// first, one page at a time.
    pub fn posts(&self, filters: Option<PostFilters>, limit: Option<i32>, offset: Option<i32>) -> (q:
        PagedQuery)
        ensures
            (q.count@, q.select@) == paged(
                "posts"@,
                "created_at DESC"@,
                clause_of(
                    match filters {
                        Some(f) => Some(f@),
                        None => None,
                    },
                ),
                limit,
                offset,
            ),
    {
        match filters {
            Some(f) => {
                let (where_clause, params) = f.build_where_clause();
                paged_query("posts", "created_at DESC", where_clause.as_str(), params, limit, offset)
            },
            None => {
                let params: Vec<ParamValue> = Vec::new();
                proof {
                    reveal_strlit("");
                    assert(values(params@) =~= Clause::empty().params);
                    assert(""@ =~= where_text(Clause::empty()));
                }
                paged_query("posts", "created_at DESC", "", params, limit, offset)
            },
        }
    }
}

/// The statement that loads the posts of the user `user_id`.
pub fn posts_of_user(user_id: i32) -> (s: Statement)
    ensures
        s@.sql == "SELECT * FROM posts WHERE user_id = $1"@,
        s@.params == seq![Bound::Int4(user_id)],
{
    let mut params: Vec<BoundParam> = Vec::new();
    params.push(BoundParam::Int4(user_id));
    let s = Statement { sql: "SELECT * FROM posts WHERE user_id = $1".to_owned(), params };
    assert(s@.params =~= seq![Bound::Int4(user_id)]);
    s
}

/// The statement that loads the author of a post, if the post has one.
pub fn user_of_post(user_id: Option<i32>) -> (s: Option<Statement>)
    ensures
        match user_id {
            Some(id) => s is Some && s->0@.sql == "SELECT * FROM users WHERE id = $1"@ && s->0@.params
                == seq![Bound::Int4(id)],
            None => s is None,
        },
{
    match user_id {
        Some(id) => {
            let mut params: Vec<BoundParam> = Vec::new();
            params.push(BoundParam::Int4(id));
            let s = Statement { sql: "SELECT * FROM users WHERE id = $1".to_owned(), params };
            assert(s@.params =~= seq![Bound::Int4(id)]);
            Some(s)
        },
        None => None,
    }
}

/// What a new post is made of.
#[derive(Debug, PartialEq, Eq)]
pub struct CreatePostInput {
    pub user_id: i32,
    pub title: String,
    pub content: Option<String>,
}

/// What is to change in the post `id`.
#[derive(Debug, PartialEq, Eq)]
pub struct UpdatePostInput {
    pub id: i32,
    pub title: Option<String>,
    pub content: Option<String>,
}

/// Why a mutation was refused before any statement was made.
#[derive(Clone, Copy, Debug, PartialEq, Eq)]
pub enum MutationError {
    /// The title of a new post is empty or white space only.
    EmptyTitle,
    /// An update sets neither the title nor the content.
    NothingToUpdate,
}

impl MutationError {
    /// The message for the client.
    pub fn message(&self) -> (m: String)
        ensures
            m@ == (match *self {
                MutationError::EmptyTitle => "Title cannot be empty"@,
                MutationError::NothingToUpdate => "Nothing to update"@,
            }),
    {
        match self {
            MutationError::EmptyTitle => "Title cannot be empty".to_owned(),
            MutationError::NothingToUpdate => "Nothing to update".to_owned(),
        }
    }
}

/// The slot of a post's content: the content without the white space around
/// it, or NULL where nothing is left or no content is given.
pub open spec fn content_slot(content: Option<Seq<char>>) -> Bound {
    match content {
        Some(c) => if trimmed(c).len() == 0 {
            Bound::Null
        } else {
            Bound::Text(trimmed(c))
        },
        None => Bound::Null,
    }
}

/// The columns that a statement on posts returns.
pub open spec fn returning() -> Seq<char> {
    " RETURNING id, user_id, title, created_at, updated_at, content"@
}

/// The text of the statement that inserts a post.
pub open spec fn create_post_sql() -> Seq<char> {
    "INSERT INTO posts (user_id, title, content, created_at, updated_at) VALUES ($1, $2, $3, NOW(), NOW())"@
        + returning()
}

/// The text of the statement that updates a post, by what it sets. The time
/// of the update is always set.
pub open spec fn update_post_sql(title: bool, content: bool) -> Seq<char> {
    (if title && content {
        "UPDATE posts SET title = $1, content = $2, updated_at = NOW() WHERE id = $3"@
    } else if title {
        "UPDATE posts SET title = $1, updated_at = NOW() WHERE id = $2"@
    } else {
        "UPDATE posts SET content = $1, updated_at = NOW() WHERE id = $2"@
    }) + returning()
}

/// The slots of the statement that updates a post: the title as it is given,
/// the content without the white space around it, and the id, each only if it
/// has a placeholder.
pub open spec fn update_post_params(
    id: i32,
    title: Option<Seq<char>>,
    content: Option<Seq<char>>,
) -> Seq<Bound> {
    (match title {
        Some(t) => seq![Bound::Text(t)],
        None => Seq::empty(),
    }) + (match content {
        Some(c) => seq![content_slot(Some(c))],
        None => Seq::empty(),
    }) + seq![Bound::Int4(id)]
}

/// The slot of a post's content.
fn normalize_content(content: &String) -> (slot: BoundParam)
    ensures
        slot@ == content_slot(Some(content@)),
{
    let text = trim(content.as_str());
    if text.unicode_len() == 0 {
        BoundParam::Null
    } else {
        BoundParam::Text(text.to_owned())
    }
}

/// The root of the mutations.
#[derive(Clone, Copy, Debug, Default, PartialEq, Eq)]
pub struct Mutation;

impl Mutation {
    /// The statement that inserts a post. The title is taken without the
    /// white space around it and must not be empty.
    pub fn create_post(&self, input: CreatePostInput) -> (r: Result<Statement, MutationError>)
        ensures
            trimmed(input.title@).len() == 0 ==> r == Err::<Statement, MutationError>(
                MutationError::EmptyTitle,
            ),
            trimmed(input.title@).len() > 0 ==> r is Ok && r->Ok_0@.sql == create_post_sql()
                && r->Ok_0@.params == seq![
                Bound::Int4(input.user_id),
                Bound::Text(trimmed(input.title@)),
                content_slot(crate::filter::text_of(input.content)),
            ],
    {
        let title = trim(input.title.as_str());
        if title.unicode_len() == 0 {
            return Err(MutationError::EmptyTitle);
        }
        let content = match &input.content {
            Some(c) => normalize_content(c),
            None => BoundParam::Null,
        };
        let mut sql = String::new();
        sql.append(
            "INSERT INTO posts (user_id, title, content, created_at, updated_at) VALUES ($1, $2, $3, NOW(), NOW())",
        );
        sql.append(" RETURNING id, user_id, title, created_at, updated_at, content");
        let mut params: Vec<BoundParam> = Vec::new();
        params.push(BoundParam::Int4(input.user_id));
        params.push(BoundParam::Text(title.to_owned()));
        params.push(content);
        let s = Statement { sql, params };
        assert(s@.params =~= seq![
            Bound::Int4(input.user_id),
            Bound::Text(trimmed(input.title@)),
            content_slot(crate::filter::text_of(input.content)),
        ]);
        Ok(s)
    }

    /// The statement that updates a post. Something must be set, the title or
    /// the content.
    pub fn update_post(&self, input: UpdatePostInput) -> (r: Result<Statement, MutationError>)
        ensures
            input.title is None && input.content is None ==> r == Err::<Statement, MutationError>(
                MutationError::NothingToUpdate,
            ),
            input.title is Some || input.content is Some ==> r is Ok && r->Ok_0@.sql
                == update_post_sql(input.title is Some, input.content is Some) && r->Ok_0@.params
                == update_post_params(
                input.id,
                crate::filter::text_of(input.title),
                crate::filter::text_of(input.content),
            ),
    {
        if input.title.is_none() && input.content.is_none() {
            return Err(MutationError::NothingToUpdate);
        }
        let mut sql = String::new();
        let mut params: Vec<BoundParam> = Vec::new();
        let ghost expected = update_post_params(
            input.id,
            crate::filter::text_of(input.title),
            crate::filter::text_of(input.content),
        );
        let has_title = input.title.is_some();
        let has_content = input.content.is_some();
        if has_title && has_content {
            sql.append("UPDATE posts SET title = $1, content = $2, updated_at = NOW() WHERE id = $3");
        } else if has_title {
            sql.append("UPDATE posts SET title = $1, updated_at = NOW() WHERE id = $2");
        } else {
            sql.append("UPDATE posts SET content = $1, updated_at = NOW() WHERE id = $2");
        }
        sql.append(" RETURNING id, user_id, title, created_at, updated_at, content");
        if let Some(title) = &input.title {
            params.push(BoundParam::Text(title.clone()));
        }
        if let Some(content) = &input.content {
            params.push(normalize_content(content));
        }
        params.push(BoundParam::Int4(input.id));
        let s = Statement { sql, params };
        assert(s@.params =~= expected);
        Ok(s)
    }

    /// The statement that deletes the post `id`.
    pub fn delete_post(&self, id: i32) -> (s: Statement)
        ensures
            s@.sql == "DELETE FROM posts WHERE id = $1"@,
            s@.params == seq![Bound::Int4(id)],
    {
        let mut params: Vec<BoundParam> = Vec::new();
        params.push(BoundParam::Int4(id));
        let s = Statement { sql: "DELETE FROM posts WHERE id = $1".to_owned(), params };
        assert(s@.params =~= seq![Bound::Int4(id)]);
        s
    }

    /// Whether a post was deleted, by the number of rows that the statement
    /// of [`Mutation::delete_post`] affected.
    pub fn deleted(&self, rows_affected: u64) -> (r: bool)
        ensures
            r == (rows_affected > 0),
    {
        rows_affected > 0
    }
}

} // verus!
