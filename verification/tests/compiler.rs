use backend::clause::{CompiledClause, Segment};
use backend::entity::{PostFilters, UserFilters};
use backend::filter::{Field, FilterNode, IntFilter, Predicate, StringFilter};
use backend::value::ParamValue;

fn int_eq(v: i32) -> IntFilter {
    IntFilter { equals: Some(v), gt: None, lt: None, gte: None, lte: None }
}

fn no_text() -> StringFilter {
    StringFilter {
        equals: None,
        contains: None,
        starts_with: None,
        ends_with: None,
        contains_insensitive: None,
    }
}

fn text_eq(v: &str) -> StringFilter {
    StringFilter { equals: Some(v.to_string()), ..no_text() }
}

fn no_user() -> UserFilters {
    UserFilters { id: None, name: None, age: None, email: None, phone: None, and: None, or: None }
}

fn int_field(name: &str, f: IntFilter) -> Field {
    Field { name: name.to_string(), predicate: Predicate::Int(f) }
}

fn node(fields: Vec<Field>) -> FilterNode {
    FilterNode { fields, and: None, or: None }
}

/// A node with `n` equality conditions on the fields `f1`, `f2`, ..
fn wide(n: i32) -> FilterNode {
    node((1..=n).map(|i| int_field(&format!("f{}", i), int_eq(i))).collect())
}

/// The placeholder indices of a text, in order of occurrence.
fn placeholders(sql: &str) -> Vec<usize> {
    let bytes = sql.as_bytes();
    let mut found = Vec::new();
    let mut i = 0;
    while i < bytes.len() {
        if bytes[i] == b'$' {
            let mut j = i + 1;
            while j < bytes.len() && bytes[j].is_ascii_digit() {
                j += 1;
            }
            found.push(sql[i + 1..j].parse().unwrap());
            i = j;
        } else {
            i += 1;
        }
    }
    found
}

#[test]
fn nested_or_scenario_exact_text_and_params() {
    let filters = UserFilters {
        id: Some(int_eq(1)),
        or: Some(vec![
            UserFilters { id: Some(int_eq(2)), ..no_user() },
            UserFilters { name: Some(text_eq("Test")), ..no_user() },
        ]),
        ..no_user()
    };
    let (clause, params) = filters.build_where_clause();
    assert_eq!(clause, " WHERE id = $1 AND (id = $2) OR (name = $3)");
    assert_eq!(
        params,
        vec![ParamValue::Int(1), ParamValue::Int(2), ParamValue::Text("Test".to_string())]
    );
}

#[test]
fn nested_and_exact_text() {
    let filters = UserFilters {
        id: Some(int_eq(1)),
        and: Some(vec![
            UserFilters { name: Some(text_eq("John")), ..no_user() },
            UserFilters { age: Some(int_eq(25)), ..no_user() },
        ]),
        ..no_user()
    };
    let (clause, params) = filters.build_where_clause();
    assert_eq!(clause, " WHERE id = $1 AND (name = $2) AND (age = $3)");
    assert_eq!(
        params,
        vec![ParamValue::Int(1), ParamValue::Text("John".to_string()), ParamValue::Int(25)]
    );
}

#[test]
fn and_group_stands_before_or_group() {
    let filters = UserFilters {
        age: Some(int_eq(7)),
        and: Some(vec![UserFilters { id: Some(int_eq(1)), ..no_user() }]),
        or: Some(vec![
            UserFilters { id: Some(int_eq(2)), ..no_user() },
            UserFilters { id: Some(int_eq(3)), ..no_user() },
        ]),
        ..no_user()
    };
    let (clause, params) = filters.build_where_clause();
    assert_eq!(clause, " WHERE age = $1 AND (id = $2) AND (id = $3) OR (id = $4)");
    assert_eq!(
        params,
        vec![ParamValue::Int(7), ParamValue::Int(1), ParamValue::Int(2), ParamValue::Int(3)]
    );
}

#[test]
fn inner_clause_has_no_where_keyword() {
    let filters = PostFilters {
        id: Some(int_eq(5)),
        user_id: None,
        title: None,
        content: None,
        or: None,
    };
    let (inner, params) = filters.build_where_clause_inner();
    assert_eq!(inner, "id = $1");
    assert_eq!(params, vec![ParamValue::Int(5)]);
    let (outer, _) = filters.build_where_clause();
    assert_eq!(outer, " WHERE id = $1");
}

#[test]
fn operators_of_one_predicate_come_in_declaration_order() {
    let all = IntFilter { equals: Some(1), gt: Some(2), lt: Some(3), gte: Some(4), lte: Some(5) };
    let (clause, params) = UserFilters { age: Some(all), ..no_user() }.build_where_clause();
    assert_eq!(
        clause,
        " WHERE age = $1 AND age > $2 AND age < $3 AND age >= $4 AND age <= $5"
    );
    assert_eq!(params, (1..=5).map(ParamValue::Int).collect::<Vec<_>>());
}

#[test]
fn range_gives_two_conditions_in_order() {
    let range = IntFilter { equals: None, gt: None, lt: None, gte: Some(18), lte: Some(65) };
    let (clause, params) = UserFilters { age: Some(range), ..no_user() }.build_where_clause();
    assert_eq!(clause, " WHERE age >= $1 AND age <= $2");
    assert_eq!(params, vec![ParamValue::Int(18), ParamValue::Int(65)]);
}

#[test]
fn text_operators_wrap_their_literal() {
    let all = StringFilter {
        equals: Some("a".to_string()),
        contains: Some("b".to_string()),
        starts_with: Some("c".to_string()),
        ends_with: Some("d".to_string()),
        contains_insensitive: Some("test".to_string()),
    };
    let (clause, params) = UserFilters { name: Some(all), ..no_user() }.build_where_clause();
    assert_eq!(
        clause,
        " WHERE name = $1 AND name LIKE $2 AND name LIKE $3 AND name LIKE $4 AND name ILIKE $5"
    );
    let texts: Vec<&str> = params.iter().map(|p| p.as_str().unwrap()).collect();
    assert_eq!(texts, vec!["a", "%b%", "c%", "%d", "%test%"]);
}

#[test]
fn case_insensitive_contains() {
    let f = StringFilter { contains_insensitive: Some("test".to_string()), ..no_text() };
    let (clause, params) = UserFilters { name: Some(f), ..no_user() }.build_where_clause();
    assert_eq!(clause, " WHERE name ILIKE $1");
    assert_eq!(params, vec![ParamValue::Text("%test%".to_string())]);
}

#[test]
fn values_never_reach_the_text() {
    let hostile = "x' OR 1=1; DROP TABLE users; -- $1";
    let (clause, params) =
        UserFilters { name: Some(text_eq(hostile)), ..no_user() }.build_where_clause();
    assert_eq!(clause, " WHERE name = $1");
    assert_eq!(params, vec![ParamValue::Text(hostile.to_string())]);
}

#[test]
fn fields_of_the_entities_keep_their_column_order() {
    let users = UserFilters {
        id: Some(int_eq(1)),
        name: Some(text_eq("n")),
        age: Some(int_eq(2)),
        email: Some(text_eq("e")),
        phone: Some(text_eq("p")),
        and: None,
        or: None,
    };
    assert_eq!(
        users.build_where_clause().0,
        " WHERE id = $1 AND name = $2 AND age = $3 AND email = $4 AND phone = $5"
    );
    let posts = PostFilters {
        id: Some(int_eq(1)),
        user_id: Some(int_eq(2)),
        title: Some(text_eq("t")),
        content: Some(text_eq("c")),
        or: None,
    };
    assert_eq!(
        posts.build_where_clause().0,
        " WHERE id = $1 AND user_id = $2 AND title = $3 AND content = $4"
    );
}

#[test]
fn empty_node_compiles_to_nothing() {
    let (clause, params) = FilterNode::new().build_where_clause();
    assert_eq!(clause, "");
    assert!(params.is_empty());
    let c = FilterNode::new().compile();
    assert!(c.is_empty());
    assert_eq!(c.render(), "");
}

#[test]
fn predicate_without_operators_contributes_nothing() {
    let none = IntFilter { equals: None, gt: None, lt: None, gte: None, lte: None };
    let filters = UserFilters { id: Some(none), name: Some(no_text()), ..no_user() };
    let (clause, params) = filters.build_where_clause();
    assert_eq!(clause, "");
    assert!(params.is_empty());
}

#[test]
fn empty_lists_contribute_nothing() {
    let filters =
        UserFilters { id: Some(int_eq(1)), and: Some(vec![]), or: Some(vec![]), ..no_user() };
    let (clause, params) = filters.build_where_clause();
    assert_eq!(clause, " WHERE id = $1");
    assert_eq!(params.len(), 1);
    let only_lists = UserFilters { and: Some(vec![]), or: Some(vec![]), ..no_user() };
    assert_eq!(only_lists.build_where_clause(), (String::new(), vec![]));
}

#[test]
fn empty_children_are_skipped_at_any_position() {
    let with_empty = UserFilters {
        or: Some(vec![
            no_user(),
            UserFilters { id: Some(int_eq(1)), ..no_user() },
            no_user(),
            UserFilters { id: Some(int_eq(2)), ..no_user() },
            UserFilters { and: Some(vec![no_user()]), ..no_user() },
        ]),
        ..no_user()
    };
    let without = UserFilters {
        or: Some(vec![
            UserFilters { id: Some(int_eq(1)), ..no_user() },
            UserFilters { id: Some(int_eq(2)), ..no_user() },
        ]),
        ..no_user()
    };
    assert_eq!(with_empty.build_where_clause(), without.build_where_clause());
    assert_eq!(with_empty.build_where_clause().0, " WHERE (id = $1) OR (id = $2)");
    let nothing = UserFilters { and: Some(vec![no_user(), no_user()]), ..no_user() };
    assert_eq!(nothing.build_where_clause(), (String::new(), vec![]));
}

#[test]
fn single_element_or_list_is_anded_in() {
    let filters = UserFilters {
        id: Some(int_eq(1)),
        or: Some(vec![UserFilters { id: Some(int_eq(2)), ..no_user() }]),
        ..no_user()
    };
    assert_eq!(filters.build_where_clause().0, " WHERE id = $1 AND (id = $2)");
}

#[test]
fn renumbering_keeps_multi_digit_indices_apart() {
    // Twelve parameters in each of two nested nodes: the second node's `$1`
    // becomes `$13` and its `$12` becomes `$24`.
    let n = FilterNode { fields: vec![], and: Some(vec![wide(12), wide(12)]), or: None };
    let (clause, params) = n.build_where_clause_inner();
    assert_eq!(placeholders(&clause), (1..=24).collect::<Vec<usize>>());
    assert_eq!(params.len(), 24);
    assert!(clause.contains("(f1 = $1 AND f2 = $2 AND "));
    assert!(clause.contains("f12 = $12) AND (f1 = $13 AND f2 = $14"));
    assert!(clause.ends_with("f11 = $23 AND f12 = $24)"));
    let expected: Vec<ParamValue> =
        (1..=12).chain(1..=12).map(|i| ParamValue::Int(i)).collect();
    assert_eq!(params, expected);
}

#[test]
fn renumbering_after_nine_parent_parameters() {
    // Nine parameters in the parent and two in the child: the child's `$2`
    // becomes `$11` and its `$1` becomes `$10`.
    let mut parent = wide(9);
    parent.or = Some(vec![wide(2)]);
    let (clause, params) = parent.build_where_clause_inner();
    assert!(clause.ends_with("f9 = $9 AND (f1 = $10 AND f2 = $11)"));
    assert_eq!(placeholders(&clause), (1..=11).collect::<Vec<usize>>());
    assert_eq!(params.len(), 11);
}

#[test]
fn placeholders_count_up_through_deep_nesting() {
    let mut n = wide(3);
    for depth in 0..6 {
        let mut outer = wide(2 + depth);
        outer.and = Some(vec![wide(1), n]);
        outer.or = Some(vec![wide(4), FilterNode::new(), wide(11)]);
        n = outer;
    }
    let c = n.compile();
    let sql = c.render();
    let found = placeholders(&sql);
    assert_eq!(found, (1..=c.params.len()).collect::<Vec<usize>>());
    let in_segments: Vec<usize> = c
        .segments
        .iter()
        .filter_map(|s| match s {
            Segment::Param(k) => Some(*k),
            Segment::Text(_) => None,
        })
        .collect();
    assert_eq!(in_segments, found);
}

#[test]
fn merge_renumbers_the_second_clause() {
    let mut a = CompiledClause::new();
    a.push_condition(" AND ", "x = ".to_string(), ParamValue::Int(1));
    a.push_condition(" AND ", "y = ".to_string(), ParamValue::Int(2));
    let mut b = CompiledClause::new();
    b.push_condition(" AND ", "z = ".to_string(), ParamValue::Int(3));
    a.merge(" OR ", b.enclose());
    assert_eq!(a.render(), "x = $1 AND y = $2 OR (z = $3)");
    assert_eq!(a.params, vec![ParamValue::Int(1), ParamValue::Int(2), ParamValue::Int(3)]);
    let mut e = CompiledClause::new();
    e.merge(" AND ", CompiledClause::new().enclose());
    assert!(e.is_empty());
    e.merge(" AND ", a);
    assert_eq!(e.render(), "x = $1 AND y = $2 OR (z = $3)");
}

#[test]
fn to_node_holds_the_present_fields() {
    let filters = PostFilters {
        id: None,
        user_id: Some(int_eq(2)),
        title: Some(text_eq("t")),
        content: None,
        or: Some(vec![]),
    };
    let expected = FilterNode {
        fields: vec![
            int_field("user_id", int_eq(2)),
            Field { name: "title".to_string(), predicate: Predicate::Text(text_eq("t")) },
        ],
        and: None,
        or: Some(vec![]),
    };
    assert_eq!(filters.to_node(), expected);
}

#[test]
fn param_value_accessors() {
    assert_eq!(ParamValue::Int(18).as_i64(), Some(18));
    assert_eq!(ParamValue::Text("a".to_string()).as_i64(), None);
    assert_eq!(ParamValue::Text("a".to_string()).as_str(), Some("a"));
    assert_eq!(ParamValue::Int(1).as_str(), None);
    assert_eq!(ParamValue::Bool(true).as_bool(), Some(true));
    assert_eq!(ParamValue::Null.as_bool(), None);
    assert!(ParamValue::Null.is_null());
    assert!(!ParamValue::Other.is_null());
    assert_eq!(ParamValue::Float(7).clone(), ParamValue::Float(7));
}
