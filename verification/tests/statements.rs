use backend::bind::BoundParam;
use backend::cors::{cors_layer, CorsPolicy};
use backend::db::init_postgres;
use backend::entity::{PostFilters, UserFilters};
use backend::filter::{IntFilter, StringFilter};
use backend::resolvers::{
    clamp_limit, clamp_offset, paged_query, posts_of_user, user_of_post, CreatePostInput, Mutation,
    MutationError, Query, UpdatePostInput,
};
use backend::text::{parse_unsigned, split_at, trim, whitespace};
use backend::value::ParamValue;

const RETURNING: &str = " RETURNING id, user_id, title, created_at, updated_at, content";

fn text(s: &str) -> BoundParam {
    BoundParam::Text(s.to_string())
}

#[test]
fn limit_is_clamped() {
    assert_eq!(clamp_limit(None), 10);
    assert_eq!(clamp_limit(Some(0)), 1);
    assert_eq!(clamp_limit(Some(-5)), 1);
    assert_eq!(clamp_limit(Some(1)), 1);
    assert_eq!(clamp_limit(Some(50)), 50);
    assert_eq!(clamp_limit(Some(200)), 200);
    assert_eq!(clamp_limit(Some(201)), 200);
    assert_eq!(clamp_limit(Some(i32::MAX)), 200);
    assert_eq!(clamp_limit(Some(i32::MIN)), 1);
}

#[test]
fn offset_is_never_negative() {
    assert_eq!(clamp_offset(None), 0);
    assert_eq!(clamp_offset(Some(-1)), 0);
    assert_eq!(clamp_offset(Some(0)), 0);
    assert_eq!(clamp_offset(Some(40)), 40);
    assert_eq!(clamp_offset(Some(i32::MAX)), i32::MAX);
}

#[test]
fn users_without_filter() {
    let q = Query.users(None, None, None);
    assert_eq!(q.count.sql, "SELECT COUNT(*)::int FROM users");
    assert_eq!(q.select.sql, "SELECT * FROM users ORDER BY id ASC LIMIT 10 OFFSET 0");
    assert!(q.count.params.is_empty());
    assert!(q.select.params.is_empty());
}

#[test]
fn users_with_filter_share_clause_and_slots() {
    let filters = UserFilters {
        id: None,
        name: Some(StringFilter {
            equals: None,
            contains: Some("ann".to_string()),
            starts_with: None,
            ends_with: None,
            contains_insensitive: None,
        }),
        age: Some(IntFilter { equals: None, gt: None, lt: None, gte: Some(18), lte: None }),
        email: None,
        phone: None,
        and: None,
        or: None,
    };
    let q = Query.users(Some(filters), Some(500), Some(-3));
    assert_eq!(
        q.count.sql,
        "SELECT COUNT(*)::int FROM users WHERE name LIKE $1 AND age >= $2"
    );
    assert_eq!(
        q.select.sql,
        "SELECT * FROM users WHERE name LIKE $1 AND age >= $2 ORDER BY id ASC LIMIT 200 OFFSET 0"
    );
    assert_eq!(q.count.params, vec![text("%ann%"), BoundParam::Int4(18)]);
    assert_eq!(q.count.params, q.select.params);
}

#[test]
fn posts_are_listed_newest_first() {
    let filters = PostFilters {
        id: None,
        user_id: Some(IntFilter { equals: Some(3), gt: None, lt: None, gte: None, lte: None }),
        title: None,
        content: None,
        or: None,
    };
    let q = Query.posts(Some(filters), Some(25), Some(50));
    assert_eq!(q.count.sql, "SELECT COUNT(*)::int FROM posts WHERE user_id = $1");
    assert_eq!(
        q.select.sql,
        "SELECT * FROM posts WHERE user_id = $1 ORDER BY created_at DESC LIMIT 25 OFFSET 50"
    );
    assert_eq!(q.select.params, vec![BoundParam::Int4(3)]);
    assert_eq!(q.count.params, q.select.params);
    let all = Query::default().posts(None, Some(1), Some(2147483647));
    assert_eq!(
        all.select.sql,
        "SELECT * FROM posts ORDER BY created_at DESC LIMIT 1 OFFSET 2147483647"
    );
}

#[test]
fn paged_query_binds_the_values() {
    let q = paged_query(
        "t",
        "a DESC",
        " WHERE a = $1 AND b = $2",
        vec![ParamValue::Text("2024-01-01T00:00:00Z".to_string()), ParamValue::Null],
        Some(7),
        Some(9),
    );
    assert_eq!(q.count.sql, "SELECT COUNT(*)::int FROM t WHERE a = $1 AND b = $2");
    assert_eq!(
        q.select.sql,
        "SELECT * FROM t WHERE a = $1 AND b = $2 ORDER BY a DESC LIMIT 7 OFFSET 9"
    );
    let slots = vec![BoundParam::Timestamp { seconds: 1704067200, nanos: 0 }, BoundParam::Null];
    assert_eq!(q.count.params, slots);
    assert_eq!(q.select.params, slots);
}

#[test]
fn relation_statements() {
    let s = posts_of_user(7);
    assert_eq!(s.sql, "SELECT * FROM posts WHERE user_id = $1");
    assert_eq!(s.params, vec![BoundParam::Int4(7)]);
    let u = user_of_post(Some(4)).unwrap();
    assert_eq!(u.sql, "SELECT * FROM users WHERE id = $1");
    assert_eq!(u.params, vec![BoundParam::Int4(4)]);
    assert_eq!(user_of_post(None), None);
}

#[test]
fn create_post_trims_title_and_content() {
    let input = CreatePostInput {
        user_id: 3,
        title: "  Hello \n".to_string(),
        content: Some("\tbody  ".to_string()),
    };
    let s = Mutation.create_post(input).unwrap();
    assert_eq!(
        s.sql,
        format!(
            "INSERT INTO posts (user_id, title, content, created_at, updated_at) VALUES ($1, $2, $3, NOW(), NOW()){}",
            RETURNING
        )
    );
    assert_eq!(s.params, vec![BoundParam::Int4(3), text("Hello"), text("body")]);
}

#[test]
fn create_post_title_is_not_read_as_a_timestamp() {
    let input = CreatePostInput {
        user_id: 1,
        title: "2024-01-01T00:00:00Z".to_string(),
        content: None,
    };
    let s = Mutation.create_post(input).unwrap();
    assert_eq!(s.params, vec![BoundParam::Int4(1), text("2024-01-01T00:00:00Z"), BoundParam::Null]);
}

#[test]
fn create_post_blank_content_is_null() {
    for content in [None, Some(String::new()), Some(" \u{3000}\t".to_string())] {
        let input = CreatePostInput { user_id: 1, title: "t".to_string(), content };
        let s = Mutation.create_post(input).unwrap();
        assert_eq!(s.params, vec![BoundParam::Int4(1), text("t"), BoundParam::Null]);
    }
}

#[test]
fn create_post_refuses_an_empty_title() {
    for title in ["", "   ", "\n\t", "\u{a0}\u{2003}"] {
        let input = CreatePostInput { user_id: 1, title: title.to_string(), content: None };
        assert_eq!(Mutation.create_post(input), Err(MutationError::EmptyTitle));
    }
    assert_eq!(MutationError::EmptyTitle.message(), "Title cannot be empty");
}

#[test]
fn update_post_title_only() {
    let input = UpdatePostInput { id: 9, title: Some(" New ".to_string()), content: None };
    let s = Mutation.update_post(input).unwrap();
    assert_eq!(
        s.sql,
        format!("UPDATE posts SET title = $1, updated_at = NOW() WHERE id = $2{}", RETURNING)
    );
    assert_eq!(s.params, vec![text(" New "), BoundParam::Int4(9)]);
}

#[test]
fn update_post_content_only() {
    let input = UpdatePostInput { id: 9, title: None, content: Some(" c ".to_string()) };
    let s = Mutation.update_post(input).unwrap();
    assert_eq!(
        s.sql,
        format!("UPDATE posts SET content = $1, updated_at = NOW() WHERE id = $2{}", RETURNING)
    );
    assert_eq!(s.params, vec![text("c"), BoundParam::Int4(9)]);
}

#[test]
fn update_post_both() {
    let input =
        UpdatePostInput { id: 9, title: Some("t".to_string()), content: Some("  ".to_string()) };
    let s = Mutation.update_post(input).unwrap();
    assert_eq!(
        s.sql,
        format!(
            "UPDATE posts SET title = $1, content = $2, updated_at = NOW() WHERE id = $3{}",
            RETURNING
        )
    );
    assert_eq!(s.params, vec![text("t"), BoundParam::Null, BoundParam::Int4(9)]);
}

#[test]
fn update_post_refuses_an_empty_update() {
    let input = UpdatePostInput { id: 9, title: None, content: None };
    assert_eq!(Mutation.update_post(input), Err(MutationError::NothingToUpdate));
    assert_eq!(MutationError::NothingToUpdate.message(), "Nothing to update");
}

#[test]
fn delete_post_statement_and_outcome() {
    let s = Mutation::default().delete_post(12);
    assert_eq!(s.sql, "DELETE FROM posts WHERE id = $1");
    assert_eq!(s.params, vec![BoundParam::Int4(12)]);
    assert!(!Mutation.deleted(0));
    assert!(Mutation.deleted(1));
    assert!(Mutation.deleted(u64::MAX));
}

#[test]
fn cors_any_origin() {
    assert_eq!(cors_layer(None), CorsPolicy::AllowAny);
    assert_eq!(cors_layer(Some("*")), CorsPolicy::AllowAny);
}

#[test]
fn cors_listed_origins_are_trimmed() {
    let policy = cors_layer(Some("https://a.example , http://b.example:3000"));
    assert_eq!(
        policy,
        CorsPolicy::AllowList(vec![
            "https://a.example".to_string(),
            "http://b.example:3000".to_string()
        ])
    );
}

#[test]
fn cors_drops_what_cannot_be_a_header_value() {
    let policy = cors_layer(Some("https://a.example,bad\u{1}origin,x\u{7f},caf\u{e9},a\tb,"));
    assert_eq!(
        policy,
        CorsPolicy::AllowList(vec![
            "https://a.example".to_string(),
            "caf\u{e9}".to_string(),
            "a\tb".to_string(),
            String::new(),
        ])
    );
    assert_eq!(cors_layer(Some("")), CorsPolicy::AllowList(vec![String::new()]));
    assert_eq!(cors_layer(Some(" * ")), CorsPolicy::AllowList(vec!["*".to_string()]));
}

#[test]
fn pool_size_defaults_to_ten() {
    let url = "postgres://localhost/app".to_string();
    assert_eq!(init_postgres(url.clone(), None).max_connections, 10);
    assert_eq!(init_postgres(url.clone(), Some("25")).max_connections, 25);
    assert_eq!(init_postgres(url.clone(), Some("abc")).max_connections, 10);
    assert_eq!(init_postgres(url.clone(), Some("")).max_connections, 10);
    assert_eq!(init_postgres(url.clone(), Some(" 5")).max_connections, 10);
    assert_eq!(init_postgres(url.clone(), Some("0")).max_connections, 0);
    assert_eq!(init_postgres(url.clone(), Some("25")).database_url, url);
}

#[test]
fn unsigned_numerals_read_as_the_standard_library_reads_them() {
    for s in [
        "0", "7", "007", "+5", "+", "-5", "", "4294967295", "4294967296", "99999999999999999999",
        "1_0", "1 ", " 1", "12a", "++1", "+0", "\u{661}", "1.0", "00000000000000000000001",
    ] {
        assert_eq!(parse_unsigned(s), s.parse::<u32>().ok(), "{:?}", s);
    }
}

#[test]
fn trim_agrees_with_the_standard_library() {
    for s in [
        "", " ", "a", " a ", "\t\n a b \r\n", "\u{a0}x\u{3000}", "\u{2003}\u{2028} y z\u{205f}",
        "\u{200b}x", "\u{180e}x ", "x\u{85}", "\u{1680}\u{202f}\u{2029}", "é ", " ü",
    ] {
        assert_eq!(trim(s), s.trim(), "{:?}", s);
    }
    for code in 0..0x3100u32 {
        if let Some(c) = char::from_u32(code) {
            assert_eq!(whitespace(c), c.is_whitespace(), "{:x}", code);
        }
    }
}

#[test]
fn split_agrees_with_the_standard_library() {
    for s in ["", ",", "a", "a,b", "a,,b", ",a,", "a, b ,c", "é,ü"] {
        let expected: Vec<String> = s.split(',').map(|p| p.to_string()).collect();
        assert_eq!(split_at(s, ','), expected, "{:?}", s);
    }
}
