use backend::bind::{bind_dynamic_params, bind_value, read_instant, BoundParam};
use backend::value::ParamValue;

fn text(s: &str) -> ParamValue {
    ParamValue::Text(s.to_string())
}

#[test]
fn timestamp_string_binds_as_timestamp() {
    let slots = bind_dynamic_params(vec![text("2024-01-01T00:00:00Z")]);
    assert_eq!(slots, vec![BoundParam::Timestamp { seconds: 1704067200, nanos: 0 }]);
}

#[test]
fn plain_text_binds_as_text() {
    let slots = bind_dynamic_params(vec![text("plain text")]);
    assert_eq!(slots, vec![BoundParam::Text("plain text".to_string())]);
}

#[test]
fn null_binds_as_null() {
    assert_eq!(bind_dynamic_params(vec![ParamValue::Null]), vec![BoundParam::Null]);
    assert_eq!(bind_dynamic_params(vec![ParamValue::Other]), vec![BoundParam::Null]);
}

#[test]
fn timestamp_with_offset_and_fraction_is_taken_to_utc() {
    let slots = bind_dynamic_params(vec![text("1996-12-19T16:39:57.25-08:00")]);
    assert_eq!(slots, vec![BoundParam::Timestamp { seconds: 851042397, nanos: 250_000_000 }]);
}

#[test]
fn almost_a_timestamp_falls_back_to_text() {
    for s in ["2024-01-01", "2024-01-01T00:00:00", "2024-13-01T00:00:00Z", " 2024-01-01T00:00:00Z", ""] {
        assert_eq!(bind_dynamic_params(vec![text(s)]), vec![BoundParam::Text(s.to_string())]);
        assert_eq!(read_instant(&text(s)), None);
    }
}

#[test]
fn every_kind_binds_in_place() {
    let bits = 4609434218613702656u64;
    let slots = bind_dynamic_params(vec![
        ParamValue::Int(18),
        text("a"),
        ParamValue::Bool(true),
        ParamValue::Null,
        ParamValue::Float(bits),
        text("2024-01-01T00:00:00Z"),
        ParamValue::Int(-3),
        ParamValue::Bool(false),
    ]);
    assert_eq!(
        slots,
        vec![
            BoundParam::Int4(18),
            BoundParam::Text("a".to_string()),
            BoundParam::Bool(true),
            BoundParam::Null,
            BoundParam::Float8(bits),
            BoundParam::Timestamp { seconds: 1704067200, nanos: 0 },
            BoundParam::Int4(-3),
            BoundParam::Bool(false),
        ]
    );
    assert!(bind_dynamic_params(vec![]).is_empty());
}

#[test]
fn integers_keep_their_low_32_bits() {
    assert_eq!(bind_value(ParamValue::Int(2147483647), None), BoundParam::Int4(2147483647));
    assert_eq!(bind_value(ParamValue::Int(2147483648), None), BoundParam::Int4(-2147483648));
    assert_eq!(bind_value(ParamValue::Int(4294967297), None), BoundParam::Int4(1));
    assert_eq!(bind_value(ParamValue::Int(-1), None), BoundParam::Int4(-1));
    assert_eq!(bind_value(ParamValue::Int(i64::MIN), None), BoundParam::Int4(0));
}

#[test]
fn bind_value_uses_the_instant_for_text_only() {
    let instant = Some((5i64, 6u32));
    assert_eq!(bind_value(text("x"), instant), BoundParam::Timestamp { seconds: 5, nanos: 6 });
    assert_eq!(bind_value(text("x"), None), BoundParam::Text("x".to_string()));
    assert_eq!(bind_value(ParamValue::Int(1), instant), BoundParam::Int4(1));
    assert_eq!(bind_value(ParamValue::Bool(true), instant), BoundParam::Bool(true));
    assert_eq!(bind_value(ParamValue::Float(9), instant), BoundParam::Float8(9));
    assert_eq!(bind_value(ParamValue::Null, instant), BoundParam::Null);
    assert_eq!(bind_value(ParamValue::Other, instant), BoundParam::Null);
}

#[test]
fn read_instant_of_other_kinds_is_none() {
    assert_eq!(read_instant(&ParamValue::Int(0)), None);
    assert_eq!(read_instant(&ParamValue::Null), None);
    assert_eq!(read_instant(&text("1970-01-01T00:00:01+00:00")), Some((1, 0)));
    assert_eq!(read_instant(&text("1970-01-01t00:00:00z")), Some((0, 0)));
}

#[test]
fn bound_param_clone_is_equal() {
    let t = BoundParam::Timestamp { seconds: 1, nanos: 2 };
    assert_eq!(t.clone(), t);
    let s = BoundParam::Text("a".to_string());
    assert_eq!(s.clone(), s);
}
