use memgraph::codec::decode;
use memgraph::codec::JsonValue;
use memgraph::flatten::process;
use memgraph::structs::WebsocketResponse;
use memgraph::structs::WebsocketResponseResult;

fn s(x: &str) -> String {
    x.to_string()
}

fn frame_json(name: &str, url: &str) -> JsonValue {
    JsonValue::Obj(vec![
        (s("columnNumber"), JsonValue::Int(3)),
        (s("functionName"), JsonValue::Str(s(name))),
        (s("lineNumber"), JsonValue::Int(4)),
        (s("scriptId"), JsonValue::Str(s("55"))),
        (s("url"), JsonValue::Str(s(url))),
    ])
}

fn head_json(name: &str, url: &str, size: i64, children: Vec<JsonValue>) -> JsonValue {
    JsonValue::Obj(vec![
        (s("callFrame"), frame_json(name, url)),
        (s("children"), JsonValue::Arr(children)),
        (s("id"), JsonValue::Int(9)),
        (s("selfSize"), JsonValue::Int(size)),
    ])
}

fn sample_json(size: i64) -> JsonValue {
    JsonValue::Obj(vec![
        (s("nodeId"), JsonValue::Int(1)),
        (s("ordinal"), JsonValue::Int(2)),
        (s("size"), JsonValue::Int(size)),
    ])
}

fn profile_msg(id: JsonValue, head: JsonValue, samples: Vec<JsonValue>) -> JsonValue {
    JsonValue::Obj(vec![
        (s("id"), id),
        (
            s("result"),
            JsonValue::Obj(vec![(
                s("profile"),
                JsonValue::Obj(vec![
                    (s("head"), head),
                    (s("samples"), JsonValue::Arr(samples)),
                ]),
            )]),
        ),
    ])
}

fn ack_msg(id: JsonValue) -> JsonValue {
    JsonValue::Obj(vec![(s("id"), id), (s("result"), JsonValue::Obj(vec![]))])
}

fn expect_head(r: Result<WebsocketResponse, memgraph::codec::DecodeError>) -> memgraph::structs::ProfileHead {
    match r {
        Ok(m) => match m.result {
            WebsocketResponseResult::Profile { profile } => profile.head,
            WebsocketResponseResult::Normal {} => panic!("expected a profile payload"),
        },
        Err(_) => panic!("expected a well-formed message"),
    }
}

#[test]
fn empty_result_is_acknowledgement() {
    match decode(ack_msg(JsonValue::Int(0))) {
        Ok(m) => {
            assert_eq!(m.id, 0);
            assert!(matches!(m.result, WebsocketResponseResult::Normal {}));
        }
        Err(_) => panic!("an empty result object is a plain acknowledgement"),
    }
}

#[test]
fn nested_profile_is_tagged_profile() {
    let msg = profile_msg(
        JsonValue::Int(5),
        head_json("foo", "f.js", 42, vec![head_json("bar", "b.js", 7, vec![])]),
        vec![sample_json(16)],
    );
    let head = expect_head(decode(msg));
    assert_eq!(head.callFrame.functionName, "foo");
    assert_eq!(head.callFrame.url, "f.js");
    assert_eq!(head.selfSize, 42);
    assert_eq!(head.children.len(), 1);
    assert_eq!(head.children[0].callFrame.functionName, "bar");
    assert_eq!(head.children[0].selfSize, 7);
}

#[test]
fn decoded_profile_flattens_to_folded_lines() {
    let msg = profile_msg(
        JsonValue::Int(1),
        head_json("a", "a.js", 1, vec![head_json("b", "b.js", 10, vec![])]),
        vec![],
    );
    let head = expect_head(decode(msg));
    let lines = process(head, String::new());
    assert_eq!(lines, vec![";a a.js 1".to_string(), ";a a.js;b b.js 10".to_string()]);
}

#[test]
fn large_unsigned_id_is_accepted() {
    match decode(ack_msg(JsonValue::UInt(18446744073709551615))) {
        Ok(m) => assert_eq!(m.id, 18446744073709551615),
        Err(_) => panic!("an id that fits u64 is well-formed"),
    }
}

#[test]
fn non_object_message_is_error() {
    assert!(decode(JsonValue::Str(s("hello"))).is_err());
    assert!(decode(JsonValue::Null).is_err());
}

#[test]
fn wrong_envelope_key_is_error() {
    let msg = JsonValue::Obj(vec![(s("idx"), JsonValue::Int(0)), (s("result"), JsonValue::Obj(vec![]))]);
    assert!(decode(msg).is_err());
}

#[test]
fn negative_id_is_error() {
    assert!(decode(ack_msg(JsonValue::Int(-1))).is_err());
}

#[test]
fn nonempty_non_profile_result_is_error() {
    let msg = JsonValue::Obj(vec![
        (s("id"), JsonValue::Int(0)),
        (s("result"), JsonValue::Obj(vec![(s("ok"), JsonValue::Bool(true))])),
    ]);
    assert!(decode(msg).is_err());
}

#[test]
fn negative_self_size_is_error() {
    let msg = profile_msg(JsonValue::Int(0), head_json("f", "u", -5, vec![]), vec![]);
    assert!(decode(msg).is_err());
}

#[test]
fn malformed_nested_child_is_error() {
    let bad_child = JsonValue::Obj(vec![(s("oops"), JsonValue::Null)]);
    let msg = profile_msg(JsonValue::Int(0), head_json("f", "u", 1, vec![bad_child]), vec![]);
    assert!(decode(msg).is_err());
}

#[test]
fn children_not_array_is_error() {
    let node = JsonValue::Obj(vec![
        (s("callFrame"), frame_json("f", "u")),
        (s("children"), JsonValue::Null),
        (s("id"), JsonValue::Int(9)),
        (s("selfSize"), JsonValue::Int(1)),
    ]);
    let msg = profile_msg(JsonValue::Int(0), node, vec![]);
    assert!(decode(msg).is_err());
}

#[test]
fn malformed_sample_is_error() {
    let bad_sample = JsonValue::Obj(vec![(s("nodeId"), JsonValue::Int(1))]);
    let msg = profile_msg(JsonValue::Int(0), head_json("f", "u", 1, vec![]), vec![bad_sample]);
    assert!(decode(msg).is_err());
}

#[test]
fn non_integer_number_in_frame_is_error() {
    let frame = JsonValue::Obj(vec![
        (s("columnNumber"), JsonValue::NonInteger),
        (s("functionName"), JsonValue::Str(s("f"))),
        (s("lineNumber"), JsonValue::Int(4)),
        (s("scriptId"), JsonValue::Str(s("55"))),
        (s("url"), JsonValue::Str(s("u"))),
    ]);
    let node = JsonValue::Obj(vec![
        (s("callFrame"), frame),
        (s("children"), JsonValue::Arr(vec![])),
        (s("id"), JsonValue::Int(9)),
        (s("selfSize"), JsonValue::Int(1)),
    ]);
    let msg = profile_msg(JsonValue::Int(0), node, vec![]);
    assert!(decode(msg).is_err());
}

#[test]
fn extra_profile_field_is_error() {
    let msg = JsonValue::Obj(vec![
        (s("id"), JsonValue::Int(0)),
        (
            s("result"),
            JsonValue::Obj(vec![(
                s("profile"),
                JsonValue::Obj(vec![
                    (s("extra"), JsonValue::Null),
                    (s("head"), head_json("f", "u", 1, vec![])),
                    (s("samples"), JsonValue::Arr(vec![])),
                ]),
            )]),
        ),
    ]);
    assert!(decode(msg).is_err());
}
