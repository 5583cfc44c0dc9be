use memgraph::codec::decode;
use memgraph::codec::JsonValue;
use memgraph::flatten::process;
use memgraph::structs::WebsocketResponseResult;

fn s(x: &str) -> String {
    x.to_string()
}

fn frame_json(name: &str, url: &str) -> JsonValue {
    JsonValue::Obj(vec![
        (s("columnNumber"), JsonValue::Int(0)),
        (s("functionName"), JsonValue::Str(s(name))),
        (s("lineNumber"), JsonValue::Int(0)),
        (s("scriptId"), JsonValue::Str(s("1"))),
        (s("url"), JsonValue::Str(s(url))),
    ])
}

fn head_json(name: &str, url: &str, size: i64, children: Vec<JsonValue>) -> JsonValue {
    JsonValue::Obj(vec![
        (s("callFrame"), frame_json(name, url)),
        (s("children"), JsonValue::Arr(children)),
        (s("id"), JsonValue::Int(0)),
        (s("selfSize"), JsonValue::Int(size)),
    ])
}

#[test]
fn deep_single_child_chain_decodes_and_flattens() {
    let depth: usize = 100_000;
    let mut node = head_json("leaf", "l.js", 7, vec![]);
    for _ in 0..depth {
        node = head_json("", "", 0, vec![node]);
    }
    let msg = JsonValue::Obj(vec![
        (s("id"), JsonValue::Int(1)),
        (
            s("result"),
            JsonValue::Obj(vec![(
                s("profile"),
                JsonValue::Obj(vec![(s("head"), node), (s("samples"), JsonValue::Arr(vec![]))]),
            )]),
        ),
    ]);
    let head = match decode(msg) {
        Ok(m) => match m.result {
            WebsocketResponseResult::Profile { profile } => profile.head,
            WebsocketResponseResult::Normal {} => panic!("expected a profile payload"),
        },
        Err(_) => panic!("a deep well-formed chain must decode"),
    };
    let lines = process(head, String::new());
    assert_eq!(lines.len(), 1);
    let line = &lines[0];
    // One "; " segment per empty-named ancestor, then the leaf's own segment.
    assert_eq!(line.len(), 2 * depth + ";leaf l.js 7".len());
    assert!(line.starts_with("; ;"));
    assert!(line.ends_with(";leaf l.js 7"));
}
