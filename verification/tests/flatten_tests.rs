use memgraph::flatten::dec_string;
use memgraph::flatten::process;
use memgraph::structs::CallFrame;
use memgraph::structs::ProfileHead;

fn node(name: &str, url: &str, size: u64, children: Vec<ProfileHead>) -> ProfileHead {
    ProfileHead {
        callFrame: CallFrame { functionName: name.to_string(), url: url.to_string() },
        selfSize: size,
        children,
    }
}

#[test]
fn path_correctness() {
    let b = node("bar", "b.js", 42, vec![]);
    let a = node("foo", "f.js", 7, vec![b]);
    let lines = process(a, String::new());
    assert_eq!(lines.len(), 2);
    assert_eq!(lines[0], ";foo f.js 7");
    assert_eq!(lines[1], ";foo f.js;bar b.js 42");
}

#[test]
fn empty_name_emits_no_line_but_children_keep_its_segment() {
    let c = node("c", "c.js", 7, vec![]);
    let e = node("", "", 1, vec![c]);
    let lines = process(e, String::new());
    assert_eq!(lines.len(), 1);
    assert_eq!(lines[0], "; ;c c.js 7");
}

#[test]
fn flattening_twice_yields_identical_output() {
    let build = || {
        node(
            "root",
            "r.js",
            1,
            vec![node("x", "x.js", 2, vec![node("", "anon.js", 3, vec![])]), node(
                "y",
                "y.js",
                4,
                vec![],
            )],
        )
    };
    let first = process(build(), String::new());
    let second = process(build(), String::new());
    assert_eq!(first, second);
}

#[test]
fn children_in_delivery_order() {
    let r = node("r", "r.js", 1, vec![
        node("x", "x.js", 2, vec![]),
        node("y", "y.js", 3, vec![]),
        node("z", "z.js", 4, vec![]),
    ]);
    let lines = process(r, String::new());
    assert_eq!(lines, vec![
        ";r r.js 1".to_string(),
        ";r r.js;x x.js 2".to_string(),
        ";r r.js;y y.js 3".to_string(),
        ";r r.js;z z.js 4".to_string(),
    ]);
}

#[test]
fn nonempty_root_prefix_is_kept() {
    let a = node("f", "u", 5, vec![]);
    let lines = process(a, "pre".to_string());
    assert_eq!(lines, vec!["pre;f u 5".to_string()]);
}

#[test]
fn decimal_rendering_exact() {
    assert_eq!(dec_string(0), "0");
    assert_eq!(dec_string(7), "7");
    assert_eq!(dec_string(10), "10");
    assert_eq!(dec_string(42), "42");
    assert_eq!(dec_string(1000), "1000");
    assert_eq!(dec_string(18446744073709551615), "18446744073709551615");
}
