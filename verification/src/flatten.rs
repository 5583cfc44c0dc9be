use vstd::prelude::*;

use crate::structs::CallFrame;
use crate::structs::ProfileHead;

verus! {

/// The decimal digit character for `d`, for `d < 10`.
pub open spec fn dec_digit(d: nat) -> char {
    if d == 0 {
        '0'
    } else if d == 1 {
        '1'
    } else if d == 2 {
        '2'
    } else if d == 3 {
        '3'
    } else if d == 4 {
        '4'
    } else if d == 5 {
        '5'
    } else if d == 6 {
        '6'
    } else if d == 7 {
        '7'
    } else if d == 8 {
        '8'
    } else {
        '9'
    }
}

/// The decimal rendering of `n`, most significant digit first, no leading zeros
/// (a single `'0'` for zero).
pub open spec fn dec_chars(n: nat) -> Seq<char>
    decreases n,
{
    if n < 10 {
        seq![dec_digit(n)]
    } else {
        dec_chars(n / 10) + seq![dec_digit(n % 10)]
    }
}

/// The call path of a frame whose ancestors form the path `base`:
/// `base`, `';'`, the function name, `' '`, the source url.
pub open spec fn path_of(base: Seq<char>, frame: CallFrame) -> Seq<char> {
    base + seq![';'] + frame.functionName@ + seq![' '] + frame.url@
}

/// One folded stack line: the call path, `' '`, the node's self size in decimal.
pub open spec fn line_of(path: Seq<char>, size: u64) -> Seq<char> {
    path + seq![' '] + dec_chars(size as nat)
}

/// All folded stack lines of the tree rooted at `node`, whose ancestors form
/// the path `base`: the node's own line first (only if its function name is
/// non-empty), then the lines of each child in delivery order. A node with an
/// empty function name emits no line of its own, but its path segment still
/// prefixes every descendant's line.
pub open spec fn flatten_node(node: ProfileHead, base: Seq<char>) -> Seq<Seq<char>>
    decreases node,
{
    let path = path_of(base, node.callFrame);
    let own = if node.callFrame.functionName@.len() > 0 {
        seq![line_of(path, node.selfSize)]
    } else {
        Seq::<Seq<char>>::empty()
    };
    own + flatten_seq(node.children@, path)
}

/// The folded stack lines of a forest, in order.
pub open spec fn flatten_seq(nodes: Seq<ProfileHead>, base: Seq<char>) -> Seq<Seq<char>>
    decreases nodes,
{
    if nodes.len() == 0 {
        Seq::<Seq<char>>::empty()
    } else {
        flatten_node(nodes[0], base) + flatten_seq(nodes.drop_first(), base)
    }
}

/// Flattening is a pure function of the tree and the path prefix alone: two
/// flattenings of equal trees from equal prefixes yield equal line
/// sequences.
pub proof fn lemma_flatten_deterministic(
    a: ProfileHead,
    b: ProfileHead,
    base_a: Seq<char>,
    base_b: Seq<char>,
)
    requires
        a == b,
        base_a == base_b,
    ensures
        flatten_node(a, base_a) == flatten_node(b, base_b),
{
}

/// A node with an empty function name emits no line of its own, but its
/// children are still flattened, from a path extended with its (empty)
/// segment.
pub proof fn lemma_empty_name_transparent(node: ProfileHead, base: Seq<char>)
    requires
        node.callFrame.functionName@.len() == 0,
    ensures
        flatten_node(node, base) == flatten_seq(node.children@, path_of(base, node.callFrame)),
{
    assert(flatten_node(node, base) =~~= flatten_seq(
        node.children@,
        path_of(base, node.callFrame),
    ));
}

/// The one-character string for a decimal digit.
fn digit_str(d: u64) -> (r: &'static str)
    requires
        d < 10,
    ensures
        r@ == seq![dec_digit(d as nat)],
{
    proof {
        reveal_strlit("0");
        reveal_strlit("1");
        reveal_strlit("2");
        reveal_strlit("3");
        reveal_strlit("4");
        reveal_strlit("5");
        reveal_strlit("6");
        reveal_strlit("7");
        reveal_strlit("8");
        reveal_strlit("9");
    }
    match d {
        0 => "0",
        1 => "1",
        2 => "2",
        3 => "3",
        4 => "4",
        5 => "5",
        6 => "6",
        7 => "7",
        8 => "8",
        _ => "9",
    }
}

/// Renders a byte count in decimal.
pub fn dec_string(n: u64) -> (r: String)
    ensures
        r@ == dec_chars(n as nat),
    decreases n,
{
    let d: u64 = n % 10;
    let c: &str = digit_str(d);
    if n < 10 {
        c.to_owned()
    } else {
        let mut r = dec_string(n / 10);
        r.append(c);
        r
    }
}

/// Joins one stack frame onto an accumulated call path: `base;name url`.
pub fn extend_path(base: &String, frame: &CallFrame) -> (r: String)
    ensures
        r@ == path_of(base@, *frame),
{
    proof {
        reveal_strlit(";");
        reveal_strlit(" ");
    }
    let mut p = base.clone();
    p.append(";");
    p.append(frame.functionName.as_str());
    p.append(" ");
    p.append(frame.url.as_str());
    proof {
        assert(p@ =~= path_of(base@, *frame));
    }
    p
}

/// The views of a vector of rendered lines.
pub open spec fn views_of(lines: Seq<String>) -> Seq<Seq<char>> {
    lines.map_values(|s: String| s@)
}

/// The folded lines still owed by a work stack, topmost entry first: each
/// entry pairs a subtree with the call path of its ancestors.
pub open spec fn flatten_rest(entries: Seq<(ProfileHead, String)>) -> Seq<Seq<char>>
    decreases entries.len(),
{
    if entries.len() == 0 {
        Seq::<Seq<char>>::empty()
    } else {
        flatten_node(entries.last().0, entries.last().1@) + flatten_rest(entries.drop_last())
    }
}

/// The number of nodes in the tree rooted at `node`.
pub open spec fn node_count(node: ProfileHead) -> nat
    decreases node,
{
    1 + count_seq(node.children@)
}

/// The number of nodes in a forest.
pub open spec fn count_seq(nodes: Seq<ProfileHead>) -> nat
    decreases nodes,
{
    if nodes.len() == 0 {
        0
    } else {
        node_count(nodes[0]) + count_seq(nodes.drop_first())
    }
}

/// The number of nodes still held by a work stack.
spec fn stack_count(entries: Seq<(ProfileHead, String)>) -> nat
    decreases entries.len(),
{
    if entries.len() == 0 {
        0
    } else {
        node_count(entries.last().0) + stack_count(entries.drop_last())
    }
}

/// A forest holds the nodes of its last tree and the nodes of the rest.
proof fn lemma_count_seq_snoc(nodes: Seq<ProfileHead>)
    requires
        nodes.len() > 0,
    ensures
        count_seq(nodes) == count_seq(nodes.drop_last()) + node_count(nodes.last()),
    decreases nodes.len(),
{
    if nodes.len() == 1 {
        assert(nodes.drop_last() =~= Seq::<ProfileHead>::empty());
        assert(nodes.drop_first() =~= Seq::<ProfileHead>::empty());
    } else {
        let tail = nodes.drop_first();
        lemma_count_seq_snoc(tail);
        assert(tail.last() == nodes.last());
        assert(tail.drop_last() =~= nodes.drop_last().drop_first());
        assert(nodes.drop_last()[0] == nodes[0]);
        assert(nodes.drop_last().len() > 0);
    }
}

/// A forest flattens to the lines of its last tree appended to the lines of
/// the rest.
proof fn lemma_flatten_seq_snoc(nodes: Seq<ProfileHead>, base: Seq<char>)
    requires
        nodes.len() > 0,
    ensures
        flatten_seq(nodes, base) == flatten_seq(nodes.drop_last(), base) + flatten_node(
            nodes.last(),
            base,
        ),
    decreases nodes.len(),
{
    if nodes.len() == 1 {
        assert(nodes.drop_last() =~= Seq::<ProfileHead>::empty());
        assert(nodes.drop_first() =~= Seq::<ProfileHead>::empty());
        assert(flatten_seq(nodes, base) =~~= flatten_seq(nodes.drop_last(), base)
            + flatten_node(nodes.last(), base));
    } else {
        let tail = nodes.drop_first();
        lemma_flatten_seq_snoc(tail, base);
        assert(tail.last() == nodes.last());
        assert(tail.drop_last() =~= nodes.drop_last().drop_first());
        assert(nodes.drop_last()[0] == nodes[0]);
        assert(flatten_seq(nodes, base) =~~= flatten_seq(nodes.drop_last(), base)
            + flatten_node(nodes.last(), base));
    }
}

/// Flattens one call tree into folded stack lines, depth first, children in
/// delivery order, using an explicit heap-allocated work stack so that
/// arbitrarily deep trees cannot overflow the call stack. `root` is the
/// synthetic path prefix of the tree's root (empty in normal use).
pub fn process(profile: ProfileHead, root: String) -> (lines: Vec<String>)
    ensures
        views_of(lines@) == flatten_node(profile, root@),
{
    let ghost target = flatten_node(profile, root@);
    let mut out: Vec<String> = Vec::new();
    let mut stack: Vec<(ProfileHead, String)> = Vec::new();
    stack.push((profile, root));
    proof {
        let s = stack@;
        assert(s.drop_last() =~= Seq::<(ProfileHead, String)>::empty());
        assert(flatten_rest(s.drop_last()) == Seq::<Seq<char>>::empty());
        assert(flatten_rest(s) =~~= flatten_node(s.last().0, s.last().1@));
        assert(views_of(out@) + flatten_rest(s) =~~= target);
    }
    while stack.len() > 0
        invariant
            views_of(out@) + flatten_rest(stack@) == target,
        decreases stack_count(stack@),
    {
        let ghost c0 = stack_count(stack@);
        let ghost stack_before = stack@;
        let entry = stack.pop().unwrap();
        let node = entry.0;
        let base = entry.1;
        proof {
            assert(stack@ =~= stack_before.drop_last());
            assert(flatten_rest(stack_before) == flatten_node(node, base@) + flatten_rest(
                stack@,
            ));
            assert(stack_count(stack_before) == node_count(node) + stack_count(stack@));
        }
        let ProfileHead { callFrame, selfSize, children } = node;
        let path = extend_path(&base, &callFrame);
        let ghost out_before = out@;
        let ghost own = if callFrame.functionName@.len() > 0 {
            seq![line_of(path@, selfSize)]
        } else {
            Seq::<Seq<char>>::empty()
        };
        if !callFrame.functionName.as_str().is_empty() {
            let line = line_string(&path, selfSize);
            out.push(line);
        }
        proof {
            assert(views_of(out@) =~~= views_of(out_before) + own);
            assert(flatten_node(node, base@) == own + flatten_seq(children@, path@));
            assert(views_of(out@) + flatten_seq(children@, path@) + flatten_rest(stack@)
                =~~= target);
        }
        let mut cs = children;
        while cs.len() > 0
            invariant
                views_of(out@) + flatten_seq(cs@, path@) + flatten_rest(stack@) == target,
                stack_count(stack@) + count_seq(cs@) + 1 == c0,
            decreases cs.len(),
        {
            let ghost cs_before = cs@;
            let ghost inner_stack_before = stack@;
            let c = cs.pop().unwrap();
            proof {
                assert(cs@ =~= cs_before.drop_last());
                lemma_flatten_seq_snoc(cs_before, path@);
                lemma_count_seq_snoc(cs_before);
            }
            stack.push((c, path.clone()));
            proof {
                assert(stack@.drop_last() =~= inner_stack_before);
                assert(flatten_rest(stack@) == flatten_node(c, path@) + flatten_rest(
                    inner_stack_before,
                ));
                assert(stack_count(stack@) == node_count(c) + stack_count(inner_stack_before));
                assert(views_of(out@) + flatten_seq(cs@, path@) + flatten_rest(stack@)
                    =~~= target);
            }
        }
        proof {
            assert(flatten_seq(cs@, path@) =~~= Seq::<Seq<char>>::empty());
            assert(views_of(out@) + flatten_rest(stack@) =~~= target);
            assert(stack_count(stack@) < c0);
        }
    }
    proof {
        assert(flatten_rest(stack@) =~~= Seq::<Seq<char>>::empty());
        assert(views_of(out@) =~~= target);
    }
    out
}

/// Renders one folded stack line for the call path `path` and self size `size`.
pub fn line_string(path: &String, size: u64) -> (r: String)
    ensures
        r@ == line_of(path@, size),
{
    proof {
        reveal_strlit(" ");
    }
    let mut r = path.clone();
    r.append(" ");
    let digits = dec_string(size);
    r.append(digits.as_str());
    proof {
        assert(r@ =~= line_of(path@, size));
    }
    r
}

} // verus!
