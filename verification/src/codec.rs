use vstd::prelude::*;

use crate::structs::CallFrame;
use crate::structs::ProfileHead;
use crate::structs::ProfileObject;
use crate::structs::WebsocketResponse;
use crate::structs::WebsocketResponseResult;

verus! {

/// One JSON value of a debugger message, in the canonical form the library
/// decodes: every object's fields are in strictly ascending key order (the
/// reader normalizes them before handing a message to the decoder), and a
/// number is an `Int`, a `UInt` (only when it does not fit `i64`), or
/// `NonInteger` for a number that is not an integer at all.
pub enum JsonValue {
    Null,
    Bool(bool),
    Int(i64),
    UInt(u64),
    NonInteger,
    Str(String),
    Arr(Vec<JsonValue>),
    Obj(Vec<(String, JsonValue)>),
}

/// A malformed or structurally unexpected debugger message.
pub struct DecodeError {}

/// The mathematical model of one call-tree node.
pub struct HeadView {
    pub name: Seq<char>,
    pub url: Seq<char>,
    pub self_size: u64,
    pub children: Seq<HeadView>,
}

/// The mathematical model of a decoded message payload.
pub enum ResultView {
    Profile { head: HeadView },
    Normal,
}

/// The mathematical model of a decoded message envelope.
pub struct MessageView {
    pub id: u64,
    pub result: ResultView,
}

/// The model of a call-tree node.
pub open spec fn head_view(h: ProfileHead) -> HeadView
    decreases h,
{
    HeadView {
        name: h.callFrame.functionName@,
        url: h.callFrame.url@,
        self_size: h.selfSize,
        children: head_views(h.children@),
    }
}

/// The models of a forest of call-tree nodes, in order.
pub open spec fn head_views(hs: Seq<ProfileHead>) -> Seq<HeadView>
    decreases hs,
{
    if hs.len() == 0 {
        Seq::<HeadView>::empty()
    } else {
        seq![head_view(hs[0])] + head_views(hs.drop_first())
    }
}

/// The model of a decoded message.
pub open spec fn message_view(m: WebsocketResponse) -> MessageView {
    MessageView {
        id: m.id,
        result: match m.result {
            WebsocketResponseResult::Profile { profile } => ResultView::Profile {
                head: head_view(profile.head),
            },
            WebsocketResponseResult::Normal {} => ResultView::Normal,
        },
    }
}

/// A JSON number read as an unsigned 64-bit integer, as the envelope's `id`
/// field demands.
pub open spec fn uint_of(v: JsonValue) -> Option<u64> {
    match v {
        JsonValue::Int(x) => if x >= 0 {
            Some(x as u64)
        } else {
            None
        },
        JsonValue::UInt(x) => Some(x),
        _ => None,
    }
}

/// The function name and source url of a well-formed `callFrame` object:
/// exactly the five fields `columnNumber`, `functionName`, `lineNumber`,
/// `scriptId`, `url`; the two numbers are read and ignored.
pub open spec fn frame_parts(v: JsonValue) -> Option<(Seq<char>, Seq<char>)> {
    match v {
        JsonValue::Obj(fields) => {
            let fs = fields@;
            if fs.len() == 5 && fs[0].0@ == "columnNumber"@ && fs[1].0@ == "functionName"@
                && fs[2].0@ == "lineNumber"@ && fs[3].0@ == "scriptId"@ && fs[4].0@ == "url"@ {
                match (fs[0].1, fs[1].1, fs[2].1, fs[3].1, fs[4].1) {
                    (
                        JsonValue::Int(_),
                        JsonValue::Str(name),
                        JsonValue::Int(_),
                        JsonValue::Str(_),
                        JsonValue::Str(url),
                    ) => Some((name@, url@)),
                    _ => None,
                }
            } else {
                None
            }
        },
        _ => None,
    }
}

/// The flat parts of a well-formed call-tree node object: exactly the four
/// fields `callFrame`, `children` (an array), `id` (read and ignored), and
/// `selfSize` (a non-negative integer). Returns the function name, the url,
/// the self size, and the raw child values.
pub open spec fn node_parts(v: JsonValue) -> Option<(Seq<char>, Seq<char>, u64, Seq<JsonValue>)> {
    match v {
        JsonValue::Obj(fields) => {
            let fs = fields@;
            if fs.len() == 4 && fs[0].0@ == "callFrame"@ && fs[1].0@ == "children"@ && fs[2].0@
                == "id"@ && fs[3].0@ == "selfSize"@ {
                match (frame_parts(fs[0].1), fs[1].1, fs[2].1, fs[3].1) {
                    (Some(nu), JsonValue::Arr(cs), JsonValue::Int(_), JsonValue::Int(size)) => {
                        if size >= 0 {
                            Some((nu.0, nu.1, size as u64, cs@))
                        } else {
                            None
                        }
                    },
                    _ => None,
                }
            } else {
                None
            }
        },
        _ => None,
    }
}

/// The call tree encoded by a JSON value, or `None` if any node of it is
/// malformed.
pub open spec fn head_spec(v: JsonValue) -> Option<HeadView>
    decreases v,
{
    match node_parts(v) {
        Some(p) => match heads_spec(p.3) {
            Some(cs) => Some(
                HeadView { name: p.0, url: p.1, self_size: p.2, children: cs },
            ),
            None => None,
        },
        None => None,
    }
}

/// The call trees encoded by a sequence of JSON values, in order, or `None`
/// if any of them is malformed.
pub open spec fn heads_spec(vs: Seq<JsonValue>) -> Option<Seq<HeadView>>
    decreases vs,
{
    if vs.len() == 0 {
        Some(Seq::<HeadView>::empty())
    } else {
        match (head_spec(vs[0]), heads_spec(vs.drop_first())) {
            (Some(h), Some(t)) => Some(seq![h] + t),
            _ => None,
        }
    }
}

/// Whether a JSON value is a well-formed sampling record: exactly the three
/// integer fields `nodeId`, `ordinal`, `size`. The values are read and
/// ignored.
pub open spec fn sample_ok(v: JsonValue) -> bool {
    match v {
        JsonValue::Obj(fields) => {
            let fs = fields@;
            fs.len() == 3 && fs[0].0@ == "nodeId"@ && fs[1].0@ == "ordinal"@ && fs[2].0@
                == "size"@ && fs[0].1 is Int && fs[1].1 is Int && fs[2].1 is Int
        },
        _ => false,
    }
}

/// Whether every element of a sequence is a well-formed sampling record.
pub open spec fn all_samples(vs: Seq<JsonValue>) -> bool {
    forall|i: int| 0 <= i < vs.len() ==> sample_ok(vs[i])
}

/// The call tree of a well-formed `profile` object: exactly the two fields
/// `head` (a call tree) and `samples` (an array of sampling records).
pub open spec fn profile_spec(v: JsonValue) -> Option<HeadView> {
    match v {
        JsonValue::Obj(fields) => {
            let fs = fields@;
            if fs.len() == 2 && fs[0].0@ == "head"@ && fs[1].0@ == "samples"@ {
                match (head_spec(fs[0].1), fs[1].1) {
                    (Some(h), JsonValue::Arr(ss)) => if all_samples(ss@) {
                        Some(h)
                    } else {
                        None
                    },
                    _ => None,
                }
            } else {
                None
            }
        },
        _ => None,
    }
}

/// The payload of a well-formed `result` object, discriminated by structural
/// shape: an empty object is a plain acknowledgement; an object holding
/// exactly a well-formed `profile` is a profile payload; everything else is
/// malformed.
pub open spec fn result_spec(v: JsonValue) -> Option<ResultView> {
    match v {
        JsonValue::Obj(fields) => {
            let fs = fields@;
            if fs.len() == 0 {
                Some(ResultView::Normal)
            } else if fs.len() == 1 && fs[0].0@ == "profile"@ {
                match profile_spec(fs[0].1) {
                    Some(h) => Some(ResultView::Profile { head: h }),
                    None => None,
                }
            } else {
                None
            }
        },
        _ => None,
    }
}

/// The model of the message a JSON value encodes: an object with exactly the
/// fields `id` (an unsigned integer) and `result`, or `None` for every
/// malformed value.
pub open spec fn decode_spec(v: JsonValue) -> Option<MessageView> {
    match v {
        JsonValue::Obj(fields) => {
            let fs = fields@;
            if fs.len() == 2 && fs[0].0@ == "id"@ && fs[1].0@ == "result"@ {
                match (uint_of(fs[0].1), result_spec(fs[1].1)) {
                    (Some(id), Some(res)) => Some(MessageView { id, result: res }),
                    _ => None,
                }
            } else {
                None
            }
        },
        _ => None,
    }
}

/// Discrimination: every message that decodes at all carries exactly one of
/// the two tags, and the tag is decided by the structural shape of the
/// `result` member alone — a profile payload exactly when `result` holds a
/// nested member (the well-formed profile structure), an acknowledgement
/// exactly when `result` is an empty object.
pub proof fn lemma_discrimination(v: JsonValue, m: MessageView)
    requires
        decode_spec(v) == Some(m),
    ensures
        m.result is Profile <==> (v matches JsonValue::Obj(fields)
            && fields@[1].1 matches JsonValue::Obj(rf) && rf@.len() == 1),
        m.result is Normal <==> (v matches JsonValue::Obj(fields)
            && fields@[1].1 matches JsonValue::Obj(rf) && rf@.len() == 0),
        !(m.result is Profile && m.result is Normal),
{
}

/// The number of values in a JSON tree.
pub open spec fn jsize(v: JsonValue) -> nat
    decreases v,
{
    match v {
        JsonValue::Arr(elts) => 1 + jsize_seq(elts@),
        JsonValue::Obj(fields) => 1 + jsize_fields(fields@),
        _ => 1,
    }
}

/// The number of values in a sequence of JSON trees.
pub open spec fn jsize_seq(vs: Seq<JsonValue>) -> nat
    decreases vs,
{
    if vs.len() == 0 {
        0
    } else {
        jsize(vs[0]) + jsize_seq(vs.drop_first())
    }
}

/// The number of values under the fields of a JSON object.
pub open spec fn jsize_fields(fs: Seq<(String, JsonValue)>) -> nat
    decreases fs,
{
    if fs.len() == 0 {
        0
    } else {
        jsize(fs[0].1) + jsize_fields(fs.drop_first())
    }
}

/// A sequence of JSON trees holds the values of its last tree and of the rest.
proof fn lemma_jsize_seq_snoc(vs: Seq<JsonValue>)
    requires
        vs.len() > 0,
    ensures
        jsize_seq(vs) == jsize_seq(vs.drop_last()) + jsize(vs.last()),
    decreases vs.len(),
{
    if vs.len() == 1 {
        assert(vs.drop_last() =~= Seq::<JsonValue>::empty());
        assert(vs.drop_first() =~= Seq::<JsonValue>::empty());
    } else {
        let tail = vs.drop_first();
        lemma_jsize_seq_snoc(tail);
        assert(tail.last() == vs.last());
        assert(tail.drop_last() =~= vs.drop_last().drop_first());
        assert(vs.drop_last()[0] == vs[0]);
        assert(vs.drop_last().len() > 0);
    }
}

/// Reversing a sequence of JSON trees keeps its number of values.
proof fn lemma_jsize_seq_reverse(vs: Seq<JsonValue>)
    ensures
        jsize_seq(vs.reverse()) == jsize_seq(vs),
    decreases vs.len(),
{
    if vs.len() == 0 {
        assert(vs.reverse() =~= vs);
    } else {
        let r = vs.reverse();
        assert(r[0] == vs.last());
        assert(r.drop_first() =~= vs.drop_last().reverse());
        lemma_jsize_seq_reverse(vs.drop_last());
        lemma_jsize_seq_snoc(vs);
    }
}

/// A forest's models are the models of its last tree appended to the models
/// of the rest.
proof fn lemma_head_views_snoc(hs: Seq<ProfileHead>)
    requires
        hs.len() > 0,
    ensures
        head_views(hs) == head_views(hs.drop_last()) + seq![head_view(hs.last())],
    decreases hs.len(),
{
    if hs.len() == 1 {
        assert(hs.drop_last() =~= Seq::<ProfileHead>::empty());
        assert(hs.drop_first() =~= Seq::<ProfileHead>::empty());
        assert(head_views(hs) =~~= head_views(hs.drop_last()) + seq![head_view(hs.last())]);
    } else {
        let tail = hs.drop_first();
        lemma_head_views_snoc(tail);
        assert(tail.last() == hs.last());
        assert(tail.drop_last() =~= hs.drop_last().drop_first());
        assert(hs.drop_last()[0] == hs[0]);
        assert(hs.drop_last().len() > 0);
        assert(head_views(hs) =~~= head_views(hs.drop_last()) + seq![head_view(hs.last())]);
    }
}

/// One partially built call-tree node: its flat parts, the children already
/// built, and the raw child values still to build (next one last).
struct BuildFrame {
    name: String,
    url: String,
    self_size: u64,
    done: Vec<ProfileHead>,
    todo: Vec<JsonValue>,
}

/// The tree a frame will produce if all its remaining children decode.
spec fn complete(f: BuildFrame) -> Option<HeadView> {
    match heads_spec(f.todo@.reverse()) {
        Some(rest) => Some(
            HeadView {
                name: f.name@,
                url: f.url@,
                self_size: f.self_size,
                children: head_views(f.done@) + rest,
            },
        ),
        None => None,
    }
}

/// The tree a frame will produce, given that its child now being built
/// produces `h`.
spec fn plug(f: BuildFrame, h: Option<HeadView>) -> Option<HeadView> {
    match (h, heads_spec(f.todo@.reverse())) {
        (Some(hh), Some(rest)) => Some(
            HeadView {
                name: f.name@,
                url: f.url@,
                self_size: f.self_size,
                children: head_views(f.done@) + seq![hh] + rest,
            },
        ),
        _ => None,
    }
}

/// The tree the whole build produces, given a stack of open frames (bottom
/// first) whose topmost open child produces `h`.
spec fn finish(stack: Seq<BuildFrame>, h: Option<HeadView>) -> Option<HeadView>
    decreases stack.len(),
{
    if stack.len() == 0 {
        h
    } else {
        finish(stack.drop_last(), plug(stack.last(), h))
    }
}

/// Once a malformed node is found, the whole build is malformed.
proof fn lemma_finish_none(stack: Seq<BuildFrame>)
    ensures
        finish(stack, None::<HeadView>) is None,
    decreases stack.len(),
{
    if stack.len() > 0 {
        lemma_finish_none(stack.drop_last());
    }
}

/// The number of raw JSON values a frame stack still has to build.
spec fn stack_jsize(stack: Seq<BuildFrame>) -> nat
    decreases stack.len(),
{
    if stack.len() == 0 {
        0
    } else {
        jsize_seq(stack.last().todo@) + stack_jsize(stack.drop_last())
    }
}

/// Relies on `str`'s `PartialEq`: two string slices are equal exactly when
/// their character sequences are.
#[verifier::external_body]
fn str_eq(a: &str, b: &str) -> (r: bool)
    ensures
        r == (a@ == b@),
{
    a == b
}

/// Whether a JSON value is an integer that fits `i64`.
fn is_int(v: &JsonValue) -> (r: bool)
    ensures
        r == (*v is Int),
{
    match v {
        JsonValue::Int(_) => true,
        _ => false,
    }
}

/// Validates one `callFrame` object and hands back its function name and url.
fn parse_frame(v: JsonValue) -> (r: Result<(String, String), DecodeError>)
    ensures
        match r {
            Ok(nu) => frame_parts(v) == Some((nu.0@, nu.1@)),
            Err(e) => frame_parts(v) is None,
        },
{
    let mut fields = match v {
        JsonValue::Obj(f) => f,
        _ => { return Err(DecodeError {}); },
    };
    if fields.len() != 5 {
        return Err(DecodeError {});
    }
    let (k4, uv) = fields.pop().unwrap();
    let (k3, sidv) = fields.pop().unwrap();
    let (k2, lnv) = fields.pop().unwrap();
    let (k1, fnv) = fields.pop().unwrap();
    let (k0, cnv) = fields.pop().unwrap();
    if !(str_eq(k0.as_str(), "columnNumber") && str_eq(k1.as_str(), "functionName") && str_eq(
        k2.as_str(),
        "lineNumber",
    ) && str_eq(k3.as_str(), "scriptId") && str_eq(k4.as_str(), "url")) {
        return Err(DecodeError {});
    }
    if !is_int(&cnv) || !is_int(&lnv) {
        return Err(DecodeError {});
    }
    let name = match fnv {
        JsonValue::Str(s) => s,
        _ => { return Err(DecodeError {}); },
    };
    match sidv {
        JsonValue::Str(_) => {},
        _ => { return Err(DecodeError {}); },
    }
    let url = match uv {
        JsonValue::Str(s) => s,
        _ => { return Err(DecodeError {}); },
    };
    Ok((name, url))
}

/// Validates the flat parts of one call-tree node object and opens a build
/// frame for it, its raw children reversed into the frame's work list.
fn open_node(v: JsonValue) -> (r: Result<BuildFrame, DecodeError>)
    ensures
        match r {
            Ok(f) => {
                &&& node_parts(v) matches Some(p)
                &&& f.name@ == p.0
                &&& f.url@ == p.1
                &&& f.self_size == p.2
                &&& f.todo@.reverse() == p.3
                &&& f.done@ == Seq::<ProfileHead>::empty()
                &&& jsize_seq(f.todo@) < jsize(v)
            },
            Err(e) => node_parts(v) is None,
        },
{
    let ghost v0 = v;
    let mut fields = match v {
        JsonValue::Obj(f) => f,
        _ => { return Err(DecodeError {}); },
    };
    if fields.len() != 4 {
        return Err(DecodeError {});
    }
    let ghost fs = fields@;
    let (k3, sv) = fields.pop().unwrap();
    let (k2, idv) = fields.pop().unwrap();
    let (k1, chv) = fields.pop().unwrap();
    let (k0, cfv) = fields.pop().unwrap();
    if !(str_eq(k0.as_str(), "callFrame") && str_eq(k1.as_str(), "children") && str_eq(
        k2.as_str(),
        "id",
    ) && str_eq(k3.as_str(), "selfSize")) {
        return Err(DecodeError {});
    }
    if !is_int(&idv) {
        return Err(DecodeError {});
    }
    let nu = match parse_frame(cfv) {
        Ok(nu) => nu,
        Err(e) => { return Err(e); },
    };
    let name = nu.0;
    let url = nu.1;
    let size: u64 = match sv {
        JsonValue::Int(x) => if x >= 0 {
            x as u64
        } else {
            return Err(DecodeError {});
        },
        _ => { return Err(DecodeError {}); },
    };
    let mut celts = match chv {
        JsonValue::Arr(cs) => cs,
        _ => { return Err(DecodeError {}); },
    };
    let ghost celts0 = celts@;
    let mut todo: Vec<JsonValue> = Vec::new();
    while celts.len() > 0
        invariant
            celts@.len() <= celts0.len(),
            celts@ == celts0.take(celts@.len() as int),
            todo@ == celts0.skip(celts@.len() as int).reverse(),
        decreases celts.len(),
    {
        let ghost n = celts@.len() as int;
        let c = celts.pop().unwrap();
        todo.push(c);
        proof {
            assert(c == celts0[n - 1]);
            assert(celts@ =~= celts0.take(n - 1));
            assert(todo@ =~= celts0.skip(n - 1).reverse());
        }
    }
    proof {
        assert(celts0.skip(0) =~= celts0);
        assert(todo@ == celts0.reverse());
        assert(todo@.reverse() =~= celts0);
        lemma_jsize_seq_reverse(celts0);
        // The node holds one value more than each of its four field values.
        let fs1 = fs.drop_first();
        let fs2 = fs1.drop_first();
        let fs3 = fs2.drop_first();
        assert(fs3.drop_first() =~= Seq::<(String, JsonValue)>::empty());
        assert(fs1[0] == fs[1] && fs2[0] == fs[2] && fs3[0] == fs[3]);
        assert(jsize_fields(fs) == jsize(fs[0].1) + jsize_fields(fs1));
        assert(jsize_fields(fs1) == jsize(fs1[0].1) + jsize_fields(fs2));
        assert(jsize_fields(fs2) == jsize(fs2[0].1) + jsize_fields(fs3));
        assert(jsize_fields(fs3) == jsize(fs3[0].1) + jsize_fields(fs3.drop_first()));
        assert(jsize_fields(fs3.drop_first()) == 0);
        assert(jsize_fields(fs) == jsize(fs[0].1) + jsize(fs[1].1) + jsize(fs[2].1) + jsize(
            fs[3].1,
        ));
        assert(jsize(fs[1].1) == 1 + jsize_seq(celts0));
        assert(jsize_seq(todo@) < jsize(v0));
    }
    Ok(BuildFrame { name, url, self_size: size, done: Vec::new(), todo })
}

/// Builds the call tree encoded by a JSON value, iteratively, with an
/// explicit heap-allocated stack of open frames, so that arbitrarily deep
/// trees cannot overflow the call stack.
#[verifier::loop_isolation(false)]
fn build_head(v: JsonValue) -> (r: Result<ProfileHead, DecodeError>)
    ensures
        match r {
            Ok(h) => head_spec(v) == Some(head_view(h)),
            Err(e) => head_spec(v) is None,
        },
{
    let ghost target = head_spec(v);
    let ghost v0 = v;
    let first = match open_node(v) {
        Ok(f) => f,
        Err(e) => { return Err(e); },
    };
    proof {
        let p = node_parts(v0).unwrap();
        assert(head_views(first.done@) =~= Seq::<HeadView>::empty());
        match heads_spec(p.3) {
            Some(rest) => {
                assert(head_views(first.done@) + rest =~= rest);
                assert(complete(first) == target);
            },
            None => {
                assert(complete(first) == target);
            },
        }
    }
    let ghost firstg = first;
    let mut stack: Vec<BuildFrame> = Vec::new();
    stack.push(first);
    proof {
        assert(stack@.last() == firstg);
        assert(stack@.drop_last() =~= Seq::<BuildFrame>::empty());
        assert(finish(stack@.drop_last(), complete(firstg)) == complete(firstg));
    }
    while stack.len() > 0
        invariant
            stack@.len() > 0,
            finish(stack@.drop_last(), complete(stack@.last())) == target,
        decreases stack_jsize(stack@), stack@.len(),
    {
        let ghost st0 = stack@;
        let mut f = stack.pop().unwrap();
        let ghost fg = f;
        proof {
            assert(stack@ =~= st0.drop_last());
            assert(fg == st0.last());
        }
        if f.todo.len() > 0 {
            let ghost todo0 = f.todo@;
            let c = f.todo.pop().unwrap();
            let ghost f1 = f;
            proof {
                assert(f1.todo@ =~= todo0.drop_last());
                assert(c == todo0.last());
                assert(todo0.reverse() =~= seq![c] + f1.todo@.reverse());
                assert((seq![c] + f1.todo@.reverse()).drop_first() =~= f1.todo@.reverse());
            }
            match open_node(c) {
                Ok(nf) => {
                    proof {
                        let p = node_parts(c).unwrap();
                        assert(head_views(nf.done@) =~= Seq::<HeadView>::empty());
                        match heads_spec(p.3) {
                            Some(rest) => {
                                assert(head_views(nf.done@) + rest =~= rest);
                                assert(complete(nf) == head_spec(c));
                            },
                            None => {
                                assert(complete(nf) == head_spec(c));
                            },
                        }
                        // The lines owed by the shortened frame, given the
                        // child now open, are the lines the full frame owed.
                        match (head_spec(c), heads_spec(f1.todo@.reverse())) {
                            (Some(hc), Some(rest)) => {
                                assert(head_views(fg.done@) + (seq![hc] + rest) =~= head_views(
                                    fg.done@,
                                ) + seq![hc] + rest);
                                assert(plug(f1, complete(nf)) == complete(fg));
                            },
                            _ => {
                                assert(plug(f1, complete(nf)) == complete(fg));
                            },
                        }
                        lemma_jsize_seq_snoc(todo0);
                    }
                    stack.push(f);
                    stack.push(nf);
                    proof {
                        assert(stack@.drop_last() =~= st0.drop_last().push(f1));
                        assert(stack@.drop_last().drop_last() =~= st0.drop_last());
                        assert(stack@.drop_last().last() == f1);
                        assert(finish(stack@.drop_last(), complete(nf)) == finish(
                            st0.drop_last(),
                            plug(f1, complete(nf)),
                        ));
                        assert(stack@.last() == nf);
                        assert(stack_jsize(stack@) == jsize_seq(nf.todo@) + stack_jsize(
                            stack@.drop_last(),
                        ));
                        assert(stack_jsize(stack@.drop_last()) == jsize_seq(f1.todo@)
                            + stack_jsize(st0.drop_last()));
                        assert(st0.last() == fg);
                        assert(stack_jsize(st0) == jsize_seq(todo0) + stack_jsize(
                            st0.drop_last(),
                        ));
                        assert(stack_jsize(stack@) < stack_jsize(st0));
                    }
                },
                Err(e) => {
                    proof {
                        assert(head_spec(c) is None);
                        assert(heads_spec(todo0.reverse()) is None);
                        assert(complete(fg) is None);
                        lemma_finish_none(st0.drop_last());
                    }
                    return Err(e);
                },
            }
        } else {
            let h = ProfileHead {
                callFrame: CallFrame { functionName: f.name, url: f.url },
                selfSize: f.self_size,
                children: f.done,
            };
            let ghost hg = h;
            proof {
                assert(fg.todo@.reverse() =~= Seq::<JsonValue>::empty());
                assert(heads_spec(fg.todo@.reverse()) == Some(Seq::<HeadView>::empty()));
                assert(head_views(hg.children@) + Seq::<HeadView>::empty() =~= head_views(
                    hg.children@,
                ));
                assert(complete(fg) == Some(head_view(hg)));
            }
            if stack.len() == 0 {
                proof {
                    assert(st0.drop_last() =~= Seq::<BuildFrame>::empty());
                    assert(finish(st0.drop_last(), complete(fg)) == complete(fg));
                    assert(target == complete(fg));
                    assert(target == Some(head_view(hg)));
                }
                return Ok(h);
            }
            let ghost st1 = stack@;
            let mut p = stack.pop().unwrap();
            let ghost pg = p;
            proof {
                assert(stack@ =~= st1.drop_last());
                assert(pg == st1.last());
            }
            p.done.push(h);
            let ghost p1 = p;
            proof {
                assert(p1.done@ =~= pg.done@.push(hg));
                lemma_head_views_snoc(p1.done@);
                assert(p1.done@.drop_last() =~= pg.done@);
                assert(p1.done@.last() == hg);
                match (complete(fg), heads_spec(pg.todo@.reverse())) {
                    (Some(hh), Some(rest)) => {
                        assert(head_views(pg.done@) + seq![head_view(hg)] + rest =~= (head_views(
                            pg.done@,
                        ) + seq![head_view(hg)]) + rest);
                        assert(complete(p1) == plug(pg, complete(fg)));
                    },
                    _ => {
                        assert(complete(p1) == plug(pg, complete(fg)));
                    },
                }
            }
            stack.push(p);
            proof {
                assert(stack@ =~= st1.drop_last().push(p1));
                assert(stack@.drop_last() =~= st1.drop_last());
                assert(finish(st1.drop_last(), complete(p1)) == finish(
                    st1.drop_last(),
                    plug(pg, complete(fg)),
                ));
                assert(finish(st0.drop_last(), complete(fg)) == finish(
                    st1.drop_last(),
                    plug(pg, complete(fg)),
                ));
                assert(stack_jsize(stack@) == jsize_seq(p1.todo@) + stack_jsize(
                    st1.drop_last(),
                ));
                assert(stack_jsize(st1) == jsize_seq(pg.todo@) + stack_jsize(st1.drop_last()));
                assert(stack_jsize(st0) == jsize_seq(fg.todo@) + stack_jsize(st1));
                assert(jsize_seq(fg.todo@) == 0);
                assert(stack_jsize(stack@) == stack_jsize(st0));
                assert(stack@.len() < st0.len());
            }
        }
    }
    Err(DecodeError {})
}

/// Whether a JSON value is a well-formed sampling record.
fn check_sample(v: &JsonValue) -> (r: bool)
    ensures
        r == sample_ok(*v),
{
    match v {
        JsonValue::Obj(fields) => {
            if fields.len() != 3 {
                return false;
            }
            let k0 = str_eq(fields[0].0.as_str(), "nodeId");
            let k1 = str_eq(fields[1].0.as_str(), "ordinal");
            let k2 = str_eq(fields[2].0.as_str(), "size");
            let t0 = is_int(&fields[0].1);
            let t1 = is_int(&fields[1].1);
            let t2 = is_int(&fields[2].1);
            k0 && k1 && k2 && t0 && t1 && t2
        },
        _ => false,
    }
}

/// Whether every element of a vector is a well-formed sampling record.
fn check_samples(vs: &Vec<JsonValue>) -> (r: bool)
    ensures
        r == all_samples(vs@),
{
    let mut i: usize = 0;
    while i < vs.len()
        invariant
            0 <= i <= vs@.len(),
            forall|j: int| 0 <= j < i ==> sample_ok(vs@[j]),
        decreases vs@.len() - i,
    {
        if !check_sample(&vs[i]) {
            assert(!sample_ok(vs@[i as int]));
            return false;
        }
        i = i + 1;
    }
    true
}

/// Decodes one debugger message, already read into canonical JSON form,
/// discriminating it by structural shape into a profile payload or a plain
/// acknowledgement; every malformed or structurally unexpected value is a
/// `DecodeError`, exactly when `decode_spec` has no model for it.
pub fn decode(v: JsonValue) -> (r: Result<WebsocketResponse, DecodeError>)
    ensures
        match r {
            Ok(m) => decode_spec(v) == Some(message_view(m)),
            Err(e) => decode_spec(v) is None,
        },
{
    let mut fields = match v {
        JsonValue::Obj(f) => f,
        _ => { return Err(DecodeError {}); },
    };
    if fields.len() != 2 {
        return Err(DecodeError {});
    }
    let ghost fs = fields@;
    let (k1, rv) = fields.pop().unwrap();
    let (k0, idv) = fields.pop().unwrap();
    if !(str_eq(k0.as_str(), "id") && str_eq(k1.as_str(), "result")) {
        return Err(DecodeError {});
    }
    let id: u64 = match idv {
        JsonValue::Int(x) => if x >= 0 {
            x as u64
        } else {
            return Err(DecodeError {});
        },
        JsonValue::UInt(x) => x,
        _ => { return Err(DecodeError {}); },
    };
    let mut rfields = match rv {
        JsonValue::Obj(f) => f,
        _ => { return Err(DecodeError {}); },
    };
    if rfields.len() == 0 {
        return Ok(WebsocketResponse { id, result: WebsocketResponseResult::Normal {} });
    }
    if rfields.len() != 1 {
        return Err(DecodeError {});
    }
    let (pk, pv) = rfields.pop().unwrap();
    if !str_eq(pk.as_str(), "profile") {
        return Err(DecodeError {});
    }
    let mut pfields = match pv {
        JsonValue::Obj(f) => f,
        _ => { return Err(DecodeError {}); },
    };
    if pfields.len() != 2 {
        return Err(DecodeError {});
    }
    let (sk, sv) = pfields.pop().unwrap();
    let (hk, hv) = pfields.pop().unwrap();
    if !(str_eq(hk.as_str(), "head") && str_eq(sk.as_str(), "samples")) {
        return Err(DecodeError {});
    }
    let samples = match sv {
        JsonValue::Arr(ss) => ss,
        _ => { return Err(DecodeError {}); },
    };
    if !check_samples(&samples) {
        return Err(DecodeError {});
    }
    let head = match build_head(hv) {
        Ok(h) => h,
        Err(e) => { return Err(e); },
    };
    Ok(
        WebsocketResponse {
            id,
            result: WebsocketResponseResult::Profile { profile: ProfileObject { head } },
        },
    )
}

} // verus!
