//! The tree-walking evaluator: dispatches on AST node kind against the value
//! model, producing a value or a propagated failure, and drives the call and
//! construct protocols.
//!
//! Every evaluation step is specified by [`spec_eval`], a function from the
//! interpreter state and a node shape to the next state and the result.
//! Failures propagate immediately; the two documented quirks are preserved
//! as they have always behaved: a spread among call arguments ends argument
//! evaluation, and constructing from a non-object callee yields undefined.

use vstd::prelude::*;
use vstd::string::StringSliceAdditionalSpecFns;
use vstd::string::StrSliceExecFns;
use crate::ast::{lemma_nodes_view, nodes_view, Const, Node, NodeV, Sym};
use crate::interner::{spec_intern_sym, spec_intern_table, Interner};
use crate::value::{
    spec_get_field_obj, spec_get_field_value, spec_get_prop, val_ok, Function, ObjData, ObjDataV,
    ObjectRec, ObjectV, Value,
};

verus! {

/// The interpreter's pending-control-flow flag: normal execution, a pending
/// early return, or a pending break with an optional label.
#[derive(Clone, Copy, PartialEq, Eq, Structural, Debug)]
pub enum InterpreterState {
    Executing,
    Return,
    Break(Option<Sym>),
}

/// The mathematical shape of the whole interpreter state: the object arena,
/// the interning table, the pending-control-flow flag, and the realm's
/// global object handle.
#[verifier::ext_equal]
pub struct StateV {
    pub objects: Seq<ObjectV>,
    pub strings: Seq<Seq<u8>>,
    pub state: InterpreterState,
    pub global: usize,
}

/// Well-formedness of one object record: every stored handle stays inside
/// the arena, and the prototype link points at an earlier record, so that
/// prototype chains end.
pub open spec fn obj_wf(o: ObjectV, i: int, n: int) -> bool {
    &&& val_ok(o.proto, n)
    &&& (o.proto is Object ==> (o.proto->Object_0 as int) < i)
    &&& forall|j: int| 0 <= j < o.props.len() ==> val_ok(#[trigger] o.props[j].1, n)
    &&& (o.data is Array ==> forall|k: int|
        0 <= k < o.data->Array_0.len() ==> val_ok(#[trigger] o.data->Array_0[k], n))
}

/// Well-formedness of the interpreter state.
pub open spec fn st_wf(st: StateV) -> bool {
    &&& (st.global as int) < st.objects.len()
    &&& forall|i: int|
        0 <= i < st.objects.len() ==> obj_wf(#[trigger] st.objects[i], i, st.objects.len() as int)
}

/// The state with a different pending-control-flow flag.
pub open spec fn with_state(st: StateV, s: InterpreterState) -> StateV {
    StateV { objects: st.objects, strings: st.strings, state: s, global: st.global }
}

/// Interning a text in the state: same table discipline as the parser's
/// interner.
pub open spec fn spec_intern_st(st: StateV, text: Seq<u8>) -> (StateV, Sym) {
    (
        StateV {
            objects: st.objects,
            strings: spec_intern_table(st.strings, text),
            state: st.state,
            global: st.global,
        },
        spec_intern_sym(st.strings, text) as usize,
    )
}

/// Appending a fresh object to the arena; its handle is the old length.
pub open spec fn spec_alloc(st: StateV, o: ObjectV) -> (StateV, usize) {
    (
        StateV {
            objects: st.objects.push(o),
            strings: st.strings,
            state: st.state,
            global: st.global,
        },
        st.objects.len() as usize,
    )
}

/// The decimal digits of `n`, most significant first.
pub open spec fn spec_dec_digits(n: nat) -> Seq<u8>
    decreases n,
{
    if n < 10 {
        seq![(n + 48) as u8]
    } else {
        spec_dec_digits(n / 10).push(((n % 10) + 48) as u8)
    }
}

/// The decimal text of `n`, with a leading minus sign when negative.
pub open spec fn spec_dec_bytes(n: int) -> Seq<u8> {
    if n < 0 {
        seq![45u8] + spec_dec_digits((-n) as nat)
    } else {
        spec_dec_digits(n as nat)
    }
}

/// The string form under which a non-string value is used as a property
/// key: a number its decimal text, and the remaining kinds a fixed
/// conventional form. A string value is already an interned handle, so
/// [`spec_key_tbl`] never consults this function for it; the string arm is
/// only the total function's placeholder.
pub open spec fn spec_key_text(v: Value) -> Seq<u8>
    recommends
        !(v is Str),
{
    match v {
        Value::Str(_) => Seq::empty(),
        Value::Number(n) => spec_dec_bytes(n as int),
        Value::Undefined => "undefined".spec_bytes(),
        Value::Symbol(_) => "Symbol()".spec_bytes(),
        Value::Object(_) => "[object]".spec_bytes(),
    }
}

/// The interned handle of a value's string form, over the interning table
/// alone: a string value is already a handle, anything else interns its
/// string form.
pub open spec fn spec_key_tbl(tbl: Seq<Seq<u8>>, v: Value) -> (Seq<Seq<u8>>, Sym) {
    match v {
        Value::Str(s) => (tbl, s),
        _ => (
            spec_intern_table(tbl, spec_key_text(v)),
            spec_intern_sym(tbl, spec_key_text(v)) as usize,
        ),
    }
}

/// The interned handle of a value's string form, used as a property key for
/// computed member access.
pub open spec fn spec_key_sym(st: StateV, v: Value) -> (StateV, Sym) {
    let (tbl, sym) = spec_key_tbl(st.strings, v);
    (
        StateV { objects: st.objects, strings: tbl, state: st.state, global: st.global },
        sym,
    )
}

/// A fresh type-error object: an ordinary object carrying `name` and
/// `message` properties, returned as the failure value.
pub open spec fn spec_throw_type_error(st: StateV, msg: Seq<u8>) -> (StateV, Value) {
    let (st1, k_name) = spec_intern_st(st, "name".spec_bytes());
    let (st2, v_name) = spec_intern_st(st1, "TypeError".spec_bytes());
    let (st3, k_msg) = spec_intern_st(st2, "message".spec_bytes());
    let (st4, v_msg) = spec_intern_st(st3, msg);
    let (st5, id) = spec_alloc(
        st4,
        ObjectV {
            proto: Value::Undefined,
            props: seq![(k_name, Value::Str(v_name)), (k_msg, Value::Str(v_msg))],
            data: ObjDataV::Ordinary,
        },
    );
    (st5, Value::Object(id))
}

/// Object coercion: an object is itself; undefined has no object coercion
/// and fails with a type error; any other primitive is wrapped in a fresh
/// ordinary object.
pub open spec fn spec_to_object(st: StateV, v: Value) -> (StateV, Result<Value, Value>) {
    match v {
        Value::Object(_) => (st, Ok(v)),
        Value::Undefined => {
            let (st1, e) = spec_throw_type_error(st, "cannot convert to object".spec_bytes());
            (st1, Err(e))
        },
        _ => {
            let (st1, id) = spec_alloc(
                st,
                ObjectV { proto: Value::Undefined, props: Seq::empty(), data: ObjDataV::Ordinary },
            );
            (st1, Ok(Value::Object(id)))
        },
    }
}

/// The call protocol of the built-in function behaviours.
pub open spec fn spec_apply_function(st: StateV, f: Function, this: Value, args: Seq<Value>) -> (
    StateV,
    Result<Value, Value>,
) {
    match f {
        Function::GetThis => (st, Ok(this)),
        Function::GetArg(i) => (
            st,
            Ok(
                if i < args.len() {
                    args[i as int]
                } else {
                    Value::Undefined
                },
            ),
        ),
        Function::ArgCount => (
            st,
            Ok(
                Value::Number(
                    if args.len() <= i64::MAX {
                        args.len() as i64
                    } else {
                        i64::MAX
                    },
                ),
            ),
        ),
        Function::Undef => (st, Ok(Value::Undefined)),
        Function::EarlyReturn => (with_state(st, InterpreterState::Return), Ok(Value::Undefined)),
    }
}

/// Invoking a value: a function-tagged object runs its call protocol;
/// anything else fails with a type error.
pub open spec fn spec_call_value(st: StateV, func: Value, this: Value, args: Seq<Value>) -> (
    StateV,
    Result<Value, Value>,
) {
    if func is Object && (func->Object_0 as int) < st.objects.len() && st.objects[func->Object_0
        as int].data is Function {
        spec_apply_function(st, st.objects[func->Object_0 as int].data->Function_0, this, args)
    } else {
        let (st1, e) = spec_throw_type_error(st, "not a function".spec_bytes());
        (st1, Err(e))
    }
}

/// The construct protocol of the built-in function behaviours: the result
/// replaces the freshly allocated receiver entirely; a behaviour returning
/// an object reference of its own replaces it, the others keep it.
pub open spec fn spec_construct_function(
    st: StateV,
    f: Function,
    this: Value,
    args: Seq<Value>,
) -> (StateV, Result<Value, Value>) {
    match f {
        Function::GetArg(i) => (
            st,
            Ok(
                if i < args.len() && args[i as int] is Object {
                    args[i as int]
                } else {
                    this
                },
            ),
        ),
        Function::EarlyReturn => (with_state(st, InterpreterState::Return), Ok(this)),
        _ => (st, Ok(this)),
    }
}

/// Spread extraction: the ordered indexed elements of an array object;
/// anything else has no indexable representation and fails with a type
/// error.
pub open spec fn spec_extract_indexed(st: StateV, v: Value) -> (StateV, Result<Seq<Value>, Value>) {
    if v is Object && (v->Object_0 as int) < st.objects.len() && st.objects[v->Object_0
        as int].data is Array {
        (st, Ok(st.objects[v->Object_0 as int].data->Array_0))
    } else {
        let (st1, e) = spec_throw_type_error(st, "not indexable".spec_bytes());
        (st1, Err(e))
    }
}

/// The value of a constant literal.
pub open spec fn spec_const_value(c: Const) -> Value {
    match c {
        Const::Undefined => Value::Undefined,
        Const::Num(n) => Value::Number(n),
        Const::Str(s) => Value::Str(s),
    }
}

/// Evaluation of one node: a pure function from (state, node shape) to
/// (state, result value or failure value).
pub open spec fn spec_eval(st: StateV, n: NodeV) -> (StateV, Result<Value, Value>)
    decreases n, 1int,
{
    match n {
        NodeV::Const(c) => (st, Ok(spec_const_value(c))),
        NodeV::Local(sym) => (st, Ok(spec_get_field_obj(st.objects, st.global as int, sym))),
        NodeV::ArrayDecl(elems) => {
            let (st1, r) = spec_eval_list(st, elems);
            match r {
                Err(e) => (st1, Err(e)),
                Ok(vals) => {
                    let (st2, id) = spec_alloc(
                        st1,
                        ObjectV {
                            proto: Value::Undefined,
                            props: Seq::empty(),
                            data: ObjDataV::Array(vals),
                        },
                    );
                    (st2, Ok(Value::Object(id)))
                },
            }
        },
        NodeV::Spread(inner) => spec_eval(st, *inner),
        NodeV::GetConstField(obj, field) => {
            let (st1, r) = spec_eval(st, *obj);
            match r {
                Err(e) => (st1, Err(e)),
                Ok(v) => (st1, Ok(spec_get_field_value(st1.objects, v, field))),
            }
        },
        NodeV::GetField(obj, key) => {
            let (st1, r) = spec_eval(st, *obj);
            match r {
                Err(e) => (st1, Err(e)),
                Ok(ov) => {
                    let (st2, r2) = spec_eval(st1, *key);
                    match r2 {
                        Err(e) => (st2, Err(e)),
                        Ok(kv) => {
                            let (st3, ksym) = spec_key_sym(st2, kv);
                            (st3, Ok(spec_get_field_value(st3.objects, ov, ksym)))
                        },
                    }
                },
            }
        },
        NodeV::Call(callee, args) => {
            let (st_r, rcv) = spec_call_receiver(st, *callee);
            match rcv {
                Err(e) => (st_r, Err(e)),
                Ok((this, func)) => {
                    let (st_a, ra) = spec_eval_call_args(st_r, args);
                    match ra {
                        Err(e) => (st_a, Err(e)),
                        Ok(vals) => {
                            let (st_c, rc) = spec_call_value(st_a, func, this, vals);
                            (with_state(st_c, InterpreterState::Executing), rc)
                        },
                    }
                },
            }
        },
        NodeV::New(callee, args) => {
            let (st1, r) = spec_eval(st, *callee);
            match r {
                Err(e) => (st1, Err(e)),
                Ok(func) => {
                    let (st2, r2) = spec_eval_list(st1, args);
                    match r2 {
                        Err(e) => (st2, Err(e)),
                        Ok(vals) => {
                            let (st3, proto_key) = spec_intern_st(st2, "prototype".spec_bytes());
                            let protov = spec_get_field_value(st3.objects, func, proto_key);
                            let (st4, this_id) = spec_alloc(
                                st3,
                                ObjectV {
                                    proto: protov,
                                    props: Seq::empty(),
                                    data: ObjDataV::Ordinary,
                                },
                            );
                            if func is Object && (func->Object_0 as int) < st4.objects.len()
                                && st4.objects[func->Object_0 as int].data is Function {
                                spec_construct_function(
                                    st4,
                                    st4.objects[func->Object_0 as int].data->Function_0,
                                    Value::Object(this_id),
                                    vals,
                                )
                            } else if func is Object {
                                let (st5, e) = spec_throw_type_error(
                                    st4,
                                    "not a constructor".spec_bytes(),
                                );
                                (st5, Err(e))
                            } else {
                                (st4, Ok(Value::Undefined))
                            }
                        },
                    }
                },
            }
        },
        NodeV::Break(l) => (with_state(st, InterpreterState::Break(l)), Ok(Value::Undefined)),
    }
}

/// Receiver and callable resolution for a call, from the shape of the
/// callee: a non-computed member access evaluates its object and coerces a
/// primitive receiver; a computed member access uses its object uncoerced
/// and the key's string form; any other shape uses the realm's global
/// object as receiver and the callee's own value as callable.
pub open spec fn spec_call_receiver(st: StateV, callee: NodeV) -> (
    StateV,
    Result<(Value, Value), Value>,
)
    decreases callee, 2int,
{
    match callee {
        NodeV::GetConstField(obj, field) => {
            let (st1, r) = spec_eval(st, *obj);
            match r {
                Err(e) => (st1, Err(e)),
                Ok(ov) => {
                    if !(ov is Object) && !(ov is Symbol) {
                        let (st2, r2) = spec_to_object(st1, ov);
                        match r2 {
                            Err(e) => (st2, Err(e)),
                            Ok(ov2) => (
                                st2,
                                Ok((ov2, spec_get_field_value(st2.objects, ov2, field))),
                            ),
                        }
                    } else {
                        (st1, Ok((ov, spec_get_field_value(st1.objects, ov, field))))
                    }
                },
            }
        },
        NodeV::GetField(obj, key) => {
            let (st1, r) = spec_eval(st, *obj);
            match r {
                Err(e) => (st1, Err(e)),
                Ok(ov) => {
                    let (st2, r2) = spec_eval(st1, *key);
                    match r2 {
                        Err(e) => (st2, Err(e)),
                        Ok(kv) => {
                            let (st3, ksym) = spec_key_sym(st2, kv);
                            (st3, Ok((ov, spec_get_field_value(st3.objects, ov, ksym))))
                        },
                    }
                },
            }
        },
        _ => {
            let (st1, r) = spec_eval(st, callee);
            match r {
                Err(e) => (st1, Err(e)),
                Ok(fv) => (st1, Ok((Value::Object(st1.global), fv))),
            }
        },
    }
}

/// Strict left-to-right evaluation of a node list, stopping at the first
/// failure.
pub open spec fn spec_eval_list(st: StateV, nodes: Seq<NodeV>) -> (
    StateV,
    Result<Seq<Value>, Value>,
)
    decreases nodes, 1int,
{
    if nodes.len() == 0 {
        (st, Ok(Seq::empty()))
    } else {
        let (st1, r) = spec_eval(st, nodes[0]);
        match r {
            Err(e) => (st1, Err(e)),
            Ok(v) => {
                let (st2, r2) = spec_eval_list(st1, nodes.drop_first());
                match r2 {
                    Err(e) => (st2, Err(e)),
                    Ok(vs) => (st2, Ok(seq![v] + vs)),
                }
            },
        }
    }
}

/// Call-argument evaluation, in source order, with the documented quirk: a
/// spread element's source is evaluated, its indexed elements are appended,
/// and every argument written after the spread is never evaluated.
pub open spec fn spec_eval_call_args(st: StateV, args: Seq<NodeV>) -> (
    StateV,
    Result<Seq<Value>, Value>,
)
    decreases args, 1int,
{
    if args.len() == 0 {
        (st, Ok(Seq::empty()))
    } else if args[0] is Spread {
        let (st1, r) = spec_eval(st, *args[0]->Spread_0);
        match r {
            Err(e) => (st1, Err(e)),
            Ok(v) => {
                let (st2, r2) = spec_extract_indexed(st1, v);
                match r2 {
                    Err(e) => (st2, Err(e)),
                    Ok(vals) => (st2, Ok(vals)),
                }
            },
        }
    } else {
        let (st1, r) = spec_eval(st, args[0]);
        match r {
            Err(e) => (st1, Err(e)),
            Ok(v) => {
                let (st2, r2) = spec_eval_call_args(st1, args.drop_first());
                match r2 {
                    Err(e) => (st2, Err(e)),
                    Ok(vs) => (st2, Ok(seq![v] + vs)),
                }
            },
        }
    }
}

/// First value stored under `key`, when the first occurrence is at `j`.
proof fn lemma_get_prop_at(props: Seq<(Sym, Value)>, key: Sym, j: int)
    requires
        0 <= j < props.len(),
        props[j].0 == key,
        forall|k: int| 0 <= k < j ==> (#[trigger] props[k]).0 != key,
    ensures
        spec_get_prop(props, key) == Some(props[j].1),
    decreases props.len(),
{
    if j > 0 {
        lemma_get_prop_at(props.drop_first(), key, j - 1);
    }
}

/// `spec_get_prop` finds nothing when no entry carries `key`.
proof fn lemma_get_prop_none(props: Seq<(Sym, Value)>, key: Sym)
    requires
        forall|k: int| 0 <= k < props.len() ==> (#[trigger] props[k]).0 != key,
    ensures
        spec_get_prop(props, key) == None::<Value>,
    decreases props.len(),
{
    if props.len() > 0 {
        lemma_get_prop_none(props.drop_first(), key);
    }
}

/// What `spec_get_prop` returns is one of the stored values.
proof fn lemma_get_prop_val_ok(props: Seq<(Sym, Value)>, key: Sym, n: int)
    requires
        forall|j: int| 0 <= j < props.len() ==> val_ok((#[trigger] props[j]).1, n),
    ensures
        spec_get_prop(props, key) is Some ==> val_ok(spec_get_prop(props, key)->0, n),
    decreases props.len(),
{
    if props.len() > 0 && props[0].0 != key {
        assert(forall|j: int|
            0 <= j < props.drop_first().len() ==> val_ok(
                (#[trigger] props.drop_first()[j]).1,
                n,
            ) && props.drop_first()[j] == props[j + 1]);
        lemma_get_prop_val_ok(props.drop_first(), key, n);
    }
}

/// Under a well-formed arena, property lookup hands back a handle that
/// stays inside the arena.
pub proof fn lemma_get_field_obj_ok(objects: Seq<ObjectV>, id: int, key: Sym)
    requires
        forall|i: int|
            0 <= i < objects.len() ==> obj_wf(#[trigger] objects[i], i, objects.len() as int),
    ensures
        val_ok(spec_get_field_obj(objects, id, key), objects.len() as int),
    decreases id,
{
    if 0 <= id < objects.len() {
        lemma_get_prop_val_ok(objects[id].props, key, objects.len() as int);
        match spec_get_prop(objects[id].props, key) {
            Some(_) => {},
            None => {
                let p = objects[id].proto;
                if p is Object && (p->Object_0 as int) < id {
                    lemma_get_field_obj_ok(objects, p->Object_0 as int, key);
                }
            },
        }
    }
}

/// As [`lemma_get_field_obj_ok`], for lookup on any value.
pub proof fn lemma_get_field_value_ok(objects: Seq<ObjectV>, v: Value, key: Sym)
    requires
        forall|i: int|
            0 <= i < objects.len() ==> obj_wf(#[trigger] objects[i], i, objects.len() as int),
    ensures
        val_ok(spec_get_field_value(objects, v, key), objects.len() as int),
{
    if v is Object {
        lemma_get_field_obj_ok(objects, v->Object_0 as int, key);
    }
}

/// The tree-walking interpreter: the object arena, the pending-control-flow
/// flag, and the realm's global object handle. The interning table is
/// threaded through evaluation by exclusive mutable access, as it is
/// through parsing.
pub struct Interpreter {
    objects: Vec<ObjectRec>,
    state: InterpreterState,
    global: usize,
}

impl Interpreter {
    /// The shapes of the arena's object records.
    pub closed spec fn objs(&self) -> Seq<ObjectV> {
        self.objects@.map(|i: int, o: ObjectRec| o@)
    }

    /// The pending-control-flow flag.
    pub closed spec fn flag(&self) -> InterpreterState {
        self.state
    }

    /// The realm's global object handle.
    pub closed spec fn global_id(&self) -> usize {
        self.global
    }

    /// Well-formedness of the interpreter: the realm's global handle and
    /// every handle stored in the arena stay inside it, and prototype links
    /// point backwards, so prototype chains end. Constructors establish it
    /// and evaluation preserves it.
    pub open spec fn wf(&self) -> bool {
        &&& (self.global_id() as int) < self.objs().len()
        &&& forall|i: int|
            0 <= i < self.objs().len() ==> obj_wf(
                #[trigger] self.objs()[i],
                i,
                self.objs().len() as int,
            )
    }

    /// The interpreter's whole state, given the interning table beside it.
    pub open spec fn st(&self, strings: Seq<Seq<u8>>) -> StateV {
        StateV {
            objects: self.objs(),
            strings,
            state: self.flag(),
            global: self.global_id(),
        }
    }

    /// Creates an interpreter whose realm holds one ordinary, empty global
    /// object.
    pub fn new() -> (r: Interpreter)
        ensures
            r.objs() =~= seq![
                ObjectV {
                    proto: Value::Undefined,
                    props: Seq::empty(),
                    data: ObjDataV::Ordinary,
                },
            ],
            r.flag() == InterpreterState::Executing,
            r.global_id() == 0,
            forall|strings: Seq<Seq<u8>>| st_wf(#[trigger] r.st(strings)),
            r.wf(),
    {
        let mut objects: Vec<ObjectRec> = Vec::new();
        objects.push(
            ObjectRec { proto: Value::Undefined, props: Vec::new(), data: ObjData::Ordinary },
        );
        let r = Interpreter { objects, state: InterpreterState::Executing, global: 0 };
        proof {
            assert(r.objs() =~= seq![
                ObjectV { proto: Value::Undefined, props: Seq::empty(), data: ObjDataV::Ordinary },
            ]);
        }
        r
    }

    /// The handle of the realm's global object.
    pub fn global_object(&self) -> (r: usize)
        ensures
            r == self.global_id(),
    {
        self.global
    }

    /// The number of objects the arena holds.
    pub fn object_count(&self) -> (r: usize)
        ensures
            r == self.objs().len(),
    {
        proof {
            assert(self.objs().len() == self.objects@.len());
        }
        self.objects.len()
    }

    /// The pending-control-flow flag, for callers that inspect it.
    pub fn current_state(&self) -> (r: InterpreterState)
        ensures
            r == self.flag(),
    {
        self.state
    }

    /// Property lookup on the object `id`, walking the prototype chain.
    #[verifier::loop_isolation(false)]
    pub fn get_field_obj(&self, id: usize, key: Sym) -> (r: Value)
        ensures
            r == spec_get_field_obj(self.objs(), id as int, key),
        decreases id,
    {
        if id >= self.objects.len() {
            return Value::Undefined;
        }
        let rec = &self.objects[id];
        let n = rec.props.len();
        let ghost props = rec.props@;
        let mut j: usize = 0;
        while j < n
            invariant
                n == rec.props.len(),
                props == rec.props@,
                0 <= j <= n,
                forall|k: int| 0 <= k < j ==> (#[trigger] props[k]).0 != key,
            decreases n - j,
        {
            if rec.props[j].0 == key {
                proof {
                    lemma_get_prop_at(props, key, j as int);
                    assert(self.objs()[id as int] == rec@);
                }
                return rec.props[j].1;
            }
            j = j + 1;
        }
        proof {
            lemma_get_prop_none(props, key);
            assert(self.objs()[id as int] == rec@);
        }
        match rec.proto {
            Value::Object(pid) => {
                if pid < id {
                    self.get_field_obj(pid, key)
                } else {
                    Value::Undefined
                }
            },
            _ => Value::Undefined,
        }
    }

    /// Property lookup on a value: undefined on anything but an object
    /// reference. Never fails.
    pub fn get_field_value(&self, v: Value, key: Sym) -> (r: Value)
        ensures
            r == spec_get_field_value(self.objs(), v, key),
    {
        match v {
            Value::Object(id) => self.get_field_obj(id, key),
            _ => Value::Undefined,
        }
    }
}

impl Interpreter {
    /// Appends a fresh object record to the arena and returns its handle.
    fn push_object(&mut self, rec: ObjectRec) -> (id: usize)
        ensures
            final(self).objs() == old(self).objs().push(rec@),
            old(self).wf() && obj_wf(rec@, old(self).objs().len() as int, old(self).objs().len() as int + 1) ==> final(self).wf(),
            final(self).flag() == old(self).flag(),
            final(self).global_id() == old(self).global_id(),
            id == old(self).objs().len(),
    {
        let id = self.objects.len();
        self.objects.push(rec);
        proof {
            assert(final(self).objs() =~= old(self).objs().push(rec@));
        }
        id
    }

    /// Allocates an ordinary object with the given prototype link and no
    /// properties, and returns its handle.
    pub fn alloc_object(&mut self, proto: Value) -> (id: usize)
        ensures
            ({
                let o = ObjectV { proto, props: Seq::empty(), data: ObjDataV::Ordinary };
                &&& final(self).objs() == old(self).objs().push(o)
                &&& final(self).flag() == old(self).flag()
                &&& final(self).global_id() == old(self).global_id()
                &&& id == old(self).objs().len()
                &&& old(self).wf() && val_ok(proto, old(self).objs().len() as int) ==> final(self).wf()
            }),
    {
        let id = self.push_object(
            ObjectRec { proto, props: Vec::new(), data: ObjData::Ordinary },
        );
        id
    }

    /// Allocates a function object with the given behaviour and prototype
    /// link, and returns its handle.
    pub fn alloc_function(&mut self, f: Function, proto: Value) -> (id: usize)
        ensures
            ({
                let o = ObjectV { proto, props: Seq::empty(), data: ObjDataV::Function(f) };
                &&& final(self).objs() == old(self).objs().push(o)
                &&& final(self).flag() == old(self).flag()
                &&& final(self).global_id() == old(self).global_id()
                &&& id == old(self).objs().len()
                &&& old(self).wf() && val_ok(proto, old(self).objs().len() as int) ==> final(self).wf()
            }),
    {
        let id = self.push_object(
            ObjectRec { proto, props: Vec::new(), data: ObjData::Function(f) },
        );
        id
    }

    /// Allocates an array object holding the given indexed elements, and
    /// returns its handle.
    pub fn alloc_array(&mut self, elems: Vec<Value>) -> (id: usize)
        ensures
            ({
                let o = ObjectV {
                    proto: Value::Undefined,
                    props: Seq::empty(),
                    data: ObjDataV::Array(elems@),
                };
                &&& final(self).objs() == old(self).objs().push(o)
                &&& final(self).flag() == old(self).flag()
                &&& final(self).global_id() == old(self).global_id()
                &&& id == old(self).objs().len()
                &&& old(self).wf() && (forall|k: int|
                    0 <= k < elems@.len() ==> val_ok(
                        #[trigger] elems@[k],
                        old(self).objs().len() as int,
                    )) ==> final(self).wf()
            }),
    {
        let ghost ev = elems@;
        let id = self.push_object(
            ObjectRec { proto: Value::Undefined, props: Vec::new(), data: ObjData::Array(elems) },
        );
        id
    }

    /// Writes a property on the object `id`: the new entry shadows any
    /// earlier entry under the same key. The prototype slot and data tag
    /// are untouched.
    pub fn set_field(&mut self, id: usize, key: Sym, val: Value)
        requires
            id < old(self).objs().len(),
        ensures
            ({
                let o = old(self).objs()[id as int];
                let o2 = ObjectV {
                    proto: o.proto,
                    props: seq![(key, val)].add(o.props),
                    data: o.data,
                };
                &&& final(self).objs() == old(self).objs().update(id as int, o2)
                &&& final(self).flag() == old(self).flag()
                &&& final(self).global_id() == old(self).global_id()
                &&& old(self).wf() && val_ok(val, old(self).objs().len() as int) ==> final(self).wf()
            }),
    {
        let rec = &self.objects[id];
        let proto = rec.proto;
        let mut props: Vec<(Sym, Value)> = Vec::new();
        props.push((key, val));
        let n = rec.props.len();
        for j in 0..n
            invariant
                n == rec.props.len(),
                rec == &self.objects[id as int],
                props@ == seq![(key, val)].add(rec.props@.take(j as int)),
        {
            let entry = rec.props[j];
            proof {
                assert(seq![(key, val)].add(rec.props@.take(j as int)).push(rec.props@[j as int])
                    =~= seq![(key, val)].add(rec.props@.take(j + 1 as int)));
            }
            props.push(entry);
        }
        proof {
            assert(rec.props@.take(n as int) =~= rec.props@);
        }
        let data = match &rec.data {
            ObjData::Ordinary => ObjData::Ordinary,
            ObjData::Function(f) => ObjData::Function(*f),
            ObjData::Array(elems) => {
                let m = elems.len();
                let mut copy: Vec<Value> = Vec::new();
                for k in 0..m
                    invariant
                        m == elems.len(),
                        copy@ == elems@.take(k as int),
                        rec == &self.objects[id as int],
                    {
                    proof {
                        assert(elems@.take(k as int).push(elems@[k as int]) =~= elems@.take(
                            k + 1 as int,
                        ));
                    }
                    copy.push(elems[k]);
                }
                proof {
                    assert(elems@.take(m as int) =~= elems@);
                }
                ObjData::Array(copy)
            },
        };
        let rec2 = ObjectRec { proto, props, data };
        proof {
            assert(rec2@ == (ObjectV {
                proto: old(self).objs()[id as int].proto,
                props: seq![(key, val)].add(old(self).objs()[id as int].props),
                data: old(self).objs()[id as int].data,
            }));
        }
        self.objects[id] = rec2;
        proof {
            assert(final(self).objs() =~= old(self).objs().update(id as int, rec2@));
        }
    }
}

/// Executable counterpart of [`spec_dec_digits`].
fn dec_digits_u64(m: u64) -> (r: Vec<u8>)
    ensures
        r@ == spec_dec_digits(m as nat),
    decreases m,
{
    if m < 10 {
        let mut v: Vec<u8> = Vec::new();
        v.push((m as u8) + 48);
        proof {
            assert(v@ =~= spec_dec_digits(m as nat));
        }
        v
    } else {
        let mut v = dec_digits_u64(m / 10);
        v.push(((m % 10) as u8) + 48);
        proof {
            assert(v@ =~= spec_dec_digits(m as nat));
        }
        v
    }
}

/// Executable counterpart of [`spec_dec_bytes`].
fn dec_bytes_i64(n: i64) -> (r: Vec<u8>)
    ensures
        r@ == spec_dec_bytes(n as int),
{
    if n >= 0 {
        dec_digits_u64(n as u64)
    } else {
        let m: u64 = ((-(n + 1)) as u64) + 1;
        proof {
            assert(m as int == -(n as int));
        }
        let mut v: Vec<u8> = Vec::new();
        v.push(45u8);
        let mut d = dec_digits_u64(m);
        v.append(&mut d);
        proof {
            assert(v@ =~= seq![45u8] + spec_dec_digits((-(n as int)) as nat));
        }
        v
    }
}

/// Executable counterpart of [`spec_key_tbl`]: interns the string form of a
/// value, for use as a property key.
fn key_sym(interner: &mut Interner, v: Value) -> (sym: Sym)
    ensures
        (final(interner)@, sym) == spec_key_tbl(old(interner)@, v),
{
    match v {
        Value::Str(s) => s,
        Value::Number(n) => {
            let text = dec_bytes_i64(n);
            interner.get_or_intern(&text)
        },
        Value::Undefined => interner.get_or_intern(&"undefined".as_bytes_vec()),
        Value::Symbol(_) => interner.get_or_intern(&"Symbol()".as_bytes_vec()),
        Value::Object(_) => interner.get_or_intern(&"[object]".as_bytes_vec()),
    }
}

/// Pushing an object whose handles stay inside the arena preserves
/// well-formedness; the prototype link may point anywhere into the old
/// arena, since the new record is the latest.
pub proof fn lemma_wf_push(st: StateV, o: ObjectV)
    requires
        st_wf(st),
        val_ok(o.proto, st.objects.len() as int),
        forall|j: int| 0 <= j < o.props.len() ==> val_ok((#[trigger] o.props[j]).1, st.objects.len() as int),
        o.data is Array ==> forall|k: int|
            0 <= k < o.data->Array_0.len() ==> val_ok(
                #[trigger] o.data->Array_0[k],
                st.objects.len() as int,
            ),
    ensures
        st_wf(spec_alloc(st, o).0),
{
    let st2 = spec_alloc(st, o).0;
    let n = st.objects.len() as int;
    assert forall|i: int| 0 <= i < st2.objects.len() implies obj_wf(
        #[trigger] st2.objects[i],
        i,
        st2.objects.len() as int,
    ) by {
        if i < n {
            assert(obj_wf(st.objects[i], i, n));
        }
    }
}

impl Interpreter {
    /// Produces a failure result carrying a fresh type-error object with
    /// the given message.
    pub fn throw_type_error(&mut self, interner: &mut Interner, msg: &str) -> (e: Value)
        ensures
            ({
                let (st2, ev) = spec_throw_type_error(
                    old(self).st(old(interner)@),
                    msg.spec_bytes(),
                );
                &&& final(self).st(final(interner)@) == st2
                &&& e == ev
            }),
            old(self).wf() ==> final(self).wf(),
            val_ok(e, final(self).objs().len() as int),
            old(self).objs().len() < final(self).objs().len(),
            final(self).global_id() == old(self).global_id(),
    {
        let k_name = interner.get_or_intern(&"name".as_bytes_vec());
        let v_name = interner.get_or_intern(&"TypeError".as_bytes_vec());
        let k_msg = interner.get_or_intern(&"message".as_bytes_vec());
        let v_msg = interner.get_or_intern(&msg.as_bytes_vec());
        let mut props: Vec<(Sym, Value)> = Vec::new();
        props.push((k_name, Value::Str(v_name)));
        props.push((k_msg, Value::Str(v_msg)));
        proof {
            assert(props@ =~= seq![(k_name, Value::Str(v_name)), (k_msg, Value::Str(v_msg))]);
        }
        let id = self.push_object(ObjectRec { proto: Value::Undefined, props, data: ObjData::Ordinary });
        proof {
            let (st2, ev) = spec_throw_type_error(old(self).st(old(interner)@), msg.spec_bytes());
            assert(final(self).st(final(interner)@) =~~= st2);
        }
        Value::Object(id)
    }

    /// Object coercion, per [`spec_to_object`]: a failure is fatal to the
    /// caller and is surfaced, not swallowed.
    pub fn to_object(&mut self, interner: &mut Interner, v: Value) -> (r: Result<Value, Value>)
        ensures
            ({
                let (st2, res) = spec_to_object(old(self).st(old(interner)@), v);
                &&& final(self).st(final(interner)@) == st2
                &&& r == res
            }),
            old(self).wf() ==> final(self).wf(),
            ({
                match r {
                    Ok(v2) => val_ok(v, old(self).objs().len() as int) ==> val_ok(
                        v2,
                        final(self).objs().len() as int,
                    ),
                    Err(e) => val_ok(e, final(self).objs().len() as int),
                }
            }),
            old(self).objs().len() <= final(self).objs().len(),
            final(self).global_id() == old(self).global_id(),
    {
        match v {
            Value::Object(_) => Ok(v),
            Value::Undefined => {
                let e = self.throw_type_error(interner, "cannot convert to object");
                Err(e)
            },
            _ => {
                let id = self.alloc_object(Value::Undefined);
                proof {
                    let (st2, res) = spec_to_object(old(self).st(old(interner)@), v);
                    assert(final(self).st(final(interner)@) =~~= st2);
                }
                Ok(Value::Object(id))
            },
        }
    }

    /// Invokes a callable value with the given receiver and arguments, per
    /// [`spec_call_value`].
    pub fn call_value(
        &mut self,
        interner: &mut Interner,
        func: Value,
        this: Value,
        args: &Vec<Value>,
    ) -> (r: Result<Value, Value>)
        ensures
            ({
                let (st2, res) = spec_call_value(old(self).st(old(interner)@), func, this, args@);
                &&& final(self).st(final(interner)@) == st2
                &&& r == res
            }),
            old(self).wf() ==> final(self).wf(),
            ({
                match r {
                    Ok(v) => (val_ok(this, old(self).objs().len() as int) && (forall|k: int|
                        0 <= k < args@.len() ==> val_ok(
                            #[trigger] args@[k],
                            old(self).objs().len() as int,
                        ))) ==> val_ok(v, final(self).objs().len() as int),
                    Err(e) => val_ok(e, final(self).objs().len() as int),
                }
            }),
            old(self).objs().len() <= final(self).objs().len(),
            final(self).global_id() == old(self).global_id(),
    {
        let fid = match func {
            Value::Object(fid) => fid,
            _ => {
                let e = self.throw_type_error(interner, "not a function");
                return Err(e);
            },
        };
        if fid >= self.objects.len() {
            let e = self.throw_type_error(interner, "not a function");
            return Err(e);
        }
        let f = match &self.objects[fid].data {
            ObjData::Function(f) => *f,
            _ => {
                let e = self.throw_type_error(interner, "not a function");
                return Err(e);
            },
        };
        proof {
            assert(old(self).objs().len() == old(self).objects@.len());
            assert(old(self).objs()[fid as int] == old(self).objects@[fid as int]@);
        }
        match f {
            Function::GetThis => Ok(this),
            Function::GetArg(i) => {
                if i < args.len() {
                    Ok(args[i])
                } else {
                    Ok(Value::Undefined)
                }
            },
            Function::ArgCount => {
                if (args.len() as u64) <= (i64::MAX as u64) {
                    Ok(Value::Number(args.len() as i64))
                } else {
                    Ok(Value::Number(i64::MAX))
                }
            },
            Function::Undef => Ok(Value::Undefined),
            Function::EarlyReturn => {
                self.state = InterpreterState::Return;
                Ok(Value::Undefined)
            },
        }
    }

    /// Runs the construct protocol of a function-tagged object, per
    /// [`spec_construct_function`].
    fn construct_function(&mut self, f: Function, this: Value, args: &Vec<Value>) -> (r: Result<
        Value,
        Value,
    >)
        ensures
            ({
                let (st2, res) = spec_construct_function(
                    old(self).st(Seq::empty()),
                    f,
                    this,
                    args@,
                );
                &&& final(self).objs() == st2.objects
                &&& final(self).flag() == st2.state
                &&& final(self).global_id() == st2.global
                &&& r == res
            }),
            ({
                match r {
                    Ok(v) => (val_ok(this, old(self).objs().len() as int) && (forall|k: int|
                        0 <= k < args@.len() ==> val_ok(
                            #[trigger] args@[k],
                            old(self).objs().len() as int,
                        ))) ==> val_ok(v, final(self).objs().len() as int),
                    Err(e) => val_ok(e, final(self).objs().len() as int),
                }
            }),
    {
        match f {
            Function::GetArg(i) => {
                if i < args.len() && matches!(args[i], Value::Object(_)) {
                    Ok(args[i])
                } else {
                    Ok(this)
                }
            },
            Function::EarlyReturn => {
                self.state = InterpreterState::Return;
                Ok(this)
            },
            _ => Ok(this),
        }
    }

    /// Extracts the ordered indexed elements of an array object for spread
    /// expansion, per [`spec_extract_indexed`].
    pub fn extract_indexed(&mut self, interner: &mut Interner, v: Value) -> (r: Result<
        Vec<Value>,
        Value,
    >)
        ensures
            ({
                let (st2, res) = spec_extract_indexed(old(self).st(old(interner)@), v);
                &&& final(self).st(final(interner)@) == st2
                &&& match (r, res) {
                    (Ok(vals), Ok(sv)) => vals@ == sv,
                    (Err(e), Err(ev)) => e == ev,
                    _ => false,
                }
            }),
            old(self).wf() ==> final(self).wf(),
            ({
                match r {
                    Ok(vals) => old(self).wf() ==> forall|k: int|
                        0 <= k < vals@.len() ==> val_ok(
                            #[trigger] vals@[k],
                            final(self).objs().len() as int,
                        ),
                    Err(e) => val_ok(e, final(self).objs().len() as int),
                }
            }),
            old(self).objs().len() <= final(self).objs().len(),
            final(self).global_id() == old(self).global_id(),
    {
        let id = match v {
            Value::Object(id) => id,
            _ => {
                let e = self.throw_type_error(interner, "not indexable");
                return Err(e);
            },
        };
        if id >= self.objects.len() {
            let e = self.throw_type_error(interner, "not indexable");
            return Err(e);
        }
        proof {
            assert(old(self).objs()[id as int] == old(self).objects@[id as int]@);
        }
        match &self.objects[id].data {
            ObjData::Array(elems) => {
                let m = elems.len();
                let mut copy: Vec<Value> = Vec::new();
                for k in 0..m
                    invariant
                        m == elems.len(),
                        copy@ == elems@.take(k as int),
                        elems == &self.objects@[id as int].data->Array_0,
                    {
                    proof {
                        assert(elems@.take(k as int).push(elems@[k as int]) =~= elems@.take(
                            k + 1 as int,
                        ));
                    }
                    copy.push(elems[k]);
                }
                proof {
                    assert(elems@.take(m as int) =~= elems@);
                }
                Ok(copy)
            },
            _ => {
                let e = self.throw_type_error(interner, "not indexable");
                Err(e)
            },
        }
    }
}

impl Interpreter {
    /// Evaluates one node, per [`spec_eval`]: the sole entry point of the
    /// tree-walking evaluator.
    #[verifier::rlimit(100)]
    pub fn run(&mut self, interner: &mut Interner, node: &Node) -> (r: Result<Value, Value>)
        ensures
            ({
                let (st2, res) = spec_eval(old(self).st(old(interner)@), node@);
                &&& final(self).st(final(interner)@) == st2
                &&& r == res
            }),
            old(self).wf() ==> final(self).wf(),
            old(self).wf() ==> ({
                match r {
                    Ok(v) => val_ok(v, final(self).objs().len() as int),
                    Err(e) => val_ok(e, final(self).objs().len() as int),
                }
            }),
            old(self).objs().len() <= final(self).objs().len(),
            final(self).global_id() == old(self).global_id(),
        decreases *node, 0int, 1int,
    {
        match node {
            Node::Const(c) => {
                match c {
                    Const::Undefined => Ok(Value::Undefined),
                    Const::Num(n) => Ok(Value::Number(*n)),
                    Const::Str(sym) => Ok(Value::Str(*sym)),
                }
            },
            Node::Local(sym) => {
                let g = self.global;
                let v = self.get_field_obj(g, *sym);
                proof {
                    if old(self).wf() {
                        lemma_get_field_obj_ok(self.objs(), g as int, *sym);
                    }
                }
                Ok(v)
            },
            Node::ArrayDecl(elems) => {
                let vals = match self.run_list(interner, elems, 0) {
                    Err(e) => {
                        proof {
                            assert(nodes_view(elems@).skip(0) =~= nodes_view(elems@));
                        }
                        return Err(e);
                    },
                    Ok(v) => v,
                };
                proof {
                    assert(nodes_view(elems@).skip(0) =~= nodes_view(elems@));
                }
                let id = self.alloc_array(vals);
                Ok(Value::Object(id))
            },
            Node::Spread(inner) => self.run(interner, inner),
            Node::GetConstField(obj, field) => {
                let v = match self.run(interner, obj) {
                    Err(e) => {
                        return Err(e);
                    },
                    Ok(v) => v,
                };
                let fv = self.get_field_value(v, *field);
                proof {
                    if old(self).wf() {
                        lemma_get_field_value_ok(self.objs(), v, *field);
                    }
                }
                Ok(fv)
            },
            Node::GetField(obj, key) => {
                let ov = match self.run(interner, obj) {
                    Err(e) => {
                        return Err(e);
                    },
                    Ok(v) => v,
                };
                let kv = match self.run(interner, key) {
                    Err(e) => {
                        return Err(e);
                    },
                    Ok(v) => v,
                };
                let ksym = key_sym(interner, kv);
                let fv = self.get_field_value(ov, ksym);
                proof {
                    if old(self).wf() {
                        lemma_get_field_value_ok(self.objs(), ov, ksym);
                    }
                }
                Ok(fv)
            },
            Node::Call(callee, args) => {
                let rf = match self.call_receiver(interner, callee) {
                    Err(e) => {
                        return Err(e);
                    },
                    Ok(p) => p,
                };
                let (this, func) = rf;
                let vals = match self.run_call_args(interner, args, 0) {
                    Err(e) => {
                        proof {
                            assert(nodes_view(args@).skip(0) =~= nodes_view(args@));
                        }
                        return Err(e);
                    },
                    Ok(v) => v,
                };
                proof {
                    assert(nodes_view(args@).skip(0) =~= nodes_view(args@));
                }
                let rc = self.call_value(interner, func, this, &vals);
                self.state = InterpreterState::Executing;
                rc
            },
            Node::New(callee, args) => {
                let func = match self.run(interner, callee) {
                    Err(e) => {
                        return Err(e);
                    },
                    Ok(v) => v,
                };
                let vals = match self.run_list(interner, args, 0) {
                    Err(e) => {
                        proof {
                            assert(nodes_view(args@).skip(0) =~= nodes_view(args@));
                        }
                        return Err(e);
                    },
                    Ok(v) => v,
                };
                proof {
                    assert(nodes_view(args@).skip(0) =~= nodes_view(args@));
                }
                let proto_key = interner.get_or_intern(&"prototype".as_bytes_vec());
                let protov = self.get_field_value(func, proto_key);
                proof {
                    if old(self).wf() {
                        lemma_get_field_value_ok(self.objs(), func, proto_key);
                    }
                }
                let this_id = self.alloc_object(protov);
                let fid = match func {
                    Value::Object(fid) => fid,
                    _ => {
                        return Ok(Value::Undefined);
                    },
                };
                if fid >= self.objects.len() {
                    let e = self.throw_type_error(interner, "not a constructor");
                    return Err(e);
                }
                let fdata = match &self.objects[fid].data {
                    ObjData::Function(f) => Some(*f),
                    _ => None,
                };
                proof {
                    assert(self.objs()[fid as int] == self.objects@[fid as int]@);
                    assert(self.objs().len() == self.objects@.len());
                }
                match fdata {
                    Some(f) => self.construct_function(f, Value::Object(this_id), &vals),
                    None => {
                        let e = self.throw_type_error(interner, "not a constructor");
                        Err(e)
                    },
                }
            },
            Node::Break(l) => {
                self.state = InterpreterState::Break(*l);
                Ok(Value::Undefined)
            },
        }
    }

    /// Resolves the receiver and the callable for a call, per
    /// [`spec_call_receiver`].
    fn call_receiver(&mut self, interner: &mut Interner, callee: &Node) -> (r: Result<
        (Value, Value),
        Value,
    >)
        ensures
            ({
                let (st2, res) = spec_call_receiver(old(self).st(old(interner)@), callee@);
                &&& final(self).st(final(interner)@) == st2
                &&& match (r, res) {
                    (Ok(p), Ok(sp)) => p == sp,
                    (Err(e), Err(ev)) => e == ev,
                    _ => false,
                }
            }),
            old(self).wf() ==> final(self).wf(),
            old(self).wf() ==> ({
                match r {
                    Ok(p) => val_ok(p.0, final(self).objs().len() as int) && val_ok(
                        p.1,
                        final(self).objs().len() as int,
                    ),
                    Err(e) => val_ok(e, final(self).objs().len() as int),
                }
            }),
            old(self).objs().len() <= final(self).objs().len(),
            final(self).global_id() == old(self).global_id(),
        decreases *callee, 0int, 2int,
    {
        match callee {
            Node::GetConstField(obj, field) => {
                let ov = match self.run(interner, obj) {
                    Err(e) => {
                        return Err(e);
                    },
                    Ok(v) => v,
                };
                let is_obj_or_sym = matches!(ov, Value::Object(_)) || matches!(
                    ov,
                    Value::Symbol(_),
                );
                if !is_obj_or_sym {
                    let ov2 = match self.to_object(interner, ov) {
                        Err(e) => {
                            return Err(e);
                        },
                        Ok(v) => v,
                    };
                    let fv = self.get_field_value(ov2, *field);
                    proof {
                        if old(self).wf() {
                            lemma_get_field_value_ok(self.objs(), ov2, *field);
                        }
                    }
                    Ok((ov2, fv))
                } else {
                    let fv = self.get_field_value(ov, *field);
                    proof {
                        if old(self).wf() {
                            lemma_get_field_value_ok(self.objs(), ov, *field);
                        }
                    }
                    Ok((ov, fv))
                }
            },
            Node::GetField(obj, key) => {
                let ov = match self.run(interner, obj) {
                    Err(e) => {
                        return Err(e);
                    },
                    Ok(v) => v,
                };
                let kv = match self.run(interner, key) {
                    Err(e) => {
                        return Err(e);
                    },
                    Ok(v) => v,
                };
                let ksym = key_sym(interner, kv);
                let fv = self.get_field_value(ov, ksym);
                proof {
                    if old(self).wf() {
                        lemma_get_field_value_ok(self.objs(), ov, ksym);
                    }
                }
                Ok((ov, fv))
            },
            _ => {
                let fv = match self.run(interner, callee) {
                    Err(e) => {
                        return Err(e);
                    },
                    Ok(v) => v,
                };
                Ok((Value::Object(self.global), fv))
            },
        }
    }

    /// Evaluates the nodes from index `i` on, strictly left to right, per
    /// [`spec_eval_list`].
    fn run_list(&mut self, interner: &mut Interner, nodes: &Vec<Node>, i: usize) -> (r: Result<
        Vec<Value>,
        Value,
    >)
        requires
            i <= nodes@.len(),
        ensures
            ({
                let (st2, res) = spec_eval_list(
                    old(self).st(old(interner)@),
                    nodes_view(nodes@).skip(i as int),
                );
                &&& final(self).st(final(interner)@) == st2
                &&& match (r, res) {
                    (Ok(v), Ok(sv)) => v@ == sv,
                    (Err(e), Err(ev)) => e == ev,
                    _ => false,
                }
            }),
            old(self).wf() ==> final(self).wf(),
            old(self).wf() ==> ({
                match r {
                    Ok(v) => forall|k: int|
                        0 <= k < v@.len() ==> val_ok(
                            #[trigger] v@[k],
                            final(self).objs().len() as int,
                        ),
                    Err(e) => val_ok(e, final(self).objs().len() as int),
                }
            }),
            old(self).objs().len() <= final(self).objs().len(),
            final(self).global_id() == old(self).global_id(),
        decreases nodes@, nodes@.len() - i, 0int,
    {
        proof {
            lemma_nodes_view(nodes@);
        }
        if i >= nodes.len() {
            proof {
                assert(nodes_view(nodes@).skip(i as int) =~= Seq::<NodeV>::empty());
            }
            return Ok(Vec::new());
        }
        let ghost views = nodes_view(nodes@);
        proof {
            assert(views.skip(i as int)[0] == views[i as int]);
            assert(views.skip(i as int).drop_first() =~= views.skip(i as int + 1));
        }
        let v = match self.run(interner, &nodes[i]) {
            Err(e) => {
                return Err(e);
            },
            Ok(v) => v,
        };
        let mut rest = match self.run_list(interner, nodes, i + 1) {
            Err(e) => {
                return Err(e);
            },
            Ok(v) => v,
        };
        let ghost restv = rest@;
        let mut out: Vec<Value> = Vec::new();
        out.push(v);
        out.append(&mut rest);
        proof {
            assert(out@ =~= seq![v] + restv);
        }
        Ok(out)
    }

    /// Evaluates call arguments from index `i` on, per
    /// [`spec_eval_call_args`]: a spread element ends argument evaluation.
    fn run_call_args(&mut self, interner: &mut Interner, nodes: &Vec<Node>, i: usize) -> (r:
        Result<Vec<Value>, Value>)
        requires
            i <= nodes@.len(),
        ensures
            ({
                let (st2, res) = spec_eval_call_args(
                    old(self).st(old(interner)@),
                    nodes_view(nodes@).skip(i as int),
                );
                &&& final(self).st(final(interner)@) == st2
                &&& match (r, res) {
                    (Ok(v), Ok(sv)) => v@ == sv,
                    (Err(e), Err(ev)) => e == ev,
                    _ => false,
                }
            }),
            old(self).wf() ==> final(self).wf(),
            old(self).wf() ==> ({
                match r {
                    Ok(v) => forall|k: int|
                        0 <= k < v@.len() ==> val_ok(
                            #[trigger] v@[k],
                            final(self).objs().len() as int,
                        ),
                    Err(e) => val_ok(e, final(self).objs().len() as int),
                }
            }),
            old(self).objs().len() <= final(self).objs().len(),
            final(self).global_id() == old(self).global_id(),
        decreases nodes@, nodes@.len() - i, 0int,
    {
        proof {
            lemma_nodes_view(nodes@);
        }
        if i >= nodes.len() {
            proof {
                assert(nodes_view(nodes@).skip(i as int) =~= Seq::<NodeV>::empty());
            }
            return Ok(Vec::new());
        }
        let ghost views = nodes_view(nodes@);
        proof {
            assert(views.skip(i as int)[0] == views[i as int]);
            assert(views.skip(i as int).drop_first() =~= views.skip(i as int + 1));
        }
        match &nodes[i] {
            Node::Spread(x) => {
                let v = match self.run(interner, x) {
                    Err(e) => {
                        return Err(e);
                    },
                    Ok(v) => v,
                };
                match self.extract_indexed(interner, v) {
                    Err(e) => Err(e),
                    Ok(vals) => Ok(vals),
                }
            },
            _ => {
                let v = match self.run(interner, &nodes[i]) {
                    Err(e) => {
                        return Err(e);
                    },
                    Ok(v) => v,
                };
                let mut rest = match self.run_call_args(interner, nodes, i + 1) {
                    Err(e) => {
                        return Err(e);
                    },
                    Ok(v) => v,
                };
                let ghost restv = rest@;
                let mut out: Vec<Value> = Vec::new();
                out.push(v);
                out.append(&mut rest);
                proof {
                    assert(out@ =~= seq![v] + restv);
                }
                Ok(out)
            },
        }
    }
}

} // verus!
