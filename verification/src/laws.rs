//! Laws of the call, construct and parse semantics, stated over the spec
//! functions that the executable functions' contracts use, and proved once
//! and for all inputs.

use vstd::prelude::*;
use vstd::string::StringSliceAdditionalSpecFns;
use crate::ast::{NodeV, Sym};
use crate::interner::{spec_intern_sym, spec_intern_table};
use crate::interpreter::{
    spec_call_receiver, spec_call_value, spec_eval, spec_eval_call_args, spec_eval_list,
    spec_key_sym, spec_throw_type_error, spec_to_object, with_state, InterpreterState, StateV,
};
use crate::token::Token;
use crate::value::{spec_get_field_value, spec_get_prop, Value};

verus! {

/// Law: evaluating a call node resolves the receiver and the callable from
/// the callee's shape, evaluates the arguments, invokes the callable, and
/// always resets the pending-control-flow flag to normal execution before
/// returning, whether or not the invocation succeeded.
pub proof fn lemma_call_protocol(st: StateV, callee: NodeV, args: Seq<NodeV>)
    ensures
        spec_eval(st, NodeV::Call(Box::new(callee), args)) == ({
            let (st_r, rcv) = spec_call_receiver(st, callee);
            match rcv {
                Err(e) => (st_r, Err::<Value, Value>(e)),
                Ok((this, func)) => {
                    let (st_a, ra) = spec_eval_call_args(st_r, args);
                    match ra {
                        Err(e) => (st_a, Err(e)),
                        Ok(vals) => {
                            let (st_c, rc) = spec_call_value(st_a, func, this, vals);
                            (with_state(st_c, InterpreterState::Executing), rc)
                        },
                    }
                },
            }
        }),
        spec_eval(st, NodeV::Call(Box::new(callee), args)).0.state
            == InterpreterState::Executing || spec_call_receiver(st, callee).1 is Err
            || spec_eval_call_args(spec_call_receiver(st, callee).0, args).1 is Err,
{
}

/// Law: in `a.b(...)` the receiver is the evaluated value of `a`, coerced
/// to an object when it is neither an object nor a symbol (a coercion
/// failure is fatal and surfaced), and the callable is that receiver's `b`
/// property.
pub proof fn lemma_receiver_const_field(st: StateV, obj: NodeV, field: Sym)
    ensures
        ({
            let callee = NodeV::GetConstField(Box::new(obj), field);
            let (st1, r) = spec_eval(st, obj);
            match r {
                Err(e) => spec_call_receiver(st, callee) == (st1, Err::<(Value, Value), Value>(e)),
                Ok(ov) => {
                    if ov is Object || ov is Symbol {
                        spec_call_receiver(st, callee) == (
                            st1,
                            Ok::<(Value, Value), Value>(
                                (ov, spec_get_field_value(st1.objects, ov, field)),
                            ),
                        )
                    } else {
                        let (st2, r2) = spec_to_object(st1, ov);
                        match r2 {
                            Err(e) => spec_call_receiver(st, callee) == (
                                st2,
                                Err::<(Value, Value), Value>(e),
                            ),
                            Ok(ov2) => spec_call_receiver(st, callee) == (
                                st2,
                                Ok::<(Value, Value), Value>(
                                    (ov2, spec_get_field_value(st2.objects, ov2, field)),
                                ),
                            ),
                        }
                    }
                },
            }
        }),
{
}

/// Law: in `a[k](...)` the receiver is the evaluated value of `a`, used
/// as-is with no coercion, and `k` is evaluated exactly once — the state
/// passes through one evaluation of `k` and nothing else touches it; the
/// callable is the receiver's property under the key's string form.
pub proof fn lemma_receiver_computed(st: StateV, obj: NodeV, key: NodeV)
    ensures
        ({
            let callee = NodeV::GetField(Box::new(obj), Box::new(key));
            let (st1, r) = spec_eval(st, obj);
            match r {
                Err(e) => spec_call_receiver(st, callee) == (st1, Err::<(Value, Value), Value>(e)),
                Ok(ov) => {
                    let (st2, r2) = spec_eval(st1, key);
                    match r2 {
                        Err(e) => spec_call_receiver(st, callee) == (
                            st2,
                            Err::<(Value, Value), Value>(e),
                        ),
                        Ok(kv) => {
                            let (st3, ksym) = spec_key_sym(st2, kv);
                            spec_call_receiver(st, callee) == (
                                st3,
                                Ok::<(Value, Value), Value>(
                                    (ov, spec_get_field_value(st3.objects, ov, ksym)),
                                ),
                            )
                        },
                    }
                },
            }
        }),
{
}

/// Law: with a callee of any other shape — a bare `f(...)` — the receiver
/// is the realm's global object, and the callable is the callee's own
/// evaluated value.
pub proof fn lemma_receiver_bare(st: StateV, callee: NodeV)
    requires
        !(callee is GetConstField),
        !(callee is GetField),
    ensures
        ({
            let (st1, r) = spec_eval(st, callee);
            match r {
                Err(e) => spec_call_receiver(st, callee) == (st1, Err::<(Value, Value), Value>(e)),
                Ok(fv) => spec_call_receiver(st, callee) == (
                    st1,
                    Ok::<(Value, Value), Value>((Value::Object(st1.global), fv)),
                ),
            }
        }),
{
}

/// Law: when the argument at `i` is the first spread element among the call
/// arguments, argument evaluation equals that of the argument list cut off
/// right after the spread — every argument written after it is never
/// evaluated, and no failure it might raise can occur.
pub proof fn lemma_spread_truncates(st: StateV, args: Seq<NodeV>, i: int)
    requires
        0 <= i < args.len(),
        args[i] is Spread,
        forall|j: int| 0 <= j < i ==> !(#[trigger] args[j] is Spread),
    ensures
        spec_eval_call_args(st, args) == spec_eval_call_args(st, args.take(i + 1)),
    decreases i,
{
    let cut = args.take(i + 1);
    assert(cut[0] == args[0]);
    if i == 0 {
        assert(spec_eval_call_args(st, args) == spec_eval_call_args(st, cut));
    } else {
        let (st1, r) = spec_eval(st, args[0]);
        match r {
            Err(_) => {},
            Ok(_) => {
                assert(args.drop_first()[i - 1] == args[i]);
                assert(forall|j: int|
                    0 <= j < i - 1 ==> !(#[trigger] args.drop_first()[j] is Spread));
                lemma_spread_truncates(st1, args.drop_first(), i - 1);
                assert(args.drop_first().take(i) =~= cut.drop_first());
            },
        }
    }
}

/// Law: constructing with `new F(...)`, after the callee and every argument
/// evaluate normally and the fresh object is linked to `F`'s `prototype`
/// property, behaves by the callee's kind: an object without function-
/// tagged data fails with a type error built from the message
/// "not a constructor", and a callee that is no object at all yields the
/// undefined value rather than failing.
pub proof fn lemma_new_non_constructor(st: StateV, callee: NodeV, args: Seq<NodeV>)
    ensures
        ({
            let (st1, r) = spec_eval(st, callee);
            match r {
                Err(_) => true,
                Ok(func) => {
                    let (st2, r2) = spec_eval_list(st1, args);
                    match r2 {
                        Err(_) => true,
                        Ok(vals) => {
                            let (st3, proto_key) = crate::interpreter::spec_intern_st(
                                st2,
                                "prototype".spec_bytes(),
                            );
                            let protov = spec_get_field_value(st3.objects, func, proto_key);
                            let (st4, this_id) = crate::interpreter::spec_alloc(
                                st3,
                                crate::value::ObjectV {
                                    proto: protov,
                                    props: Seq::empty(),
                                    data: crate::value::ObjDataV::Ordinary,
                                },
                            );
                            &&& (!(func is Object) ==> spec_eval(
                                st,
                                NodeV::New(Box::new(callee), args),
                            ) == (st4, Ok::<Value, Value>(Value::Undefined)))
                            &&& (func is Object && (func->Object_0 as int) < st4.objects.len()
                                && !(st4.objects[func->Object_0 as int].data is Function) ==> ({
                                let (st5, e) = spec_throw_type_error(
                                    st4,
                                    "not a constructor".spec_bytes(),
                                );
                                spec_eval(st, NodeV::New(Box::new(callee), args)) == (
                                    st5,
                                    Err::<Value, Value>(e),
                                )
                            }))
                        },
                    }
                },
            }
        }),
{
}

/// Law: a type-error failure is an object carrying the interned text of its
/// message under the `message` property.
pub proof fn lemma_type_error_message(st: StateV, msg: Seq<u8>)
    requires
        st.strings.len() + 4 <= usize::MAX,
        st.objects.len() <= usize::MAX,
    ensures
        ({
            let (st2, e) = spec_throw_type_error(st, msg);
            let msg_key = spec_intern_sym(
                spec_intern_table(
                    spec_intern_table(st.strings, "name".spec_bytes()),
                    "TypeError".spec_bytes(),
                ),
                "message".spec_bytes(),
            ) as usize;
            &&& e is Object
            &&& spec_get_field_value(st2.objects, e, msg_key) is Str
            &&& st2.strings[spec_get_field_value(
                st2.objects,
                e,
                msg_key,
            )->Str_0 as int] == msg
        }),
{
    reveal_strlit("name");
    reveal_strlit("message");
    let tbl1 = spec_intern_table(st.strings, "name".spec_bytes());
    let k_name = spec_intern_sym(st.strings, "name".spec_bytes()) as usize;
    let tbl2 = spec_intern_table(tbl1, "TypeError".spec_bytes());
    let tbl3 = spec_intern_table(tbl2, "message".spec_bytes());
    let k_msg = spec_intern_sym(tbl2, "message".spec_bytes()) as usize;
    let tbl4 = spec_intern_table(tbl3, msg);
    lemma_intern_table_facts(st.strings, "name".spec_bytes());
    lemma_intern_table_facts(tbl1, "TypeError".spec_bytes());
    lemma_intern_table_facts(tbl2, "message".spec_bytes());
    lemma_intern_table_facts(tbl3, msg);
    assert("name".spec_bytes().len() == 4 && "message".spec_bytes().len() == 7) by {
        vstd::string::is_ascii_spec_bytes("name");
        vstd::string::is_ascii_spec_bytes("message");
    }
    assert(tbl1[k_name as int] == "name".spec_bytes());
    assert(tbl3[k_msg as int] == "message".spec_bytes());
    assert(tbl3[k_name as int] == "name".spec_bytes());
    assert(k_name != k_msg);
    let (st2, e) = spec_throw_type_error(st, msg);
    let props = st2.objects[e->Object_0 as int].props;
    assert(props.len() == 2);
    assert(props[0].0 != k_msg);
    assert(props.drop_first()[0].0 == k_msg);
    assert(spec_get_prop(props.drop_first(), k_msg) == Some(props.drop_first()[0].1));
    assert(spec_get_prop(props, k_msg) == Some(props[1].1));
    assert(st2.strings == tbl4);
}

/// Interning grows the table monotonically: earlier entries keep their
/// places, and the interned text sits at its handle.
pub proof fn lemma_intern_table_facts(tbl: Seq<Seq<u8>>, text: Seq<u8>)
    ensures
        ({
            let tbl2 = spec_intern_table(tbl, text);
            let sym = spec_intern_sym(tbl, text);
            &&& tbl.len() <= tbl2.len()
            &&& forall|i: int| 0 <= i < tbl.len() ==> tbl2[i] == tbl[i]
            &&& 0 <= sym < tbl2.len()
            &&& tbl2[sym] == text
        }),
{
    lemma_lookup_in_range(tbl, text);
}

/// `spec_lookup` finds an index inside the table, holding the text.
proof fn lemma_lookup_in_range(tbl: Seq<Seq<u8>>, text: Seq<u8>)
    ensures
        match crate::interner::spec_lookup(tbl, text) {
            Some(i) => 0 <= i < tbl.len() && tbl[i] == text,
            None => true,
        },
    decreases tbl.len(),
{
    if tbl.len() > 0 && tbl[0] != text {
        lemma_lookup_in_range(tbl.drop_first(), text);
    }
}

/// Law: the outcome of every parser unit is a function of the token
/// sequence, the starting position, and the interning table alone, as each
/// unit's contract states; parsing the same token sequence twice from
/// fresh interning tables therefore yields equal outcomes — structurally
/// identical trees.
pub proof fn lemma_parse_deterministic(
    toks1: Seq<Token>,
    pos1: int,
    toks2: Seq<Token>,
    pos2: int,
)
    requires
        toks1 == toks2,
        pos1 == pos2,
    ensures
        crate::expression::spec_parse_expression(toks1, pos1)
            == crate::expression::spec_parse_expression(toks2, pos2),
        crate::break_statement::spec_parse_break(toks1, pos1)
            == crate::break_statement::spec_parse_break(toks2, pos2),
{
}

} // verus!
