use boa::ast::{Const, Node};
use boa::interner::Interner;
use boa::interpreter::{Interpreter, InterpreterState};
use boa::value::{Function, Value};

fn intern(interner: &mut Interner, text: &str) -> usize {
    interner.get_or_intern(&text.as_bytes().to_vec())
}

/// Binds `name` on the global object.
fn bind_global(ip: &mut Interpreter, interner: &mut Interner, name: &str, val: Value) -> usize {
    let sym = intern(interner, name);
    let g = ip.global_object();
    ip.set_field(g, sym, val);
    sym
}

#[test]
fn member_call_receiver_is_object() {
    let mut ip = Interpreter::new();
    let mut int = Interner::new();
    let a_id = ip.alloc_object(Value::Undefined);
    let f_id = ip.alloc_function(Function::GetThis, Value::Undefined);
    let b = intern(&mut int, "b");
    ip.set_field(a_id, b, Value::Object(f_id));
    let a = bind_global(&mut ip, &mut int, "a", Value::Object(a_id));
    let node = Node::Call(
        Box::new(Node::GetConstField(Box::new(Node::Local(a)), b)),
        vec![],
    );
    let r = ip.run(&mut int, &node);
    assert_eq!(r, Ok(Value::Object(a_id)));
}

#[test]
fn member_call_on_primitive_coerces_then_fails_lookup() {
    let mut ip = Interpreter::new();
    let mut int = Interner::new();
    let a = bind_global(&mut ip, &mut int, "a", Value::Number(5));
    let b = intern(&mut int, "b");
    let node = Node::Call(
        Box::new(Node::GetConstField(Box::new(Node::Local(a)), b)),
        vec![],
    );
    let r = ip.run(&mut int, &node);
    // The number is coerced to a fresh wrapper object; the wrapper has no
    // `b` property, so the callable is undefined and the call fails.
    let e = r.unwrap_err();
    let msg_key = intern(&mut int, "message");
    let msg = intern(&mut int, "not a function");
    assert_eq!(ip.get_field_value(e, msg_key), Value::Str(msg));
    // The failure of a call still resets the pending-control-flow flag.
    assert_eq!(ip.current_state(), InterpreterState::Executing);
}

#[test]
fn member_call_on_undefined_fails_coercion() {
    let mut ip = Interpreter::new();
    let mut int = Interner::new();
    let a = bind_global(&mut ip, &mut int, "a", Value::Undefined);
    let b = intern(&mut int, "b");
    let node = Node::Call(
        Box::new(Node::GetConstField(Box::new(Node::Local(a)), b)),
        vec![],
    );
    let r = ip.run(&mut int, &node);
    let e = r.unwrap_err();
    let msg_key = intern(&mut int, "message");
    let msg = intern(&mut int, "cannot convert to object");
    assert_eq!(ip.get_field_value(e, msg_key), Value::Str(msg));
}

#[test]
fn computed_call_receiver_uncoerced_key_evaluated_once() {
    let mut ip = Interpreter::new();
    let mut int = Interner::new();
    let a_id = ip.alloc_object(Value::Undefined);
    let f_id = ip.alloc_function(Function::GetThis, Value::Undefined);
    let m = intern(&mut int, "m");
    ip.set_field(a_id, m, Value::Object(f_id));
    let a = bind_global(&mut ip, &mut int, "a", Value::Object(a_id));
    let node = Node::Call(
        Box::new(Node::GetField(
            Box::new(Node::Local(a)),
            Box::new(Node::Const(Const::Str(m))),
        )),
        vec![],
    );
    let r = ip.run(&mut int, &node);
    // The receiver is `a` itself, uncoerced.
    assert_eq!(r, Ok(Value::Object(a_id)));
}

#[test]
fn computed_call_key_side_effect_happens_once() {
    let mut ip = Interpreter::new();
    let mut int = Interner::new();
    let a_id = ip.alloc_object(Value::Undefined);
    let a = bind_global(&mut ip, &mut int, "a", Value::Object(a_id));
    // The key is an array literal: each evaluation allocates exactly one
    // object. The lookup then fails (no such property), which allocates one
    // error object; the count must grow by exactly two.
    let node = Node::Call(
        Box::new(Node::GetField(
            Box::new(Node::Local(a)),
            Box::new(Node::ArrayDecl(vec![])),
        )),
        vec![],
    );
    let before = ip.object_count();
    let r = ip.run(&mut int, &node);
    assert!(r.is_err());
    assert_eq!(ip.object_count(), before + 2);
}

#[test]
fn bare_call_receiver_is_global_object() {
    let mut ip = Interpreter::new();
    let mut int = Interner::new();
    let f_id = ip.alloc_function(Function::GetThis, Value::Undefined);
    let f = bind_global(&mut ip, &mut int, "f", Value::Object(f_id));
    let node = Node::Call(Box::new(Node::Local(f)), vec![]);
    let r = ip.run(&mut int, &node);
    assert_eq!(r, Ok(Value::Object(ip.global_object())));
}

#[test]
fn call_arguments_in_source_order() {
    let mut ip = Interpreter::new();
    let mut int = Interner::new();
    let f_id = ip.alloc_function(Function::GetArg(1), Value::Undefined);
    let f = bind_global(&mut ip, &mut int, "f", Value::Object(f_id));
    let node = Node::Call(
        Box::new(Node::Local(f)),
        vec![Node::Const(Const::Num(10)), Node::Const(Const::Num(20))],
    );
    let r = ip.run(&mut int, &node);
    assert_eq!(r, Ok(Value::Number(20)));
}

#[test]
fn spread_appends_all_and_truncates_rest() {
    let mut ip = Interpreter::new();
    let mut int = Interner::new();
    let arr_id = ip.alloc_array(vec![Value::Number(1), Value::Number(2)]);
    let f_id = ip.alloc_function(Function::ArgCount, Value::Undefined);
    let f = bind_global(&mut ip, &mut int, "f", Value::Object(f_id));
    let arr = bind_global(&mut ip, &mut int, "arr", Value::Object(arr_id));
    // f(...arr, []) — both elements of arr are appended; the argument after
    // the spread is never evaluated, so no array object is allocated for it.
    let node = Node::Call(
        Box::new(Node::Local(f)),
        vec![
            Node::Spread(Box::new(Node::Local(arr))),
            Node::ArrayDecl(vec![]),
        ],
    );
    let before = ip.object_count();
    let r = ip.run(&mut int, &node);
    assert_eq!(r, Ok(Value::Number(2)));
    assert_eq!(ip.object_count(), before);
}

#[test]
fn spread_of_non_array_fails() {
    let mut ip = Interpreter::new();
    let mut int = Interner::new();
    let f_id = ip.alloc_function(Function::ArgCount, Value::Undefined);
    let f = bind_global(&mut ip, &mut int, "f", Value::Object(f_id));
    let node = Node::Call(
        Box::new(Node::Local(f)),
        vec![Node::Spread(Box::new(Node::Const(Const::Num(3))))],
    );
    let r = ip.run(&mut int, &node);
    let e = r.unwrap_err();
    let msg_key = intern(&mut int, "message");
    let msg = intern(&mut int, "not indexable");
    assert_eq!(ip.get_field_value(e, msg_key), Value::Str(msg));
}

#[test]
fn call_resets_early_return_flag() {
    let mut ip = Interpreter::new();
    let mut int = Interner::new();
    let f_id = ip.alloc_function(Function::EarlyReturn, Value::Undefined);
    let f = bind_global(&mut ip, &mut int, "f", Value::Object(f_id));
    let node = Node::Call(Box::new(Node::Local(f)), vec![]);
    let r = ip.run(&mut int, &node);
    assert_eq!(r, Ok(Value::Undefined));
    // The callee signalled an early return; the call boundary resets it.
    assert_eq!(ip.current_state(), InterpreterState::Executing);
}

#[test]
fn new_on_non_function_object_is_type_error() {
    let mut ip = Interpreter::new();
    let mut int = Interner::new();
    let plain = ip.alloc_object(Value::Undefined);
    let f = bind_global(&mut ip, &mut int, "F", Value::Object(plain));
    let node = Node::New(Box::new(Node::Local(f)), vec![]);
    let r = ip.run(&mut int, &node);
    let e = r.unwrap_err();
    let msg_key = intern(&mut int, "message");
    let msg = intern(&mut int, "not a constructor");
    assert_eq!(ip.get_field_value(e, msg_key), Value::Str(msg));
    let name_key = intern(&mut int, "name");
    let name = intern(&mut int, "TypeError");
    assert_eq!(ip.get_field_value(e, name_key), Value::Str(name));
}

#[test]
fn new_on_non_object_yields_undefined() {
    let mut ip = Interpreter::new();
    let mut int = Interner::new();
    let f = bind_global(&mut ip, &mut int, "F", Value::Number(3));
    let node = Node::New(Box::new(Node::Local(f)), vec![]);
    let r = ip.run(&mut int, &node);
    assert_eq!(r, Ok(Value::Undefined));
}

#[test]
fn new_links_prototype_and_keeps_receiver() {
    let mut ip = Interpreter::new();
    let mut int = Interner::new();
    let proto_id = ip.alloc_object(Value::Undefined);
    let shared = intern(&mut int, "shared");
    ip.set_field(proto_id, shared, Value::Number(7));
    let ctor_id = ip.alloc_function(Function::GetThis, Value::Undefined);
    let proto_key = intern(&mut int, "prototype");
    ip.set_field(ctor_id, proto_key, Value::Object(proto_id));
    let f = bind_global(&mut ip, &mut int, "F", Value::Object(ctor_id));
    let node = Node::New(Box::new(Node::Local(f)), vec![]);
    let r = ip.run(&mut int, &node).unwrap();
    // The construct protocol returned the freshly allocated object, whose
    // prototype chain reaches the constructor's `prototype` object.
    assert!(matches!(r, Value::Object(_)));
    assert_eq!(ip.get_field_value(r, shared), Value::Number(7));
}

#[test]
fn construct_protocol_may_replace_receiver() {
    let mut ip = Interpreter::new();
    let mut int = Interner::new();
    let other_id = ip.alloc_object(Value::Undefined);
    let ctor_id = ip.alloc_function(Function::GetArg(0), Value::Undefined);
    let f = bind_global(&mut ip, &mut int, "F", Value::Object(ctor_id));
    let other = bind_global(&mut ip, &mut int, "other", Value::Object(other_id));
    let node = Node::New(Box::new(Node::Local(f)), vec![Node::Local(other)]);
    let r = ip.run(&mut int, &node);
    assert_eq!(r, Ok(Value::Object(other_id)));
}

#[test]
fn new_does_not_reset_early_return_flag() {
    let mut ip = Interpreter::new();
    let mut int = Interner::new();
    let ctor_id = ip.alloc_function(Function::EarlyReturn, Value::Undefined);
    let f = bind_global(&mut ip, &mut int, "F", Value::Object(ctor_id));
    let node = Node::New(Box::new(Node::Local(f)), vec![]);
    let r = ip.run(&mut int, &node);
    assert!(matches!(r, Ok(Value::Object(_))));
    // Unlike a call, construction propagates the flag as the protocol left
    // it: this asymmetry is inherited deliberately.
    assert_eq!(ip.current_state(), InterpreterState::Return);
}

#[test]
fn numeric_key_uses_decimal_string_form() {
    let mut ip = Interpreter::new();
    let mut int = Interner::new();
    let a_id = ip.alloc_object(Value::Undefined);
    let f_id = ip.alloc_function(Function::GetThis, Value::Undefined);
    let ten = intern(&mut int, "10");
    ip.set_field(a_id, ten, Value::Object(f_id));
    let a = bind_global(&mut ip, &mut int, "a", Value::Object(a_id));
    let node = Node::Call(
        Box::new(Node::GetField(
            Box::new(Node::Local(a)),
            Box::new(Node::Const(Const::Num(10))),
        )),
        vec![],
    );
    let r = ip.run(&mut int, &node);
    assert_eq!(r, Ok(Value::Object(a_id)));
}

#[test]
fn negative_numeric_key_has_minus_sign() {
    let mut ip = Interpreter::new();
    let mut int = Interner::new();
    let a_id = ip.alloc_object(Value::Undefined);
    let key = intern(&mut int, "-3");
    ip.set_field(a_id, key, Value::Number(42));
    let a = bind_global(&mut ip, &mut int, "a", Value::Object(a_id));
    let node = Node::GetField(
        Box::new(Node::Local(a)),
        Box::new(Node::Const(Const::Num(-3))),
    );
    let r = ip.run(&mut int, &node);
    assert_eq!(r, Ok(Value::Number(42)));
}

#[test]
fn array_literal_evaluates_to_array_object() {
    let mut ip = Interpreter::new();
    let mut int = Interner::new();
    let f_id = ip.alloc_function(Function::ArgCount, Value::Undefined);
    let f = bind_global(&mut ip, &mut int, "f", Value::Object(f_id));
    // f(...[1, 2, 3]) — the literal array's elements all become arguments.
    let node = Node::Call(
        Box::new(Node::Local(f)),
        vec![Node::Spread(Box::new(Node::ArrayDecl(vec![
            Node::Const(Const::Num(1)),
            Node::Const(Const::Num(2)),
            Node::Const(Const::Num(3)),
        ])))],
    );
    let r = ip.run(&mut int, &node);
    assert_eq!(r, Ok(Value::Number(3)));
}

#[test]
fn break_sets_pending_flag() {
    let mut ip = Interpreter::new();
    let mut int = Interner::new();
    let label = intern(&mut int, "out");
    let node = Node::Break(Some(label));
    let r = ip.run(&mut int, &node);
    assert_eq!(r, Ok(Value::Undefined));
    assert_eq!(ip.current_state(), InterpreterState::Break(Some(label)));
}

#[test]
fn failure_stops_sibling_evaluation() {
    let mut ip = Interpreter::new();
    let mut int = Interner::new();
    let f_id = ip.alloc_function(Function::ArgCount, Value::Undefined);
    let f = bind_global(&mut ip, &mut int, "f", Value::Object(f_id));
    // The first argument fails (spread of a number); the second, whose
    // evaluation would allocate, is never evaluated.
    let node = Node::Call(
        Box::new(Node::Local(f)),
        vec![
            Node::Spread(Box::new(Node::Const(Const::Num(0)))),
            Node::ArrayDecl(vec![]),
        ],
    );
    let before = ip.object_count();
    let r = ip.run(&mut int, &node);
    assert!(r.is_err());
    // Only the error object was allocated.
    assert_eq!(ip.object_count(), before + 1);
}
