//! The runtime value model: dynamic values, objects held in an arena and
//! addressed by stable handles, prototype-chain property resolution, and the
//! callable/constructible capability tag.
//!
//! Object references are shared by many values and bindings; the arena owns
//! every object record, and a prototype slot is a non-owning back-reference
//! to an earlier record.

use vstd::prelude::*;
use crate::ast::Sym;

verus! {

/// A runtime value. Object references are handles into the interpreter's
/// object arena.
#[derive(Clone, Copy, PartialEq, Eq, Structural, Debug)]
pub enum Value {
    Undefined,
    Number(i64),
    Str(Sym),
    Symbol(usize),
    Object(usize),
}

/// The behaviour of a function object. The function bodies of the wider
/// engine are outside this core; these built-in behaviours exercise the
/// call and construct protocols.
#[derive(Clone, Copy, PartialEq, Eq, Structural, Debug)]
pub enum Function {
    /// Called: returns its receiver. Constructed: returns the new object.
    GetThis,
    /// Called: returns its argument at the given index, or undefined.
    /// Constructed: returns that argument if it is an object reference,
    /// otherwise the new object (the construct protocol may replace the
    /// allocated receiver).
    GetArg(usize),
    /// Called: returns the number of arguments. Constructed: returns the
    /// new object.
    ArgCount,
    /// Called: returns undefined. Constructed: returns the new object.
    Undef,
    /// Behaves like a body that ran an early return: leaves the interpreter
    /// in the early-return state. Called: returns undefined. Constructed:
    /// returns the new object.
    EarlyReturn,
}

/// The data tag of an object: ordinary, function (callable and
/// constructible), or array (indexed elements for spread extraction).
#[derive(PartialEq, Debug)]
pub enum ObjData {
    Ordinary,
    Function(Function),
    Array(Vec<Value>),
}

/// One object record in the arena: prototype back-reference, named
/// properties, and the data tag.
#[derive(PartialEq, Debug)]
pub struct ObjectRec {
    /// The prototype slot: set once at construction, a non-owning link used
    /// only for lookup. A non-object value ends the prototype chain.
    pub proto: Value,
    /// Named properties, keyed by interned handles; keys are unique.
    pub props: Vec<(Sym, Value)>,
    /// The data tag.
    pub data: ObjData,
}

/// The mathematical shape of an object's data tag.
#[verifier::ext_equal]
pub enum ObjDataV {
    Ordinary,
    Function(Function),
    Array(Seq<Value>),
}

/// The mathematical shape of an object record.
#[verifier::ext_equal]
pub struct ObjectV {
    pub proto: Value,
    pub props: Seq<(Sym, Value)>,
    pub data: ObjDataV,
}

impl View for ObjData {
    type V = ObjDataV;

    open spec fn view(&self) -> ObjDataV {
        match self {
            ObjData::Ordinary => ObjDataV::Ordinary,
            ObjData::Function(f) => ObjDataV::Function(*f),
            ObjData::Array(elems) => ObjDataV::Array(elems@),
        }
    }
}

impl View for ObjectRec {
    type V = ObjectV;

    open spec fn view(&self) -> ObjectV {
        ObjectV { proto: self.proto, props: self.props@, data: self.data@ }
    }
}

/// Whether an object handle held by `v` stays inside an arena of `n`
/// objects.
pub open spec fn val_ok(v: Value, n: int) -> bool {
    v is Object ==> (v->Object_0 as int) < n
}

/// First value stored under `key`, if any.
pub open spec fn spec_get_prop(props: Seq<(Sym, Value)>, key: Sym) -> Option<Value>
    decreases props.len(),
{
    if props.len() == 0 {
        None
    } else if props[0].0 == key {
        Some(props[0].1)
    } else {
        spec_get_prop(props.drop_first(), key)
    }
}

/// Property lookup on the object `id`, walking the prototype chain: the
/// stored value, or undefined if the key is absent along the whole chain.
/// A prototype link that does not point at an earlier record ends the walk.
pub open spec fn spec_get_field_obj(objects: Seq<ObjectV>, id: int, key: Sym) -> Value
    decreases id,
{
    if 0 <= id < objects.len() {
        match spec_get_prop(objects[id].props, key) {
            Some(v) => v,
            None => {
                let p = objects[id].proto;
                if p is Object && (p->Object_0 as int) < id {
                    spec_get_field_obj(objects, p->Object_0 as int, key)
                } else {
                    Value::Undefined
                }
            },
        }
    } else {
        Value::Undefined
    }
}

/// Property lookup on a value: undefined on anything but an object
/// reference. Never fails.
pub open spec fn spec_get_field_value(objects: Seq<ObjectV>, v: Value, key: Sym) -> Value {
    match v {
        Value::Object(id) => spec_get_field_obj(objects, id as int, key),
        _ => Value::Undefined,
    }
}

} // verus!
