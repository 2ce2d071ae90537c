//! Runtime values of the language: integers, booleans, strings, arrays,
//! closures, and the internal return-carrier marker.

pub mod environment;

use vstd::prelude::*;
use vstd::string::StringExecFns;
use crate::ast::{BlockStatement, BlockStatementV, Identifier, IdentifierV, block_v, ident_v};
use crate::ast::{join_comma, ident_strs};
use crate::int_to_string;
use crate::spec_int_dec;

verus! {

#[derive(Debug, PartialEq)]
pub enum Object {
    Return(Return),
    Int(Int),
    Bool(Bool),
    String(StringObject),
    Function(Function),
    Array(Array),
}

#[derive(Debug, Clone, Copy, PartialEq, Eq, Structural)]
pub enum ObjectType {
    Return,
    Int,
    Bool,
    String,
    Function,
    Array,
}

#[derive(Debug, PartialEq)]
pub struct Return {
    pub value: Option<Box<Object>>,
}

#[derive(Debug, Clone, PartialEq, Copy)]
pub struct Int {
    pub value: i64,
}

#[derive(Debug, Clone, PartialEq, Copy)]
pub struct Bool {
    pub value: bool,
}

#[derive(Debug, Clone, PartialEq)]
pub struct StringObject {
    pub value: String,
}

/// A closure: the optional self-name, the parameter names, the body block,
/// and a handle to the frame of the environment arena captured at the point
/// of the closure's creation.
#[derive(Debug, PartialEq)]
pub struct Function {
    pub identifier: Option<String>,
    pub args: Vec<Identifier>,
    pub block: BlockStatement,
    pub env: usize,
}

#[derive(Debug, PartialEq)]
pub struct Array {
    pub elements: Vec<Object>,
}

/// Mathematical model of a runtime value.
pub enum ObjV {
    Return { value: Option<Box<ObjV>> },
    Int { value: i64 },
    Bool { value: bool },
    String { value: Seq<char> },
    Function {
        identifier: Option<Seq<char>>,
        args: Seq<IdentifierV>,
        block: BlockStatementV,
        env: int,
    },
    Array { elements: Seq<ObjV> },
}

pub open spec fn return_v(r: Return) -> ObjV
    decreases r,
{
    ObjV::Return {
        value: match r.value {
            Some(b) => Some(Box::new(obj_v(*b))),
            None => None,
        },
    }
}

pub open spec fn function_v(f: Function) -> ObjV
    decreases f,
{
    ObjV::Function {
        identifier: match f.identifier {
            Some(s) => Some(s@),
            None => None,
        },
        args: f.args@.map_values(|i: Identifier| ident_v(i)),
        block: block_v(f.block),
        env: f.env as int,
    }
}

pub open spec fn array_v(a: Array) -> ObjV
    decreases a,
{
    ObjV::Array { elements: obj_seq_v(a.elements@) }
}

pub open spec fn obj_seq_v(v: Seq<Object>) -> Seq<ObjV>
    decreases v,
{
    if v.len() == 0 {
        Seq::empty()
    } else {
        seq![obj_v(v[0])] + obj_seq_v(v.skip(1))
    }
}

pub open spec fn obj_v(o: Object) -> ObjV
    decreases o,
{
    match o {
        Object::Return(r) => return_v(r),
        Object::Int(i) => ObjV::Int { value: i.value },
        Object::Bool(b) => ObjV::Bool { value: b.value },
        Object::String(s) => ObjV::String { value: s.value@ },
        Object::Function(f) => function_v(f),
        Object::Array(a) => array_v(a),
    }
}

impl View for Object {
    type V = ObjV;

    open spec fn view(&self) -> ObjV {
        obj_v(*self)
    }
}

/// The object-sequence model maps the element model pointwise.
pub proof fn lemma_obj_seq_v(v: Seq<Object>)
    ensures
        obj_seq_v(v).len() == v.len(),
        forall|i: int| 0 <= i < v.len() ==> obj_seq_v(v)[i] == obj_v(v[i]),
    decreases v.len(),
{
    if v.len() > 0 {
        lemma_obj_seq_v(v.skip(1));
        assert forall|i: int| 0 <= i < v.len() implies obj_seq_v(v)[i] == obj_v(v[i]) by {
            if i > 0 {
                assert(v.skip(1)[i - 1] == v[i]);
            }
        }
    }
}

/// Type tag of a value model.
pub open spec fn obj_type(v: ObjV) -> ObjectType {
    match v {
        ObjV::Return { .. } => ObjectType::Return,
        ObjV::Int { .. } => ObjectType::Int,
        ObjV::Bool { .. } => ObjectType::Bool,
        ObjV::String { .. } => ObjectType::String,
        ObjV::Function { .. } => ObjectType::Function,
        ObjV::Array { .. } => ObjectType::Array,
    }
}

/// Printed form of a value model.
pub open spec fn obj_str(v: ObjV) -> Seq<char>
    decreases v,
{
    match v {
        ObjV::Return { value } => match value {
            Some(b) => "Return("@ + obj_str(*b) + ")"@,
            None => "Return(None)"@,
        },
        ObjV::Int { value } => "Int:"@ + spec_int_dec(value as int),
        ObjV::Bool { value } => "Bool:"@ + (if value {
            "true"@
        } else {
            "false"@
        }),
        ObjV::String { value } => "String:"@ + value,
        ObjV::Function { identifier, args, .. } => (match identifier {
            Some(n) => "fn "@ + n,
            None => Seq::<char>::empty(),
        }) + "("@ + join_comma(ident_strs(args)) + ") {\n"@ + "}"@,
        ObjV::Array { elements } => "["@ + join_comma(obj_strs(elements)) + "]"@,
    }
}

pub open spec fn obj_strs(v: Seq<ObjV>) -> Seq<Seq<char>>
    decreases v,
{
    if v.len() == 0 {
        Seq::empty()
    } else {
        seq![obj_str(v[0])] + obj_strs(v.skip(1))
    }
}

/// The printed parts of a value sequence, element by element.
pub proof fn lemma_obj_strs(v: Seq<ObjV>)
    ensures
        obj_strs(v).len() == v.len(),
        forall|i: int| 0 <= i < v.len() ==> obj_strs(v)[i] == obj_str(v[i]),
    decreases v.len(),
{
    if v.len() > 0 {
        lemma_obj_strs(v.skip(1));
        assert forall|i: int| 0 <= i < v.len() implies obj_strs(v)[i] == obj_str(v[i]) by {
            if i > 0 {
                assert(v.skip(1)[i - 1] == v[i]);
            }
        }
    }
}

pub trait ObjectTrait: Sized {
    /// Type tag of this value.
    spec fn spec_type(&self) -> ObjectType;

    /// Printed form of this value.
    spec fn spec_str(&self) -> Seq<char>;

    fn get_type(&self) -> (t: ObjectType)
        ensures
            t == self.spec_type(),
    ;

    fn to_str(&self) -> (r: String)
        ensures
            r@ == self.spec_str(),
    ;
}

fn exec_obj_string(o: &Object) -> (r: String)
    ensures
        r@ == obj_str(o@),
    decreases *o, 1int,
{
    match o {
        Object::Return(x) => exec_return_string(x),
        Object::Int(x) => exec_int_string(x),
        Object::Bool(x) => exec_bool_string(x),
        Object::String(x) => exec_string_obj_string(x),
        Object::Function(x) => exec_function_string(x),
        Object::Array(x) => exec_array_string(x),
    }
}

fn exec_return_string(rt: &Return) -> (r: String)
    ensures
        r@ == obj_str(return_v(*rt)),
    decreases *rt, 0int,
{
    match &rt.value {
        Some(b) => {
            let mut buf = String::new();
            buf.append("Return(");
            let inner = exec_obj_string(b);
            buf.append(inner.as_str());
            buf.append(")");
            proof {
                assert(buf@ =~= "Return("@ + obj_str(obj_v(**b)) + ")"@);
            }
            buf
        },
        None => "Return(None)".to_owned(),
    }
}

fn exec_int_string(i: &Int) -> (r: String)
    ensures
        r@ == "Int:"@ + spec_int_dec(i.value as int),
{
    let mut buf = String::new();
    buf.append("Int:");
    let v = int_to_string(i.value);
    buf.append(v.as_str());
    buf
}

fn exec_bool_string(b: &Bool) -> (r: String)
    ensures
        r@ == "Bool:"@ + (if b.value {
            "true"@
        } else {
            "false"@
        }),
{
    let mut buf = String::new();
    buf.append("Bool:");
    if b.value {
        buf.append("true");
    } else {
        buf.append("false");
    }
    buf
}

fn exec_string_obj_string(s: &StringObject) -> (r: String)
    ensures
        r@ == "String:"@ + s.value@,
{
    let mut buf = String::new();
    buf.append("String:");
    buf.append(s.value.as_str());
    buf
}

fn exec_function_string(f: &Function) -> (r: String)
    ensures
        r@ == obj_str(function_v(*f)),
{
    let mut buf = String::new();
    match &f.identifier {
        Some(n) => {
            buf.append("fn ");
            buf.append(n.as_str());
        },
        None => {},
    }
    buf.append("(");
    let ghost parts = ident_strs(f.args@.map_values(|i: Identifier| ident_v(i)));
    let ghost head = (match &f.identifier {
        Some(n) => "fn "@ + n@,
        None => Seq::<char>::empty(),
    }) + "("@;
    proof {
        assert(buf@ =~= head);
    }
    let mut i: usize = 0;
    while i < f.args.len()
        invariant
            0 <= i <= f.args@.len(),
            parts == ident_strs(f.args@.map_values(|ii: Identifier| ident_v(ii))),
            parts.len() == f.args@.len(),
            forall|k: int| 0 <= k < parts.len() ==> parts[k] == f.args@[k].value@,
            buf@ =~= head + join_comma(parts.take(i as int)),
        decreases f.args@.len() - i,
    {
        if i > 0 {
            buf.append(", ");
        }
        buf.append(f.args[i].value.as_str());
        proof {
            assert(parts.take(i + 1 as int) =~= parts.take(i as int).push(parts[i as int]));
            crate::ast::lemma_join_comma_push(parts.take(i as int), parts[i as int]);
        }
        i = i + 1;
    }
    buf.append(") {\n");
    buf.append("}");
    proof {
        assert(parts.take(parts.len() as int) =~= parts);
        assert(buf@ =~= head + join_comma(parts) + ") {\n"@ + "}"@);
    }
    buf
}

fn exec_array_string(a: &Array) -> (r: String)
    ensures
        r@ == obj_str(array_v(*a)),
    decreases *a, 0int,
{
    let mut buf = String::new();
    buf.append("[");
    let ghost parts = obj_strs(obj_seq_v(a.elements@));
    proof {
        lemma_obj_seq_v(a.elements@);
        lemma_obj_strs(obj_seq_v(a.elements@));
    }
    let mut i: usize = 0;
    while i < a.elements.len()
        invariant
            0 <= i <= a.elements@.len(),
            parts == obj_strs(obj_seq_v(a.elements@)),
            parts.len() == a.elements@.len(),
            forall|k: int| 0 <= k < parts.len() ==> parts[k] == obj_str(obj_v(a.elements@[k])),
            buf@ =~= "["@ + join_comma(parts.take(i as int)),
        decreases a.elements@.len() - i,
    {
        if i > 0 {
            buf.append(", ");
        }
        let s = exec_obj_string(&a.elements[i]);
        buf.append(s.as_str());
        proof {
            assert(parts.take(i + 1 as int) =~= parts.take(i as int).push(parts[i as int]));
            crate::ast::lemma_join_comma_push(parts.take(i as int), parts[i as int]);
        }
        i = i + 1;
    }
    buf.append("]");
    proof {
        assert(parts.take(parts.len() as int) =~= parts);
        assert(buf@ =~= "["@ + join_comma(parts) + "]"@);
    }
    buf
}

impl ObjectTrait for Object {
    open spec fn spec_type(&self) -> ObjectType {
        obj_type((*self)@)
    }

    open spec fn spec_str(&self) -> Seq<char> {
        obj_str((*self)@)
    }

    fn get_type(&self) -> (t: ObjectType) {
        match self {
            Object::Return(x) => x.get_type(),
            Object::Int(x) => x.get_type(),
            Object::Bool(x) => x.get_type(),
            Object::Function(x) => x.get_type(),
            Object::String(x) => x.get_type(),
            Object::Array(x) => x.get_type(),
        }
    }

    fn to_str(&self) -> (r: String) {
        exec_obj_string(self)
    }
}

impl ObjectTrait for Return {
    open spec fn spec_type(&self) -> ObjectType {
        ObjectType::Return
    }

    open spec fn spec_str(&self) -> Seq<char> {
        obj_str(return_v(*self))
    }

    fn get_type(&self) -> (t: ObjectType) {
        ObjectType::Return
    }

    fn to_str(&self) -> (r: String) {
        exec_return_string(self)
    }
}

impl ObjectTrait for Int {
    open spec fn spec_type(&self) -> ObjectType {
        ObjectType::Int
    }

    open spec fn spec_str(&self) -> Seq<char> {
        "Int:"@ + spec_int_dec(self.value as int)
    }

    fn get_type(&self) -> (t: ObjectType) {
        ObjectType::Int
    }

    fn to_str(&self) -> (r: String) {
        exec_int_string(self)
    }
}

impl ObjectTrait for Bool {
    open spec fn spec_type(&self) -> ObjectType {
        ObjectType::Bool
    }

    open spec fn spec_str(&self) -> Seq<char> {
        "Bool:"@ + (if self.value {
            "true"@
        } else {
            "false"@
        })
    }

    fn get_type(&self) -> (t: ObjectType) {
        ObjectType::Bool
    }

    fn to_str(&self) -> (r: String) {
        exec_bool_string(self)
    }
}

impl ObjectTrait for StringObject {
    open spec fn spec_type(&self) -> ObjectType {
        ObjectType::String
    }

    open spec fn spec_str(&self) -> Seq<char> {
        "String:"@ + self.value@
    }

    fn get_type(&self) -> (t: ObjectType) {
        ObjectType::String
    }

    fn to_str(&self) -> (r: String) {
        exec_string_obj_string(self)
    }
}

impl ObjectTrait for Function {
    open spec fn spec_type(&self) -> ObjectType {
        ObjectType::Function
    }

    open spec fn spec_str(&self) -> Seq<char> {
        obj_str(function_v(*self))
    }

    fn get_type(&self) -> (t: ObjectType) {
        ObjectType::Function
    }

    fn to_str(&self) -> (r: String) {
        exec_function_string(self)
    }
}

impl ObjectTrait for Array {
    open spec fn spec_type(&self) -> ObjectType {
        ObjectType::Array
    }

    open spec fn spec_str(&self) -> Seq<char> {
        obj_str(array_v(*self))
    }

    fn get_type(&self) -> (t: ObjectType) {
        ObjectType::Array
    }

    fn to_str(&self) -> (r: String) {
        exec_array_string(self)
    }
}

/// Whether two values carry the same type tag.
pub fn is_same_type(left: &Object, right: &Object) -> (r: bool)
    ensures
        r == (obj_type(left@) == obj_type(right@)),
{
    left.get_type() == right.get_type()
}

impl Object {
    /// Structure-preserving deep copy of the value.
    pub fn duplicate(&self) -> (r: Object)
        ensures
            r@ == (*self)@,
        decreases *self, 1int,
    {
        match self {
            Object::Return(rt) => Object::Return(rt.duplicate()),
            Object::Int(i) => Object::Int(Int { value: i.value }),
            Object::Bool(b) => Object::Bool(Bool { value: b.value }),
            Object::String(s) => Object::String(StringObject { value: s.value.clone() }),
            Object::Function(f) => Object::Function(f.duplicate()),
            Object::Array(a) => Object::Array(a.duplicate()),
        }
    }
}

impl Return {
    /// Structure-preserving deep copy.
    pub fn duplicate(&self) -> (r: Return)
        ensures
            return_v(r) == return_v(*self),
        decreases *self, 0int,
    {
        match &self.value {
            Some(b) => Return { value: Some(Box::new(b.duplicate())) },
            None => Return { value: None },
        }
    }
}

impl Function {
    /// Structure-preserving deep copy.
    pub fn duplicate(&self) -> (r: Function)
        ensures
            function_v(r) == function_v(*self),
    {
        let identifier = match &self.identifier {
            Some(s) => Some(s.clone()),
            None => None,
        };
        let mut args: Vec<Identifier> = Vec::new();
        let mut i: usize = 0;
        while i < self.args.len()
            invariant
                0 <= i <= self.args@.len(),
                args@.len() == i,
                forall|k: int| 0 <= k < i ==> args@[k]@ == self.args@[k]@,
            decreases self.args@.len() - i,
        {
            args.push(self.args[i].duplicate());
            i = i + 1;
        }
        let r = Function {
            identifier,
            args,
            block: self.block.duplicate(),
            env: self.env,
        };
        proof {
            assert(r.args@.map_values(|ii: Identifier| ident_v(ii)) =~= self.args@.map_values(
                |ii: Identifier| ident_v(ii),
            ));
        }
        r
    }
}

impl Array {
    /// Structure-preserving deep copy.
    pub fn duplicate(&self) -> (r: Array)
        ensures
            array_v(r) == array_v(*self),
        decreases *self, 0int,
    {
        let mut elements: Vec<Object> = Vec::new();
        let mut i: usize = 0;
        while i < self.elements.len()
            invariant
                0 <= i <= self.elements@.len(),
                elements@.len() == i,
                forall|k: int| 0 <= k < i ==> elements@[k]@ == self.elements@[k]@,
            decreases self.elements@.len() - i,
        {
            proof {
                assert(decreases_to!(*self => self.elements));
                assert(decreases_to!(self.elements => self.elements@));
                assert(decreases_to!(self.elements@ => self.elements@[i as int]));
            }
            let d = self.elements[i].duplicate();
            elements.push(d);
            i = i + 1;
        }
        let r = Array { elements };
        proof {
            lemma_obj_seq_v(r.elements@);
            lemma_obj_seq_v(self.elements@);
            assert(obj_seq_v(r.elements@) =~= obj_seq_v(self.elements@));
        }
        r
    }
}

} // verus!
