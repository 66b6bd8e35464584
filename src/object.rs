use crate::bignum::Int;
use vstd::prelude::*;

verus! {

/// A reference to an object cell: its index in the VM's object arena.
/// Many bindings may hold the same reference; all of them see one value.
pub type ObjRef = usize;

/// A reference to a type descriptor: its index in the VM's type table.
pub type TypeRef = usize;

/// The universal base type.
pub const OBJECT_TYPE: TypeRef = 0;
/// The type of type objects.
pub const TYPE_TYPE: TypeRef = 1;
/// The type of the `None` singleton.
pub const NONE_TYPE: TypeRef = 2;
/// The boolean type.
pub const BOOL_TYPE: TypeRef = 3;
/// The integer type.
pub const INT_TYPE: TypeRef = 4;
/// The string type.
pub const STR_TYPE: TypeRef = 5;
/// The mutable sequence type.
pub const LIST_TYPE: TypeRef = 6;
/// The slice type.
pub const SLICE_TYPE: TypeRef = 7;

/// The `None` singleton.
pub const NONE_OBJ: ObjRef = 0;
/// The `True` singleton.
pub const TRUE_OBJ: ObjRef = 1;
/// The `False` singleton.
pub const FALSE_OBJ: ObjRef = 2;

/// The objects an error names, so that a message can show their types and values.
#[derive(PartialEq, Eq, Structural, Clone, Copy, Debug)]
pub enum Culprits {
    NoObject,
    One(ObjRef),
    Two(ObjRef, ObjRef),
}

/// Guest-visible errors, raised through the uniform error channel; each
/// names the objects it is about.
#[derive(PartialEq, Eq, Structural, Clone, Copy, Debug)]
pub enum PyError {
    /// An argument of the wrong type or an unsupported operation.
    TypeError(Culprits),
    /// An index outside the sequence; names the index.
    IndexError(Culprits),
    /// A name that the receiver's type chain does not bind; names the receiver.
    AttributeError(Culprits),
    /// An argument of the right type with a value the operation refuses.
    ValueError(Culprits),
    /// Nested dispatch went deeper than the recursion limit.
    RecursionError,
}

/// Result of every callable: an object or a guest error.
pub type PyResult = Result<ObjRef, PyError>;

/// Native routines that a type's attribute table can bind.
#[derive(PartialEq, Eq, Structural, Clone, Copy, Debug)]
pub enum Native {
    ObjectEq,
    IntEq,
    ListAdd,
    ListContains,
    ListEq,
    ListGetItem,
    ListSetItem,
    ListLen,
    ListNew,
    ListRepr,
    ListAppend,
    ListClear,
    ListExtend,
    ListReverse,
}

/// A value that an attribute binds: a native routine, or a callable that
/// returns one fixed object whatever it is called with.
#[derive(PartialEq, Eq, Structural, Clone, Copy, Debug)]
pub enum Callable {
    Native(Native),
    Constant(ObjRef),
}

/// The payload of an object cell: a closed set of shapes.
pub enum Payload {
    NoneValue,
    Bool(bool),
    Int(Int),
    Str(String),
    List(Vec<ObjRef>),
    Type(TypeRef),
    /// A slice specification: start, stop and step, each optional.
    Slice(Option<Int>, Option<Int>, Option<Int>),
}

/// One object cell: a payload and the type it was created with.
pub struct Object {
    pub payload: Payload,
    pub typ: TypeRef,
}

/// One attribute binding of a type.
pub struct Attribute {
    pub name: String,
    pub value: Callable,
}

/// A type descriptor: name, bases in declaration order, attribute table.
pub struct TypeDesc {
    pub name: String,
    pub bases: Vec<TypeRef>,
    pub attrs: Vec<Attribute>,
}

/// The object heap and the type table of one interpreter.
pub struct Vm {
    pub types: Vec<TypeDesc>,
    pub objects: Vec<Object>,
}

impl Payload {
    pub open spec fn list_elems(&self) -> Seq<ObjRef> {
        match self {
            Payload::List(v) => v@,
            _ => Seq::empty(),
        }
    }
}

impl Vm {
    /// Every type's bases come before it in the table (so the subclass graph
    /// has no cycle), and every reference held anywhere points into the VM.
    pub open spec fn wf(&self) -> bool {
        &&& self.types.len() > SLICE_TYPE
        &&& self.objects.len() > FALSE_OBJ
        &&& forall|t: int, j: int|
            0 <= t < self.types.len() && 0 <= j < self.types[t].bases.len()
                ==> #[trigger] self.types[t].bases[j] < t
        &&& forall|t: int, j: int|
            0 <= t < self.types.len() && 0 <= j < self.types[t].attrs.len()
                ==> self.callable_ok(#[trigger] self.types[t].attrs[j].value)
        &&& forall|o: int| 0 <= o < self.objects.len() ==> self.object_ok(#[trigger] self.objects[o])
        &&& self.objects[NONE_OBJ as int].payload is NoneValue
        &&& self.objects[TRUE_OBJ as int].payload == Payload::Bool(true)
        &&& self.objects[FALSE_OBJ as int].payload == Payload::Bool(false)
        &&& self.objects[TRUE_OBJ as int].typ == BOOL_TYPE
        &&& self.objects[FALSE_OBJ as int].typ == BOOL_TYPE
    }

    pub open spec fn callable_ok(&self, c: Callable) -> bool {
        match c {
            Callable::Constant(o) => o < self.objects.len(),
            Callable::Native(_) => true,
        }
    }

    /// References in the object point into the VM, and an object whose type
    /// is a subclass of the list type holds a list payload.
    pub open spec fn object_ok(&self, obj: Object) -> bool {
        &&& obj.typ < self.types.len()
        &&& type_subclass(self.types@, obj.typ, LIST_TYPE) ==> obj.payload is List
        &&& match obj.payload {
            Payload::List(v) => forall|i: int| 0 <= i < v.len() ==> #[trigger] v[i] < self.objects.len(),
            Payload::Type(t) => t < self.types.len(),
            _ => true,
        }
    }

    pub open spec fn valid(&self, o: ObjRef) -> bool {
        o < self.objects.len()
    }

    pub open spec fn type_of(&self, o: ObjRef) -> TypeRef {
        self.objects[o as int].typ
    }

    pub open spec fn elems(&self, o: ObjRef) -> Seq<ObjRef> {
        self.objects[o as int].payload.list_elems()
    }

    pub open spec fn is_list(&self, o: ObjRef) -> bool {
        self.objects[o as int].payload is List
    }

    /// Truthiness: `None`, `False`, zero and empty strings and sequences are false.
    pub open spec fn truthy(&self, o: ObjRef) -> bool {
        match self.objects[o as int].payload {
            Payload::NoneValue => false,
            Payload::Bool(b) => b,
            Payload::Int(v) => v.value() != 0,
            Payload::Str(s) => s@.len() > 0,
            Payload::List(v) => v.len() > 0,
            Payload::Type(_) => true,
            Payload::Slice(..) => true,
        }
    }

    /// `b` is `a` or is reachable from `a` by following bases.
    pub open spec fn subclass(&self, a: TypeRef, b: TypeRef) -> bool {
        type_subclass(self.types@, a, b)
    }

    pub open spec fn isinstance(&self, o: ObjRef, t: TypeRef) -> bool {
        self.subclass(self.type_of(o), t)
    }

    /// The binding that `name` has on type `t` itself, looked up in `t`'s own table.
    pub open spec fn own_attr(&self, t: TypeRef, name: Seq<char>) -> Option<Callable> {
        find_attr(self.types[t as int].attrs@, name)
    }

    /// Attribute resolution: the type's own table, then each base in
    /// declaration order, depth first; the first match wins.
    pub open spec fn lookup(&self, t: TypeRef, name: Seq<char>) -> Option<Callable>
        decreases t, 1int,
    {
        if t < self.types.len() {
            match self.own_attr(t, name) {
                Some(c) => Some(c),
                None => self.lookup_bases(t, 0, name),
            }
        } else {
            None
        }
    }

    /// Resolution through the bases of `t` from position `i` on.
    pub open spec fn lookup_bases(&self, t: TypeRef, i: int, name: Seq<char>) -> Option<Callable>
        decreases t, 0int, self.types[t as int].bases.len() - i,
    {
        if t < self.types.len() && 0 <= i < self.types[t as int].bases.len() {
            let base = self.types[t as int].bases[i];
            let found = if base < t {
                self.lookup(base, name)
            } else {
                None
            };
            match found {
                Some(c) => Some(c),
                None => self.lookup_bases(t, i + 1, name),
            }
        } else {
            None
        }
    }

    /// `issubclass(a, b)`: whether `b` is `a` or reachable from it through bases.
    pub fn issubclass(&self, a: TypeRef, b: TypeRef) -> (r: bool)
        requires
            self.wf(),
            a < self.types.len(),
        ensures
            r == self.subclass(a, b),
        decreases a, 1int,
    {
        a == b || self.issubclass_from(a, 0, b)
    }

    fn issubclass_from(&self, a: TypeRef, i: usize, b: TypeRef) -> (r: bool)
        requires
            self.wf(),
            a < self.types.len(),
        ensures
            r == subclass_from(self.types@, a, i as int, b),
        decreases a, 0int, self.types[a as int].bases.len() - i,
    {
        if i < self.types[a].bases.len() {
            let base = self.types[a].bases[i];
            assert(base < a);
            if self.issubclass(base, b) {
                true
            } else {
                self.issubclass_from(a, i + 1, b)
            }
        } else {
            false
        }
    }

    /// `isinstance(o, t)`: whether the type of `o` is a subclass of `t`.
    pub fn isinstance_exec(&self, o: ObjRef, t: TypeRef) -> (r: bool)
        requires
            self.wf(),
            self.valid(o),
        ensures
            r == self.isinstance(o, t),
    {
        let typ = self.objects[o].typ;
        assert(self.object_ok(self.objects[o as int]));
        self.issubclass(typ, t)
    }

    /// Resolves `name` on type `t` and its bases.
    pub fn get_attr(&self, t: TypeRef, name: &String) -> (r: Option<Callable>)
        requires
            self.wf(),
            t < self.types.len(),
        ensures
            r == self.lookup(t, name@),
            r matches Some(c) ==> self.callable_ok(c),
        decreases t, 1int,
    {
        match self.get_own_attr(t, name) {
            Some(c) => Some(c),
            None => self.get_attr_bases(t, 0, name),
        }
    }

    fn get_own_attr(&self, t: TypeRef, name: &String) -> (r: Option<Callable>)
        requires
            self.wf(),
            t < self.types.len(),
        ensures
            r == self.own_attr(t, name@),
            r matches Some(c) ==> self.callable_ok(c),
    {
        let attrs = &self.types[t].attrs;
        let mut i: usize = 0;
        assert(attrs@.skip(0) =~= attrs@);
        while i < attrs.len()
            invariant
                self.wf(),
                t < self.types.len(),
                attrs == self.types[t as int].attrs,
                0 <= i <= attrs.len(),
                find_attr(attrs@, name@) == find_attr(attrs@.skip(i as int), name@),
            decreases attrs.len() - i,
        {
            assert(attrs@.skip(i as int).drop_first() =~= attrs@.skip(i + 1));
            if attrs[i].name == *name {
                assert(self.callable_ok(self.types[t as int].attrs[i as int].value));
                return Some(attrs[i].value);
            }
            i = i + 1;
        }
        None
    }

    fn get_attr_bases(&self, t: TypeRef, i: usize, name: &String) -> (r: Option<Callable>)
        requires
            self.wf(),
            t < self.types.len(),
        ensures
            r == self.lookup_bases(t, i as int, name@),
            r matches Some(c) ==> self.callable_ok(c),
        decreases t, 0int, self.types[t as int].bases.len() - i,
    {
        if i < self.types[t].bases.len() {
            let base = self.types[t].bases[i];
            assert(base < t);
            match self.get_attr(base, name) {
                Some(c) => Some(c),
                None => self.get_attr_bases(t, i + 1, name),
            }
        } else {
            None
        }
    }
}

impl Vm {
    /// Boots an interpreter: the built-in types, each deriving from the
    /// universal base, and the `None`, `True` and `False` singletons.
    /// The base binds `__eq__` to identity and the integer type to value equality.
    pub fn new() -> (r: Vm)
        ensures
            r.wf(),
            r.types.len() == SLICE_TYPE + 1,
            r.objects.len() == FALSE_OBJ + 1,
            forall|t: int| OBJECT_TYPE < t <= SLICE_TYPE ==> r.types[t].bases@ == seq![OBJECT_TYPE],
            r.types[OBJECT_TYPE as int].bases@.len() == 0,
            r.types[OBJECT_TYPE as int].name@ == "object"@,
            r.types[TYPE_TYPE as int].name@ == "type"@,
            r.types[NONE_TYPE as int].name@ == "NoneType"@,
            r.types[BOOL_TYPE as int].name@ == "bool"@,
            r.types[INT_TYPE as int].name@ == "int"@,
            r.types[STR_TYPE as int].name@ == "str"@,
            r.types[LIST_TYPE as int].name@ == "list"@,
            r.types[SLICE_TYPE as int].name@ == "slice"@,
            r.lookup(OBJECT_TYPE, "__eq__"@) == Some(Callable::Native(Native::ObjectEq)),
            r.lookup(INT_TYPE, "__eq__"@) == Some(Callable::Native(Native::IntEq)),
    {
        let mut types: Vec<TypeDesc> = Vec::new();
        types.push(TypeDesc { name: String::from_str("object"), bases: Vec::new(), attrs: Vec::new() });
        types.push(derived_type("type"));
        types.push(derived_type("NoneType"));
        types.push(derived_type("bool"));
        types.push(derived_type("int"));
        types.push(derived_type("str"));
        types.push(derived_type("list"));
        types.push(derived_type("slice"));
        assert(forall|t: int| 0 < t < types.len() ==> (#[trigger] types[t]).bases@ == seq![OBJECT_TYPE]);
        let mut objects: Vec<Object> = Vec::new();
        objects.push(Object { payload: Payload::NoneValue, typ: NONE_TYPE });
        objects.push(Object { payload: Payload::Bool(true), typ: BOOL_TYPE });
        objects.push(Object { payload: Payload::Bool(false), typ: BOOL_TYPE });
        let mut vm = Vm { types, objects };
        proof {
            lemma_no_later_superclass(vm.types@, NONE_TYPE, LIST_TYPE);
            lemma_no_later_superclass(vm.types@, BOOL_TYPE, LIST_TYPE);
        }
        assert(forall|o: int| 0 <= o < vm.objects.len() ==> vm.object_ok(#[trigger] vm.objects[o]));
        vm.set_attr(OBJECT_TYPE, String::from_str("__eq__"), Callable::Native(Native::ObjectEq));
        vm.set_attr(INT_TYPE, String::from_str("__eq__"), Callable::Native(Native::IntEq));
        vm
    }

    /// Binds `name` on type `t`; the new binding shadows any earlier one.
    pub fn set_attr(&mut self, t: TypeRef, name: String, value: Callable)
        requires
            t < old(self).types.len(),
            old(self).callable_ok(value),
            old(self).wf(),
        ensures
            final(self).wf(),
            final(self).own_attr(t, name@) == Some(value),
            forall|n: Seq<char>| n != name@ ==> final(self).own_attr(t, n) == old(self).own_attr(t, n),
            final(self).types[t as int].attrs@.drop_first() == old(self).types[t as int].attrs@,
            final(self).types[t as int].name == old(self).types[t as int].name,
            final(self).types[t as int].bases == old(self).types[t as int].bases,
            final(self).types.len() == old(self).types.len(),
            forall|u: int| 0 <= u < final(self).types.len() && u != t ==> final(self).types[u] == old(self).types[u],
            final(self).objects == old(self).objects,
    {
        let ghost name_view = name@;
        let mut desc = self.types.remove(t);
        desc.attrs.insert(0, Attribute { name, value });
        self.types.insert(t, desc);
        assert(self.types[t as int].attrs@.drop_first() =~= old(self).types[t as int].attrs@);
        assert forall|u: int| 0 <= u < self.types.len() && u != t implies self.types[u] == old(self).types[u] by {
        }
        assert(find_attr(self.types[t as int].attrs@, name_view) == Some(value));
        assert forall|u: int, j: int|
            0 <= u < self.types.len() && 0 <= j < self.types[u].bases.len()
                implies #[trigger] self.types[u].bases[j] < u by {
            if u != t {
                assert(self.types[u] == old(self).types[u]);
            }
        }
        assert forall|u: int, j: int|
            0 <= u < self.types.len() && 0 <= j < self.types[u].attrs.len()
                implies self.callable_ok(#[trigger] self.types[u].attrs[j].value) by {
            if u != t {
                assert(self.types[u] == old(self).types[u]);
            } else if j > 0 {
                assert(self.types[u].attrs[j] == old(self).types[u].attrs[j - 1]);
            }
        }
        assert forall|u: int| 0 <= u < old(self).types.len() implies (#[trigger] self.types@[u]).bases
            == old(self).types@[u].bases by {
            if u != t {
                assert(self.types[u] == old(self).types[u]);
            }
        }
        assert forall|o: int| 0 <= o < self.objects.len() implies self.object_ok(#[trigger] self.objects[o]) by {
            assert(old(self).object_ok(self.objects[o]));
            lemma_subclass_stable(old(self).types@, self.types@, self.objects[o].typ, LIST_TYPE);
        }
    }

    /// Creates a type named `name` with the given bases.
    pub fn new_type(&mut self, name: String, bases: Vec<TypeRef>) -> (r: TypeRef)
        requires
            old(self).wf(),
            forall|j: int| 0 <= j < bases.len() ==> #[trigger] bases[j] < old(self).types.len(),
        ensures
            final(self).wf(),
            r == old(self).types.len(),
            final(self).types.len() == old(self).types.len() + 1,
            forall|u: int| 0 <= u < old(self).types.len() ==> final(self).types[u] == old(self).types[u],
            final(self).types[r as int].name == name,
            final(self).types[r as int].bases == bases,
            final(self).types[r as int].attrs@.len() == 0,
            final(self).objects == old(self).objects,
    {
        let r = self.types.len();
        self.types.push(TypeDesc { name, bases, attrs: Vec::new() });
        assert(forall|u: int| 0 <= u < old(self).types.len() ==> (#[trigger] self.types@[u]).bases
            == old(self).types@[u].bases);
        assert forall|o: int| 0 <= o < self.objects.len() implies self.object_ok(#[trigger] self.objects[o]) by {
            assert(old(self).object_ok(self.objects[o]));
            lemma_subclass_stable(old(self).types@, self.types@, self.objects[o].typ, LIST_TYPE);
        }
        assert forall|u: int, j: int|
            0 <= u < self.types.len() && 0 <= j < self.types[u].bases.len()
                implies #[trigger] self.types[u].bases[j] < u by {
            if u < r {
                assert(self.types[u] == old(self).types[u]);
            }
        }
        assert forall|u: int, j: int|
            0 <= u < self.types.len() && 0 <= j < self.types[u].attrs.len()
                implies self.callable_ok(#[trigger] self.types[u].attrs[j].value) by {
            assert(self.types[u] == old(self).types[u]);
        }
        r
    }

    /// Allocates a new object cell.
    pub fn new_object(&mut self, payload: Payload, typ: TypeRef) -> (r: ObjRef)
        requires
            old(self).wf(),
            old(self).object_ok(Object { payload, typ }),
        ensures
            final(self).wf(),
            r == old(self).objects.len(),
            final(self).objects@ == old(self).objects@.push(Object { payload, typ }),
            final(self).types == old(self).types,
    {
        let ghost new_obj = Object { payload, typ };
        let r = self.objects.len();
        self.objects.push(Object { payload, typ });
        assert forall|o: int| 0 <= o < self.objects.len() implies self.object_ok(#[trigger] self.objects[o]) by {
            let obj = self.objects[o];
            assert(old(self).object_ok(obj));
        }
        assert forall|u: int, j: int|
            0 <= u < self.types.len() && 0 <= j < self.types[u].attrs.len()
                implies self.callable_ok(#[trigger] self.types[u].attrs[j].value) by {
            assert(old(self).callable_ok(self.types[u].attrs[j].value));
        }
        r
    }

    /// A new type object standing for `t`.
    pub fn type_object(&mut self, t: TypeRef) -> (r: ObjRef)
        requires
            old(self).wf(),
            t < old(self).types.len(),
        ensures
            final(self).wf(),
            r == old(self).objects.len(),
            final(self).objects@ == old(self).objects@.push(Object { payload: Payload::Type(t), typ: TYPE_TYPE }),
            final(self).types == old(self).types,
    {
        proof {
            lemma_no_later_superclass(self.types@, TYPE_TYPE, LIST_TYPE);
        }
        self.new_object(Payload::Type(t), TYPE_TYPE)
    }

    /// Truthiness of an object, used to read the results of predicate calls.
    pub fn is_true(&self, o: ObjRef) -> (r: bool)
        requires
            self.wf(),
            self.valid(o),
        ensures
            r == self.truthy(o),
    {
        match &self.objects[o].payload {
            Payload::NoneValue => false,
            Payload::Bool(b) => *b,
            Payload::Int(v) => !v.is_zero(),
            Payload::Str(s) => !s.as_str().is_empty(),
            Payload::List(v) => v.len() > 0,
            Payload::Type(_) => true,
            Payload::Slice(..) => true,
        }
    }

    /// The `True` or `False` singleton.
    pub fn new_bool(&self, b: bool) -> (r: ObjRef)
        requires
            self.wf(),
        ensures
            r == (if b { TRUE_OBJ } else { FALSE_OBJ }),
            self.objects[r as int].payload == Payload::Bool(b),
    {
        if b { TRUE_OBJ } else { FALSE_OBJ }
    }
}

/// In the type table `types`, `b` is `a` or is reachable from `a` by
/// following bases.
pub open spec fn type_subclass(types: Seq<TypeDesc>, a: TypeRef, b: TypeRef) -> bool
    decreases a, 1int,
{
    a == b || subclass_from(types, a, 0, b)
}

/// Some base of `a` at position `i` or later is a subclass of `b`.
pub open spec fn subclass_from(types: Seq<TypeDesc>, a: TypeRef, i: int, b: TypeRef) -> bool
    decreases a, 0int, types[a as int].bases.len() - i,
{
    if a < types.len() && 0 <= i < types[a as int].bases.len() {
        let base = types[a as int].bases[i];
        (base < a && type_subclass(types, base, b)) || subclass_from(types, a, i + 1, b)
    } else {
        false
    }
}

/// A built-in type named `name` deriving from the universal base alone.
fn derived_type(name: &str) -> (r: TypeDesc)
    ensures
        r.name@ == name@,
        r.bases@ == seq![OBJECT_TYPE],
        r.attrs@.len() == 0,
{
    let mut bases: Vec<TypeRef> = Vec::new();
    bases.push(OBJECT_TYPE);
    TypeDesc { name: String::from_str(name), bases, attrs: Vec::new() }
}

/// Two type tables that agree on the bases of their first `types1.len()`
/// types agree on subclassing among them.
pub proof fn lemma_subclass_stable(types1: Seq<TypeDesc>, types2: Seq<TypeDesc>, a: TypeRef, b: TypeRef)
    requires
        a < types1.len() <= types2.len(),
        forall|t: int| 0 <= t < types1.len() ==> (#[trigger] types2[t]).bases == types1[t].bases,
    ensures
        type_subclass(types1, a, b) == type_subclass(types2, a, b),
    decreases a, 1int,
{
    lemma_subclass_from_stable(types1, types2, a, 0, b);
}

proof fn lemma_subclass_from_stable(types1: Seq<TypeDesc>, types2: Seq<TypeDesc>, a: TypeRef, i: int, b: TypeRef)
    requires
        a < types1.len() <= types2.len(),
        forall|t: int| 0 <= t < types1.len() ==> (#[trigger] types2[t]).bases == types1[t].bases,
    ensures
        subclass_from(types1, a, i, b) == subclass_from(types2, a, i, b),
    decreases a, 0int, types1[a as int].bases.len() - i,
{
    assert(types2[a as int].bases == types1[a as int].bases);
    if 0 <= i < types1[a as int].bases.len() {
        let base = types1[a as int].bases[i];
        if base < a {
            lemma_subclass_stable(types1, types2, base, b);
        }
        lemma_subclass_from_stable(types1, types2, a, i + 1, b);
    }
}

/// Bases come before their types, so no type is a subclass of a later one.
pub proof fn lemma_no_later_superclass(types: Seq<TypeDesc>, a: TypeRef, b: TypeRef)
    requires
        a < b,
    ensures
        !type_subclass(types, a, b),
    decreases a, 1int,
{
    lemma_no_later_superclass_from(types, a, 0, b);
}

proof fn lemma_no_later_superclass_from(types: Seq<TypeDesc>, a: TypeRef, i: int, b: TypeRef)
    requires
        a < b,
    ensures
        !subclass_from(types, a, i, b),
    decreases a, 0int, types[a as int].bases.len() - i,
{
    if a < types.len() && 0 <= i < types[a as int].bases.len() {
        let base = types[a as int].bases[i];
        if base < a {
            lemma_no_later_superclass(types, base, b);
        }
        lemma_no_later_superclass_from(types, a, i + 1, b);
    }
}

/// The first binding of `name` in an attribute table.
pub open spec fn find_attr(attrs: Seq<Attribute>, name: Seq<char>) -> Option<Callable>
    decreases attrs.len(),
{
    if attrs.len() == 0 {
        None
    } else if attrs[0].name@ == name {
        Some(attrs[0].value)
    } else {
        find_attr(attrs.drop_first(), name)
    }
}

} // verus!
