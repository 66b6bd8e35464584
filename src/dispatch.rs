use crate::object::{
    Callable, Culprits, Native, ObjRef, Payload, PyError, PyResult, TypeRef, Vm, FALSE_OBJ, TRUE_OBJ,
};
use crate::objlist::{
    add_post, append_post, as_bool_result, clear_post, contains_spec, extend_post, getitem_post, setitem_post, list_setitem,
    len_post, list_add, list_append, list_clear, list_contains, list_eq, list_eq_outcome,
    list_eq_spec, list_extend, list_getitem, list_len, list_new, list_repr, list_reverse, new_post,
    repr_post, reverse_post,
};
use vstd::prelude::*;

verus! {

/// Every reference in an argument bundle points into the VM.
pub open spec fn args_valid(vm: Vm, args: Seq<ObjRef>) -> bool {
    forall|i: int| 0 <= i < args.len() ==> vm.valid(#[trigger] args[i])
}

/// Declarative argument checking: the bundle fills every required slot and at
/// most `n_optional` optional ones, and each constrained required slot holds
/// an instance of its type.
pub open spec fn args_ok(vm: Vm, args: Seq<ObjRef>, required: Seq<Option<TypeRef>>, n_optional: int) -> bool {
    &&& required.len() <= args.len() <= required.len() + n_optional
    &&& forall|i: int|
        0 <= i < required.len() ==> match #[trigger] required[i] {
            Some(t) => vm.isinstance(args[i], t),
            None => true,
        }
}

/// Checks an argument bundle slot by slot, stopping at the first unmet constraint.
pub fn check_args(vm: &Vm, args: &Vec<ObjRef>, required: &Vec<Option<TypeRef>>, n_optional: usize) -> (r: bool)
    requires
        vm.wf(),
        args_valid(*vm, args@),
    ensures
        r == args_ok(*vm, args@, required@, n_optional as int),
{
    if args.len() < required.len() || args.len() - required.len() > n_optional {
        return false;
    }
    let mut i: usize = 0;
    while i < required.len()
        invariant
            vm.wf(),
            args_valid(*vm, args@),
            required.len() <= args.len(),
            0 <= i <= required.len(),
            forall|k: int|
                0 <= k < i ==> match #[trigger] required@[k] {
                    Some(t) => vm.isinstance(args@[k], t),
                    None => true,
                },
        decreases required.len() - i,
    {
        match required[i] {
            Some(t) => {
                if !vm.isinstance_exec(args[i], t) {
                    return false;
                }
            },
            None => {},
        }
        i = i + 1;
    }
    true
}

/// The error for a bundle that does not fit a routine's slots: a type error
/// naming the first argument, if there is one.
pub open spec fn arg_error(args: Seq<ObjRef>) -> PyError {
    if args.len() > 0 {
        PyError::TypeError(Culprits::One(args[0]))
    } else {
        PyError::TypeError(Culprits::NoObject)
    }
}

pub fn arg_error_of(args: &Vec<ObjRef>) -> (r: PyError)
    ensures
        r == arg_error(args@),
{
    if args.len() > 0 {
        PyError::TypeError(Culprits::One(args[0]))
    } else {
        PyError::TypeError(Culprits::NoObject)
    }
}

/// The name under which a type binds its equality routine.
pub open spec fn eq_name() -> Seq<char> {
    "__eq__"@
}

/// The boolean singleton for `b`.
pub open spec fn bool_obj(b: bool) -> ObjRef {
    if b {
        TRUE_OBJ
    } else {
        FALSE_OBJ
    }
}

/// Integer equality: two integers compare by value; an integer is never equal
/// to anything else; a receiver that is not an integer is a type error.
pub open spec fn int_eq_spec(vm: Vm, a: ObjRef, b: ObjRef) -> Result<bool, PyError> {
    match vm.objects[a as int].payload {
        Payload::Int(x) => match vm.objects[b as int].payload {
            Payload::Int(y) => Ok(x.value() == y.value()),
            _ => Ok(false),
        },
        _ => Err(PyError::TypeError(Culprits::One(a))),
    }
}

/// Outcome of `a == b`, dispatched to the `__eq__` that the type of `a`
/// resolves to, with `depth` levels of nested dispatch left. A binding that is
/// not a comparison is a type error: comparisons only read the VM.
pub open spec fn eq_spec(vm: Vm, a: ObjRef, b: ObjRef, depth: nat) -> Result<bool, PyError>
    decreases depth, 2int, 0int,
{
    match vm.lookup(vm.type_of(a), eq_name()) {
        Some(Callable::Constant(o)) => Ok(vm.truthy(o)),
        Some(Callable::Native(Native::ObjectEq)) => Ok(a == b),
        Some(Callable::Native(Native::IntEq)) => int_eq_spec(vm, a, b),
        Some(Callable::Native(Native::ListEq)) => list_eq_spec(vm, seq![a, b], depth),
        _ => Err(PyError::TypeError(Culprits::One(a))),
    }
}

fn int_eq(vm: &Vm, a: ObjRef, b: ObjRef) -> (r: Result<bool, PyError>)
    requires
        vm.wf(),
        vm.valid(a),
        vm.valid(b),
    ensures
        r == int_eq_spec(*vm, a, b),
{
    match &vm.objects[a].payload {
        Payload::Int(x) => match &vm.objects[b].payload {
            Payload::Int(y) => Ok(x.same_value(y)),
            _ => Ok(false),
        },
        _ => Err(PyError::TypeError(Culprits::One(a))),
    }
}

/// Evaluates `a == b` by dynamic dispatch on the type of `a`.
pub fn call_eq(vm: &Vm, a: ObjRef, b: ObjRef, depth: usize) -> (r: Result<bool, PyError>)
    requires
        vm.wf(),
        vm.valid(a),
        vm.valid(b),
    ensures
        r == eq_spec(*vm, a, b, depth as nat),
    decreases depth, 2int, 0int,
{
    assert(vm.object_ok(vm.objects[a as int]));
    let name = String::from_str("__eq__");
    match vm.get_attr(vm.objects[a].typ, &name) {
        Some(Callable::Constant(o)) => Ok(vm.is_true(o)),
        Some(Callable::Native(Native::ObjectEq)) => Ok(a == b),
        Some(Callable::Native(Native::IntEq)) => int_eq(vm, a, b),
        Some(Callable::Native(Native::ListEq)) => {
            let args = vec![a, b];
            assert(args@ =~= seq![a, b]);
            list_eq_outcome(vm, &args, depth)
        },
        _ => Err(PyError::TypeError(Culprits::One(a))),
    }
}

/// Outcome of invoking callable `c` on the bundle `args`: the VM before and
/// after, and the result.
pub open spec fn call_post(old: Vm, new: Vm, c: Callable, args: Seq<ObjRef>, depth: nat, r: PyResult) -> bool {
    match c {
        Callable::Constant(o) => r == Ok::<ObjRef, PyError>(o) && new == old,
        Callable::Native(n) => match n {
            Native::ObjectEq => new == old && r == (if args.len() == 2 {
                Ok::<ObjRef, PyError>(bool_obj(args[0] == args[1]))
            } else {
                Err(arg_error(args))
            }),
            Native::IntEq => new == old && r == (if args.len() == 2 {
                as_bool_result(int_eq_spec(old, args[0], args[1]))
            } else {
                Err(arg_error(args))
            }),
            Native::ListEq => new == old && r == as_bool_result(list_eq_spec(old, args, depth)),
            Native::ListContains => new == old && r == as_bool_result(contains_spec(old, args, depth)),
            Native::ListGetItem => getitem_post(old, new, args, r),
            Native::ListSetItem => setitem_post(old, new, args, r),
            Native::ListAdd => add_post(old, new, args, r),
            Native::ListLen => len_post(old, new, args, r),
            Native::ListNew => new_post(old, new, args, r),
            Native::ListRepr => repr_post(old, new, args, depth, r),
            Native::ListAppend => append_post(old, new, args, r),
            Native::ListClear => clear_post(old, new, args, r),
            Native::ListExtend => extend_post(old, new, args, r),
            Native::ListReverse => reverse_post(old, new, args, r),
        },
    }
}

/// Invokes callable `c` on the argument bundle `args`.
pub fn call(vm: &mut Vm, c: Callable, args: Vec<ObjRef>, depth: usize) -> (r: PyResult)
    requires
        old(vm).wf(),
        old(vm).callable_ok(c),
        args_valid(*old(vm), args@),
    ensures
        final(vm).wf(),
        call_post(*old(vm), *final(vm), c, args@, depth as nat, r),
{
    match c {
        Callable::Constant(o) => Ok(o),
        Callable::Native(n) => match n {
            Native::ObjectEq => {
                if args.len() != 2 {
                    return Err(arg_error_of(&args));
                }
                Ok(vm.new_bool(args[0] == args[1]))
            },
            Native::IntEq => {
                if args.len() != 2 {
                    return Err(arg_error_of(&args));
                }
                match int_eq(vm, args[0], args[1]) {
                    Ok(b) => Ok(vm.new_bool(b)),
                    Err(e) => Err(e),
                }
            },
            Native::ListEq => list_eq(vm, args, depth),
            Native::ListContains => list_contains(vm, args, depth),
            Native::ListGetItem => list_getitem(vm, args),
            Native::ListSetItem => list_setitem(vm, args),
            Native::ListAdd => list_add(vm, args),
            Native::ListLen => list_len(vm, args),
            Native::ListNew => list_new(vm, args),
            Native::ListRepr => list_repr(vm, args, depth),
            Native::ListAppend => list_append(vm, args),
            Native::ListClear => list_clear(vm, args),
            Native::ListExtend => list_extend(vm, args),
            Native::ListReverse => list_reverse(vm, args),
        },
    }
}

/// Calls method `name` of `obj`: resolves it on the type chain of `obj` and
/// invokes it with `obj` followed by `rest`.
pub fn call_method(vm: &mut Vm, obj: ObjRef, name: &String, rest: Vec<ObjRef>, depth: usize) -> (r: PyResult)
    requires
        old(vm).wf(),
        old(vm).valid(obj),
        args_valid(*old(vm), rest@),
    ensures
        final(vm).wf(),
        match old(vm).lookup(old(vm).type_of(obj), name@) {
            Some(c) => call_post(*old(vm), *final(vm), c, seq![obj] + rest@, depth as nat, r),
            None => r == Err::<ObjRef, PyError>(PyError::AttributeError(Culprits::One(obj))) && *final(vm) == *old(vm),
        },
{
    assert(vm.object_ok(vm.objects[obj as int]));
    let c = match vm.get_attr(vm.objects[obj].typ, name) {
        Some(c) => c,
        None => return Err(PyError::AttributeError(Culprits::One(obj))),
    };
    let mut args: Vec<ObjRef> = Vec::new();
    args.push(obj);
    let mut i: usize = 0;
    while i < rest.len()
        invariant
            0 <= i <= rest.len(),
            args@ == seq![obj] + rest@.subrange(0, i as int),
        decreases rest.len() - i,
    {
        args.push(rest[i]);
        i = i + 1;
        assert(args@ =~= seq![obj] + rest@.subrange(0, i as int));
    }
    assert(rest@.subrange(0, rest.len() as int) =~= rest@);
    call(vm, c, args, depth)
}

} // verus!
