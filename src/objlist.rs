use crate::bignum::Int;
use crate::dispatch::{arg_error, arg_error_of, args_valid, bool_obj, call_eq, check_args, eq_spec};
use crate::object::{
    lemma_no_later_superclass,
    Callable, Culprits, Native, ObjRef, Object, Payload, PyError, PyResult, Vm, INT_TYPE, LIST_TYPE, NONE_OBJ,
    SLICE_TYPE, STR_TYPE,
};
use crate::repr::{repr_spec, to_repr};
use crate::sequence::{get_pos, opt_value, resolve_index, slice_elements, slice_seq};
use vstd::prelude::*;

verus! {

/// The bundle is a list receiver followed by `arity - 1` further arguments:
/// the receiver is an instance of the list type and holds a list payload.
pub open spec fn list_call_ok(vm: Vm, args: Seq<ObjRef>, arity: int) -> bool {
    &&& args.len() == arity
    &&& vm.isinstance(args[0], LIST_TYPE)
    &&& vm.is_list(args[0])
}

/// Object `o` and only it was changed, to a list holding `s`; its type is kept.
pub open spec fn only_list_changed(old: Vm, new: Vm, o: ObjRef, s: Seq<ObjRef>) -> bool {
    &&& new.types == old.types
    &&& new.objects.len() == old.objects.len()
    &&& forall|p: int| 0 <= p < old.objects.len() && p != o ==> new.objects[p] == old.objects[p]
    &&& new.objects[o as int].typ == old.objects[o as int].typ
    &&& new.is_list(o)
    &&& new.elems(o) == s
}

/// One object was allocated at the end of the arena; nothing else changed.
pub open spec fn appended_one(old: Vm, new: Vm) -> bool {
    &&& new.types == old.types
    &&& new.objects.len() == old.objects.len() + 1
    &&& forall|p: int| 0 <= p < old.objects.len() ==> new.objects[p] == old.objects[p]
}

/// Element-wise equality of `xs` and `ys` from position `i` on: lengths must
/// match, then each pair is compared in order by dispatch, stopping at the
/// first pair that is unequal or fails.
pub open spec fn seq_eq_from(vm: Vm, xs: Seq<ObjRef>, ys: Seq<ObjRef>, i: int, depth: nat) -> Result<bool, PyError>
    decreases depth, 0int, xs.len() - i,
{
    if xs.len() != ys.len() {
        Ok(false)
    } else if i < 0 || i >= xs.len() {
        Ok(true)
    } else if depth == 0 {
        Err(PyError::RecursionError)
    } else {
        match eq_spec(vm, xs[i], ys[i], (depth - 1) as nat) {
            Err(e) => Err(e),
            Ok(false) => Ok(false),
            Ok(true) => seq_eq_from(vm, xs, ys, i + 1, depth),
        }
    }
}

/// Outcome of the list type's `__eq__` on the bundle `args`.
pub open spec fn list_eq_spec(vm: Vm, args: Seq<ObjRef>, depth: nat) -> Result<bool, PyError>
    decreases depth, 1int, 0int,
{
    if !list_call_ok(vm, args, 2) {
        Err(arg_error(args))
    } else if !(vm.isinstance(args[1], LIST_TYPE) && vm.is_list(args[1])) {
        Ok(false)
    } else {
        seq_eq_from(vm, vm.elems(args[0]), vm.elems(args[1]), 0, depth)
    }
}

/// Outcome of the list type's `__contains__`: the needle's own `__eq__` is
/// dispatched against each element in order, stopping at the first match.
pub open spec fn contains_from(vm: Vm, needle: ObjRef, xs: Seq<ObjRef>, i: int, depth: nat) -> Result<bool, PyError>
    decreases xs.len() - i,
{
    if i < 0 || i >= xs.len() {
        Ok(false)
    } else {
        match eq_spec(vm, needle, xs[i], depth) {
            Err(e) => Err(e),
            Ok(true) => Ok(true),
            Ok(false) => contains_from(vm, needle, xs, i + 1, depth),
        }
    }
}

pub open spec fn contains_spec(vm: Vm, args: Seq<ObjRef>, depth: nat) -> Result<bool, PyError> {
    if !list_call_ok(vm, args, 2) {
        Err(arg_error(args))
    } else {
        contains_from(vm, args[1], vm.elems(args[0]), 0, depth)
    }
}

/// A boolean outcome as the object a native routine returns.
pub open spec fn as_bool_result(r: Result<bool, PyError>) -> PyResult {
    match r {
        Ok(b) => Ok(bool_obj(b)),
        Err(e) => Err(e),
    }
}

/// A copy of the elements of list object `obj`. The caller must already know
/// that `obj` holds a list.
pub fn get_elements(vm: &Vm, obj: ObjRef) -> (r: Vec<ObjRef>)
    requires
        vm.wf(),
        vm.valid(obj),
        vm.is_list(obj),
    ensures
        r@ == vm.elems(obj),
        forall|i: int| 0 <= i < r.len() ==> vm.valid(#[trigger] r@[i]),
{
    assert(vm.object_ok(vm.objects[obj as int]));
    match &vm.objects[obj].payload {
        Payload::List(v) => {
            let mut r: Vec<ObjRef> = Vec::new();
            let mut i: usize = 0;
            while i < v.len()
                invariant
                    0 <= i <= v.len(),
                    r@ == v@.subrange(0, i as int),
                decreases v.len() - i,
            {
                r.push(v[i]);
                i = i + 1;
                assert(r@ =~= v@.subrange(0, i as int));
            }
            assert(r@ =~= v@);
            r
        },
        _ => Vec::new(),
    }
}

/// Element-wise equality by dispatch, one level deeper than `depth`.
fn seq_equal(vm: &Vm, xs: &Vec<ObjRef>, ys: &Vec<ObjRef>, depth: usize) -> (r: Result<bool, PyError>)
    requires
        vm.wf(),
        forall|i: int| 0 <= i < xs.len() ==> vm.valid(#[trigger] xs@[i]),
        forall|i: int| 0 <= i < ys.len() ==> vm.valid(#[trigger] ys@[i]),
    ensures
        r == seq_eq_from(*vm, xs@, ys@, 0, depth as nat),
    decreases depth, 0int, 0int,
{
    if xs.len() != ys.len() {
        return Ok(false);
    }
    if xs.len() == 0 {
        return Ok(true);
    }
    if depth == 0 {
        return Err(PyError::RecursionError);
    }
    let mut i: usize = 0;
    while i < xs.len()
        invariant
            vm.wf(),
            forall|k: int| 0 <= k < xs.len() ==> vm.valid(#[trigger] xs@[k]),
            forall|k: int| 0 <= k < ys.len() ==> vm.valid(#[trigger] ys@[k]),
            xs.len() == ys.len(),
            depth > 0,
            0 <= i <= xs.len(),
            seq_eq_from(*vm, xs@, ys@, 0, depth as nat) == seq_eq_from(*vm, xs@, ys@, i as int, depth as nat),
        decreases xs.len() - i,
    {
        match call_eq(vm, xs[i], ys[i], depth - 1) {
            Err(e) => return Err(e),
            Ok(false) => return Ok(false),
            Ok(true) => {},
        }
        i = i + 1;
    }
    Ok(true)
}

/// The boolean outcome of the list type's `__eq__`.
pub fn list_eq_outcome(vm: &Vm, args: &Vec<ObjRef>, depth: usize) -> (r: Result<bool, PyError>)
    requires
        vm.wf(),
        args_valid(*vm, args@),
    ensures
        r == list_eq_spec(*vm, args@, depth as nat),
    decreases depth, 1int, 0int,
{
    if !list_receiver(vm, args, 2) {
        return Err(arg_error_of(args));
    }
    let other = args[1];
    if !(vm.isinstance_exec(other, LIST_TYPE) && is_list_exec(vm, other)) {
        return Ok(false);
    }
    let xs = get_elements(vm, args[0]);
    let ys = get_elements(vm, other);
    seq_equal(vm, &xs, &ys, depth)
}

/// `list.__eq__(zelf, other)`: `True` when `other` is a list of the same
/// length whose elements compare equal pairwise by dispatch.
pub fn list_eq(vm: &Vm, args: Vec<ObjRef>, depth: usize) -> (r: PyResult)
    requires
        vm.wf(),
        args_valid(*vm, args@),
    ensures
        r == as_bool_result(list_eq_spec(*vm, args@, depth as nat)),
{
    match list_eq_outcome(vm, &args, depth) {
        Ok(b) => Ok(vm.new_bool(b)),
        Err(e) => Err(e),
    }
}

/// `list.__contains__(list, needle)`: whether the needle's `__eq__` reports
/// any element equal; a failing comparison propagates its error.
pub fn list_contains(vm: &Vm, args: Vec<ObjRef>, depth: usize) -> (r: PyResult)
    requires
        vm.wf(),
        args_valid(*vm, args@),
    ensures
        r == as_bool_result(contains_spec(*vm, args@, depth as nat)),
{
    if !list_receiver(vm, &args, 2) {
        return Err(arg_error_of(&args));
    }
    let needle = args[1];
    let elements = get_elements(vm, args[0]);
    let mut i: usize = 0;
    while i < elements.len()
        invariant
            vm.wf(),
            vm.valid(needle),
            list_call_ok(*vm, args@, 2),
            needle == args@[1],
            elements@ == vm.elems(args@[0]),
            forall|k: int| 0 <= k < elements.len() ==> vm.valid(#[trigger] elements@[k]),
            0 <= i <= elements.len(),
            contains_from(*vm, needle, elements@, 0, depth as nat) == contains_from(*vm, needle, elements@, i as int, depth as nat),
        decreases elements.len() - i,
    {
        match call_eq(vm, needle, elements[i], depth) {
            Err(e) => return Err(e),
            Ok(true) => return Ok(vm.new_bool(true)),
            Ok(false) => {},
        }
        i = i + 1;
    }
    Ok(vm.new_bool(false))
}

fn is_list_exec(vm: &Vm, o: ObjRef) -> (r: bool)
    requires
        vm.wf(),
        vm.valid(o),
    ensures
        r == vm.is_list(o),
{
    match &vm.objects[o].payload {
        Payload::List(_) => true,
        _ => false,
    }
}

/// Checks that `args` is a list receiver followed by `arity - 1` arguments.
fn list_receiver(vm: &Vm, args: &Vec<ObjRef>, arity: usize) -> (r: bool)
    requires
        vm.wf(),
        args_valid(*vm, args@),
        arity >= 1,
    ensures
        r == list_call_ok(*vm, args@, arity as int),
{
    let mut required: Vec<Option<usize>> = Vec::new();
    required.push(Some(LIST_TYPE));
    while required.len() < arity
        invariant
            1 <= required.len() <= arity,
            required@[0] == Some(LIST_TYPE),
            forall|k: int| 1 <= k < required.len() ==> #[trigger] required@[k] == None::<usize>,
        decreases arity - required.len(),
    {
        required.push(None);
    }
    let ok = check_args(vm, args, &required, 0);
    if ok {
        assert(match required@[0] {
            Some(t) => vm.isinstance(args@[0], t),
            None => true,
        });
        is_list_exec(vm, args[0])
    } else {
        proof {
            if list_call_ok(*vm, args@, arity as int) {
                assert forall|i: int| 0 <= i < required@.len() implies match #[trigger] required@[i] {
                    Some(t) => vm.isinstance(args@[i], t),
                    None => true,
                } by {
                    if i > 0 {
                        assert(required@[i] == None::<usize>);
                    }
                }
            }
        }
        false
    }
}

/// Shared outcome of the in-place list mutations: on a well-formed call with
/// `extra_ok` the receiver (and only it) now holds `s`, and the result is
/// `None`. A bundle that does not fit is a type error naming its first
/// argument; a second argument refused by `extra_ok` is a type error naming
/// it. Neither changes anything.
pub open spec fn mutation_post(old: Vm, new: Vm, args: Seq<ObjRef>, arity: int, extra_ok: bool, s: Seq<ObjRef>, r: PyResult) -> bool {
    if !list_call_ok(old, args, arity) {
        r == Err::<ObjRef, PyError>(arg_error(args)) && new == old
    } else if !extra_ok {
        r == Err::<ObjRef, PyError>(PyError::TypeError(Culprits::One(args[1]))) && new == old
    } else {
        r == Ok::<ObjRef, PyError>(NONE_OBJ) && only_list_changed(old, new, args[0], s)
    }
}

/// `append(x)`: `x` becomes the new last element.
pub open spec fn append_post(old: Vm, new: Vm, args: Seq<ObjRef>, r: PyResult) -> bool {
    mutation_post(old, new, args, 2, true, old.elems(args[0]).push(args[1]), r)
}

/// `extend(xs)`: the elements of `xs`, taken before any change, follow the
/// receiver's own. This object model drives only list payloads through the
/// iteration protocol: any other source, strings included, is a type error
/// naming it.
pub open spec fn extend_post(old: Vm, new: Vm, args: Seq<ObjRef>, r: PyResult) -> bool {
    mutation_post(old, new, args, 2, old.is_list(args[1]), old.elems(args[0]) + old.elems(args[1]), r)
}

/// `clear()`: no element is left.
pub open spec fn clear_post(old: Vm, new: Vm, args: Seq<ObjRef>, r: PyResult) -> bool {
    mutation_post(old, new, args, 1, true, Seq::empty(), r)
}

/// `reverse()`: the elements in reverse order.
pub open spec fn reverse_post(old: Vm, new: Vm, args: Seq<ObjRef>, r: PyResult) -> bool {
    mutation_post(old, new, args, 1, true, old.elems(args[0]).reverse(), r)
}

/// Opens the exclusive-access window on list `o`: its elements are moved out
/// and the cell holds an empty list until `put_list` closes the window.
fn take_list(vm: &mut Vm, o: ObjRef) -> (r: Vec<ObjRef>)
    requires
        old(vm).wf(),
        old(vm).valid(o),
        old(vm).is_list(o),
    ensures
        final(vm).wf(),
        r@ == old(vm).elems(o),
        only_list_changed(*old(vm), *final(vm), o, Seq::empty()),
        forall|k: int| 0 <= k < r.len() ==> final(vm).valid(#[trigger] r@[k]),
{
    let typ = vm.objects[o].typ;
    assert(vm.object_ok(vm.objects[o as int]));
    let mut cell = Object { payload: Payload::List(Vec::new()), typ };
    vm.objects.set_and_swap(o, &mut cell);
    assert forall|p: int| 0 <= p < vm.objects.len() implies vm.object_ok(#[trigger] vm.objects[p]) by {
        if p != o {
            assert(old(vm).object_ok(old(vm).objects[p]));
        }
    }
    assert forall|u: int, j: int|
        0 <= u < vm.types.len() && 0 <= j < vm.types[u].attrs.len()
            implies vm.callable_ok(#[trigger] vm.types[u].attrs[j].value) by {
        assert(old(vm).callable_ok(vm.types[u].attrs[j].value));
    }
    match cell.payload {
        Payload::List(v) => v,
        _ => Vec::new(),
    }
}

/// Closes the exclusive-access window on list `o`: the cell now holds `v`.
fn put_list(vm: &mut Vm, o: ObjRef, v: Vec<ObjRef>)
    requires
        old(vm).wf(),
        old(vm).valid(o),
        old(vm).is_list(o),
        forall|k: int| 0 <= k < v.len() ==> old(vm).valid(#[trigger] v@[k]),
    ensures
        final(vm).wf(),
        only_list_changed(*old(vm), *final(vm), o, v@),
{
    let typ = vm.objects[o].typ;
    assert(vm.object_ok(vm.objects[o as int]));
    let ghost vv = v@;
    vm.objects.set(o, Object { payload: Payload::List(v), typ });
    assert(vm.object_ok(vm.objects[o as int]));
    assert forall|p: int| 0 <= p < vm.objects.len() implies vm.object_ok(#[trigger] vm.objects[p]) by {
        if p != o {
            assert(old(vm).object_ok(old(vm).objects[p]));
        }
    }
    assert forall|u: int, j: int|
        0 <= u < vm.types.len() && 0 <= j < vm.types[u].attrs.len()
            implies vm.callable_ok(#[trigger] vm.types[u].attrs[j].value) by {
        assert(old(vm).callable_ok(vm.types[u].attrs[j].value));
    }
}

/// `list.append(list, x)`.
pub fn list_append(vm: &mut Vm, args: Vec<ObjRef>) -> (r: PyResult)
    requires
        old(vm).wf(),
        args_valid(*old(vm), args@),
    ensures
        final(vm).wf(),
        append_post(*old(vm), *final(vm), args@, r),
{
    if !list_receiver(vm, &args, 2) {
        return Err(arg_error_of(&args));
    }
    let list = args[0];
    let x = args[1];
    let mut elements = take_list(vm, list);
    elements.push(x);
    put_list(vm, list, elements);
    Ok(NONE_OBJ)
}

/// `list.clear(list)`.
pub fn list_clear(vm: &mut Vm, args: Vec<ObjRef>) -> (r: PyResult)
    requires
        old(vm).wf(),
        args_valid(*old(vm), args@),
    ensures
        final(vm).wf(),
        clear_post(*old(vm), *final(vm), args@, r),
{
    if !list_receiver(vm, &args, 1) {
        return Err(arg_error_of(&args));
    }
    let list = args[0];
    let mut elements = take_list(vm, list);
    elements.clear();
    put_list(vm, list, elements);
    Ok(NONE_OBJ)
}

/// `list.extend(list, iterable)`: the iterable is drained before the
/// receiver's window opens, so extending a list by itself doubles it.
pub fn list_extend(vm: &mut Vm, args: Vec<ObjRef>) -> (r: PyResult)
    requires
        old(vm).wf(),
        args_valid(*old(vm), args@),
    ensures
        final(vm).wf(),
        extend_post(*old(vm), *final(vm), args@, r),
{
    if !list_receiver(vm, &args, 2) {
        return Err(arg_error_of(&args));
    }
    let list = args[0];
    let source = args[1];
    if !is_list_exec(vm, source) {
        return Err(PyError::TypeError(Culprits::One(source)));
    }
    let mut new_elements = get_elements(vm, source);
    let mut elements = take_list(vm, list);
    elements.append(&mut new_elements);
    put_list(vm, list, elements);
    Ok(NONE_OBJ)
}

/// `list.reverse(list)`.
pub fn list_reverse(vm: &mut Vm, args: Vec<ObjRef>) -> (r: PyResult)
    requires
        old(vm).wf(),
        args_valid(*old(vm), args@),
    ensures
        final(vm).wf(),
        reverse_post(*old(vm), *final(vm), args@, r),
{
    if !list_receiver(vm, &args, 1) {
        return Err(arg_error_of(&args));
    }
    let list = args[0];
    let elements = take_list(vm, list);
    let n = elements.len();
    let mut reversed: Vec<ObjRef> = Vec::new();
    while reversed.len() < n
        invariant
            n == elements.len(),
            reversed.len() <= n,
            reversed@ =~= Seq::new(reversed.len() as nat, |j: int| elements@[n - 1 - j]),
        decreases n - reversed.len(),
    {
        let k = reversed.len();
        reversed.push(elements[n - 1 - k]);
    }
    assert(reversed@ =~= elements@.reverse());
    put_list(vm, list, reversed);
    Ok(NONE_OBJ)
}

/// `len(list)`: a new integer object holding the number of elements.
pub open spec fn len_post(old: Vm, new: Vm, args: Seq<ObjRef>, r: PyResult) -> bool {
    if list_call_ok(old, args, 1) {
        &&& r == Ok::<ObjRef, PyError>(old.objects.len() as ObjRef)
        &&& appended_one(old, new)
        &&& new.objects[old.objects.len() as int].typ == INT_TYPE
        &&& new.objects[old.objects.len() as int].payload matches Payload::Int(v)
            && v.value() == old.elems(args[0]).len()
    } else {
        r == Err::<ObjRef, PyError>(arg_error(args)) && new == old
    }
}

/// A new list object of type `t` holding `s` was allocated and returned.
pub open spec fn new_list_post(old: Vm, new: Vm, t: usize, s: Seq<ObjRef>, r: PyResult) -> bool {
    &&& r == Ok::<ObjRef, PyError>(old.objects.len() as ObjRef)
    &&& appended_one(old, new)
    &&& new.objects[old.objects.len() as int].typ == t
    &&& new.is_list(old.objects.len() as ObjRef)
    &&& new.elems(old.objects.len() as ObjRef) == s
}

/// `list + other`: a new list, the left operand's elements then the right's;
/// neither operand changes. The right operand must be a list too, else a
/// type error names both operands.
pub open spec fn add_post(old: Vm, new: Vm, args: Seq<ObjRef>, r: PyResult) -> bool {
    if !list_call_ok(old, args, 2) {
        r == Err::<ObjRef, PyError>(arg_error(args)) && new == old
    } else if !(old.isinstance(args[1], LIST_TYPE) && old.is_list(args[1])) {
        r == Err::<ObjRef, PyError>(PyError::TypeError(Culprits::Two(args[0], args[1]))) && new == old
    } else {
        new_list_post(old, new, LIST_TYPE, old.elems(args[0]) + old.elems(args[1]), r)
    }
}

/// Construction is owed on a type object that is a subclass of the list type
/// and, where a source is given, a source holding a list payload. This object
/// model drives only list payloads through the iteration protocol: any other
/// source, strings included, is a type error naming it.
pub open spec fn new_ok(vm: Vm, args: Seq<ObjRef>) -> bool {
    &&& 1 <= args.len() <= 2
    &&& cls_ok(vm, args[0])
    &&& args.len() == 2 ==> vm.is_list(args[1])
}

/// `cls` is a type object standing for a subclass of the list type.
pub open spec fn cls_ok(vm: Vm, cls: ObjRef) -> bool {
    vm.objects[cls as int].payload matches Payload::Type(t) && vm.subclass(t, LIST_TYPE)
}

/// Why construction was refused: a bundle that does not fit, a `cls` that is
/// not a list subclass (named), or a source that is not iterable (named).
pub open spec fn new_error(vm: Vm, args: Seq<ObjRef>) -> PyError {
    if !(1 <= args.len() <= 2) {
        arg_error(args)
    } else if !cls_ok(vm, args[0]) {
        PyError::TypeError(Culprits::One(args[0]))
    } else {
        PyError::TypeError(Culprits::One(args[1]))
    }
}

/// `list.__new__(cls[, iterable])`: a new instance of `cls` holding the
/// source's elements in order (none without a source); on failure nothing is
/// allocated.
pub open spec fn new_post(old: Vm, new: Vm, args: Seq<ObjRef>, r: PyResult) -> bool {
    if new_ok(old, args) {
        new_list_post(
            old,
            new,
            old.objects[args[0] as int].payload->Type_0,
            if args.len() == 2 {
                old.elems(args[1])
            } else {
                Seq::empty()
            },
            r,
        )
    } else {
        r == Err::<ObjRef, PyError>(new_error(old, args)) && new == old
    }
}

/// The element of `xs` at index `i`, resolved as positions are, or an index
/// error naming the index object `key`.
pub open spec fn index_result(xs: Seq<ObjRef>, i: int, key: ObjRef) -> PyResult {
    match resolve_index(xs.len() as int, i) {
        Some(j) => Ok(xs[j]),
        None => Err(PyError::IndexError(Culprits::One(key))),
    }
}

/// `list[key]`: with a key that is an instance of int, the element at the
/// resolved position (nothing changes); with an instance of slice, a new list
/// of the selected elements (a zero step is a value error); with any other key
/// a type error naming it.
pub open spec fn getitem_post(old: Vm, new: Vm, args: Seq<ObjRef>, r: PyResult) -> bool {
    if !list_call_ok(old, args, 2) {
        r == Err::<ObjRef, PyError>(arg_error(args)) && new == old
    } else {
        match old.objects[args[1] as int].payload {
            Payload::Int(v) if old.isinstance(args[1], INT_TYPE) => new == old && r == index_result(
                old.elems(args[0]),
                v.value(),
                args[1],
            ),
            Payload::Slice(a, b, c) if old.isinstance(args[1], SLICE_TYPE) => match opt_value(c) {
                Some(s) if s == 0 => r == Err::<ObjRef, PyError>(PyError::ValueError(Culprits::One(args[1])))
                    && new == old,
                _ => new_list_post(
                    old,
                    new,
                    LIST_TYPE,
                    slice_seq(
                        old.elems(args[0]),
                        opt_value(a),
                        opt_value(b),
                        match opt_value(c) {
                            Some(s) => s,
                            None => 1,
                        },
                    ),
                    r,
                ),
            },
            _ => r == Err::<ObjRef, PyError>(PyError::TypeError(Culprits::One(args[1]))) && new == old,
        }
    }
}

/// Allocates a list object of type `t` holding `v`.
fn new_list(vm: &mut Vm, v: Vec<ObjRef>, t: usize) -> (r: PyResult)
    requires
        old(vm).wf(),
        t < old(vm).types.len(),
        forall|k: int| 0 <= k < v.len() ==> old(vm).valid(#[trigger] v@[k]),
    ensures
        final(vm).wf(),
        new_list_post(*old(vm), *final(vm), t, v@, r),
{
    let ghost vv = v@;
    let o = vm.new_object(Payload::List(v), t);
    Ok(o)
}

/// `len(list)`.
pub fn list_len(vm: &mut Vm, args: Vec<ObjRef>) -> (r: PyResult)
    requires
        old(vm).wf(),
        args_valid(*old(vm), args@),
    ensures
        final(vm).wf(),
        len_post(*old(vm), *final(vm), args@, r),
{
    if !list_receiver(vm, &args, 1) {
        return Err(arg_error_of(&args));
    }
    let n = get_elements(vm, args[0]).len();
    proof {
        lemma_no_later_superclass(vm.types@, INT_TYPE, LIST_TYPE);
    }
    let o = vm.new_object(Payload::Int(Int::from_usize(n)), INT_TYPE);
    Ok(o)
}

/// `list.__add__(list, other)`.
pub fn list_add(vm: &mut Vm, args: Vec<ObjRef>) -> (r: PyResult)
    requires
        old(vm).wf(),
        args_valid(*old(vm), args@),
    ensures
        final(vm).wf(),
        add_post(*old(vm), *final(vm), args@, r),
{
    if !list_receiver(vm, &args, 2) {
        return Err(arg_error_of(&args));
    }
    let other = args[1];
    if !(vm.isinstance_exec(other, LIST_TYPE) && is_list_exec(vm, other)) {
        return Err(PyError::TypeError(Culprits::Two(args[0], other)));
    }
    let mut elements = get_elements(vm, args[0]);
    let mut tail = get_elements(vm, other);
    elements.append(&mut tail);
    new_list(vm, elements, LIST_TYPE)
}

/// `list.__new__(cls[, iterable])`.
pub fn list_new(vm: &mut Vm, args: Vec<ObjRef>) -> (r: PyResult)
    requires
        old(vm).wf(),
        args_valid(*old(vm), args@),
    ensures
        final(vm).wf(),
        new_post(*old(vm), *final(vm), args@, r),
{
    let mut required: Vec<Option<usize>> = Vec::new();
    required.push(None);
    if !check_args(vm, &args, &required, 1) {
        return Err(arg_error_of(&args));
    }
    let cls = args[0];
    assert(vm.object_ok(vm.objects[cls as int]));
    let t = match &vm.objects[cls].payload {
        Payload::Type(t) => *t,
        _ => {
            return Err(PyError::TypeError(Culprits::One(cls)));
        },
    };
    if !vm.issubclass(t, LIST_TYPE) {
        return Err(PyError::TypeError(Culprits::One(cls)));
    }
    let elements = if args.len() == 2 {
        if !is_list_exec(vm, args[1]) {
            return Err(PyError::TypeError(Culprits::One(args[1])));
        }
        get_elements(vm, args[1])
    } else {
        Vec::new()
    };
    new_list(vm, elements, t)
}

/// `list.__getitem__(list, key)`.
pub fn list_getitem(vm: &mut Vm, args: Vec<ObjRef>) -> (r: PyResult)
    requires
        old(vm).wf(),
        args_valid(*old(vm), args@),
    ensures
        final(vm).wf(),
        getitem_post(*old(vm), *final(vm), args@, r),
{
    if !list_receiver(vm, &args, 2) {
        return Err(arg_error_of(&args));
    }
    let elements = get_elements(vm, args[0]);
    assert(vm.elems(args@[0]).len() == elements.len());
    let key = args[1];
    if vm.isinstance_exec(key, INT_TYPE) {
        match &vm.objects[key].payload {
            Payload::Int(v) => {
                return match v.to_i128() {
                    Some(i) => match get_pos(elements.len(), i) {
                        Some(j) => Ok(elements[j]),
                        None => Err(PyError::IndexError(Culprits::One(key))),
                    },
                    None => Err(PyError::IndexError(Culprits::One(key))),
                };
            },
            _ => {},
        }
    }
    if !vm.isinstance_exec(key, SLICE_TYPE) {
        return Err(PyError::TypeError(Culprits::One(key)));
    }
    let selected = match &vm.objects[key].payload {
        Payload::Slice(a, b, c) => match slice_elements(&elements, a, b, c) {
            Some(v) => v,
            None => return Err(PyError::ValueError(Culprits::One(key))),
        },
        _ => return Err(PyError::TypeError(Culprits::One(key))),
    };
    assert forall|k: int| 0 <= k < selected.len() implies vm.valid(#[trigger] selected@[k]) by {
        assert(elements@.contains(selected@[k]));
    }
    new_list(vm, selected, LIST_TYPE)
}

/// `list[key] = value`: with a key that is an instance of int, the element at the resolved
/// position becomes `value` and nothing else changes; a key outside the list
/// is an index error and any other key a type error, both
/// naming the key and changing nothing.
pub open spec fn setitem_post(old: Vm, new: Vm, args: Seq<ObjRef>, r: PyResult) -> bool {
    if !list_call_ok(old, args, 3) {
        r == Err::<ObjRef, PyError>(arg_error(args)) && new == old
    } else {
        match old.objects[args[1] as int].payload {
            Payload::Int(v) if old.isinstance(args[1], INT_TYPE) => match resolve_index(
                old.elems(args[0]).len() as int,
                v.value(),
            ) {
                Some(j) => r == Ok::<ObjRef, PyError>(NONE_OBJ) && only_list_changed(
                    old,
                    new,
                    args[0],
                    old.elems(args[0]).update(j, args[2]),
                ),
                None => r == Err::<ObjRef, PyError>(PyError::IndexError(Culprits::One(args[1])))
                    && new == old,
            },
            _ => r == Err::<ObjRef, PyError>(PyError::TypeError(Culprits::One(args[1]))) && new == old,
        }
    }
}

/// `list.__setitem__(list, key, value)`.
pub fn list_setitem(vm: &mut Vm, args: Vec<ObjRef>) -> (r: PyResult)
    requires
        old(vm).wf(),
        args_valid(*old(vm), args@),
    ensures
        final(vm).wf(),
        setitem_post(*old(vm), *final(vm), args@, r),
{
    if !list_receiver(vm, &args, 3) {
        return Err(arg_error_of(&args));
    }
    let list = args[0];
    let key = args[1];
    let value = args[2];
    let n = get_elements(vm, list).len();
    if !vm.isinstance_exec(key, INT_TYPE) {
        return Err(PyError::TypeError(Culprits::One(key)));
    }
    let pos = match &vm.objects[key].payload {
        Payload::Int(v) => match v.to_i128() {
            Some(i) => match get_pos(n, i) {
                Some(j) => j,
                None => return Err(PyError::IndexError(Culprits::One(key))),
            },
            None => return Err(PyError::IndexError(Culprits::One(key))),
        },
        _ => return Err(PyError::TypeError(Culprits::One(key))),
    };
    let mut elements = take_list(vm, list);
    elements.set(pos, value);
    put_list(vm, list, elements);
    Ok(NONE_OBJ)
}

/// Stores `obj` at position `idx` of `l`, resolved as for indexing; an index
/// that is not an instance of int is a type error, one outside `l` an index
/// error, and `l` is then unchanged.
pub fn set_item(vm: &Vm, l: &mut Vec<ObjRef>, idx: ObjRef, obj: ObjRef) -> (r: PyResult)
    requires
        vm.wf(),
        vm.valid(idx),
    ensures
        match vm.objects[idx as int].payload {
            Payload::Int(v) if vm.isinstance(idx, INT_TYPE) => match resolve_index(old(l).len() as int, v.value()) {
                Some(j) => r == Ok::<ObjRef, PyError>(NONE_OBJ) && final(l)@ == old(l)@.update(j, obj),
                None => r == Err::<ObjRef, PyError>(PyError::IndexError(Culprits::One(idx))) && final(l)@ == old(l)@,
            },
            _ => r == Err::<ObjRef, PyError>(PyError::TypeError(Culprits::One(idx))) && final(l)@ == old(l)@,
        },
{
    if !vm.isinstance_exec(idx, INT_TYPE) {
        return Err(PyError::TypeError(Culprits::One(idx)));
    }
    match &vm.objects[idx].payload {
        Payload::Int(v) => match v.to_i128() {
            Some(i) => match get_pos(l.len(), i) {
                Some(j) => {
                    l.set(j, obj);
                    Ok(NONE_OBJ)
                },
                None => Err(PyError::IndexError(Culprits::One(idx))),
            },
            None => Err(PyError::IndexError(Culprits::One(idx))),
        },
        _ => Err(PyError::TypeError(Culprits::One(idx))),
    }
}

/// `repr(list)`: a new string object holding the list's rendering; a failing
/// element rendering propagates its error and allocates nothing.
pub open spec fn repr_post(old: Vm, new: Vm, args: Seq<ObjRef>, depth: nat, r: PyResult) -> bool {
    if !list_call_ok(old, args, 1) {
        r == Err::<ObjRef, PyError>(arg_error(args)) && new == old
    } else {
        match repr_spec(old, args[0], depth) {
            Ok(s) => {
                &&& r == Ok::<ObjRef, PyError>(old.objects.len() as ObjRef)
                &&& appended_one(old, new)
                &&& new.objects[old.objects.len() as int].typ == STR_TYPE
                &&& new.objects[old.objects.len() as int].payload matches Payload::Str(x) && x@ == s
            },
            Err(e) => r == Err::<ObjRef, PyError>(e) && new == old,
        }
    }
}

/// `list.__repr__(list)`.
pub fn list_repr(vm: &mut Vm, args: Vec<ObjRef>, depth: usize) -> (r: PyResult)
    requires
        old(vm).wf(),
        args_valid(*old(vm), args@),
    ensures
        final(vm).wf(),
        repr_post(*old(vm), *final(vm), args@, depth as nat, r),
{
    if !list_receiver(vm, &args, 1) {
        return Err(arg_error_of(&args));
    }
    match to_repr(vm, args[0], depth) {
        Ok(s) => {
            proof {
                lemma_no_later_superclass(vm.types@, STR_TYPE, LIST_TYPE);
            }
            let o = vm.new_object(Payload::Str(s), STR_TYPE);
            Ok(o)
        },
        Err(e) => Err(e),
    }
}

/// Binds the list type's native routines under their guest-visible names.
/// Nothing else changes: the list type keeps its name, its bases and its
/// bindings of other names, and every other type and object is untouched.
pub fn init(vm: &mut Vm)
    requires
        old(vm).wf(),
    ensures
        final(vm).wf(),
        final(vm).objects == old(vm).objects,
        final(vm).types.len() == old(vm).types.len(),
        forall|u: int| 0 <= u < final(vm).types.len() && u != LIST_TYPE ==> final(vm).types[u] == old(vm).types[u],
        final(vm).types[LIST_TYPE as int].name == old(vm).types[LIST_TYPE as int].name,
        final(vm).types[LIST_TYPE as int].bases == old(vm).types[LIST_TYPE as int].bases,
        forall|n: Seq<char>|
            is_list_method_name(n) || final(vm).own_attr(LIST_TYPE, n) == old(vm).own_attr(LIST_TYPE, n),
        final(vm).lookup(LIST_TYPE, "__add__"@) == Some(Callable::Native(Native::ListAdd)),
        final(vm).lookup(LIST_TYPE, "__contains__"@) == Some(Callable::Native(Native::ListContains)),
        final(vm).lookup(LIST_TYPE, "__eq__"@) == Some(Callable::Native(Native::ListEq)),
        final(vm).lookup(LIST_TYPE, "__getitem__"@) == Some(Callable::Native(Native::ListGetItem)),
        final(vm).lookup(LIST_TYPE, "__setitem__"@) == Some(Callable::Native(Native::ListSetItem)),
        final(vm).lookup(LIST_TYPE, "__len__"@) == Some(Callable::Native(Native::ListLen)),
        final(vm).lookup(LIST_TYPE, "__new__"@) == Some(Callable::Native(Native::ListNew)),
        final(vm).lookup(LIST_TYPE, "__repr__"@) == Some(Callable::Native(Native::ListRepr)),
        final(vm).lookup(LIST_TYPE, "append"@) == Some(Callable::Native(Native::ListAppend)),
        final(vm).lookup(LIST_TYPE, "clear"@) == Some(Callable::Native(Native::ListClear)),
        final(vm).lookup(LIST_TYPE, "extend"@) == Some(Callable::Native(Native::ListExtend)),
        final(vm).lookup(LIST_TYPE, "reverse"@) == Some(Callable::Native(Native::ListReverse)),
{
    proof {
        reveal_strlit("__add__");
        reveal_strlit("__contains__");
        reveal_strlit("__eq__");
        reveal_strlit("__getitem__");
        reveal_strlit("__setitem__");
        reveal_strlit("__len__");
        reveal_strlit("__new__");
        reveal_strlit("__repr__");
        reveal_strlit("append");
        reveal_strlit("clear");
        reveal_strlit("extend");
        reveal_strlit("reverse");
        assert("__add__"@.len() == 7);
        assert("__contains__"@.len() == 12);
        assert("__eq__"@.len() == 6);
        assert("__getitem__"@.len() == 11);
        assert("__setitem__"@.len() == 11);
        assert("__len__"@.len() == 7);
        assert("__new__"@.len() == 7);
        assert("__repr__"@.len() == 8);
        assert("append"@.len() == 6);
        assert("clear"@.len() == 5);
        assert("extend"@.len() == 6);
        assert("reverse"@.len() == 7);
        assert("__add__"@[2] != "__len__"@[2]);
        assert("__add__"@[2] != "__new__"@[2]);
        assert("__add__"@[0] != "reverse"@[0]);
        assert("__eq__"@[0] != "append"@[0]);
        assert("__eq__"@[0] != "extend"@[0]);
        assert("__getitem__"@[2] != "__setitem__"@[2]);
        assert("__len__"@[2] != "__new__"@[2]);
        assert("__len__"@[0] != "reverse"@[0]);
        assert("__new__"@[0] != "reverse"@[0]);
        assert("append"@[0] != "extend"@[0]);
    }
    vm.set_attr(LIST_TYPE, String::from_str("__add__"), Callable::Native(Native::ListAdd));
    vm.set_attr(LIST_TYPE, String::from_str("__contains__"), Callable::Native(Native::ListContains));
    vm.set_attr(LIST_TYPE, String::from_str("__eq__"), Callable::Native(Native::ListEq));
    vm.set_attr(LIST_TYPE, String::from_str("__getitem__"), Callable::Native(Native::ListGetItem));
    vm.set_attr(LIST_TYPE, String::from_str("__setitem__"), Callable::Native(Native::ListSetItem));
    vm.set_attr(LIST_TYPE, String::from_str("__len__"), Callable::Native(Native::ListLen));
    vm.set_attr(LIST_TYPE, String::from_str("__new__"), Callable::Native(Native::ListNew));
    vm.set_attr(LIST_TYPE, String::from_str("__repr__"), Callable::Native(Native::ListRepr));
    vm.set_attr(LIST_TYPE, String::from_str("append"), Callable::Native(Native::ListAppend));
    vm.set_attr(LIST_TYPE, String::from_str("clear"), Callable::Native(Native::ListClear));
    vm.set_attr(LIST_TYPE, String::from_str("extend"), Callable::Native(Native::ListExtend));
    vm.set_attr(LIST_TYPE, String::from_str("reverse"), Callable::Native(Native::ListReverse));
}

/// The names that `init` binds on the list type.
pub open spec fn is_list_method_name(n: Seq<char>) -> bool {
    ||| n == "__add__"@
    ||| n == "__contains__"@
    ||| n == "__eq__"@
    ||| n == "__getitem__"@
    ||| n == "__setitem__"@
    ||| n == "__len__"@
    ||| n == "__new__"@
    ||| n == "__repr__"@
    ||| n == "append"@
    ||| n == "clear"@
    ||| n == "extend"@
    ||| n == "reverse"@
}

} // verus!
