use crate::dispatch::{args_valid, eq_name, eq_spec};
use crate::object::{Callable, Culprits, ObjRef, PyError, PyResult, Vm, INT_TYPE, LIST_TYPE};
use crate::objlist::{
    add_post, append_post, clear_post, extend_post, getitem_post, list_call_ok, list_eq_spec,
    new_ok, new_post, reverse_post, seq_eq_from,
};
use vstd::arithmetic::div_mod::lemma_fundamental_div_mod_converse_mod;
use vstd::prelude::*;

verus! {

/// Every instance of the list type holds a list payload.
pub proof fn lemma_list_instance_holds_list(vm: Vm, o: ObjRef)
    requires
        vm.wf(),
        vm.valid(o),
        vm.isinstance(o, LIST_TYPE),
    ensures
        vm.is_list(o),
{
    assert(vm.object_ok(vm.objects[o as int]));
}

/// Indexing with `i` in `[-n, n)` and with `i mod n` addresses the same
/// element of a list of length `n`.
pub proof fn lemma_index_normalization(
    vm: Vm,
    l: ObjRef,
    a: ObjRef,
    b: ObjRef,
    vm_a: Vm,
    r_a: PyResult,
    vm_b: Vm,
    r_b: PyResult,
)
    requires
        vm.wf(),
        vm.valid(l),
        vm.valid(a),
        vm.valid(b),
        vm.isinstance(l, LIST_TYPE),
        vm.isinstance(a, INT_TYPE) && vm.objects[a as int].payload is Int,
        vm.isinstance(b, INT_TYPE) && vm.objects[b as int].payload is Int,
        -vm.elems(l).len() <= vm.objects[a as int].payload->Int_0.value() < vm.elems(l).len(),
        vm.objects[b as int].payload->Int_0.value()
            == vm.objects[a as int].payload->Int_0.value() % (vm.elems(l).len() as int),
        getitem_post(vm, vm_a, seq![l, a], r_a),
        getitem_post(vm, vm_b, seq![l, b], r_b),
    ensures
        r_a is Ok,
        r_a == r_b,
{
    lemma_list_instance_holds_list(vm, l);
    let n = vm.elems(l).len() as int;
    let i = vm.objects[a as int].payload->Int_0.value();
    if i < 0 {
        lemma_fundamental_div_mod_converse_mod(i, n, -1, i + n);
    } else {
        lemma_fundamental_div_mod_converse_mod(i, n, 0, i);
    }
}

/// Indexing a list of length `n` with `i >= n` or `i < -n` is an index error.
pub proof fn lemma_index_out_of_range(vm: Vm, l: ObjRef, a: ObjRef, vm_a: Vm, r_a: PyResult)
    requires
        vm.wf(),
        vm.valid(l),
        vm.valid(a),
        vm.isinstance(l, LIST_TYPE),
        vm.isinstance(a, INT_TYPE) && vm.objects[a as int].payload is Int,
        vm.objects[a as int].payload->Int_0.value() >= vm.elems(l).len()
            || vm.objects[a as int].payload->Int_0.value() < -vm.elems(l).len(),
        getitem_post(vm, vm_a, seq![l, a], r_a),
    ensures
        r_a == Err::<ObjRef, PyError>(PyError::IndexError(Culprits::One(a))),
        vm_a == vm,
{
    lemma_list_instance_holds_list(vm, l);
}

proof fn lemma_pairwise_equal_from(vm: Vm, xs: Seq<ObjRef>, ys: Seq<ObjRef>, i: int, depth: nat)
    requires
        xs.len() == ys.len(),
        0 <= i <= xs.len(),
        xs.len() > 0 ==> depth > 0,
        forall|k: int| 0 <= k < xs.len() ==> eq_spec(vm, #[trigger] xs[k], ys[k], (depth - 1) as nat) == Ok::<bool, PyError>(true),
    ensures
        seq_eq_from(vm, xs, ys, i, depth) == Ok::<bool, PyError>(true),
    decreases xs.len() - i,
{
    if i < xs.len() {
        lemma_pairwise_equal_from(vm, xs, ys, i + 1, depth);
    }
}

/// Two lists of equal length whose elements compare equal pairwise, each by
/// its own `__eq__`, compare equal.
pub proof fn lemma_pairwise_equal_lists(vm: Vm, a: ObjRef, b: ObjRef, depth: nat)
    requires
        vm.wf(),
        vm.valid(a),
        vm.valid(b),
        vm.isinstance(a, LIST_TYPE),
        vm.isinstance(b, LIST_TYPE),
        vm.elems(a).len() == vm.elems(b).len(),
        vm.elems(a).len() > 0 ==> depth > 0,
        forall|k: int|
            0 <= k < vm.elems(a).len() ==> eq_spec(vm, #[trigger] vm.elems(a)[k], vm.elems(b)[k], (depth - 1) as nat)
                == Ok::<bool, PyError>(true),
    ensures
        list_eq_spec(vm, seq![a, b], depth) == Ok::<bool, PyError>(true),
{
    lemma_list_instance_holds_list(vm, a);
    lemma_list_instance_holds_list(vm, b);
    lemma_pairwise_equal_from(vm, vm.elems(a), vm.elems(b), 0, depth);
}

/// An element type's own `__eq__` is honoured: when every element of `a`
/// resolves `__eq__` to a callable that returns a true value, `a` equals
/// every list of its length, whatever that list holds.
pub proof fn lemma_element_override_honoured(vm: Vm, a: ObjRef, b: ObjRef, depth: nat)
    requires
        vm.wf(),
        vm.valid(a),
        vm.valid(b),
        vm.isinstance(a, LIST_TYPE),
        vm.isinstance(b, LIST_TYPE),
        vm.elems(a).len() == vm.elems(b).len(),
        depth > 0,
        forall|k: int|
            0 <= k < vm.elems(a).len() ==> ((#[trigger] vm.lookup(vm.type_of(vm.elems(a)[k]), eq_name()))
                matches Some(Callable::Constant(o)) && vm.truthy(o)),
    ensures
        list_eq_spec(vm, seq![a, b], depth) == Ok::<bool, PyError>(true),
{
    lemma_list_instance_holds_list(vm, a);
    lemma_list_instance_holds_list(vm, b);
    assert forall|k: int| 0 <= k < vm.elems(a).len() implies eq_spec(
        vm,
        #[trigger] vm.elems(a)[k],
        vm.elems(b)[k],
        (depth - 1) as nat,
    ) == Ok::<bool, PyError>(true) by {
        assert(vm.lookup(vm.type_of(vm.elems(a)[k]), eq_name()) matches Some(Callable::Constant(o))
            && vm.truthy(o));
    }
    lemma_pairwise_equal_lists(vm, a, b, depth);
}

/// Lists of different lengths never compare equal, whatever they hold.
pub proof fn lemma_lengths_differ(vm: Vm, a: ObjRef, b: ObjRef, depth: nat)
    requires
        vm.wf(),
        vm.valid(a),
        vm.valid(b),
        vm.isinstance(a, LIST_TYPE),
        vm.isinstance(b, LIST_TYPE),
        vm.elems(a).len() != vm.elems(b).len(),
    ensures
        list_eq_spec(vm, seq![a, b], depth) == Ok::<bool, PyError>(false),
{
    lemma_list_instance_holds_list(vm, a);
    lemma_list_instance_holds_list(vm, b);
}

/// A list built from a source holds the source's elements in the source's
/// order, and indexing it at `j` gives the source's element `j`.
pub proof fn lemma_construction_keeps_order(
    old: Vm,
    new: Vm,
    args: Seq<ObjRef>,
    r: PyResult,
    idx: ObjRef,
    after: Vm,
    item: PyResult,
)
    requires
        old.wf(),
        args_valid(old, args),
        args.len() == 2,
        new_ok(old, args),
        new_post(old, new, args, r),
        new.valid(idx),
        new.isinstance(idx, INT_TYPE) && new.objects[idx as int].payload is Int,
        0 <= new.objects[idx as int].payload->Int_0.value() < old.elems(args[1]).len(),
        getitem_post(new, after, seq![old.objects.len() as ObjRef, idx], item),
    ensures
        r == Ok::<ObjRef, PyError>(old.objects.len() as ObjRef),
        new.elems(old.objects.len() as ObjRef) == old.elems(args[1]),
        item == Ok::<ObjRef, PyError>(
            old.elems(args[1])[new.objects[idx as int].payload->Int_0.value()],
        ),
{
    let o = old.objects.len() as ObjRef;
    let t = old.objects[args[0] as int].payload->Type_0;
    assert(new.types == old.types);
    assert(new.subclass(t, LIST_TYPE) == old.subclass(t, LIST_TYPE));
    assert(new.isinstance(o, LIST_TYPE));
}

/// Clearing twice leaves the same empty list as clearing once.
pub proof fn lemma_clear_twice(v0: Vm, v1: Vm, v2: Vm, l: ObjRef, r1: PyResult, r2: PyResult)
    requires
        v0.wf(),
        v0.valid(l),
        v0.isinstance(l, LIST_TYPE),
        clear_post(v0, v1, seq![l], r1),
        clear_post(v1, v2, seq![l], r2),
    ensures
        r1 == r2,
        v1.elems(l) == Seq::<ObjRef>::empty(),
        v2.elems(l) == v1.elems(l),
        v2.types == v1.types,
        v2.objects.len() == v1.objects.len(),
        forall|p: int| 0 <= p < v1.objects.len() && p != l ==> v2.objects[p] == v1.objects[p],
        v2.objects[l as int].typ == v1.objects[l as int].typ,
{
    lemma_list_instance_holds_list(v0, l);
    assert(v1.isinstance(l, LIST_TYPE));
}

/// Reversing twice restores the order the list had before.
pub proof fn lemma_reverse_twice(v0: Vm, v1: Vm, v2: Vm, l: ObjRef, r1: PyResult, r2: PyResult)
    requires
        v0.wf(),
        v0.valid(l),
        v0.isinstance(l, LIST_TYPE),
        reverse_post(v0, v1, seq![l], r1),
        reverse_post(v1, v2, seq![l], r2),
    ensures
        r1 == r2,
        v2.elems(l) == v0.elems(l),
        v2.types == v0.types,
        v2.objects.len() == v0.objects.len(),
        forall|p: int| 0 <= p < v0.objects.len() && p != l ==> v2.objects[p] == v0.objects[p],
        v2.objects[l as int].typ == v0.objects[l as int].typ,
{
    lemma_list_instance_holds_list(v0, l);
    assert(v1.isinstance(l, LIST_TYPE));
    assert(v2.elems(l) =~= v0.elems(l));
}

/// State `k + 1` is state `k` after `append(xs[k])` on list `s`, with result `rs[k]`.
pub open spec fn append_step(states: Seq<Vm>, rs: Seq<PyResult>, s: ObjRef, xs: Seq<ObjRef>, k: int) -> bool {
    append_post(states[k], states[k + 1], seq![s, xs[k]], rs[k])
}

proof fn lemma_appends_prefix(v0: Vm, states: Seq<Vm>, rs: Seq<PyResult>, s: ObjRef, xs: Seq<ObjRef>, j: int)
    requires
        v0.wf(),
        v0.valid(s),
        list_call_ok(v0, seq![s, s], 2),
        states.len() == xs.len() + 1,
        rs.len() == xs.len(),
        states[0] == v0,
        forall|k: int| 0 <= k < xs.len() ==> #[trigger] append_step(states, rs, s, xs, k),
        0 <= j <= xs.len(),
    ensures
        states[j].elems(s) == v0.elems(s) + xs.subrange(0, j),
        states[j].types == v0.types,
        states[j].objects.len() == v0.objects.len(),
        states[j].is_list(s),
        states[j].objects[s as int].typ == v0.objects[s as int].typ,
    decreases j,
{
    if j == 0 {
        assert(xs.subrange(0, 0) =~= Seq::<ObjRef>::empty());
        assert(v0.elems(s) + xs.subrange(0, 0) =~= v0.elems(s));
    } else {
        lemma_appends_prefix(v0, states, rs, s, xs, j - 1);
        let prev = states[j - 1];
        assert(prev.isinstance(s, LIST_TYPE) == v0.isinstance(s, LIST_TYPE));
        assert(append_step(states, rs, s, xs, j - 1));
        assert(list_call_ok(prev, seq![s, xs[j - 1]], 2));
        assert(v0.elems(s) + xs.subrange(0, j) =~= (v0.elems(s) + xs.subrange(0, j - 1)).push(xs[j - 1]));
    }
}

/// Extending a list by an iterable leaves it holding what appending the
/// iterable's elements one by one, in order, would leave.
pub proof fn lemma_extend_is_repeated_append(
    v0: Vm,
    ext: Vm,
    r: PyResult,
    states: Seq<Vm>,
    rs: Seq<PyResult>,
    s: ObjRef,
    src: ObjRef,
)
    requires
        v0.wf(),
        v0.valid(s),
        v0.valid(src),
        v0.isinstance(s, LIST_TYPE),
        v0.is_list(src),
        extend_post(v0, ext, seq![s, src], r),
        states.len() == v0.elems(src).len() + 1,
        rs.len() == v0.elems(src).len(),
        states[0] == v0,
        forall|k: int| 0 <= k < v0.elems(src).len() ==> #[trigger] append_step(states, rs, s, v0.elems(src), k),
    ensures
        ext.elems(s) == states.last().elems(s),
{
    lemma_list_instance_holds_list(v0, s);
    let xs = v0.elems(src);
    assert(list_call_ok(v0, seq![s, s], 2));
    lemma_appends_prefix(v0, states, rs, s, xs, xs.len() as int);
    assert(xs.subrange(0, xs.len() as int) =~= xs);
}

/// Concatenation changes neither operand and gives a new list of the summed
/// length: the left operand's elements, then the right's.
pub proof fn lemma_concat(old: Vm, new: Vm, a: ObjRef, b: ObjRef, r: PyResult)
    requires
        old.wf(),
        old.valid(a),
        old.valid(b),
        old.isinstance(a, LIST_TYPE),
        old.isinstance(b, LIST_TYPE),
        add_post(old, new, seq![a, b], r),
    ensures
        r == Ok::<ObjRef, PyError>(old.objects.len() as ObjRef),
        new.objects[a as int] == old.objects[a as int],
        new.objects[b as int] == old.objects[b as int],
        new.elems(old.objects.len() as ObjRef).len() == old.elems(a).len() + old.elems(b).len(),
        new.elems(old.objects.len() as ObjRef) == old.elems(a) + old.elems(b),
{
    lemma_list_instance_holds_list(old, a);
    lemma_list_instance_holds_list(old, b);
}

} // verus!
