use objmodel::bignum::Int;
use objmodel::dispatch::{call, call_eq, call_method, check_args};
use objmodel::object::{
    Callable, Culprits, Native, ObjRef, Payload, PyError, Vm, INT_TYPE, LIST_TYPE, NONE_OBJ, OBJECT_TYPE,
    SLICE_TYPE, STR_TYPE, TRUE_OBJ, FALSE_OBJ,
};
use objmodel::objlist::{
    get_elements, init, list_add, list_append, list_clear, list_contains, list_eq, list_extend,
    list_getitem, list_len, list_new, list_repr, list_reverse, list_setitem, set_item,
};
use objmodel::repr::to_repr;
use objmodel::sequence::get_pos;

const DEPTH: usize = 64;

fn boot() -> Vm {
    let mut vm = Vm::new();
    init(&mut vm);
    vm
}

fn new_int(vm: &mut Vm, x: i64) -> ObjRef {
    vm.new_object(Payload::Int(Int::from_i64(x)), INT_TYPE)
}

fn raw_list(vm: &mut Vm, xs: &[i64]) -> ObjRef {
    let mut elems = Vec::new();
    for &x in xs {
        elems.push(new_int(vm, x));
    }
    vm.new_object(Payload::List(elems), LIST_TYPE)
}

fn build(vm: &mut Vm, xs: &[i64]) -> ObjRef {
    let src = raw_list(vm, xs);
    let cls = vm.type_object(LIST_TYPE);
    list_new(vm, vec![cls, src]).unwrap()
}

fn int_value(vm: &Vm, o: ObjRef) -> String {
    match &vm.objects[o].payload {
        Payload::Int(v) => v.to_decimal(),
        _ => panic!("not an integer"),
    }
}

fn render(vm: &mut Vm, o: ObjRef) -> String {
    let r = list_repr(vm, vec![o], DEPTH).unwrap();
    match &vm.objects[r].payload {
        Payload::Str(s) => s.clone(),
        _ => panic!("not a string"),
    }
}

#[test]
fn build_index_and_length() {
    let mut vm = boot();
    let l = build(&mut vm, &[1, 2, 3]);
    let n = list_len(&mut vm, vec![l]).unwrap();
    assert_eq!(int_value(&vm, n), "3");
    let minus_one = new_int(&mut vm, -1);
    let last = list_getitem(&mut vm, vec![l, minus_one]).unwrap();
    assert_eq!(int_value(&vm, last), "3");
    let three = new_int(&mut vm, 3);
    assert_eq!(list_getitem(&mut vm, vec![l, three]), Err(PyError::IndexError(Culprits::One(three))));
}

#[test]
fn index_normalization_matches() {
    let mut vm = boot();
    let l = build(&mut vm, &[10, 20, 30]);
    for i in -3i64..3 {
        let a = new_int(&mut vm, i);
        let b = new_int(&mut vm, i.rem_euclid(3));
        let by_a = list_getitem(&mut vm, vec![l, a]);
        let by_b = list_getitem(&mut vm, vec![l, b]);
        assert_eq!(by_a, by_b);
    }
    let minus_four = new_int(&mut vm, -4);
    assert_eq!(list_getitem(&mut vm, vec![l, minus_four]), Err(PyError::IndexError(Culprits::One(minus_four))));
    let huge = vm.new_object(
        Payload::Int(Int { negative: false, digits: vec![0, 0, 0, 0, 1] }),
        INT_TYPE,
    );
    assert_eq!(list_getitem(&mut vm, vec![l, huge]), Err(PyError::IndexError(Culprits::One(huge))));
}

fn slice(vm: &mut Vm, a: Option<i64>, b: Option<i64>, c: Option<i64>) -> ObjRef {
    vm.new_object(
        Payload::Slice(a.map(Int::from_i64), b.map(Int::from_i64), c.map(Int::from_i64)),
        SLICE_TYPE,
    )
}

#[test]
fn slicing() {
    let mut vm = boot();
    let l = build(&mut vm, &[0, 1, 2, 3, 4, 5]);
    let cases: Vec<((Option<i64>, Option<i64>, Option<i64>), &str)> = vec![
        ((None, None, None), "[0, 1, 2, 3, 4, 5]"),
        ((Some(1), Some(4), None), "[1, 2, 3]"),
        ((Some(-2), None, None), "[4, 5]"),
        ((None, None, Some(2)), "[0, 2, 4]"),
        ((None, None, Some(-1)), "[5, 4, 3, 2, 1, 0]"),
        ((Some(4), Some(1), Some(-2)), "[4, 2]"),
        ((Some(-100), Some(100), None), "[0, 1, 2, 3, 4, 5]"),
        ((Some(3), Some(1), None), "[]"),
        ((None, None, Some(1_000_000_000_000)), "[0]"),
        ((None, None, Some(-1_000_000_000_000)), "[5]"),
    ];
    for ((a, b, c), expected) in cases {
        let key = slice(&mut vm, a, b, c);
        let r = list_getitem(&mut vm, vec![l, key]).unwrap();
        assert_eq!(render(&mut vm, r), expected);
    }
    assert_eq!(render(&mut vm, l), "[0, 1, 2, 3, 4, 5]");
    let zero_step = slice(&mut vm, None, None, Some(0));
    assert_eq!(list_getitem(&mut vm, vec![l, zero_step]), Err(PyError::ValueError(Culprits::One(zero_step))));
    let key = slice(&mut vm, Some(1), None, Some(-1));
    let s = vm.new_object(Payload::List(vec![key]), LIST_TYPE);
    assert_eq!(render(&mut vm, s), "[slice(1, None, -1)]");
}

#[test]
fn getitem_with_non_integer_index() {
    let mut vm = boot();
    let l = build(&mut vm, &[1]);
    assert_eq!(list_getitem(&mut vm, vec![l, l]), Err(PyError::TypeError(Culprits::One(l))));
}

#[test]
fn append_then_reverse() {
    let mut vm = boot();
    let l = build(&mut vm, &[1, 2, 3]);
    let four = new_int(&mut vm, 4);
    assert_eq!(list_append(&mut vm, vec![l, four]), Ok(NONE_OBJ));
    assert_eq!(render(&mut vm, l), "[1, 2, 3, 4]");
    assert_eq!(list_reverse(&mut vm, vec![l]), Ok(NONE_OBJ));
    assert_eq!(render(&mut vm, l), "[4, 3, 2, 1]");
}

#[test]
fn reverse_twice_restores() {
    let mut vm = boot();
    let l = build(&mut vm, &[5, 6, 7, 8]);
    let before = get_elements(&vm, l);
    list_reverse(&mut vm, vec![l]).unwrap();
    list_reverse(&mut vm, vec![l]).unwrap();
    assert_eq!(get_elements(&vm, l), before);
}

#[test]
fn clear_twice_is_empty() {
    let mut vm = boot();
    let l = build(&mut vm, &[1, 2]);
    list_clear(&mut vm, vec![l]).unwrap();
    assert!(get_elements(&vm, l).is_empty());
    list_clear(&mut vm, vec![l]).unwrap();
    assert!(get_elements(&vm, l).is_empty());
    assert_eq!(render(&mut vm, l), "[]");
}

#[test]
fn concat_is_new_and_leaves_operands() {
    let mut vm = boot();
    let a = build(&mut vm, &[1, 2]);
    let b = build(&mut vm, &[3]);
    let c = list_add(&mut vm, vec![a, b]).unwrap();
    assert_ne!(c, a);
    assert_eq!(render(&mut vm, c), "[1, 2, 3]");
    assert_eq!(render(&mut vm, a), "[1, 2]");
    assert_eq!(render(&mut vm, b), "[3]");
    let mut expected = get_elements(&vm, a);
    expected.extend(get_elements(&vm, b));
    assert_eq!(get_elements(&vm, c), expected);
}

#[test]
fn concat_with_non_list_fails() {
    let mut vm = boot();
    let a = build(&mut vm, &[1]);
    let x = new_int(&mut vm, 2);
    let before = vm.objects.len();
    assert_eq!(list_add(&mut vm, vec![a, x]), Err(PyError::TypeError(Culprits::Two(a, x))));
    assert_eq!(vm.objects.len(), before);
}

#[test]
fn membership() {
    let mut vm = boot();
    let l = build(&mut vm, &[1, 2, 3]);
    let two = new_int(&mut vm, 2);
    let nine = new_int(&mut vm, 9);
    assert_eq!(list_contains(&vm, vec![l, two], DEPTH), Ok(TRUE_OBJ));
    assert_eq!(list_contains(&vm, vec![l, nine], DEPTH), Ok(FALSE_OBJ));
}

#[test]
fn construction_on_non_list_type_fails() {
    let mut vm = boot();
    let cls = vm.type_object(INT_TYPE);
    let before = vm.objects.len();
    assert_eq!(list_new(&mut vm, vec![cls]), Err(PyError::TypeError(Culprits::One(cls))));
    assert_eq!(vm.objects.len(), before);
}

#[test]
fn construction_keeps_source_order() {
    let mut vm = boot();
    let src = raw_list(&mut vm, &[9, 8, 7]);
    let cls = vm.type_object(LIST_TYPE);
    let l = list_new(&mut vm, vec![cls, src]).unwrap();
    assert_eq!(get_elements(&vm, l), get_elements(&vm, src));
    let empty = list_new(&mut vm, vec![cls]).unwrap();
    assert!(get_elements(&vm, empty).is_empty());
    let x = new_int(&mut vm, 1);
    assert_eq!(list_new(&mut vm, vec![cls, x]), Err(PyError::TypeError(Culprits::One(x))));
}

#[test]
fn construction_of_subclass() {
    let mut vm = boot();
    let sub = vm.new_type(String::from("mylist"), vec![LIST_TYPE]);
    let cls = vm.type_object(sub);
    let l = list_new(&mut vm, vec![cls]).unwrap();
    assert_eq!(vm.objects[l].typ, sub);
    assert!(vm.isinstance_exec(l, LIST_TYPE));
    let one = new_int(&mut vm, 1);
    assert_eq!(call_method(&mut vm, l, &String::from("append"), vec![one], DEPTH), Ok(NONE_OBJ));
    assert_eq!(get_elements(&vm, l), vec![one]);
}

#[test]
fn extend_equals_repeated_append() {
    let mut vm = boot();
    let s1 = build(&mut vm, &[1]);
    let cls = vm.type_object(LIST_TYPE);
    let s2 = list_new(&mut vm, vec![cls, s1]).unwrap();
    let xs = build(&mut vm, &[2, 3, 4]);
    list_extend(&mut vm, vec![s1, xs]).unwrap();
    for x in get_elements(&vm, xs) {
        list_append(&mut vm, vec![s2, x]).unwrap();
    }
    assert_eq!(get_elements(&vm, s1), get_elements(&vm, s2));
    assert_eq!(render(&mut vm, s1), "[1, 2, 3, 4]");
}

#[test]
fn extend_by_itself_doubles() {
    let mut vm = boot();
    let l = build(&mut vm, &[1, 2]);
    list_extend(&mut vm, vec![l, l]).unwrap();
    assert_eq!(render(&mut vm, l), "[1, 2, 1, 2]");
    let x = new_int(&mut vm, 3);
    assert_eq!(list_extend(&mut vm, vec![l, x]), Err(PyError::TypeError(Culprits::One(x))));
}

#[test]
fn equality_by_dispatch() {
    let mut vm = boot();
    let a = build(&mut vm, &[1, 2, 3]);
    let b = build(&mut vm, &[1, 2, 3]);
    let c = build(&mut vm, &[1, 2]);
    let d = build(&mut vm, &[1, 2, 4]);
    assert_eq!(list_eq(&vm, vec![a, b], DEPTH), Ok(TRUE_OBJ));
    assert_eq!(list_eq(&vm, vec![a, c], DEPTH), Ok(FALSE_OBJ));
    assert_eq!(list_eq(&vm, vec![a, d], DEPTH), Ok(FALSE_OBJ));
    let x = new_int(&mut vm, 1);
    assert_eq!(list_eq(&vm, vec![a, x], DEPTH), Ok(FALSE_OBJ));
    assert_eq!(call_eq(&vm, a, b, DEPTH), Ok(true));
}

#[test]
fn equality_honours_element_override() {
    let mut vm = boot();
    let anything = vm.new_type(String::from("Anything"), vec![OBJECT_TYPE]);
    vm.set_attr(anything, String::from("__eq__"), Callable::Constant(TRUE_OBJ));
    let p = vm.new_object(Payload::NoneValue, anything);
    let q = vm.new_object(Payload::NoneValue, anything);
    let one = new_int(&mut vm, 1);
    let a = vm.new_object(Payload::List(vec![p]), LIST_TYPE);
    let b = vm.new_object(Payload::List(vec![q]), LIST_TYPE);
    let c = vm.new_object(Payload::List(vec![p, one]), LIST_TYPE);
    let d = vm.new_object(Payload::List(vec![one]), LIST_TYPE);
    assert_eq!(list_eq(&vm, vec![a, b], DEPTH), Ok(TRUE_OBJ));
    assert_eq!(list_eq(&vm, vec![a, d], DEPTH), Ok(TRUE_OBJ));
    assert_eq!(list_eq(&vm, vec![a, c], DEPTH), Ok(FALSE_OBJ));
    assert_eq!(list_eq(&vm, vec![d, a], DEPTH), Ok(FALSE_OBJ));
}

#[test]
fn equality_with_mutating_eq_binding_is_refused() {
    let mut vm = boot();
    let odd = vm.new_type(String::from("Odd"), vec![OBJECT_TYPE]);
    vm.set_attr(odd, String::from("__eq__"), Callable::Native(Native::ListAppend));
    let p = vm.new_object(Payload::NoneValue, odd);
    let a = vm.new_object(Payload::List(vec![p]), LIST_TYPE);
    let b = vm.new_object(Payload::List(vec![p]), LIST_TYPE);
    assert_eq!(list_eq(&vm, vec![a, b], DEPTH), Err(PyError::TypeError(Culprits::One(p))));
}

#[test]
fn nested_self_reference_hits_recursion_limit() {
    let mut vm = boot();
    let l = build(&mut vm, &[]);
    list_append(&mut vm, vec![l, l]).unwrap();
    assert_eq!(list_eq(&vm, vec![l, l], DEPTH), Err(PyError::RecursionError));
    assert_eq!(to_repr(&vm, l, DEPTH), Err(PyError::RecursionError));
    let r = list_repr(&mut vm, vec![l], 0);
    assert_eq!(r, Err(PyError::RecursionError));
}

#[test]
fn wrong_arity_and_receiver() {
    let mut vm = boot();
    let l = build(&mut vm, &[1]);
    let x = new_int(&mut vm, 1);
    assert_eq!(list_append(&mut vm, vec![l]), Err(PyError::TypeError(Culprits::One(l))));
    assert_eq!(list_append(&mut vm, vec![x, l]), Err(PyError::TypeError(Culprits::One(x))));
    assert_eq!(list_clear(&mut vm, vec![l, x]), Err(PyError::TypeError(Culprits::One(l))));
    assert_eq!(list_len(&mut vm, vec![x]), Err(PyError::TypeError(Culprits::One(x))));
}

#[test]
fn set_item_resolves_index() {
    let mut vm = boot();
    let a = new_int(&mut vm, 1);
    let b = new_int(&mut vm, 2);
    let c = new_int(&mut vm, 3);
    let mut l = vec![a, b];
    let minus_one = new_int(&mut vm, -1);
    assert_eq!(set_item(&vm, &mut l, minus_one, c), Ok(NONE_OBJ));
    assert_eq!(l, vec![a, c]);
    let two = new_int(&mut vm, 2);
    assert_eq!(set_item(&vm, &mut l, two, c), Err(PyError::IndexError(Culprits::One(two))));
    assert_eq!(set_item(&vm, &mut l, NONE_OBJ, c), Err(PyError::TypeError(Culprits::One(NONE_OBJ))));
    assert_eq!(l, vec![a, c]);
}

#[test]
fn methods_by_name() {
    let mut vm = boot();
    let l = build(&mut vm, &[1, 2]);
    let three = new_int(&mut vm, 3);
    call_method(&mut vm, l, &String::from("append"), vec![three], DEPTH).unwrap();
    let n = call_method(&mut vm, l, &String::from("__len__"), vec![], DEPTH).unwrap();
    assert_eq!(int_value(&vm, n), "3");
    let two = new_int(&mut vm, 2);
    assert_eq!(call_method(&mut vm, l, &String::from("__contains__"), vec![two], DEPTH), Ok(TRUE_OBJ));
    assert_eq!(
        call_method(&mut vm, l, &String::from("pop"), vec![], DEPTH),
        Err(PyError::AttributeError(Culprits::One(l)))
    );
    let eq = vm.get_attr(LIST_TYPE, &String::from("__eq__"));
    assert_eq!(eq, Some(Callable::Native(Native::ListEq)));
    let inherited = vm.get_attr(STR_TYPE, &String::from("__eq__"));
    assert_eq!(inherited, Some(Callable::Native(Native::ObjectEq)));
    assert_eq!(call(&mut vm, Callable::Constant(three), vec![], DEPTH), Ok(three));
}

#[test]
fn argument_checking() {
    let mut vm = boot();
    let l = build(&mut vm, &[]);
    let x = new_int(&mut vm, 0);
    assert!(check_args(&vm, &vec![l, x], &vec![Some(LIST_TYPE), None], 0));
    assert!(!check_args(&vm, &vec![x, l], &vec![Some(LIST_TYPE), None], 0));
    assert!(!check_args(&vm, &vec![l], &vec![Some(LIST_TYPE), None], 0));
    assert!(check_args(&vm, &vec![l], &vec![Some(LIST_TYPE)], 1));
    assert!(!check_args(&vm, &vec![l, x, x], &vec![Some(LIST_TYPE)], 1));
}

#[test]
fn subclass_checks() {
    let mut vm = boot();
    let sub = vm.new_type(String::from("sub"), vec![LIST_TYPE]);
    let subsub = vm.new_type(String::from("subsub"), vec![INT_TYPE, sub]);
    assert!(vm.issubclass(subsub, LIST_TYPE));
    assert!(vm.issubclass(subsub, OBJECT_TYPE));
    assert!(!vm.issubclass(LIST_TYPE, sub));
    assert!(vm.issubclass(sub, sub));
}

#[test]
fn position_resolution() {
    assert_eq!(get_pos(3, 0), Some(0));
    assert_eq!(get_pos(3, -1), Some(2));
    assert_eq!(get_pos(3, -3), Some(0));
    assert_eq!(get_pos(3, -4), None);
    assert_eq!(get_pos(3, 3), None);
    assert_eq!(get_pos(0, 0), None);
}

#[test]
fn integer_conversions() {
    let big = Int { negative: true, digits: vec![5, 1] };
    assert_eq!(big.to_decimal(), "-4294967301");
    assert_eq!(big.to_i128(), Some(-4294967301));
    assert_eq!(Int::from_i64(-7).to_i128(), Some(-7));
    assert_eq!(Int::from_usize(42).to_decimal(), "42");
    assert!(Int::from_i64(0).is_zero());
    assert!(!Int::from_i64(3).is_zero());
    assert!(Int::from_i64(12).same_value(&Int { negative: false, digits: vec![12] }));
    assert!(!Int::from_i64(12).same_value(&Int::from_i64(-12)));
    let too_big = Int { negative: false, digits: vec![0, 0, 0, 0, 1] };
    assert_eq!(too_big.to_i128(), None);
}

#[test]
fn rendering_of_values() {
    let mut vm = boot();
    let s = vm.new_object(Payload::Str(String::from("hi")), STR_TYPE);
    let t = vm.type_object(LIST_TYPE);
    let inner = build(&mut vm, &[-5]);
    let l = vm.new_object(Payload::List(vec![NONE_OBJ, TRUE_OBJ, FALSE_OBJ, s, t, inner]), LIST_TYPE);
    assert_eq!(render(&mut vm, l), "[None, True, False, 'hi', <class 'list'>, [-5]]");
}

#[test]
fn truthiness() {
    let mut vm = boot();
    let zero = new_int(&mut vm, 0);
    let empty = build(&mut vm, &[]);
    let full = build(&mut vm, &[0]);
    assert!(!vm.is_true(NONE_OBJ));
    assert!(!vm.is_true(zero));
    assert!(!vm.is_true(empty));
    assert!(vm.is_true(full));
    assert!(vm.is_true(TRUE_OBJ));
}

#[test]
fn setitem_by_dispatch() {
    let mut vm = boot();
    let l = build(&mut vm, &[1, 2, 3]);
    let key = new_int(&mut vm, -2);
    let value = new_int(&mut vm, 9);
    assert_eq!(
        call_method(&mut vm, l, &String::from("__setitem__"), vec![key, value], DEPTH),
        Ok(NONE_OBJ)
    );
    assert_eq!(render(&mut vm, l), "[1, 9, 3]");
    let far = new_int(&mut vm, 3);
    assert_eq!(
        list_setitem(&mut vm, vec![l, far, value]),
        Err(PyError::IndexError(Culprits::One(far)))
    );
    assert_eq!(
        list_setitem(&mut vm, vec![l, l, value]),
        Err(PyError::TypeError(Culprits::One(l)))
    );
    assert_eq!(list_setitem(&mut vm, vec![l, key]), Err(PyError::TypeError(Culprits::One(l))));
    assert_eq!(list_setitem(&mut vm, vec![]), Err(PyError::TypeError(Culprits::NoObject)));
    assert_eq!(render(&mut vm, l), "[1, 9, 3]");
}

#[test]
fn boot_binds_equality() {
    let vm = Vm::new();
    assert_eq!(
        vm.get_attr(OBJECT_TYPE, &String::from("__eq__")),
        Some(Callable::Native(Native::ObjectEq))
    );
    assert_eq!(
        vm.get_attr(INT_TYPE, &String::from("__eq__")),
        Some(Callable::Native(Native::IntEq))
    );
}

#[test]
fn init_keeps_other_bindings() {
    let mut vm = Vm::new();
    vm.set_attr(LIST_TYPE, String::from("sort"), Callable::Constant(NONE_OBJ));
    init(&mut vm);
    assert_eq!(
        vm.get_attr(LIST_TYPE, &String::from("sort")),
        Some(Callable::Constant(NONE_OBJ))
    );
    assert_eq!(
        vm.get_attr(LIST_TYPE, &String::from("__setitem__")),
        Some(Callable::Native(Native::ListSetItem))
    );
    assert_eq!(vm.types[LIST_TYPE].name, "list");
    assert_eq!(vm.types[LIST_TYPE].bases, vec![OBJECT_TYPE]);
}

#[test]
fn index_of_non_int_type_is_refused() {
    let mut vm = boot();
    let l = build(&mut vm, &[7]);
    let fake = vm.new_object(Payload::Int(Int::from_i64(0)), STR_TYPE);
    let value = new_int(&mut vm, 1);
    let mut elems = get_elements(&vm, l);
    let before = elems.clone();
    assert_eq!(set_item(&vm, &mut elems, fake, value), Err(PyError::TypeError(Culprits::One(fake))));
    assert_eq!(elems, before);
    assert_eq!(
        list_setitem(&mut vm, vec![l, fake, value]),
        Err(PyError::TypeError(Culprits::One(fake)))
    );
    assert_eq!(
        list_getitem(&mut vm, vec![l, fake]),
        Err(PyError::TypeError(Culprits::One(fake)))
    );
    assert_eq!(render(&mut vm, l), "[7]");
}
