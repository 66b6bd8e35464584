use crate::bignum::{decimal, Int};
use crate::object::{ObjRef, Payload, PyError, Vm};
use vstd::prelude::*;

verus! {

/// Rendering of an optional slice component.
pub open spec fn opt_repr(v: Option<Int>) -> Seq<char> {
    match v {
        Some(x) => decimal(x.value()),
        None => "None"@,
    }
}

/// Separator placed before the rendering of the element at position `i`.
pub open spec fn separator(i: int) -> Seq<char> {
    if i > 0 {
        ", "@
    } else {
        ""@
    }
}

/// The debug rendering of object `o`, with `depth` levels of nesting left:
/// lists render as bracketed, comma-separated renderings of their elements.
/// Rendering goes by payload; a `__repr__` bound on the object's type is not
/// consulted.
pub open spec fn repr_spec(vm: Vm, o: ObjRef, depth: nat) -> Result<Seq<char>, PyError>
    decreases depth, 1int, 0int,
{
    match vm.objects[o as int].payload {
        Payload::NoneValue => Ok("None"@),
        Payload::Bool(b) => Ok(
            if b {
                "True"@
            } else {
                "False"@
            },
        ),
        Payload::Int(v) => Ok(decimal(v.value())),
        Payload::Str(s) => Ok("'"@ + s@ + "'"@),
        Payload::Type(t) => Ok("<class '"@ + vm.types[t as int].name@ + "'>"@),
        Payload::Slice(a, b, c) => Ok(
            "slice("@ + opt_repr(a) + ", "@ + opt_repr(b) + ", "@ + opt_repr(c) + ")"@,
        ),
        Payload::List(v) => match reprs_from(vm, v@, 0, depth) {
            Ok(s) => Ok("["@ + s + "]"@),
            Err(e) => Err(e),
        },
    }
}

/// The renderings of `xs` from position `i` on, each after its separator,
/// one level of nesting deeper.
pub open spec fn reprs_from(vm: Vm, xs: Seq<ObjRef>, i: int, depth: nat) -> Result<Seq<char>, PyError>
    decreases depth, 0int, xs.len() - i,
{
    if i < 0 || i >= xs.len() {
        Ok(Seq::empty())
    } else if depth == 0 {
        Err(PyError::RecursionError)
    } else {
        match repr_spec(vm, xs[i], (depth - 1) as nat) {
            Err(e) => Err(e),
            Ok(s) => match reprs_from(vm, xs, i + 1, depth) {
                Err(e) => Err(e),
                Ok(rest) => Ok(separator(i) + s + rest),
            },
        }
    }
}

/// Renders object `o` for debugging.
pub fn to_repr(vm: &Vm, o: ObjRef, depth: usize) -> (r: Result<String, PyError>)
    requires
        vm.wf(),
        vm.valid(o),
    ensures
        match repr_spec(*vm, o, depth as nat) {
            Ok(s) => r matches Ok(x) && x@ == s,
            Err(e) => r == Err::<String, PyError>(e),
        },
    decreases depth, 1int, 0int,
{
    assert(vm.object_ok(vm.objects[o as int]));
    match &vm.objects[o].payload {
        Payload::NoneValue => Ok(String::from_str("None")),
        Payload::Bool(b) => Ok(
            if *b {
                String::from_str("True")
            } else {
                String::from_str("False")
            },
        ),
        Payload::Int(v) => Ok(v.to_decimal()),
        Payload::Str(s) => {
            let mut out = String::from_str("'");
            out.append(s.as_str());
            out.append("'");
            Ok(out)
        },
        Payload::Type(t) => {
            let mut out = String::from_str("<class '");
            out.append(vm.types[*t].name.as_str());
            out.append("'>");
            Ok(out)
        },
        Payload::Slice(a, b, c) => {
            let mut out = String::from_str("slice(");
            out.append(opt_to_repr(a).as_str());
            out.append(", ");
            out.append(opt_to_repr(b).as_str());
            out.append(", ");
            out.append(opt_to_repr(c).as_str());
            out.append(")");
            Ok(out)
        },
        Payload::List(v) => {
            match join_reprs(vm, v, depth) {
                Ok(inner) => {
                    let mut out = String::from_str("[");
                    out.append(inner.as_str());
                    out.append("]");
                    Ok(out)
                },
                Err(e) => Err(e),
            }
        },
    }
}

fn opt_to_repr(v: &Option<Int>) -> (r: String)
    ensures
        r@ == opt_repr(*v),
{
    match v {
        Some(x) => x.to_decimal(),
        None => String::from_str("None"),
    }
}

/// The comma-separated renderings of `xs`.
fn join_reprs(vm: &Vm, xs: &Vec<ObjRef>, depth: usize) -> (r: Result<String, PyError>)
    requires
        vm.wf(),
        forall|k: int| 0 <= k < xs.len() ==> vm.valid(#[trigger] xs@[k]),
    ensures
        match reprs_from(*vm, xs@, 0, depth as nat) {
            Ok(s) => r matches Ok(x) && x@ == s,
            Err(e) => r == Err::<String, PyError>(e),
        },
    decreases depth, 0int, 0int,
{
    let mut out = String::new();
    if xs.len() > 0 && depth == 0 {
        return Err(PyError::RecursionError);
    }
    let mut i: usize = 0;
    while i < xs.len()
        invariant
            vm.wf(),
            forall|k: int| 0 <= k < xs.len() ==> vm.valid(#[trigger] xs@[k]),
            0 <= i <= xs.len(),
            xs.len() > 0 ==> depth > 0,
            reprs_from(*vm, xs@, 0, depth as nat) == match reprs_from(*vm, xs@, i as int, depth as nat) {
                Ok(rest) => Ok(out@ + rest),
                Err(e) => Err(e),
            },
        decreases xs.len() - i,
    {
        let s = match to_repr(vm, xs[i], depth - 1) {
            Ok(s) => s,
            Err(e) => return Err(e),
        };
        let ghost before = out@;
        if i > 0 {
            out.append(", ");
        }
        out.append(s.as_str());
        proof {
            reveal_strlit(", ");
            reveal_strlit("");
            assert(out@ =~= before + separator(i as int) + s@);
            match reprs_from(*vm, xs@, i + 1, depth as nat) {
                Ok(rest) => {
                    assert(before + (separator(i as int) + s@ + rest) =~= out@ + rest);
                },
                Err(e) => {},
            }
        }
        i = i + 1;
    }
    Ok(out)
}

} // verus!
