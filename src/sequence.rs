use crate::bignum::{magnitude, Int};
use crate::object::ObjRef;
use vstd::prelude::*;

verus! {

/// Position resolution: a non-negative index stands as it is, a negative one
/// counts from the end; anything outside `[0, len)` after that is out of range.
pub open spec fn resolve_index(len: int, i: int) -> Option<int> {
    let j = if i < 0 {
        len + i
    } else {
        i
    };
    if 0 <= j < len {
        Some(j)
    } else {
        None
    }
}

/// Resolves index `i` against a sequence of length `len`.
pub fn get_pos(len: usize, i: i128) -> (r: Option<usize>)
    ensures
        r == (match resolve_index(len as int, i as int) {
            Some(j) => Some(j as usize),
            None => None,
        }),
{
    let n = len as i128;
    let j: i128 = if i < 0 {
        if i < -n {
            return None;
        }
        n + i
    } else {
        i
    };
    if j < n {
        Some(j as usize)
    } else {
        None
    }
}

/// The value of an optional slice component.
pub open spec fn opt_value(v: Option<Int>) -> Option<int> {
    match v {
        Some(x) => Some(x.value()),
        None => None,
    }
}

/// A slice endpoint: `default` when absent; otherwise a negative value
/// counts from the end, and the result is clamped to `[lo, hi]`.
pub open spec fn slice_endpoint(v: Option<int>, len: int, default: int, lo: int, hi: int) -> int {
    match v {
        None => default,
        Some(x) => {
            let y = if x < 0 {
                x + len
            } else {
                x
            };
            if y < lo {
                lo
            } else if y > hi {
                hi
            } else {
                y
            }
        },
    }
}

/// The elements at `i`, `i + step`, ... strictly before `stop` in the
/// direction of `step`.
pub open spec fn slice_from(xs: Seq<ObjRef>, i: int, stop: int, step: int) -> Seq<ObjRef>
    decreases (if step > 0 && i < stop {
        stop - i
    } else if step < 0 && i > stop {
        i - stop
    } else {
        0
    }),
{
    if (step > 0 && i < stop) || (step < 0 && i > stop) {
        seq![xs[i]] + slice_from(xs, i + step, stop, step)
    } else {
        Seq::empty()
    }
}

/// The sub-sequence that a slice with the given start, stop and non-zero
/// step selects from `xs`; a negative step walks backwards from the end.
pub open spec fn slice_seq(xs: Seq<ObjRef>, start: Option<int>, stop: Option<int>, step: int) -> Seq<ObjRef> {
    let len = xs.len() as int;
    if step > 0 {
        slice_from(xs, slice_endpoint(start, len, 0, 0, len), slice_endpoint(stop, len, len, 0, len), step)
    } else {
        slice_from(
            xs,
            slice_endpoint(start, len, len - 1, -1, len - 1),
            slice_endpoint(stop, len, -1, -1, len - 1),
            step,
        )
    }
}

proof fn lemma_magnitude_nonneg(d: Seq<u32>)
    ensures
        magnitude(d) >= 0,
    decreases d.len(),
{
    if d.len() > 0 {
        lemma_magnitude_nonneg(d.drop_first());
    }
}

fn endpoint(v: &Option<Int>, len: usize, default: i128, lo: i128, hi: i128) -> (r: i128)
    requires
        lo <= hi,
        -1 <= lo,
        hi <= len,
    ensures
        r == slice_endpoint(opt_value(*v), len as int, default as int, lo as int, hi as int),
{
    match v {
        None => default,
        Some(x) => match x.to_i128() {
            Some(y) => {
                let z = if y < 0 {
                    y + len as i128
                } else {
                    y
                };
                if z < lo {
                    lo
                } else if z > hi {
                    hi
                } else {
                    z
                }
            },
            None => {
                proof {
                    lemma_magnitude_nonneg(x.digits@);
                }
                if x.negative {
                    lo
                } else {
                    hi
                }
            },
        },
    }
}

proof fn lemma_far_step(xs: Seq<ObjRef>, i: int, stop: int, s1: int, s2: int)
    requires
        (s1 > 0 && s2 > 0 && s1 >= stop - i && s2 >= stop - i) || (s1 < 0 && s2 < 0 && s1 <= stop - i && s2
            <= stop - i),
    ensures
        slice_from(xs, i, stop, s1) == slice_from(xs, i, stop, s2),
{
    assert(slice_from(xs, i + s1, stop, s1) =~= Seq::<ObjRef>::empty());
    assert(slice_from(xs, i + s2, stop, s2) =~= Seq::<ObjRef>::empty());
}

/// The elements of `xs` that the slice `(start, stop, step)` selects; a zero
/// step is a value error.
pub fn slice_elements(xs: &Vec<ObjRef>, start: &Option<Int>, stop: &Option<Int>, step: &Option<Int>) -> (r: Option<Vec<ObjRef>>)
    ensures
        match opt_value(*step) {
            Some(s) if s == 0 => r is None,
            _ => r matches Some(v) && v@ == slice_seq(
                xs@,
                opt_value(*start),
                opt_value(*stop),
                match opt_value(*step) {
                    Some(s) => s,
                    None => 1,
                },
            ),
        },
        r matches Some(v) ==> forall|k: int| 0 <= k < v.len() ==> xs@.contains(#[trigger] v@[k]),
{
    let len = xs.len();
    let n = len as i128;
    let ghost step_value: int = match opt_value(*step) {
        Some(s) => s,
        None => 1,
    };
    let step_i: i128 = match step {
        None => 1,
        Some(x) => match x.to_i128() {
            Some(0) => return None,
            Some(s) => s,
            None => {
                proof {
                    lemma_magnitude_nonneg(x.digits@);
                }
                if x.negative {
                    -n - 2
                } else {
                    n + 2
                }
            },
        },
    };
    let (first, last) = if step_i > 0 {
        (endpoint(start, len, 0, 0, n), endpoint(stop, len, n, 0, n))
    } else {
        (endpoint(start, len, n - 1, -1, n - 1), endpoint(stop, len, -1, -1, n - 1))
    };
    proof {
        if step_i as int != step_value {
            lemma_far_step(xs@, first as int, last as int, step_i as int, step_value);
        }
    }
    let mut out: Vec<ObjRef> = Vec::new();
    let mut i: i128 = first;
    while (step_i > 0 && i < last) || (step_i < 0 && i > last)
        invariant
            step_i != 0,
            -1 <= i <= n,
            -1 <= last <= n,
            forall|k: int| 0 <= k < out.len() ==> xs@.contains(#[trigger] out@[k]),
            n == xs.len(),
            step_i > 0 ==> 0 <= i,
            step_i < 0 ==> i <= n - 1,
            out@ + slice_from(xs@, i as int, last as int, step_i as int) == slice_from(
                xs@,
                first as int,
                last as int,
                step_i as int,
            ),
        decreases (if step_i > 0 {
            last - i
        } else {
            i - last
        }),
    {
        let ghost before = out@;
        out.push(xs[i as usize]);
        assert(xs@[i as int] == out@[out.len() - 1]);
        let ghost rest = slice_from(xs@, i + step_i, last as int, step_i as int);
        assert(before + (seq![xs@[i as int]] + rest) =~= out@ + rest);
        if step_i > 0 {
            if step_i >= last - i {
                assert(rest =~= Seq::<ObjRef>::empty());
                i = last;
            } else {
                i = i + step_i;
            }
        } else {
            if step_i <= last - i {
                assert(rest =~= Seq::<ObjRef>::empty());
                i = last;
            } else {
                i = i + step_i;
            }
        }
    }
    assert(out@ + Seq::<ObjRef>::empty() =~= out@);
    Some(out)
}

} // verus!
