use vstd::prelude::*;
use crate::field::{lemma_mod_shift, lemma_mod_small, modulus, Fe};

verus! {

/// What the sum constraint `q * (a + b - c)` evaluates to on one row, as a number
/// below the field order.
pub open spec fn gate_value(q: bool, a: int, b: int, c: int) -> int {
    if q {
        (a + b - c) % modulus()
    } else {
        0
    }
}

/// Evaluates the sum constraint `q * (a + b - c)` on one row's values.
pub fn gate_residual(q: bool, a: Fe, b: Fe, c: Fe) -> (r: Fe)
    requires
        a.wf(),
        b.wf(),
        c.wf(),
    ensures
        r.wf(),
        r.val() == gate_value(q, a.val(), b.val(), c.val()),
{
    if q {
        let s = a.add(b);
        let r = s.sub(c);
        assert(r.val() == (a.val() + b.val() - c.val()) % modulus()) by {
            let p = modulus();
            let t = a.val() + b.val();
            if t >= p {
                lemma_mod_shift(t);
                lemma_mod_small(t - p);
                lemma_mod_shift(t - c.val());
            } else {
                lemma_mod_small(t);
            }
        }
        r
    } else {
        Fe::zero()
    }
}

/// With its selector on, the sum constraint vanishes on a row exactly when the third
/// value is the field sum of the first two.
pub proof fn lemma_gate_soundness(a: Fe, b: Fe, c: Fe)
    requires
        a.wf(),
        b.wf(),
        c.wf(),
    ensures
        (gate_value(true, a.val(), b.val(), c.val()) == 0) <==> (c.val() == (a.val() + b.val())
            % modulus()),
{
    let p = modulus();
    let t = a.val() + b.val();
    let d = t - c.val();
    if t >= p {
        lemma_mod_shift(t);
        lemma_mod_small(t - p);
        lemma_mod_shift(d);
        if d - p >= 0 {
            lemma_mod_small(d - p);
        } else {
            lemma_mod_small(d);
        }
    } else {
        lemma_mod_small(t);
        if d >= 0 {
            lemma_mod_small(d);
        } else {
            lemma_mod_shift(d);
            lemma_mod_small(d + p);
        }
    }
}

/// With its selector off, the sum constraint vanishes on a row whatever its values.
pub proof fn lemma_gate_vacuity(a: int, b: int, c: int)
    ensures
        gate_value(false, a, b, c) == 0,
{
}

} // verus!
