//! Choosing the visible hit among the times at which a ray meets a surface.
use vstd::prelude::*;

verus! {

use crate::arith::{default_value, is_default};
use core::cmp::Ordering;
use vstd::std_specs::cmp::PartialOrdSpec;

/// `T`'s comparison is a total order that agrees with `==`.
pub open spec fn ordered<T: PartialOrd>() -> bool {
    &&& T::obeys_partial_cmp_spec()
    &&& forall|a: T, b: T| (#[trigger] a.partial_cmp_spec(&b)) is Some
    &&& forall|a: T, b: T| #[trigger] a.partial_cmp_spec(&b) == Some(Ordering::Equal) <==> a == b
    &&& forall|a: T, b: T|
        #[trigger] a.partial_cmp_spec(&b) == Some(Ordering::Less) <==> b.partial_cmp_spec(&a) == Some(
            Ordering::Greater,
        )
    &&& forall|a: T, b: T, c: T|
        #[trigger] a.partial_cmp_spec(&b) == Some(Ordering::Less) && #[trigger] b.partial_cmp_spec(&c)
            == Some(Ordering::Less) ==> a.partial_cmp_spec(&c) == Some(Ordering::Less)
}

/// `a < b` in `T`'s order.
pub open spec fn less<T: PartialOrd>(a: T, b: T) -> bool {
    a.partial_cmp_spec(&b) == Some(Ordering::Less)
}

/// `a >= b` in `T`'s order.
pub open spec fn at_least<T: PartialOrd>(a: T, b: T) -> bool {
    a.partial_cmp_spec(&b) matches Some(Ordering::Greater | Ordering::Equal)
}

/// Index `i` holds the smallest of the times that are at least `z`, and no
/// earlier index holds a time as small.
pub open spec fn is_hit<T: PartialOrd>(times: Seq<T>, z: T, i: int) -> bool {
    &&& 0 <= i < times.len()
    &&& at_least(times[i], z)
    &&& forall|j: int| 0 <= j < times.len() && at_least(times[j], z) ==> !less(#[trigger] times[j], times[i])
    &&& forall|j: int| 0 <= j < i && at_least(times[j], z) ==> less(times[i], #[trigger] times[j])
}

proof fn lemma_less_then_not_less<T: PartialOrd>(a: T, b: T, c: T)
    requires
        ordered::<T>(),
        less(a, b),
        !less(c, b),
    ensures
        less(a, c),
{
    if c != b {
        assert(c.partial_cmp_spec(&b) == Some(Ordering::Greater));
        assert(less(b, c));
    }
}

/// `t >= z` may answer `b`.
pub open spec fn compared_at_least<T: PartialOrd>(t: T, z: T, b: bool) -> bool {
    call_ensures(<T as PartialOrd>::ge, (&t, &z), b)
}

/// The index of the hit among `times`: the smallest time that is not below
/// the default value (zero for numbers), the first of equal ones; `None`
/// where every time lies below it.
pub fn hit<T: Copy + Default + PartialOrd>(times: &Vec<T>) -> (r: Option<usize>)
    ensures
        r matches Some(i) ==> i < times.len(),
        exists|z: T| {
            &&& is_default(z)
            &&& match r {
                Some(i) => compared_at_least(times@[i as int], z, true),
                None => forall|j: int| 0 <= j < times.len() ==> compared_at_least(#[trigger] times@[j], z, false),
            }
        },
        ordered::<T>() ==> exists|z: T| {
            &&& is_default(z)
            &&& match r {
                Some(i) => is_hit(times@, z, i as int),
                None => forall|j: int| 0 <= j < times.len() ==> !at_least(#[trigger] times[j], z),
            }
        },
{
    let z: T = default_value();
    let mut best: Option<usize> = None;
    let mut i: usize = 0;
    while i < times.len()
        invariant
            i <= times.len(),
            is_default(z),
            best matches Some(b) ==> b < i,
            best matches Some(b) ==> compared_at_least(times@[b as int], z, true),
            best is None ==> forall|j: int| 0 <= j < i ==> compared_at_least(#[trigger] times@[j], z, false),
            ordered::<T>() ==> match best {
                Some(b) => is_hit(times@.take(i as int), z, b as int),
                None => forall|j: int| 0 <= j < i ==> !at_least(#[trigger] times@[j], z),
            },
        decreases times.len() - i,
    {
        let ghost prev = best;
        let t = times[i];
        let at_least_zero = <T as PartialOrd>::ge;
        if at_least_zero(&t, &z) {
            let take = match best {
                None => true,
                Some(b) => t < times[b],
            };
            if take {
                best = Some(i);
            }
        }
        i += 1;
        proof {
            if ordered::<T>() {
                let s = times@.take(i as int);
                let p = times@.take(i - 1);
                assert(s[i - 1] == t);
                assert(forall|j: int| 0 <= j < i - 1 ==> #[trigger] s[j] == p[j]);
                assert(t.partial_cmp_spec(&t) == Some(Ordering::Equal));
                if let Some(b) = best {
                    if prev == best {
                        assert forall|j: int| 0 <= j < s.len() && at_least(s[j], z) implies !less(
                            #[trigger] s[j],
                            s[b as int],
                        ) by {
                            if j < i - 1 {
                                assert(s[j] == p[j]);
                            }
                        }
                        assert forall|j: int| 0 <= j < b && at_least(s[j], z) implies less(
                            s[b as int],
                            #[trigger] s[j],
                        ) by {
                            assert(s[j] == p[j]);
                        }
                    } else {
                        assert(b == i - 1);
                        assert forall|j: int| 0 <= j < s.len() && at_least(s[j], z) implies !less(
                            #[trigger] s[j],
                            s[b as int],
                        ) by {
                            if j < i - 1 {
                                if let Some(ob) = prev {
                                    if less(s[j], t) {
                                        assert(less(t, p[ob as int]));
                                        assert(less(p[j], p[ob as int]));
                                    }
                                }
                            }
                        }
                        assert forall|j: int| 0 <= j < b && at_least(s[j], z) implies less(
                            s[b as int],
                            #[trigger] s[j],
                        ) by {
                            if let Some(ob) = prev {
                                lemma_less_then_not_less(t, p[ob as int], p[j]);
                            } else {
                                assert(!at_least(times@[j], z));
                            }
                        }
                    }
                }
            }
        }
    }
    proof {
        assert(times@.take(i as int) =~= times@);
    }
    best
}

} // verus!
