//! What the matrix engine knows of its element type.
//!
//! The engine is generic over any `Copy` type with the std operator traits.
//! Where vstd gives the operators an exact model (the primitive integers),
//! the contracts pin results down through `add_spec`, `mul_spec` and so on;
//! the `*_req` predicates then say that no step overflows. For other types
//! the operators are only required to be total.
//!
//! Entries that the engine makes itself come from `T::default()` (the zero of
//! a number type) and `T::from(1u8)` (its one). Contracts name them as values
//! that those calls may return: `is_default` and `is_unit`.
use vstd::prelude::*;

verus! {

use vstd::std_specs::ops::AddSpec;
use vstd::std_specs::ops::MulSpec;
use vstd::std_specs::ops::NegSpec;
use vstd::std_specs::ops::SubSpec;
use vstd::std_specs::ops::DivSpec;
use vstd::std_specs::cmp::PartialEqSpec;

/// `d` is a value that `T::default()` may return.
pub open spec fn is_default<T: Default>(d: T) -> bool {
    call_ensures(T::default, (), d)
}

/// Addition and multiplication of `T` follow vstd's exact model.
pub open spec fn exact_add_mul<T: core::ops::Add<Output = T> + core::ops::Mul<Output = T>>() -> bool {
    T::obeys_add_spec() && T::obeys_mul_spec()
}

/// Addition and multiplication of `T` have no precondition.
pub open spec fn total_add_mul<T: core::ops::Add<Output = T> + core::ops::Mul<Output = T>>() -> bool {
    &&& forall|x: T, y: T| #[trigger] x.add_req(y)
    &&& forall|x: T, y: T| #[trigger] x.mul_req(y)
}

/// The four ring operations of `T` follow vstd's exact model.
pub open spec fn exact_ring<T>() -> bool where
    T: core::ops::Add<Output = T> + core::ops::Sub<Output = T> + core::ops::Mul<Output = T> + core::ops::Neg<Output = T>,
 {
    T::obeys_add_spec() && T::obeys_sub_spec() && T::obeys_mul_spec() && T::obeys_neg_spec()
}

/// The four ring operations of `T` have no precondition.
pub open spec fn total_ring<T>() -> bool where
    T: core::ops::Add<Output = T> + core::ops::Sub<Output = T> + core::ops::Mul<Output = T> + core::ops::Neg<Output = T>,
 {
    &&& forall|x: T, y: T| #[trigger] x.add_req(y)
    &&& forall|x: T, y: T| #[trigger] x.sub_req(y)
    &&& forall|x: T, y: T| #[trigger] x.mul_req(y)
    &&& forall|x: T| #[trigger] x.neg_req()
}

/// Division of `T` follows vstd's exact model.
pub open spec fn exact_div<T: core::ops::Div<Output = T>>() -> bool {
    T::obeys_div_spec()
}

/// Division of `T` has no precondition.
pub open spec fn total_div<T: core::ops::Div<Output = T>>() -> bool {
    forall|x: T, y: T| #[trigger] x.div_req(y)
}

} // verus!

verus! {

/// `T::default()`, with what it returned recorded as a default value.
pub fn default_value<T: Default>() -> (r: T)
    ensures
        is_default(r),
{
    let make = T::default;
    make()
}

/// Equality of `T` follows vstd's model.
pub open spec fn exact_eq<T: PartialEq>() -> bool {
    T::obeys_eq_spec()
}

/// `o` is a value that `T::from(1u8)` may return.
pub open spec fn is_unit<T: From<u8>>(o: T) -> bool {
    call_ensures(<T as From<u8>>::from, (1u8,), o)
}

/// `T::from(1u8)`, with what it returned recorded as a unit value.
pub fn unit_value<T: From<u8>>() -> (r: T)
    ensures
        is_unit(r),
{
    let make = <T as From<u8>>::from;
    make(1u8)
}

/// `n` is a value that `-s` may return.
pub open spec fn is_negation<T: core::ops::Neg<Output = T>>(s: T, n: T) -> bool {
    call_ensures(<T as core::ops::Neg>::neg, (s,), n)
}

/// `-s`, with what it returned recorded as a negation of `s`.
pub fn negation<T: core::ops::Neg<Output = T>>(s: T) -> (r: T)
    requires
        s.neg_req(),
    ensures
        is_negation(s, r),
        T::obeys_neg_spec() ==> r == s.neg_spec(),
{
    let negate = <T as core::ops::Neg>::neg;
    negate(s)
}

} // verus!
