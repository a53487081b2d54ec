//! Port values: the script engine's own dynamic values, carried through opaquely.
use vstd::prelude::*;

verus! {

#[verifier::external_type_specification]
#[verifier::external_body]
pub struct ExDynamic(rhai::Dynamic);

/// What `Dynamic::clone` gives for a value: a copy that depends on the value alone.
pub uninterp spec fn copy_of(v: rhai::Dynamic) -> rhai::Dynamic;

/// What `Dynamic::from(())` gives: the engine's unit value.
pub uninterp spec fn unit_of(u: ()) -> rhai::Dynamic;

/// What `Dynamic::from_int` gives for an integer.
pub uninterp spec fn int_of(n: i64) -> rhai::Dynamic;

/// Relies on `Clone for rhai::Dynamic`: the copy is a function of the value.
pub assume_specification[ <rhai::Dynamic as Clone>::clone ](v: &rhai::Dynamic) -> (r: rhai::Dynamic)
    ensures
        r == copy_of(*v),
;

/// Relies on `From<()> for rhai::Dynamic`: it always gives the unit value.
pub assume_specification[ <rhai::Dynamic as From<()>>::from ](u: ()) -> (r: rhai::Dynamic)
    ensures
        r == unit_of(u),
;

/// Relies on `rhai::Dynamic::from_int`: it wraps the integer.
pub assume_specification[ rhai::Dynamic::from_int ](n: i64) -> (r: rhai::Dynamic)
    ensures
        r == int_of(n),
;

/// The value a missing port value is bound to: the engine's unit value.
pub open spec fn default_value() -> rhai::Dynamic {
    unit_of(())
}

} // verus!
