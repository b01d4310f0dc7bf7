//! The enabled flag of a patch, held in a `portable_atomic::AtomicBool`.
//!
//! Verus sees nothing inside an `AtomicBool`; `flag_contents` names what it
//! holds, a sequence of exactly one `bool`. The flag is only ever changed
//! through an exclusive borrow here, so no other thread changes it between
//! two calls.

use vstd::prelude::*;
use portable_atomic::AtomicBool;

verus! {

#[verifier::external_type_specification]
#[verifier::external_body]
pub struct ExAtomicBool(AtomicBool);

/// What an `AtomicBool` holds: a sequence of one value.
pub uninterp spec fn flag_contents(flag: AtomicBool) -> Seq<bool>;

/// Calls `AtomicBool::new(v)`; the new flag holds `v`.
#[verifier::external_body]
pub(crate) fn new_flag(v: bool) -> (flag: AtomicBool)
    ensures
        flag_contents(flag) == seq![v],
{
    AtomicBool::new(v)
}

/// Calls `AtomicBool::compare_exchange(current, new, Acquire, SeqCst)` on a flag
/// held exclusively. As the crate documents it: the flag becomes `new` and the
/// result is `Ok` of the previous value when that value equals `current`; else
/// the flag is left as it is and the result is `Err` of its value. It panics
/// only for a failure ordering of `Release` or `AcqRel`, which is not the one
/// passed here.
#[verifier::external_body]
pub(crate) fn flag_compare_exchange(flag: &mut AtomicBool, current: bool, new: bool) -> (r: Result<bool, bool>)
    ensures
        flag_contents(*old(flag)).len() == 1 && flag_contents(*old(flag))[0] == current ==> (r matches Ok(v)
            && v == current) && flag_contents(*final(flag)) == seq![new],
        flag_contents(*old(flag)).len() == 1 && flag_contents(*old(flag))[0] != current ==> (r matches Err(v)
            && v == flag_contents(*old(flag))[0]) && flag_contents(*final(flag))
            == flag_contents(*old(flag)),
    no_unwind
{
    flag.compare_exchange(current, new, portable_atomic::Ordering::Acquire, portable_atomic::Ordering::SeqCst)
}

/// Calls `AtomicBool::load(Relaxed)`; the result is the value the flag holds.
#[verifier::external_body]
pub(crate) fn flag_load(flag: &AtomicBool) -> (r: bool)
    ensures
        flag_contents(*flag).len() == 1 ==> r == flag_contents(*flag)[0],
{
    flag.load(portable_atomic::Ordering::Relaxed)
}

} // verus!
