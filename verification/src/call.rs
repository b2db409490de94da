//! Calls of a method that is known by its contract alone.
use vstd::prelude::*;

verus! {

/// Call `act` on `target`. What `act` does to a value is known to callers
/// as `call_ensures` of `act`: this is how a container says that it has
/// called a method of what it holds, once.
pub(crate) fn call_on<T: ?Sized, F: FnOnce(&mut T)>(act: F, target: &mut T)
    requires
        forall|x: &mut T| &*x == &*old(target) ==> call_requires(act, (x,)),
    ensures
        exists|x: &mut T|
            &*x == &*old(target) && &*final(x) == &*final(target) && #[trigger] call_ensures(act, (x,), ()),
{
    act(target)
}

/// Call `act` on `target` with `with`.
pub(crate) fn call_with<T: ?Sized, A: Copy, F: FnOnce(&mut T, A)>(act: F, target: &mut T, with: A)
    requires
        forall|x: &mut T| &*x == &*old(target) ==> call_requires(act, (x, with)),
    ensures
        exists|x: &mut T|
            &*x == &*old(target) && &*final(x) == &*final(target) && #[trigger] call_ensures(act, (x, with), ()),
{
    act(target, with)
}

} // verus!
