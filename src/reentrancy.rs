//! A reentrancy guard: a flag that is `Entered` for the whole extent of one
//! guarded operation and `NotEntered` at every other observable time.
use vstd::prelude::*;

verus! {

/// The state of a guard.
///
/// A guard that was never initialized is `Uninitialized`; `init` moves it to
/// `NotEntered`, and from then on acquisition and release alternate between
/// `NotEntered` and `Entered`.
#[derive(Clone, Copy, Debug, PartialEq, Eq, Structural)]
pub enum GuardStatus {
    Uninitialized,
    NotEntered,
    Entered,
}

/// Errors reported by the guard.
#[derive(Clone, Copy, Debug, PartialEq, Eq, Structural)]
pub enum ReentrancyError {
    /// A guarded operation was entered while another one was still open.
    ReentrantCall,
}

/// The outcome of acquiring a guard in state `s`: the new state and the result.
pub open spec fn acquire_spec(s: GuardStatus) -> (GuardStatus, Result<(), ReentrancyError>) {
    if s == GuardStatus::Entered {
        (s, Err(ReentrancyError::ReentrantCall))
    } else {
        (GuardStatus::Entered, Ok(()))
    }
}

/// A reentrancy guard owned by the component it protects.
#[derive(Debug)]
pub struct ReentrancyGuard {
    status: GuardStatus,
}

impl View for ReentrancyGuard {
    type V = GuardStatus;

    closed spec fn view(&self) -> GuardStatus {
        self.status
    }
}

impl Default for ReentrancyGuard {
    /// A guard that has not been initialized yet.
    fn default() -> (r: Self)
        ensures
            r@ == GuardStatus::Uninitialized,
    {
        ReentrancyGuard { status: GuardStatus::Uninitialized }
    }
}

impl ReentrancyGuard {
    /// A guard that is initialized and not entered.
    pub fn new() -> (r: Self)
        ensures
            r@ == GuardStatus::NotEntered,
    {
        ReentrancyGuard { status: GuardStatus::NotEntered }
    }

    /// Sets the guard to `NotEntered`; meant to be called once, when the
    /// owning component is constructed.
    pub fn init(&mut self)
        ensures
            final(self)@ == GuardStatus::NotEntered,
    {
        self.status = GuardStatus::NotEntered;
    }

    /// Whether a guarded operation is currently open.
    pub fn reentrancy_guard_entered(&self) -> (r: bool)
        ensures
            r == (self@ == GuardStatus::Entered),
    {
        self.status == GuardStatus::Entered
    }

    /// Acquires the guard: fails with `ReentrantCall`, changing nothing, when
    /// it is already entered, and otherwise marks it entered.
    pub fn non_reentrant_before(&mut self) -> (r: Result<(), ReentrancyError>)
        ensures
            (final(self)@, r) == acquire_spec(old(self)@),
    {
        if self.status == GuardStatus::Entered {
            return Err(ReentrancyError::ReentrantCall);
        }
        self.status = GuardStatus::Entered;
        Ok(())
    }

    /// Releases the guard, whatever state it was in.
    pub fn non_reentrant_after(&mut self)
        ensures
            final(self)@ == GuardStatus::NotEntered,
    {
        self.status = GuardStatus::NotEntered;
    }

    /// Runs `f` under the guard.
    ///
    /// When the guard is already entered, `f` does not run and the result is
    /// `Err(ReentrantCall)`. Otherwise `f` runs once, the guard is released
    /// whatever `f` returned, and `f`'s own result comes back inside `Ok`.
    pub fn non_reentrant<T, E, F>(&mut self, f: F) -> (r: Result<Result<T, E>, ReentrancyError>) where
        F: FnOnce() -> Result<T, E>,
        requires
            old(self)@ != GuardStatus::Entered ==> f.requires(()),
        ensures
            old(self)@ == GuardStatus::Entered ==> r == Err::<Result<T, E>, ReentrancyError>(
                ReentrancyError::ReentrantCall,
            ) && final(self)@ == GuardStatus::Entered,
            old(self)@ != GuardStatus::Entered ==> final(self)@ == GuardStatus::NotEntered && (
            match r {
                Ok(body) => f.ensures((), body),
                Err(_) => false,
            }),
    {
        match self.non_reentrant_before() {
            Err(e) => Err(e),
            Ok(()) => {
                let body = f();
                self.non_reentrant_after();
                Ok(body)
            },
        }
    }
}

/// A guard in state `s`.
pub closed spec fn guard_in(s: GuardStatus) -> ReentrancyGuard {
    ReentrancyGuard { status: s }
}

/// The state of `guard_in(s)` is `s`.
pub broadcast proof fn lemma_guard_in(s: GuardStatus)
    ensures
        #[trigger] guard_in(s)@ == s,
{
}

/// `f`, called on a component whose value was `pre`, returned `v`.
pub open spec fn returned_from<S, T, F: FnOnce(&mut S) -> T>(f: F, pre: S, v: T) -> bool {
    exists|a: (&mut S,)| #[trigger] f.ensures(a, v) && *a.0 == pre
}

/// A component that owns a reentrancy guard and runs operations on itself
/// under it.
pub trait ReentrancyGuarded: Sized {
    /// The component's guard.
    spec fn guard(&self) -> ReentrancyGuard;

    /// The component with its guard replaced by `g` and all else kept.
    spec fn with_guard(&self, g: ReentrancyGuard) -> Self;

    /// Replacing the guard gives a component with that guard; putting back the
    /// guard it has changes nothing; of two replacements the last one counts.
    proof fn lemma_with_guard(&self, g: ReentrancyGuard, h: ReentrancyGuard)
        ensures
            self.with_guard(g).guard() == g,
            self.with_guard(self.guard()) == *self,
            self.with_guard(g).with_guard(h) == self.with_guard(h),
    ;

    /// The component's guard, for the duration of a borrow; nothing else in
    /// the component changes through it.
    fn reentrancy_guard(&mut self) -> (r: &mut ReentrancyGuard)
        ensures
            *r == old(self).guard(),
            *final(self) == old(self).with_guard(*final(r)),
    ;

    /// Runs `f` on the component under its guard.
    ///
    /// When the guard is already entered, `f` does not run, nothing changes
    /// and the result is `Err(ReentrantCall)`. Otherwise `f` runs once, on the
    /// component with its guard entered, and afterwards the guard is released
    /// and `f`'s result comes back inside `Ok`.
    fn with_non_reentrant<F, T>(&mut self, f: F) -> (r: Result<T, ReentrancyError>) where
        F: FnOnce(&mut Self) -> T,
        requires
            forall|a: (&mut Self,)|
                (*a.0).guard()@ == GuardStatus::Entered ==> #[trigger] f.requires(a),
        ensures
            old(self).guard()@ == GuardStatus::Entered ==> r == Err::<T, ReentrancyError>(
                ReentrancyError::ReentrantCall,
            ) && *final(self) == *old(self),
            old(self).guard()@ != GuardStatus::Entered ==> final(self).guard()@
                == GuardStatus::NotEntered,
            old(self).guard()@ != GuardStatus::Entered ==> r is Ok,
            r matches Ok(v) ==> returned_from(
                f,
                old(self).with_guard(guard_in(GuardStatus::Entered)),
                v,
            ),
    {
        let g = self.reentrancy_guard();
        match g.non_reentrant_before() {
            Err(e) => {
                proof {
                    old(self).lemma_with_guard(old(self).guard(), old(self).guard());
                }
                Err(e)
            },
            Ok(()) => {
                let ghost entered = *g;
                assert(entered == guard_in(GuardStatus::Entered));
                proof {
                    old(self).lemma_with_guard(entered, old(self).guard());
                    old(self).lemma_with_guard(old(self).guard(), old(self).guard());
                }
                let ghost pre = *self;
                let v = f(self);
                let ghost post = *self;
                assert(returned_from(f, pre, v));
                let g = self.reentrancy_guard();
                g.non_reentrant_after();
                proof {
                    post.lemma_with_guard(*g, *g);
                }
                Ok(v)
            },
        }
    }
}

/// A guard on its own is a component that owns a guard: itself.
impl ReentrancyGuarded for ReentrancyGuard {
    open spec fn guard(&self) -> ReentrancyGuard {
        *self
    }

    open spec fn with_guard(&self, g: ReentrancyGuard) -> ReentrancyGuard {
        g
    }

    proof fn lemma_with_guard(&self, g: ReentrancyGuard, h: ReentrancyGuard) {
    }

    fn reentrancy_guard(&mut self) -> (r: &mut ReentrancyGuard) {
        self
    }
}

/// A second acquisition with no release in between is rejected, and the guard
/// stays entered: only the first of two nested guarded operations proceeds.
pub proof fn lemma_acquire_twice(s: GuardStatus)
    requires
        s != GuardStatus::Entered,
    ensures
        acquire_spec(s) == (GuardStatus::Entered, Ok::<(), ReentrancyError>(())),
        acquire_spec(acquire_spec(s).0) == (
            GuardStatus::Entered,
            Err::<(), ReentrancyError>(ReentrancyError::ReentrantCall),
        ),
{
}

} // verus!
