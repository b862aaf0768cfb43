//! Absorbing values of a protocol's own types: a value says which units
//! stand for it, and a session absorbs those.

use crate::arthur::{Arthur, ArthurView};
use crate::errors::IOPatternError;
use crate::hash::{DuplexHash, Unit};
use crate::merlin::{Merlin, MerlinView};
use vstd::bytes::{spec_u64_to_le_bytes, u64_to_le_bytes};
use vstd::prelude::*;

verus! {

/// A value that units can stand for.
pub trait Absorbable<U: Unit> {
    /// The units that stand for the value.
    spec fn spec_units(&self) -> Seq<U>;

    /// The units that stand for the value.
    fn to_absorbable(&self) -> (units: Vec<U>)
        ensures
            units@ == self.spec_units(),
    ;
}

/// A 64-bit number is absorbed as its eight bytes, the lowest first.
impl Absorbable<u8> for u64 {
    open spec fn spec_units(&self) -> Seq<u8> {
        spec_u64_to_le_bytes(*self)
    }

    fn to_absorbable(&self) -> (units: Vec<u8>) {
        u64_to_le_bytes(*self)
    }
}

/// The units of each value, in order.
pub open spec fn units_of_each<U: Unit, A: Absorbable<U>>(values: Seq<A>) -> Seq<Seq<U>> {
    values.map_values(|a: A| a.spec_units())
}

/// The prover's session after absorbing `items` one by one up to the first
/// that the pattern refuses, and whether none was refused.
pub open spec fn prover_absorbs_each<H: DuplexHash<U>, U: Unit>(
    v: ArthurView<H>,
    items: Seq<Seq<U>>,
) -> (ArthurView<H>, bool)
    decreases items.len(),
{
    if items.len() == 0 {
        (v, true)
    } else if !v.safe.absorb_allowed(items[0].len()) {
        (v, false)
    } else {
        prover_absorbs_each(v.after_absorb(items[0]), items.skip(1))
    }
}

/// The verifier's session after absorbing `items` one by one up to the
/// first that the pattern refuses, and whether none was refused.
pub open spec fn verifier_absorbs_each<H: DuplexHash<U>, U: Unit>(
    v: MerlinView<H>,
    items: Seq<Seq<U>>,
) -> (MerlinView<H>, bool)
    decreases items.len(),
{
    if items.len() == 0 {
        (v, true)
    } else if !v.safe.absorb_allowed(items[0].len()) {
        (v, false)
    } else {
        verifier_absorbs_each(v.after_public_input(items[0]), items.skip(1))
    }
}

/// A session that absorbs values of a protocol's own types.
pub trait Absorbs<U: Unit>: Sized {
    /// The invariant of the session.
    spec fn session_wf(&self) -> bool;

    /// Whether the pattern allows the session to absorb `n` units next.
    spec fn may_absorb(&self, n: nat) -> bool;

    /// Whether `after` is the session once it has absorbed `units`.
    spec fn has_absorbed(&self, units: Seq<U>, after: &Self) -> bool;

    /// Whether `after` is the session as it stands.
    spec fn same_session(&self, after: &Self) -> bool;

    /// Whether `after` is the session once it has absorbed `items` one by
    /// one up to the first that the pattern refuses, `all` telling whether
    /// none was refused.
    spec fn has_absorbed_each(&self, items: Seq<Seq<U>>, after: &Self, all: bool) -> bool;

    /// Absorbs the units that stand for `e`. A call that the pattern does
    /// not allow is refused and changes nothing.
    fn absorb<A: Absorbable<U>>(&mut self, e: &A) -> (r: Result<(), IOPatternError>)
        requires
            old(self).session_wf(),
        ensures
            final(self).session_wf(),
            match r {
                Ok(_) => {
                    &&& old(self).may_absorb(e.spec_units().len())
                    &&& old(self).has_absorbed(e.spec_units(), final(self))
                },
                Err(err) => {
                    &&& err == IOPatternError::PatternMismatch
                    &&& !old(self).may_absorb(e.spec_units().len())
                    &&& old(self).same_session(final(self))
                },
            },
    ;

    /// Absorbs each value of `input` in turn and stops at the first that is
    /// refused.
    fn absorb_slice<A: Absorbable<U>>(&mut self, input: &[A]) -> (r: Result<(), IOPatternError>)
        requires
            old(self).session_wf(),
        ensures
            final(self).session_wf(),
            old(self).has_absorbed_each(units_of_each(input@), final(self), r is Ok),
            r is Err ==> r == Err::<(), IOPatternError>(IOPatternError::PatternMismatch),
    ;
}

impl<H: DuplexHash<U>, U: Unit> Absorbs<U> for Arthur<H, U> {
    open spec fn session_wf(&self) -> bool {
        self.wf()
    }

    open spec fn may_absorb(&self, n: nat) -> bool {
        self@.safe.absorb_allowed(n)
    }

    open spec fn has_absorbed(&self, units: Seq<U>, after: &Self) -> bool {
        after@ == self@.after_absorb(units)
    }

    open spec fn same_session(&self, after: &Self) -> bool {
        after@ == self@
    }

    open spec fn has_absorbed_each(&self, items: Seq<Seq<U>>, after: &Self, all: bool) -> bool {
        (after@, all) == prover_absorbs_each(self@, items)
    }

    fn absorb<A: Absorbable<U>>(&mut self, e: &A) -> (r: Result<(), IOPatternError>) {
        self.absorb_native(e)
    }

    fn absorb_slice<A: Absorbable<U>>(&mut self, input: &[A]) -> (r: Result<(), IOPatternError>) {
        let ghost items = units_of_each::<U, A>(input@);
        let mut i: usize = 0;
        assert(items.skip(0) =~= items);
        while i < input.len()
            invariant
                i <= input.len(),
                self.wf(),
                items == units_of_each::<U, A>(input@),
                prover_absorbs_each(self@, items.skip(i as int)) == prover_absorbs_each(
                    old(self)@,
                    items,
                ),
            decreases input.len() - i,
        {
            proof {
                assert(items.skip(i as int)[0] == input@[i as int].spec_units());
                assert(items.skip(i as int).skip(1) =~= items.skip(i + 1));
            }
            match self.absorb_native(&input[i]) {
                Ok(_) => {},
                Err(e) => {
                    return Err(e);
                },
            }
            i += 1;
        }
        Ok(())
    }
}

impl<'a, H: DuplexHash<U>, U: Unit> Absorbs<U> for Merlin<'a, H, U> {
    open spec fn session_wf(&self) -> bool {
        self.wf()
    }

    open spec fn may_absorb(&self, n: nat) -> bool {
        self@.safe.absorb_allowed(n)
    }

    open spec fn has_absorbed(&self, units: Seq<U>, after: &Self) -> bool {
        after@ == self@.after_public_input(units)
    }

    open spec fn same_session(&self, after: &Self) -> bool {
        after@ == self@
    }

    open spec fn has_absorbed_each(&self, items: Seq<Seq<U>>, after: &Self, all: bool) -> bool {
        (after@, all) == verifier_absorbs_each(self@, items)
    }

    fn absorb<A: Absorbable<U>>(&mut self, e: &A) -> (r: Result<(), IOPatternError>) {
        let units = e.to_absorbable();
        self.public_input(units.as_slice())
    }

    fn absorb_slice<A: Absorbable<U>>(&mut self, input: &[A]) -> (r: Result<(), IOPatternError>) {
        let ghost items = units_of_each::<U, A>(input@);
        let mut i: usize = 0;
        assert(items.skip(0) =~= items);
        while i < input.len()
            invariant
                i <= input.len(),
                self.wf(),
                items == units_of_each::<U, A>(input@),
                verifier_absorbs_each(self@, items.skip(i as int)) == verifier_absorbs_each(
                    old(self)@,
                    items,
                ),
            decreases input.len() - i,
        {
            proof {
                assert(items.skip(i as int)[0] == input@[i as int].spec_units());
                assert(items.skip(i as int).skip(1) =~= items.skip(i + 1));
            }
            let units = input[i].to_absorbable();
            match self.public_input(units.as_slice()) {
                Ok(_) => {},
                Err(e) => {
                    return Err(e);
                },
            }
            i += 1;
        }
        Ok(())
    }
}

} // verus!
