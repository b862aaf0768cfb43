//! The automaton that holds a sponge to its declared pattern.

use crate::errors::IOPatternError;
use crate::hash::{DuplexHash, Unit};
use crate::pattern::{op_count, ops_valid, ops_view, IOPattern, Op, OpView};
use std::marker::PhantomData;
use vstd::prelude::*;

verus! {

/// The state of a session as a mathematical value: the sponge, the declared
/// steps, the index of the current step and the units of it already moved.
pub struct SafeView<H> {
    pub sponge: H,
    pub ops: Seq<OpView>,
    pub index: nat,
    pub used: nat,
}

impl<H> SafeView<H> {
    /// The state at the start of a session.
    pub open spec fn start(sponge: H, ops: Seq<OpView>) -> Self {
        SafeView { sponge, ops, index: 0, used: 0 }
    }

    /// Whether every declared step has been performed in full.
    pub open spec fn exhausted(self) -> bool {
        self.index >= self.ops.len()
    }

    /// Whether absorbing `n` units is what the pattern allows next.
    pub open spec fn absorb_allowed(self, n: nat) -> bool {
        !self.exhausted() && match self.ops[self.index as int] {
            OpView::Absorb(count, _) => self.used + n <= count,
            _ => false,
        }
    }

    /// Whether squeezing `n` units is what the pattern allows next.
    pub open spec fn squeeze_allowed(self, n: nat) -> bool {
        !self.exhausted() && match self.ops[self.index as int] {
            OpView::Squeeze(count, _) => self.used + n <= count,
            _ => false,
        }
    }

    /// Whether a ratchet is what the pattern allows next.
    pub open spec fn ratchet_allowed(self) -> bool {
        !self.exhausted() && self.ops[self.index as int] == OpView::Ratchet
    }

    /// The state with `n` more units of the current step moved and the
    /// sponge replaced: the cursor passes to the next step once the current
    /// one has moved `count` units.
    pub open spec fn moved(self, sponge: H, n: nat, count: nat) -> Self {
        if self.used + n == count {
            SafeView { sponge, index: self.index + 1, used: 0, ..self }
        } else {
            SafeView { sponge, used: self.used + n, ..self }
        }
    }

    /// The number of units that the current step declares; 0 for a ratchet.
    pub open spec fn current_count(self) -> nat {
        op_count(self.ops[self.index as int])
    }

    /// The state after an allowed absorb of `input`.
    pub open spec fn after_absorb<U: Unit>(self, input: Seq<U>) -> Self where H: DuplexHash<U> {
        self.moved(self.sponge.spec_absorb(input), input.len(), self.current_count())
    }

    /// The state after an allowed squeeze of `n` units.
    pub open spec fn after_squeeze<U: Unit>(self, n: nat) -> Self where H: DuplexHash<U> {
        self.moved(self.sponge.spec_squeeze_state(n), n, self.current_count())
    }

    /// The units that an allowed squeeze of `n` units gives.
    pub open spec fn challenge<U: Unit>(self, n: nat) -> Seq<U> where H: DuplexHash<U> {
        self.sponge.spec_squeeze_output(n)
    }

    /// The state after an allowed ratchet.
    pub open spec fn after_ratchet<U: Unit>(self) -> Self where H: DuplexHash<U> {
        SafeView { sponge: self.sponge.spec_ratchet(), index: self.index + 1, used: 0, ..self }
    }

    /// The invariant of the cursor: it stands at a step of which fewer units
    /// than declared have been moved, or behind the last step.
    pub open spec fn cursor_valid(self) -> bool {
        &&& ops_valid(self.ops)
        &&& self.index <= self.ops.len()
        &&& if self.index < self.ops.len() {
            self.used == 0 || self.used < self.current_count()
        } else {
            self.used == 0
        }
    }
}

/// The state in which every session on `pattern` starts: the sponge seeded
/// with the pattern's domain separator, the cursor at the first step.
pub open spec fn session_start<H: DuplexHash<U>, U: Unit>(pattern: &IOPattern) -> SafeView<H> {
    SafeView::start(H::spec_new(pattern.spec_finalize()), pattern@.ops)
}

/// A sponge held to a declared pattern: every call is checked against the
/// step the cursor stands at before it reaches the sponge.
pub struct Safe<H: DuplexHash<U>, U: Unit> {
    sponge: H,
    ops: Vec<Op>,
    index: usize,
    used: usize,
    unit: PhantomData<U>,
}

impl<H: DuplexHash<U>, U: Unit> View for Safe<H, U> {
    type V = SafeView<H>;

    closed spec fn view(&self) -> SafeView<H> {
        SafeView {
            sponge: self.sponge,
            ops: ops_view(self.ops@),
            index: self.index as nat,
            used: self.used as nat,
        }
    }
}

impl<H: DuplexHash<U>, U: Unit> Safe<H, U> {
    /// The invariant of a session.
    pub open spec fn wf(&self) -> bool {
        self@.cursor_valid()
    }

    /// A session at the start of `pattern`, its sponge seeded with the
    /// pattern's domain separator.
    pub fn new(pattern: &IOPattern) -> (s: Self)
        requires
            pattern.wf(),
        ensures
            s.wf(),
            s@ == session_start::<H, U>(pattern),
    {
        let tag = pattern.finalize();
        let sponge = H::new(tag.as_slice());
        Safe { sponge, ops: pattern.steps(), index: 0, used: 0, unit: PhantomData }
    }

    /// Where the cursor stands: the index of the current step and the units
    /// of it already moved.
    pub fn cursor(&self) -> (c: (usize, usize))
        ensures
            c.0 == self@.index,
            c.1 == self@.used,
    {
        (self.index, self.used)
    }

    /// Whether every declared step has been performed in full.
    pub fn is_exhausted(&self) -> (b: bool)
        ensures
            b == self@.exhausted(),
    {
        self.index >= self.ops.len()
    }

    /// Absorbs `input` where the current step is an absorb with at least
    /// `input.len()` units left; any other call is refused and changes nothing.
    pub fn absorb(&mut self, input: &[U]) -> (r: Result<(), IOPatternError>)
        requires
            old(self).wf(),
        ensures
            final(self).wf(),
            match r {
                Ok(_) => {
                    &&& old(self)@.absorb_allowed(input@.len())
                    &&& final(self)@ == old(self)@.after_absorb(input@)
                },
                Err(e) => {
                    &&& e == IOPatternError::PatternMismatch
                    &&& !old(self)@.absorb_allowed(input@.len())
                    &&& *final(self) == *old(self)
                },
            },
    {
        if self.index >= self.ops.len() {
            return Err(IOPatternError::PatternMismatch);
        }
        assert(self@.ops[self.index as int] == self.ops@[self.index as int]@);
        let count = match &self.ops[self.index] {
            Op::Absorb(count, _) => *count,
            _ => {
                return Err(IOPatternError::PatternMismatch);
            },
        };
        if input.len() > count - self.used {
            return Err(IOPatternError::PatternMismatch);
        }
        self.sponge.absorb_unchecked(input);
        if self.used + input.len() == count {
            self.index = self.index + 1;
            self.used = 0;
        } else {
            self.used = self.used + input.len();
        }
        assert(self@.ops == old(self)@.ops);
        Ok(())
    }

    /// Squeezes `count` units where the current step is a squeeze with at
    /// least `count` units left; any other call is refused and changes nothing.
    pub fn squeeze(&mut self, count: usize) -> (r: Result<Vec<U>, IOPatternError>)
        requires
            old(self).wf(),
        ensures
            final(self).wf(),
            match r {
                Ok(out) => {
                    &&& old(self)@.squeeze_allowed(count as nat)
                    &&& final(self)@ == old(self)@.after_squeeze::<U>(count as nat)
                    &&& out@ == old(self)@.challenge::<U>(count as nat)
                },
                Err(e) => {
                    &&& e == IOPatternError::PatternMismatch
                    &&& !old(self)@.squeeze_allowed(count as nat)
                    &&& *final(self) == *old(self)
                },
            },
    {
        if self.index >= self.ops.len() {
            return Err(IOPatternError::PatternMismatch);
        }
        assert(self@.ops[self.index as int] == self.ops@[self.index as int]@);
        let declared = match &self.ops[self.index] {
            Op::Squeeze(declared, _) => *declared,
            _ => {
                return Err(IOPatternError::PatternMismatch);
            },
        };
        if count > declared - self.used {
            return Err(IOPatternError::PatternMismatch);
        }
        let out = self.sponge.squeeze_unchecked(count);
        if self.used + count == declared {
            self.index = self.index + 1;
            self.used = 0;
        } else {
            self.used = self.used + count;
        }
        assert(self@.ops == old(self)@.ops);
        Ok(out)
    }

    /// Ratchets the sponge where the current step is a ratchet; any other
    /// call is refused and changes nothing.
    pub fn ratchet(&mut self) -> (r: Result<(), IOPatternError>)
        requires
            old(self).wf(),
        ensures
            final(self).wf(),
            match r {
                Ok(_) => {
                    &&& old(self)@.ratchet_allowed()
                    &&& final(self)@ == old(self)@.after_ratchet::<U>()
                },
                Err(e) => {
                    &&& e == IOPatternError::PatternMismatch
                    &&& !old(self)@.ratchet_allowed()
                    &&& *final(self) == *old(self)
                },
            },
    {
        if self.index >= self.ops.len() {
            return Err(IOPatternError::PatternMismatch);
        }
        assert(self@.ops[self.index as int] == self.ops@[self.index as int]@);
        match &self.ops[self.index] {
            Op::Ratchet => {},
            _ => {
                return Err(IOPatternError::PatternMismatch);
            },
        }
        self.sponge.ratchet_unchecked();
        self.index = self.index + 1;
        self.used = 0;
        assert(self@.ops == old(self)@.ops);
        Ok(())
    }

    /// Ends the session with a last ratchet and hands out the sponge; refused
    /// where the current step is no ratchet.
    pub fn preprocess(self) -> (r: Result<H, IOPatternError>)
        requires
            self.wf(),
        ensures
            match r {
                Ok(sponge) => {
                    &&& self@.ratchet_allowed()
                    &&& sponge == self@.after_ratchet::<U>().sponge
                },
                Err(e) => {
                    &&& e == IOPatternError::PatternMismatch
                    &&& !self@.ratchet_allowed()
                },
            },
    {
        let mut session = self;
        match session.ratchet() {
            Ok(_) => Ok(session.sponge),
            Err(e) => Err(e),
        }
    }
}

/// Partial absorbs add up: where the pattern allows an absorb of
/// `first.len() + second.len()` units, it allows an absorb of `first` and
/// then one of `second`, and the two leave the cursor where the one call
/// would have left it.
pub proof fn lemma_partial_absorbs<H: DuplexHash<U>, U: Unit>(
    v: SafeView<H>,
    first: Seq<U>,
    second: Seq<U>,
)
    requires
        v.cursor_valid(),
        v.absorb_allowed(first.len() + second.len()),
        second.len() > 0,
    ensures
        v.absorb_allowed(first.len()),
        v.after_absorb(first).absorb_allowed(second.len()),
        v.after_absorb(first).after_absorb(second).index == v.after_absorb(first + second).index,
        v.after_absorb(first).after_absorb(second).used == v.after_absorb(first + second).used,
{
}

/// Partial squeezes add up: where the pattern allows a squeeze of `n + m`
/// units, it allows a squeeze of `n` and then one of `m`, and the two leave
/// the cursor where the one call would have left it.
pub proof fn lemma_partial_squeezes<H: DuplexHash<U>, U: Unit>(v: SafeView<H>, n: nat, m: nat)
    requires
        v.cursor_valid(),
        v.squeeze_allowed(n + m),
        m > 0,
    ensures
        v.squeeze_allowed(n),
        v.after_squeeze::<U>(n).squeeze_allowed(m),
        v.after_squeeze::<U>(n).after_squeeze::<U>(m).index == v.after_squeeze::<U>(n + m).index,
        v.after_squeeze::<U>(n).after_squeeze::<U>(m).used == v.after_squeeze::<U>(n + m).used,
{
}

/// A step is done when its count is reached: at a step with `left` units to
/// go, a call that moves exactly `left` units is allowed and puts the cursor
/// at the start of the next step; a call that moves more is not allowed.
pub proof fn lemma_step_completes<H>(v: SafeView<H>, left: nat, more: nat)
    requires
        v.cursor_valid(),
        !v.exhausted(),
        v.used + left == v.current_count(),
        more > left,
    ensures
        v.ops[v.index as int] is Absorb ==> v.absorb_allowed(left) && !v.absorb_allowed(more),
        v.ops[v.index as int] is Squeeze ==> v.squeeze_allowed(left) && !v.squeeze_allowed(more),
        v.ops[v.index as int] !is Ratchet ==> v.moved(v.sponge, left, v.current_count()).index
            == v.index + 1 && v.moved(v.sponge, left, v.current_count()).used == 0,
{
}

/// One kind of call at a time: at no state of the automaton are two of
/// absorb, squeeze and ratchet allowed, and past the last step none is.
pub proof fn lemma_one_kind_allowed<H>(v: SafeView<H>, n: nat, m: nat)
    ensures
        !(v.absorb_allowed(n) && v.squeeze_allowed(m)),
        !(v.absorb_allowed(n) && v.ratchet_allowed()),
        !(v.squeeze_allowed(m) && v.ratchet_allowed()),
        v.exhausted() ==> !v.absorb_allowed(n) && !v.squeeze_allowed(m) && !v.ratchet_allowed(),
{
}

/// The cursor stays valid under every allowed call.
pub proof fn lemma_cursor_stays_valid<H: DuplexHash<U>, U: Unit>(
    v: SafeView<H>,
    units: Seq<U>,
    n: nat,
)
    requires
        v.cursor_valid(),
    ensures
        v.absorb_allowed(units.len()) ==> v.after_absorb(units).cursor_valid(),
        v.squeeze_allowed(n) ==> v.after_squeeze::<U>(n).cursor_valid(),
        v.ratchet_allowed() ==> v.after_ratchet::<U>().cursor_valid(),
{
}

} // verus!
