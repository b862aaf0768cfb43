//! The prover's side of a transcript.

use crate::absorbs::Absorbable;
use crate::errors::IOPatternError;
use crate::hash::{encode_units, write_units, DuplexHash, Unit};
use crate::pattern::IOPattern;
use crate::safe::{session_start, Safe, SafeView};
use crate::secret::{random_bytes, system_rng};
use rand::rngs::OsRng;
use vstd::prelude::*;

verus! {

/// A prover's session as a mathematical value: the state of the automaton
/// and the transcript written so far.
pub struct ArthurView<H> {
    pub safe: SafeView<H>,
    pub transcript: Seq<u8>,
}

impl<H> ArthurView<H> {
    /// The session after an allowed absorb of `units`: the automaton has
    /// absorbed them and their bytes stand at the end of the transcript.
    pub open spec fn after_absorb<U: Unit>(self, units: Seq<U>) -> Self where H: DuplexHash<U> {
        ArthurView {
            safe: self.safe.after_absorb(units),
            transcript: self.transcript + encode_units(units),
        }
    }

    /// The session after an allowed squeeze of `n` units.
    pub open spec fn after_squeeze<U: Unit>(self, n: nat) -> Self where H: DuplexHash<U> {
        ArthurView { safe: self.safe.after_squeeze::<U>(n), ..self }
    }

    /// The session after an allowed ratchet.
    pub open spec fn after_ratchet<U: Unit>(self) -> Self where H: DuplexHash<U> {
        ArthurView { safe: self.safe.after_ratchet::<U>(), ..self }
    }
}

/// The prover's side of a transcript: what it absorbs is fed to the sponge
/// and written to the transcript; challenges are squeezed and not written.
pub struct Arthur<H: DuplexHash<U>, U: Unit> {
    safe: Safe<H, U>,
    transcript: Vec<u8>,
    rng: OsRng,
}

impl<H: DuplexHash<U>, U: Unit> View for Arthur<H, U> {
    type V = ArthurView<H>;

    closed spec fn view(&self) -> ArthurView<H> {
        ArthurView { safe: self.safe@, transcript: self.transcript@ }
    }
}

impl<H: DuplexHash<U>, U: Unit> Arthur<H, U> {
    /// The invariant of a session.
    pub open spec fn wf(&self) -> bool {
        self@.safe.cursor_valid()
    }

    /// A prover's session at the start of `pattern`, with an empty transcript.
    pub fn new(pattern: &IOPattern) -> (a: Self)
        requires
            pattern.wf(),
        ensures
            a.wf(),
            a@.safe == session_start::<H, U>(pattern),
            a@.transcript == Seq::<u8>::empty(),
    {
        Arthur { safe: Safe::new(pattern), transcript: Vec::new(), rng: system_rng() }
    }

    /// Absorbs `input` and appends its bytes to the transcript. A call that
    /// the pattern does not allow is refused and changes nothing.
    pub fn absorb(&mut self, input: &[U]) -> (r: Result<(), IOPatternError>)
        requires
            old(self).wf(),
        ensures
            final(self).wf(),
            match r {
                Ok(_) => {
                    &&& old(self)@.safe.absorb_allowed(input@.len())
                    &&& final(self)@ == old(self)@.after_absorb(input@)
                },
                Err(e) => {
                    &&& e == IOPatternError::PatternMismatch
                    &&& !old(self)@.safe.absorb_allowed(input@.len())
                    &&& final(self)@ == old(self)@
                },
            },
    {
        match self.safe.absorb(input) {
            Ok(_) => {
                write_units(input, &mut self.transcript);
                Ok(())
            },
            Err(e) => Err(e),
        }
    }

    /// Absorbs the units that stand for `value`, as `absorb` does.
    pub fn absorb_native<A: Absorbable<U>>(&mut self, value: &A) -> (r: Result<
        (),
        IOPatternError,
    >)
        requires
            old(self).wf(),
        ensures
            final(self).wf(),
            match r {
                Ok(_) => {
                    &&& old(self)@.safe.absorb_allowed(value.spec_units().len())
                    &&& final(self)@ == old(self)@.after_absorb(value.spec_units())
                },
                Err(e) => {
                    &&& e == IOPatternError::PatternMismatch
                    &&& !old(self)@.safe.absorb_allowed(value.spec_units().len())
                    &&& final(self)@ == old(self)@
                },
            },
    {
        let units = value.to_absorbable();
        self.absorb(units.as_slice())
    }

    /// Squeezes `count` challenge units. The transcript is not touched. A
    /// call that the pattern does not allow is refused and changes nothing.
    pub fn squeeze(&mut self, count: usize) -> (r: Result<Vec<U>, IOPatternError>)
        requires
            old(self).wf(),
        ensures
            final(self).wf(),
            match r {
                Ok(out) => {
                    &&& old(self)@.safe.squeeze_allowed(count as nat)
                    &&& final(self)@ == old(self)@.after_squeeze::<U>(count as nat)
                    &&& out@ == old(self)@.safe.challenge::<U>(count as nat)
                },
                Err(e) => {
                    &&& e == IOPatternError::PatternMismatch
                    &&& !old(self)@.safe.squeeze_allowed(count as nat)
                    &&& final(self)@ == old(self)@
                },
            },
    {
        self.safe.squeeze(count)
    }

    /// Ratchets the sponge. The transcript is not touched. A call that the
    /// pattern does not allow is refused and changes nothing.
    pub fn ratchet(&mut self) -> (r: Result<(), IOPatternError>)
        requires
            old(self).wf(),
        ensures
            final(self).wf(),
            match r {
                Ok(_) => {
                    &&& old(self)@.safe.ratchet_allowed()
                    &&& final(self)@ == old(self)@.after_ratchet::<U>()
                },
                Err(e) => {
                    &&& e == IOPatternError::PatternMismatch
                    &&& !old(self)@.safe.ratchet_allowed()
                    &&& final(self)@ == old(self)@
                },
            },
    {
        self.safe.ratchet()
    }

    /// Where the cursor stands: the index of the current step and the units
    /// of it already moved.
    pub fn cursor(&self) -> (c: (usize, usize))
        ensures
            c.0 == self@.safe.index,
            c.1 == self@.safe.used,
    {
        self.safe.cursor()
    }

    /// The transcript written so far.
    pub fn transcript(&self) -> (t: &[u8])
        ensures
            t@ == self@.transcript,
    {
        self.transcript.as_slice()
    }

    /// `count` bytes of secret randomness, or `None` where the operating
    /// system gave none; it is not asked where no byte is wanted, and the
    /// empty buffer is returned. Neither the sponge nor the transcript is
    /// touched.
    pub fn secret_bytes(&mut self, count: usize) -> (r: Option<Vec<u8>>)
        ensures
            final(self)@ == old(self)@,
            count == 0 ==> r is Some,
            r is Some ==> r->Some_0@.len() == count,
    {
        random_bytes(&mut self.rng, count)
    }

    /// Ends the session and hands out the transcript.
    pub fn finalize(self) -> (t: Vec<u8>)
        ensures
            t@ == self@.transcript,
    {
        self.transcript
    }
}

} // verus!
