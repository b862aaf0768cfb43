//! The verifier's side of a transcript.

use crate::errors::IOPatternError;
use crate::hash::{
    decode_units, read_units, units_available, units_decodable, DuplexHash, Unit,
};
use crate::pattern::IOPattern;
use crate::safe::{session_start, Safe, SafeView};
use vstd::prelude::*;
use vstd::slice::slice_subrange;

verus! {

/// A verifier's session as a mathematical value: the state of the automaton
/// and the bytes of the transcript not read yet.
pub struct MerlinView<H> {
    pub safe: SafeView<H>,
    pub remaining: Seq<u8>,
}

impl<H> MerlinView<H> {
    /// Why reading and absorbing the next `count` units is refused, if it
    /// is: too few bytes remain; else some bytes stand for no unit; else the
    /// pattern does not allow the absorb.
    pub open spec fn fill_next_error<U: Unit>(self, count: nat) -> Option<
        IOPatternError,
    > where H: DuplexHash<U> {
        if !units_available::<U>(self.remaining, count) {
            Some(IOPatternError::EndOfTranscript)
        } else if !units_decodable::<U>(self.remaining, count) {
            Some(IOPatternError::MalformedUnit)
        } else if !self.safe.absorb_allowed(count) {
            Some(IOPatternError::PatternMismatch)
        } else {
            None
        }
    }

    /// The next `count` units of the transcript.
    pub open spec fn next_units<U: Unit>(self, count: nat) -> Seq<U> {
        decode_units::<U>(self.remaining, count)
    }

    /// The session after the next `count` units have been read and absorbed.
    pub open spec fn after_fill_next<U: Unit>(self, count: nat) -> Self where H: DuplexHash<U> {
        MerlinView {
            safe: self.safe.after_absorb(self.next_units::<U>(count)),
            remaining: self.remaining.skip((count * U::spec_width()) as int),
        }
    }

    /// The session after an allowed absorb of units known to both sides.
    pub open spec fn after_public_input<U: Unit>(self, units: Seq<U>) -> Self where
        H: DuplexHash<U>,
     {
        MerlinView { safe: self.safe.after_absorb(units), ..self }
    }

    /// The session after an allowed squeeze of `n` units.
    pub open spec fn after_squeeze<U: Unit>(self, n: nat) -> Self where H: DuplexHash<U> {
        MerlinView { safe: self.safe.after_squeeze::<U>(n), ..self }
    }

    /// The session after an allowed ratchet.
    pub open spec fn after_ratchet<U: Unit>(self) -> Self where H: DuplexHash<U> {
        MerlinView { safe: self.safe.after_ratchet::<U>(), ..self }
    }
}

/// The verifier's side of a transcript: it reads from the prover's bytes
/// what the prover absorbed, feeds it to its own sponge, and squeezes the
/// same challenges.
pub struct Merlin<'a, H: DuplexHash<U>, U: Unit> {
    safe: Safe<H, U>,
    transcript: &'a [u8],
    position: usize,
}

impl<'a, H: DuplexHash<U>, U: Unit> View for Merlin<'a, H, U> {
    type V = MerlinView<H>;

    closed spec fn view(&self) -> MerlinView<H> {
        MerlinView { safe: self.safe@, remaining: self.transcript@.skip(self.position as int) }
    }
}

impl<'a, H: DuplexHash<U>, U: Unit> Merlin<'a, H, U> {
    /// The invariant of a session.
    pub open spec fn wf(&self) -> bool {
        self@.safe.cursor_valid() && self.in_bounds()
    }

    /// Whether the read position lies within the transcript.
    pub closed spec fn in_bounds(&self) -> bool {
        self.position <= self.transcript@.len()
    }

    /// A verifier's session at the start of `pattern`, with all of
    /// `transcript` still to read.
    pub fn new(pattern: &IOPattern, transcript: &'a [u8]) -> (m: Self)
        requires
            pattern.wf(),
        ensures
            m.wf(),
            m@.safe == session_start::<H, U>(pattern),
            m@.remaining == transcript@,
    {
        assert(transcript@.skip(0) =~= transcript@);
        Merlin { safe: Safe::new(pattern), transcript, position: 0 }
    }

    /// The bytes of the transcript not read yet.
    pub fn remaining(&self) -> (rest: &'a [u8])
        requires
            self.wf(),
        ensures
            rest@ == self@.remaining,
    {
        slice_subrange(self.transcript, self.position, self.transcript.len())
    }

    /// Where the cursor stands: the index of the current step and the units
    /// of it already moved.
    pub fn cursor(&self) -> (c: (usize, usize))
        ensures
            c.0 == self@.safe.index,
            c.1 == self@.safe.used,
    {
        self.safe.cursor()
    }

    /// Reads the next `count` units from the transcript, absorbs them and
    /// hands them out. Fails with `EndOfTranscript` where too few bytes
    /// remain, else with `MalformedUnit` where some bytes stand for no unit,
    /// else with `PatternMismatch` where the pattern does not allow the
    /// absorb. A failed call changes nothing.
    pub fn fill_next(&mut self, count: usize) -> (r: Result<Vec<U>, IOPatternError>)
        requires
            old(self).wf(),
        ensures
            final(self).wf(),
            match r {
                Ok(units) => {
                    &&& old(self)@.fill_next_error::<U>(count as nat) is None
                    &&& units@ == old(self)@.next_units::<U>(count as nat)
                    &&& final(self)@ == old(self)@.after_fill_next::<U>(count as nat)
                },
                Err(e) => {
                    &&& old(self)@.fill_next_error::<U>(count as nat) == Some(e)
                    &&& final(self)@ == old(self)@
                },
            },
    {
        let units = match read_units::<U>(self.transcript, self.position, count) {
            Ok(units) => units,
            Err(e) => {
                return Err(e);
            },
        };
        match self.safe.absorb(units.as_slice()) {
            Ok(_) => {
                let ghost before = self.position;
                let w = U::width();
                let end = self.transcript.len();
                assert(0 <= count * w <= end - before) by {
                    assert(self.transcript@.skip(before as int).len() == end - before);
                }
                self.position = self.position + count * w;
                assert(self.transcript@.skip(self.position as int) =~= self.transcript@.skip(
                    before as int,
                ).skip(count * U::spec_width()));
                Ok(units)
            },
            Err(e) => Err(e),
        }
    }

    /// Absorbs units that both sides know and that the transcript does not
    /// hold. A call that the pattern does not allow is refused and changes
    /// nothing.
    pub fn public_input(&mut self, input: &[U]) -> (r: Result<(), IOPatternError>)
        requires
            old(self).wf(),
        ensures
            final(self).wf(),
            match r {
                Ok(_) => {
                    &&& old(self)@.safe.absorb_allowed(input@.len())
                    &&& final(self)@ == old(self)@.after_public_input(input@)
                },
                Err(e) => {
                    &&& e == IOPatternError::PatternMismatch
                    &&& !old(self)@.safe.absorb_allowed(input@.len())
                    &&& final(self)@ == old(self)@
                },
            },
    {
        self.safe.absorb(input)
    }

    /// Squeezes `count` challenge units. A call that the pattern does not
    /// allow is refused and changes nothing.
    pub fn fill_challenges(&mut self, count: usize) -> (r: Result<Vec<U>, IOPatternError>)
        requires
            old(self).wf(),
        ensures
            final(self).wf(),
            match r {
                Ok(out) => {
                    &&& old(self)@.safe.squeeze_allowed(count as nat)
                    &&& final(self)@ == old(self)@.after_squeeze::<U>(count as nat)
                    &&& out@ == old(self)@.safe.challenge::<U>(count as nat)
                },
                Err(e) => {
                    &&& e == IOPatternError::PatternMismatch
                    &&& !old(self)@.safe.squeeze_allowed(count as nat)
                    &&& final(self)@ == old(self)@
                },
            },
    {
        self.safe.squeeze(count)
    }

    /// Ratchets the sponge. A call that the pattern does not allow is
    /// refused and changes nothing.
    pub fn ratchet(&mut self) -> (r: Result<(), IOPatternError>)
        requires
            old(self).wf(),
        ensures
            final(self).wf(),
            match r {
                Ok(_) => {
                    &&& old(self)@.safe.ratchet_allowed()
                    &&& final(self)@ == old(self)@.after_ratchet::<U>()
                },
                Err(e) => {
                    &&& e == IOPatternError::PatternMismatch
                    &&& !old(self)@.safe.ratchet_allowed()
                    &&& final(self)@ == old(self)@
                },
            },
    {
        self.safe.ratchet()
    }

    /// Ends the session with a last ratchet and hands out the sponge in its
    /// final state together with the bytes not read. Refused where the
    /// current step is no ratchet.
    pub fn preprocess(self) -> (r: Result<(H, &'a [u8]), IOPatternError>)
        requires
            self.wf(),
        ensures
            match r {
                Ok((sponge, rest)) => {
                    &&& self@.safe.ratchet_allowed()
                    &&& sponge == self@.safe.after_ratchet::<U>().sponge
                    &&& rest@ == self@.remaining
                },
                Err(e) => {
                    &&& e == IOPatternError::PatternMismatch
                    &&& !self@.safe.ratchet_allowed()
                },
            },
    {
        let rest = self.remaining();
        match self.safe.preprocess() {
            Ok(sponge) => Ok((sponge, rest)),
            Err(e) => Err(e),
        }
    }
}

} // verus!
