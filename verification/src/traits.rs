//! Sessions over bytes: the calls of a transcript whose units are bytes,
//! under names that say so.

use crate::errors::IOPatternError;
use crate::hash::DuplexHash;
use crate::merlin::Merlin;
use vstd::prelude::*;

verus! {

/// A session that absorbs public bytes and squeezes challenge bytes.
pub trait ByteTranscript: Sized {
    /// The invariant of the session.
    spec fn bytes_wf(&self) -> bool;

    /// Whether `r` and `after` are what absorbing `input` gives.
    spec fn public_bytes_gives(
        &self,
        input: Seq<u8>,
        after: &Self,
        r: Result<(), IOPatternError>,
    ) -> bool;

    /// Whether `r` and `after` are what squeezing `count` bytes gives.
    spec fn challenge_bytes_give(
        &self,
        count: nat,
        after: &Self,
        r: Result<Seq<u8>, IOPatternError>,
    ) -> bool;

    /// Absorbs bytes that both sides know.
    fn public_bytes(&mut self, input: &[u8]) -> (r: Result<(), IOPatternError>)
        requires
            old(self).bytes_wf(),
        ensures
            final(self).bytes_wf(),
            old(self).public_bytes_gives(input@, final(self), r),
    ;

    /// Squeezes `count` challenge bytes.
    fn fill_challenge_bytes(&mut self, count: usize) -> (r: Result<Vec<u8>, IOPatternError>)
        requires
            old(self).bytes_wf(),
        ensures
            final(self).bytes_wf(),
            old(self).challenge_bytes_give(
                count as nat,
                final(self),
                match r {
                    Ok(out) => Ok(out@),
                    Err(e) => Err(e),
                },
            ),
    ;
}

/// A session that reads bytes from a transcript.
pub trait ByteTranscriptReader: Sized {
    /// The invariant of the session.
    spec fn reader_wf(&self) -> bool;

    /// Whether `r` and `after` are what reading `count` bytes gives.
    spec fn next_bytes_give(
        &self,
        count: nat,
        after: &Self,
        r: Result<Seq<u8>, IOPatternError>,
    ) -> bool;

    /// Reads the next `count` bytes of the transcript and absorbs them.
    fn fill_next_bytes(&mut self, count: usize) -> (r: Result<Vec<u8>, IOPatternError>)
        requires
            old(self).reader_wf(),
        ensures
            final(self).reader_wf(),
            old(self).next_bytes_give(
                count as nat,
                final(self),
                match r {
                    Ok(out) => Ok(out@),
                    Err(e) => Err(e),
                },
            ),
    ;
}

impl<'a, H: DuplexHash<u8>> ByteTranscript for Merlin<'a, H, u8> {
    open spec fn bytes_wf(&self) -> bool {
        self.wf()
    }

    /// As `Merlin::public_input` on bytes.
    open spec fn public_bytes_gives(
        &self,
        input: Seq<u8>,
        after: &Self,
        r: Result<(), IOPatternError>,
    ) -> bool {
        if self@.safe.absorb_allowed(input.len()) {
            r is Ok && after@ == self@.after_public_input(input)
        } else {
            r == Err::<(), IOPatternError>(IOPatternError::PatternMismatch) && after@ == self@
        }
    }

    /// As `Merlin::fill_challenges` on bytes.
    open spec fn challenge_bytes_give(
        &self,
        count: nat,
        after: &Self,
        r: Result<Seq<u8>, IOPatternError>,
    ) -> bool {
        if self@.safe.squeeze_allowed(count) {
            r == Ok::<Seq<u8>, IOPatternError>(self@.safe.challenge::<u8>(count)) && after@
                == self@.after_squeeze::<u8>(count)
        } else {
            r == Err::<Seq<u8>, IOPatternError>(IOPatternError::PatternMismatch) && after@
                == self@
        }
    }

    fn public_bytes(&mut self, input: &[u8]) -> (r: Result<(), IOPatternError>) {
        self.public_input(input)
    }

    fn fill_challenge_bytes(&mut self, count: usize) -> (r: Result<Vec<u8>, IOPatternError>) {
        self.fill_challenges(count)
    }
}

impl<'a, H: DuplexHash<u8>> ByteTranscriptReader for Merlin<'a, H, u8> {
    open spec fn reader_wf(&self) -> bool {
        self.wf()
    }

    /// As `Merlin::fill_next` on bytes.
    open spec fn next_bytes_give(
        &self,
        count: nat,
        after: &Self,
        r: Result<Seq<u8>, IOPatternError>,
    ) -> bool {
        match self@.fill_next_error::<u8>(count) {
            None => r == Ok::<Seq<u8>, IOPatternError>(self@.next_units::<u8>(count)) && after@
                == self@.after_fill_next::<u8>(count),
            Some(e) => r == Err::<Seq<u8>, IOPatternError>(e) && after@ == self@,
        }
    }

    fn fill_next_bytes(&mut self, count: usize) -> (r: Result<Vec<u8>, IOPatternError>) {
        self.fill_next(count)
    }
}

} // verus!
