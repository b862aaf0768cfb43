//! A small duplex sponge over a 64-bit state, for exercising sessions.
//! It mixes with shifts and exclusive-or alone and offers no security:
//! a protocol in earnest brings a cryptographic backend of its own.

use crate::hash::{bit_code, DuplexHash};
use vstd::prelude::*;

verus! {

/// The constant mixed in before each squeezed unit.
pub const SQUEEZE_SALT: u64 = 0x9e37_79b9_7f4a_7c15;

/// The constant mixed in by a ratchet.
pub const RATCHET_SALT: u64 = 0xa5a5_a5a5_a5a5_a5a5;

/// One round of mixing: three shifts, each folded back into the word.
pub open spec fn spec_stir(x: u64) -> u64 {
    let a = x ^ (x << 13);
    let b = a ^ (a >> 7);
    b ^ (b << 17)
}

/// One round of mixing.
pub fn stir(x: u64) -> (r: u64)
    ensures
        r == spec_stir(x),
{
    let a = x ^ (x << 13);
    let b = a ^ (a >> 7);
    b ^ (b << 17)
}

/// The state after one byte has been mixed in.
pub open spec fn spec_feed(x: u64, code: u8) -> u64 {
    spec_stir(x ^ (code as u64 | 0x100))
}

/// Mixes one byte into the state.
pub fn feed(x: u64, code: u8) -> (r: u64)
    ensures
        r == spec_feed(x, code),
{
    stir(x ^ (code as u64 | 0x100))
}

/// The state after each byte of `codes` has been mixed in, in order.
pub open spec fn spec_feed_all(x: u64, codes: Seq<u8>) -> u64
    decreases codes.len(),
{
    if codes.len() == 0 {
        x
    } else {
        spec_feed(spec_feed_all(x, codes.drop_last()), codes.last())
    }
}

/// The state after `n` units have been drawn.
pub open spec fn spec_draw(x: u64, n: nat) -> u64
    decreases n,
{
    if n == 0 {
        x
    } else {
        spec_stir(spec_draw(x, (n - 1) as nat) ^ SQUEEZE_SALT)
    }
}

/// The byte that a state shows.
pub open spec fn spec_shown(x: u64) -> u8 {
    ((x >> 24) & 0xff) as u8
}

/// The byte that a state shows.
pub fn shown(x: u64) -> (b: u8)
    ensures
        b == spec_shown(x),
{
    let low = (x >> 24) & 0xff;
    assert(low <= 0xff) by (bit_vector)
        requires
            low == (x >> 24) & 0xff,
    ;
    low as u8
}

/// A duplex sponge with a state of 64 bits.
#[derive(Clone, Copy, Debug, PartialEq, Eq, Structural)]
pub struct MixSponge {
    pub state: u64,
}

impl MixSponge {
    fn seeded(tag: &[u8]) -> (s: MixSponge)
        ensures
            s.state == spec_stir(spec_feed_all(0, tag@) ^ RATCHET_SALT),
    {
        let mut state: u64 = 0;
        let mut i: usize = 0;
        assert(tag@.take(0) =~= Seq::<u8>::empty());
        while i < tag.len()
            invariant
                i <= tag.len(),
                state == spec_feed_all(0, tag@.take(i as int)),
            decreases tag.len() - i,
        {
            proof {
                let next = tag@.take(i + 1);
                assert(next.drop_last() =~= tag@.take(i as int));
            }
            state = feed(state, tag[i]);
            i += 1;
        }
        assert(tag@.take(i as int) =~= tag@);
        MixSponge { state: stir(state ^ RATCHET_SALT) }
    }
}

impl DuplexHash<u8> for MixSponge {
    open spec fn spec_new(tag: Seq<u8>) -> Self {
        MixSponge { state: spec_stir(spec_feed_all(0, tag) ^ RATCHET_SALT) }
    }

    open spec fn spec_absorb(&self, input: Seq<u8>) -> Self {
        MixSponge { state: spec_feed_all(self.state, input) }
    }

    open spec fn spec_squeeze_state(&self, count: nat) -> Self {
        MixSponge { state: spec_draw(self.state, count) }
    }

    open spec fn spec_squeeze_output(&self, count: nat) -> Seq<u8> {
        Seq::new(count, |i: int| spec_shown(spec_draw(self.state, (i + 1) as nat)))
    }

    open spec fn spec_ratchet(&self) -> Self {
        MixSponge { state: spec_stir(self.state ^ RATCHET_SALT) }
    }

    fn new(tag: &[u8]) -> (s: Self) {
        MixSponge::seeded(tag)
    }

    fn absorb_unchecked(&mut self, input: &[u8]) {
        let mut i: usize = 0;
        assert(input@.take(0) =~= Seq::<u8>::empty());
        while i < input.len()
            invariant
                i <= input.len(),
                self.state == spec_feed_all(old(self).state, input@.take(i as int)),
            decreases input.len() - i,
        {
            proof {
                let next = input@.take(i + 1);
                assert(next.drop_last() =~= input@.take(i as int));
            }
            self.state = feed(self.state, input[i]);
            i += 1;
        }
        assert(input@.take(i as int) =~= input@);
    }

    fn squeeze_unchecked(&mut self, count: usize) -> (out: Vec<u8>) {
        let mut out: Vec<u8> = Vec::new();
        let mut i: usize = 0;
        while i < count
            invariant
                i <= count,
                out@.len() == i,
                self.state == spec_draw(old(self).state, i as nat),
                forall|j: int|
                    0 <= j < i ==> out@[j] == spec_shown(
                        spec_draw(old(self).state, (j + 1) as nat),
                    ),
            decreases count - i,
        {
            self.state = stir(self.state ^ SQUEEZE_SALT);
            out.push(shown(self.state));
            i += 1;
        }
        assert(out@ =~= old(self).spec_squeeze_output(count as nat));
        out
    }

    fn ratchet_unchecked(&mut self) {
        self.state = stir(self.state ^ RATCHET_SALT);
    }
}

impl DuplexHash<bool> for MixSponge {
    open spec fn spec_new(tag: Seq<u8>) -> Self {
        MixSponge { state: spec_stir(spec_feed_all(0, tag) ^ RATCHET_SALT) }
    }

    open spec fn spec_absorb(&self, input: Seq<bool>) -> Self {
        MixSponge { state: spec_feed_all(self.state, input.map_values(|b: bool| bit_code(b))) }
    }

    open spec fn spec_squeeze_state(&self, count: nat) -> Self {
        MixSponge { state: spec_draw(self.state, count) }
    }

    open spec fn spec_squeeze_output(&self, count: nat) -> Seq<bool> {
        Seq::new(count, |i: int| spec_shown(spec_draw(self.state, (i + 1) as nat)) >= 128)
    }

    open spec fn spec_ratchet(&self) -> Self {
        MixSponge { state: spec_stir(self.state ^ RATCHET_SALT) }
    }

    fn new(tag: &[u8]) -> (s: Self) {
        MixSponge::seeded(tag)
    }

    fn absorb_unchecked(&mut self, input: &[bool]) {
        let ghost codes = input@.map_values(|b: bool| bit_code(b));
        let mut i: usize = 0;
        assert(codes.take(0) =~= Seq::<u8>::empty());
        while i < input.len()
            invariant
                i <= input.len(),
                codes == input@.map_values(|b: bool| bit_code(b)),
                self.state == spec_feed_all(old(self).state, codes.take(i as int)),
            decreases input.len() - i,
        {
            proof {
                let next = codes.take(i + 1);
                assert(next.drop_last() =~= codes.take(i as int));
                assert(next.last() == bit_code(input@[i as int]));
            }
            self.state = feed(self.state, if input[i] { 1u8 } else { 0u8 });
            i += 1;
        }
        assert(codes.take(i as int) =~= codes);
    }

    fn squeeze_unchecked(&mut self, count: usize) -> (out: Vec<bool>) {
        let mut out: Vec<bool> = Vec::new();
        let mut i: usize = 0;
        while i < count
            invariant
                i <= count,
                out@.len() == i,
                self.state == spec_draw(old(self).state, i as nat),
                forall|j: int|
                    0 <= j < i ==> out@[j] == (spec_shown(
                        spec_draw(old(self).state, (j + 1) as nat),
                    ) >= 128),
            decreases count - i,
        {
            self.state = stir(self.state ^ SQUEEZE_SALT);
            out.push(shown(self.state) >= 128);
            i += 1;
        }
        assert(out@ =~= DuplexHash::<bool>::spec_squeeze_output(old(self), count as nat));
        out
    }

    fn ratchet_unchecked(&mut self) {
        self.state = stir(self.state ^ RATCHET_SALT);
    }
}

} // verus!
