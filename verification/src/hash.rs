//! The two interfaces a backend provides: a unit of the sponge, and the
//! duplex sponge itself; and the moving of units to and from bytes.

use crate::errors::IOPatternError;
use vstd::prelude::*;
use vstd::slice::*;

verus! {

/// One element of the sponge, with a fixed width when written as bytes.
pub trait Unit: Sized {
    /// The number of bytes that one unit takes.
    spec fn spec_width() -> nat;

    /// The bytes that stand for the unit.
    spec fn spec_encode(&self) -> Seq<u8>;

    /// The unit that the bytes stand for, if any.
    spec fn spec_decode(bytes: Seq<u8>) -> Option<Self>;

    /// Every unit is written in `spec_width()` bytes and read back as itself.
    proof fn lemma_round_trip(&self)
        ensures
            self.spec_encode().len() == Self::spec_width(),
            Self::spec_decode(self.spec_encode()) == Some(*self),
    ;

    /// The number of bytes that one unit takes.
    fn width() -> (w: usize)
        ensures
            w == Self::spec_width(),
    ;

    /// Appends the unit's bytes to `out`.
    fn write(&self, out: &mut Vec<u8>)
        ensures
            final(out)@ == old(out)@ + self.spec_encode(),
    ;

    /// Reads one unit from exactly `width()` bytes.
    fn read(bytes: &[u8]) -> (r: Option<Self>)
        requires
            bytes@.len() == Self::spec_width(),
        ensures
            r == Self::spec_decode(bytes@),
    ;
}

impl Unit for u8 {
    open spec fn spec_width() -> nat {
        1
    }

    open spec fn spec_encode(&self) -> Seq<u8> {
        seq![*self]
    }

    open spec fn spec_decode(bytes: Seq<u8>) -> Option<u8> {
        if bytes.len() == 1 {
            Some(bytes[0])
        } else {
            None
        }
    }

    proof fn lemma_round_trip(&self) {
    }

    fn width() -> (w: usize) {
        1
    }

    fn write(&self, out: &mut Vec<u8>) {
        out.push(*self);
        assert(final(out)@ =~= old(out)@ + self.spec_encode());
    }

    fn read(bytes: &[u8]) -> (r: Option<u8>) {
        Some(bytes[0])
    }
}

/// The byte that stands for a bit.
pub open spec fn bit_code(b: bool) -> u8 {
    if b {
        1
    } else {
        0
    }
}

/// A bit is a unit of one byte, 0 or 1; no other byte stands for a bit.
impl Unit for bool {
    open spec fn spec_width() -> nat {
        1
    }

    open spec fn spec_encode(&self) -> Seq<u8> {
        seq![bit_code(*self)]
    }

    open spec fn spec_decode(bytes: Seq<u8>) -> Option<bool> {
        if bytes.len() == 1 && bytes[0] == 0 {
            Some(false)
        } else if bytes.len() == 1 && bytes[0] == 1 {
            Some(true)
        } else {
            None
        }
    }

    proof fn lemma_round_trip(&self) {
    }

    fn width() -> (w: usize) {
        1
    }

    fn write(&self, out: &mut Vec<u8>) {
        out.push(if *self { 1u8 } else { 0u8 });
        assert(final(out)@ =~= old(out)@ + self.spec_encode());
    }

    fn read(bytes: &[u8]) -> (r: Option<bool>) {
        let b = bytes[0];
        if b == 0 {
            Some(false)
        } else if b == 1 {
            Some(true)
        } else {
            None
        }
    }
}

/// A duplex sponge over units of type `U`. Each operation is a function of
/// the state and of its input, named by the matching spec function.
pub trait DuplexHash<U: Unit>: Sized {
    /// The initial state for a domain separator.
    spec fn spec_new(tag: Seq<u8>) -> Self;

    /// The state after absorbing `input`.
    spec fn spec_absorb(&self, input: Seq<U>) -> Self;

    /// The state after squeezing `count` units.
    spec fn spec_squeeze_state(&self, count: nat) -> Self;

    /// The units that squeezing `count` units gives.
    spec fn spec_squeeze_output(&self, count: nat) -> Seq<U>;

    /// The state after a ratchet.
    spec fn spec_ratchet(&self) -> Self;

    /// A sponge in its initial state for the domain separator `tag`.
    fn new(tag: &[u8]) -> (s: Self)
        ensures
            s == Self::spec_new(tag@),
    ;

    /// Mixes `input` into the state.
    fn absorb_unchecked(&mut self, input: &[U])
        ensures
            *final(self) == old(self).spec_absorb(input@),
    ;

    /// Draws `count` units from the state.
    fn squeeze_unchecked(&mut self, count: usize) -> (out: Vec<U>)
        ensures
            *final(self) == old(self).spec_squeeze_state(count as nat),
            out@ == old(self).spec_squeeze_output(count as nat),
            out@.len() == count,
    ;

    /// Mixes the state so that what was absorbed cannot be recovered from it.
    fn ratchet_unchecked(&mut self)
        ensures
            *final(self) == old(self).spec_ratchet(),
    ;
}

/// The bytes of the units, one unit after the other.
pub open spec fn encode_units<U: Unit>(units: Seq<U>) -> Seq<u8>
    decreases units.len(),
{
    if units.len() == 0 {
        Seq::empty()
    } else {
        encode_units(units.drop_last()) + units.last().spec_encode()
    }
}

/// The `i`-th run of `w` bytes.
pub open spec fn chunk(bytes: Seq<u8>, w: nat, i: int) -> Seq<u8> {
    bytes.subrange(i * w, i * w + w)
}

/// Whether `bytes` holds room for `count` units.
pub open spec fn units_available<U: Unit>(bytes: Seq<u8>, count: nat) -> bool {
    count * U::spec_width() <= bytes.len()
}

/// Whether each of the first `count` runs of `bytes` stands for a unit.
pub open spec fn units_decodable<U: Unit>(bytes: Seq<u8>, count: nat) -> bool {
    forall|i: int| 0 <= i < count ==> (#[trigger] U::spec_decode(chunk(bytes, U::spec_width(), i))) is Some
}

/// The units that the first `count` runs of `bytes` stand for.
pub open spec fn decode_units<U: Unit>(bytes: Seq<u8>, count: nat) -> Seq<U> {
    Seq::new(count, |i: int| U::spec_decode(chunk(bytes, U::spec_width(), i)).unwrap())
}

/// Appends the bytes of each unit to `out`, in order.
pub fn write_units<U: Unit>(units: &[U], out: &mut Vec<u8>)
    ensures
        final(out)@ == old(out)@ + encode_units(units@),
{
    let mut i: usize = 0;
    assert(units@.take(0) =~= Seq::<U>::empty());
    assert(out@ =~= old(out)@ + encode_units(units@.take(0)));
    while i < units.len()
        invariant
            i <= units.len(),
            out@ == old(out)@ + encode_units(units@.take(i as int)),
        decreases units.len() - i,
    {
        let ghost before = out@;
        units[i].write(out);
        proof {
            let next = units@.take(i + 1);
            assert(next.drop_last() =~= units@.take(i as int));
            assert(next.last() == units@[i as int]);
            assert(out@ =~= old(out)@ + encode_units(next));
        }
        i += 1;
    }
    assert(units@.take(i as int) =~= units@);
}

/// Reads `count` units from `bytes`, starting at `start`. Fails with
/// `EndOfTranscript` where too few bytes remain, else with `MalformedUnit`
/// where some run of bytes stands for no unit.
pub fn read_units<U: Unit>(bytes: &[u8], start: usize, count: usize) -> (r: Result<
    Vec<U>,
    IOPatternError,
>)
    requires
        start <= bytes@.len(),
    ensures
        match r {
            Ok(units) => {
                &&& units_available::<U>(bytes@.skip(start as int), count as nat)
                &&& units_decodable::<U>(bytes@.skip(start as int), count as nat)
                &&& units@ == decode_units::<U>(bytes@.skip(start as int), count as nat)
            },
            Err(e) => if !units_available::<U>(bytes@.skip(start as int), count as nat) {
                e == IOPatternError::EndOfTranscript
            } else {
                e == IOPatternError::MalformedUnit && !units_decodable::<U>(
                    bytes@.skip(start as int),
                    count as nat,
                )
            },
        },
{
    let w = U::width();
    let ghost rest = bytes@.skip(start as int);
    let room = bytes.len() - start;
    let total = match count.checked_mul(w) {
        Some(t) => t,
        None => {
            return Err(IOPatternError::EndOfTranscript);
        },
    };
    if total > room {
        return Err(IOPatternError::EndOfTranscript);
    }
    let mut out: Vec<U> = Vec::new();
    let mut i: usize = 0;
    while i < count
        invariant
            i <= count,
            out.len() == i,
            w == U::spec_width(),
            total == count * w,
            start + total <= bytes@.len() <= usize::MAX,
            rest == bytes@.skip(start as int),
            forall|j: int|
                0 <= j < i ==> (#[trigger] U::spec_decode(chunk(rest, U::spec_width(), j)))
                    == Some(out@[j]),
        decreases count - i,
    {
        assert(0 <= i * w && i * w + w <= count * w) by (nonlinear_arith)
            requires
                i < count,
        ;
        let lo = start + i * w;
        let piece = slice_subrange(bytes, lo, lo + w);
        assert(piece@ =~= chunk(rest, U::spec_width(), i as int));
        match U::read(piece) {
            Some(u) => {
                out.push(u);
            },
            None => {
                return Err(IOPatternError::MalformedUnit);
            },
        }
        i += 1;
    }
    assert(out@ =~= decode_units::<U>(rest, count as nat));
    Ok(out)
}

/// The bytes of `units` are `units.len()` runs of one width, and the `i`-th
/// run holds the `i`-th unit, whatever bytes follow.
pub proof fn lemma_encode_units_chunks<U: Unit>(units: Seq<U>, tail: Seq<u8>)
    ensures
        encode_units(units).len() == units.len() * U::spec_width(),
        forall|i: int|
            0 <= i < units.len() ==> #[trigger] chunk(
                encode_units(units) + tail,
                U::spec_width(),
                i,
            ) == units[i].spec_encode(),
    decreases units.len(),
{
    let w = U::spec_width();
    if units.len() == 0 {
        assert(units.len() * w == 0) by (nonlinear_arith)
            requires
                units.len() == 0,
        ;
    } else {
        let front = units.drop_last();
        let last = units.last();
        let n = front.len() as int;
        last.lemma_round_trip();
        lemma_encode_units_chunks(front, last.spec_encode() + tail);
        assert(units.len() * w == n * w + w) by (nonlinear_arith)
            requires
                units.len() == n + 1,
        ;
        assert(encode_units(units) + tail =~= encode_units(front) + (last.spec_encode() + tail));
        assert forall|i: int| 0 <= i < units.len() implies #[trigger] chunk(
            encode_units(units) + tail,
            w,
            i,
        ) == units[i].spec_encode() by {
            if i < n {
                assert(chunk(encode_units(front) + (last.spec_encode() + tail), w, i)
                    == front[i].spec_encode());
            } else {
                assert(chunk(encode_units(units) + tail, w, n) =~= last.spec_encode());
            }
        }
    }
}

/// Reading back what was written: the bytes of `units`, whatever follows
/// them, hold room for `units.len()` units, each run stands for a unit, and
/// the units read are `units`.
pub proof fn lemma_units_round_trip<U: Unit>(units: Seq<U>, tail: Seq<u8>)
    ensures
        units_available::<U>(encode_units(units) + tail, units.len()),
        units_decodable::<U>(encode_units(units) + tail, units.len()),
        decode_units::<U>(encode_units(units) + tail, units.len()) == units,
{
    lemma_encode_units_chunks(units, tail);
    let bytes = encode_units(units) + tail;
    assert forall|i: int| 0 <= i < units.len() implies (#[trigger] U::spec_decode(
        chunk(bytes, U::spec_width(), i),
    )) == Some(units[i]) by {
        units[i].lemma_round_trip();
    }
    assert(decode_units::<U>(bytes, units.len()) =~= units);
}

} // verus!
