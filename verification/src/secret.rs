//! The prover's source of secret randomness: the operating system's
//! generator, reached through `rand`.

use rand::rngs::OsRng;
use rand::RngCore;
use vstd::prelude::*;

verus! {

/// `rand::rngs::OsRng`, the handle to the operating system's generator.
/// Nothing inside it is visible here.
#[verifier::external_type_specification]
#[verifier::external_body]
pub struct ExOsRng(rand::rngs::OsRng);

/// Calls `OsRng::default`, which makes a handle to the operating system's
/// generator. Nothing is claimed of the handle.
#[verifier::external_body]
pub(crate) fn system_rng() -> OsRng {
    OsRng::default()
}

/// Calls `OsRng::try_fill_bytes` on the whole buffer and reports whether it
/// succeeded. Claimed: the buffer keeps its length. Nothing is claimed of
/// the bytes, which differ from call to call.
#[verifier::external_body]
pub(crate) fn try_fill(rng: &mut OsRng, buf: &mut Vec<u8>) -> (ok: bool)
    ensures
        final(buf)@.len() == old(buf)@.len(),
{
    rng.try_fill_bytes(buf.as_mut_slice()).is_ok()
}

/// A buffer of `count` zero bytes: what is handed to the generator to fill.
pub fn zeroed(count: usize) -> (buf: Vec<u8>)
    ensures
        buf@ == Seq::new(count as nat, |i: int| 0u8),
{
    let mut buf: Vec<u8> = Vec::new();
    let mut i: usize = 0;
    while i < count
        invariant
            i <= count,
            buf@ == Seq::new(i as nat, |j: int| 0u8),
        decreases count - i,
    {
        buf.push(0u8);
        assert(buf@ =~= Seq::new((i + 1) as nat, |j: int| 0u8));
        i += 1;
    }
    buf
}

/// What a draw gives once the generator has answered: the buffer where it
/// reported success, nothing where it reported failure.
pub fn drawn(ok: bool, buf: Vec<u8>) -> (r: Option<Vec<u8>>)
    ensures
        r == (if ok {
            Some(buf)
        } else {
            None
        }),
{
    if ok {
        Some(buf)
    } else {
        None
    }
}

/// A buffer of `count` bytes drawn from `rng`, or `None` where the
/// operating system's generator failed. Where no byte is wanted the
/// generator is not asked, and the empty buffer is returned. Otherwise the
/// generator is handed `count` zero bytes to fill, and decides.
pub fn random_bytes(rng: &mut OsRng, count: usize) -> (r: Option<Vec<u8>>)
    ensures
        count == 0 ==> r is Some,
        r is Some ==> r->Some_0@.len() == count,
{
    let mut buf = zeroed(count);
    if count == 0 {
        return Some(buf);
    }
    let ok = try_fill(rng, &mut buf);
    drawn(ok, buf)
}

} // verus!
