//! Why prover and verifier agree: the verifier, replaying the prover's
//! steps on the prover's transcript, reads what the prover absorbed and
//! squeezes the prover's challenges.

use crate::arthur::ArthurView;
use crate::hash::{encode_units, lemma_encode_units_chunks, lemma_units_round_trip, DuplexHash, Unit};
use crate::merlin::MerlinView;
use crate::pattern::{op_count, op_valid, IOPattern, OpView};
use crate::safe::session_start;
use vstd::prelude::*;

verus! {

/// One call of the prover.
pub enum Step<U> {
    /// Absorb these units.
    Absorb(Seq<U>),
    /// Squeeze this many units.
    Squeeze(nat),
    /// Ratchet.
    Ratchet,
}

/// One call of the verifier.
pub enum Call {
    /// Read this many units from the transcript and absorb them.
    FillNext(nat),
    /// Squeeze this many units.
    Challenges(nat),
    /// Ratchet.
    Ratchet,
}

/// The verifier's call that answers a step of the prover. It knows the
/// number of the units absorbed, not the units.
pub open spec fn call_of<U>(step: Step<U>) -> Call {
    match step {
        Step::Absorb(units) => Call::FillNext(units.len()),
        Step::Squeeze(n) => Call::Challenges(n),
        Step::Ratchet => Call::Ratchet,
    }
}

/// The verifier's calls that answer the prover's steps.
pub open spec fn calls_of<U>(steps: Seq<Step<U>>) -> Seq<Call> {
    steps.map_values(|s: Step<U>| call_of(s))
}

/// The bytes that the prover writes in the course of `steps`.
pub open spec fn written<U: Unit>(steps: Seq<Step<U>>) -> Seq<u8>
    decreases steps.len(),
{
    if steps.len() == 0 {
        Seq::empty()
    } else {
        match steps[0] {
            Step::Absorb(units) => encode_units(units) + written(steps.skip(1)),
            _ => written(steps.skip(1)),
        }
    }
}

/// The outcome of a run with `first` put in front of what was seen.
pub open spec fn seen_first<S, U>(first: Seq<U>, then: Option<(S, Seq<Seq<U>>)>) -> Option<
    (S, Seq<Seq<U>>),
> {
    match then {
        Some((s, seen)) => Some((s, seq![first] + seen)),
        None => None,
    }
}

/// The prover's run of `steps` from the session `v`: `None` where a step is
/// refused, else the session at the end and, step by step, what the prover
/// saw: the units it absorbed, the challenges it squeezed, nothing at a
/// ratchet.
pub open spec fn prover_run<H: DuplexHash<U>, U: Unit>(
    v: ArthurView<H>,
    steps: Seq<Step<U>>,
) -> Option<(ArthurView<H>, Seq<Seq<U>>)>
    decreases steps.len(),
{
    if steps.len() == 0 {
        Some((v, Seq::empty()))
    } else {
        let rest = steps.skip(1);
        match steps[0] {
            Step::Absorb(units) => if v.safe.absorb_allowed(units.len()) {
                seen_first(units, prover_run(v.after_absorb(units), rest))
            } else {
                None
            },
            Step::Squeeze(n) => if v.safe.squeeze_allowed(n) {
                seen_first(v.safe.challenge::<U>(n), prover_run(v.after_squeeze::<U>(n), rest))
            } else {
                None
            },
            Step::Ratchet => if v.safe.ratchet_allowed() {
                seen_first(Seq::empty(), prover_run(v.after_ratchet::<U>(), rest))
            } else {
                None
            },
        }
    }
}

/// The verifier's run of `calls` from the session `v`: `None` where a call
/// fails, else the session at the end and, call by call, what the verifier
/// saw: the units it read, the challenges it squeezed, nothing at a ratchet.
pub open spec fn verifier_run<H: DuplexHash<U>, U: Unit>(
    v: MerlinView<H>,
    calls: Seq<Call>,
) -> Option<(MerlinView<H>, Seq<Seq<U>>)>
    decreases calls.len(),
{
    if calls.len() == 0 {
        Some((v, Seq::empty()))
    } else {
        let rest = calls.skip(1);
        match calls[0] {
            Call::FillNext(n) => if v.fill_next_error::<U>(n) is None {
                seen_first(v.next_units::<U>(n), verifier_run(v.after_fill_next::<U>(n), rest))
            } else {
                None
            },
            Call::Challenges(n) => if v.safe.squeeze_allowed(n) {
                seen_first(v.safe.challenge::<U>(n), verifier_run(v.after_squeeze::<U>(n), rest))
            } else {
                None
            },
            Call::Ratchet => if v.safe.ratchet_allowed() {
                seen_first(Seq::empty(), verifier_run(v.after_ratchet::<U>(), rest))
            } else {
                None
            },
        }
    }
}

/// A run of the prover appends to the transcript the bytes of what it
/// absorbed, in order, and nothing else.
pub proof fn lemma_prover_writes<H: DuplexHash<U>, U: Unit>(v: ArthurView<H>, steps: Seq<Step<U>>)
    requires
        prover_run(v, steps) is Some,
    ensures
        prover_run(v, steps)->Some_0.0.transcript == v.transcript + written(steps),
    decreases steps.len(),
{
    if steps.len() == 0 {
        assert(v.transcript + written(steps) =~= v.transcript);
    } else {
        let rest = steps.skip(1);
        match steps[0] {
            Step::Absorb(units) => {
                lemma_prover_writes(v.after_absorb(units), rest);
                assert((v.transcript + encode_units(units)) + written(rest) =~= v.transcript
                    + written(steps));
            },
            Step::Squeeze(n) => {
                lemma_prover_writes(v.after_squeeze::<U>(n), rest);
            },
            Step::Ratchet => {
                lemma_prover_writes(v.after_ratchet::<U>(), rest);
            },
        }
    }
}

/// Agreement of the two sides. Let prover and verifier stand at the same
/// state of the automaton, let the prover's run of `steps` succeed, and let
/// the verifier's input begin with the bytes that this run writes. Then the
/// verifier's run of the answering calls succeeds; it reads the very units
/// that the prover absorbed and squeezes the very challenges that the
/// prover squeezed; it ends at the prover's state of the automaton, with
/// exactly the bytes left that followed the prover's.
pub proof fn lemma_verifier_follows_prover<H: DuplexHash<U>, U: Unit>(
    a: ArthurView<H>,
    m: MerlinView<H>,
    steps: Seq<Step<U>>,
    tail: Seq<u8>,
)
    requires
        a.safe == m.safe,
        prover_run(a, steps) is Some,
        m.remaining == written(steps) + tail,
    ensures
        verifier_run::<H, U>(m, calls_of(steps)) == Some(
            (
                MerlinView { safe: prover_run(a, steps)->Some_0.0.safe, remaining: tail },
                prover_run(a, steps)->Some_0.1,
            ),
        ),
    decreases steps.len(),
{
    let calls = calls_of(steps);
    if steps.len() == 0 {
        assert(m.remaining =~= tail);
    } else {
        let rest = steps.skip(1);
        assert(calls.skip(1) =~= calls_of(rest));
        assert(calls[0] == call_of(steps[0]));
        match steps[0] {
            Step::Absorb(units) => {
                let after = written(rest) + tail;
                assert(m.remaining =~= encode_units(units) + after);
                lemma_units_round_trip(units, after);
                lemma_encode_units_chunks(units, after);
                let n = units.len();
                assert(m.next_units::<U>(n) == units);
                assert(m.remaining.skip((n * U::spec_width()) as int) =~= after);
                lemma_verifier_follows_prover(
                    a.after_absorb(units),
                    m.after_fill_next::<U>(n),
                    rest,
                    tail,
                );
            },
            Step::Squeeze(n) => {
                lemma_verifier_follows_prover(
                    a.after_squeeze::<U>(n),
                    m.after_squeeze::<U>(n),
                    rest,
                    tail,
                );
            },
            Step::Ratchet => {
                lemma_verifier_follows_prover(
                    a.after_ratchet::<U>(),
                    m.after_ratchet::<U>(),
                    rest,
                    tail,
                );
            },
        }
    }
}

/// Determinism: a prover and a verifier that start from one pattern agree.
/// Where the prover's run of `steps` from the start of `pattern` succeeds,
/// its transcript is the bytes of what it absorbed; and a verifier that
/// starts from the same pattern on that transcript, whatever bytes follow
/// it, reads the same units and squeezes the same challenges.
pub proof fn lemma_same_pattern_same_challenges<H: DuplexHash<U>, U: Unit>(
    pattern: &IOPattern,
    steps: Seq<Step<U>>,
    tail: Seq<u8>,
)
    requires
        prover_run(
            ArthurView { safe: session_start::<H, U>(pattern), transcript: Seq::empty() },
            steps,
        ) is Some,
    ensures
        ({
            let a = ArthurView { safe: session_start::<H, U>(pattern), transcript: Seq::empty() };
            let m = MerlinView {
                safe: session_start::<H, U>(pattern),
                remaining: prover_run(a, steps)->Some_0.0.transcript + tail,
            };
            &&& prover_run(a, steps)->Some_0.0.transcript == written(steps)
            &&& verifier_run::<H, U>(m, calls_of(steps)) is Some
            &&& verifier_run::<H, U>(m, calls_of(steps))->Some_0.1 == prover_run(
                a,
                steps,
            )->Some_0.1
            &&& verifier_run::<H, U>(m, calls_of(steps))->Some_0.0.remaining == tail
        }),
{
    let a = ArthurView { safe: session_start::<H, U>(pattern), transcript: Seq::empty() };
    lemma_prover_writes(a, steps);
    assert(a.transcript + written(steps) =~= written(steps));
    let m = MerlinView { safe: session_start::<H, U>(pattern), remaining: written(steps) + tail };
    lemma_verifier_follows_prover(a, m, steps, tail);
}

/// The number of units that a call moves; none for a ratchet.
pub open spec fn amount<U>(step: Step<U>) -> nat {
    match step {
        Step::Absorb(units) => units.len(),
        Step::Squeeze(n) => n,
        Step::Ratchet => 0,
    }
}

/// The number of units that the calls move together.
pub open spec fn total<U>(steps: Seq<Step<U>>) -> nat
    decreases steps.len(),
{
    if steps.len() == 0 {
        0
    } else {
        amount(steps[0]) + total(steps.skip(1))
    }
}

/// Whether a call is of the kind that a declared step asks for.
pub open spec fn same_kind<U>(step: Step<U>, op: OpView) -> bool {
    match op {
        OpView::Absorb(_, _) => step is Absorb,
        OpView::Squeeze(_, _) => step is Squeeze,
        OpView::Ratchet => step is Ratchet,
    }
}

/// Whether `part` performs what is left of a declared step, `left` units of
/// it: calls of the step's kind that move at least one unit each and `left`
/// units together; for a ratchet, the one call.
pub open spec fn performs<U>(part: Seq<Step<U>>, op: OpView, left: nat) -> bool {
    &&& forall|i: int| 0 <= i < part.len() ==> same_kind(#[trigger] part[i], op)
    &&& if op is Ratchet {
        part.len() == 1
    } else {
        &&& forall|i: int| 0 <= i < part.len() ==> amount(#[trigger] part[i]) > 0
        &&& total(part) == left
    }
}

/// Whether the `i`-th of `parts` performs the `i`-th of the declared steps
/// from `from` on, each step in full.
pub open spec fn refines<U>(parts: Seq<Seq<Step<U>>>, ops: Seq<OpView>, from: int) -> bool {
    &&& parts.len() == ops.len() - from
    &&& forall|i: int|
        0 <= i < parts.len() ==> performs(
            #[trigger] parts[i],
            ops[from + i],
            op_count(ops[from + i]),
        )
}

/// The calls of all parts, in order.
pub open spec fn in_order<U>(parts: Seq<Seq<Step<U>>>) -> Seq<Step<U>>
    decreases parts.len(),
{
    if parts.len() == 0 {
        Seq::empty()
    } else {
        parts[0] + in_order(parts.skip(1))
    }
}

/// A run in two halves: where the first half succeeds, the whole run
/// succeeds exactly if the second half does from where the first ended, and
/// ends where that ends.
pub proof fn lemma_run_in_two<H: DuplexHash<U>, U: Unit>(
    v: ArthurView<H>,
    first: Seq<Step<U>>,
    second: Seq<Step<U>>,
)
    requires
        prover_run(v, first) is Some,
    ensures
        prover_run(v, first + second) is Some <==> prover_run(
            prover_run(v, first)->Some_0.0,
            second,
        ) is Some,
        prover_run(v, first + second) is Some ==> prover_run(v, first + second)->Some_0.0
            == prover_run(prover_run(v, first)->Some_0.0, second)->Some_0.0,
    decreases first.len(),
{
    let all = first + second;
    if first.len() == 0 {
        assert(all =~= second);
    } else {
        assert(all[0] == first[0]);
        assert(all.skip(1) =~= first.skip(1) + second);
        match first[0] {
            Step::Absorb(units) => {
                lemma_run_in_two(v.after_absorb(units), first.skip(1), second);
            },
            Step::Squeeze(n) => {
                lemma_run_in_two(v.after_squeeze::<U>(n), first.skip(1), second);
            },
            Step::Ratchet => {
                lemma_run_in_two(v.after_ratchet::<U>(), first.skip(1), second);
            },
        }
    }
}

/// Partial calls complete a step: from a valid cursor at a declared step,
/// calls that perform what is left of it are accepted one and all, and
/// leave the cursor at the start of the next step.
pub proof fn lemma_part_completes_step<H: DuplexHash<U>, U: Unit>(
    v: ArthurView<H>,
    part: Seq<Step<U>>,
)
    requires
        v.safe.cursor_valid(),
        !v.safe.exhausted(),
        performs(
            part,
            v.safe.ops[v.safe.index as int],
            (v.safe.current_count() - v.safe.used) as nat,
        ),
    ensures
        prover_run(v, part) is Some,
        prover_run(v, part)->Some_0.0.safe.ops == v.safe.ops,
        prover_run(v, part)->Some_0.0.safe.index == v.safe.index + 1,
        prover_run(v, part)->Some_0.0.safe.used == 0,
        prover_run(v, part)->Some_0.0.safe.cursor_valid(),
    decreases part.len(),
{
    let op = v.safe.ops[v.safe.index as int];
    let left = (v.safe.current_count() - v.safe.used) as nat;
    let rest = part.skip(1);
    assert(op_valid(op));
    if op is Ratchet {
        assert(same_kind(part[0], op));
        let w = v.after_ratchet::<U>();
        assert(prover_run(w, rest) == Some((w, Seq::<Seq<U>>::empty())));
    } else {
        assert(left > 0);
        assert(part.len() > 0);
        assert(same_kind(part[0], op));
        assert(amount(part[0]) > 0);
        assert(total(part) == amount(part[0]) + total(rest));
        assert forall|i: int| 0 <= i < rest.len() implies same_kind(#[trigger] rest[i], op)
            && amount(rest[i]) > 0 by {
            assert(rest[i] == part[i + 1]);
        }
        let w = match part[0] {
            Step::Absorb(units) => v.after_absorb(units),
            Step::Squeeze(n) => v.after_squeeze::<U>(n),
            Step::Ratchet => v,
        };
        if rest.len() == 0 {
            assert(total(rest) == 0);
            assert(prover_run(w, rest) == Some((w, Seq::<Seq<U>>::empty())));
        } else {
            assert(amount(rest[0]) > 0);
            assert(total(rest) == amount(rest[0]) + total(rest.skip(1)));
            assert(w.safe.index == v.safe.index);
            assert(w.safe.ops == v.safe.ops);
            assert(w.safe.cursor_valid());
            assert(w.safe.current_count() - w.safe.used == total(rest));
            lemma_part_completes_step(w, rest);
        }
    }
}

/// Conformance: every run that refines the declared pattern is accepted.
/// From a valid cursor at the start of a step, calls that perform each
/// remaining step in turn, in one call or in parts, are accepted one and
/// all, and the run ends behind the last step.
pub proof fn lemma_refinement_succeeds<H: DuplexHash<U>, U: Unit>(
    v: ArthurView<H>,
    parts: Seq<Seq<Step<U>>>,
)
    requires
        v.safe.cursor_valid(),
        v.safe.used == 0,
        refines(parts, v.safe.ops, v.safe.index as int),
    ensures
        prover_run(v, in_order(parts)) is Some,
        prover_run(v, in_order(parts))->Some_0.0.safe.exhausted(),
    decreases parts.len(),
{
    let ops = v.safe.ops;
    let from = v.safe.index as int;
    if parts.len() > 0 {
        let rest = parts.skip(1);
        assert(performs(parts[0], ops[from], op_count(ops[from])));
        lemma_part_completes_step(v, parts[0]);
        let w = prover_run(v, parts[0])->Some_0.0;
        assert forall|i: int| 0 <= i < rest.len() implies performs(
            #[trigger] rest[i],
            ops[from + 1 + i],
            op_count(ops[from + 1 + i]),
        ) by {
            assert(rest[i] == parts[i + 1]);
        }
        lemma_refinement_succeeds(w, rest);
        lemma_run_in_two(v, parts[0], in_order(rest));
    }
}

} // verus!
