use fs_transcript::absorbs::{Absorbable, Absorbs};
use fs_transcript::arthur::Arthur;
use fs_transcript::errors::IOPatternError;
use fs_transcript::hash::{read_units, write_units, DuplexHash, Unit};
use fs_transcript::sponge::{feed, shown, stir};
use fs_transcript::merlin::Merlin;
use fs_transcript::pattern::{owned_text, push_len, push_text, IOPattern, Op};
use fs_transcript::secret::{drawn, random_bytes, zeroed};
use fs_transcript::safe::Safe;
use fs_transcript::sponge::MixSponge;
use fs_transcript::traits::{ByteTranscript, ByteTranscriptReader};
use rand::rngs::OsRng;

fn scenario_pattern() -> IOPattern {
    IOPattern::new("scenario")
        .absorb(4, "x")
        .unwrap()
        .squeeze(2, "c")
        .unwrap()
        .ratchet()
        .absorb(1, "y")
        .unwrap()
        .squeeze(1, "c2")
        .unwrap()
}

#[test]
fn prover_and_verifier_derive_the_same_challenges() {
    let pattern = scenario_pattern();
    let mut arthur: Arthur<MixSponge, u8> = Arthur::new(&pattern);
    arthur.absorb(&[1, 2, 3, 4]).unwrap();
    let c01 = arthur.squeeze(2).unwrap();
    arthur.ratchet().unwrap();
    arthur.absorb(&[9]).unwrap();
    let c2 = arthur.squeeze(1).unwrap();
    let transcript = arthur.finalize();
    assert_eq!(transcript, vec![1, 2, 3, 4, 9]);
    assert_eq!(c01.len(), 2);
    assert_eq!(c2.len(), 1);

    let mut merlin: Merlin<MixSponge, u8> = Merlin::new(&pattern, &transcript);
    assert_eq!(merlin.fill_next(4).unwrap(), vec![1, 2, 3, 4]);
    assert_eq!(merlin.fill_challenges(2).unwrap(), c01);
    merlin.ratchet().unwrap();
    assert_eq!(merlin.fill_next(1).unwrap(), vec![9]);
    assert_eq!(merlin.fill_challenges(1).unwrap(), c2);
}

#[test]
fn challenges_match_the_sponge_run_by_hand() {
    let pattern = scenario_pattern();
    let mut sponge = <MixSponge as DuplexHash<u8>>::new(&pattern.finalize());
    DuplexHash::<u8>::absorb_unchecked(&mut sponge, &[1, 2, 3, 4]);
    let expected: Vec<u8> = DuplexHash::<u8>::squeeze_unchecked(&mut sponge, 2);
    assert_ne!(expected, vec![0, 0]);

    let mut arthur: Arthur<MixSponge, u8> = Arthur::new(&pattern);
    arthur.absorb(&[1, 2, 3, 4]).unwrap();
    assert_eq!(arthur.squeeze(2).unwrap(), expected);
}

#[test]
fn squeeze_while_absorb_is_due_is_a_mismatch() {
    let pattern = scenario_pattern();
    let mut arthur: Arthur<MixSponge, u8> = Arthur::new(&pattern);
    assert_eq!(arthur.squeeze(1), Err(IOPatternError::PatternMismatch));
    let mut merlin: Merlin<MixSponge, u8> = Merlin::new(&pattern, &[1, 2, 3, 4, 9]);
    assert_eq!(merlin.fill_challenges(1), Err(IOPatternError::PatternMismatch));
    assert_eq!(merlin.ratchet(), Err(IOPatternError::PatternMismatch));
}

#[test]
fn absorb_beyond_the_step_is_a_mismatch_and_writes_nothing() {
    let pattern = scenario_pattern();
    let mut arthur: Arthur<MixSponge, u8> = Arthur::new(&pattern);
    assert_eq!(arthur.absorb(&[1, 2, 3, 4, 5]), Err(IOPatternError::PatternMismatch));
    assert_eq!(arthur.transcript(), &[] as &[u8]);
    arthur.absorb(&[1, 2, 3]).unwrap();
    assert_eq!(arthur.absorb(&[4, 5]), Err(IOPatternError::PatternMismatch));
    assert_eq!(arthur.transcript(), &[1u8, 2, 3]);
    arthur.absorb(&[4]).unwrap();
    assert_eq!(arthur.transcript(), &[1u8, 2, 3, 4]);
}

#[test]
fn a_refused_call_leaves_the_sponge_as_it_was() {
    let pattern = scenario_pattern();
    let mut touched: Safe<MixSponge, u8> = Safe::new(&pattern);
    let mut clean: Safe<MixSponge, u8> = Safe::new(&pattern);
    assert_eq!(touched.squeeze(2), Err(IOPatternError::PatternMismatch));
    assert_eq!(touched.ratchet(), Err(IOPatternError::PatternMismatch));
    assert_eq!(touched.absorb(&[0; 5]), Err(IOPatternError::PatternMismatch));
    touched.absorb(&[1, 2, 3, 4]).unwrap();
    clean.absorb(&[1, 2, 3, 4]).unwrap();
    assert_eq!(touched.squeeze(2).unwrap(), clean.squeeze(2).unwrap());
}

#[test]
fn reading_past_the_end_is_end_of_transcript() {
    let pattern = scenario_pattern();
    let mut merlin: Merlin<MixSponge, u8> = Merlin::new(&pattern, &[1, 2, 3]);
    assert_eq!(merlin.fill_next(4), Err(IOPatternError::EndOfTranscript));
    assert_eq!(merlin.fill_next(3).unwrap(), vec![1, 2, 3]);
    assert_eq!(merlin.fill_next(1), Err(IOPatternError::EndOfTranscript));
}

#[test]
fn end_of_transcript_comes_before_a_mismatch() {
    let pattern = IOPattern::new("t").squeeze(1, "c").unwrap();
    let mut merlin: Merlin<MixSponge, u8> = Merlin::new(&pattern, &[]);
    assert_eq!(merlin.fill_next(1), Err(IOPatternError::EndOfTranscript));
    let mut merlin: Merlin<MixSponge, u8> = Merlin::new(&pattern, &[5]);
    assert_eq!(merlin.fill_next(1), Err(IOPatternError::PatternMismatch));
    assert_eq!(merlin.fill_challenges(1).unwrap().len(), 1);
}

#[test]
fn partial_calls_add_up_to_one_step() {
    let pattern = IOPattern::new("t").absorb(4, "x").unwrap().squeeze(3, "c").unwrap();
    let mut arthur: Arthur<MixSponge, u8> = Arthur::new(&pattern);
    arthur.absorb(&[1, 2]).unwrap();
    assert_eq!(arthur.squeeze(1), Err(IOPatternError::PatternMismatch));
    arthur.absorb(&[3, 4]).unwrap();
    assert_eq!(arthur.absorb(&[5]), Err(IOPatternError::PatternMismatch));
    assert_eq!(arthur.squeeze(1).unwrap().len(), 1);
    assert_eq!(arthur.squeeze(3), Err(IOPatternError::PatternMismatch));
    assert_eq!(arthur.squeeze(2).unwrap().len(), 2);
    assert_eq!(arthur.finalize(), vec![1, 2, 3, 4]);
}

#[test]
fn every_call_after_the_last_step_is_a_mismatch() {
    let pattern = IOPattern::new("t").absorb(1, "x").unwrap();
    let mut safe: Safe<MixSponge, u8> = Safe::new(&pattern);
    safe.absorb(&[7]).unwrap();
    assert_eq!(safe.absorb(&[]), Err(IOPatternError::PatternMismatch));
    assert_eq!(safe.absorb(&[1]), Err(IOPatternError::PatternMismatch));
    assert_eq!(safe.squeeze(0), Err(IOPatternError::PatternMismatch));
    assert_eq!(safe.ratchet(), Err(IOPatternError::PatternMismatch));
}

#[test]
fn an_empty_absorb_is_allowed_only_at_an_absorb_step() {
    let pattern = IOPattern::new("t").absorb(1, "x").unwrap().ratchet();
    let mut safe: Safe<MixSponge, u8> = Safe::new(&pattern);
    assert_eq!(safe.absorb(&[]), Ok(()));
    safe.absorb(&[7]).unwrap();
    assert_eq!(safe.absorb(&[]), Err(IOPatternError::PatternMismatch));
    assert_eq!(safe.ratchet(), Ok(()));
}

#[test]
fn a_step_of_no_units_is_refused() {
    assert_eq!(
        IOPattern::new("t").absorb(0, "x").err(),
        Some(IOPatternError::EmptyStep)
    );
    assert_eq!(
        IOPattern::new("t").squeeze(0, "c").err(),
        Some(IOPatternError::EmptyStep)
    );
    assert_eq!(IOPattern::new("t").absorb(1, "x").unwrap().len(), 1);
}

#[test]
fn finalize_writes_the_tag_and_each_step() {
    let pattern = IOPattern::new("t")
        .absorb(4, "xy")
        .unwrap()
        .ratchet()
        .squeeze(258, "")
        .unwrap();
    let mut expected: Vec<u8> = vec![1, 0, 0, 0, 0, 0, 0, 0, b't'];
    expected.extend_from_slice(&[65, 4, 0, 0, 0, 0, 0, 0, 0]);
    expected.extend_from_slice(&[2, 0, 0, 0, 0, 0, 0, 0, b'x', b'y']);
    expected.push(82);
    expected.extend_from_slice(&[83, 2, 1, 0, 0, 0, 0, 0, 0]);
    expected.extend_from_slice(&[0, 0, 0, 0, 0, 0, 0, 0]);
    assert_eq!(pattern.finalize(), expected);
    assert_eq!(IOPattern::new("").finalize(), vec![0u8; 8]);
}

#[test]
fn finalize_counts_the_bytes_of_a_label() {
    let pattern = IOPattern::new("é");
    assert_eq!(pattern.finalize(), vec![2, 0, 0, 0, 0, 0, 0, 0, 0xc3, 0xa9]);
}

#[test]
fn patterns_that_differ_have_different_separators() {
    let base = IOPattern::new("t").absorb(2, "ab").unwrap().finalize();
    assert_ne!(base, IOPattern::new("u").absorb(2, "ab").unwrap().finalize());
    assert_ne!(base, IOPattern::new("t").squeeze(2, "ab").unwrap().finalize());
    assert_ne!(base, IOPattern::new("t").absorb(3, "ab").unwrap().finalize());
    assert_ne!(base, IOPattern::new("t").absorb(2, "ac").unwrap().finalize());
    assert_ne!(base, IOPattern::new("t").absorb(2, "ab").unwrap().ratchet().finalize());
    assert_ne!(
        IOPattern::new("t").absorb(1, "a").unwrap().absorb(1, "b").unwrap().finalize(),
        IOPattern::new("t").absorb(1, "ab").unwrap().absorb(1, "").unwrap().finalize()
    );
    assert_eq!(base, IOPattern::new("t").absorb(2, "ab").unwrap().finalize());
}

#[test]
fn different_patterns_give_different_challenges() {
    let p = IOPattern::new("t").absorb(1, "x").unwrap().squeeze(8, "c").unwrap();
    let q = IOPattern::new("u").absorb(1, "x").unwrap().squeeze(8, "c").unwrap();
    let mut a: Arthur<MixSponge, u8> = Arthur::new(&p);
    let mut b: Arthur<MixSponge, u8> = Arthur::new(&q);
    a.absorb(&[1]).unwrap();
    b.absorb(&[1]).unwrap();
    assert_ne!(a.squeeze(8).unwrap(), b.squeeze(8).unwrap());
}

#[test]
fn units_written_are_read_back() {
    let pattern = IOPattern::new("t").absorb(3, "x").unwrap();
    let mut arthur: Arthur<MixSponge, bool> = Arthur::new(&pattern);
    let units = [true, false, true];
    arthur.absorb(&units).unwrap();
    let transcript = arthur.finalize();
    assert_eq!(transcript, vec![1, 0, 1]);
    let mut merlin: Merlin<MixSponge, bool> = Merlin::new(&pattern, &transcript);
    assert_eq!(merlin.fill_next(3).unwrap(), units.to_vec());
}

#[test]
fn bytes_that_stand_for_no_unit_are_malformed() {
    let pattern = IOPattern::new("t").absorb(2, "x").unwrap().squeeze(1, "c").unwrap();
    let mut merlin: Merlin<MixSponge, bool> = Merlin::new(&pattern, &[1, 2, 0]);
    assert_eq!(merlin.fill_next(2), Err(IOPatternError::MalformedUnit));
    assert_eq!(merlin.fill_next(3), Err(IOPatternError::MalformedUnit));
    assert_eq!(merlin.fill_next(4), Err(IOPatternError::EndOfTranscript));
    assert_eq!(merlin.fill_next(1).unwrap(), vec![true]);
    assert_eq!(merlin.fill_next(1), Err(IOPatternError::MalformedUnit));
}

#[test]
fn read_units_starts_where_it_is_told() {
    let bytes = [9u8, 8, 7, 6];
    assert_eq!(read_units::<u8>(&bytes, 1, 2), Ok(vec![8, 7]));
    assert_eq!(read_units::<u8>(&bytes, 4, 0), Ok(vec![]));
    assert_eq!(read_units::<u8>(&bytes, 2, 3), Err(IOPatternError::EndOfTranscript));
    assert_eq!(
        read_units::<u8>(&bytes, 0, usize::MAX),
        Err(IOPatternError::EndOfTranscript)
    );
}

#[test]
fn write_units_appends() {
    let mut out = vec![1u8];
    write_units(&[2u8, 3], &mut out);
    assert_eq!(out, vec![1, 2, 3]);
}

#[test]
fn public_input_is_absorbed_and_not_read() {
    let pattern = IOPattern::new("t")
        .absorb(2, "stmt")
        .unwrap()
        .absorb(1, "msg")
        .unwrap()
        .squeeze(4, "c")
        .unwrap();
    let mut arthur: Arthur<MixSponge, u8> = Arthur::new(&pattern);
    arthur.absorb(&[5, 6]).unwrap();
    arthur.absorb(&[7]).unwrap();
    let challenge = arthur.squeeze(4).unwrap();

    let mut merlin: Merlin<MixSponge, u8> = Merlin::new(&pattern, &[7]);
    merlin.public_input(&[5, 6]).unwrap();
    assert_eq!(merlin.fill_next(1).unwrap(), vec![7]);
    assert_eq!(merlin.fill_challenges(4).unwrap(), challenge);
}

#[test]
fn preprocess_ratchets_and_hands_out_the_rest() {
    let pattern = IOPattern::new("t").absorb(1, "x").unwrap().ratchet();
    let mut merlin: Merlin<MixSponge, u8> = Merlin::new(&pattern, &[1, 2, 3]);
    merlin.fill_next(1).unwrap();
    let (sponge, rest) = merlin.preprocess().unwrap();
    assert_eq!(rest, &[2u8, 3]);

    let mut expected = <MixSponge as DuplexHash<u8>>::new(&pattern.finalize());
    DuplexHash::<u8>::absorb_unchecked(&mut expected, &[1]);
    DuplexHash::<u8>::ratchet_unchecked(&mut expected);
    assert_eq!(sponge, expected);

    let merlin: Merlin<MixSponge, u8> = Merlin::new(&pattern, &[1, 2, 3]);
    assert_eq!(merlin.preprocess().err(), Some(IOPatternError::PatternMismatch));
}

#[test]
fn secret_bytes_have_the_length_asked_for() {
    let pattern = IOPattern::new("t").absorb(1, "x").unwrap();
    let mut arthur: Arthur<MixSponge, u8> = Arthur::new(&pattern);
    let bytes = arthur.secret_bytes(64).expect("the system's generator");
    assert_eq!(bytes.len(), 64);
    assert_ne!(bytes, vec![0u8; 64]);
    assert_eq!(arthur.secret_bytes(0), Some(vec![]));
    assert_eq!(arthur.transcript(), &[] as &[u8]);
}

#[test]
fn each_error_has_its_message() {
    assert_eq!(IOPatternError::EmptyStep.message(), "a step must move at least one unit");
    assert_eq!(
        IOPatternError::PatternMismatch.message(),
        "operation does not match the declared pattern"
    );
    assert_eq!(IOPatternError::EndOfTranscript.message(), "the transcript ended too early");
    assert_eq!(IOPatternError::MalformedUnit.message(), "the bytes do not encode a unit");
}

#[test]
fn one_round_of_mixing_has_its_exact_value() {
    assert_eq!(stir(0), 0);
    assert_eq!(stir(1), 0x4082_2041);
    assert_eq!(feed(0, 0), stir(0x100));
    assert_eq!(shown(0x1234_5678_9abc_def0), 0x9a);
}

#[test]
fn the_sponge_squeezes_what_its_rounds_give() {
    let mut sponge = MixSponge { state: 1 };
    let out: Vec<u8> = DuplexHash::<u8>::squeeze_unchecked(&mut sponge, 2);
    let first = stir(1 ^ 0x9e37_79b9_7f4a_7c15);
    let second = stir(first ^ 0x9e37_79b9_7f4a_7c15);
    assert_eq!(out, vec![shown(first), shown(second)]);
    assert_eq!(sponge, MixSponge { state: second });
    let bits: Vec<bool> = DuplexHash::<bool>::squeeze_unchecked(&mut MixSponge { state: 1 }, 1);
    assert_eq!(bits, vec![shown(first) >= 128]);
}

#[test]
fn units_have_their_width_and_bytes() {
    assert_eq!(<u8 as Unit>::width(), 1);
    assert_eq!(<bool as Unit>::width(), 1);
    let mut out = Vec::new();
    Unit::write(&7u8, &mut out);
    Unit::write(&true, &mut out);
    Unit::write(&false, &mut out);
    assert_eq!(out, vec![7, 1, 0]);
    assert_eq!(<bool as Unit>::read(&[2]), None);
    assert_eq!(<bool as Unit>::read(&[1]), Some(true));
    assert_eq!(<u8 as Unit>::read(&[200]), Some(200));
}

#[test]
fn a_number_is_absorbed_as_its_bytes() {
    assert_eq!(
        Absorbable::<u8>::to_absorbable(&0x0102_0304_0506_0708u64),
        vec![8, 7, 6, 5, 4, 3, 2, 1]
    );
    let pattern = IOPattern::new("t").absorb(8, "n").unwrap().squeeze(4, "c").unwrap();
    let mut by_value: Arthur<MixSponge, u8> = Arthur::new(&pattern);
    by_value.absorb_native(&0x0102_0304_0506_0708u64).unwrap();
    let mut by_trait: Arthur<MixSponge, u8> = Arthur::new(&pattern);
    Absorbs::absorb(&mut by_trait, &0x0102_0304_0506_0708u64).unwrap();
    let mut by_units: Arthur<MixSponge, u8> = Arthur::new(&pattern);
    by_units.absorb(&[8, 7, 6, 5, 4, 3, 2, 1]).unwrap();
    let challenge = by_units.squeeze(4).unwrap();
    assert_eq!(by_value.squeeze(4).unwrap(), challenge);
    assert_eq!(by_trait.squeeze(4).unwrap(), challenge);
    assert_eq!(by_value.finalize(), vec![8, 7, 6, 5, 4, 3, 2, 1]);
    assert_eq!(by_trait.finalize(), by_units.finalize());
}

#[test]
fn a_slice_is_absorbed_value_by_value_up_to_the_first_refused() {
    let pattern = IOPattern::new("t").absorb(16, "n").unwrap().squeeze(1, "c").unwrap();
    let mut arthur: Arthur<MixSponge, u8> = Arthur::new(&pattern);
    assert_eq!(arthur.absorb_slice(&[1u64, 2, 3]), Err(IOPatternError::PatternMismatch));
    assert_eq!(arthur.cursor(), (1, 0));
    assert_eq!(arthur.transcript().len(), 16);
    assert_eq!(arthur.absorb_native(&4u64), Err(IOPatternError::PatternMismatch));

    let mut arthur: Arthur<MixSponge, u8> = Arthur::new(&pattern);
    assert_eq!(arthur.absorb_slice(&[1u64]), Ok(()));
    assert_eq!(arthur.cursor(), (0, 8));
    assert_eq!(arthur.absorb_slice(&[2u64]), Ok(()));
    let challenge = arthur.squeeze(1).unwrap();

    let mut merlin: Merlin<MixSponge, u8> = Merlin::new(&pattern, &[]);
    assert_eq!(merlin.absorb_slice(&[1u64, 2]), Ok(()));
    assert_eq!(merlin.fill_challenges(1).unwrap(), challenge);

    let mut merlin: Merlin<MixSponge, u8> = Merlin::new(&pattern, &[]);
    assert_eq!(Absorbs::absorb(&mut merlin, &1u64), Ok(()));
    assert_eq!(merlin.absorb_slice(&[2u64, 3]), Err(IOPatternError::PatternMismatch));
    assert_eq!(merlin.cursor(), (1, 0));
}

#[test]
fn byte_sessions_do_what_the_unit_calls_do() {
    let pattern = IOPattern::new("t")
        .absorb(1, "p")
        .unwrap()
        .absorb(2, "m")
        .unwrap()
        .squeeze(3, "c")
        .unwrap();
    let mut plain: Merlin<MixSponge, u8> = Merlin::new(&pattern, &[4, 5, 6]);
    plain.public_input(&[9]).unwrap();
    let read = plain.fill_next(2).unwrap();
    let challenge = plain.fill_challenges(3).unwrap();

    let mut named: Merlin<MixSponge, u8> = Merlin::new(&pattern, &[4, 5, 6]);
    assert_eq!(named.fill_challenge_bytes(1), Err(IOPatternError::PatternMismatch));
    assert_eq!(named.public_bytes(&[9]), Ok(()));
    assert_eq!(named.fill_next_bytes(4), Err(IOPatternError::EndOfTranscript));
    assert_eq!(named.fill_next_bytes(2), Ok(read));
    assert_eq!(named.remaining(), &[6u8]);
    assert_eq!(named.public_bytes(&[9]), Err(IOPatternError::PatternMismatch));
    assert_eq!(named.fill_challenge_bytes(3), Ok(challenge));
    assert_eq!(named.cursor(), (3, 0));
}

#[test]
fn the_cursor_moves_on_when_a_step_is_done() {
    let pattern = IOPattern::new("t").absorb(3, "x").unwrap().ratchet();
    let mut safe: Safe<MixSponge, u8> = Safe::new(&pattern);
    assert_eq!(safe.cursor(), (0, 0));
    safe.absorb(&[1, 2]).unwrap();
    assert_eq!(safe.cursor(), (0, 2));
    safe.absorb(&[3]).unwrap();
    assert_eq!(safe.cursor(), (1, 0));
    assert!(!safe.is_exhausted());
    safe.ratchet().unwrap();
    assert_eq!(safe.cursor(), (2, 0));
    assert!(safe.is_exhausted());
}

#[test]
fn safe_preprocess_needs_a_ratchet_step() {
    let pattern = IOPattern::new("t").ratchet();
    let safe: Safe<MixSponge, u8> = Safe::new(&pattern);
    let mut expected = <MixSponge as DuplexHash<u8>>::new(&pattern.finalize());
    DuplexHash::<u8>::ratchet_unchecked(&mut expected);
    assert_eq!(safe.preprocess(), Ok(expected));
    let pattern = IOPattern::new("t").absorb(1, "x").unwrap();
    let safe: Safe<MixSponge, u8> = Safe::new(&pattern);
    assert_eq!(safe.preprocess(), Err(IOPatternError::PatternMismatch));
}

#[test]
fn a_pattern_keeps_its_tag_and_steps() {
    let pattern = scenario_pattern();
    assert_eq!(pattern.tag(), "scenario");
    assert_eq!(pattern.len(), 5);
    let steps = pattern.steps();
    assert_eq!(steps.len(), 5);
    assert!(matches!(&steps[0], Op::Absorb(4, l) if l == "x"));
    assert!(matches!(&steps[1], Op::Squeeze(2, l) if l == "c"));
    assert!(matches!(&steps[2], Op::Ratchet));
    assert!(matches!(&steps[3], Op::Absorb(1, l) if l == "y"));
    assert!(matches!(&steps[4], Op::Squeeze(1, l) if l == "c2"));
    assert!(matches!(steps[0].duplicate(), Op::Absorb(4, l) if l == "x"));
    let mut out = vec![7u8];
    steps[2].encode_into(&mut out);
    assert_eq!(out, vec![7, 82]);
}

#[test]
fn the_verifier_replays_a_run_with_bytes_to_spare() {
    let pattern = scenario_pattern();
    let mut arthur: Arthur<MixSponge, u8> = Arthur::new(&pattern);
    arthur.absorb(&[1, 2]).unwrap();
    arthur.absorb(&[3, 4]).unwrap();
    let c0 = arthur.squeeze(1).unwrap();
    let c1 = arthur.squeeze(1).unwrap();
    arthur.ratchet().unwrap();
    let mut transcript = arthur.finalize();
    assert_eq!(transcript, vec![1, 2, 3, 4]);
    transcript.extend_from_slice(&[9, 9]);

    let mut merlin: Merlin<MixSponge, u8> = Merlin::new(&pattern, &transcript);
    assert_eq!(merlin.fill_next(2).unwrap(), vec![1, 2]);
    assert_eq!(merlin.fill_next(2).unwrap(), vec![3, 4]);
    assert_eq!(merlin.fill_challenges(1).unwrap(), c0);
    assert_eq!(merlin.fill_challenges(1).unwrap(), c1);
    let (_, rest) = merlin.preprocess().unwrap();
    assert_eq!(rest, &[9u8, 9]);
}

#[test]
fn other_absorbed_bytes_give_other_challenges() {
    let pattern = IOPattern::new("t").absorb(2, "x").unwrap().squeeze(8, "c").unwrap();
    let mut a: Arthur<MixSponge, u8> = Arthur::new(&pattern);
    let mut b: Arthur<MixSponge, u8> = Arthur::new(&pattern);
    a.absorb(&[1, 2]).unwrap();
    b.absorb(&[1, 3]).unwrap();
    assert_ne!(a.squeeze(8).unwrap(), b.squeeze(8).unwrap());
}

#[test]
fn lengths_and_texts_have_their_exact_bytes() {
    let mut out = Vec::new();
    push_len(&mut out, 0x0102);
    assert_eq!(out, vec![2, 1, 0, 0, 0, 0, 0, 0]);
    push_text(&mut out, "ab");
    assert_eq!(out, vec![2, 1, 0, 0, 0, 0, 0, 0, 2, 0, 0, 0, 0, 0, 0, 0, b'a', b'b']);
    assert_eq!(owned_text("label"), "label");
}

#[test]
fn random_bytes_fill_the_whole_buffer() {
    let mut rng = OsRng;
    let first = random_bytes(&mut rng, 32).expect("the system's generator");
    let second = random_bytes(&mut rng, 32).expect("the system's generator");
    assert_eq!(first.len(), 32);
    assert_eq!(second.len(), 32);
    assert_ne!(first, second);
    assert_ne!(first[16..], [0u8; 16]);
}

#[test]
fn no_bytes_wanted_gives_the_empty_buffer() {
    let mut rng = OsRng;
    assert_eq!(random_bytes(&mut rng, 0), Some(vec![]));
}

#[test]
fn a_draw_keeps_the_buffer_only_on_success() {
    assert_eq!(zeroed(3), vec![0u8, 0, 0]);
    assert_eq!(zeroed(0), Vec::<u8>::new());
    assert_eq!(drawn(true, vec![4, 5]), Some(vec![4, 5]));
    assert_eq!(drawn(false, vec![4, 5]), None);
}
