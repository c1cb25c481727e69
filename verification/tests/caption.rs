use blip_caption::decode::{DecodeState, StepEvent, MAX_STEPS, SEP_TOKEN_ID};
use blip_caption::detok::Detokenizer;

const VOCAB_JSON: &str = r#"{
  "version": "1.0",
  "truncation": null,
  "padding": null,
  "added_tokens": [],
  "normalizer": null,
  "pre_tokenizer": null,
  "post_processor": null,
  "decoder": null,
  "model": {
    "type": "WordLevel",
    "vocab": {"[UNK]": 0, "hello": 1, "world": 2, ".": 3},
    "unk_token": "[UNK]"
  }
}"#;

fn test_tokenizer() -> tokenizers::Tokenizer {
    tokenizers::Tokenizer::from_bytes(VOCAB_JSON.as_bytes()).unwrap()
}

#[test]
fn detokenizer_round_trip_matches_full_decode() {
    let tokenizer = test_tokenizer();
    let reference = tokenizer.decode(&[1, 2], true).unwrap();
    let mut detok = Detokenizer::new(test_tokenizer());
    let mut caption = String::new();
    for id in [1u32, 2] {
        if let Some(frag) = detok.push(id).unwrap() {
            caption.push_str(&frag);
        }
    }
    if let Some(rest) = detok.flush().unwrap() {
        caption.push_str(&rest);
    }
    assert_eq!(caption, reference);
    assert_eq!(caption, "hello world");
}

#[test]
fn detokenizer_buffers_non_alphanumeric_tail_until_flush() {
    // "." is not alphanumeric, so the fragment is not yet stable on push
    // and must come out of the flush instead.
    let mut detok = Detokenizer::new(test_tokenizer());
    assert_eq!(detok.push(3).unwrap(), None);
    assert_eq!(detok.flush().unwrap().as_deref(), Some("."));
}

#[test]
fn flush_twice_adds_nothing() {
    let mut detok = Detokenizer::new(test_tokenizer());
    detok.push(1).unwrap();
    let first = detok.flush().unwrap();
    let second = detok.flush().unwrap();
    assert!(second.is_none());
    // the first flush already drained everything buffered
    let _ = first;
}

#[test]
fn flush_on_empty_sequence_is_empty() {
    let mut detok = Detokenizer::new(test_tokenizer());
    assert_eq!(detok.flush().unwrap(), None);
    assert_eq!(detok.flush().unwrap(), None);
}

#[test]
fn separator_at_step_zero_ends_with_empty_caption() {
    // A sampler favouring the separator immediately: generation ends after
    // zero emitted tokens and the caption is empty.
    let mut state = DecodeState::new(test_tokenizer());
    let event = state.consume(SEP_TOKEN_ID).unwrap();
    assert!(matches!(event, StepEvent::Finished));
    assert!(state.finished());
    assert!(state.generated_ids().is_empty());
    assert_eq!(state.finish().unwrap(), None);
}

#[test]
fn separator_is_never_appended() {
    let mut state = DecodeState::new(test_tokenizer());
    state.consume(1).unwrap();
    state.consume(2).unwrap();
    let event = state.consume(SEP_TOKEN_ID).unwrap();
    assert!(matches!(event, StepEvent::Finished));
    let ids = state.generated_ids();
    assert_eq!(ids, vec![1, 2]);
    assert!(ids.iter().all(|&id| id != SEP_TOKEN_ID));
}

#[test]
fn consumed_tokens_build_the_caption() {
    let mut state = DecodeState::new(test_tokenizer());
    let mut caption = String::new();
    for id in [1u32, 2] {
        match state.consume(id).unwrap() {
            StepEvent::Fragment(s) => caption.push_str(&s),
            StepEvent::Pending => {},
            StepEvent::Finished => unreachable!(),
        }
    }
    state.consume(SEP_TOKEN_ID).unwrap();
    if let Some(rest) = state.finish().unwrap() {
        caption.push_str(&rest);
    }
    assert_eq!(caption, "hello world");
}

#[test]
fn stop_ends_generation_at_a_step_boundary() {
    let mut state = DecodeState::new(test_tokenizer());
    state.consume(1).unwrap();
    assert!(!state.finished());
    state.stop();
    assert!(state.finished());
    assert_eq!(state.generated_ids(), vec![1]);
}

#[test]
fn step_budget_is_the_hard_cap() {
    assert_eq!(MAX_STEPS, 1000);
    let mut state = DecodeState::new(test_tokenizer());
    // the unknown-token id keeps generation going without a separator
    for _ in 0..MAX_STEPS {
        assert!(state.step_count() < MAX_STEPS);
        state.consume(0).unwrap();
    }
    assert_eq!(state.step_count(), MAX_STEPS);
    assert!(!state.finished());
    // the loop driver stops here: the budget is exhausted
    assert_eq!(state.generated_ids().len(), MAX_STEPS);
}
