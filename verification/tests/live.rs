//! Events for watchers.
use minfer::live::{
    attach_step, begin_phase, begin_step, detach_client, enabled, finish, hello, init, set_token,
    subscribe, Live,
};

#[test]
fn values_are_captured_while_someone_watches() {
    let mut l = Live::new();
    assert!(!enabled(&l));
    init(&mut l);
    assert!(!enabled(&l));
    subscribe(&mut l);
    subscribe(&mut l);
    assert!(enabled(&l));
    detach_client(&mut l);
    assert!(enabled(&l));
    detach_client(&mut l);
    assert!(!enabled(&l));
    detach_client(&mut l);
    assert_eq!(l.clients, 0);
}

#[test]
fn a_greeting_is_compact_json() {
    assert_eq!(hello("m", 3), r#"{"model":"m","prompt_tokens":3,"type":"hello"}"#);
    assert_eq!(
        hello("a\"b\n", 0),
        r#"{"model":"a\"b\n","prompt_tokens":0,"type":"hello"}"#
    );
}

#[test]
fn a_phase_counts_its_steps_anew() {
    let mut l = Live::new();
    assert_eq!(begin_phase(&mut l, "prefill"), None);
    begin_step(&mut l);
    begin_step(&mut l);
    assert_eq!(l.step, 2);
    init(&mut l);
    let event = begin_phase(&mut l, "decode");
    assert_eq!(event.as_deref(), Some(r#"{"index":0,"kind":"decode","type":"phase"}"#));
    assert_eq!(l.step, 0);
    assert_eq!(l.phase, "decode");
}

#[test]
fn a_step_takes_the_pending_token_with_it() {
    let mut l = Live::new();
    begin_phase(&mut l, "decode");
    begin_step(&mut l);
    set_token(&mut l, 7, " cat");
    let e = attach_step(&mut l);
    assert_eq!((e.phase.as_str(), e.step, e.token, e.text.as_str()), ("decode", 1, Some(7), " cat"));
    let e = attach_step(&mut l);
    assert_eq!((e.step, e.token, e.text.as_str()), (1, None, ""));
}

#[test]
fn the_end_of_a_generation_is_told_over_the_channel() {
    let mut l = Live::new();
    assert_eq!(finish(&l, "stop", 2, "ab"), None);
    init(&mut l);
    assert_eq!(
        finish(&l, "stop", 2, "ab").as_deref(),
        Some(r#"{"reason":"stop","text":"ab","tokens":2,"type":"finish"}"#)
    );
}
