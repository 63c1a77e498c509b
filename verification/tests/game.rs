use wordgame::dict::Dictionary;
use wordgame::score::feedback_string;
use wordgame::session::{Event, Phase, Session, MAX_ATTEMPTS};
use wordgame::words::word_has_shape;

fn words(ws: &[&str]) -> Vec<String> {
    ws.iter().map(|w| w.to_string()).collect()
}

fn test_dict() -> Dictionary {
    Dictionary::new(words(&["crane", "slate", "stone"]), words(&["crate", "nacre"])).unwrap()
}

fn session_with(secret: &str) -> Session {
    Session::with_secret(secret.to_string()).unwrap()
}

#[test]
fn shape_accepts_five_lowercase_letters() {
    assert!(word_has_shape("crane"));
    assert!(word_has_shape("zzzzz"));
}

#[test]
fn shape_rejects_wrong_length_or_characters() {
    assert!(!word_has_shape(""));
    assert!(!word_has_shape("cran"));
    assert!(!word_has_shape("cranes"));
    assert!(!word_has_shape("Crane"));
    assert!(!word_has_shape("cran1"));
    assert!(!word_has_shape("cr ne"));
}

#[test]
fn dictionary_rejects_empty_answer_pool() {
    assert!(Dictionary::new(words(&[]), words(&["crate"])).is_none());
}

#[test]
fn dictionary_rejects_unsorted_pool() {
    assert!(Dictionary::new(words(&["slate", "crane"]), words(&[])).is_none());
}

#[test]
fn dictionary_rejects_duplicate_entries() {
    assert!(Dictionary::new(words(&["crane", "crane"]), words(&[])).is_none());
}

#[test]
fn dictionary_rejects_malformed_word() {
    assert!(Dictionary::new(words(&["crane", "slates"]), words(&[])).is_none());
}

#[test]
fn membership_checks_both_pools() {
    let d = test_dict();
    assert!(d.is_valid_guess("crane"));
    assert!(d.is_valid_guess("stone"));
    assert!(d.is_valid_guess("crate"));
    assert!(!d.is_valid_guess("zzzzz"));
}

#[test]
fn membership_is_case_sensitive_and_exact() {
    let d = test_dict();
    assert!(!d.is_valid_guess("CRANE"));
    assert!(!d.is_valid_guess("cran"));
    assert!(!d.is_valid_guess("cranes"));
}

#[test]
fn picked_secret_comes_from_answer_pool() {
    let d = test_dict();
    let answers = ["crane", "slate", "stone"];
    for _ in 0..20 {
        let w = d.pick_secret();
        assert!(answers.contains(&w.as_str()));
    }
}

#[test]
fn new_session_awaits_first_guess() {
    let d = test_dict();
    let s = Session::new(&d);
    assert_eq!(s.phase(), Phase::AwaitingGuess);
    assert_eq!(s.attempts_used(), 0);
}

#[test]
fn feedback_repeats_letters_on_full_match() {
    assert_eq!(feedback_string("crane", "crane"), "crane");
}

#[test]
fn feedback_marks_present_letters_with_star() {
    assert_eq!(feedback_string("crane", "nacre"), "****e");
}

#[test]
fn feedback_does_not_deduplicate_letter_counts() {
    assert_eq!(feedback_string("abbey", "babes"), "**be-");
}

#[test]
fn scenario_partial_match_feedback() {
    let d = test_dict();
    let mut s = session_with("crane");
    let msgs = s.on_event(&d, &Event::Text("crate".to_string()));
    assert_eq!(msgs, vec!["result:cra-e".to_string()]);
    assert_eq!(s.attempts_used(), 1);
    assert_eq!(s.phase(), Phase::AwaitingGuess);
}

#[test]
fn scenario_capitalized_guess_fails_shape() {
    let d = test_dict();
    let mut s = session_with("crane");
    let msgs = s.on_event(&d, &Event::Text("Crane".to_string()));
    assert_eq!(msgs, vec!["invalid:The word must be 5 letters long.".to_string()]);
    assert_eq!(s.attempts_used(), 0);
    assert_eq!(s.phase(), Phase::AwaitingGuess);
}

#[test]
fn scenario_unknown_word_fails_membership() {
    let d = test_dict();
    let mut s = session_with("crane");
    let msgs = s.on_event(&d, &Event::Text("zzzzz".to_string()));
    assert_eq!(msgs, vec!["invalid:That is not a word.".to_string()]);
    assert_eq!(s.attempts_used(), 0);
    assert_eq!(s.phase(), Phase::AwaitingGuess);
}

#[test]
fn repeated_invalid_guess_is_idempotent() {
    let d = test_dict();
    let mut s = session_with("crane");
    let first = s.on_event(&d, &Event::Text("qqqqq".to_string()));
    let second = s.on_event(&d, &Event::Text("qqqqq".to_string()));
    assert_eq!(first, second);
    assert_eq!(first, vec!["invalid:That is not a word.".to_string()]);
    assert_eq!(s.attempts_used(), 0);
    assert_eq!(s.phase(), Phase::AwaitingGuess);
}

#[test]
fn scenario_six_losses_reveal_secret() {
    let d = test_dict();
    let mut s = session_with("crane");
    for i in 1..MAX_ATTEMPTS {
        let msgs = s.on_event(&d, &Event::Text("crate".to_string()));
        assert_eq!(msgs, vec!["result:cra-e".to_string()]);
        assert_eq!(s.attempts_used(), i);
        assert_eq!(s.phase(), Phase::AwaitingGuess);
    }
    let msgs = s.on_event(&d, &Event::Text("crate".to_string()));
    assert_eq!(msgs, vec!["result:cra-e".to_string(), "final:crane".to_string()]);
    assert_eq!(s.attempts_used(), MAX_ATTEMPTS);
    assert_eq!(s.phase(), Phase::LostExhausted);
    let after = s.on_event(&d, &Event::Text("crane".to_string()));
    assert!(after.is_empty());
    assert_eq!(s.phase(), Phase::LostExhausted);
}

#[test]
fn scenario_win_on_third_attempt() {
    let d = test_dict();
    let mut s = session_with("crane");
    s.on_event(&d, &Event::Text("crate".to_string()));
    s.on_event(&d, &Event::Text("slate".to_string()));
    let msgs = s.on_event(&d, &Event::Text("crane".to_string()));
    assert_eq!(msgs, vec!["result:crane".to_string()]);
    assert_eq!(s.attempts_used(), 3);
    assert_eq!(s.phase(), Phase::Won);
    let after = s.on_event(&d, &Event::Text("crate".to_string()));
    assert!(after.is_empty());
    assert_eq!(s.phase(), Phase::Won);
}

#[test]
fn close_frame_disconnects_silently() {
    let d = test_dict();
    let mut s = session_with("crane");
    let msgs = s.on_event(&d, &Event::Close);
    assert!(msgs.is_empty());
    assert_eq!(s.phase(), Phase::Disconnected);
}

#[test]
fn lost_channel_disconnects_silently() {
    let d = test_dict();
    let mut s = session_with("crane");
    let msgs = s.on_event(&d, &Event::Gone);
    assert!(msgs.is_empty());
    assert_eq!(s.phase(), Phase::Disconnected);
}

#[test]
fn unsupported_frame_is_a_protocol_violation() {
    let d = test_dict();
    let mut s = session_with("crane");
    let msgs = s.on_event(&d, &Event::Other);
    assert!(msgs.is_empty());
    assert_eq!(s.phase(), Phase::ProtocolViolation);
}

#[test]
fn send_failure_disconnects_silently() {
    let d = test_dict();
    let mut s = session_with("crane");
    let msgs = s.on_event(&d, &Event::SendFailed);
    assert!(msgs.is_empty());
    assert_eq!(s.phase(), Phase::Disconnected);
}

#[test]
fn with_secret_rejects_malformed_word() {
    assert!(Session::with_secret("Crane".to_string()).is_none());
    assert!(Session::with_secret("cranes".to_string()).is_none());
}
