use mission_control::error::AppError;
use mission_control::json::JsonValue;
use mission_control::write_guard::{new_token, WriteGuard, BULK_CEILING, TOKEN_TTL_MS};

fn obj(fields: Vec<(&str, JsonValue)>) -> JsonValue {
    JsonValue::Object(fields.into_iter().map(|(k, v)| (k.to_string(), v)).collect())
}

fn st(s: &str) -> JsonValue {
    JsonValue::Str(s.to_string())
}

fn rsvp_payload(state: &str) -> JsonValue {
    obj(vec![
        ("action", st("rsvp_state_update")),
        ("rsvp_ref", st("r1")),
        ("state", st(state)),
    ])
}

const NOW: u64 = 1_000;

#[test]
fn prepare_then_commit_with_matching_payload_succeeds() {
    let mut g = WriteGuard::new();
    let payload = rsvp_payload("attending");
    let token = g.prepare(&payload, NOW);
    assert!(g.commit(&token, &payload, NOW).is_ok());
}

#[test]
fn unknown_token_is_rejected() {
    let mut g = WriteGuard::new();
    let payload = rsvp_payload("attending");
    let err = g.commit("not-a-real-token", &payload, NOW).unwrap_err();
    assert_eq!(err.code(), "confirmation_required");
}

#[test]
fn reused_token_is_rejected() {
    let mut g = WriteGuard::new();
    let payload = rsvp_payload("denied");
    let token = g.prepare(&payload, NOW);
    assert!(g.commit(&token, &payload, NOW).is_ok());
    let err = g.commit(&token, &payload, NOW).unwrap_err();
    assert_eq!(err.code(), "confirmation_required");
}

#[test]
fn tampered_payload_is_rejected() {
    let mut g = WriteGuard::new();
    let payload = rsvp_payload("attending");
    let token = g.prepare(&payload, NOW);
    let tampered = rsvp_payload("denied");
    let err = g.commit(&token, &tampered, NOW).unwrap_err();
    assert_eq!(err.code(), "confirmation_required");
    // The rejected tamper attempt must not burn the legitimate confirmation.
    assert!(g.commit(&token, &payload, NOW).is_ok());
}

#[test]
fn expired_token_is_rejected() {
    let mut g = WriteGuard::new();
    let payload = rsvp_payload("attending");
    let token = g.prepare(&payload, NOW);
    // One millisecond past the token's lifetime.
    let err = g.commit(&token, &payload, NOW + TOKEN_TTL_MS + 1).unwrap_err();
    assert_eq!(err.code(), "confirmation_required");
}

#[test]
fn bulk_selection_over_ceiling_is_a_caller_concern_with_a_stable_constant() {
    assert_eq!(BULK_CEILING, 100);
}

#[test]
fn token_is_still_valid_at_the_end_of_its_lifetime() {
    let mut g = WriteGuard::new();
    let payload = rsvp_payload("attending");
    let token = g.prepare(&payload, NOW);
    assert!(g.commit(&token, &payload, NOW + TOKEN_TTL_MS).is_ok());
}

#[test]
fn expired_token_is_dropped_and_then_unknown() {
    let mut g = WriteGuard::new();
    let payload = rsvp_payload("attending");
    let token = g.prepare(&payload, NOW);
    match g.commit(&token, &payload, NOW + TOKEN_TTL_MS + 1) {
        Err(AppError::ConfirmationRequired(m)) => {
            assert_eq!(m, "Confirmation expired — please re-confirm.")
        }
        _ => panic!("expected an expired confirmation"),
    }
    match g.commit(&token, &payload, NOW) {
        Err(AppError::ConfirmationRequired(m)) => {
            assert_eq!(m, "Unknown confirmation token — please re-confirm.")
        }
        _ => panic!("expected an unknown token"),
    }
}

#[test]
fn reject_messages_name_the_reason() {
    let mut g = WriteGuard::new();
    let payload = rsvp_payload("attending");
    let token = g.prepare(&payload, NOW);
    match g.commit(&token, &rsvp_payload("denied"), NOW) {
        Err(AppError::ConfirmationRequired(m)) => assert_eq!(
            m,
            "The mutation no longer matches what was confirmed — please re-confirm."
        ),
        _ => panic!("expected a mismatch"),
    }
    assert!(g.commit(&token, &payload, NOW).is_ok());
    match g.commit(&token, &payload, NOW) {
        Err(AppError::ConfirmationRequired(m)) => assert_eq!(
            m,
            "This confirmation was already used — please re-confirm."
        ),
        _ => panic!("expected a used token"),
    }
}

#[test]
fn a_commit_does_not_touch_other_confirmations() {
    let mut g = WriteGuard::new();
    let a = rsvp_payload("attending");
    let b = rsvp_payload("denied");
    let ta = g.prepare(&a, NOW);
    let tb = g.prepare(&b, NOW);
    assert_ne!(ta, tb);
    assert!(g.commit(&ta, &a, NOW).is_ok());
    assert!(g.commit(&tb, &b, NOW).is_ok());
}

#[test]
fn tokens_are_prefixed_random_hex() {
    let t1 = new_token();
    let t2 = new_token();
    assert!(t1.starts_with("wg_"));
    assert!(t1.len() > 3);
    assert!(t1[3..].chars().all(|c| c.is_ascii_hexdigit()));
    assert_ne!(t1, t2);
}
