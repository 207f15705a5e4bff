use email_newsletter::subscriptions::{after_confirmation, after_subscription, after_token_lookup, ConfirmStep};

#[test]
fn failed_token_lookup_is_a_server_error() {
    assert_eq!(after_token_lookup(Err("connection reset".to_string())), ConfirmStep::Respond(500));
}

#[test]
fn unknown_token_is_refused() {
    assert_eq!(after_token_lookup(Ok(None)), ConfirmStep::Respond(401));
}

#[test]
fn known_token_leads_to_its_subscriber() {
    assert_eq!(after_token_lookup(Ok(Some(42))), ConfirmStep::MarkConfirmed(42));
}

#[test]
fn confirmation_answers_by_the_update() {
    assert_eq!(after_confirmation(Ok(())), 200);
    assert_eq!(after_confirmation(Err("deadlock".to_string())), 500);
}

#[test]
fn subscription_answers_by_the_insert() {
    assert_eq!(after_subscription(Ok(())), 200);
    assert_eq!(after_subscription(Err("duplicate key".to_string())), 500);
}
