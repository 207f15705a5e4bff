use email_newsletter::authentication::{AuthError, AuthFault, CredentialsError};
use email_newsletter::newsletters::{
    confirmed_subscribers, AuthFailure, BodyData, Content, NewsletterIssue, Publication, PublishError, PublishFault,
    PublishOutcome, PublishReport, PublishStep,
};

fn issue() -> NewsletterIssue {
    NewsletterIssue {
        title: "Newsletter title".to_string(),
        html_body: "<p>Newsletter body as HTML</p>".to_string(),
        text_body: "Newsletter body as plain text".to_string(),
    }
}

/// Runs a publication against a sink that fails for the addresses in `failing`,
/// and returns what was sent together with the result.
fn publish(raw: &[&str], failing: &[&str]) -> (Vec<String>, Result<PublishReport, PublishError>) {
    let rows = confirmed_subscribers(raw.iter().map(|s| s.to_string()).collect());
    let mut publication = Publication::new(issue(), rows);
    let mut sent = Vec::new();
    loop {
        match publication.next_step() {
            PublishStep::Finished => return (sent, Ok(publication.into_report())),
            PublishStep::Deliver(d) => {
                assert_eq!(d.subject, "Newsletter title");
                assert_eq!(d.html_body, "<p>Newsletter body as HTML</p>");
                assert_eq!(d.text_body, "Newsletter body as plain text");
                let result = if failing.contains(&d.recipient.as_str()) {
                    Err("503 Service Unavailable".to_string())
                } else {
                    sent.push(d.recipient.clone());
                    Ok(())
                };
                if let Err(e) = publication.record_delivery(result) {
                    return (sent, Err(e));
                }
            }
        }
    }
}

#[test]
fn stored_addresses_are_parsed_in_order() {
    let rows = confirmed_subscribers(vec!["ursula@example.com".to_string(), "not-an-email".to_string()]);
    assert_eq!(rows.len(), 2);
    assert_eq!(rows[0].as_ref().ok().unwrap().email.as_str(), "ursula@example.com");
    assert_eq!(rows[1].as_ref().err().unwrap().raw, "not-an-email");
}

#[test]
fn empty_stored_address_is_invalid() {
    let rows = confirmed_subscribers(vec![String::new()]);
    assert!(rows[0].is_err());
}

#[test]
fn invalid_contact_diagnostic_names_the_value() {
    let rows = confirmed_subscribers(vec!["not-an-email".to_string()]);
    let contact = rows[0].as_ref().err().unwrap();
    assert_eq!(contact.diagnostic(), "not-an-email is not a valid subscriber email.");
}

#[test]
fn malformed_address_is_skipped_and_the_others_are_delivered() {
    let (sent, r) = publish(&["ursula@example.com", "not-an-email", "ged@earthsea.org"], &[]);
    assert_eq!(sent, vec!["ursula@example.com".to_string(), "ged@earthsea.org".to_string()]);
    let report = r.unwrap();
    assert_eq!(report.delivered_count(), 2);
    assert_eq!(report.skipped_count(), 1);
    assert!(matches!(&report.outcomes[0], PublishOutcome::Delivered { email } if email == "ursula@example.com"));
    assert!(matches!(&report.outcomes[1], PublishOutcome::Skipped { raw } if raw == "not-an-email"));
    assert!(matches!(&report.outcomes[2], PublishOutcome::Delivered { email } if email == "ged@earthsea.org"));
}

#[test]
fn no_subscribers_give_an_empty_report() {
    let (sent, r) = publish(&[], &[]);
    assert!(sent.is_empty());
    let report = r.unwrap();
    assert!(report.outcomes.is_empty());
    assert_eq!(report.delivered_count(), 0);
    assert_eq!(report.skipped_count(), 0);
}

#[test]
fn only_malformed_addresses_are_all_skipped() {
    let (sent, r) = publish(&["nope", ""], &[]);
    assert!(sent.is_empty());
    let report = r.unwrap();
    assert_eq!(report.skipped_count(), 2);
    assert_eq!(report.delivered_count(), 0);
}

#[test]
fn failed_delivery_aborts_after_the_earlier_ones() {
    let (sent, r) = publish(&["ursula@example.com", "ged@earthsea.org", "tenar@earthsea.org"], &["ged@earthsea.org"]);
    assert_eq!(sent, vec!["ursula@example.com".to_string()]);
    assert_eq!(
        r.err(),
        Some(PublishError::UnexpectedError(PublishFault::Delivery {
            recipient: "ged@earthsea.org".to_string(),
            cause: "503 Service Unavailable".to_string(),
        }))
    );
}

#[test]
fn outcomes_before_a_failure_stay_recorded() {
    let rows = confirmed_subscribers(vec!["bad".to_string(), "ursula@example.com".to_string()]);
    let mut publication = Publication::new(issue(), rows);
    match publication.next_step() {
        PublishStep::Deliver(d) => assert_eq!(d.recipient, "ursula@example.com"),
        PublishStep::Finished => panic!("a delivery was expected"),
    }
    assert!(publication.record_delivery(Err("timeout".to_string())).is_err());
    assert_eq!(publication.outcomes().len(), 1);
    assert!(matches!(&publication.outcomes()[0], PublishOutcome::Skipped { raw } if raw == "bad"));
}

#[test]
fn body_data_becomes_an_issue() {
    let body = BodyData {
        title: "t".to_string(),
        content: Content { html: "<b>h</b>".to_string(), text: "x".to_string() },
    };
    let i = body.into_issue();
    assert_eq!(i.title, "t");
    assert_eq!(i.html_body, "<b>h</b>");
    assert_eq!(i.text_body, "x");
}

#[test]
fn authentication_failures_are_401_with_a_challenge() {
    let e = PublishError::AuthError(AuthFailure::MissingCredentials(CredentialsError::MissingHeader));
    assert_eq!(e.status_code(), 401);
    assert_eq!(e.challenge(), Some("Basic realm=\"publish\"".to_string()));
}

#[test]
fn unexpected_errors_are_500_without_a_challenge() {
    let e = PublishError::UnexpectedError(PublishFault::SubscriberStore("gone".to_string()));
    assert_eq!(e.status_code(), 500);
    assert_eq!(e.challenge(), None);
}

#[test]
fn auth_errors_map_to_publish_errors() {
    assert_eq!(
        PublishError::from_auth_error(AuthError::InvalidCredentials),
        PublishError::AuthError(AuthFailure::InvalidCredentials)
    );
    assert_eq!(
        PublishError::from_auth_error(AuthError::UnexpectedError(AuthFault::MalformedHash)),
        PublishError::UnexpectedError(PublishFault::CredentialCheck(AuthFault::MalformedHash))
    );
}
