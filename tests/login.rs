use email_newsletter::login::flash_messages_html;

#[test]
fn no_messages_give_no_html() {
    assert_eq!(flash_messages_html(&Vec::new()), "");
}

#[test]
fn messages_are_shown_in_order() {
    let messages = vec!["Authentication failed".to_string(), "Try again".to_string()];
    assert_eq!(
        flash_messages_html(&messages),
        "<p><i>Authentication failed</i></p>\n<p><i>Try again</i></p>\n"
    );
}
