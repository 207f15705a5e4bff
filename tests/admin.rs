use email_newsletter::admin::FormData;

#[test]
fn form_becomes_an_issue() {
    let form = FormData {
        title: "Newsletter title".to_string(),
        text_content: "Newsletter body as plain text".to_string(),
        html_content: "<p>Newsletter body as HTML</p>".to_string(),
    };
    let issue = form.into_issue();
    assert_eq!(issue.title, "Newsletter title");
    assert_eq!(issue.text_body, "Newsletter body as plain text");
    assert_eq!(issue.html_body, "<p>Newsletter body as HTML</p>");
}

