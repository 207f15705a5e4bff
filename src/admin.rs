use vstd::prelude::*;
use crate::newsletters::NewsletterIssue;

verus! {

/// The form with which a logged-in administrator publishes an issue.
pub struct FormData {
    pub title: String,
    pub text_content: String,
    pub html_content: String,
}

impl FormData {
    /// The issue that this form describes.
    pub fn into_issue(self) -> (r: NewsletterIssue)
        ensures
            r.title == self.title,
            r.html_body == self.html_content,
            r.text_body == self.text_content,
    {
        NewsletterIssue { title: self.title, html_body: self.html_content, text_body: self.text_content }
    }
}

} // verus!
