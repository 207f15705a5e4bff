use vstd::prelude::*;
use vstd::string::StringExecFns;
use crate::authentication::{
    is_phc_hash, parallelism_in_range, phc_verification, secret_text, verdict,
    wrong_password_and_unknown_user_are_rejected_alike, AuthError, AuthFault, CredentialsError, StoredCredential,
};
use crate::domain::{email_is_valid, SubscriberEmail};

verus! {

/// The body of a publish request that comes as JSON.
pub struct BodyData {
    pub title: String,
    pub content: Content,
}

/// The two renderings of an issue's body.
pub struct Content {
    pub html: String,
    pub text: String,
}

/// An issue to publish: its title, which is the subject of each email, and its
/// body as HTML and as plain text.
pub struct NewsletterIssue {
    pub title: String,
    pub html_body: String,
    pub text_body: String,
}

impl BodyData {
    /// The issue that this request body describes.
    pub fn into_issue(self) -> (r: NewsletterIssue)
        ensures
            r.title == self.title,
            r.html_body == self.content.html,
            r.text_body == self.content.text,
    {
        NewsletterIssue { title: self.title, html_body: self.content.html, text_body: self.content.text }
    }
}

/// A confirmed subscriber whose stored email address is valid.
pub struct ConfirmedSubscriber {
    pub email: SubscriberEmail,
}

/// A confirmed subscriber whose stored email address is not valid: the raw
/// stored value.
pub struct InvalidContact {
    pub raw: String,
}

impl InvalidContact {
    /// A diagnostic for logs: the raw value and why it was refused.
    pub fn diagnostic(&self) -> (r: String)
        ensures
            r@ == self.raw@ + " is not a valid subscriber email."@,
    {
        let mut r = self.raw.clone();
        r.append(" is not a valid subscriber email.");
        r
    }
}

/// `row` is what parsing the stored address `raw` gives.
pub open spec fn parsed_from(row: Result<ConfirmedSubscriber, InvalidContact>, raw: Seq<char>) -> bool {
    match row {
        Ok(s) => email_is_valid(raw) && s.email@ == raw,
        Err(c) => !email_is_valid(raw) && c.raw@ == raw,
    }
}

/// Parses the stored addresses of the confirmed subscribers, one outcome per
/// address, in order. A malformed address becomes an `InvalidContact` and
/// does not stop the parsing of the others.
pub fn confirmed_subscribers(raw_emails: Vec<String>) -> (r: Vec<Result<ConfirmedSubscriber, InvalidContact>>)
    ensures
        r.len() == raw_emails.len(),
        forall|i: int| 0 <= i < r.len() ==> parsed_from(#[trigger] r[i], raw_emails[i]@),
{
    let mut r: Vec<Result<ConfirmedSubscriber, InvalidContact>> = Vec::new();
    let mut i: usize = 0;
    while i < raw_emails.len()
        invariant
            i <= raw_emails.len(),
            r.len() == i,
            forall|j: int| 0 <= j < i ==> parsed_from(#[trigger] r[j], raw_emails[j]@),
        decreases raw_emails.len() - i,
    {
        let raw = raw_emails[i].clone();
        let row = match SubscriberEmail::parse(raw) {
            Ok(email) => Ok(ConfirmedSubscriber { email }),
            Err(raw) => Err(InvalidContact { raw }),
        };
        r.push(row);
        i = i + 1;
    }
    r
}

/// What became of one confirmed subscriber in a publication.
#[derive(Debug)]
pub enum PublishOutcome {
    /// The issue was handed to the notification sink for this address.
    Delivered { email: String },
    /// The stored address was invalid, so the subscriber was skipped.
    Skipped { raw: String },
}

/// `o` records what publishing does with `row` when its delivery succeeds.
pub open spec fn outcome_matches(o: PublishOutcome, row: Result<ConfirmedSubscriber, InvalidContact>) -> bool {
    match row {
        Ok(s) => o is Delivered && o->Delivered_email@ == s.email@,
        Err(c) => o is Skipped && o->Skipped_raw@ == c.raw@,
    }
}

/// `outcomes` records, one for one and in order, the rows `rows`.
pub open spec fn records_rows(
    outcomes: Seq<PublishOutcome>,
    rows: Seq<Result<ConfirmedSubscriber, InvalidContact>>,
) -> bool {
    &&& outcomes.len() == rows.len()
    &&& forall|i: int| 0 <= i < rows.len() ==> outcome_matches(#[trigger] outcomes[i], rows[i])
}

/// A malformed stored address is skipped, never fatal: when the rows come
/// from parsing the stored addresses `raw` and the outcomes record them (as a
/// publication whose deliveries all succeed leaves them), there is, in order,
/// a delivery to each valid address and a skip of each invalid one, each with
/// the address itself.
pub proof fn report_follows_stored_addresses(
    raw: Seq<Seq<char>>,
    rows: Seq<Result<ConfirmedSubscriber, InvalidContact>>,
    outcomes: Seq<PublishOutcome>,
)
    requires
        rows.len() == raw.len(),
        forall|i: int| 0 <= i < rows.len() ==> parsed_from(#[trigger] rows[i], raw[i]),
        records_rows(outcomes, rows),
    ensures
        outcomes.len() == raw.len(),
        forall|i: int|
            0 <= i < raw.len() ==> {
                &&& (#[trigger] outcomes[i] is Delivered <==> email_is_valid(raw[i]))
                &&& outcomes[i] is Delivered ==> outcomes[i]->Delivered_email@ == raw[i]
                &&& outcomes[i] is Skipped ==> outcomes[i]->Skipped_raw@ == raw[i]
            },
{
    assert forall|i: int| 0 <= i < raw.len() implies {
        &&& (#[trigger] outcomes[i] is Delivered <==> email_is_valid(raw[i]))
        &&& outcomes[i] is Delivered ==> outcomes[i]->Delivered_email@ == raw[i]
        &&& outcomes[i] is Skipped ==> outcomes[i]->Skipped_raw@ == raw[i]
    } by {
        assert(parsed_from(rows[i], raw[i]));
        assert(outcome_matches(outcomes[i], rows[i]));
    }
}

/// The number of deliveries among `s`.
pub open spec fn count_delivered(s: Seq<PublishOutcome>) -> nat
    decreases s.len(),
{
    if s.len() == 0 {
        0
    } else {
        count_delivered(s.drop_last()) + if s.last() is Delivered {
            1nat
        } else {
            0nat
        }
    }
}

/// The number of skipped subscribers among `s`.
pub open spec fn count_skipped(s: Seq<PublishOutcome>) -> nat
    decreases s.len(),
{
    if s.len() == 0 {
        0
    } else {
        count_skipped(s.drop_last()) + if s.last() is Skipped {
            1nat
        } else {
            0nat
        }
    }
}

/// The summary of a completed publication: one outcome per confirmed
/// subscriber, in retrieval order.
pub struct PublishReport {
    pub outcomes: Vec<PublishOutcome>,
}

impl PublishReport {
    /// How many subscribers the issue was delivered to.
    pub fn delivered_count(&self) -> (n: usize)
        ensures
            n == count_delivered(self.outcomes@),
    {
        let mut n: usize = 0;
        let mut i: usize = 0;
        while i < self.outcomes.len()
            invariant
                i <= self.outcomes.len(),
                n == count_delivered(self.outcomes@.take(i as int)),
                n <= i,
            decreases self.outcomes.len() - i,
        {
            assert(self.outcomes@.take(i + 1).drop_last() == self.outcomes@.take(i as int));
            if let PublishOutcome::Delivered { .. } = &self.outcomes[i] {
                n = n + 1;
            }
            i = i + 1;
        }
        assert(self.outcomes@.take(i as int) == self.outcomes@);
        n
    }

    /// How many subscribers were skipped for an invalid stored address.
    pub fn skipped_count(&self) -> (n: usize)
        ensures
            n == count_skipped(self.outcomes@),
    {
        let mut n: usize = 0;
        let mut i: usize = 0;
        while i < self.outcomes.len()
            invariant
                i <= self.outcomes.len(),
                n == count_skipped(self.outcomes@.take(i as int)),
                n <= i,
            decreases self.outcomes.len() - i,
        {
            assert(self.outcomes@.take(i + 1).drop_last() == self.outcomes@.take(i as int));
            if let PublishOutcome::Skipped { .. } = &self.outcomes[i] {
                n = n + 1;
            }
            i = i + 1;
        }
        assert(self.outcomes@.take(i as int) == self.outcomes@);
        n
    }
}

/// Why credentials offered to publish were refused.
#[derive(Debug, PartialEq, Eq)]
pub enum AuthFailure {
    /// No usable credentials came with the request.
    MissingCredentials(CredentialsError),
    /// The username or password is wrong.
    InvalidCredentials,
}

/// A fault that is not the caller's.
#[derive(Debug, PartialEq, Eq)]
pub enum PublishFault {
    /// The credentials could not be checked.
    CredentialCheck(AuthFault),
    /// The confirmed subscribers could not be read; the store's message.
    SubscriberStore(String),
    /// The notification sink failed to deliver to `recipient`.
    Delivery { recipient: String, cause: String },
}

/// Why a publication did not complete.
#[derive(Debug, PartialEq, Eq)]
pub enum PublishError {
    /// The caller is not authenticated.
    AuthError(AuthFailure),
    /// Something else went wrong.
    UnexpectedError(PublishFault),
}

/// The challenge that a refusal of basic credentials carries.
pub const BASIC_CHALLENGE: &'static str = "Basic realm=\"publish\"";

/// The HTTP status of a refusal for an authentication failure.
pub const UNAUTHORIZED: u16 = 401;

/// The HTTP status of a refusal for an unexpected fault.
pub const INTERNAL_SERVER_ERROR: u16 = 500;

/// The publish error for a failed credential check: a rejection stays an
/// authentication failure, a fault of the check becomes unexpected.
pub open spec fn publish_error_of(e: AuthError) -> PublishError {
    match e {
        AuthError::InvalidCredentials => PublishError::AuthError(AuthFailure::InvalidCredentials),
        AuthError::UnexpectedError(f) => PublishError::UnexpectedError(PublishFault::CredentialCheck(f)),
    }
}

/// The HTTP status that reports `e`.
pub open spec fn status_of(e: PublishError) -> u16 {
    match e {
        PublishError::AuthError(_) => UNAUTHORIZED,
        PublishError::UnexpectedError(_) => INTERNAL_SERVER_ERROR,
    }
}

/// A caller who gives a wrong password for a registered user and one who gives
/// an unknown username are refused alike: the same authentication failure,
/// answered with 401 and the basic challenge.
pub proof fn unknown_user_and_wrong_password_are_refused_alike(
    password: Seq<char>,
    stored: StoredCredential,
    dummy_hash: Seq<char>,
)
    requires
        parallelism_in_range(secret_text(stored.password_hash)),
        phc_verification(password, secret_text(stored.password_hash)) == Some(false),
        is_phc_hash(dummy_hash),
    ensures
        verdict(password, Ok(Some(stored)), dummy_hash) is Err,
        verdict(password, Ok(None), dummy_hash) is Err,
        publish_error_of(verdict(password, Ok(Some(stored)), dummy_hash)->Err_0) == PublishError::AuthError(
            AuthFailure::InvalidCredentials,
        ),
        publish_error_of(verdict(password, Ok(None), dummy_hash)->Err_0) == PublishError::AuthError(
            AuthFailure::InvalidCredentials,
        ),
        status_of(PublishError::AuthError(AuthFailure::InvalidCredentials)) == UNAUTHORIZED,
{
    wrong_password_and_unknown_user_are_rejected_alike(password, stored, dummy_hash);
}

impl PublishError {
    /// The publish error for a failed credential check: a rejection stays an
    /// authentication failure, a fault of the check becomes unexpected.
    pub fn from_auth_error(e: AuthError) -> (r: PublishError)
        ensures
            r == publish_error_of(e),
    {
        match e {
            AuthError::InvalidCredentials => PublishError::AuthError(AuthFailure::InvalidCredentials),
            AuthError::UnexpectedError(f) => PublishError::UnexpectedError(PublishFault::CredentialCheck(f)),
        }
    }

    /// The HTTP status that reports this error: 401 for an authentication
    /// failure, 500 for anything else.
    pub fn status_code(&self) -> (r: u16)
        ensures
            r == status_of(*self),
    {
        match self {
            PublishError::AuthError(_) => UNAUTHORIZED,
            PublishError::UnexpectedError(_) => INTERNAL_SERVER_ERROR,
        }
    }

    /// The `WWW-Authenticate` challenge that the response carries: the basic
    /// scheme's for an authentication failure, none otherwise.
    pub fn challenge(&self) -> (r: Option<String>)
        ensures
            match self {
                PublishError::AuthError(_) => r is Some && r->0@ == BASIC_CHALLENGE@,
                PublishError::UnexpectedError(_) => r is None,
            },
    {
        match self {
            PublishError::AuthError(_) => Some(String::from_str(BASIC_CHALLENGE)),
            PublishError::UnexpectedError(_) => None,
        }
    }
}

/// The addresses of the valid rows among `rows`, in order.
pub open spec fn valid_emails(rows: Seq<Result<ConfirmedSubscriber, InvalidContact>>) -> Seq<Seq<char>>
    decreases rows.len(),
{
    if rows.len() == 0 {
        Seq::empty()
    } else {
        let earlier = valid_emails(rows.drop_last());
        match rows.last() {
            Ok(s) => earlier.push(s.email@),
            Err(_) => earlier,
        }
    }
}

/// One email for the notification sink: the recipient, the subject, and the
/// body as HTML and as plain text.
pub struct Delivery {
    pub recipient: String,
    pub subject: String,
    pub html_body: String,
    pub text_body: String,
}

/// `d` sends `issue` to `email`.
pub open spec fn delivers(d: Delivery, email: Seq<char>, issue: NewsletterIssue) -> bool {
    &&& d.recipient@ == email
    &&& d.subject@ == issue.title@
    &&& d.html_body@ == issue.html_body@
    &&& d.text_body@ == issue.text_body@
}

/// What the caller of a publication is to do next.
pub enum PublishStep {
    /// Hand this email to the notification sink, then report how it went.
    Deliver(Delivery),
    /// Every subscriber has been dealt with: the report is ready.
    Finished,
}

/// The fan-out of one issue to the confirmed subscribers, one at a time and in
/// retrieval order. A subscriber whose stored address is invalid is recorded
/// as skipped and the fan-out goes on; a failed delivery aborts it, since
/// deliveries already made cannot be taken back. The caller performs each
/// delivery that `next_step` asks for and reports it to `record_delivery`,
/// and takes the report with `into_report` once `next_step` says it is done.
pub struct Publication {
    issue: NewsletterIssue,
    rows: Vec<Result<ConfirmedSubscriber, InvalidContact>>,
    position: usize,
    outcomes: Vec<PublishOutcome>,
    awaiting: bool,
    aborted: bool,
}

impl Publication {
    /// The issue being published.
    pub closed spec fn issue(&self) -> NewsletterIssue {
        self.issue
    }

    /// The confirmed subscribers, in retrieval order.
    pub closed spec fn rows(&self) -> Seq<Result<ConfirmedSubscriber, InvalidContact>> {
        self.rows@
    }

    /// How many subscribers have been dealt with.
    pub closed spec fn position(&self) -> nat {
        self.position as nat
    }

    /// The outcomes recorded so far.
    pub closed spec fn recorded(&self) -> Seq<PublishOutcome> {
        self.outcomes@
    }

    /// A delivery has been asked for and not yet reported.
    pub closed spec fn awaiting(&self) -> bool {
        self.awaiting
    }

    /// A delivery failed, which ended the publication.
    pub closed spec fn aborted(&self) -> bool {
        self.aborted
    }

    /// The recipients of every delivery asked for so far, in order: the valid
    /// subscribers dealt with, and the one whose delivery is pending or failed.
    pub open spec fn requested(&self) -> Seq<Seq<char>> {
        valid_emails(
            self.rows().take(
                if self.awaiting() || self.aborted() {
                    self.position() + 1int
                } else {
                    self.position() as int
                },
            ),
        )
    }

    /// The outcomes recorded so far are those of the subscribers dealt with;
    /// a pending delivery is for the next subscriber, whose address is valid.
    pub closed spec fn wf(&self) -> bool {
        &&& self.position <= self.rows.len()
        &&& records_rows(self.outcomes@, self.rows@.take(self.position as int))
        &&& self.awaiting ==> self.position < self.rows.len() && self.rows@[self.position as int] is Ok
        &&& self.aborted ==> self.position < self.rows.len() && self.rows@[self.position as int] is Ok
        &&& !(self.awaiting && self.aborted)
    }

    /// Starts the publication of `issue` to `rows`.
    pub fn new(issue: NewsletterIssue, rows: Vec<Result<ConfirmedSubscriber, InvalidContact>>) -> (p: Publication)
        ensures
            p.wf(),
            p.issue() == issue,
            p.rows() == rows@,
            p.position() == 0,
            p.recorded().len() == 0,
            p.requested().len() == 0,
            !p.awaiting(),
            !p.aborted(),
    {
        let p = Publication { issue, rows, position: 0, outcomes: Vec::new(), awaiting: false, aborted: false };
        assert(p.rows@.take(0).len() == 0);
        p
    }

    /// Records every invalid subscriber from the current one on as skipped,
    /// up to the next valid one, and asks for the delivery to it; or, when no
    /// subscriber is left, finishes with the report of all outcomes.
    pub fn next_step(&mut self) -> (step: PublishStep)
        requires
            old(self).wf(),
            !old(self).awaiting(),
            !old(self).aborted(),
        ensures
            final(self).wf(),
            final(self).issue() == old(self).issue(),
            final(self).rows() == old(self).rows(),
            records_rows(final(self).recorded(), old(self).rows().take(final(self).position() as int)),
            !final(self).aborted(),
            old(self).position() <= final(self).position() <= old(self).rows().len(),
            forall|j: int|
                old(self).position() <= j < final(self).position() ==> #[trigger] old(self).rows()[j] is Err,
            match step {
                PublishStep::Deliver(d) => {
                    &&& final(self).requested() == old(self).requested().push(d.recipient@)
                    &&& final(self).position() < old(self).rows().len()
                    &&& final(self).awaiting()
                    &&& old(self).rows()[final(self).position() as int] is Ok
                    &&& delivers(
                        d,
                        old(self).rows()[final(self).position() as int]->Ok_0.email@,
                        old(self).issue(),
                    )
                },
                PublishStep::Finished => {
                    &&& final(self).requested() == old(self).requested()
                    &&& final(self).requested() == valid_emails(old(self).rows())
                    &&& final(self).position() == old(self).rows().len()
                    &&& !final(self).awaiting()
                    &&& records_rows(final(self).recorded(), old(self).rows())
                },
            },
    {
        let ghost start = self.position as int;
        while self.position < self.rows.len()
            invariant
                self.wf(),
                !self.awaiting,
                !self.aborted,
                self.issue == old(self).issue,
                self.rows@ == old(self).rows@,
                start == old(self).position,
                start <= self.position <= self.rows.len(),
                valid_emails(self.rows@.take(self.position as int)) == valid_emails(self.rows@.take(start)),
                old(self).requested() == valid_emails(self.rows@.take(start)),
                forall|j: int| start <= j < self.position ==> #[trigger] self.rows@[j] is Err,
            decreases self.rows.len() - self.position,
        {
            let p = self.position;
            match &self.rows[p] {
                Ok(subscriber) => {
                    let d = Delivery {
                        recipient: String::from_str(subscriber.email.as_str()),
                        subject: self.issue.title.clone(),
                        html_body: self.issue.html_body.clone(),
                        text_body: self.issue.text_body.clone(),
                    };
                    self.awaiting = true;
                    assert(self.rows@.take(p + 1).drop_last() == self.rows@.take(p as int));
                    assert(self.rows@.take(p + 1).last() == self.rows@[p as int]);
                    assert(valid_emails(self.rows@.take(p + 1)) == valid_emails(self.rows@.take(p as int)).push(
                        d.recipient@,
                    ));
                    return PublishStep::Deliver(d);
                },
                Err(contact) => {
                    let o = PublishOutcome::Skipped { raw: contact.raw.clone() };
                    self.outcomes.push(o);
                    self.position = p + 1;
                    assert(self.rows@.take(p + 1).drop_last() == self.rows@.take(p as int));
                    assert(self.rows@.take(p + 1).last() == self.rows@[p as int]);
                    assert forall|i: int| 0 <= i < p + 1 implies outcome_matches(
                        #[trigger] self.outcomes@[i],
                        self.rows@.take(p + 1)[i],
                    ) by {
                        if i < p {
                            assert(self.rows@.take(p + 1)[i] == self.rows@.take(p as int)[i]);
                        }
                    }
                },
            }
        }
        assert(self.rows@.take(self.position as int) == self.rows@);
        PublishStep::Finished
    }

    /// Takes the result of the delivery that `next_step` asked for. On
    /// success the subscriber is recorded as delivered. On failure the
    /// publication is aborted and the error names the subscriber and the
    /// sink's cause.
    pub fn record_delivery(&mut self, result: Result<(), String>) -> (r: Result<(), PublishError>)
        requires
            old(self).wf(),
            old(self).awaiting(),
        ensures
            final(self).wf(),
            final(self).issue() == old(self).issue(),
            final(self).rows() == old(self).rows(),
            records_rows(final(self).recorded(), old(self).rows().take(final(self).position() as int)),
            final(self).requested() == old(self).requested(),
            !final(self).awaiting(),
            match result {
                Ok(_) => {
                    &&& r is Ok
                    &&& !final(self).aborted()
                    &&& final(self).position() == old(self).position() + 1
                    &&& final(self).recorded().len() == old(self).recorded().len() + 1
                    &&& final(self).recorded().drop_last() == old(self).recorded()
                    &&& final(self).recorded().last() is Delivered
                    &&& final(self).recorded().last()->Delivered_email@ == old(self).rows()[old(self).position() as int]->Ok_0.email@
                },
                Err(cause) => {
                    &&& final(self).aborted()
                    &&& final(self).position() == old(self).position()
                    &&& final(self).recorded() == old(self).recorded()
                    &&& r matches Err(PublishError::UnexpectedError(PublishFault::Delivery { recipient, cause: c }))
                    &&& recipient@ == old(self).rows()[old(self).position() as int]->Ok_0.email@
                    &&& c == cause
                },
            },
    {
        let p = self.position;
        self.awaiting = false;
        let email = match &self.rows[p] {
            Ok(subscriber) => String::from_str(subscriber.email.as_str()),
            Err(contact) => contact.raw.clone(),
        };
        match result {
            Ok(()) => {
                self.outcomes.push(PublishOutcome::Delivered { email });
                self.position = p + 1;
                assert(self.rows@.take(p + 1).drop_last() == self.rows@.take(p as int));
                assert forall|i: int| 0 <= i < p + 1 implies outcome_matches(
                    #[trigger] self.outcomes@[i],
                    self.rows@.take(p + 1)[i],
                ) by {
                    if i < p {
                        assert(self.rows@.take(p + 1)[i] == self.rows@.take(p as int)[i]);
                    }
                }
                assert(self.outcomes@.drop_last() == old(self).outcomes@);
                Ok(())
            },
            Err(cause) => {
                self.aborted = true;
                Err(PublishError::UnexpectedError(PublishFault::Delivery { recipient: email, cause }))
            },
        }
    }

    /// The report of a publication that has finished: the outcome of every
    /// subscriber, in retrieval order.
    pub fn into_report(self) -> (r: PublishReport)
        requires
            self.wf(),
            self.position() == self.rows().len(),
        ensures
            records_rows(r.outcomes@, self.rows()),
    {
        assert(self.rows@.take(self.position as int) == self.rows@);
        PublishReport { outcomes: self.outcomes }
    }

    /// A failed delivery ends the publication for good: by then deliveries
    /// were asked for exactly the valid subscribers up to and including the
    /// one whose delivery failed, in retrieval order, and none after it (no
    /// step can follow an abort); every subscriber before the failed one is
    /// recorded, the valid ones as delivered, so the failed delivery is the
    /// first that failed.
    pub proof fn aborted_run_stops_at_the_failure(&self)
        requires
            self.wf(),
            self.aborted(),
        ensures
            self.position() < self.rows().len(),
            self.rows()[self.position() as int] is Ok,
            self.requested() == valid_emails(self.rows().take(self.position() + 1int)),
            self.requested() == valid_emails(self.rows().take(self.position() as int)).push(
                self.rows()[self.position() as int]->Ok_0.email@,
            ),
            records_rows(self.recorded(), self.rows().take(self.position() as int)),
    {
        let p = self.position as int;
        assert(self.rows@.take(p + 1).drop_last() == self.rows@.take(p));
        assert(self.rows@.take(p + 1).last() == self.rows@[p]);
    }

    /// The outcomes recorded so far.
    pub fn outcomes(&self) -> (r: &Vec<PublishOutcome>)
        ensures
            r@ == self.recorded(),
    {
        &self.outcomes
    }
}

} // verus!
