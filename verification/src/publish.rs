//! The publish request as the admin's form submits it, and what the admin is
//! told about it.

use crate::domain::newsletter_form::NewsletterFormData;
use crate::domain::subscriber::{
    get_confirmed_subscribers, rows_view, SubscriberRow, SubscriberRowView,
};
use crate::error::{PublishError, PublishErrorView};
use crate::ids::{is_random_uuid, IssueId, UserId};
use crate::model::{IterationView, OutcomeView, StoreView};
use crate::store::{Iteration, PublishOutcome, Store};
use vstd::prelude::*;
use vstd::string::*;

verus! {

/// How a flash message is shown.
#[derive(Clone, Copy, Debug, PartialEq, Eq, Structural)]
pub enum FlashLevel {
    Info,
    Error,
}

/// A message for the admin, shown once on the next page.
#[derive(Debug, PartialEq, Eq)]
pub struct FlashNotice {
    pub level: FlashLevel,
    pub content: String,
}

/// The mathematical value of a [`FlashNotice`].
pub struct NoticeView {
    pub level: FlashLevel,
    pub content: Seq<char>,
}

impl View for FlashNotice {
    type V = NoticeView;

    open spec fn view(&self) -> NoticeView {
        NoticeView { level: self.level, content: self.content@ }
    }
}

impl Clone for FlashNotice {
    fn clone(&self) -> (copy: FlashNotice)
        ensures
            copy@ == self@,
    {
        FlashNotice { level: self.level, content: self.content.clone() }
    }
}

/// The notice that acknowledges a publish request.
pub open spec fn acknowledgment() -> NoticeView {
    NoticeView { level: FlashLevel::Info, content: "Newsletter sent"@ }
}

/// The notices that go with the outcome of a publish request: the
/// acknowledgment, where the request was accepted now or earlier; none
/// otherwise. An entry of the confirmed set that was skipped shows in no
/// notice: it is for the log alone.
pub open spec fn publish_notices(outcome: OutcomeView) -> Seq<NoticeView> {
    match outcome {
        OutcomeView::Published { response, skipped } => seq![acknowledgment()],
        OutcomeView::Replayed(_) => seq![acknowledgment()],
        _ => Seq::empty(),
    }
}

/// An invalid entry shows in the receipt and nowhere else: two confirmed sets
/// with the same valid recipients lead to the same state, the same response
/// and the same notices, so the admin and the subscribers cannot tell whether
/// an entry was skipped.
pub proof fn lemma_skipped_entries_show_only_in_the_receipt(
    s: StoreView,
    user: Option<UserId>,
    key: Seq<char>,
    form: crate::domain::newsletter_form::NewsletterFormView,
    entries: Seq<SubscriberRowView>,
    other_entries: Seq<SubscriberRowView>,
    issue_id: IssueId,
)
    requires
        crate::model::valid_recipients(entries) == crate::model::valid_recipients(other_entries),
    ensures
        ({
            let (next, outcome) = s.publish(user, key, form, entries, issue_id);
            let (other_next, other_outcome) = s.publish(user, key, form, other_entries, issue_id);
            &&& next == other_next
            &&& outcome.response() == other_outcome.response()
            &&& publish_notices(outcome) == publish_notices(other_outcome)
        }),
{
}

/// The notice that goes with one iteration of the delivery worker, if any. A
/// task that was skipped for an invalid recipient has none: it is for the log
/// alone.
pub open spec fn delivery_notice(iteration: IterationView) -> Option<NoticeView> {
    match iteration {
        IterationView::EmptyQueue => None,
        IterationView::Delivered(task) => Some(
            NoticeView { level: FlashLevel::Info, content: "Email sent to "@ + task.recipient },
        ),
        IterationView::Skipped(_) => None,
        IterationView::FailedTransiently(task) => Some(
            NoticeView {
                level: FlashLevel::Error,
                content: "Failed to send newsletter to "@ + task.recipient,
            },
        ),
    }
}

/// The error that a delivery attempt raises in a request that delivers while
/// the admin waits: a transient failure is an unexpected error, which the
/// admin sees as status 500; nothing else is an error.
pub open spec fn delivery_error(iteration: IterationView) -> Option<PublishErrorView> {
    match iteration {
        IterationView::FailedTransiently(task) => Some(
            PublishErrorView::UnexpectedError(
                "Failed to send newsletter issue to "@ + task.recipient,
            ),
        ),
        _ => None,
    }
}

/// Whether a publish request with the given identifier for its issue leads
/// from one state to the other with the given outcome.
pub open spec fn published_with(
    before: StoreView,
    after: StoreView,
    outcome: OutcomeView,
    user: Option<UserId>,
    key: Seq<char>,
    form: crate::domain::newsletter_form::NewsletterFormView,
    entries: Seq<SubscriberRowView>,
    issue_id: IssueId,
) -> bool {
    before.publish(user, key, form, entries, issue_id) == (after, outcome)
}

fn text_with(prefix: &str, text: &String) -> (joined: String)
    ensures
        joined@ == prefix@ + text@,
{
    let mut joined = prefix.to_owned();
    joined.append(text.as_str());
    joined
}

/// Handles the publish form: the stored records of the confirmed subscribers
/// become the confirmed set, a fresh identifier is drawn for the issue, and
/// the request runs as one transaction on the store. The identifier is
/// random, so the contract holds for whichever was drawn.
pub fn publish_newsletter(
    store: &mut Store,
    user_id: Option<UserId>,
    idempotency_key: &str,
    form: &NewsletterFormData,
    rows: &Vec<SubscriberRow>,
) -> (outcome: PublishOutcome)
    requires
        old(store).wf(),
    ensures
        final(store).wf(),
        exists|issue_id: IssueId| #[trigger]
            published_with(
                old(store)@,
                final(store)@,
                outcome@,
                user_id,
                idempotency_key@,
                form@,
                rows_view(rows@),
                issue_id,
            ) && is_random_uuid(issue_id.0),
{
    let entries = get_confirmed_subscribers(rows);
    let issue_id = IssueId::fresh();
    let outcome = store.publish(user_id, idempotency_key, form, &entries, issue_id);
    assert(published_with(
        old(store)@,
        store@,
        outcome@,
        user_id,
        idempotency_key@,
        form@,
        rows_view(rows@),
        issue_id,
    ));
    outcome
}

impl PublishOutcome {
    /// The notices to show the admin with the response.
    pub fn notices(&self) -> (notices: Vec<FlashNotice>)
        ensures
            notices@.map_values(|notice: FlashNotice| notice@) == publish_notices(self@),
    {
        let mut notices: Vec<FlashNotice> = Vec::new();
        match self {
            PublishOutcome::Published(_) => {
                notices.push(
                    FlashNotice { level: FlashLevel::Info, content: "Newsletter sent".to_owned() },
                );
            },
            PublishOutcome::Replayed(_) => {
                notices.push(
                    FlashNotice { level: FlashLevel::Info, content: "Newsletter sent".to_owned() },
                );
            },
            _ => {},
        }
        assert(notices@.map_values(|notice: FlashNotice| notice@) =~= publish_notices(self@));
        notices
    }
}

impl Iteration {
    /// The notice to show the admin for this iteration, if any.
    pub fn notice(&self) -> (notice: Option<FlashNotice>)
        ensures
            match notice {
                Some(notice) => delivery_notice(self@) == Some(notice@),
                None => delivery_notice(self@) is None,
            },
    {
        match self {
            Iteration::EmptyQueue => None,
            Iteration::Delivered(task) => Some(
                FlashNotice {
                    level: FlashLevel::Info,
                    content: text_with("Email sent to ", &task.recipient),
                },
            ),
            Iteration::Skipped(_) => None,
            Iteration::FailedTransiently(task) => Some(
                FlashNotice {
                    level: FlashLevel::Error,
                    content: text_with("Failed to send newsletter to ", &task.recipient),
                },
            ),
        }
    }

    /// The error to report where the request that published the issue also
    /// delivers it: a transient failure ends that request with an unexpected
    /// error. The task stays queued, so a later attempt reaches only those
    /// who have not been served.
    pub fn into_result(&self) -> (result: Result<(), PublishError>)
        ensures
            match result {
                Ok(_) => delivery_error(self@) is None,
                Err(error) => delivery_error(self@) == Some(error@),
            },
    {
        match self {
            Iteration::FailedTransiently(task) => Err(
                PublishError::UnexpectedError(
                    text_with("Failed to send newsletter issue to ", &task.recipient),
                ),
            ),
            _ => Ok(()),
        }
    }
}

} // verus!
