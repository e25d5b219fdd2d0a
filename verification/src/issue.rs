//! Newsletter issues and the tasks that deliver them.

use crate::domain::newsletter_form::NewsletterFormView;
use crate::ids::IssueId;
use crate::keyed::{keyed_map, lemma_keyed_lookup, lemma_keyed_push};
use vstd::prelude::*;

verus! {

/// A newsletter issue. It is written once, by the publish request that
/// creates it, and never changed or deleted afterwards.
#[derive(Debug, PartialEq, Eq)]
pub struct NewsletterIssue {
    pub id: IssueId,
    pub title: String,
    pub html_body: String,
    pub text_body: String,
}

/// What an issue says: the mathematical value of a [`NewsletterIssue`] without
/// its identifier.
pub struct IssueView {
    pub title: Seq<char>,
    pub html_body: Seq<char>,
    pub text_body: Seq<char>,
}

impl View for NewsletterIssue {
    type V = IssueView;

    open spec fn view(&self) -> IssueView {
        IssueView { title: self.title@, html_body: self.html_body@, text_body: self.text_body@ }
    }
}

impl Clone for NewsletterIssue {
    fn clone(&self) -> (copy: NewsletterIssue)
        ensures
            copy.id == self.id,
            copy@ == self@,
    {
        NewsletterIssue {
            id: self.id,
            title: self.title.clone(),
            html_body: self.html_body.clone(),
            text_body: self.text_body.clone(),
        }
    }
}

impl IssueView {
    /// Whether the issue has a title and both bodies.
    pub open spec fn is_complete(self) -> bool {
        self.title.len() > 0 && self.html_body.len() > 0 && self.text_body.len() > 0
    }
}

/// The issue that a form asks to publish.
pub open spec fn issue_of(form: NewsletterFormView) -> IssueView {
    IssueView { title: form.title, html_body: form.html, text_body: form.plain_text }
}

/// The order to send one issue to one recipient. A task is pending for as long
/// as the delivery queue holds it.
#[derive(Debug, PartialEq, Eq)]
pub struct DeliveryTask {
    pub issue_id: IssueId,
    pub recipient: String,
}

/// The mathematical value of a [`DeliveryTask`].
pub struct TaskView {
    pub issue_id: IssueId,
    pub recipient: Seq<char>,
}

impl View for DeliveryTask {
    type V = TaskView;

    open spec fn view(&self) -> TaskView {
        TaskView { issue_id: self.issue_id, recipient: self.recipient@ }
    }
}

impl Clone for DeliveryTask {
    fn clone(&self) -> (copy: DeliveryTask)
        ensures
            copy@ == self@,
    {
        DeliveryTask { issue_id: self.issue_id, recipient: self.recipient.clone() }
    }
}

/// What the email transport answered to one attempt.
#[derive(Clone, Copy, Debug, PartialEq, Eq, Structural)]
pub enum SendOutcome {
    /// The email was accepted for the recipient.
    Delivered,
    /// The recipient's stored address is unusable; no retry can succeed.
    InvalidRecipient,
    /// The network or the service failed; a retry may succeed.
    TransientFailure,
}

/// Sorts what the email service answered: an email that was sent is
/// delivered; a failure with a client-error status (400 to 499) says that the
/// recipient is unusable, so no retry can succeed; every other failure, with
/// or without a status, is transient.
pub fn send_outcome(sent: bool, status: Option<u16>) -> (answer: SendOutcome)
    ensures
        answer == (if sent {
            SendOutcome::Delivered
        } else if status matches Some(code) && 400 <= code < 500 {
            SendOutcome::InvalidRecipient
        } else {
            SendOutcome::TransientFailure
        }),
{
    if sent {
        SendOutcome::Delivered
    } else {
        match status {
            Some(code) => {
                if 400 <= code && code < 500 {
                    SendOutcome::InvalidRecipient
                } else {
                    SendOutcome::TransientFailure
                }
            },
            None => SendOutcome::TransientFailure,
        }
    }
}

/// How one iteration of the delivery worker ended.
#[derive(Clone, Copy, Debug, PartialEq, Eq, Structural)]
pub enum ExecutionOutcome {
    /// A task left the queue: it was delivered, or skipped for good.
    TaskCompleted,
    /// No task was free to be claimed.
    EmptyQueue,
    /// The task stays in the queue for another attempt.
    TaskFailedTransiently,
}

impl ExecutionOutcome {
    /// Whether the worker should pause before its next iteration: it should
    /// when the queue had nothing for it, and go on at once otherwise.
    pub fn calls_for_pause(&self) -> (pause: bool)
        ensures
            pause == (*self == ExecutionOutcome::EmptyQueue),
    {
        match self {
            ExecutionOutcome::EmptyQueue => true,
            _ => false,
        }
    }
}

/// The table of issues. It holds at most one issue for an identifier, and it
/// offers no way to change or delete one.
#[derive(Debug)]
pub struct IssueTable {
    issues: Vec<NewsletterIssue>,
}

impl View for IssueTable {
    type V = Map<IssueId, IssueView>;

    closed spec fn view(&self) -> Map<IssueId, IssueView> {
        keyed_map(self.ids(), self.contents())
    }
}

impl IssueTable {
    spec fn ids(&self) -> Seq<IssueId> {
        self.issues@.map_values(|issue: NewsletterIssue| issue.id)
    }

    spec fn contents(&self) -> Seq<IssueView> {
        self.issues@.map_values(|issue: NewsletterIssue| issue@)
    }

    /// The invariant of the table: no two issues have the same identifier.
    pub closed spec fn wf(&self) -> bool {
        self.ids().no_duplicates()
    }

    /// A table without issues.
    pub fn new() -> (table: IssueTable)
        ensures
            table.wf(),
            table@ == Map::<IssueId, IssueView>::empty(),
    {
        let table = IssueTable { issues: Vec::new() };
        assert(table@ =~= Map::<IssueId, IssueView>::empty());
        table
    }

    /// The issue with the given identifier, if the table holds it.
    pub fn get(&self, id: IssueId) -> (found: Option<&NewsletterIssue>)
        requires
            self.wf(),
        ensures
            match found {
                Some(issue) => self@.contains_key(id) && issue.id == id && issue@ == self@[id],
                None => !self@.contains_key(id),
            },
    {
        let mut i: usize = 0;
        while i < self.issues.len()
            invariant
                self.wf(),
                i <= self.issues@.len(),
                forall|j: int| 0 <= j < i ==> self.ids()[j] != id,
            decreases self.issues.len() - i,
        {
            if self.issues[i].id == id {
                proof {
                    lemma_keyed_lookup(self.ids(), self.contents(), i as int);
                }
                return Some(&self.issues[i]);
            }
            i += 1;
        }
        None
    }

    /// Adds an issue unless its identifier is taken. Says whether it was
    /// added.
    pub fn insert(&mut self, issue: NewsletterIssue) -> (inserted: bool)
        requires
            old(self).wf(),
        ensures
            final(self).wf(),
            inserted == !old(self)@.contains_key(issue.id),
            inserted ==> final(self)@ == old(self)@.insert(issue.id, issue@),
            !inserted ==> final(self)@ == old(self)@,
    {
        if self.get(issue.id).is_some() {
            return false;
        }
        proof {
            lemma_keyed_push(self.ids(), self.contents(), issue.id, issue@);
        }
        let ghost before = *self;
        self.issues.push(issue);
        assert(self.ids() =~= before.ids().push(issue.id));
        assert(self.contents() =~= before.contents().push(issue@));
        true
    }

    /// The number of issues.
    pub fn len(&self) -> (count: usize)
        requires
            self.wf(),
        ensures
            count == self@.dom().len(),
            self@.dom().finite(),
    {
        proof {
            lemma_keyed_domain(self.ids(), self.contents());
        }
        self.issues.len()
    }
}

/// A table of rows with distinct keys has as many keys as rows.
proof fn lemma_keyed_domain(ids: Seq<IssueId>, contents: Seq<IssueView>)
    requires
        ids.no_duplicates(),
    ensures
        keyed_map(ids, contents).dom().finite(),
        keyed_map(ids, contents).dom().len() == ids.len(),
{
    assert(keyed_map(ids, contents).dom() =~= ids.to_set());
    ids.unique_seq_to_set();
    vstd::seq_lib::seq_to_set_is_finite(ids);
}

} // verus!
