//! The durable state and the operations on it.
//!
//! A [`Store`] holds the three tables: the newsletter issues, the queue of
//! pending delivery tasks and the idempotency ledger. Each operation is one
//! transaction, and its contract says that the state moves as the model in
//! [`crate::model`] says.

use crate::domain::newsletter_form::NewsletterFormData;
use crate::domain::subscriber::{entries_view, ConfirmedSubscriber, DataIntegrityError};
use crate::error::PublishError;
use crate::ids::{IssueId, UserId};
use crate::issue::{
    issue_of, DeliveryTask, ExecutionOutcome, IssueTable, IssueView, NewsletterIssue, SendOutcome,
    TaskView,
};
use crate::laws::{
    lemma_iteration_is_claim_then_settle, lemma_oldest_unclaimed, lemma_step_preserves_wf,
};
use crate::ledger::{IdempotencyLedger, LedgerEntry};
use crate::model::{
    invalid_addresses, is_claimed_row, is_oldest_unclaimed, request_error, rows_for, tasks_of,
    texts, valid_recipients, CommitView, Event, IterationView, OutcomeView, QueueRowView,
    StartView, StoreView,
};
use crate::response::{see_other, HttpResponseSnapshot};
use vstd::pervasive::unreached;
use vstd::prelude::*;
use vstd::string::*;

verus! {

/// What [`Store::begin_publish`] tells its caller.
#[derive(Debug, PartialEq, Eq)]
pub enum PublishStart {
    /// The request is refused; nothing was written.
    Rejected(PublishError),
    /// An earlier request with this key has finished: this is its response.
    Replay(HttpResponseSnapshot),
    /// Another request with this key is under way: wait for it to end, then
    /// begin again.
    InFlight,
    /// This request is the first with its key: go on to commit or abort.
    Started,
}

impl View for PublishStart {
    type V = StartView;

    open spec fn view(&self) -> StartView {
        match self {
            PublishStart::Rejected(error) => StartView::Rejected(error@),
            PublishStart::Replay(response) => StartView::Replay(response@),
            PublishStart::InFlight => StartView::InFlight,
            PublishStart::Started => StartView::Started,
        }
    }
}

/// What a committed publish request hands back: the response, which the ledger
/// has saved, and the addresses that were skipped as invalid.
#[derive(Debug, PartialEq, Eq)]
pub struct PublishReceipt {
    pub response: HttpResponseSnapshot,
    pub skipped: Vec<String>,
}

/// What a commit tells its caller, as the model says it.
pub open spec fn commit_view(commit: Result<PublishReceipt, PublishError>) -> CommitView {
    match commit {
        Ok(receipt) => CommitView::Committed {
            response: receipt.response@,
            skipped: texts(receipt.skipped@),
        },
        Err(error) => CommitView::Failed(error@),
    }
}

/// What [`Store::publish`] tells its caller.
#[derive(Debug, PartialEq, Eq)]
pub enum PublishOutcome {
    /// This request created the issue and its tasks.
    Published(PublishReceipt),
    /// An earlier request with this key created them: this is its response.
    Replayed(HttpResponseSnapshot),
    /// Another request with this key is under way; nothing was written.
    InFlight,
    /// The request failed; nothing was written.
    Rejected(PublishError),
}

impl View for PublishOutcome {
    type V = OutcomeView;

    open spec fn view(&self) -> OutcomeView {
        match self {
            PublishOutcome::Published(receipt) => OutcomeView::Published {
                response: receipt.response@,
                skipped: texts(receipt.skipped@),
            },
            PublishOutcome::Replayed(response) => OutcomeView::Replayed(response@),
            PublishOutcome::InFlight => OutcomeView::InFlight,
            PublishOutcome::Rejected(error) => OutcomeView::Rejected(error@),
        }
    }
}

impl PublishOutcome {
    /// The response that the client gets, if the request has finished.
    pub fn response(&self) -> (response: Option<HttpResponseSnapshot>)
        ensures
            match response {
                Some(response) => self@.response() == Some(response@),
                None => self@.response() is None,
            },
    {
        match self {
            PublishOutcome::Published(receipt) => Some(receipt.response.clone()),
            PublishOutcome::Replayed(response) => Some(response.clone()),
            PublishOutcome::InFlight => None,
            PublishOutcome::Rejected(error) => Some(error.error_response()),
        }
    }
}

/// A claimed task with what it takes to send it: the recipient and the
/// issue's title and bodies.
#[derive(Debug, PartialEq, Eq)]
pub struct Delivery {
    pub task: DeliveryTask,
    pub title: String,
    pub html_body: String,
    pub text_body: String,
}

impl Delivery {
    /// What the delivery sends.
    pub open spec fn content(&self) -> IssueView {
        IssueView { title: self.title@, html_body: self.html_body@, text_body: self.text_body@ }
    }
}

/// What one iteration of the delivery worker did.
#[derive(Debug, PartialEq, Eq)]
pub enum Iteration {
    /// No task was free to be claimed.
    EmptyQueue,
    /// The task was delivered and left the queue.
    Delivered(DeliveryTask),
    /// The task's recipient is invalid: it left the queue undelivered. The
    /// caller should log a warning.
    Skipped(DeliveryTask),
    /// The attempt failed: the task stays in the queue.
    FailedTransiently(DeliveryTask),
}

impl View for Iteration {
    type V = IterationView;

    open spec fn view(&self) -> IterationView {
        match self {
            Iteration::EmptyQueue => IterationView::EmptyQueue,
            Iteration::Delivered(task) => IterationView::Delivered(task@),
            Iteration::Skipped(task) => IterationView::Skipped(task@),
            Iteration::FailedTransiently(task) => IterationView::FailedTransiently(task@),
        }
    }
}

impl Iteration {
    /// The outcome that the iteration reports.
    pub fn outcome(&self) -> (outcome: ExecutionOutcome)
        ensures
            outcome == self@.outcome(),
    {
        match self {
            Iteration::EmptyQueue => ExecutionOutcome::EmptyQueue,
            Iteration::Delivered(_) => ExecutionOutcome::TaskCompleted,
            Iteration::Skipped(_) => ExecutionOutcome::TaskCompleted,
            Iteration::FailedTransiently(_) => ExecutionOutcome::TaskFailedTransiently,
        }
    }
}

/// The recipients of a confirmed set and the addresses to skip.
#[derive(Debug, PartialEq, Eq)]
pub struct DeliveryPlan {
    /// The addresses of the valid entries, each once, in order.
    pub recipients: Vec<String>,
    /// The addresses of the invalid entries, in order.
    pub skipped: Vec<String>,
}

fn holds_text(strings: &Vec<String>, text: &String) -> (held: bool)
    ensures
        held == texts(strings@).contains(text@),
{
    let mut i: usize = 0;
    while i < strings.len()
        invariant
            i <= strings@.len(),
            forall|j: int| 0 <= j < i ==> texts(strings@)[j] != text@,
        decreases strings.len() - i,
    {
        if strings[i] == *text {
            assert(texts(strings@)[i as int] == text@);
            return true;
        }
        i += 1;
    }
    false
}

/// Sorts a confirmed set into the recipients that get a task and the
/// addresses that are skipped: an invalid entry never stops the others.
pub fn plan_deliveries(entries: &Vec<Result<ConfirmedSubscriber, DataIntegrityError>>) -> (plan:
    DeliveryPlan)
    ensures
        texts(plan.recipients@) == valid_recipients(entries_view(entries@)),
        texts(plan.skipped@) == invalid_addresses(entries_view(entries@)),
{
    let mut recipients: Vec<String> = Vec::new();
    let mut skipped: Vec<String> = Vec::new();
    let ghost all = entries_view(entries@);
    let mut i: usize = 0;
    assert(all.take(0) =~= Seq::empty());
    assert(texts(recipients@) =~= Seq::empty());
    assert(texts(skipped@) =~= Seq::empty());
    while i < entries.len()
        invariant
            i <= entries@.len(),
            all == entries_view(entries@),
            texts(recipients@) == valid_recipients(all.take(i as int)),
            texts(skipped@) == invalid_addresses(all.take(i as int)),
        decreases entries.len() - i,
    {
        proof {
            assert(all.take(i + 1).drop_last() =~= all.take(i as int));
            assert(all.take(i + 1).last() == all[i as int]);
        }
        let ghost recipients_before = recipients@;
        let ghost skipped_before = skipped@;
        match &entries[i] {
            Ok(subscriber) => {
                if !holds_text(&recipients, &subscriber.email) {
                    recipients.push(subscriber.email.clone());
                    assert(texts(recipients@) =~= texts(recipients_before).push(
                        subscriber.email@,
                    ));
                }
            },
            Err(error) => {
                skipped.push(error.email.clone());
                assert(texts(skipped@) =~= texts(skipped_before).push(error.email@));
            },
        }
        i += 1;
    }
    assert(all.take(i as int) =~= all);
    DeliveryPlan { recipients, skipped }
}

/// Says whether a request may start a transaction: it needs a user, a form
/// without an empty field and a key that is not empty.
pub fn check_request(
    user_id: Option<UserId>,
    idempotency_key: &str,
    form: &NewsletterFormData,
) -> (checked: Result<UserId, PublishError>)
    ensures
        match checked {
            Ok(user) => user_id == Some(user) && request_error(user_id, idempotency_key@, form@)
                is None,
            Err(error) => request_error(user_id, idempotency_key@, form@) == Some(error@),
        },
{
    match user_id {
        None => Err(
            PublishError::AuthError("The request carries no authenticated user.".to_owned()),
        ),
        Some(user) => {
            if form.newsletter_title.as_str().is_empty() {
                Err(PublishError::ValidationError("The newsletter's title is empty.".to_owned()))
            } else if form.newsletter_html.as_str().is_empty() {
                Err(
                    PublishError::ValidationError(
                        "The newsletter's HTML body is empty.".to_owned(),
                    ),
                )
            } else if form.newsletter_plain_text.as_str().is_empty() {
                Err(
                    PublishError::ValidationError(
                        "The newsletter's plain text body is empty.".to_owned(),
                    ),
                )
            } else if idempotency_key.is_empty() {
                Err(PublishError::ValidationError("The idempotency key is empty.".to_owned()))
            } else {
                Ok(user)
            }
        },
    }
}

#[derive(Debug)]
struct QueuedTask {
    task: DeliveryTask,
    claimed: bool,
}

impl View for QueuedTask {
    type V = QueueRowView;

    closed spec fn view(&self) -> QueueRowView {
        QueueRowView { task: self.task@, claimed: self.claimed }
    }
}

impl QueuedTask {
    fn is_claim_on(&self, task: &DeliveryTask) -> (held: bool)
        ensures
            held == (self@ == QueueRowView { task: task@, claimed: true }),
    {
        self.claimed && self.task.issue_id == task.issue_id && self.task.recipient == task.recipient
    }
}

/// The durable state: issues, delivery queue and idempotency ledger.
#[derive(Debug)]
pub struct Store {
    issues: IssueTable,
    queue: Vec<QueuedTask>,
    ledger: IdempotencyLedger,
}

impl View for Store {
    type V = StoreView;

    closed spec fn view(&self) -> StoreView {
        StoreView { issues: self.issues@, queue: self.rows(), ledger: self.ledger@ }
    }
}

impl Store {
    spec fn rows(&self) -> Seq<QueueRowView> {
        self.queue@.map_values(|row: QueuedTask| row@)
    }

    /// The invariant of the tables themselves: each holds a key once.
    pub closed spec fn tables_wf(&self) -> bool {
        self.issues.wf() && self.ledger.wf()
    }

    /// The invariant of the store: that of its tables and that of the state.
    pub open spec fn wf(&self) -> bool {
        self.tables_wf() && self@.wf()
    }

    /// A store with nothing in it.
    pub fn new() -> (store: Store)
        ensures
            store.wf(),
            store@ == StoreView::empty(),
    {
        let store = Store {
            issues: IssueTable::new(),
            queue: Vec::new(),
            ledger: IdempotencyLedger::new(),
        };
        assert(store.rows() =~= Seq::empty());
        store
    }

    /// Opens a publish request. The request is refused without a user, with
    /// an empty field or with an empty key. Otherwise the ledger decides: the
    /// first request with a key marks it and may go on; a request that finds
    /// the mark is told to wait; a request that finds a saved response gets
    /// that response.
    pub fn begin_publish(
        &mut self,
        user_id: Option<UserId>,
        idempotency_key: &str,
        form: &NewsletterFormData,
    ) -> (start: PublishStart)
        requires
            old(self).wf(),
        ensures
            final(self).wf(),
            final(self)@ == old(self)@.begin_publish(user_id, idempotency_key@, form@).0,
            start@ == old(self)@.begin_publish(user_id, idempotency_key@, form@).1,
    {
        proof {
            lemma_step_preserves_wf(
                self@,
                Event::BeginPublish { user: user_id, key: idempotency_key@, form: form@ },
            );
        }
        match check_request(user_id, idempotency_key, form) {
            Err(error) => PublishStart::Rejected(error),
            Ok(user) => match self.ledger.try_processing(user, idempotency_key) {
                None => PublishStart::Started,
                Some(LedgerEntry::Processing) => PublishStart::InFlight,
                Some(LedgerEntry::Saved(response)) => PublishStart::Replay(response),
            },
        }
    }

    /// Finishes the request that marked the key, as one transaction: the
    /// issue, one task for each valid recipient and the saved response are
    /// written together. Nothing is written where the form has an empty field,
    /// the key is empty or the key is not marked, and where the identifier of
    /// the issue is taken the mark is withdrawn too.
    pub fn commit_publish(
        &mut self,
        user_id: UserId,
        idempotency_key: &str,
        form: &NewsletterFormData,
        entries: &Vec<Result<ConfirmedSubscriber, DataIntegrityError>>,
        issue_id: IssueId,
    ) -> (commit: Result<PublishReceipt, PublishError>)
        requires
            old(self).wf(),
        ensures
            final(self).wf(),
            final(self)@ == old(self)@.commit_publish(
                user_id,
                idempotency_key@,
                form@,
                entries_view(entries@),
                issue_id,
            ).0,
            commit_view(commit) == old(self)@.commit_publish(
                user_id,
                idempotency_key@,
                form@,
                entries_view(entries@),
                issue_id,
            ).1,
    {
        let ghost before = self@;
        proof {
            lemma_step_preserves_wf(
                before,
                Event::CommitPublish {
                    user: user_id,
                    key: idempotency_key@,
                    form: form@,
                    entries: entries_view(entries@),
                    issue_id,
                },
            );
        }
        match check_request(Some(user_id), idempotency_key, form) {
            Err(error) => {
                return Err(error);
            },
            Ok(_) => {},
        }
        let marked = match self.ledger.lookup(user_id, idempotency_key) {
            Some(LedgerEntry::Processing) => true,
            _ => false,
        };
        if !marked {
            return Err(
                PublishError::UnexpectedError(
                    "No publish request is under way for this idempotency key.".to_owned(),
                ),
            );
        }
        if self.issues.get(issue_id).is_some() {
            self.ledger.release(user_id, idempotency_key);
            return Err(
                PublishError::UnexpectedError(
                    "A newsletter issue with this identifier exists already.".to_owned(),
                ),
            );
        }
        let plan = plan_deliveries(entries);
        self.issues.insert(
            NewsletterIssue {
                id: issue_id,
                title: form.newsletter_title.clone(),
                html_body: form.newsletter_html.clone(),
                text_body: form.newsletter_plain_text.clone(),
            },
        );
        let mut i: usize = 0;
        assert(texts(plan.recipients@).take(0) =~= Seq::empty());
        assert(self.rows() =~= before.queue + rows_for(issue_id, texts(plan.recipients@).take(0)));
        while i < plan.recipients.len()
            invariant
                i <= plan.recipients@.len(),
                self.issues@ == before.issues.insert(issue_id, issue_of(form@)),
                self.issues.wf(),
                self.ledger == old(self).ledger,
                self.rows() == before.queue + rows_for(
                    issue_id,
                    texts(plan.recipients@).take(i as int),
                ),
            decreases plan.recipients.len() - i,
        {
            let ghost rows_before = self.rows();
            self.queue.push(
                QueuedTask {
                    task: DeliveryTask { issue_id, recipient: plan.recipients[i].clone() },
                    claimed: false,
                },
            );
            assert(self.rows() =~= rows_before.push(
                QueueRowView {
                    task: TaskView { issue_id, recipient: plan.recipients@[i as int]@ },
                    claimed: false,
                },
            ));
            assert(self.rows() =~= before.queue + rows_for(
                issue_id,
                texts(plan.recipients@).take(i + 1),
            ));
            i += 1;
        }
        assert(texts(plan.recipients@).take(i as int) =~= texts(plan.recipients@));
        let response = see_other("/admin/newsletters");
        self.ledger.save_response(user_id, idempotency_key, response.clone());
        Ok(PublishReceipt { response, skipped: plan.skipped })
    }

    /// Gives up the request that marked the key: the mark is withdrawn, so a
    /// later request with the key starts afresh. A saved response stays. Says
    /// whether a mark was withdrawn.
    pub fn abort_publish(&mut self, user_id: UserId, idempotency_key: &str) -> (aborted: bool)
        requires
            old(self).wf(),
        ensures
            final(self).wf(),
            final(self)@ == old(self)@.abort_publish(user_id, idempotency_key@),
            aborted == (old(self)@.ledger.contains_key((user_id, idempotency_key@))
                && old(self)@.ledger[(user_id, idempotency_key@)] is Processing),
    {
        self.ledger.release(user_id, idempotency_key)
    }

    /// Handles a whole publish request as one transaction. The first request
    /// with a key creates the issue and one task per valid recipient, saves
    /// its response and returns it; every later request with the key gets the
    /// saved response and writes nothing. A request that is refused or fails
    /// writes nothing either.
    pub fn publish(
        &mut self,
        user_id: Option<UserId>,
        idempotency_key: &str,
        form: &NewsletterFormData,
        entries: &Vec<Result<ConfirmedSubscriber, DataIntegrityError>>,
        issue_id: IssueId,
    ) -> (outcome: PublishOutcome)
        requires
            old(self).wf(),
        ensures
            final(self).wf(),
            final(self)@ == old(self)@.publish(
                user_id,
                idempotency_key@,
                form@,
                entries_view(entries@),
                issue_id,
            ).0,
            outcome@ == old(self)@.publish(
                user_id,
                idempotency_key@,
                form@,
                entries_view(entries@),
                issue_id,
            ).1,
    {
        match self.begin_publish(user_id, idempotency_key, form) {
            PublishStart::Rejected(error) => PublishOutcome::Rejected(error),
            PublishStart::Replay(response) => PublishOutcome::Replayed(response),
            PublishStart::InFlight => PublishOutcome::InFlight,
            PublishStart::Started => {
                match user_id {
                    Some(user) => match self.commit_publish(
                        user,
                        idempotency_key,
                        form,
                        entries,
                        issue_id,
                    ) {
                        Ok(receipt) => PublishOutcome::Published(receipt),
                        Err(error) => PublishOutcome::Rejected(error),
                    },
                    None => unreached(),
                }
            },
        }
    }

    /// Claims the oldest task that no worker holds, and locks it so that no
    /// other worker can claim it. `None` says that no task is free. The task
    /// stays in the queue until it is settled.
    pub fn claim_task(&mut self) -> (claimed: Option<Delivery>)
        requires
            old(self).wf(),
        ensures
            final(self).wf(),
            final(self)@ == old(self)@.claim_task().0,
            match claimed {
                Some(delivery) => old(self)@.claim_task().1 == Some(delivery.task@)
                    && delivery.content() == old(self)@.issues[delivery.task.issue_id],
                None => old(self)@.claim_task().1 is None,
            },
    {
        let ghost before = self@;
        proof {
            lemma_step_preserves_wf(before, Event::ClaimTask);
            lemma_oldest_unclaimed(before);
        }
        let mut i: usize = 0;
        while i < self.queue.len() && self.queue[i].claimed
            invariant
                i <= self.queue@.len(),
                self.rows() == before.queue,
                forall|j: int| 0 <= j < i ==> (#[trigger] before.queue[j]).claimed,
            decreases self.queue.len() - i,
        {
            i += 1;
        }
        if i >= self.queue.len() {
            return None;
        }
        assert(is_oldest_unclaimed(before.queue, i as int));
        let task = self.queue[i].task.clone();
        let delivery = match self.issues.get(task.issue_id) {
            Some(issue) => Delivery {
                task: task.clone(),
                title: issue.title.clone(),
                html_body: issue.html_body.clone(),
                text_body: issue.text_body.clone(),
            },
            None => {
                assert(before.issues.contains_key(before.queue[i as int].task.issue_id));
                unreached()
            },
        };
        self.queue.set(i, QueuedTask { task, claimed: true });
        assert(self.rows() =~= before.queue.update(
            i as int,
            QueueRowView { task: before.queue[i as int].task, claimed: true },
        ));
        Some(delivery)
    }

    /// Ends a claim according to what the transport answered. A task that
    /// was delivered leaves the queue. A task whose recipient is invalid
    /// leaves it too, undelivered, and is not tried again. After a transient
    /// failure the task stays and is free to be claimed again. `None` says that
    /// no worker holds the task, and then nothing changes.
    pub fn settle_task(&mut self, task: &DeliveryTask, answer: SendOutcome) -> (settled: Option<
        Iteration,
    >)
        requires
            old(self).wf(),
        ensures
            final(self).wf(),
            final(self)@ == old(self)@.settle_task(task@, answer).0,
            match settled {
                Some(iteration) => old(self)@.settle_task(task@, answer).1 == Some(iteration@),
                None => old(self)@.settle_task(task@, answer).1 is None,
            },
    {
        let ghost before = self@;
        proof {
            lemma_step_preserves_wf(before, Event::SettleTask { task: task@, answer });
        }
        let mut i: usize = 0;
        while i < self.queue.len() && !self.queue[i].is_claim_on(task)
            invariant
                i <= self.queue@.len(),
                self.rows() == before.queue,
                forall|j: int| 0 <= j < i ==> !is_claimed_row(before.queue, task@, j),
            decreases self.queue.len() - i,
        {
            i += 1;
        }
        if i >= self.queue.len() {
            return None;
        }
        proof {
            assert(is_claimed_row(before.queue, task@, i as int));
            let j = choose|j: int| is_claimed_row(before.queue, task@, j);
            if j < i {
                assert(before.queue[j].task != before.queue[i as int].task);
            }
            if i < j {
                assert(before.queue[i as int].task != before.queue[j].task);
            }
            assert(before.claimed_row(task@) == Some(i as int));
        }
        match answer {
            SendOutcome::Delivered => {
                self.queue.remove(i);
                assert(self.rows() =~= before.queue.remove(i as int));
                Some(Iteration::Delivered(task.clone()))
            },
            SendOutcome::InvalidRecipient => {
                self.queue.remove(i);
                assert(self.rows() =~= before.queue.remove(i as int));
                Some(Iteration::Skipped(task.clone()))
            },
            SendOutcome::TransientFailure => {
                self.queue.set(i, QueuedTask { task: task.clone(), claimed: false });
                assert(self.rows() =~= before.queue.update(
                    i as int,
                    QueueRowView { task: task@, claimed: false },
                ));
                Some(Iteration::FailedTransiently(task.clone()))
            },
        }
    }

    /// Runs one iteration of the delivery worker against a transport whose
    /// answer is known: the oldest free task is claimed and settled with that
    /// answer.
    pub fn try_execute_task(&mut self, answer: SendOutcome) -> (iteration: Iteration)
        requires
            old(self).wf(),
        ensures
            final(self).wf(),
            final(self)@ == old(self)@.try_execute_task(answer).0,
            iteration@ == old(self)@.try_execute_task(answer).1,
    {
        proof {
            lemma_iteration_is_claim_then_settle(self@, answer);
        }
        match self.claim_task() {
            None => Iteration::EmptyQueue,
            Some(delivery) => match self.settle_task(&delivery.task, answer) {
                Some(iteration) => iteration,
                None => unreached(),
            },
        }
    }

    /// Brings the store to what a crash and restart leave of it: every key
    /// that was only marked is free again and every claim is dropped, while
    /// the issues, the pending tasks and the saved responses are as before.
    pub fn recover(&mut self)
        requires
            old(self).wf(),
        ensures
            final(self).wf(),
            final(self)@ == old(self)@.recover(),
    {
        let ghost before = self@;
        proof {
            lemma_step_preserves_wf(before, Event::Recover);
        }
        self.ledger.release_all();
        let mut i: usize = 0;
        while i < self.queue.len()
            invariant
                i <= self.queue@.len(),
                self.queue@.len() == before.queue.len(),
                self.issues == old(self).issues,
                self.ledger@ == before.recover().ledger,
                self.ledger.wf(),
                forall|j: int|
                    0 <= j < i ==> #[trigger] self.rows()[j] == (QueueRowView {
                        task: before.queue[j].task,
                        claimed: false,
                    }),
                forall|j: int|
                    i <= j < self.queue@.len() ==> #[trigger] self.rows()[j] == before.queue[j],
            decreases self.queue.len() - i,
        {
            let ghost rows_before = self.rows();
            assert(rows_before[i as int] == before.queue[i as int]);
            let task = self.queue[i].task.clone();
            self.queue.set(i, QueuedTask { task, claimed: false });
            assert(self.rows() =~= rows_before.update(
                i as int,
                QueueRowView { task: before.queue[i as int].task, claimed: false },
            ));
            i += 1;
        }
        assert(self.rows() =~= before.recover().queue);
    }

    /// The pending tasks, oldest first, claimed or not.
    pub fn pending_tasks(&self) -> (tasks: Vec<DeliveryTask>)
        requires
            self.wf(),
        ensures
            tasks@.map_values(|task: DeliveryTask| task@) == tasks_of(self@.queue),
    {
        let mut tasks: Vec<DeliveryTask> = Vec::new();
        let mut i: usize = 0;
        while i < self.queue.len()
            invariant
                i <= self.queue@.len(),
                tasks@.len() == i,
                forall|j: int| 0 <= j < i ==> (#[trigger] tasks@[j])@ == self.rows()[j].task,
            decreases self.queue.len() - i,
        {
            tasks.push(self.queue[i].task.clone());
            i += 1;
        }
        assert(tasks@.map_values(|task: DeliveryTask| task@) =~= tasks_of(self@.queue));
        tasks
    }

    /// The number of pending tasks.
    pub fn pending_count(&self) -> (count: usize)
        ensures
            count == self@.queue.len(),
    {
        self.queue.len()
    }

    /// The number of issues.
    pub fn issue_count(&self) -> (count: usize)
        requires
            self.wf(),
        ensures
            self@.issues.dom().finite(),
            count == self@.issues.dom().len(),
    {
        self.issues.len()
    }

    /// The issue with the given identifier, if there is one.
    pub fn issue(&self, id: IssueId) -> (found: Option<&NewsletterIssue>)
        requires
            self.wf(),
        ensures
            match found {
                Some(issue) => self@.issues.contains_key(id) && issue.id == id && issue@
                    == self@.issues[id],
                None => !self@.issues.contains_key(id),
            },
    {
        self.issues.get(id)
    }

    /// What the ledger holds for a user and key, if anything.
    pub fn ledger_entry(&self, user_id: UserId, idempotency_key: &str) -> (entry: Option<
        LedgerEntry,
    >)
        requires
            self.wf(),
        ensures
            match entry {
                Some(entry) => self@.ledger.contains_key((user_id, idempotency_key@)) && entry@
                    == self@.ledger[(user_id, idempotency_key@)],
                None => !self@.ledger.contains_key((user_id, idempotency_key@)),
            },
    {
        self.ledger.lookup(user_id, idempotency_key)
    }
}

} // verus!
