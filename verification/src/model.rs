//! The mathematical model of the durable state and of every operation on it.
//!
//! The state is three tables: the newsletter issues, the queue of pending
//! delivery tasks and the idempotency ledger. Each operation is a function from
//! a state to the next state and to what the caller is told; it stands for one
//! transaction, so either all of its writes are in the next state or none is.

use crate::domain::newsletter_form::NewsletterFormView;
use crate::domain::subscriber::SubscriberRowView;
use crate::error::PublishErrorView;
use crate::ids::{IssueId, UserId};
use crate::issue::{issue_of, ExecutionOutcome, IssueView, SendOutcome, TaskView};
use crate::response::{see_other_response, ResponseView};
use vstd::prelude::*;

verus! {

/// What the ledger holds for one idempotency key.
pub enum EntryView {
    /// A request with this key has begun and has not finished.
    Processing,
    /// The response of the request that finished first.
    Saved(ResponseView),
}

/// One row of the delivery queue: a pending task, and whether a worker holds
/// the lock on it.
pub struct QueueRowView {
    pub task: TaskView,
    pub claimed: bool,
}

/// The durable state.
#[verifier::ext_equal]
pub struct StoreView {
    /// The issues, by identifier.
    pub issues: Map<IssueId, IssueView>,
    /// The pending tasks, oldest first.
    pub queue: Seq<QueueRowView>,
    /// The ledger, by user and idempotency key.
    pub ledger: Map<(UserId, Seq<char>), EntryView>,
}

/// What `begin_publish` tells its caller.
pub enum StartView {
    /// The request is refused; nothing was written.
    Rejected(PublishErrorView),
    /// An earlier request with this key has finished: this is its response.
    Replay(ResponseView),
    /// Another request with this key is under way.
    InFlight,
    /// This request is the first with its key and may go on.
    Started,
}

/// What `commit_publish` tells its caller.
pub enum CommitView {
    /// Everything was written. `skipped` lists the addresses of the invalid
    /// entries, for which no task was filed.
    Committed { response: ResponseView, skipped: Seq<Seq<char>> },
    /// Nothing was written.
    Failed(PublishErrorView),
}

/// What `publish` tells its caller.
pub enum OutcomeView {
    /// This request created the issue and its tasks.
    Published { response: ResponseView, skipped: Seq<Seq<char>> },
    /// An earlier request with this key created them: this is its response.
    Replayed(ResponseView),
    /// Another request with this key is under way; nothing was written.
    InFlight,
    /// The request failed; nothing was written.
    Rejected(PublishErrorView),
}

/// What one iteration of the delivery worker did.
pub enum IterationView {
    /// No task was free to be claimed.
    EmptyQueue,
    /// The task was delivered and left the queue.
    Delivered(TaskView),
    /// The task's recipient is invalid: it left the queue undelivered.
    Skipped(TaskView),
    /// The attempt failed: the task stays in the queue.
    FailedTransiently(TaskView),
}

/// What a run of the delivery worker did, iteration by iteration.
pub struct RunView {
    pub store: StoreView,
    /// The tasks delivered, in the order of their delivery.
    pub delivered: Seq<TaskView>,
    /// The tasks skipped for an invalid recipient, in the order of the skips.
    pub skipped: Seq<TaskView>,
}

/// Any operation on the state, with its arguments.
#[allow(inconsistent_fields)]
pub enum Event {
    BeginPublish { user: Option<UserId>, key: Seq<char>, form: NewsletterFormView },
    CommitPublish {
        user: UserId,
        key: Seq<char>,
        form: NewsletterFormView,
        entries: Seq<SubscriberRowView>,
        issue_id: IssueId,
    },
    AbortPublish { user: UserId, key: Seq<char> },
    Publish {
        user: Option<UserId>,
        key: Seq<char>,
        form: NewsletterFormView,
        entries: Seq<SubscriberRowView>,
        issue_id: IssueId,
    },
    ClaimTask,
    SettleTask { task: TaskView, answer: SendOutcome },
    TryExecuteTask { answer: SendOutcome },
    Recover,
}

/// The cause given when a request carries no user.
pub open spec fn missing_user_cause() -> Seq<char> {
    "The request carries no authenticated user."@
}

/// The cause given when the title is empty.
pub open spec fn empty_title_cause() -> Seq<char> {
    "The newsletter's title is empty."@
}

/// The cause given when the HTML body is empty.
pub open spec fn empty_html_cause() -> Seq<char> {
    "The newsletter's HTML body is empty."@
}

/// The cause given when the plain text body is empty.
pub open spec fn empty_text_cause() -> Seq<char> {
    "The newsletter's plain text body is empty."@
}

/// The cause given when the idempotency key is empty.
pub open spec fn empty_key_cause() -> Seq<char> {
    "The idempotency key is empty."@
}

/// The cause given when a commit finds no request under way for its key.
pub open spec fn not_started_cause() -> Seq<char> {
    "No publish request is under way for this idempotency key."@
}

/// The cause given when the identifier of the new issue is taken.
pub open spec fn issue_exists_cause() -> Seq<char> {
    "A newsletter issue with this identifier exists already."@
}

/// Where a successful publish request sends the client.
pub open spec fn publish_form_location() -> Seq<char> {
    "/admin/newsletters"@
}

/// The response to a successful publish request: a redirect to the publish
/// form.
pub open spec fn accepted_response() -> ResponseView {
    see_other_response(publish_form_location())
}

/// Why a request is refused before any transaction starts, if it is: first for
/// a missing user, then for the first empty field, then for an empty key.
pub open spec fn request_error(
    user: Option<UserId>,
    key: Seq<char>,
    form: NewsletterFormView,
) -> Option<PublishErrorView> {
    if user is None {
        Some(PublishErrorView::AuthError(missing_user_cause()))
    } else if form.title.len() == 0 {
        Some(PublishErrorView::ValidationError(empty_title_cause()))
    } else if form.html.len() == 0 {
        Some(PublishErrorView::ValidationError(empty_html_cause()))
    } else if form.plain_text.len() == 0 {
        Some(PublishErrorView::ValidationError(empty_text_cause()))
    } else if key.len() == 0 {
        Some(PublishErrorView::ValidationError(empty_key_cause()))
    } else {
        None
    }
}

/// The recipients that get a task: the addresses of the valid entries, each
/// once, in the order of their first occurrence.
pub open spec fn valid_recipients(entries: Seq<SubscriberRowView>) -> Seq<Seq<char>>
    decreases entries.len(),
{
    if entries.len() == 0 {
        Seq::empty()
    } else {
        let before = valid_recipients(entries.drop_last());
        let last = entries.last();
        if last.raw_validity && !before.contains(last.email) {
            before.push(last.email)
        } else {
            before
        }
    }
}

/// The addresses of the invalid entries, in order.
pub open spec fn invalid_addresses(entries: Seq<SubscriberRowView>) -> Seq<Seq<char>>
    decreases entries.len(),
{
    if entries.len() == 0 {
        Seq::empty()
    } else {
        let before = invalid_addresses(entries.drop_last());
        let last = entries.last();
        if last.raw_validity {
            before
        } else {
            before.push(last.email)
        }
    }
}

/// One unclaimed queue row per recipient, in order, all for one issue.
pub open spec fn rows_for(issue_id: IssueId, recipients: Seq<Seq<char>>) -> Seq<QueueRowView> {
    Seq::new(
        recipients.len(),
        |i: int|
            QueueRowView { task: TaskView { issue_id, recipient: recipients[i] }, claimed: false },
    )
}

/// The tasks of a queue, oldest first.
pub open spec fn tasks_of(queue: Seq<QueueRowView>) -> Seq<TaskView> {
    queue.map_values(|row: QueueRowView| row.task)
}

/// The texts that a sequence of strings holds.
pub open spec fn texts(strings: Seq<String>) -> Seq<Seq<char>> {
    strings.map_values(|string: String| string@)
}

/// Whether row `i` is the oldest of the rows that no worker has claimed.
pub open spec fn is_oldest_unclaimed(queue: Seq<QueueRowView>, i: int) -> bool {
    &&& 0 <= i < queue.len()
    &&& !queue[i].claimed
    &&& forall|j: int| 0 <= j < i ==> (#[trigger] queue[j]).claimed
}

/// Whether row `i` holds the given task under a worker's lock.
pub open spec fn is_claimed_row(queue: Seq<QueueRowView>, task: TaskView, i: int) -> bool {
    0 <= i < queue.len() && queue[i] == (QueueRowView { task, claimed: true })
}

impl IterationView {
    /// The outcome that the iteration reports.
    pub open spec fn outcome(self) -> ExecutionOutcome {
        match self {
            IterationView::EmptyQueue => ExecutionOutcome::EmptyQueue,
            IterationView::Delivered(_) => ExecutionOutcome::TaskCompleted,
            IterationView::Skipped(_) => ExecutionOutcome::TaskCompleted,
            IterationView::FailedTransiently(_) => ExecutionOutcome::TaskFailedTransiently,
        }
    }
}

impl OutcomeView {
    /// The response that the client gets, if the request has finished.
    pub open spec fn response(self) -> Option<ResponseView> {
        match self {
            OutcomeView::Published { response, skipped } => Some(response),
            OutcomeView::Replayed(response) => Some(response),
            OutcomeView::InFlight => None,
            OutcomeView::Rejected(error) => Some(error.response()),
        }
    }
}

impl StoreView {
    /// The state with nothing in it.
    pub open spec fn empty() -> StoreView {
        StoreView { issues: Map::empty(), queue: Seq::empty(), ledger: Map::empty() }
    }

    /// Whether a task is pending.
    pub open spec fn has_task(self, task: TaskView) -> bool {
        exists|i: int| 0 <= i < self.queue.len() && (#[trigger] self.queue[i]).task == task
    }

    /// The invariant of the state: no task is queued twice, every queued task
    /// belongs to an issue that exists, and every issue has a title and both
    /// bodies.
    pub open spec fn wf(self) -> bool {
        &&& forall|id: IssueId|
            self.issues.contains_key(id) ==> (#[trigger] self.issues[id]).is_complete()
        &&& forall|i: int, j: int|
            0 <= i < j < self.queue.len() ==> (#[trigger] self.queue[i]).task != (
            #[trigger] self.queue[j]).task
        &&& forall|i: int|
            0 <= i < self.queue.len() ==> self.issues.contains_key(
                (#[trigger] self.queue[i]).task.issue_id,
            )
    }

    /// Opens a publish request: refuses it, replays the saved response, reports
    /// a request under way, or marks the key as being processed.
    pub open spec fn begin_publish(
        self,
        user: Option<UserId>,
        key: Seq<char>,
        form: NewsletterFormView,
    ) -> (StoreView, StartView) {
        match request_error(user, key, form) {
            Some(error) => (self, StartView::Rejected(error)),
            None => {
                let k = (user->0, key);
                if !self.ledger.contains_key(k) {
                    (
                        StoreView { ledger: self.ledger.insert(k, EntryView::Processing), ..self },
                        StartView::Started,
                    )
                } else {
                    match self.ledger[k] {
                        EntryView::Processing => (self, StartView::InFlight),
                        EntryView::Saved(response) => (self, StartView::Replay(response)),
                    }
                }
            },
        }
    }

    /// Finishes the request that marked the key: writes the issue, one task
    /// per valid recipient and the response, or nothing at all. A form with
    /// an empty field and an empty key are refused as at the beginning. Where
    /// the identifier of the issue is taken, the mark is withdrawn as well.
    pub open spec fn commit_publish(
        self,
        user: UserId,
        key: Seq<char>,
        form: NewsletterFormView,
        entries: Seq<SubscriberRowView>,
        issue_id: IssueId,
    ) -> (StoreView, CommitView) {
        let k = (user, key);
        if request_error(Some(user), key, form) is Some {
            (self, CommitView::Failed(request_error(Some(user), key, form)->0))
        } else if !(self.ledger.contains_key(k) && self.ledger[k] is Processing) {
            (self, CommitView::Failed(PublishErrorView::UnexpectedError(not_started_cause())))
        } else if self.issues.contains_key(issue_id) {
            (
                StoreView { ledger: self.ledger.remove(k), ..self },
                CommitView::Failed(PublishErrorView::UnexpectedError(issue_exists_cause())),
            )
        } else {
            (
                StoreView {
                    issues: self.issues.insert(issue_id, issue_of(form)),
                    queue: self.queue + rows_for(issue_id, valid_recipients(entries)),
                    ledger: self.ledger.insert(k, EntryView::Saved(accepted_response())),
                },
                CommitView::Committed {
                    response: accepted_response(),
                    skipped: invalid_addresses(entries),
                },
            )
        }
    }

    /// Gives up the request that marked the key: the mark is withdrawn. A
    /// saved response stays.
    pub open spec fn abort_publish(self, user: UserId, key: Seq<char>) -> StoreView {
        let k = (user, key);
        if self.ledger.contains_key(k) && self.ledger[k] is Processing {
            StoreView { ledger: self.ledger.remove(k), ..self }
        } else {
            self
        }
    }

    /// A whole publish request as one transaction: `begin_publish`, and
    /// `commit_publish` where that one says `Started`.
    pub open spec fn publish(
        self,
        user: Option<UserId>,
        key: Seq<char>,
        form: NewsletterFormView,
        entries: Seq<SubscriberRowView>,
        issue_id: IssueId,
    ) -> (StoreView, OutcomeView) {
        let (started, start) = self.begin_publish(user, key, form);
        match start {
            StartView::Rejected(error) => (self, OutcomeView::Rejected(error)),
            StartView::Replay(response) => (self, OutcomeView::Replayed(response)),
            StartView::InFlight => (self, OutcomeView::InFlight),
            StartView::Started => {
                let (done, commit) = started.commit_publish(user->0, key, form, entries, issue_id);
                match commit {
                    CommitView::Committed { response, skipped } => (
                        done,
                        OutcomeView::Published { response, skipped },
                    ),
                    CommitView::Failed(error) => (done, OutcomeView::Rejected(error)),
                }
            },
        }
    }

    /// The oldest row that no worker has claimed, if there is one.
    pub open spec fn oldest_unclaimed(self) -> Option<int> {
        if exists|i: int| is_oldest_unclaimed(self.queue, i) {
            Some(choose|i: int| is_oldest_unclaimed(self.queue, i))
        } else {
            None
        }
    }

    /// Claims the oldest unclaimed task for a worker, if there is one.
    pub open spec fn claim_task(self) -> (StoreView, Option<TaskView>) {
        match self.oldest_unclaimed() {
            Some(i) => (
                StoreView {
                    queue: self.queue.update(
                        i,
                        QueueRowView { task: self.queue[i].task, claimed: true },
                    ),
                    ..self
                },
                Some(self.queue[i].task),
            ),
            None => (self, None),
        }
    }

    /// The row that holds the given task under a worker's lock, if there is
    /// one.
    pub open spec fn claimed_row(self, task: TaskView) -> Option<int> {
        if exists|i: int| is_claimed_row(self.queue, task, i) {
            Some(choose|i: int| is_claimed_row(self.queue, task, i))
        } else {
            None
        }
    }

    /// Ends the attempt on row `i` according to what the transport answered:
    /// the task leaves the queue when it was delivered or its recipient is
    /// invalid, and stays, unclaimed, for another attempt otherwise.
    pub open spec fn settle_row(self, i: int, answer: SendOutcome) -> (StoreView, IterationView) {
        let task = self.queue[i].task;
        match answer {
            SendOutcome::Delivered => (
                StoreView { queue: self.queue.remove(i), ..self },
                IterationView::Delivered(task),
            ),
            SendOutcome::InvalidRecipient => (
                StoreView { queue: self.queue.remove(i), ..self },
                IterationView::Skipped(task),
            ),
            SendOutcome::TransientFailure => (
                StoreView {
                    queue: self.queue.update(i, QueueRowView { task, claimed: false }),
                    ..self
                },
                IterationView::FailedTransiently(task),
            ),
        }
    }

    /// Ends a worker's claim on a task according to what the transport
    /// answered. Without a claim on the task nothing happens.
    pub open spec fn settle_task(self, task: TaskView, answer: SendOutcome) -> (
        StoreView,
        Option<IterationView>,
    ) {
        match self.claimed_row(task) {
            Some(i) => (self.settle_row(i, answer).0, Some(self.settle_row(i, answer).1)),
            None => (self, None),
        }
    }

    /// One iteration of the delivery worker against a transport that gives the
    /// stated answer: the oldest unclaimed task is claimed and settled.
    pub open spec fn try_execute_task(self, answer: SendOutcome) -> (StoreView, IterationView) {
        match self.oldest_unclaimed() {
            Some(i) => self.settle_row(i, answer),
            None => (self, IterationView::EmptyQueue),
        }
    }

    /// A run of the delivery worker: one iteration per answer, in order.
    pub open spec fn run_worker(self, answers: Seq<SendOutcome>) -> RunView
        decreases answers.len(),
    {
        if answers.len() == 0 {
            RunView { store: self, delivered: Seq::empty(), skipped: Seq::empty() }
        } else {
            let before = self.run_worker(answers.drop_last());
            let (store, iteration) = before.store.try_execute_task(answers.last());
            match iteration {
                IterationView::Delivered(task) => RunView {
                    store,
                    delivered: before.delivered.push(task),
                    skipped: before.skipped,
                },
                IterationView::Skipped(task) => RunView {
                    store,
                    delivered: before.delivered,
                    skipped: before.skipped.push(task),
                },
                _ => RunView { store, ..before },
            }
        }
    }

    /// What is left after a crash and restart: the transactions under way are
    /// gone, so no key is marked and no task is claimed. Everything committed
    /// is still there.
    pub open spec fn recover(self) -> StoreView {
        StoreView {
            issues: self.issues,
            queue: Seq::new(
                self.queue.len(),
                |i: int| QueueRowView { task: self.queue[i].task, claimed: false },
            ),
            ledger: Map::new(
                |k: (UserId, Seq<char>)| self.ledger.contains_key(k) && self.ledger[k] is Saved,
                |k: (UserId, Seq<char>)| self.ledger[k],
            ),
        }
    }

    /// The state after an event.
    pub open spec fn step(self, event: Event) -> StoreView {
        match event {
            Event::BeginPublish { user, key, form } => self.begin_publish(user, key, form).0,
            Event::CommitPublish { user, key, form, entries, issue_id } => self.commit_publish(
                user,
                key,
                form,
                entries,
                issue_id,
            ).0,
            Event::AbortPublish { user, key } => self.abort_publish(user, key),
            Event::Publish { user, key, form, entries, issue_id } => self.publish(
                user,
                key,
                form,
                entries,
                issue_id,
            ).0,
            Event::ClaimTask => self.claim_task().0,
            Event::SettleTask { task, answer } => self.settle_task(task, answer).0,
            Event::TryExecuteTask { answer } => self.try_execute_task(answer).0,
            Event::Recover => self.recover(),
        }
    }
}

} // verus!
