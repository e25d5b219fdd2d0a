//! What the model guarantees: invariants of every state, and laws that relate
//! several operations.

use crate::domain::newsletter_form::NewsletterFormView;
use crate::domain::subscriber::SubscriberRowView;
use crate::error::PublishErrorView;
use crate::ids::{IssueId, UserId};
use crate::issue::{issue_of, SendOutcome, TaskView};
use crate::model::{
    accepted_response, invalid_addresses, is_claimed_row, is_oldest_unclaimed, rows_for, tasks_of,
    valid_recipients, CommitView, EntryView, Event, IterationView, OutcomeView, QueueRowView,
    StartView, StoreView,
};
use vstd::prelude::*;

verus! {

/// The recipients of a confirmed set are distinct, and an address is among
/// them exactly if a valid entry holds it.
pub proof fn lemma_valid_recipients(entries: Seq<SubscriberRowView>)
    ensures
        valid_recipients(entries).no_duplicates(),
        valid_recipients(entries).len() <= entries.len(),
        forall|email: Seq<char>|
            valid_recipients(entries).contains(email) <==> exists|i: int|
                0 <= i < entries.len() && (#[trigger] entries[i]).raw_validity && entries[i].email
                    == email,
    decreases entries.len(),
{
    if entries.len() > 0 {
        let front = entries.drop_last();
        let last = entries.last();
        lemma_valid_recipients(front);
        let before = valid_recipients(front);
        let all = valid_recipients(entries);
        assert forall|email: Seq<char>|
            all.contains(email) <==> exists|i: int|
                0 <= i < entries.len() && (#[trigger] entries[i]).raw_validity && entries[i].email
                    == email by {
            if all.contains(email) {
                if before.contains(email) {
                    let i = choose|i: int|
                        0 <= i < front.len() && (#[trigger] front[i]).raw_validity && front[i].email
                            == email;
                    assert(entries[i] == front[i]);
                } else {
                    let j = choose|j: int| 0 <= j < all.len() && all[j] == email;
                    assert(j == before.len());
                    assert(entries[entries.len() - 1].raw_validity);
                }
            }
            if exists|i: int|
                0 <= i < entries.len() && (#[trigger] entries[i]).raw_validity && entries[i].email
                    == email {
                let i = choose|i: int|
                    0 <= i < entries.len() && (#[trigger] entries[i]).raw_validity
                        && entries[i].email == email;
                if i < front.len() {
                    assert(front[i] == entries[i]);
                    assert(before.contains(email));
                    let j = choose|j: int| 0 <= j < before.len() && before[j] == email;
                    assert(all[j] == email);
                } else {
                    if before.contains(email) {
                        let j = choose|j: int| 0 <= j < before.len() && before[j] == email;
                        assert(all[j] == email);
                    } else {
                        assert(all[before.len() as int] == email);
                    }
                }
            }
        }
    }
}

/// Where every entry is valid and no address occurs twice, the recipients
/// are the addresses of the entries, in order.
pub proof fn lemma_valid_recipients_of_a_clean_set(entries: Seq<SubscriberRowView>)
    requires
        forall|i: int| 0 <= i < entries.len() ==> (#[trigger] entries[i]).raw_validity,
        forall|i: int, j: int|
            0 <= i < j < entries.len() ==> (#[trigger] entries[i]).email != (
            #[trigger] entries[j]).email,
    ensures
        valid_recipients(entries) == entries.map_values(|entry: SubscriberRowView| entry.email),
        invalid_addresses(entries) == Seq::<Seq<char>>::empty(),
    decreases entries.len(),
{
    let emails = entries.map_values(|entry: SubscriberRowView| entry.email);
    if entries.len() > 0 {
        let front = entries.drop_last();
        let last = entries.last();
        assert forall|i: int| 0 <= i < front.len() implies (#[trigger] front[i]).raw_validity by {
            assert(front[i] == entries[i]);
        }
        assert forall|i: int, j: int| 0 <= i < j < front.len() implies (#[trigger] front[i]).email
            != (#[trigger] front[j]).email by {
            assert(front[i] == entries[i]);
            assert(front[j] == entries[j]);
        }
        lemma_valid_recipients_of_a_clean_set(front);
        let before = valid_recipients(front);
        if before.contains(last.email) {
            let j = choose|j: int| 0 <= j < before.len() && before[j] == last.email;
            assert(front[j] == entries[j]);
            assert(entries[j].email != entries[entries.len() - 1].email);
        }
        assert(entries[entries.len() - 1].raw_validity);
        assert(valid_recipients(entries) =~= emails);
    } else {
        assert(valid_recipients(entries) =~= emails);
    }
}

/// The addresses skipped are exactly those of the invalid entries.
pub proof fn lemma_invalid_addresses(entries: Seq<SubscriberRowView>)
    ensures
        invalid_addresses(entries).len() <= entries.len(),
        forall|email: Seq<char>|
            invalid_addresses(entries).contains(email) <==> exists|i: int|
                0 <= i < entries.len() && !(#[trigger] entries[i]).raw_validity && entries[i].email
                    == email,
    decreases entries.len(),
{
    if entries.len() > 0 {
        let front = entries.drop_last();
        lemma_invalid_addresses(front);
        let before = invalid_addresses(front);
        let all = invalid_addresses(entries);
        assert forall|email: Seq<char>|
            all.contains(email) <==> exists|i: int|
                0 <= i < entries.len() && !(#[trigger] entries[i]).raw_validity && entries[i].email
                    == email by {
            if all.contains(email) {
                if before.contains(email) {
                    let i = choose|i: int|
                        0 <= i < front.len() && !(#[trigger] front[i]).raw_validity
                            && front[i].email == email;
                    assert(entries[i] == front[i]);
                } else {
                    let j = choose|j: int| 0 <= j < all.len() && all[j] == email;
                    assert(j == before.len());
                    assert(!entries[entries.len() - 1].raw_validity);
                }
            }
            if exists|i: int|
                0 <= i < entries.len() && !(#[trigger] entries[i]).raw_validity && entries[i].email
                    == email {
                let i = choose|i: int|
                    0 <= i < entries.len() && !(#[trigger] entries[i]).raw_validity
                        && entries[i].email == email;
                if i < front.len() {
                    assert(front[i] == entries[i]);
                    assert(before.contains(email));
                    let j = choose|j: int| 0 <= j < before.len() && before[j] == email;
                    assert(all[j] == email);
                } else {
                    assert(all[before.len() as int] == email);
                }
            }
        }
    }
}

/// Every operation keeps the invariant of the state.
pub proof fn lemma_step_preserves_wf(s: StoreView, event: Event)
    requires
        s.wf(),
    ensures
        s.step(event).wf(),
{
    match event {
        Event::BeginPublish { user, key, form } => {},
        Event::CommitPublish { user, key, form, entries, issue_id } => {
            lemma_commit_preserves_wf(s, user, key, form, entries, issue_id);
        },
        Event::AbortPublish { user, key } => {},
        Event::Publish { user, key, form, entries, issue_id } => {
            let (started, start) = s.begin_publish(user, key, form);
            if start is Started {
                lemma_commit_preserves_wf(started, user->0, key, form, entries, issue_id);
            }
        },
        Event::ClaimTask => {},
        Event::SettleTask { task, answer } => {
            match s.claimed_row(task) {
                Some(i) => lemma_settle_row_preserves_wf(s, i, answer),
                None => {},
            }
        },
        Event::TryExecuteTask { answer } => {
            match s.oldest_unclaimed() {
                Some(i) => lemma_settle_row_preserves_wf(s, i, answer),
                None => {},
            }
        },
        Event::Recover => {},
    }
}

proof fn lemma_commit_preserves_wf(
    s: StoreView,
    user: UserId,
    key: Seq<char>,
    form: NewsletterFormView,
    entries: Seq<SubscriberRowView>,
    issue_id: IssueId,
)
    requires
        s.wf(),
    ensures
        s.commit_publish(user, key, form, entries, issue_id).0.wf(),
{
    let next = s.commit_publish(user, key, form, entries, issue_id).0;
    let k = (user, key);
    if s.ledger.contains_key(k) && s.ledger[k] is Processing && !s.issues.contains_key(issue_id) {
        lemma_valid_recipients(entries);
        let recipients = valid_recipients(entries);
        let fresh = rows_for(issue_id, recipients);
        assert forall|i: int, j: int| 0 <= i < j < next.queue.len() implies (
        #[trigger] next.queue[i]).task != (#[trigger] next.queue[j]).task by {
            if j < s.queue.len() {
                assert(next.queue[i] == s.queue[i]);
                assert(next.queue[j] == s.queue[j]);
            } else if i < s.queue.len() {
                assert(next.queue[i] == s.queue[i]);
                assert(next.queue[j] == fresh[j - s.queue.len()]);
                assert(s.issues.contains_key(s.queue[i].task.issue_id));
            } else {
                assert(next.queue[i] == fresh[i - s.queue.len()]);
                assert(next.queue[j] == fresh[j - s.queue.len()]);
                assert(recipients[i - s.queue.len()] != recipients[j - s.queue.len()]);
            }
        }
        assert forall|i: int| 0 <= i < next.queue.len() implies next.issues.contains_key(
            (#[trigger] next.queue[i]).task.issue_id,
        ) by {
            if i < s.queue.len() {
                assert(next.queue[i] == s.queue[i]);
            } else {
                assert(next.queue[i] == fresh[i - s.queue.len()]);
            }
        }
    }
}

proof fn lemma_settle_row_preserves_wf(s: StoreView, i: int, answer: SendOutcome)
    requires
        s.wf(),
        0 <= i < s.queue.len(),
    ensures
        s.settle_row(i, answer).0.wf(),
{
    let next = s.settle_row(i, answer).0;
    match answer {
        SendOutcome::TransientFailure => {},
        _ => {
            assert(next.queue == s.queue.remove(i));
            assert forall|a: int, b: int| 0 <= a < b < next.queue.len() implies (
            #[trigger] next.queue[a]).task != (#[trigger] next.queue[b]).task by {
                let a0 = if a < i { a } else { a + 1 };
                let b0 = if b < i { b } else { b + 1 };
                assert(next.queue[a] == s.queue[a0]);
                assert(next.queue[b] == s.queue[b0]);
            }
            assert forall|a: int| 0 <= a < next.queue.len() implies next.issues.contains_key(
                (#[trigger] next.queue[a]).task.issue_id,
            ) by {
                let a0 = if a < i { a } else { a + 1 };
                assert(next.queue[a] == s.queue[a0]);
            }
        },
    }
}

/// A publish request is one transaction: it either creates the issue, its
/// tasks and the saved response together, or leaves the state as it was. In
/// particular a request that fails leaves no issue, no task and no ledger row
/// behind.
pub proof fn lemma_publish_is_all_or_nothing(
    s: StoreView,
    user: Option<UserId>,
    key: Seq<char>,
    form: NewsletterFormView,
    entries: Seq<SubscriberRowView>,
    issue_id: IssueId,
)
    ensures
        ({
            let (next, outcome) = s.publish(user, key, form, entries, issue_id);
            &&& outcome is Published ==> {
                &&& user is Some
                &&& !s.ledger.contains_key((user->0, key))
                &&& !s.issues.contains_key(issue_id)
                &&& next.issues == s.issues.insert(issue_id, issue_of(form))
                &&& next.queue == s.queue + rows_for(issue_id, valid_recipients(entries))
                &&& next.ledger == s.ledger.insert(
                    (user->0, key),
                    EntryView::Saved(outcome->Published_response),
                )
            }
            &&& !(outcome is Published) ==> next == s
        }),
{
    let (started, start) = s.begin_publish(user, key, form);
    if start is Started {
        let k = (user->0, key);
        assert(s.ledger.insert(k, EntryView::Processing).remove(k) =~= s.ledger);
        assert(s.ledger.insert(k, EntryView::Processing).insert(
            k,
            EntryView::Saved(accepted_response()),
        ) =~= s.ledger.insert(k, EntryView::Saved(accepted_response())));
    }
}

/// Idempotency: a publish request that is repeated with the same user, key
/// and form gets the response of the first one, and the repetition writes
/// nothing, whatever the confirmed set and the fresh identifier are by then.
/// So one issue and one set of tasks exist for the key. The law leaves out a
/// first request that fails on a durable write: that one is rolled back as a
/// whole, and its repetition is a first request again.
pub proof fn lemma_publish_is_idempotent(
    s: StoreView,
    user: Option<UserId>,
    key: Seq<char>,
    form: NewsletterFormView,
    first_entries: Seq<SubscriberRowView>,
    first_issue_id: IssueId,
    second_entries: Seq<SubscriberRowView>,
    second_issue_id: IssueId,
)
    requires
        !(s.publish(user, key, form, first_entries, first_issue_id).1 matches OutcomeView::Rejected(
            PublishErrorView::UnexpectedError(_),
        )),
    ensures
        ({
            let (s1, first) = s.publish(user, key, form, first_entries, first_issue_id);
            let (s2, second) = s1.publish(user, key, form, second_entries, second_issue_id);
            &&& second.response() == first.response()
            &&& s2 == s1
            &&& first is Published ==> {
                &&& second is Replayed
                &&& !s.issues.contains_key(first_issue_id)
                &&& s2.issues == s.issues.insert(first_issue_id, issue_of(form))
                &&& s2.queue == s.queue + rows_for(first_issue_id, valid_recipients(first_entries))
            }
            &&& !(first is Published) ==> s2 == s
        }),
{
    lemma_publish_is_all_or_nothing(s, user, key, form, first_entries, first_issue_id);
    let (s1, first) = s.publish(user, key, form, first_entries, first_issue_id);
    lemma_publish_is_all_or_nothing(s1, user, key, form, second_entries, second_issue_id);
}

/// Two requests with one key never both create an issue. While the first is
/// under way its duplicate is told to wait and writes nothing; once the first
/// has committed, the duplicate gets the saved response, and a second commit
/// for the key fails and writes nothing. If the first is rolled back instead,
/// the state is as before it began.
pub proof fn lemma_concurrent_duplicates_publish_once(
    s: StoreView,
    user: UserId,
    key: Seq<char>,
    form: NewsletterFormView,
    entries: Seq<SubscriberRowView>,
    issue_id: IssueId,
    other_entries: Seq<SubscriberRowView>,
    other_issue_id: IssueId,
)
    requires
        s.begin_publish(Some(user), key, form).1 is Started,
    ensures
        ({
            let (s1, first) = s.begin_publish(Some(user), key, form);
            let (s2, duplicate) = s1.begin_publish(Some(user), key, form);
            let (s3, commit) = s2.commit_publish(user, key, form, entries, issue_id);
            let (s4, again) = s3.begin_publish(Some(user), key, form);
            let (s5, late) = s3.commit_publish(user, key, form, other_entries, other_issue_id);
            &&& duplicate is InFlight
            &&& s2 == s1
            &&& s1.abort_publish(user, key) == s
            &&& commit matches CommitView::Committed { response, skipped } ==> {
                &&& again == StartView::Replay(response)
                &&& s4 == s3
                &&& late is Failed
                &&& s5 == s3
                &&& s3.issues == s.issues.insert(issue_id, issue_of(form))
                &&& !s.issues.contains_key(issue_id)
            }
            &&& commit is Failed ==> s3 == s
        }),
{
    let k = (user, key);
    assert(s.ledger.insert(k, EntryView::Processing).remove(k) =~= s.ledger);
}

/// A saved response is permanent: whatever happens next, the ledger holds the
/// same response for the key.
pub proof fn lemma_saved_response_is_permanent(
    s: StoreView,
    event: Event,
    user: UserId,
    key: Seq<char>,
)
    requires
        s.ledger.contains_key((user, key)),
        s.ledger[(user, key)] is Saved,
    ensures
        s.step(event).ledger.contains_key((user, key)),
        s.step(event).ledger[(user, key)] == s.ledger[(user, key)],
{
}

/// An issue is immutable: whatever happens next, it exists and says the same.
pub proof fn lemma_issue_is_immutable(s: StoreView, event: Event, issue_id: IssueId)
    requires
        s.issues.contains_key(issue_id),
    ensures
        s.step(event).issues.contains_key(issue_id),
        s.step(event).issues[issue_id] == s.issues[issue_id],
{
}

/// Invalid entries never block a publish request: the response is the same
/// whatever the confirmed set holds; every valid entry gets its task; every
/// invalid entry is reported as skipped.
pub proof fn lemma_invalid_entries_are_skipped(
    s: StoreView,
    user: Option<UserId>,
    key: Seq<char>,
    form: NewsletterFormView,
    entries: Seq<SubscriberRowView>,
    other_entries: Seq<SubscriberRowView>,
    issue_id: IssueId,
)
    ensures
        ({
            let (next, outcome) = s.publish(user, key, form, entries, issue_id);
            let (other_next, other_outcome) = s.publish(user, key, form, other_entries, issue_id);
            &&& outcome.response() == other_outcome.response()
            &&& outcome matches OutcomeView::Published { response, skipped } ==> {
                &&& forall|i: int|
                    0 <= i < entries.len() && (#[trigger] entries[i]).raw_validity
                        ==> next.has_task(TaskView { issue_id, recipient: entries[i].email })
                &&& forall|i: int|
                    0 <= i < entries.len() && !(#[trigger] entries[i]).raw_validity
                        ==> skipped.contains(entries[i].email)
                &&& skipped.len() <= entries.len()
            }
        }),
{
    let (next, outcome) = s.publish(user, key, form, entries, issue_id);
    lemma_publish_is_all_or_nothing(s, user, key, form, entries, issue_id);
    lemma_publish_is_all_or_nothing(s, user, key, form, other_entries, issue_id);
    lemma_valid_recipients(entries);
    lemma_invalid_addresses(entries);
    if outcome is Published {
        let recipients = valid_recipients(entries);
        let fresh = rows_for(issue_id, recipients);
        assert forall|i: int|
            0 <= i < entries.len() && (#[trigger] entries[i]).raw_validity implies next.has_task(
            TaskView { issue_id, recipient: entries[i].email },
        ) by {
            assert(recipients.contains(entries[i].email));
            let j = choose|j: int| 0 <= j < recipients.len() && recipients[j] == entries[i].email;
            assert(next.queue[s.queue.len() + j] == fresh[j]);
        }
    }
}

/// Only the confirmed subscribers of the moment get a task: after a publish
/// request the tasks of the new issue are exactly one per valid recipient, so
/// an address outside the confirmed set has none.
pub proof fn lemma_tasks_are_for_confirmed_subscribers(
    s: StoreView,
    user: Option<UserId>,
    key: Seq<char>,
    form: NewsletterFormView,
    entries: Seq<SubscriberRowView>,
    issue_id: IssueId,
    recipient: Seq<char>,
)
    requires
        s.wf(),
        s.publish(user, key, form, entries, issue_id).1 is Published,
    ensures
        s.publish(user, key, form, entries, issue_id).0.has_task(TaskView { issue_id, recipient })
            <==> exists|i: int|
            0 <= i < entries.len() && (#[trigger] entries[i]).raw_validity && entries[i].email
                == recipient,
{
    let (next, outcome) = s.publish(user, key, form, entries, issue_id);
    lemma_publish_is_all_or_nothing(s, user, key, form, entries, issue_id);
    lemma_valid_recipients(entries);
    let recipients = valid_recipients(entries);
    let fresh = rows_for(issue_id, recipients);
    let task = TaskView { issue_id, recipient };
    if next.has_task(task) {
        let i = choose|i: int| 0 <= i < next.queue.len() && (#[trigger] next.queue[i]).task == task;
        if i < s.queue.len() {
            assert(next.queue[i] == s.queue[i]);
            assert(s.issues.contains_key(s.queue[i].task.issue_id));
        } else {
            assert(next.queue[i] == fresh[i - s.queue.len()]);
            assert(recipients[i - s.queue.len()] == recipient);
        }
    }
    if recipients.contains(recipient) {
        let j = choose|j: int| 0 <= j < recipients.len() && recipients[j] == recipient;
        assert(next.queue[s.queue.len() + j] == fresh[j]);
    }
}

/// A confirmed set of N valid subscribers with distinct addresses gets exactly
/// N tasks, one per subscriber and in their order.
pub proof fn lemma_one_task_per_confirmed_subscriber(
    s: StoreView,
    user: Option<UserId>,
    key: Seq<char>,
    form: NewsletterFormView,
    entries: Seq<SubscriberRowView>,
    issue_id: IssueId,
)
    requires
        s.publish(user, key, form, entries, issue_id).1 is Published,
        forall|i: int| 0 <= i < entries.len() ==> (#[trigger] entries[i]).raw_validity,
        forall|i: int, j: int|
            0 <= i < j < entries.len() ==> (#[trigger] entries[i]).email != (
            #[trigger] entries[j]).email,
    ensures
        ({
            let (next, outcome) = s.publish(user, key, form, entries, issue_id);
            &&& next.queue.len() == s.queue.len() + entries.len()
            &&& next.queue == s.queue + rows_for(
                issue_id,
                entries.map_values(|entry: SubscriberRowView| entry.email),
            )
            &&& outcome->Published_skipped.len() == 0
        }),
{
    lemma_publish_is_all_or_nothing(s, user, key, form, entries, issue_id);
    lemma_valid_recipients_of_a_clean_set(entries);
}

/// Once an issue exists, no task of it is ever added: a task that is not
/// pending stays out of the queue whatever happens next. So a subscriber who
/// confirms after the publish request gets nothing of that issue, and a task
/// that was retired never comes back.
pub proof fn lemma_no_task_is_added_to_an_issue(s: StoreView, event: Event, task: TaskView)
    requires
        s.wf(),
        s.issues.contains_key(task.issue_id),
        !s.has_task(task),
    ensures
        !s.step(event).has_task(task),
{
    let next = s.step(event);
    if next.has_task(task) {
        let i = choose|i: int| 0 <= i < next.queue.len() && (#[trigger] next.queue[i]).task == task;
        match event {
            Event::BeginPublish { user, key, form } => {
                assert(s.queue[i].task == task);
            },
            Event::CommitPublish { user, key, form, entries, issue_id } => {
                lemma_commit_adds_tasks_of_a_new_issue(s, user, key, form, entries, issue_id, i);
            },
            Event::AbortPublish { user, key } => {
                assert(s.queue[i].task == task);
            },
            Event::Publish { user, key, form, entries, issue_id } => {
                let (started, start) = s.begin_publish(user, key, form);
                if start is Started {
                    lemma_commit_adds_tasks_of_a_new_issue(
                        started,
                        user->0,
                        key,
                        form,
                        entries,
                        issue_id,
                        i,
                    );
                    assert(started.has_task(task));
                    let j = choose|j: int|
                        0 <= j < started.queue.len() && (#[trigger] started.queue[j]).task == task;
                    assert(s.queue[j].task == task);
                } else {
                    assert(s.queue[i].task == task);
                }
            },
            Event::ClaimTask => {
                assert(s.queue[i].task == task);
            },
            Event::SettleTask { task: settled, answer } => {
                match s.claimed_row(settled) {
                    Some(r) => lemma_settle_row_adds_no_task(s, r, answer, i),
                    None => {
                        assert(s.queue[i].task == task);
                    },
                }
            },
            Event::TryExecuteTask { answer } => {
                match s.oldest_unclaimed() {
                    Some(r) => lemma_settle_row_adds_no_task(s, r, answer, i),
                    None => {
                        assert(s.queue[i].task == task);
                    },
                }
            },
            Event::Recover => {
                assert(s.queue[i].task == task);
            },
        }
    }
}

proof fn lemma_commit_adds_tasks_of_a_new_issue(
    s: StoreView,
    user: UserId,
    key: Seq<char>,
    form: NewsletterFormView,
    entries: Seq<SubscriberRowView>,
    issue_id: IssueId,
    i: int,
)
    requires
        0 <= i < s.commit_publish(user, key, form, entries, issue_id).0.queue.len(),
    ensures
        ({
            let next = s.commit_publish(user, key, form, entries, issue_id).0;
            ||| s.has_task(next.queue[i].task)
            ||| !s.issues.contains_key(next.queue[i].task.issue_id)
        }),
{
    let next = s.commit_publish(user, key, form, entries, issue_id).0;
    if i < s.queue.len() {
        assert(next.queue[i] == s.queue[i]);
    } else if next.queue.len() > s.queue.len() {
        let fresh = rows_for(issue_id, valid_recipients(entries));
        assert(next.queue[i] == fresh[i - s.queue.len()]);
    }
}

proof fn lemma_settle_row_adds_no_task(s: StoreView, r: int, answer: SendOutcome, i: int)
    requires
        0 <= r < s.queue.len(),
        0 <= i < s.settle_row(r, answer).0.queue.len(),
    ensures
        s.has_task(s.settle_row(r, answer).0.queue[i].task),
{
    let next = s.settle_row(r, answer).0;
    match answer {
        SendOutcome::TransientFailure => {
            assert(s.queue[i].task == next.queue[i].task);
        },
        _ => {
            let i0 = if i < r { i } else { i + 1 };
            assert(next.queue[i] == s.queue[i0]);
        },
    }
}

proof fn lemma_least_unclaimed(queue: Seq<QueueRowView>, i: int)
    requires
        0 <= i < queue.len(),
        !queue[i].claimed,
    ensures
        exists|j: int| is_oldest_unclaimed(queue, j),
    decreases i,
{
    if forall|j: int| 0 <= j < i ==> (#[trigger] queue[j]).claimed {
        assert(is_oldest_unclaimed(queue, i));
    } else {
        let j = choose|j: int| 0 <= j < i && !(#[trigger] queue[j]).claimed;
        lemma_least_unclaimed(queue, j);
    }
}

/// The worker finds a task whenever one is free: it reports an empty queue
/// exactly if every pending task is claimed by another worker, and otherwise
/// takes the oldest of the unclaimed tasks.
pub proof fn lemma_oldest_unclaimed(s: StoreView)
    ensures
        s.oldest_unclaimed() is None <==> forall|i: int|
            0 <= i < s.queue.len() ==> (#[trigger] s.queue[i]).claimed,
        s.oldest_unclaimed() matches Some(i) ==> is_oldest_unclaimed(s.queue, i),
        forall|i: int| is_oldest_unclaimed(s.queue, i) ==> s.oldest_unclaimed() == Some(i),
{
    if !(forall|i: int| 0 <= i < s.queue.len() ==> (#[trigger] s.queue[i]).claimed) {
        let i = choose|i: int| 0 <= i < s.queue.len() && !(#[trigger] s.queue[i]).claimed;
        lemma_least_unclaimed(s.queue, i);
    }
    assert forall|i: int| is_oldest_unclaimed(s.queue, i) implies s.oldest_unclaimed() == Some(
        i,
    ) by {
        let j = choose|j: int| is_oldest_unclaimed(s.queue, j);
        if j < i {
            assert(s.queue[j].claimed);
        }
        if i < j {
            assert(s.queue[i].claimed);
        }
    }
}

proof fn lemma_remove_row(s: StoreView, r: int)
    requires
        s.wf(),
        0 <= r < s.queue.len(),
    ensures
        forall|task: TaskView|
            (StoreView { queue: s.queue.remove(r), ..s }).has_task(task) <==> s.has_task(task)
                && task != s.queue[r].task,
{
    let next = StoreView { queue: s.queue.remove(r), ..s };
    assert forall|task: TaskView|
        next.has_task(task) <==> s.has_task(task) && task != s.queue[r].task by {
        if next.has_task(task) {
            let a = choose|a: int|
                0 <= a < next.queue.len() && (#[trigger] next.queue[a]).task == task;
            let a0 = if a < r { a } else { a + 1 };
            assert(next.queue[a] == s.queue[a0]);
            assert(s.queue[a0].task != s.queue[r].task);
        }
        if s.has_task(task) && task != s.queue[r].task {
            let b = choose|b: int| 0 <= b < s.queue.len() && (#[trigger] s.queue[b]).task == task;
            let a = if b < r { b } else { b - 1 };
            assert(next.queue[a] == s.queue[b]);
        }
    }
}

proof fn lemma_release_row(s: StoreView, r: int)
    requires
        0 <= r < s.queue.len(),
    ensures
        forall|task: TaskView|
            s.settle_row(r, SendOutcome::TransientFailure).0.has_task(task) <==> s.has_task(task),
{
    let next = s.settle_row(r, SendOutcome::TransientFailure).0;
    assert forall|task: TaskView| next.has_task(task) <==> s.has_task(task) by {
        if next.has_task(task) {
            let a = choose|a: int|
                0 <= a < next.queue.len() && (#[trigger] next.queue[a]).task == task;
            assert(s.queue[a].task == task);
        }
        if s.has_task(task) {
            let b = choose|b: int| 0 <= b < s.queue.len() && (#[trigger] s.queue[b]).task == task;
            assert(next.queue[b].task == task);
        }
    }
}

/// A task leaves the queue only when it is settled as delivered or as
/// undeliverable for good: after any other event every pending task is still
/// pending. In particular a crash, a failed attempt and every publish request
/// keep all tasks.
pub proof fn lemma_tasks_leave_only_when_settled(s: StoreView, event: Event, task: TaskView)
    requires
        s.wf(),
        s.has_task(task),
        !s.step(event).has_task(task),
    ensures
        match event {
            Event::SettleTask { task: settled, answer } => settled == task && answer
                != SendOutcome::TransientFailure,
            Event::TryExecuteTask { answer } => {
                &&& answer != SendOutcome::TransientFailure
                &&& s.oldest_unclaimed() matches Some(i)
                &&& s.queue[i].task == task
            },
            _ => false,
        },
{
    let next = s.step(event);
    let b = choose|b: int| 0 <= b < s.queue.len() && (#[trigger] s.queue[b]).task == task;
    match event {
        Event::BeginPublish { user, key, form } => {
            assert(next.queue[b].task == task);
        },
        Event::CommitPublish { user, key, form, entries, issue_id } => {
            assert(next.queue[b] == s.queue[b]);
        },
        Event::AbortPublish { user, key } => {
            assert(next.queue[b].task == task);
        },
        Event::Publish { user, key, form, entries, issue_id } => {
            lemma_publish_is_all_or_nothing(s, user, key, form, entries, issue_id);
            assert(next.queue[b] == s.queue[b]);
        },
        Event::ClaimTask => {
            assert(next.queue[b].task == task);
        },
        Event::SettleTask { task: settled, answer } => {
            match s.claimed_row(settled) {
                Some(r) => {
                    lemma_remove_row(s, r);
                    lemma_release_row(s, r);
                },
                None => {},
            }
        },
        Event::TryExecuteTask { answer } => {
            match s.oldest_unclaimed() {
                Some(r) => {
                    lemma_remove_row(s, r);
                    lemma_release_row(s, r);
                },
                None => {},
            }
        },
        Event::Recover => {
            assert(next.queue[b].task == task);
        },
    }
}

/// Claiming and then settling is one iteration: `try_execute_task` is
/// `claim_task` followed by `settle_task` for the task claimed.
pub proof fn lemma_iteration_is_claim_then_settle(s: StoreView, answer: SendOutcome)
    requires
        s.wf(),
    ensures
        ({
            let (claimed, task) = s.claim_task();
            let (next, iteration) = s.try_execute_task(answer);
            match task {
                Some(task) => claimed.settle_task(task, answer) == (next, Some(iteration)),
                None => next == s && iteration == IterationView::EmptyQueue,
            }
        }),
{
    let (claimed, task) = s.claim_task();
    match s.oldest_unclaimed() {
        Some(i) => {
            let task = s.queue[i].task;
            assert(is_claimed_row(claimed.queue, task, i));
            let j = choose|j: int| is_claimed_row(claimed.queue, task, j);
            if j != i {
                assert(claimed.queue[j] == s.queue[j]);
                if i < j {
                    assert(s.queue[i].task != s.queue[j].task);
                } else {
                    assert(s.queue[j].task != s.queue[i].task);
                }
            }
            assert(claimed.queue.remove(i) =~= s.queue.remove(i));
            assert(claimed.queue.update(i, QueueRowView { task, claimed: false })
                =~= s.queue.update(i, QueueRowView { task, claimed: false }));
        },
        None => {},
    }
}

/// No duplicate delivery: in any run of the worker, whatever the transport
/// answers and however often an attempt has to be repeated, no task is
/// delivered twice. A task that was delivered or skipped is gone from the
/// queue, every other task is still pending, and the run changes neither the
/// issues nor the ledger.
pub proof fn lemma_worker_never_delivers_twice(s: StoreView, answers: Seq<SendOutcome>)
    requires
        s.wf(),
    ensures
        ({
            let run = s.run_worker(answers);
            &&& run.store.wf()
            &&& run.store.issues == s.issues
            &&& run.store.ledger == s.ledger
            &&& run.delivered.no_duplicates()
            &&& run.skipped.no_duplicates()
            &&& forall|task: TaskView| #[trigger]
                run.delivered.contains(task) ==> s.has_task(task) && !run.store.has_task(task)
                    && !run.skipped.contains(task)
            &&& forall|task: TaskView| #[trigger]
                run.skipped.contains(task) ==> s.has_task(task) && !run.store.has_task(task)
            &&& forall|task: TaskView| #[trigger]
                s.has_task(task) <==> run.store.has_task(task) || run.delivered.contains(task)
                    || run.skipped.contains(task)
            &&& run.delivered.len() + run.skipped.len() + run.store.queue.len() == s.queue.len()
        }),
    decreases answers.len(),
{
    if answers.len() > 0 {
        let front = answers.drop_last();
        let answer = answers.last();
        lemma_worker_never_delivers_twice(s, front);
        let before = s.run_worker(front);
        let run = s.run_worker(answers);
        lemma_step_preserves_wf(before.store, Event::TryExecuteTask { answer });
        match before.store.oldest_unclaimed() {
            None => {
                assert(run == before);
            },
            Some(r) => {
                let task = before.store.queue[r].task;
                assert(before.store.has_task(task));
                lemma_remove_row(before.store, r);
                lemma_release_row(before.store, r);
                match answer {
                    SendOutcome::TransientFailure => {
                        assert(run.delivered == before.delivered);
                        assert(run.skipped == before.skipped);
                    },
                    SendOutcome::Delivered => {
                        assert(run.delivered == before.delivered.push(task));
                        assert(run.skipped == before.skipped);
                        assert(!before.delivered.contains(task));
                        assert forall|t: TaskView| #[trigger]
                            run.delivered.contains(t) <==> before.delivered.contains(t) || t
                                == task by {
                            lemma_push_contains(before.delivered, task, t);
                        }
                        lemma_push_no_duplicates(before.delivered, task);
                    },
                    SendOutcome::InvalidRecipient => {
                        assert(run.skipped == before.skipped.push(task));
                        assert(run.delivered == before.delivered);
                        assert(!before.skipped.contains(task));
                        assert forall|t: TaskView| #[trigger]
                            run.skipped.contains(t) <==> before.skipped.contains(t) || t
                                == task by {
                            lemma_push_contains(before.skipped, task, t);
                        }
                        lemma_push_no_duplicates(before.skipped, task);
                    },
                }
            },
        }
    }
}

proof fn lemma_push_contains(tasks: Seq<TaskView>, task: TaskView, other: TaskView)
    ensures
        tasks.push(task).contains(other) <==> tasks.contains(other) || other == task,
{
    let pushed = tasks.push(task);
    if pushed.contains(other) {
        let i = choose|i: int| 0 <= i < pushed.len() && pushed[i] == other;
        if i < tasks.len() {
            assert(tasks[i] == other);
        }
    }
    if tasks.contains(other) {
        let i = choose|i: int| 0 <= i < tasks.len() && tasks[i] == other;
        assert(pushed[i] == other);
    }
    if other == task {
        assert(pushed[tasks.len() as int] == other);
    }
}

proof fn lemma_push_no_duplicates(tasks: Seq<TaskView>, task: TaskView)
    requires
        tasks.no_duplicates(),
        !tasks.contains(task),
    ensures
        tasks.push(task).no_duplicates(),
{
    let pushed = tasks.push(task);
    assert forall|i: int, j: int|
        0 <= i < pushed.len() && 0 <= j < pushed.len() && i != j implies pushed[i]
        != pushed[j] by {
        if i < tasks.len() && j < tasks.len() {
        } else if i < tasks.len() {
            assert(tasks[i] == pushed[i]);
        } else if j < tasks.len() {
            assert(tasks[j] == pushed[j]);
        }
    }
}

/// The number of answers that report a delivery.
pub open spec fn deliveries(answers: Seq<SendOutcome>) -> nat
    decreases answers.len(),
{
    if answers.len() == 0 {
        0
    } else if answers.last() == SendOutcome::Delivered {
        deliveries(answers.drop_last()) + 1
    } else {
        deliveries(answers.drop_last())
    }
}

/// At-least-once delivery, oldest first: a single worker whose transport only
/// ever fails transiently delivers the pending tasks in the order of the
/// queue, one per successful answer, and repeats a failed attempt until it
/// succeeds. Once the transport has answered with as many deliveries as there
/// were tasks, the queue is empty and every task was delivered exactly once.
pub proof fn lemma_worker_drains_the_queue(s: StoreView, answers: Seq<SendOutcome>)
    requires
        s.wf(),
        forall|i: int| 0 <= i < s.queue.len() ==> !(#[trigger] s.queue[i]).claimed,
        forall|k: int| 0 <= k < answers.len() ==> answers[k] != SendOutcome::InvalidRecipient,
    ensures
        ({
            let run = s.run_worker(answers);
            let done = if deliveries(answers) <= s.queue.len() {
                deliveries(answers) as int
            } else {
                s.queue.len() as int
            };
            &&& run.delivered == tasks_of(s.queue).take(done)
            &&& run.skipped.len() == 0
            &&& run.store.queue == s.queue.skip(done)
            &&& deliveries(answers) >= s.queue.len() ==> run.store.queue.len() == 0
                && run.delivered == tasks_of(s.queue)
        }),
    decreases answers.len(),
{
    let run = s.run_worker(answers);
    if answers.len() == 0 {
        assert(run.delivered =~= tasks_of(s.queue).take(0));
        assert(run.store.queue =~= s.queue.skip(0));
        if s.queue.len() == 0 {
            assert(run.delivered =~= tasks_of(s.queue));
        }
    } else {
        let front = answers.drop_last();
        let answer = answers.last();
        assert forall|k: int| 0 <= k < front.len() implies front[k]
            != SendOutcome::InvalidRecipient by {
            assert(front[k] == answers[k]);
        }
        lemma_worker_drains_the_queue(s, front);
        let before = s.run_worker(front);
        let done = if deliveries(front) <= s.queue.len() {
            deliveries(front) as int
        } else {
            s.queue.len() as int
        };
        assert(answer == answers[answers.len() - 1]);
        lemma_oldest_unclaimed(before.store);
        if before.store.queue.len() > 0 {
            assert(before.store.queue[0] == s.queue[done]);
            assert(is_oldest_unclaimed(before.store.queue, 0));
            assert(before.store.oldest_unclaimed() == Some(0int));
            match answer {
                SendOutcome::Delivered => {
                    assert(run.store.queue =~= s.queue.skip(done + 1));
                    assert(run.delivered =~= tasks_of(s.queue).take(done + 1));
                },
                _ => {
                    assert(run.store.queue =~= s.queue.skip(done));
                },
            }
        } else {
            assert(before.store.oldest_unclaimed() is None);
            assert(run == before);
        }
        if deliveries(answers) >= s.queue.len() {
            assert(run.delivered =~= tasks_of(s.queue));
        }
    }
}

/// Row-level mutual exclusion: a task that one worker holds is handed to no
/// other. What `claim_task` returns was free before and is held afterwards,
/// so two claims in a row never return the same task.
pub proof fn lemma_claims_are_exclusive(s: StoreView)
    requires
        s.wf(),
    ensures
        ({
            let (s1, first) = s.claim_task();
            let (s2, second) = s1.claim_task();
            &&& first matches Some(task) ==> {
                &&& exists|i: int|
                    0 <= i < s.queue.len() && s.queue[i] == (QueueRowView { task, claimed: false })
                        && #[trigger] s1.queue[i] == (QueueRowView { task, claimed: true })
                &&& second != Some(task)
            }
            &&& forall|i: int|
                0 <= i < s.queue.len() && (#[trigger] s.queue[i]).claimed ==> first != Some(
                    s.queue[i].task,
                )
        }),
{
    let (s1, first) = s.claim_task();
    let (s2, second) = s1.claim_task();
    match s.oldest_unclaimed() {
        Some(i) => {
            let task = s.queue[i].task;
            assert(s1.queue[i] == (QueueRowView { task, claimed: true }));
            match s1.oldest_unclaimed() {
                Some(j) => {
                    assert(s1.queue[j] == s.queue[j]);
                    if i < j {
                        assert(s.queue[i].task != s.queue[j].task);
                    } else {
                        assert(s.queue[j].task != s.queue[i].task);
                    }
                },
                None => {},
            }
            assert forall|k: int|
                0 <= k < s.queue.len() && (#[trigger] s.queue[k]).claimed implies first != Some(
                s.queue[k].task,
            ) by {
                if k < i {
                    assert(s.queue[k].task != s.queue[i].task);
                }
                if i < k {
                    assert(s.queue[i].task != s.queue[k].task);
                }
            }
        },
        None => {},
    }
}

/// Delivery never touches the ledger or the issues: whatever the transport
/// answers, the saved responses and the marks are as they were.
pub proof fn lemma_delivery_leaves_the_ledger_alone(s: StoreView, event: Event)
    requires
        event is ClaimTask || event is SettleTask || event is TryExecuteTask,
    ensures
        s.step(event).ledger == s.ledger,
        s.step(event).issues == s.issues,
{
}

/// A restart keeps what was committed: the same issues, the same pending
/// tasks in the same order and the same saved responses. What was under way
/// is gone: no key is marked and no task is claimed.
pub proof fn lemma_restart_keeps_what_was_committed(s: StoreView)
    requires
        s.wf(),
    ensures
        s.recover().wf(),
        s.recover().issues == s.issues,
        tasks_of(s.recover().queue) == tasks_of(s.queue),
        forall|i: int|
            0 <= i < s.recover().queue.len() ==> !(#[trigger] s.recover().queue[i]).claimed,
        forall|k: (UserId, Seq<char>)|
            s.ledger.contains_key(k) && s.ledger[k] is Saved ==> {
                &&& #[trigger] s.recover().ledger.contains_key(k)
                &&& s.recover().ledger[k] == s.ledger[k]
            },
        forall|k: (UserId, Seq<char>)| #[trigger]
            s.recover().ledger.contains_key(k) ==> s.recover().ledger[k] is Saved,
        s.recover().recover() == s.recover(),
{
    assert(tasks_of(s.recover().queue) =~= tasks_of(s.queue));
    assert(s.recover().recover().queue =~= s.recover().queue);
    assert(s.recover().recover().ledger =~= s.recover().ledger);
}

} // verus!
