//! The operations as values, so that they can be written down before they are
//! carried out and carried out again after a restart.
//!
//! Every operation on a [`Store`] is a function of the state and of its
//! arguments alone. A caller that writes each [`Command`] to durable storage
//! before it applies it can therefore rebuild the state from what it wrote.

use crate::domain::newsletter_form::NewsletterFormData;
use crate::domain::subscriber::{get_confirmed_subscribers, rows_view, SubscriberRow};
use crate::ids::{IssueId, UserId};
use crate::issue::{DeliveryTask, SendOutcome};
use crate::laws::lemma_step_preserves_wf;
use crate::model::{Event, StoreView};
use crate::store::{Delivery, Iteration, PublishOutcome, Store};
use vstd::prelude::*;

verus! {

/// An operation that changes the store, with its arguments.
#[derive(Debug, PartialEq, Eq)]
pub enum Command {
    /// A whole publish request, with the confirmed subscribers as they were
    /// read and the identifier drawn for the issue.
    Publish {
        user_id: Option<UserId>,
        idempotency_key: String,
        form: NewsletterFormData,
        rows: Vec<SubscriberRow>,
        issue_id: IssueId,
    },
    /// A worker claims the oldest free task.
    ClaimTask,
    /// A worker settles its claim with what the transport answered.
    SettleTask { task: DeliveryTask, answer: SendOutcome },
    /// The process has started again.
    Recover,
}

impl View for Command {
    type V = Event;

    open spec fn view(&self) -> Event {
        match self {
            Command::Publish { user_id, idempotency_key, form, rows, issue_id } => Event::Publish {
                user: *user_id,
                key: idempotency_key@,
                form: form@,
                entries: rows_view(rows@),
                issue_id: *issue_id,
            },
            Command::ClaimTask => Event::ClaimTask,
            Command::SettleTask { task, answer } => Event::SettleTask {
                task: task@,
                answer: *answer,
            },
            Command::Recover => Event::Recover,
        }
    }
}

/// What a command told its caller.
#[derive(Debug, PartialEq, Eq)]
pub enum Reply {
    Published(PublishOutcome),
    Claimed(Option<Delivery>),
    Settled(Option<Iteration>),
    Recovered,
}

/// The events that a sequence of commands stands for.
pub open spec fn events_of(commands: Seq<Command>) -> Seq<Event> {
    commands.map_values(|command: Command| command@)
}

/// The state after the events, begun with nothing.
pub open spec fn state_after(events: Seq<Event>) -> StoreView
    decreases events.len(),
{
    if events.len() == 0 {
        StoreView::empty()
    } else {
        state_after(events.drop_last()).step(events.last())
    }
}

/// Whatever the events are, the state after them keeps the invariant.
pub proof fn lemma_state_after_is_wf(events: Seq<Event>)
    ensures
        state_after(events).wf(),
    decreases events.len(),
{
    if events.len() > 0 {
        lemma_state_after_is_wf(events.drop_last());
        lemma_step_preserves_wf(state_after(events.drop_last()), events.last());
    }
}

impl Store {
    /// Carries out a command: the state moves as the command's event says,
    /// and the reply is what the operation itself returns.
    pub fn apply(&mut self, command: &Command) -> (reply: Reply)
        requires
            old(self).wf(),
        ensures
            final(self).wf(),
            final(self)@ == old(self)@.step(command@),
            match command {
                Command::Publish { user_id, idempotency_key, form, rows, issue_id } => {
                    &&& reply matches Reply::Published(outcome)
                    &&& outcome@ == old(self)@.publish(
                        *user_id,
                        idempotency_key@,
                        form@,
                        rows_view(rows@),
                        *issue_id,
                    ).1
                },
                Command::ClaimTask => reply matches Reply::Claimed(claimed) && match claimed {
                    Some(delivery) => old(self)@.claim_task().1 == Some(delivery.task@)
                        && delivery.content() == old(self)@.issues[delivery.task.issue_id],
                    None => old(self)@.claim_task().1 is None,
                },
                Command::SettleTask { task, answer } => reply matches Reply::Settled(settled)
                    && match settled {
                    Some(iteration) => old(self)@.settle_task(task@, *answer).1 == Some(
                        iteration@,
                    ),
                    None => old(self)@.settle_task(task@, *answer).1 is None,
                },
                Command::Recover => reply is Recovered,
            },
    {
        match command {
            Command::Publish { user_id, idempotency_key, form, rows, issue_id } => {
                let entries = get_confirmed_subscribers(rows);
                Reply::Published(
                    self.publish(*user_id, idempotency_key.as_str(), form, &entries, *issue_id),
                )
            },
            Command::ClaimTask => Reply::Claimed(self.claim_task()),
            Command::SettleTask { task, answer } => Reply::Settled(self.settle_task(task, *answer)),
            Command::Recover => {
                self.recover();
                Reply::Recovered
            },
        }
    }

    /// Rebuilds a store from the commands that were carried out on it, in
    /// their order.
    pub fn replay(commands: &Vec<Command>) -> (store: Store)
        ensures
            store.wf(),
            store@ == state_after(events_of(commands@)),
    {
        let mut store = Store::new();
        let ghost all = events_of(commands@);
        let mut i: usize = 0;
        assert(all.take(0) =~= Seq::empty());
        while i < commands.len()
            invariant
                i <= commands@.len(),
                all == events_of(commands@),
                store.wf(),
                store@ == state_after(all.take(i as int)),
            decreases commands.len() - i,
        {
            proof {
                assert(all.take(i + 1).drop_last() =~= all.take(i as int));
                assert(all.take(i + 1).last() == commands@[i as int]@);
            }
            store.apply(&commands[i]);
            i += 1;
        }
        assert(all.take(i as int) =~= all);
        store
    }
}

} // verus!
