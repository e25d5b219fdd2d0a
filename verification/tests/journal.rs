use newsletter::{
    Command, DeliveryTask, IssueId, Iteration, LedgerEntry, NewsletterFormData, PublishOutcome,
    Reply, SendOutcome, Store, SubscriberRow, UserId,
};

fn publish(key: &str, issue: u128, emails: &[&str]) -> Command {
    Command::Publish {
        user_id: Some(UserId(7)),
        idempotency_key: key.to_string(),
        form: NewsletterFormData {
            newsletter_title: "Newsletter title".to_string(),
            newsletter_html: "<p> Newsletter body as HTML </p>".to_string(),
            newsletter_plain_text: "Newsletter body as plain text".to_string(),
        },
        rows: emails
            .iter()
            .map(|email| SubscriberRow { email: email.to_string(), raw_validity: true })
            .collect(),
        issue_id: IssueId(issue),
    }
}

fn settle(issue: u128, recipient: &str, answer: SendOutcome) -> Command {
    Command::SettleTask {
        task: DeliveryTask { issue_id: IssueId(issue), recipient: recipient.to_string() },
        answer,
    }
}

#[test]
fn a_command_replies_what_its_operation_returns() {
    let mut store = Store::new();
    match store.apply(&publish("K1", 1, &["a@example.com", "b@example.com"])) {
        Reply::Published(PublishOutcome::Published(receipt)) => {
            assert_eq!(receipt.response.status_code, 303);
            assert!(receipt.skipped.is_empty());
        }
        other => panic!("unexpected reply {:?}", other),
    }
    let delivery = match store.apply(&Command::ClaimTask) {
        Reply::Claimed(Some(delivery)) => delivery,
        other => panic!("unexpected reply {:?}", other),
    };
    assert_eq!(delivery.task.recipient, "a@example.com");
    assert_eq!(
        store.apply(&settle(1, "a@example.com", SendOutcome::Delivered)),
        Reply::Settled(Some(Iteration::Delivered(delivery.task)))
    );
    assert_eq!(
        store.apply(&settle(1, "b@example.com", SendOutcome::Delivered)),
        Reply::Settled(None)
    );
    assert_eq!(store.apply(&Command::Recover), Reply::Recovered);
    assert_eq!(store.pending_count(), 1);
}

#[test]
fn a_replay_rebuilds_the_store() {
    let commands = vec![
        publish("K1", 1, &["a@example.com", "b@example.com"]),
        Command::ClaimTask,
        settle(1, "a@example.com", SendOutcome::Delivered),
        Command::ClaimTask,
        settle(1, "b@example.com", SendOutcome::TransientFailure),
        publish("K1", 2, &["late@example.com"]),
        publish("K2", 3, &["c@example.com"]),
        Command::ClaimTask,
    ];
    let mut live = Store::new();
    for command in &commands {
        live.apply(command);
    }
    let rebuilt = Store::replay(&commands);
    assert_eq!(rebuilt.pending_tasks(), live.pending_tasks());
    assert_eq!(rebuilt.issue_count(), 2);
    assert_eq!(rebuilt.issue(IssueId(1)), live.issue(IssueId(1)));
    assert_eq!(rebuilt.issue(IssueId(3)), live.issue(IssueId(3)));
    assert!(rebuilt.issue(IssueId(2)).is_none());
    assert_eq!(rebuilt.ledger_entry(UserId(7), "K1"), live.ledger_entry(UserId(7), "K1"));
    assert!(matches!(rebuilt.ledger_entry(UserId(7), "K2"), Some(LedgerEntry::Saved(_))));
    let recipients: Vec<String> =
        rebuilt.pending_tasks().into_iter().map(|task| task.recipient).collect();
    assert_eq!(recipients, vec!["b@example.com".to_string(), "c@example.com".to_string()]);
}

#[test]
fn a_restart_after_a_replay_frees_the_claims_and_loses_no_task() {
    // The process dies while a worker holds the only task.
    let commands =
        vec![publish("K1", 1, &["a@example.com"]), Command::ClaimTask];
    let mut store = Store::replay(&commands);
    assert_eq!(store.apply(&Command::ClaimTask), Reply::Claimed(None));
    store.apply(&Command::Recover);
    match store.apply(&Command::ClaimTask) {
        Reply::Claimed(Some(delivery)) => assert_eq!(delivery.task.recipient, "a@example.com"),
        other => panic!("unexpected reply {:?}", other),
    }
    // The repeated request of the admin still gets the saved response.
    match store.apply(&publish("K1", 9, &["a@example.com"])) {
        Reply::Published(PublishOutcome::Replayed(response)) => {
            assert_eq!(response.status_code, 303)
        }
        other => panic!("unexpected reply {:?}", other),
    }
}

#[test]
fn a_replay_of_nothing_is_an_empty_store() {
    let store = Store::replay(&vec![]);
    assert_eq!(store.pending_count(), 0);
    assert_eq!(store.issue_count(), 0);
}
