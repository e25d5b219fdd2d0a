use newsletter::issue::IssueTable;
use newsletter::{
    ExecutionOutcome, HttpResponseSnapshot, IdempotencyLedger, IssueId, LedgerEntry,
    NewsletterIssue, UserId,
};

fn issue(id: u128, title: &str) -> NewsletterIssue {
    NewsletterIssue {
        id: IssueId(id),
        title: title.to_string(),
        html_body: format!("<p>{}</p>", title),
        text_body: title.to_string(),
    }
}

#[test]
fn the_ledger_marks_a_key_once() {
    let mut ledger = IdempotencyLedger::new();
    assert_eq!(ledger.lookup(UserId(1), "k"), None);
    assert_eq!(ledger.try_processing(UserId(1), "k"), None);
    assert_eq!(ledger.try_processing(UserId(1), "k"), Some(LedgerEntry::Processing));
    assert_eq!(ledger.lookup(UserId(1), "k"), Some(LedgerEntry::Processing));
    // Another user or another key is another row.
    assert_eq!(ledger.try_processing(UserId(2), "k"), None);
    assert_eq!(ledger.try_processing(UserId(1), "k2"), None);
}

#[test]
fn a_saved_response_is_never_overwritten() {
    let mut ledger = IdempotencyLedger::new();
    // Nothing to save where the key is not marked.
    assert!(!ledger.save_response(UserId(1), "k", HttpResponseSnapshot::new(303)));
    assert_eq!(ledger.lookup(UserId(1), "k"), None);

    ledger.try_processing(UserId(1), "k");
    assert!(ledger.save_response(UserId(1), "k", HttpResponseSnapshot::new(303)));
    let saved = Some(LedgerEntry::Saved(HttpResponseSnapshot::new(303)));
    assert_eq!(ledger.lookup(UserId(1), "k"), saved);

    assert!(!ledger.save_response(UserId(1), "k", HttpResponseSnapshot::new(500)));
    assert!(!ledger.release(UserId(1), "k"));
    assert_eq!(ledger.try_processing(UserId(1), "k"), saved);
    ledger.release_all();
    assert_eq!(ledger.lookup(UserId(1), "k"), saved);
}

#[test]
fn a_released_mark_frees_the_key() {
    let mut ledger = IdempotencyLedger::new();
    assert!(!ledger.release(UserId(1), "k"));
    ledger.try_processing(UserId(1), "k");
    ledger.try_processing(UserId(1), "other");
    assert!(ledger.release(UserId(1), "k"));
    assert_eq!(ledger.lookup(UserId(1), "k"), None);
    assert_eq!(ledger.lookup(UserId(1), "other"), Some(LedgerEntry::Processing));
    assert_eq!(ledger.try_processing(UserId(1), "k"), None);
}

#[test]
fn release_all_withdraws_every_mark() {
    let mut ledger = IdempotencyLedger::new();
    ledger.try_processing(UserId(1), "a");
    ledger.try_processing(UserId(1), "b");
    ledger.save_response(UserId(1), "b", HttpResponseSnapshot::new(303));
    ledger.try_processing(UserId(1), "c");
    ledger.try_processing(UserId(2), "a");
    ledger.release_all();
    assert_eq!(ledger.lookup(UserId(1), "a"), None);
    assert_eq!(ledger.lookup(UserId(1), "c"), None);
    assert_eq!(ledger.lookup(UserId(2), "a"), None);
    assert_eq!(
        ledger.lookup(UserId(1), "b"),
        Some(LedgerEntry::Saved(HttpResponseSnapshot::new(303)))
    );
}

#[test]
fn the_issue_table_holds_an_identifier_once() {
    let mut table = IssueTable::new();
    assert_eq!(table.len(), 0);
    assert!(table.get(IssueId(1)).is_none());
    assert!(table.insert(issue(1, "first")));
    assert!(table.insert(issue(2, "second")));
    assert!(!table.insert(issue(1, "again")));
    assert_eq!(table.len(), 2);
    assert_eq!(table.get(IssueId(1)), Some(&issue(1, "first")));
    assert_eq!(table.get(IssueId(2)), Some(&issue(2, "second")));
    assert!(table.get(IssueId(3)).is_none());
}

#[test]
fn only_an_empty_queue_calls_for_a_pause() {
    assert!(ExecutionOutcome::EmptyQueue.calls_for_pause());
    assert!(!ExecutionOutcome::TaskCompleted.calls_for_pause());
    assert!(!ExecutionOutcome::TaskFailedTransiently.calls_for_pause());
}
