use newsletter::{
    check_request, get_confirmed_subscribers, plan_deliveries, publish_newsletter, send_outcome,
    ConfirmedSubscriber, DataIntegrityError, DeliveryTask, ExecutionOutcome, FlashLevel,
    FlashNotice, HttpResponseSnapshot, IssueId, Iteration, LedgerEntry, NewsletterFormData,
    PublishError, PublishOutcome, PublishStart, SendOutcome, Store, SubscriberRow, UserId,
};

fn form() -> NewsletterFormData {
    NewsletterFormData {
        newsletter_title: "Newsletter title".to_string(),
        newsletter_html: "<p> Newsletter body as HTML </p>".to_string(),
        newsletter_plain_text: "Newsletter body as plain text".to_string(),
    }
}

fn user() -> Option<UserId> {
    Some(UserId(7))
}

fn confirmed(email: &str) -> SubscriberRow {
    SubscriberRow { email: email.to_string(), raw_validity: true }
}

fn invalid(email: &str) -> SubscriberRow {
    SubscriberRow { email: email.to_string(), raw_validity: false }
}

fn task(issue: u128, recipient: &str) -> DeliveryTask {
    DeliveryTask { issue_id: IssueId(issue), recipient: recipient.to_string() }
}

fn accepted() -> HttpResponseSnapshot {
    newsletter::see_other("/admin/newsletters")
}

fn sent() -> FlashNotice {
    FlashNotice { level: FlashLevel::Info, content: "Newsletter sent".to_string() }
}

#[test]
fn newsletters_are_not_delivered_to_unconfirmed_subscribers() {
    // An unconfirmed subscriber is not in the confirmed set.
    let mut store = Store::new();
    let outcome = publish_newsletter(&mut store, user(), "key-1", &form(), &vec![]);
    assert_eq!(outcome.response(), Some(accepted()));
    assert!(outcome.notices().contains(&sent()));
    assert_eq!(store.pending_count(), 0);
    assert_eq!(store.try_execute_task(SendOutcome::Delivered), Iteration::EmptyQueue);
}

#[test]
fn newsletters_are_delivered_to_confirmed_subscribers() {
    let mut store = Store::new();
    let rows = vec![confirmed("ursula@example.com")];
    let outcome = publish_newsletter(&mut store, user(), "key-1", &form(), &rows);
    assert_eq!(outcome.response(), Some(accepted()));
    assert!(outcome.notices().contains(&sent()));
    assert_eq!(store.pending_count(), 1);

    let delivery = store.claim_task().unwrap();
    assert_eq!(delivery.task.recipient, "ursula@example.com");
    assert_eq!(delivery.title, "Newsletter title");
    assert_eq!(delivery.html_body, "<p> Newsletter body as HTML </p>");
    assert_eq!(delivery.text_body, "Newsletter body as plain text");
    let settled = store.settle_task(&delivery.task, SendOutcome::Delivered).unwrap();
    assert_eq!(settled.outcome(), ExecutionOutcome::TaskCompleted);
    assert_eq!(store.pending_count(), 0);
}

#[test]
fn newsletters_returns_400_for_invalid_data() {
    let missing_title = NewsletterFormData { newsletter_title: String::new(), ..form() };
    let missing_html = NewsletterFormData { newsletter_html: String::new(), ..form() };
    let missing_text = NewsletterFormData { newsletter_plain_text: String::new(), ..form() };
    let test_cases = vec![
        (missing_title, "key-1", "missing title"),
        (missing_html, "key-1", "missing html"),
        (missing_text, "key-1", "missing plain text"),
        (form(), "", "missing idempotency key"),
    ];
    for (invalid_form, key, error_message) in test_cases {
        let mut store = Store::new();
        let rows = vec![confirmed("ursula@example.com")];
        let outcome = publish_newsletter(&mut store, user(), key, &invalid_form, &rows);
        assert_eq!(
            400,
            outcome.response().unwrap().status_code,
            "The API did not fail with 400 Bad Request when the payload was {}.",
            error_message
        );
        assert!(matches!(outcome, PublishOutcome::Rejected(PublishError::ValidationError(_))));
        assert_eq!(store.issue_count(), 0);
        assert_eq!(store.pending_count(), 0);
        assert_eq!(store.ledger_entry(UserId(7), key), None);
    }
}

#[test]
fn unauthenticated_requests_are_rejected_with_401() {
    let mut store = Store::new();
    let rows = vec![confirmed("ursula@example.com")];
    let outcome = publish_newsletter(&mut store, None, "key-1", &form(), &rows);
    assert_eq!(
        outcome,
        PublishOutcome::Rejected(PublishError::AuthError(
            "The request carries no authenticated user.".to_string()
        ))
    );
    assert_eq!(outcome.response(), Some(HttpResponseSnapshot::new(401)));
    assert!(outcome.notices().is_empty());
    assert_eq!(store.issue_count(), 0);
    assert_eq!(store.pending_count(), 0);
}

#[test]
fn a_missing_user_is_reported_before_an_empty_field() {
    let empty = NewsletterFormData {
        newsletter_title: String::new(),
        newsletter_html: String::new(),
        newsletter_plain_text: String::new(),
    };
    assert!(matches!(check_request(None, "", &empty), Err(PublishError::AuthError(_))));
    assert_eq!(
        check_request(user(), "", &empty),
        Err(PublishError::ValidationError("The newsletter's title is empty.".to_string()))
    );
    let no_html = NewsletterFormData { newsletter_html: String::new(), ..form() };
    assert_eq!(
        check_request(user(), "", &no_html),
        Err(PublishError::ValidationError("The newsletter's HTML body is empty.".to_string()))
    );
    let no_text = NewsletterFormData { newsletter_plain_text: String::new(), ..form() };
    assert_eq!(
        check_request(user(), "k", &no_text),
        Err(PublishError::ValidationError(
            "The newsletter's plain text body is empty.".to_string()
        ))
    );
    assert_eq!(
        check_request(user(), "", &form()),
        Err(PublishError::ValidationError("The idempotency key is empty.".to_string()))
    );
    assert_eq!(check_request(user(), "k", &form()), Ok(UserId(7)));
}

#[test]
fn newsletter_creation_is_idempotent() {
    let mut store = Store::new();
    let rows = vec![confirmed("ursula@example.com")];

    let first = publish_newsletter(&mut store, user(), "key-1", &form(), &rows);
    assert_eq!(first.response(), Some(accepted()));
    assert!(first.notices().contains(&sent()));
    assert!(matches!(first, PublishOutcome::Published(_)));

    let second = publish_newsletter(&mut store, user(), "key-1", &form(), &rows);
    assert_eq!(second.response(), Some(accepted()));
    assert!(second.notices().contains(&sent()));
    assert_eq!(second, PublishOutcome::Replayed(accepted()));

    // One issue, one task: the newsletter goes out once.
    assert_eq!(store.issue_count(), 1);
    assert_eq!(store.pending_count(), 1);
    assert!(matches!(store.try_execute_task(SendOutcome::Delivered), Iteration::Delivered(_)));
    assert_eq!(store.try_execute_task(SendOutcome::Delivered), Iteration::EmptyQueue);
}

#[test]
fn concurrent_form_subission_is_handled_gracefully() {
    let mut store = Store::new();
    let entries = get_confirmed_subscribers(&vec![confirmed("ursula@example.com")]);

    // Both requests arrive before either has finished.
    assert_eq!(store.begin_publish(user(), "key-1", &form()), PublishStart::Started);
    assert_eq!(store.begin_publish(user(), "key-1", &form()), PublishStart::InFlight);
    assert_eq!(store.ledger_entry(UserId(7), "key-1"), Some(LedgerEntry::Processing));
    assert_eq!(store.issue_count(), 0);

    // The first commits; the second looks again and gets the same response.
    let receipt = store.commit_publish(UserId(7), "key-1", &form(), &entries, IssueId(1)).unwrap();
    let response1 = receipt.response;
    let response2 = match store.begin_publish(user(), "key-1", &form()) {
        PublishStart::Replay(response) => response,
        other => panic!("expected the saved response, got {:?}", other),
    };
    assert_eq!(response1.status_code, response2.status_code);
    assert_eq!(response1.body, response2.body);
    assert_eq!(response1, response2);

    // A second commit for the key writes nothing: the newsletter goes out once.
    let late = store.commit_publish(UserId(7), "key-1", &form(), &entries, IssueId(2));
    assert_eq!(
        late,
        Err(PublishError::UnexpectedError(
            "No publish request is under way for this idempotency key.".to_string()
        ))
    );
    assert_eq!(store.issue_count(), 1);
    assert_eq!(store.pending_tasks(), vec![task(1, "ursula@example.com")]);
}

#[test]
fn transient_errors_do_not_cause_duplicate_deliveries_on_retries() {
    let mut store = Store::new();
    let rows = vec![confirmed("first@example.com"), confirmed("second@example.com")];
    let mut emails: Vec<String> = Vec::new();

    // Part 1 - the form is submitted; delivery fails for the second subscriber.
    let outcome = publish_newsletter(&mut store, user(), "key-1", &form(), &rows);
    assert!(matches!(outcome, PublishOutcome::Published(_)));
    let mut response = outcome.response().unwrap();
    for answer in [SendOutcome::Delivered, SendOutcome::TransientFailure] {
        let iteration = store.try_execute_task(answer);
        if let Iteration::Delivered(task) = &iteration {
            emails.push(task.recipient.clone());
        }
        if let Err(error) = iteration.into_result() {
            assert_eq!(
                error,
                PublishError::UnexpectedError(
                    "Failed to send newsletter issue to second@example.com".to_string()
                )
            );
            response = error.error_response();
        }
    }
    assert_eq!(response.status_code, 500);
    assert_eq!(emails, vec!["first@example.com".to_string()]);

    // Part 2 - the form is submitted again; delivery succeeds now.
    let outcome = publish_newsletter(&mut store, user(), "key-1", &form(), &rows);
    let response = outcome.response().unwrap();
    loop {
        match store.try_execute_task(SendOutcome::Delivered) {
            Iteration::Delivered(task) => emails.push(task.recipient),
            Iteration::EmptyQueue => break,
            other => panic!("unexpected iteration {:?}", other),
        }
    }
    assert_eq!(response.status_code, 303);
    // No duplicates: one email for each subscriber.
    assert_eq!(emails, vec!["first@example.com".to_string(), "second@example.com".to_string()]);
    assert_eq!(store.issue_count(), 1);
}

#[test]
fn publish_without_subscribers_is_acknowledged_and_repeatable() {
    let mut store = Store::new();
    let form = NewsletterFormData {
        newsletter_title: "T".to_string(),
        newsletter_html: "<p>H</p>".to_string(),
        newsletter_plain_text: "H".to_string(),
    };
    let first = store.publish(user(), "K1", &form, &vec![], IssueId(1));
    let first_response = first.response().unwrap();
    assert_eq!(first_response.status_code, 303);
    assert_eq!(store.pending_count(), 0);
    assert_eq!(store.issue_count(), 1);

    let second = store.publish(user(), "K1", &form, &vec![], IssueId(2));
    assert_eq!(second.response().unwrap(), first_response);
    assert_eq!(second.response().unwrap().status_code, 303);
    assert_eq!(store.pending_count(), 0);
    assert_eq!(store.issue_count(), 1);
    assert!(store.issue(IssueId(2)).is_none());
    let issue = store.issue(IssueId(1)).unwrap();
    assert_eq!(issue.title, "T");
    assert_eq!(issue.html_body, "<p>H</p>");
    assert_eq!(issue.text_body, "H");
}

#[test]
fn an_invalid_recipient_is_skipped_and_never_retried() {
    let mut store = Store::new();
    let rows = vec![confirmed("ursula@example.com"), confirmed("not an address")];
    let entries = get_confirmed_subscribers(&rows);
    let outcome = store.publish(user(), "K1", &form(), &entries, IssueId(1));
    assert!(matches!(outcome, PublishOutcome::Published(_)));
    assert_eq!(store.pending_count(), 2);

    let first = store.try_execute_task(SendOutcome::Delivered);
    assert_eq!(first, Iteration::Delivered(task(1, "ursula@example.com")));
    assert_eq!(first.outcome(), ExecutionOutcome::TaskCompleted);

    let second = store.try_execute_task(SendOutcome::InvalidRecipient);
    assert_eq!(second, Iteration::Skipped(task(1, "not an address")));
    assert_eq!(second.outcome(), ExecutionOutcome::TaskCompleted);
    // The skip is for the log alone: the admin is shown nothing.
    assert_eq!(second.notice(), None);
    assert_eq!(second.into_result(), Ok(()));

    // The skipped task is gone for good.
    assert_eq!(store.pending_count(), 0);
    assert_eq!(store.try_execute_task(SendOutcome::Delivered), Iteration::EmptyQueue);
    store.recover();
    assert_eq!(store.try_execute_task(SendOutcome::Delivered), Iteration::EmptyQueue);
}

#[test]
fn an_invalid_entry_of_the_confirmed_set_gets_no_task() {
    let mut store = Store::new();
    let rows = vec![confirmed("a@example.com"), invalid("broken"), confirmed("b@example.com")];
    let outcome = publish_newsletter(&mut store, user(), "K1", &form(), &rows);
    match &outcome {
        PublishOutcome::Published(receipt) => {
            assert_eq!(receipt.response, accepted());
            assert_eq!(receipt.skipped, vec!["broken".to_string()]);
        },
        other => panic!("expected a published issue, got {:?}", other),
    }
    // The bad entry shows in the receipt, for the log, and nowhere else: the
    // notices are those of a request without it.
    assert_eq!(outcome.notices(), vec![sent()]);
    assert_eq!(outcome.response(), Some(accepted()));
    let recipients: Vec<String> =
        store.pending_tasks().into_iter().map(|task| task.recipient).collect();
    assert_eq!(recipients, vec!["a@example.com".to_string(), "b@example.com".to_string()]);
}

#[test]
fn the_confirmed_set_keeps_the_order_of_the_records() {
    let rows = vec![confirmed("a@example.com"), invalid("broken"), confirmed("b@example.com")];
    assert_eq!(
        get_confirmed_subscribers(&rows),
        vec![
            Ok(ConfirmedSubscriber { email: "a@example.com".to_string() }),
            Err(DataIntegrityError { email: "broken".to_string() }),
            Ok(ConfirmedSubscriber { email: "b@example.com".to_string() }),
        ]
    );
    assert!(get_confirmed_subscribers(&vec![]).is_empty());
}

#[test]
fn a_plan_holds_each_valid_address_once() {
    let entries = get_confirmed_subscribers(&vec![
        confirmed("a@example.com"),
        invalid("broken"),
        confirmed("b@example.com"),
        confirmed("a@example.com"),
        invalid("broken"),
        invalid("b@example.com"),
    ]);
    let plan = plan_deliveries(&entries);
    assert_eq!(plan.recipients, vec!["a@example.com".to_string(), "b@example.com".to_string()]);
    assert_eq!(
        plan.skipped,
        vec!["broken".to_string(), "broken".to_string(), "b@example.com".to_string()]
    );
}

#[test]
fn n_confirmed_subscribers_get_n_tasks_in_order() {
    let mut store = Store::new();
    let rows: Vec<SubscriberRow> =
        (0..5).map(|i| confirmed(&format!("reader{}@example.com", i))).collect();
    let entries = get_confirmed_subscribers(&rows);
    store.publish(user(), "K1", &form(), &entries, IssueId(9));
    let expected: Vec<DeliveryTask> =
        (0..5).map(|i| task(9, &format!("reader{}@example.com", i))).collect();
    assert_eq!(store.pending_tasks(), expected);
    assert_eq!(store.pending_count(), 5);
}

#[test]
fn a_taken_issue_identifier_rolls_the_request_back() {
    let mut store = Store::new();
    let entries = get_confirmed_subscribers(&vec![confirmed("a@example.com")]);
    store.publish(user(), "K1", &form(), &entries, IssueId(1));

    let failed = store.publish(user(), "K2", &form(), &entries, IssueId(1));
    assert_eq!(
        failed,
        PublishOutcome::Rejected(PublishError::UnexpectedError(
            "A newsletter issue with this identifier exists already.".to_string()
        ))
    );
    assert_eq!(failed.response().unwrap().status_code, 500);
    assert_eq!(store.ledger_entry(UserId(7), "K2"), None);
    assert_eq!(store.issue_count(), 1);
    assert_eq!(store.pending_count(), 1);

    // The key is free again: the same request with a fresh identifier succeeds.
    let retried = store.publish(user(), "K2", &form(), &entries, IssueId(2));
    assert!(matches!(retried, PublishOutcome::Published(_)));
    assert_eq!(store.issue_count(), 2);
    assert_eq!(store.pending_count(), 2);
}

#[test]
fn keys_of_different_users_do_not_meet() {
    let mut store = Store::new();
    let entries = get_confirmed_subscribers(&vec![confirmed("a@example.com")]);
    let first = store.publish(Some(UserId(1)), "K1", &form(), &entries, IssueId(1));
    let second = store.publish(Some(UserId(2)), "K1", &form(), &entries, IssueId(2));
    assert!(matches!(first, PublishOutcome::Published(_)));
    assert!(matches!(second, PublishOutcome::Published(_)));
    assert_eq!(store.issue_count(), 2);
    assert_eq!(store.pending_tasks(), vec![task(1, "a@example.com"), task(2, "a@example.com")]);
}

#[test]
fn a_request_in_flight_makes_its_duplicate_wait() {
    let mut store = Store::new();
    let entries = get_confirmed_subscribers(&vec![confirmed("a@example.com")]);
    assert_eq!(store.begin_publish(user(), "K1", &form()), PublishStart::Started);
    let duplicate = store.publish(user(), "K1", &form(), &entries, IssueId(1));
    assert_eq!(duplicate, PublishOutcome::InFlight);
    assert_eq!(duplicate.response(), None);
    assert!(duplicate.notices().is_empty());
    assert_eq!(store.issue_count(), 0);
    assert_eq!(store.pending_count(), 0);
}

#[test]
fn an_aborted_request_frees_its_key() {
    let mut store = Store::new();
    let entries = get_confirmed_subscribers(&vec![confirmed("a@example.com")]);
    assert_eq!(store.begin_publish(user(), "K1", &form()), PublishStart::Started);
    assert!(store.abort_publish(UserId(7), "K1"));
    assert!(!store.abort_publish(UserId(7), "K1"));
    assert_eq!(store.ledger_entry(UserId(7), "K1"), None);
    assert_eq!(store.begin_publish(user(), "K1", &form()), PublishStart::Started);
    assert!(store.commit_publish(UserId(7), "K1", &form(), &entries, IssueId(1)).is_ok());
    // A saved response cannot be aborted away.
    assert!(!store.abort_publish(UserId(7), "K1"));
    assert_eq!(store.ledger_entry(UserId(7), "K1"), Some(LedgerEntry::Saved(accepted())));
}

#[test]
fn a_commit_needs_a_request_under_way() {
    let mut store = Store::new();
    let entries = get_confirmed_subscribers(&vec![confirmed("a@example.com")]);
    let commit = store.commit_publish(UserId(7), "K1", &form(), &entries, IssueId(1));
    assert!(matches!(commit, Err(PublishError::UnexpectedError(_))));
    assert_eq!(store.issue_count(), 0);
    assert_eq!(store.pending_count(), 0);
    assert_eq!(store.ledger_entry(UserId(7), "K1"), None);
}

#[test]
fn a_commit_refuses_an_incomplete_form() {
    let mut store = Store::new();
    let entries = get_confirmed_subscribers(&vec![confirmed("a@example.com")]);
    assert_eq!(store.begin_publish(user(), "K1", &form()), PublishStart::Started);
    let no_title = NewsletterFormData { newsletter_title: String::new(), ..form() };
    let commit = store.commit_publish(UserId(7), "K1", &no_title, &entries, IssueId(1));
    assert_eq!(
        commit,
        Err(PublishError::ValidationError("The newsletter's title is empty.".to_string()))
    );
    // Nothing was written, and the request is still under way.
    assert_eq!(store.issue_count(), 0);
    assert_eq!(store.pending_count(), 0);
    assert_eq!(store.ledger_entry(UserId(7), "K1"), Some(LedgerEntry::Processing));
    assert!(store.commit_publish(UserId(7), "K1", &form(), &entries, IssueId(1)).is_ok());
}

#[test]
fn the_oldest_task_is_claimed_first_and_only_once() {
    let mut store = Store::new();
    let rows = vec![confirmed("a@example.com"), confirmed("b@example.com")];
    publish_newsletter(&mut store, user(), "K1", &form(), &rows);
    let first = store.claim_task().unwrap();
    let second = store.claim_task().unwrap();
    assert_eq!(first.task.recipient, "a@example.com");
    assert_eq!(second.task.recipient, "b@example.com");
    // Both tasks are locked: a third worker finds nothing.
    assert!(store.claim_task().is_none());
    assert_eq!(store.pending_count(), 2);

    // The first worker fails, the second succeeds.
    let failed = store.settle_task(&first.task, SendOutcome::TransientFailure).unwrap();
    assert_eq!(failed.outcome(), ExecutionOutcome::TaskFailedTransiently);
    let done = store.settle_task(&second.task, SendOutcome::Delivered).unwrap();
    assert_eq!(done.outcome(), ExecutionOutcome::TaskCompleted);
    assert_eq!(store.pending_count(), 1);
    // A claim can be settled once.
    assert_eq!(store.settle_task(&second.task, SendOutcome::Delivered), None);
    assert_eq!(store.settle_task(&first.task, SendOutcome::Delivered), None);

    // The released task is free again.
    let again = store.claim_task().unwrap();
    assert_eq!(again.task, first.task);
}

#[test]
fn a_task_that_nobody_claimed_cannot_be_settled() {
    let mut store = Store::new();
    publish_newsletter(&mut store, user(), "K1", &form(), &vec![confirmed("a@example.com")]);
    let pending = store.pending_tasks();
    assert_eq!(store.settle_task(&pending[0], SendOutcome::Delivered), None);
    assert_eq!(store.settle_task(&task(5, "nobody@example.com"), SendOutcome::Delivered), None);
    assert_eq!(store.pending_count(), 1);
}

#[test]
fn a_transient_failure_is_retried_until_it_succeeds() {
    let mut store = Store::new();
    publish_newsletter(&mut store, user(), "K1", &form(), &vec![confirmed("a@example.com")]);
    for _ in 0..3 {
        let iteration = store.try_execute_task(SendOutcome::TransientFailure);
        assert_eq!(iteration.outcome(), ExecutionOutcome::TaskFailedTransiently);
        assert_eq!(store.pending_count(), 1);
        assert_eq!(
            iteration.notice().unwrap().content,
            "Failed to send newsletter to a@example.com"
        );
    }
    let iteration = store.try_execute_task(SendOutcome::Delivered);
    assert_eq!(iteration.outcome(), ExecutionOutcome::TaskCompleted);
    assert_eq!(
        iteration.notice(),
        Some(FlashNotice {
            level: FlashLevel::Info,
            content: "Email sent to a@example.com".to_string()
        })
    );
    assert_eq!(store.pending_count(), 0);
    let empty = store.try_execute_task(SendOutcome::Delivered);
    assert_eq!(empty.outcome(), ExecutionOutcome::EmptyQueue);
    assert_eq!(empty.notice(), None);
}

#[test]
fn a_restart_keeps_what_was_committed() {
    let mut store = Store::new();
    let rows = vec![confirmed("a@example.com"), confirmed("b@example.com")];
    publish_newsletter(&mut store, user(), "K1", &form(), &rows);
    let tasks = store.pending_tasks();
    // A worker holds a task and a request is under way when the process dies.
    let held = store.claim_task().unwrap();
    assert_eq!(store.begin_publish(user(), "K2", &form()), PublishStart::Started);

    store.recover();

    assert_eq!(store.pending_tasks(), tasks);
    assert_eq!(store.issue_count(), 1);
    assert_eq!(store.ledger_entry(UserId(7), "K1"), Some(LedgerEntry::Saved(accepted())));
    assert_eq!(store.ledger_entry(UserId(7), "K2"), None);
    // The claim is gone with the worker: the task is free, and the old claim
    // cannot be settled.
    assert_eq!(store.settle_task(&held.task, SendOutcome::Delivered), None);
    assert_eq!(store.claim_task().unwrap().task, held.task);
}

#[test]
fn a_later_subscriber_gets_nothing_of_an_earlier_issue() {
    let mut store = Store::new();
    publish_newsletter(&mut store, user(), "K1", &form(), &vec![confirmed("a@example.com")]);
    // A second reader confirms, and the admin's browser repeats the request.
    let rows = vec![confirmed("a@example.com"), confirmed("late@example.com")];
    let repeated = publish_newsletter(&mut store, user(), "K1", &form(), &rows);
    assert_eq!(repeated, PublishOutcome::Replayed(accepted()));
    let recipients: Vec<String> =
        store.pending_tasks().into_iter().map(|task| task.recipient).collect();
    assert_eq!(recipients, vec!["a@example.com".to_string()]);
}

#[test]
fn one_invalid_entry_changes_nothing_but_the_receipt() {
    let clean = vec![confirmed("a@example.com"), confirmed("b@example.com")];
    let dirty = vec![confirmed("a@example.com"), invalid("broken"), confirmed("b@example.com")];
    let mut clean_store = Store::new();
    let mut dirty_store = Store::new();
    let clean_outcome = clean_store.publish(
        user(),
        "K1",
        &form(),
        &get_confirmed_subscribers(&clean),
        IssueId(1),
    );
    let dirty_outcome = dirty_store.publish(
        user(),
        "K1",
        &form(),
        &get_confirmed_subscribers(&dirty),
        IssueId(1),
    );
    assert_eq!(dirty_outcome.response(), clean_outcome.response());
    assert_eq!(dirty_outcome.notices(), clean_outcome.notices());
    assert_eq!(dirty_store.pending_tasks(), clean_store.pending_tasks());
    // Each of the others gets exactly one email, the bad entry none.
    let mut emails: Vec<String> = Vec::new();
    loop {
        let iteration = dirty_store.try_execute_task(SendOutcome::Delivered);
        assert_eq!(iteration.into_result(), Ok(()));
        match iteration {
            Iteration::Delivered(task) => emails.push(task.recipient),
            Iteration::EmptyQueue => break,
            other => panic!("unexpected iteration {:?}", other),
        }
    }
    assert_eq!(emails, vec!["a@example.com".to_string(), "b@example.com".to_string()]);
}

#[test]
fn the_answer_of_the_email_service_is_sorted() {
    assert_eq!(send_outcome(true, None), SendOutcome::Delivered);
    assert_eq!(send_outcome(true, Some(500)), SendOutcome::Delivered);
    assert_eq!(send_outcome(false, Some(400)), SendOutcome::InvalidRecipient);
    assert_eq!(send_outcome(false, Some(422)), SendOutcome::InvalidRecipient);
    assert_eq!(send_outcome(false, Some(499)), SendOutcome::InvalidRecipient);
    assert_eq!(send_outcome(false, Some(399)), SendOutcome::TransientFailure);
    assert_eq!(send_outcome(false, Some(500)), SendOutcome::TransientFailure);
    assert_eq!(send_outcome(false, Some(503)), SendOutcome::TransientFailure);
    assert_eq!(send_outcome(false, None), SendOutcome::TransientFailure);
}

#[test]
fn a_fresh_issue_identifier_is_a_random_uuid() {
    let id = IssueId::fresh();
    assert_eq!((id.0 >> 76) & 0xf, 4);
    assert_eq!((id.0 >> 62) & 0x3, 2);
    let mut store = Store::new();
    publish_newsletter(&mut store, user(), "K1", &form(), &vec![confirmed("a@example.com")]);
    let issue_id = store.pending_tasks()[0].issue_id;
    assert_eq!((issue_id.0 >> 76) & 0xf, 4);
    assert!(store.issue(issue_id).is_some());
}
