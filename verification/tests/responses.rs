use newsletter::{
    e400, e500, see_other, subscribe, FormData, Header, HttpResponseSnapshot, PublishError,
};

#[test]
fn see_other_redirects_with_status_303() {
    let response = see_other("/admin/newsletters");
    assert_eq!(response.status_code, 303);
    assert_eq!(
        response.headers,
        vec![Header { name: "Location".to_string(), value: "/admin/newsletters".to_string() }]
    );
    assert!(response.body.is_empty());
}

#[test]
fn e400_answers_with_the_error_as_body() {
    let response = e400("missing title");
    assert_eq!(response.status_code, 400);
    assert!(response.headers.is_empty());
    assert_eq!(response.body, b"missing title".to_vec());
}

#[test]
fn e500_answers_with_the_error_as_body() {
    let response = e500("database is gone: ü");
    assert_eq!(response.status_code, 500);
    assert!(response.headers.is_empty());
    assert_eq!(response.body, "database is gone: ü".as_bytes().to_vec());
}

#[test]
fn a_bare_response_has_only_a_status() {
    let response = HttpResponseSnapshot::new(204);
    assert_eq!(response, HttpResponseSnapshot { status_code: 204, headers: vec![], body: vec![] });
}

#[test]
fn a_cloned_response_is_equal() {
    let response = HttpResponseSnapshot {
        status_code: 303,
        headers: vec![
            Header { name: "Location".to_string(), value: "/a".to_string() },
            Header { name: "X".to_string(), value: "y".to_string() },
        ],
        body: vec![1, 2, 3],
    };
    assert_eq!(response.clone(), response);
}

#[test]
fn each_error_has_its_status() {
    let validation = PublishError::ValidationError("no title".to_string());
    let auth = PublishError::AuthError("no user".to_string());
    let unexpected = PublishError::UnexpectedError("boom".to_string());
    assert_eq!(validation.error_response(), HttpResponseSnapshot::new(400));
    assert_eq!(auth.error_response(), HttpResponseSnapshot::new(401));
    assert_eq!(unexpected.error_response(), HttpResponseSnapshot::new(500));
}

#[test]
fn errors_are_put_in_words() {
    assert_eq!(PublishError::AuthError("no user".to_string()).to_text(), "Authentication failed");
    assert_eq!(PublishError::UnexpectedError("boom".to_string()).to_text(), "boom");
    assert_eq!(PublishError::ValidationError("no title".to_string()).to_text(), "no title");
}

#[test]
fn subscribe_acknowledges_any_form() {
    let form = FormData { email: "a@b.c".to_string(), name: "A".to_string() };
    assert_eq!(subscribe(&form), HttpResponseSnapshot::new(200));
    let empty = FormData { email: String::new(), name: String::new() };
    assert_eq!(subscribe(&empty).status_code, 200);
}
