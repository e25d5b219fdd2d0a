use newsletter::{
    fresh_idempotency_key, greeting, login_form, publish_newsletter_form, render_publish_form,
    Header, IssueId,
};

fn html() -> Vec<Header> {
    vec![Header { name: "Content-Type".to_string(), value: "text/html; charset=utf-8".to_string() }]
}

fn expected_publish_form(msg_html: &str, idempotency_key: &str) -> String {
    format!(
        r#"
        <!DOCTYPE html>
        <html lang="en">
        <head>
            <meta http-equiv="content-type" content="text/html; charset=utf-8">
            <title>Publish newsletter</title>
        </head>
        <body>
            <form action="/admin/newsletters" method="post">
            {msg_html}
                <label>Newsletter Title:<br>
                    <input
                        type="text"
                        placeholder="Enter newsletter title"
                        name="newsletter_title"
                    >
                </label>
                <br>
                <label>HTML newsletter:<br>
                    <textarea
                        name="newsletter_html"
                        rows="25"
                        cols="65"
                    >
                    </textarea>
                </label>
                <br>
                <label>Plain text newsletter:<br>
                    <textarea
                        name="newsletter_plain_text"
                        rows="25"
                        cols="65"
                    >
                    </textarea>
                </label>
                <br>
                <input hidden type="text" name="idempotency_key" value="{idempotency_key}">
                <button type="submit">Publish</button>
            </form>
            <p><a href="/admin/dashboard">&lt; Back</a></p>
        </body>
        </html>
        "#,
    )
}

fn expected_login_form(error_html: &str) -> String {
    format!(
        r#"
            <!DOCTYPE html>
            <html lang="en">
              <head>
                <title>Login</title>
                <meta http-equiv="content-type" content="text/html; charset=utf-8">
                <!-- <link href="css/style.css" rel="stylesheet"> -->
              </head>
              <body>
              {error_html}
                <form action="/login" method="post">
                  <label for="username">Username
                    <input type="text" name="username" placeholder="Enter Username">
                  </label>
                  <label for="password">Password
                    <input type="password" name="password" placeholder="Enter Password">
                  </label>
                  <button type="submit">Login</button>
                </form>
              </body>
            </html>
        "#,
    )
}

#[test]
fn the_publish_form_holds_the_messages_and_the_key() {
    let messages = vec!["Newsletter sent".to_string(), "Email sent to a@b.c".to_string()];
    let response = render_publish_form(&messages, "3f0c2c1e-key");
    let expected = expected_publish_form(
        "<p><i>Newsletter sent</i></p>\n<p><i>Email sent to a@b.c</i></p>\n",
        "3f0c2c1e-key",
    );
    assert_eq!(response.status_code, 200);
    assert_eq!(response.headers, html());
    assert_eq!(String::from_utf8(response.body).unwrap(), expected);
}

#[test]
fn the_publish_form_without_messages_has_none() {
    let response = render_publish_form(&vec![], "k");
    let text = String::from_utf8(response.body).unwrap();
    assert_eq!(text, expected_publish_form("", "k"));
    assert!(!text.contains("<p><i>"));
    assert!(text.contains(r#"<input hidden type="text" name="idempotency_key" value="k">"#));
}

#[test]
fn the_publish_form_gets_a_fresh_uuid_as_its_key() {
    let response = publish_newsletter_form(&vec!["Newsletter sent".to_string()]);
    assert_eq!(response.status_code, 200);
    assert_eq!(response.headers, html());
    let text = String::from_utf8(response.body).unwrap();
    assert!(text.contains("<p><i>Newsletter sent</i></p>"));
    let marker = r#"name="idempotency_key" value=""#;
    let start = text.find(marker).unwrap() + marker.len();
    let key = &text[start..start + 36];
    let parsed = uuid::Uuid::parse_str(key).unwrap();
    assert_eq!(parsed.get_version_num(), 4);
    assert_eq!(parsed.to_string(), key);
    assert_eq!(text, expected_publish_form("<p><i>Newsletter sent</i></p>\n", key));
}

#[test]
fn a_fresh_idempotency_key_is_the_text_of_a_random_uuid() {
    let key = fresh_idempotency_key();
    assert_eq!(key.chars().count(), 36);
    let parsed = uuid::Uuid::parse_str(&key).unwrap();
    assert_eq!(parsed.get_version_num(), 4);
    assert_eq!(parsed.hyphenated().to_string(), key);
    assert_eq!(key, key.to_lowercase());
    assert_ne!(fresh_idempotency_key(), fresh_idempotency_key());
}

#[test]
fn an_identifier_is_written_as_a_hyphenated_uuid() {
    assert_eq!(
        IssueId(0xa1a2a3a4b1b2c1c2d1d2d3d4d5d6d7d8).to_text(),
        "a1a2a3a4-b1b2-c1c2-d1d2-d3d4d5d6d7d8"
    );
    assert_eq!(IssueId(0).to_text(), "00000000-0000-0000-0000-000000000000");
    assert_eq!(IssueId(u128::MAX).to_text(), "ffffffff-ffff-ffff-ffff-ffffffffffff");
    assert_eq!(IssueId(0x1f).to_text(), "00000000-0000-0000-0000-00000000001f");
    assert_eq!(
        IssueId(0x0123456789abcdef_0123456789abcdef).to_text(),
        "01234567-89ab-cdef-0123-456789abcdef"
    );
}

#[test]
fn a_visitor_is_greeted_by_name() {
    assert_eq!(greeting(Some("Ursula")), "Hello Ursula!");
    assert_eq!(greeting(Some("")), "Hello !");
    assert_eq!(greeting(None), "Hello World!");
}

#[test]
fn the_login_form_holds_the_messages() {
    let response = login_form(&vec!["Authentication failed".to_string()]);
    assert_eq!(response.status_code, 200);
    assert_eq!(response.headers, html());
    assert_eq!(
        String::from_utf8(response.body).unwrap(),
        expected_login_form("<p><i>Authentication failed</i></p>\n")
    );
    let plain = login_form(&vec![]);
    assert_eq!(String::from_utf8(plain.body).unwrap(), expected_login_form(""));
}

#[test]
fn messages_are_rendered_as_they_are() {
    let response = login_form(&vec!["ünïcödé & <b>".to_string()]);
    let text = String::from_utf8(response.body).unwrap();
    assert!(text.contains("<p><i>ünïcödé & <b></i></p>\n"));
}
