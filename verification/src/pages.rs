//! The two pages that the admin sees: the login form and the publish form.

use crate::ids::{fresh_idempotency_key, is_random_uuid, uuid_text};
use crate::model::texts;
use crate::response::{HeaderView, Header, HttpResponseSnapshot, ResponseView, OK};
use vstd::prelude::*;
use vstd::string::*;

verus! {

/// The publish form up to the place of the flash messages.
pub const PUBLISH_FORM_HEAD: &'static str = r#"
        <!DOCTYPE html>
        <html lang="en">
        <head>
            <meta http-equiv="content-type" content="text/html; charset=utf-8">
            <title>Publish newsletter</title>
        </head>
        <body>
            <form action="/admin/newsletters" method="post">
            "#;

/// The publish form from the flash messages to the idempotency key.
pub const PUBLISH_FORM_MIDDLE: &'static str = r#"
                <label>Newsletter Title:<br>
                    <input
                        type="text"
                        placeholder="Enter newsletter title"
                        name="newsletter_title"
                    >
                </label>
                <br>
                <label>HTML newsletter:<br>
                    <textarea
                        name="newsletter_html"
                        rows="25"
                        cols="65"
                    >
                    </textarea>
                </label>
                <br>
                <label>Plain text newsletter:<br>
                    <textarea
                        name="newsletter_plain_text"
                        rows="25"
                        cols="65"
                    >
                    </textarea>
                </label>
                <br>
                <input hidden type="text" name="idempotency_key" value=""#;

/// The publish form after the idempotency key.
pub const PUBLISH_FORM_TAIL: &'static str = r#"">
                <button type="submit">Publish</button>
            </form>
            <p><a href="/admin/dashboard">&lt; Back</a></p>
        </body>
        </html>
        "#;

/// The login form up to the place of the flash messages.
pub const LOGIN_FORM_HEAD: &'static str = r#"
            <!DOCTYPE html>
            <html lang="en">
              <head>
                <title>Login</title>
                <meta http-equiv="content-type" content="text/html; charset=utf-8">
                <!-- <link href="css/style.css" rel="stylesheet"> -->
              </head>
              <body>
              "#;

/// The login form after the flash messages.
pub const LOGIN_FORM_TAIL: &'static str = r#"
                <form action="/login" method="post">
                  <label for="username">Username
                    <input type="text" name="username" placeholder="Enter Username">
                  </label>
                  <label for="password">Password
                    <input type="password" name="password" placeholder="Enter Password">
                  </label>
                  <button type="submit">Login</button>
                </form>
              </body>
            </html>
        "#;

/// The greeting for a visitor: by name, or of the world where no name is
/// given.
pub open spec fn greeting_text(name: Option<Seq<char>>) -> Seq<char> {
    "Hello "@ + (match name {
        Some(name) => name,
        None => "World"@,
    }) + "!"@
}

/// Greets a visitor.
pub fn greeting(name: Option<&str>) -> (text: String)
    ensures
        text@ == greeting_text(
            match name {
                Some(name) => Some(name@),
                None => None,
            },
        ),
{
    let mut text = "Hello ".to_owned();
    match name {
        Some(name) => text.append(name),
        None => text.append("World"),
    }
    text.append("!");
    text
}

/// The flash messages as HTML: a paragraph in italics and a line break for
/// each, in order.
pub open spec fn messages_html(messages: Seq<Seq<char>>) -> Seq<char>
    decreases messages.len(),
{
    if messages.len() == 0 {
        Seq::empty()
    } else {
        messages_html(messages.drop_last()) + "<p><i>"@ + messages.last() + "</i></p>\n"@
    }
}

/// An HTML page: status 200, the content type of HTML, and the text as UTF-8.
pub open spec fn html_page(text: Seq<char>) -> ResponseView {
    ResponseView {
        status_code: OK,
        headers: seq![HeaderView { name: "Content-Type"@, value: "text/html; charset=utf-8"@ }],
        body: vstd::utf8::encode_utf8(text),
    }
}

/// The text of the publish form with its flash messages and its hidden
/// idempotency key.
pub open spec fn publish_form_text(messages: Seq<Seq<char>>, key: Seq<char>) -> Seq<char> {
    PUBLISH_FORM_HEAD@ + messages_html(messages) + PUBLISH_FORM_MIDDLE@ + key + PUBLISH_FORM_TAIL@
}

/// The text of the login form with its flash messages.
pub open spec fn login_form_text(messages: Seq<Seq<char>>) -> Seq<char> {
    LOGIN_FORM_HEAD@ + messages_html(messages) + LOGIN_FORM_TAIL@
}

/// Renders the flash messages as HTML.
pub fn render_messages(flash_messages: &Vec<String>) -> (html: String)
    ensures
        html@ == messages_html(texts(flash_messages@)),
{
    let mut html = String::new();
    let ghost all = texts(flash_messages@);
    let mut i: usize = 0;
    assert(all.take(0) =~= Seq::empty());
    while i < flash_messages.len()
        invariant
            i <= flash_messages@.len(),
            all == texts(flash_messages@),
            html@ == messages_html(all.take(i as int)),
        decreases flash_messages.len() - i,
    {
        proof {
            assert(all.take(i + 1).drop_last() =~= all.take(i as int));
            assert(all.take(i + 1).last() == flash_messages@[i as int]@);
        }
        html.append("<p><i>");
        html.append(flash_messages[i].as_str());
        html.append("</i></p>\n");
        i += 1;
    }
    assert(all.take(i as int) =~= all);
    html
}

fn page(text: String) -> (response: HttpResponseSnapshot)
    ensures
        response@ == html_page(text@),
{
    let mut headers: Vec<Header> = Vec::new();
    headers.push(
        Header { name: "Content-Type".to_owned(), value: "text/html; charset=utf-8".to_owned() },
    );
    let response = HttpResponseSnapshot {
        status_code: OK,
        headers,
        body: text.as_str().as_bytes_vec(),
    };
    assert(response@.headers =~= html_page(text@).headers);
    response
}

/// Renders the publish form with the given idempotency key.
pub fn render_publish_form(flash_messages: &Vec<String>, idempotency_key: &str) -> (response:
    HttpResponseSnapshot)
    ensures
        response@ == html_page(publish_form_text(texts(flash_messages@), idempotency_key@)),
{
    let mut text = PUBLISH_FORM_HEAD.to_owned();
    text.append(render_messages(flash_messages).as_str());
    text.append(PUBLISH_FORM_MIDDLE);
    text.append(idempotency_key);
    text.append(PUBLISH_FORM_TAIL);
    page(text)
}

/// Renders the publish form with a fresh idempotency key: the text of a
/// random UUID. The key is random, so the contract holds for whichever was
/// drawn.
pub fn publish_newsletter_form(flash_messages: &Vec<String>) -> (response: HttpResponseSnapshot)
    ensures
        exists|value: u128|
            is_random_uuid(value) && response@ == html_page(
                publish_form_text(texts(flash_messages@), #[trigger] uuid_text(value)),
            ),
{
    let idempotency_key = fresh_idempotency_key();
    render_publish_form(flash_messages, idempotency_key.as_str())
}

/// Renders the login form.
pub fn login_form(flash_messages: &Vec<String>) -> (response: HttpResponseSnapshot)
    ensures
        response@ == html_page(login_form_text(texts(flash_messages@))),
{
    let mut text = LOGIN_FORM_HEAD.to_owned();
    text.append(render_messages(flash_messages).as_str());
    text.append(LOGIN_FORM_TAIL);
    page(text)
}

} // verus!
