//! The form that publishes a newsletter issue.

use vstd::prelude::*;

verus! {

/// The fields of the publish form.
#[derive(Debug, PartialEq, Eq)]
pub struct NewsletterFormData {
    pub newsletter_title: String,
    pub newsletter_html: String,
    pub newsletter_plain_text: String,
}

/// The mathematical value of a [`NewsletterFormData`].
pub struct NewsletterFormView {
    pub title: Seq<char>,
    pub html: Seq<char>,
    pub plain_text: Seq<char>,
}

impl View for NewsletterFormData {
    type V = NewsletterFormView;

    open spec fn view(&self) -> NewsletterFormView {
        NewsletterFormView {
            title: self.newsletter_title@,
            html: self.newsletter_html@,
            plain_text: self.newsletter_plain_text@,
        }
    }
}

impl Clone for NewsletterFormData {
    fn clone(&self) -> (copy: NewsletterFormData)
        ensures
            copy@ == self@,
    {
        NewsletterFormData {
            newsletter_title: self.newsletter_title.clone(),
            newsletter_html: self.newsletter_html.clone(),
            newsletter_plain_text: self.newsletter_plain_text.clone(),
        }
    }
}

} // verus!
