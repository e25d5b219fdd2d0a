//! The values that requests carry: names, forms and subscriber records.

pub mod newsletter_form;
pub mod subscriber;
pub mod subscriber_name;
pub mod subscription_form;

pub use newsletter_form::NewsletterFormData;
pub use subscriber::{
    get_confirmed_subscribers, ConfirmedSubscriber, DataIntegrityError, SubscriberRow,
};
pub use subscriber_name::SubscriberName;
pub use subscription_form::{subscribe, FormData};
