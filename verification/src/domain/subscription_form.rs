//! The form that subscribes a reader.

use crate::response::{bare_response, HttpResponseSnapshot, OK};
use vstd::prelude::*;

verus! {

/// The fields of the subscription form.
#[derive(Debug, PartialEq, Eq)]
pub struct FormData {
    pub email: String,
    pub name: String,
}

impl Clone for FormData {
    fn clone(&self) -> (copy: FormData)
        ensures
            copy.email@ == self.email@,
            copy.name@ == self.name@,
    {
        FormData { email: self.email.clone(), name: self.name.clone() }
    }
}

/// Acknowledges a subscription form with status 200, whatever it holds.
pub fn subscribe(form: &FormData) -> (response: HttpResponseSnapshot)
    ensures
        response@ == bare_response(OK),
{
    HttpResponseSnapshot::new(OK)
}

} // verus!
