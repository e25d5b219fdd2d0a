//! Confirmed subscribers, as the subscription records yield them.

use vstd::prelude::*;

verus! {

/// One confirmed subscription as stored: the address, and whether it still
/// passes address validation.
#[derive(Debug, PartialEq, Eq)]
pub struct SubscriberRow {
    pub email: String,
    pub raw_validity: bool,
}

/// The mathematical value of a [`SubscriberRow`].
pub struct SubscriberRowView {
    pub email: Seq<char>,
    pub raw_validity: bool,
}

impl View for SubscriberRow {
    type V = SubscriberRowView;

    open spec fn view(&self) -> SubscriberRowView {
        SubscriberRowView { email: self.email@, raw_validity: self.raw_validity }
    }
}

/// The records that a sequence of rows holds, in order.
pub open spec fn rows_view(rows: Seq<SubscriberRow>) -> Seq<SubscriberRowView> {
    rows.map_values(|row: SubscriberRow| row@)
}

/// A confirmed subscriber whose address is valid.
#[derive(Debug, PartialEq, Eq)]
pub struct ConfirmedSubscriber {
    pub email: String,
}

/// A stored address that is no longer valid.
#[derive(Debug, PartialEq, Eq)]
pub struct DataIntegrityError {
    pub email: String,
}

impl Clone for SubscriberRow {
    fn clone(&self) -> (copy: SubscriberRow)
        ensures
            copy@ == self@,
    {
        SubscriberRow { email: self.email.clone(), raw_validity: self.raw_validity }
    }
}

impl Clone for ConfirmedSubscriber {
    fn clone(&self) -> (copy: ConfirmedSubscriber)
        ensures
            copy.email@ == self.email@,
    {
        ConfirmedSubscriber { email: self.email.clone() }
    }
}

impl Clone for DataIntegrityError {
    fn clone(&self) -> (copy: DataIntegrityError)
        ensures
            copy.email@ == self.email@,
    {
        DataIntegrityError { email: self.email.clone() }
    }
}

/// The record that an entry of the confirmed set stands for.
pub open spec fn entry_view(entry: Result<ConfirmedSubscriber, DataIntegrityError>)
    -> SubscriberRowView {
    match entry {
        Ok(subscriber) => SubscriberRowView { email: subscriber.email@, raw_validity: true },
        Err(error) => SubscriberRowView { email: error.email@, raw_validity: false },
    }
}

/// The records that a confirmed set stands for, in order.
pub open spec fn entries_view(entries: Seq<Result<ConfirmedSubscriber, DataIntegrityError>>)
    -> Seq<SubscriberRowView> {
    entries.map_values(|entry: Result<ConfirmedSubscriber, DataIntegrityError>| entry_view(entry))
}

/// Turns the stored records into the confirmed set: a subscriber for each valid
/// record and an error for each invalid one, in the order of the records.
pub fn get_confirmed_subscribers(rows: &Vec<SubscriberRow>) -> (confirmed: Vec<
    Result<ConfirmedSubscriber, DataIntegrityError>,
>)
    ensures
        entries_view(confirmed@) == rows_view(rows@),
{
    let mut confirmed: Vec<Result<ConfirmedSubscriber, DataIntegrityError>> = Vec::new();
    let mut i: usize = 0;
    while i < rows.len()
        invariant
            i <= rows.len(),
            confirmed@.len() == i,
            forall|j: int| 0 <= j < i ==> entry_view(#[trigger] confirmed@[j]) == rows@[j]@,
        decreases rows.len() - i,
    {
        let row = &rows[i];
        if row.raw_validity {
            confirmed.push(Ok(ConfirmedSubscriber { email: row.email.clone() }));
        } else {
            confirmed.push(Err(DataIntegrityError { email: row.email.clone() }));
        }
        i += 1;
    }
    assert(entries_view(confirmed@) =~= rows_view(rows@));
    confirmed
}

} // verus!
