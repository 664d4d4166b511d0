//! Notices from the server, and which of them the user has seen.

use std::collections::HashSet;
use vstd::prelude::*;

verus! {

#[derive(Debug)]
pub enum Error {
    Malformed(String),
    SerializeViewedNotifications(String),
    UnhandledIo(String),
    SaveViewedNotifications(String),
    FetchNotifications(String),
    ParseApiResponse(String),
}

#[derive(Debug, Clone)]
pub struct Notification {
    pub id: u32,
    pub text: String,
    pub display_at: String,
    pub created_at: String,
    pub updated_at: String,
}

/// The ids of the notices that the user has seen.
#[derive(Debug)]
pub struct ViewedNotifications {
    pub viewed_ids: HashSet<u32>,
}

impl View for ViewedNotifications {
    type V = Set<u32>;

    open spec fn view(&self) -> Set<u32> {
        self.viewed_ids@
    }
}

impl Default for ViewedNotifications {
    fn default() -> (viewed: Self)
        ensures
            viewed@ == Set::<u32>::empty(),
    {
        ViewedNotifications { viewed_ids: HashSet::new() }
    }
}

impl ViewedNotifications {
    /// What is known where the stored set could not be read: nothing seen
    /// yet where the file does not exist, else the failure.
    pub fn without_file(not_found: bool, detail: String) -> (result: Result<
        ViewedNotifications,
        Error,
    >)
        ensures
            match result {
                Ok(viewed) => not_found && viewed@ == Set::<u32>::empty(),
                Err(e) => !not_found && e == Error::UnhandledIo(detail),
            },
    {
        if not_found {
            Ok(ViewedNotifications::default())
        } else {
            Err(Error::UnhandledIo(detail))
        }
    }

    /// Mark a notification as viewed
    pub fn mark_as_viewed(&mut self, notification_id: u32)
        ensures
            final(self)@ == old(self)@.insert(notification_id),
    {
        broadcast use vstd::std_specs::hash::group_hash_axioms;

        self.viewed_ids.insert(notification_id);
    }

    /// Check if a notification has been viewed
    pub fn is_viewed(&self, notification_id: u32) -> (viewed: bool)
        ensures
            viewed == self@.contains(notification_id),
    {
        broadcast use vstd::std_specs::hash::group_hash_axioms;

        self.viewed_ids.contains(&notification_id)
    }
}

/// The notices that the user has not seen, in the order in which the
/// server sent them.
pub fn unviewed_notifications(
    notifications: Vec<Notification>,
    viewed_notifications: &ViewedNotifications,
) -> (unviewed: Vec<Notification>)
    ensures
        unviewed@ == notifications@.filter(
            |n: Notification| !viewed_notifications@.contains(n.id),
        ),
{
    let ghost keep = |n: Notification| !viewed_notifications@.contains(n.id);
    let ghost all = notifications@;
    let mut notifications = notifications;
    let mut unviewed: Vec<Notification> = Vec::new();
    assert(all.skip(0) =~= all);
    assert(all.take(0) =~= Seq::empty());
    let mut taken: usize = 0;
    let total: usize = notifications.len();
    while taken < total
        invariant
            taken <= total,
            total == all.len(),
            keep == |n: Notification| !viewed_notifications@.contains(n.id),
            notifications@ == all.skip(taken as int),
            unviewed@ == all.take(taken as int).filter(keep),
        decreases total - taken,
    {
        let notification = notifications.remove(0);
        proof {
            assert(notification == all[taken as int]);
            assert(notifications@ =~= all.skip(taken + 1));
            assert(all.take(taken + 1).drop_last() =~= all.take(taken as int));
            reveal(Seq::filter);
        }
        if !viewed_notifications.is_viewed(notification.id) {
            unviewed.push(notification);
        }
        taken += 1;
    }
    assert(all.take(total as int) =~= all);
    unviewed
}

/// Judges the answer to the request for the notices: a status that is no
/// success fails it, with the status.
pub fn judge_notifications_answer(code: u16, status: &str) -> (result: Result<(), Error>)
    ensures
        match result {
            Ok(_) => crate::sync::status_is_success(code),
            Err(Error::FetchNotifications(text)) => !crate::sync::status_is_success(code) && text@
                == "API returned status: "@ + status@,
            Err(_) => false,
        },
{
    if crate::sync::is_success(code) {
        Ok(())
    } else {
        Err(Error::FetchNotifications(crate::text::joined("API returned status: ", status)))
    }
}

} // verus!
