//! Event records, partial updates to them, and the results of store operations.
use vstd::prelude::*;

verus! {

/// One stored event. `creator_wallet` is the account that may change it.
#[derive(Debug, PartialEq, Eq)]
pub struct Event {
    pub event_id: String,
    pub event_name: String,
    pub entity_name: String,
    pub creator_wallet: String,
    pub event_created_at: u64,
    pub event_txn_receipt_id: String,
    pub launch_date_start: u64,
    pub end_date: u64,
    pub location: Option<String>,
    pub event_type: Option<String>,
    pub campaign_type: Option<String>,
    pub event_description: Option<String>,
    pub event_image: Option<String>,
}

/// A partial update: `Some(v)` overwrites the field with `v`, `None` keeps it.
#[derive(Debug, PartialEq, Eq)]
pub struct EventUpdate {
    pub event_name: Option<String>,
    pub entity_name: Option<String>,
    pub creator_wallet: Option<String>,
    pub event_created_at: Option<u64>,
    pub event_txn_receipt_id: Option<String>,
    pub launch_date_start: Option<u64>,
    pub end_date: Option<u64>,
    pub location: Option<String>,
    pub event_type: Option<String>,
    pub campaign_type: Option<String>,
    pub event_description: Option<String>,
    pub event_image: Option<String>,
}

/// The typed outcome of `update_event` and `delete_event`: the call completed,
/// and either changed the store or found no such event.
#[derive(Debug, PartialEq, Eq)]
pub enum EventUpdateResult {
    Success,
    Error(String),
}

/// A refused call. The store is left as it was.
#[derive(Debug, Clone, Copy, PartialEq, Eq, Structural)]
pub enum ManagerError {
    /// The caller is not an administrator (for `add_event`), or neither an
    /// administrator nor the event's creator (for `update_event`, `delete_event`).
    PermissionDenied,
    /// `add_event` was given an id that is already stored.
    DuplicateId,
}

pub open spec fn patched<T>(current: T, patch: Option<T>) -> T {
    match patch {
        Some(v) => v,
        None => current,
    }
}

pub open spec fn patched_opt<T>(current: Option<T>, patch: Option<T>) -> Option<T> {
    match patch {
        Some(v) => Some(v),
        None => current,
    }
}

/// The event `e` with every field that `u` sets replaced; the id never changes.
pub open spec fn apply_update(e: Event, u: EventUpdate) -> Event {
    Event {
        event_id: e.event_id,
        event_name: patched(e.event_name, u.event_name),
        entity_name: patched(e.entity_name, u.entity_name),
        creator_wallet: patched(e.creator_wallet, u.creator_wallet),
        event_created_at: patched(e.event_created_at, u.event_created_at),
        event_txn_receipt_id: patched(e.event_txn_receipt_id, u.event_txn_receipt_id),
        launch_date_start: patched(e.launch_date_start, u.launch_date_start),
        end_date: patched(e.end_date, u.end_date),
        location: patched_opt(e.location, u.location),
        event_type: patched_opt(e.event_type, u.event_type),
        campaign_type: patched_opt(e.campaign_type, u.campaign_type),
        event_description: patched_opt(e.event_description, u.event_description),
        event_image: patched_opt(e.event_image, u.event_image),
    }
}

fn clone_opt(s: &Option<String>) -> (r: Option<String>)
    ensures
        r == *s,
{
    match s {
        Some(v) => Some(v.clone()),
        None => None,
    }
}

impl Clone for Event {
    fn clone(&self) -> (r: Self)
        ensures
            r == *self,
    {
        Event {
            event_id: self.event_id.clone(),
            event_name: self.event_name.clone(),
            entity_name: self.entity_name.clone(),
            creator_wallet: self.creator_wallet.clone(),
            event_created_at: self.event_created_at,
            event_txn_receipt_id: self.event_txn_receipt_id.clone(),
            launch_date_start: self.launch_date_start,
            end_date: self.end_date,
            location: clone_opt(&self.location),
            event_type: clone_opt(&self.event_type),
            campaign_type: clone_opt(&self.campaign_type),
            event_description: clone_opt(&self.event_description),
            event_image: clone_opt(&self.event_image),
        }
    }
}

fn take_patch<T>(current: T, patch: Option<T>) -> (r: T)
    ensures
        r == patched(current, patch),
{
    match patch {
        Some(v) => v,
        None => current,
    }
}

fn take_patch_opt<T>(current: Option<T>, patch: Option<T>) -> (r: Option<T>)
    ensures
        r == patched_opt(current, patch),
{
    match patch {
        Some(v) => Some(v),
        None => current,
    }
}

impl Event {
    /// Overwrites each field that `updates` sets and keeps the others.
    pub fn apply(self, updates: EventUpdate) -> (r: Event)
        ensures
            r == apply_update(self, updates),
    {
        Event {
            event_id: self.event_id,
            event_name: take_patch(self.event_name, updates.event_name),
            entity_name: take_patch(self.entity_name, updates.entity_name),
            creator_wallet: take_patch(self.creator_wallet, updates.creator_wallet),
            event_created_at: take_patch(self.event_created_at, updates.event_created_at),
            event_txn_receipt_id: take_patch(
                self.event_txn_receipt_id,
                updates.event_txn_receipt_id,
            ),
            launch_date_start: take_patch(self.launch_date_start, updates.launch_date_start),
            end_date: take_patch(self.end_date, updates.end_date),
            location: take_patch_opt(self.location, updates.location),
            event_type: take_patch_opt(self.event_type, updates.event_type),
            campaign_type: take_patch_opt(self.campaign_type, updates.campaign_type),
            event_description: take_patch_opt(self.event_description, updates.event_description),
            event_image: take_patch_opt(self.event_image, updates.event_image),
        }
    }
}

} // verus!
