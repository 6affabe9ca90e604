//! The event store: primary store, roster, creator index and administrators,
//! with the permission rules that guard each change.
use vstd::prelude::*;

use crate::keyed::{
    has_key, keyed, keys_unique, lemma_filter_remove, lemma_keyed_at, lemma_keyed_push,
    lemma_keyed_remove, lemma_keyed_update,
};
use crate::record::{apply_update, Event, EventUpdate, EventUpdateResult, ManagerError};

verus! {

/// What a store holds, as mathematical values.
pub struct StoreModel {
    /// Primary store: id to event.
    pub records: Map<Seq<char>, Event>,
    /// Live ids, in the order in which they were added.
    pub roster: Seq<Seq<char>>,
    /// Creator to the ids added with that creator, in order of addition.
    /// Neither deletion nor a change of creator edits this index.
    pub owners: Map<Seq<char>, Seq<Seq<char>>>,
    /// Accounts that may do anything; fixed when the store is made.
    pub admins: Set<Seq<char>>,
}

pub open spec fn ids_view(v: Seq<String>) -> Seq<Seq<char>> {
    v.map_values(|s: String| s@)
}

/// Whether `caller` may change or delete an event created by `creator`.
pub open spec fn may_modify(m: StoreModel, caller: Seq<char>, creator: Seq<char>) -> bool {
    m.admins.contains(caller) || caller == creator
}

/// The creator index once `id` is recorded for `creator`.
pub open spec fn owners_with(
    owners: Map<Seq<char>, Seq<Seq<char>>>,
    creator: Seq<char>,
    id: Seq<char>,
) -> Map<Seq<char>, Seq<Seq<char>>> {
    if owners.contains_key(creator) {
        owners.insert(creator, owners[creator].push(id))
    } else {
        owners.insert(creator, seq![id])
    }
}

/// The store once `e` has been added.
pub open spec fn added(m: StoreModel, e: Event) -> StoreModel {
    StoreModel {
        records: m.records.insert(e.event_id@, e),
        roster: m.roster.push(e.event_id@),
        owners: owners_with(m.owners, e.creator_wallet@, e.event_id@),
        admins: m.admins,
    }
}

/// The store once the event stored under `id` has had `u` applied.
pub open spec fn updated(m: StoreModel, id: Seq<char>, u: EventUpdate) -> StoreModel {
    StoreModel {
        records: m.records.insert(id, apply_update(m.records[id], u)),
        roster: m.roster,
        owners: m.owners,
        admins: m.admins,
    }
}

pub open spec fn other_than(id: Seq<char>) -> spec_fn(Seq<char>) -> bool {
    |x: Seq<char>| x != id
}

/// The store once the event stored under `id` has been deleted. The creator
/// index keeps `id`.
pub open spec fn deleted(m: StoreModel, id: Seq<char>) -> StoreModel {
    StoreModel {
        records: m.records.remove(id),
        roster: m.roster.filter(other_than(id)),
        owners: m.owners,
        admins: m.admins,
    }
}

pub open spec fn lookup(m: StoreModel, id: Seq<char>) -> Option<Event> {
    if m.records.contains_key(id) {
        Some(m.records[id])
    } else {
        None
    }
}

pub open spec fn stored_in(m: StoreModel) -> spec_fn(Seq<char>) -> Option<Event> {
    |id: Seq<char>| lookup(m, id)
}

/// The stored events whose ids the creator index lists for `creator`, in
/// index order; ids that are no longer stored are skipped.
pub open spec fn records_by_creator(m: StoreModel, creator: Seq<char>) -> Seq<Event> {
    if m.owners.contains_key(creator) {
        m.owners[creator].filter_map(stored_in(m))
    } else {
        Seq::empty()
    }
}

pub open spec fn not_found_message() -> Seq<char> {
    "Event not found"@
}

/// Holds between the roster and the primary store of every store: the roster
/// lists each stored id once, and nothing else.
pub open spec fn consistent(m: StoreModel) -> bool {
    &&& m.roster.no_duplicates()
    &&& forall|k: Seq<char>| m.roster.contains(k) <==> #[trigger] m.records.contains_key(k)
    &&& m.records.dom().finite()
    &&& m.roster.len() == m.records.len()
}

struct CreatorEvents {
    creator: String,
    ids: Vec<String>,
}

spec fn event_key() -> spec_fn(Event) -> Seq<char> {
    |e: Event| e.event_id@
}

spec fn creator_key() -> spec_fn(CreatorEvents) -> Seq<char> {
    |c: CreatorEvents| c.creator@
}

pub struct EventManager {
    events: Vec<Event>,
    event_ids: Vec<String>,
    events_by_creator: Vec<CreatorEvents>,
    admins: Vec<String>,
}

impl View for EventManager {
    type V = StoreModel;

    closed spec fn view(&self) -> StoreModel {
        let index = keyed(self.events_by_creator@, creator_key());
        StoreModel {
            records: keyed(self.events@, event_key()),
            roster: ids_view(self.event_ids@),
            owners: Map::new(
                |k: Seq<char>| index.contains_key(k),
                |k: Seq<char>| ids_view(index[k].ids@),
            ),
            admins: ids_view(self.admins@).to_set(),
        }
    }
}

impl EventManager {
    /// The store's internal invariant: ids and creators are unique, and the
    /// roster lists the stored ids in store order.
    pub closed spec fn wf(&self) -> bool {
        &&& keys_unique(self.events@, event_key())
        &&& keys_unique(self.events_by_creator@, creator_key())
        &&& self.event_ids@.len() == self.events@.len()
        &&& forall|i: int|
            0 <= i < self.events@.len() ==> #[trigger] self.event_ids@[i]@
                == self.events@[i].event_id@
    }

    pub proof fn lemma_consistent(&self)
        requires
            self.wf(),
        ensures
            consistent(self@),
    {
        let r = self@.roster;
        assert forall|a: int, b: int| 0 <= a < r.len() && 0 <= b < r.len() && a != b implies r[a]
            != r[b] by {
            assert(r[a] == self.event_ids@[a]@);
            assert(r[b] == self.event_ids@[b]@);
            assert(event_key()(self.events@[a]) == self.events@[a].event_id@);
            assert(event_key()(self.events@[b]) == self.events@[b].event_id@);
        }
        assert forall|k: Seq<char>| r.contains(k) <==> #[trigger] self@.records.contains_key(k) by {
            if r.contains(k) {
                let i = choose|i: int| 0 <= i < r.len() && r[i] == k;
                assert(r[i] == self.event_ids@[i]@);
                lemma_keyed_at(self.events@, event_key(), i);
            }
            if self@.records.contains_key(k) {
                let i = choose|i: int|
                    0 <= i < self.events@.len() && #[trigger] event_key()(self.events@[i]) == k;
                assert(r[i] == self.event_ids@[i]@);
            }
        }
        assert(self@.records.dom() =~= r.to_set());
        r.unique_seq_to_set();
    }

    /// A store with no events, administered by the accounts in `admins_list`.
    pub fn new(admins_list: Vec<String>) -> (r: Self)
        ensures
            r.wf(),
            r@.records == Map::<Seq<char>, Event>::empty(),
            r@.roster == Seq::<Seq<char>>::empty(),
            r@.owners == Map::<Seq<char>, Seq<Seq<char>>>::empty(),
            r@.admins == ids_view(admins_list@).to_set(),
    {
        let r = EventManager {
            events: Vec::new(),
            event_ids: Vec::new(),
            events_by_creator: Vec::new(),
            admins: admins_list,
        };
        assert(r@.records =~= Map::<Seq<char>, Event>::empty());
        assert(r@.roster =~= Seq::<Seq<char>>::empty());
        assert(r@.owners =~= Map::<Seq<char>, Seq<Seq<char>>>::empty());
        r
    }

    fn is_admin(&self, account_id: &String) -> (r: bool)
        ensures
            r == self@.admins.contains(account_id@),
    {
        let mut i: usize = 0;
        while i < self.admins.len()
            invariant
                i <= self.admins@.len(),
                forall|k: int| 0 <= k < i ==> self.admins@[k]@ != account_id@,
            decreases self.admins@.len() - i,
        {
            if self.admins[i] == *account_id {
                assert(ids_view(self.admins@)[i as int] == account_id@);
                return true;
            }
            i += 1;
        }
        assert(!ids_view(self.admins@).contains(account_id@));
        false
    }

    fn require_admin(&self, caller: &String) -> (r: Result<(), ManagerError>)
        ensures
            r is Ok <==> self@.admins.contains(caller@),
            r is Err ==> r == Err::<(), ManagerError>(ManagerError::PermissionDenied),
    {
        if self.is_admin(caller) {
            Ok(())
        } else {
            Err(ManagerError::PermissionDenied)
        }
    }

    fn require_creator_or_admin(&self, caller: &String, creator_wallet: &String) -> (r: Result<
        (),
        ManagerError,
    >)
        ensures
            r is Ok <==> may_modify(self@, caller@, creator_wallet@),
            r is Err ==> r == Err::<(), ManagerError>(ManagerError::PermissionDenied),
    {
        if self.is_admin(caller) || *caller == *creator_wallet {
            Ok(())
        } else {
            Err(ManagerError::PermissionDenied)
        }
    }

    fn find_event(&self, event_id: &String) -> (r: Option<usize>)
        ensures
            match r {
                Some(j) => j < self.events@.len() && self.events@[j as int].event_id@
                    == event_id@,
                None => !self@.records.contains_key(event_id@),
            },
    {
        let mut i: usize = 0;
        while i < self.events.len()
            invariant
                i <= self.events@.len(),
                forall|k: int| 0 <= k < i ==> self.events@[k].event_id@ != event_id@,
            decreases self.events@.len() - i,
        {
            if self.events[i].event_id == *event_id {
                return Some(i);
            }
            i += 1;
        }
        assert(!has_key(self.events@, event_key(), event_id@));
        None
    }

    fn find_creator(&self, creator_wallet: &String) -> (r: Option<usize>)
        ensures
            match r {
                Some(j) => j < self.events_by_creator@.len()
                    && self.events_by_creator@[j as int].creator@ == creator_wallet@,
                None => !self@.owners.contains_key(creator_wallet@),
            },
    {
        let mut i: usize = 0;
        while i < self.events_by_creator.len()
            invariant
                i <= self.events_by_creator@.len(),
                forall|k: int|
                    0 <= k < i ==> self.events_by_creator@[k].creator@ != creator_wallet@,
            decreases self.events_by_creator@.len() - i,
        {
            if self.events_by_creator[i].creator == *creator_wallet {
                return Some(i);
            }
            i += 1;
        }
        assert(!has_key(self.events_by_creator@, creator_key(), creator_wallet@));
        None
    }

    /// Adds `event`. Only an administrator may add, and the id must be new;
    /// the event is then stored, its id appended to the roster and to its
    /// creator's entry in the creator index.
    pub fn add_event(&mut self, caller: &String, event: Event) -> (r: Result<(), ManagerError>)
        requires
            old(self).wf(),
        ensures
            final(self).wf(),
            match r {
                Ok(()) => old(self)@.admins.contains(caller@) && !old(
                    self,
                )@.records.contains_key(event.event_id@) && final(self)@ == added(
                    old(self)@,
                    event,
                ),
                Err(ManagerError::PermissionDenied) => !old(self)@.admins.contains(caller@)
                    && final(self)@ == old(self)@,
                Err(ManagerError::DuplicateId) => old(self)@.admins.contains(caller@) && old(
                    self,
                )@.records.contains_key(event.event_id@) && final(self)@ == old(self)@,
            },
    {
        match self.require_admin(caller) {
            Ok(()) => {},
            Err(e) => {
                return Err(e);
            },
        }
        if let Some(j) = self.find_event(&event.event_id) {
            proof {
                lemma_keyed_at(self.events@, event_key(), j as int);
            }
            return Err(ManagerError::DuplicateId);
        }
        let ghost before = *self;
        let ghost old_index = keyed(self.events_by_creator@, creator_key());
        match self.find_creator(&event.creator_wallet) {
            Some(j) => {
                let ghost entry = self.events_by_creator@[j as int];
                self.events_by_creator[j].ids.push(event.event_id.clone());
                proof {
                    let new_entry = self.events_by_creator@[j as int];
                    assert(self.events_by_creator@ == before.events_by_creator@.update(
                        j as int,
                        new_entry,
                    ));
                    lemma_keyed_update(before.events_by_creator@, creator_key(), j as int, new_entry);
                    lemma_keyed_at(before.events_by_creator@, creator_key(), j as int);
                    assert(ids_view(new_entry.ids@) =~= ids_view(entry.ids@).push(event.event_id@));
                }
            },
            None => {
                let mut ids: Vec<String> = Vec::new();
                ids.push(event.event_id.clone());
                let entry = CreatorEvents { creator: event.creator_wallet.clone(), ids };
                proof {
                    assert(!old_index.contains_key(creator_key()(entry)));
                    lemma_keyed_push(before.events_by_creator@, creator_key(), entry);
                    assert(ids_view(entry.ids@) =~= seq![event.event_id@]);
                }
                self.events_by_creator.push(entry);
            },
        }
        proof {
            let m = owners_with(before@.owners, event.creator_wallet@, event.event_id@);
            assert(self@.owners =~= m);
            lemma_keyed_push(before.events@, event_key(), event);
        }
        self.event_ids.push(event.event_id.clone());
        self.events.push(event);
        assert(self@.roster =~= before@.roster.push(event.event_id@));
        assert(self@.admins =~= before@.admins);
        Ok(())
    }

    /// The event stored under `event_id`, if any.
    pub fn get_event(&self, event_id: String) -> (r: Option<Event>)
        requires
            self.wf(),
        ensures
            r == lookup(self@, event_id@),
    {
        match self.find_event(&event_id) {
            Some(j) => {
                proof {
                    lemma_keyed_at(self.events@, event_key(), j as int);
                }
                Some(self.events[j].clone())
            },
            None => None,
        }
    }

    /// The roster: every stored id, in order of addition.
    pub fn list_event_ids(&self) -> (r: Vec<String>)
        ensures
            ids_view(r@) == self@.roster,
    {
        let mut r: Vec<String> = Vec::new();
        let mut i: usize = 0;
        while i < self.event_ids.len()
            invariant
                i <= self.event_ids@.len(),
                r@.len() == i,
                ids_view(r@) == ids_view(self.event_ids@).take(i as int),
            decreases self.event_ids@.len() - i,
        {
            let ghost prev = r@;
            r.push(self.event_ids[i].clone());
            assert forall|k: int| 0 <= k < i + 1 implies #[trigger] ids_view(r@)[k] == ids_view(
                self.event_ids@,
            )[k] by {
                if k < i {
                    assert(r@[k] == prev[k]);
                    assert(ids_view(prev)[k] == ids_view(self.event_ids@).take(i as int)[k]);
                }
            }
            assert(ids_view(r@) =~= ids_view(self.event_ids@).take(i + 1));
            i += 1;
        }
        assert(ids_view(self.event_ids@).take(i as int) =~= ids_view(self.event_ids@));
        r
    }

    /// The stored events listed for `creator_wallet` in the creator index, in
    /// order of addition. Ids whose events have since been deleted are
    /// skipped, and an account with no entry gets an empty result.
    pub fn get_events_by_creator(&self, creator_wallet: String) -> (r: Vec<Event>)
        requires
            self.wf(),
        ensures
            r@ == records_by_creator(self@, creator_wallet@),
    {
        let mut r: Vec<Event> = Vec::new();
        match self.find_creator(&creator_wallet) {
            None => {
                assert(r@ =~= records_by_creator(self@, creator_wallet@));
            },
            Some(j) => {
                let ids = &self.events_by_creator[j].ids;
                let ghost listed = ids_view(ids@);
                proof {
                    lemma_keyed_at(self.events_by_creator@, creator_key(), j as int);
                    assert(self@.owners[creator_wallet@] == listed);
                }
                let mut i: usize = 0;
                while i < ids.len()
                    invariant
                        i <= ids@.len(),
                        listed == ids_view(ids@),
                        self.wf(),
                        r@ == listed.take(i as int).filter_map(stored_in(self@)),
                    decreases ids@.len() - i,
                {
                    let ghost prev = r@;
                    assert(listed.take(i + 1).drop_last() =~= listed.take(i as int));
                    match self.find_event(&ids[i]) {
                        Some(k) => {
                            proof {
                                lemma_keyed_at(self.events@, event_key(), k as int);
                            }
                            r.push(self.events[k].clone());
                            assert(r@ =~= prev + seq![self@.records[listed[i as int]]]);
                        },
                        None => {},
                    }
                    i += 1;
                }
                assert(listed.take(i as int) =~= listed);
            },
        }
        r
    }

    /// Rewrites the roster without `event_id`, keeping the order of the rest.
    fn remove_event_id(&mut self, event_id: &String)
        ensures
            ids_view(final(self).event_ids@) == ids_view(old(self).event_ids@).filter(
                other_than(event_id@),
            ),
            final(self).events == old(self).events,
            final(self).events_by_creator == old(self).events_by_creator,
            final(self).admins == old(self).admins,
    {
        let ghost all = ids_view(self.event_ids@);
        let mut kept: Vec<String> = Vec::new();
        let mut i: usize = 0;
        while i < self.event_ids.len()
            invariant
                i <= self.event_ids@.len(),
                all == ids_view(self.event_ids@),
                ids_view(kept@) == all.take(i as int).filter(other_than(event_id@)),
            decreases self.event_ids@.len() - i,
        {
            proof {
                assert(all.take(i + 1) =~= all.take(i as int).push(all[i as int]));
                all.take(i as int).lemma_filter_push(all[i as int], other_than(event_id@));
            }
            if !(self.event_ids[i] == *event_id) {
                let ghost prev = kept@;
                kept.push(self.event_ids[i].clone());
                assert(ids_view(kept@) =~= ids_view(prev).push(all[i as int]));
            }
            i += 1;
        }
        assert(all.take(i as int) =~= all);
        self.event_ids = kept;
    }

    /// Applies `updates` to the event stored under `event_id`. An unknown id
    /// is reported in the result; a caller who is neither an administrator
    /// nor the event's creator is refused. The creator index is not edited,
    /// also where `updates` changes the creator.
    pub fn update_event(&mut self, caller: &String, event_id: String, updates: EventUpdate) -> (r:
        Result<EventUpdateResult, ManagerError>)
        requires
            old(self).wf(),
        ensures
            final(self).wf(),
            match r {
                Ok(EventUpdateResult::Success) => old(self)@.records.contains_key(event_id@)
                    && may_modify(
                    old(self)@,
                    caller@,
                    old(self)@.records[event_id@].creator_wallet@,
                ) && final(self)@ == updated(old(self)@, event_id@, updates),
                Ok(EventUpdateResult::Error(msg)) => !old(self)@.records.contains_key(event_id@)
                    && msg@ == not_found_message() && final(self)@ == old(self)@,
                Err(e) => e == ManagerError::PermissionDenied && old(self)@.records.contains_key(
                    event_id@,
                ) && !may_modify(
                    old(self)@,
                    caller@,
                    old(self)@.records[event_id@].creator_wallet@,
                ) && final(self)@ == old(self)@,
            },
    {
        match self.find_event(&event_id) {
            None => Ok(EventUpdateResult::Error(String::from_str("Event not found"))),
            Some(j) => {
                proof {
                    lemma_keyed_at(self.events@, event_key(), j as int);
                }
                match self.require_creator_or_admin(caller, &self.events[j].creator_wallet) {
                    Ok(()) => {},
                    Err(e) => {
                        return Err(e);
                    },
                }
                let ghost before = *self;
                let event = self.events[j].clone().apply(updates);
                self.events[j] = event;
                proof {
                    assert(self.events@ == before.events@.update(j as int, event));
                    lemma_keyed_update(before.events@, event_key(), j as int, event);
                    assert(self@.records =~= updated(before@, event_id@, updates).records);
                    assert(self@.owners =~= before@.owners);
                }
                Ok(EventUpdateResult::Success)
            },
        }
    }

    /// Deletes the event stored under `event_id` and drops its id from the
    /// roster. An unknown id is reported in the result; a caller who is
    /// neither an administrator nor the event's creator is refused. The
    /// creator index keeps the id.
    pub fn delete_event(&mut self, caller: &String, event_id: String) -> (r: Result<
        EventUpdateResult,
        ManagerError,
    >)
        requires
            old(self).wf(),
        ensures
            final(self).wf(),
            match r {
                Ok(EventUpdateResult::Success) => old(self)@.records.contains_key(event_id@)
                    && may_modify(
                    old(self)@,
                    caller@,
                    old(self)@.records[event_id@].creator_wallet@,
                ) && final(self)@ == deleted(old(self)@, event_id@),
                Ok(EventUpdateResult::Error(msg)) => !old(self)@.records.contains_key(event_id@)
                    && msg@ == not_found_message() && final(self)@ == old(self)@,
                Err(e) => e == ManagerError::PermissionDenied && old(self)@.records.contains_key(
                    event_id@,
                ) && !may_modify(
                    old(self)@,
                    caller@,
                    old(self)@.records[event_id@].creator_wallet@,
                ) && final(self)@ == old(self)@,
            },
    {
        match self.find_event(&event_id) {
            None => Ok(EventUpdateResult::Error(String::from_str("Event not found"))),
            Some(j) => {
                proof {
                    lemma_keyed_at(self.events@, event_key(), j as int);
                }
                match self.require_creator_or_admin(caller, &self.events[j].creator_wallet) {
                    Ok(()) => {},
                    Err(e) => {
                        return Err(e);
                    },
                }
                let ghost before = *self;
                proof {
                    let all = before@.roster;
                    assert forall|i: int| 0 <= i < all.len() && i != j implies other_than(
                        event_id@,
                    )(#[trigger] all[i]) by {
                        assert(all[i] == before.event_ids@[i]@);
                        assert(event_key()(before.events@[i]) == before.events@[i].event_id@);
                        assert(event_key()(before.events@[j as int])
                            == before.events@[j as int].event_id@);
                    }
                    assert(all[j as int] == before.event_ids@[j as int]@);
                    lemma_filter_remove(all, other_than(event_id@), j as int);
                    lemma_keyed_remove(before.events@, event_key(), j as int);
                }
                self.events.remove(j);
                self.remove_event_id(&event_id);
                proof {
                    let all = before@.roster;
                    assert(ids_view(self.event_ids@) == all.remove(j as int));
                    assert forall|i: int| 0 <= i < self.events@.len() implies #[trigger] self.event_ids@[i]@
                        == self.events@[i].event_id@ by {
                        assert(ids_view(self.event_ids@)[i] == self.event_ids@[i]@);
                        if i < j {
                            assert(all[i] == before.event_ids@[i]@);
                        } else {
                            assert(all[i + 1] == before.event_ids@[i + 1]@);
                        }
                    }
                    assert(self@.records =~= deleted(before@, event_id@).records);
                    assert(self@.owners =~= before@.owners);
                }
                Ok(EventUpdateResult::Success)
            },
        }
    }
}

} // verus!
