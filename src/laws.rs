//! Properties that relate several store operations, stated over the model
//! that the operations' contracts use.
use vstd::prelude::*;

use crate::keyed::lemma_filter_remove;
use crate::manager::{
    added, consistent, deleted, lookup, other_than, records_by_creator, stored_in, updated,
    StoreModel,
};
use crate::record::{apply_update, Event, EventUpdate};

verus! {

/// Once an administrator has added `e` under a new id, looking that id up
/// gives exactly `e`.
pub proof fn law_get_after_add(m: StoreModel, e: Event)
    requires
        !m.records.contains_key(e.event_id@),
    ensures
        lookup(added(m, e), e.event_id@) == Some(e),
{
}

/// Once `e` has been added, the events listed for its creator include `e`.
pub proof fn law_add_listed_for_creator(m: StoreModel, e: Event)
    requires
        !m.records.contains_key(e.event_id@),
    ensures
        records_by_creator(added(m, e), e.creator_wallet@).contains(e),
{
    let n = added(m, e);
    let c = e.creator_wallet@;
    let listed = n.owners[c];
    let before = if m.owners.contains_key(c) {
        m.owners[c]
    } else {
        Seq::empty()
    };
    assert(listed =~= before.push(e.event_id@));
    assert(listed.drop_last() =~= before);
    assert(stored_in(n)(e.event_id@) == Some(e));
    let r = listed.filter_map(stored_in(n));
    assert(r == before.filter_map(stored_in(n)) + seq![e]);
    assert(r[r.len() - 1] == e);
}

/// An update changes only the fields that it sets: afterwards the event under
/// `id` is the old event with those fields replaced, and every field that the
/// update leaves unset keeps its value.
pub proof fn law_update_keeps_unset_fields(m: StoreModel, id: Seq<char>, u: EventUpdate)
    requires
        m.records.contains_key(id),
    ensures
        ({
            let old_e = m.records[id];
            let new_e = apply_update(old_e, u);
            &&& lookup(updated(m, id, u), id) == Some(new_e)
            &&& new_e.event_id == old_e.event_id
            &&& u.event_name is None ==> new_e.event_name == old_e.event_name
            &&& u.entity_name is None ==> new_e.entity_name == old_e.entity_name
            &&& u.creator_wallet is None ==> new_e.creator_wallet == old_e.creator_wallet
            &&& u.event_created_at is None ==> new_e.event_created_at == old_e.event_created_at
            &&& u.event_txn_receipt_id is None ==> new_e.event_txn_receipt_id
                == old_e.event_txn_receipt_id
            &&& u.launch_date_start is None ==> new_e.launch_date_start
                == old_e.launch_date_start
            &&& u.end_date is None ==> new_e.end_date == old_e.end_date
            &&& u.location is None ==> new_e.location == old_e.location
            &&& u.event_type is None ==> new_e.event_type == old_e.event_type
            &&& u.campaign_type is None ==> new_e.campaign_type == old_e.campaign_type
            &&& u.event_description is None ==> new_e.event_description
                == old_e.event_description
            &&& u.event_image is None ==> new_e.event_image == old_e.event_image
        }),
{
}

/// Deleting a stored event removes its id from the roster and from lookups,
/// and the roster becomes exactly one shorter.
pub proof fn law_delete_removes(m: StoreModel, id: Seq<char>)
    requires
        consistent(m),
        m.records.contains_key(id),
    ensures
        !deleted(m, id).roster.contains(id),
        lookup(deleted(m, id), id) is None,
        deleted(m, id).roster.len() == m.roster.len() - 1,
{
    let r = m.roster;
    assert(r.contains(id));
    let j = choose|j: int| 0 <= j < r.len() && r[j] == id;
    assert forall|i: int| 0 <= i < r.len() && i != j implies other_than(id)(#[trigger] r[i]) by {}
    lemma_filter_remove(r, other_than(id), j);
    let t = r.remove(j);
    assert forall|i: int| 0 <= i < t.len() implies #[trigger] t[i] != id by {
        if i < j {
            assert(t[i] == r[i]);
        } else {
            assert(t[i] == r[i + 1]);
        }
    }
}

} // verus!
