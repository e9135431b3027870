//! What tables promise.
use vstd::prelude::*;

use crate::state::{self, Expires};

verus! {

/// A list of entries makes up a table with their keys and no others.
pub proof fn tables_have_the_keys_of_their_entries<V>(entries: Seq<(String, V)>, key: Seq<char>)
    ensures
        state::inserted(entries).dom().contains(key) <==> exists|i: int|
            0 <= i < entries.len() && (#[trigger] entries[i]).0@ == key,
    decreases entries.len(),
{
    if entries.len() > 0 {
        let head = entries.drop_last();
        tables_have_the_keys_of_their_entries(head, key);
        if state::inserted(head).dom().contains(key) {
            let i = choose|i: int| 0 <= i < head.len() && (#[trigger] head[i]).0@ == key;
            assert(entries[i].0@ == key);
        }
        if entries.last().0@ == key {
            assert(entries[entries.len() - 1].0@ == key);
        }
        if exists|i: int| 0 <= i < entries.len() && (#[trigger] entries[i]).0@ == key {
            let i = choose|i: int| 0 <= i < entries.len() && (#[trigger] entries[i]).0@ == key;
            if i < head.len() {
                assert(head[i].0@ == key);
            }
        }
    }
}

/// Of entries with the same key the last counts.
pub proof fn the_last_entry_counts<V>(before: Seq<(String, V)>, e: (String, V), behind: Seq<(String, V)>)
    requires
        forall|i: int| 0 <= i < behind.len() ==> (#[trigger] behind[i]).0@ != e.0@,
    ensures
        state::inserted(before.push(e) + behind).dom().contains(e.0@),
        state::inserted(before.push(e) + behind)[e.0@] == e.1,
    decreases behind.len(),
{
    let all = before.push(e) + behind;
    if behind.len() == 0 {
        assert(all =~= before.push(e));
        assert(all.drop_last() =~= before);
    } else {
        the_last_entry_counts(before, e, behind.drop_last());
        assert(all.drop_last() =~= before.push(e) + behind.drop_last());
        assert(all.last() == behind[behind.len() - 1]);
    }
}

/// What has not ended stays as it is, and what ends at this second, or has
/// ended, is gone.
pub proof fn what_has_ended_is_gone<V: Expires>(m: Map<Seq<char>, V>, key: Seq<char>, now: u64)
    ensures
        m.dom().contains(key) && m[key].expiry() > now ==> state::unexpired(
            m,
            now,
        ).dom().contains(key) && state::unexpired(m, now)[key] == m[key],
        m.dom().contains(key) && m[key].expiry() <= now ==> !state::unexpired(
            m,
            now,
        ).dom().contains(key),
        !m.dom().contains(key) ==> !state::unexpired(m, now).dom().contains(key),
{
}

/// A signing key is used from its file where it is one, and else made; a file
/// that holds one is never written.
pub proof fn keys_are_made_where_there_are_none(key: Seq<u8>, fresh: Seq<u8>)
    ensures
        state::key_for(None, fresh) == fresh,
        key.len() == 32 ==> state::key_for(Some(key), fresh) == key,
        key.len() != 32 ==> state::key_for(Some(key), fresh) == fresh,
        state::key_file_after(None, fresh) == Some(fresh),
        key.len() == 32 ==> state::key_file_after(Some(key), fresh) == Some(key),
        key.len() != 32 ==> state::key_file_after(Some(key), fresh) == Some(fresh),
{
}

} // verus!
