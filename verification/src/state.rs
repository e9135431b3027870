//! State: tables of entries that expire, the denylist of revoked tokens, and
//! what is made of the files that hold passkeys, denylist and signing key.
use vstd::prelude::*;

use webauthn_rs::prelude::Passkey;

use crate::{outside, text};

verus! {

// --- tables -----------------------------------------------------------------

/// Something that ends at a known time.
pub trait Expires {
    spec fn expiry(&self) -> u64;

    fn expires(&self) -> (res: u64)
        ensures
            res == self.expiry(),
    ;
}

impl Expires for u64 {
    open spec fn expiry(&self) -> u64 {
        *self
    }

    fn expires(&self) -> (res: u64) {
        *self
    }
}

/// Entries under text keys, one for each key.
#[derive(Debug)]
pub struct Table<V> {
    entries: Vec<(String, V)>,
}

/// Entry `i` of a list stands under `key`.
pub open spec fn stands_under<V>(entries: Seq<(String, V)>, key: Seq<char>, i: int) -> bool {
    0 <= i < entries.len() && entries[i].0@ == key
}

/// The map that a list of entries with different keys is.
pub open spec fn map_of<V>(entries: Seq<(String, V)>) -> Map<Seq<char>, V> {
    Map::new(
        |key: Seq<char>| exists|i: int| stands_under(entries, key, i),
        |key: Seq<char>| entries[choose|i: int| stands_under(entries, key, i)].1,
    )
}

/// No two entries have the same key.
pub open spec fn keys_differ<V>(entries: Seq<(String, V)>) -> bool {
    forall|i: int, j: int|
        0 <= i < j < entries.len() ==> #[trigger] entries[i].0@ != #[trigger] entries[j].0@
}

/// The map that inserting a list of entries one after the other leaves: of
/// entries with the same key the last counts.
pub open spec fn inserted<V>(entries: Seq<(String, V)>) -> Map<Seq<char>, V>
    decreases entries.len(),
{
    if entries.len() == 0 {
        Map::empty()
    } else {
        inserted(entries.drop_last()).insert(entries.last().0@, entries.last().1)
    }
}

/// The entries that have not ended at `now`.
pub open spec fn unexpired<V: Expires>(m: Map<Seq<char>, V>, now: u64) -> Map<Seq<char>, V> {
    Map::new(
        |key: Seq<char>| m.dom().contains(key) && m[key].expiry() > now,
        |key: Seq<char>| m[key],
    )
}

impl<V> View for Table<V> {
    type V = Map<Seq<char>, V>;

    closed spec fn view(&self) -> Map<Seq<char>, V> {
        map_of(self.entries@)
    }
}

proof fn lemma_lookup<V>(entries: Seq<(String, V)>, i: int)
    requires
        keys_differ(entries),
        0 <= i < entries.len(),
    ensures
        map_of(entries).dom().contains(entries[i].0@),
        map_of(entries)[entries[i].0@] == entries[i].1,
{
    let key = entries[i].0@;
    assert(stands_under(entries, key, i));
    let j = choose|j: int| stands_under(entries, key, j);
    assert(stands_under(entries, key, j));
    assert(i == j) by {
        if i < j {
            assert(entries[i].0@ != entries[j].0@);
        }
        if j < i {
            assert(entries[j].0@ != entries[i].0@);
        }
    }
}

proof fn lemma_push<V>(entries: Seq<(String, V)>, e: (String, V))
    requires
        keys_differ(entries),
        forall|i: int| !stands_under(entries, e.0@, i),
    ensures
        keys_differ(entries.push(e)),
        map_of(entries.push(e)) == map_of(entries).insert(e.0@, e.1),
{
    let after = entries.push(e);
    assert(keys_differ(after)) by {
        assert forall|i: int, j: int| 0 <= i < j < after.len() implies #[trigger] after[i].0@
            != #[trigger] after[j].0@ by {
            assert(!stands_under(entries, e.0@, i));
        }
    }
    let a = map_of(after);
    let b = map_of(entries).insert(e.0@, e.1);
    lemma_lookup(after, entries.len() as int);
    assert forall|key: Seq<char>| a.dom().contains(key) <==> b.dom().contains(key) by {
        if a.dom().contains(key) {
            let i = choose|i: int| stands_under(after, key, i);
            assert(stands_under(after, key, i));
            if i < entries.len() {
                assert(stands_under(entries, key, i));
            }
        }
        if map_of(entries).dom().contains(key) {
            let i = choose|i: int| stands_under(entries, key, i);
            assert(stands_under(after, key, i));
        }
    }
    assert forall|key: Seq<char>| a.dom().contains(key) implies a[key] == b[key] by {
        let i = choose|i: int| stands_under(after, key, i);
        assert(stands_under(after, key, i));
        lemma_lookup(after, i);
        if i < entries.len() {
            lemma_lookup(entries, i);
            assert(!stands_under(entries, e.0@, i));
        }
    }
    assert(a =~= b);
}

proof fn lemma_remove<V>(entries: Seq<(String, V)>, at: int)
    requires
        keys_differ(entries),
        0 <= at < entries.len(),
    ensures
        keys_differ(entries.remove(at)),
        map_of(entries.remove(at)) == map_of(entries).remove(entries[at].0@),
{
    let after = entries.remove(at);
    let gone = entries[at].0@;
    assert forall|i: int| 0 <= i < after.len() implies #[trigger] after[i] == entries[if i < at {
        i
    } else {
        i + 1
    }] by {}
    assert(keys_differ(after)) by {
        assert forall|i: int, j: int| 0 <= i < j < after.len() implies #[trigger] after[i].0@
            != #[trigger] after[j].0@ by {
            let x = if i < at {
                i
            } else {
                i + 1
            };
            let y = if j < at {
                j
            } else {
                j + 1
            };
            assert(entries[x].0@ != entries[y].0@);
        }
    }
    let a = map_of(after);
    let b = map_of(entries).remove(gone);
    assert forall|key: Seq<char>| a.dom().contains(key) <==> b.dom().contains(key) by {
        if a.dom().contains(key) {
            let i = choose|i: int| stands_under(after, key, i);
            assert(stands_under(after, key, i));
            let x = if i < at {
                i
            } else {
                i + 1
            };
            assert(stands_under(entries, key, x));
            if x < at {
                assert(entries[x].0@ != entries[at].0@);
            } else {
                assert(entries[at].0@ != entries[x].0@);
            }
        }
        if b.dom().contains(key) {
            let x = choose|x: int| stands_under(entries, key, x);
            assert(stands_under(entries, key, x));
            assert(x != at);
            let i = if x < at {
                x
            } else {
                x - 1
            };
            assert(stands_under(after, key, i));
        }
    }
    assert forall|key: Seq<char>| a.dom().contains(key) implies a[key] == b[key] by {
        let i = choose|i: int| stands_under(after, key, i);
        assert(stands_under(after, key, i));
        lemma_lookup(after, i);
        lemma_lookup(
            entries,
            if i < at {
                i
            } else {
                i + 1
            },
        );
    }
    assert(a =~= b);
}

impl<V> Table<V> {
    /// Each key has one entry.
    pub closed spec fn wf(&self) -> bool {
        keys_differ(self.entries@)
    }

    pub fn new() -> (res: Table<V>)
        ensures
            res.wf(),
            res@ == Map::<Seq<char>, V>::empty(),
    {
        let res = Table { entries: Vec::new() };
        assert(res@ =~= Map::<Seq<char>, V>::empty()) by {
            assert forall|key: Seq<char>| !res@.dom().contains(key) by {
                assert(forall|i: int| !stands_under(res.entries@, key, i));
            }
        }
        res
    }

    fn place(&self, key: &str) -> (res: Option<usize>)
        ensures
            match res {
                Some(i) => stands_under(self.entries@, key@, i as int),
                None => forall|i: int| !stands_under(self.entries@, key@, i),
            },
    {
        let mut i: usize = 0;
        while i < self.entries.len()
            invariant
                i <= self.entries@.len(),
                forall|j: int| 0 <= j < i ==> !stands_under(self.entries@, key@, j),
            decreases self.entries@.len() - i,
        {
            if text::same(self.entries[i].0.as_str(), key) {
                return Some(i);
            }
            i = i + 1;
        }
        None
    }

    pub fn contains_key(&self, key: &str) -> (res: bool)
        requires
            self.wf(),
        ensures
            res == self@.dom().contains(key@),
    {
        match self.place(key) {
            Some(i) => {
                proof {
                    lemma_lookup(self.entries@, i as int);
                }
                true
            },
            None => false,
        }
    }

    pub fn get(&self, key: &str) -> (res: Option<&V>)
        requires
            self.wf(),
        ensures
            match res {
                Some(v) => self@.dom().contains(key@) && *v == self@[key@],
                None => !self@.dom().contains(key@),
            },
    {
        match self.place(key) {
            Some(i) => {
                proof {
                    lemma_lookup(self.entries@, i as int);
                }
                Some(&self.entries[i].1)
            },
            None => None,
        }
    }

    /// Takes the entry under a key out.
    pub fn remove(&mut self, key: &str) -> (res: Option<V>)
        requires
            old(self).wf(),
        ensures
            final(self).wf(),
            final(self)@ == old(self)@.remove(key@),
            match res {
                Some(v) => old(self)@.dom().contains(key@) && v == old(self)@[key@],
                None => !old(self)@.dom().contains(key@),
            },
    {
        match self.place(key) {
            Some(i) => {
                proof {
                    lemma_lookup(self.entries@, i as int);
                    lemma_remove(self.entries@, i as int);
                }
                let e = self.entries.remove(i);
                Some(e.1)
            },
            None => {
                assert(self@.remove(key@) =~= self@);
                None
            },
        }
    }

    /// Puts an entry under a key, in place of one that stands there.
    pub fn insert(&mut self, key: String, value: V)
        requires
            old(self).wf(),
        ensures
            final(self).wf(),
            final(self)@ == old(self)@.insert(key@, value),
    {
        let ghost before = self@;
        let _ = self.remove(key.as_str());
        proof {
            assert forall|i: int| !stands_under(self.entries@, key@, i) by {
                if stands_under(self.entries@, key@, i) {
                    lemma_lookup(self.entries@, i);
                }
            }
            lemma_push(self.entries@, (key, value));
            assert(before.remove(key@).insert(key@, value) =~= before.insert(key@, value));
        }
        self.entries.push((key, value));
    }

    /// The table that inserting entries one after the other leaves.
    pub fn from_entries(entries: Vec<(String, V)>) -> (res: Table<V>)
        ensures
            res.wf(),
            res@ == inserted(entries@),
    {
        let mut res: Table<V> = Table::new();
        let ghost all = entries@;
        let mut rest = entries;
        // Taken from the front: of two entries with one key the later stays.
        while rest.len() > 0
            invariant
                res.wf(),
                rest@.len() <= all.len(),
                rest@ == all.skip(all.len() - rest@.len()),
                res@ == inserted(all.take(all.len() - rest@.len())),
            decreases rest@.len(),
        {
            let ghost done = all.len() - rest@.len();
            assert(all.take(done + 1).drop_last() =~= all.take(done));
            assert(all.take(done + 1).last() == rest@[0]);
            let e = rest.remove(0);
            assert(rest@ =~= all.skip(done + 1));
            res.insert(e.0, e.1);
        }
        assert(all.take(all.len() as int) =~= all);
        res
    }

    /// The entries, in no particular order.
    pub fn entries(&self) -> (res: &Vec<(String, V)>)
        requires
            self.wf(),
        ensures
            map_of(res@) == self@,
            keys_differ(res@),
    {
        &self.entries
    }
}

impl<V: Expires> Table<V> {
    /// Drops the entries that have ended at `now`, and says whether there
    /// were any.
    pub fn expire(&mut self, now: u64) -> (res: bool)
        requires
            old(self).wf(),
        ensures
            final(self).wf(),
            final(self)@ == unexpired(old(self)@, now),
            res == exists|key: Seq<char>| #[trigger]
                old(self)@.dom().contains(key) && old(self)@[key].expiry() <= now,
    {
        let mut i: usize = 0;
        let mut dropped = false;
        let ghost before = self@;
        while i < self.entries.len()
            invariant
                self.wf(),
                i <= self.entries@.len(),
                forall|j: int| 0 <= j < i ==> (#[trigger] self.entries@[j]).1.expiry() > now,
                unexpired(self@, now) == unexpired(before, now),
                forall|key: Seq<char>| #[trigger] self@.dom().contains(key) ==> before.dom().contains(key) && self@[key] == before[key],
                dropped == exists|key: Seq<char>| #[trigger]
                    before.dom().contains(key) && !self@.dom().contains(key),
                forall|key: Seq<char>| #[trigger]
                    before.dom().contains(key) && !self@.dom().contains(key)
                        ==> before[key].expiry() <= now,
            decreases self.entries@.len() - i,
        {
            let ghost here = self@;
            proof {
                lemma_lookup(self.entries@, i as int);
            }
            if self.entries[i].1.expires() <= now {
                let ghost key = self.entries@[i as int].0@;
                proof {
                    lemma_remove(self.entries@, i as int);
                    assert(before.dom().contains(key));
                }
                let _ = self.entries.remove(i);
                proof {
                    assert(self@ == here.remove(key));
                    assert(unexpired(self@, now) =~= unexpired(here, now));
                    assert(before.dom().contains(key) && !self@.dom().contains(key));
                }
                dropped = true;
            } else {
                i = i + 1;
            }
        }
        proof {
            assert forall|key: Seq<char>| #[trigger] self@.dom().contains(key) implies self@[key].expiry() > now by {
                let j = choose|j: int| stands_under(self.entries@, key, j);
                assert(stands_under(self.entries@, key, j));
                lemma_lookup(self.entries@, j);
            }
            assert(unexpired(self@, now) =~= self@);
            assert forall|key: Seq<char>| #[trigger]
                before.dom().contains(key) && before[key].expiry() <= now implies !self@.dom().contains(key) by {}
        }
        dropped
    }
}

// --- denylist ---------------------------------------------------------------

/// The tokens that were logged out: under the identifier of each, the second
/// it ends in, after which it need not be remembered.
pub type Revoked = Table<u64>;

/// The denylist that the bytes of a file hold, if it could be read: none, where
/// it could not or the bytes are no denylist.
pub open spec fn denylist_in(read: Option<Seq<u8>>) -> Map<Seq<char>, u64> {
    match read {
        Some(b) => match outside::revoked_in(b) {
            Some(m) => m,
            None => Map::empty(),
        },
        None => Map::empty(),
    }
}

/// The bytes of an optional vector.
pub open spec fn bytes_of(o: Option<Vec<u8>>) -> Option<Seq<u8>> {
    match o {
        Some(b) => Some(b@),
        None => None,
    }
}

/// The denylist that pairs make up, where there are any.
pub fn denylist_of(parsed: Option<Vec<(String, u64)>>) -> (res: Revoked)
    ensures
        res.wf(),
        res@ == match parsed {
            Some(entries) => inserted(entries@),
            None => Map::empty(),
        },
{
    match parsed {
        Some(entries) => Table::from_entries(entries),
        None => Table::new(),
    }
}

/// The denylist that a file holds, given its bytes, if it could be read.
pub fn load_revoked(read: Option<Vec<u8>>) -> (res: Revoked)
    ensures
        res.wf(),
        res@ == denylist_in(bytes_of(read)),
{
    match read {
        Some(b) => denylist_of(outside::parse_revoked(b.as_slice())),
        None => denylist_of(None),
    }
}

/// What the file of the denylist is to hold: bytes that are read back as the
/// denylist.
pub fn save_revoked(revoked: &Revoked) -> (res: Vec<u8>)
    requires
        revoked.wf(),
    ensures
        outside::revoked_in(res@) == Some(revoked@),
{
    let entries = revoked.entries();
    proof {
        loading_undoes_saving(entries@);
    }
    outside::revoked_to_json(entries)
}

// --- passkeys ---------------------------------------------------------------

/// The passkeys that the bytes of a file hold, if it could be read: none,
/// where it could not or the bytes are no passkeys.
pub open spec fn passkeys_held(read: Option<Seq<u8>>) -> Seq<Passkey> {
    match read {
        Some(b) => match outside::passkeys_in(b) {
            Some(list) => list,
            None => Seq::empty(),
        },
        None => Seq::empty(),
    }
}

/// The list, or an empty one where there is none.
pub fn list_or_empty<P>(parsed: Option<Vec<P>>) -> (res: Vec<P>)
    ensures
        res@ == match parsed {
            Some(list) => list@,
            None => Seq::empty(),
        },
{
    match parsed {
        Some(list) => list,
        None => Vec::new(),
    }
}

/// The passkeys that a file holds, given its bytes, if it could be read.
pub fn load_passkeys(read: Option<Vec<u8>>) -> (res: Vec<Passkey>)
    ensures
        res@ == passkeys_held(bytes_of(read)),
{
    match read {
        Some(b) => list_or_empty(outside::parse_passkeys(b.as_slice())),
        None => list_or_empty(None),
    }
}

/// How many passkeys a file holds, given whether it is there and its bytes, if
/// it could be read: none where it is not there, and no number where it is
/// and holds no passkeys.
pub fn count_passkeys(there: bool, read: Option<Vec<u8>>) -> (res: Option<u64>)
    ensures
        match res {
            Some(n) => n == if there {
                passkeys_held(bytes_of(read)).len()
            } else {
                0
            },
            None => true,
        },
        res is None <==> there && (read matches Some(b) ==> outside::passkeys_in(b@) is None),
{
    if !there {
        return Some(0);
    }
    match read {
        Some(b) => match outside::parse_passkeys(b.as_slice()) {
            Some(list) => Some(list.len() as u64),
            None => None,
        },
        None => None,
    }
}

/// What the file of the passkeys is to hold: bytes that are read back as the
/// passkeys.
pub fn save_passkeys(passkeys: &Vec<Passkey>) -> (res: Result<Vec<u8>, String>)
    ensures
        match res {
            Ok(b) => outside::passkeys_json(passkeys@) == Ok::<Seq<u8>, Seq<char>>(b@)
                && outside::passkeys_in(b@) == Some(passkeys@),
            Err(e) => outside::passkeys_json(passkeys@) == Err::<Seq<u8>, Seq<char>>(e@),
        },
{
    outside::passkeys_to_json(passkeys)
}

// --- signing key ------------------------------------------------------------

/// The length of a signing key, in bytes.
pub const KEY_LEN: usize = 32;

/// What is done about the signing key once its file has been read.
#[derive(Debug)]
pub enum KeyPlan {
    /// Sign with this key.
    Use(Vec<u8>),
    /// Make a new key and write it, after this warning, if there is one.
    Generate(Option<String>),
}

/// The key that a file holds, given its bytes, if it could be read. A file of
/// another size holds none.
pub open spec fn key_in(read: Option<Seq<u8>>) -> Option<Seq<u8>> {
    match read {
        Some(b) => if b.len() == KEY_LEN {
            Some(b)
        } else {
            None
        },
        None => None,
    }
}

/// What is done about the signing key, given the bytes its file holds, if it
/// can be read. A file of another size than a key is replaced.
pub fn load_or_create_key(read: Option<Vec<u8>>, path: &str) -> (res: KeyPlan)
    ensures
        match key_in(bytes_of(read)) {
            Some(b) => res matches KeyPlan::Use(key) && key@ == b,
            None => res matches KeyPlan::Generate(warning) && text::text_of(warning) == match read {
                Some(_) => Some("warning: "@ + path@ + " has unexpected size; regenerating"@),
                None => None,
            },
        },
{
    match read {
        Some(bytes) => if bytes.len() == KEY_LEN {
            KeyPlan::Use(bytes)
        } else {
            KeyPlan::Generate(
                Some(
                    "warning: ".to_owned().concat(path).concat(
                        " has unexpected size; regenerating",
                    ),
                ),
            )
        },
        None => KeyPlan::Generate(None),
    }
}

/// The permissions of the file that holds the signing key: its owner's alone.
pub const KEY_PERMISSIONS: u32 = 0o600;

/// What is said once a new key has been written.
pub fn key_generated(path: &str) -> (res: String)
    ensures
        res@ == "generated new signing key at "@ + path@ + "\n"@,
{
    "generated new signing key at ".to_owned().concat(path).concat("\n")
}

/// The key that is signed with, `fresh` being the one that is made where the
/// file holds none.
pub open spec fn key_for(read: Option<Seq<u8>>, fresh: Seq<u8>) -> Seq<u8> {
    match key_in(read) {
        Some(key) => key,
        None => fresh,
    }
}

/// What the file holds afterwards: it is written only where it holds no key.
pub open spec fn key_file_after(read: Option<Seq<u8>>, fresh: Seq<u8>) -> Option<Seq<u8>> {
    if key_in(read) is Some {
        read
    } else {
        Some(fresh)
    }
}

// --- laws -------------------------------------------------------------------

/// A signing key has its length, a file that holds one is left as it is, and
/// whoever reads the file next signs with the same key.
pub proof fn keys_are_kept(read: Option<Seq<u8>>, fresh: Seq<u8>, later: Seq<u8>)
    requires
        fresh.len() == KEY_LEN,
    ensures
        key_for(read, fresh).len() == KEY_LEN,
        key_in(read) is Some ==> key_file_after(read, fresh) == read,
        key_file_after(read, fresh) == Some(key_for(read, fresh)),
        key_for(key_file_after(read, fresh), later) == key_for(read, fresh),
{
}

/// A denylist survives a restart: whoever loads the bytes that it was saved as
/// has the same denylist.
pub proof fn denylists_survive_a_restart(m: Map<Seq<char>, u64>, saved: Seq<u8>)
    requires
        outside::revoked_in(saved) == Some(m),
    ensures
        denylist_in(Some(saved)) == m,
{
}

/// Passkeys survive a restart: whoever loads the bytes that they were saved as
/// has the same passkeys.
pub proof fn passkeys_survive_a_restart(passkeys: Seq<Passkey>, saved: Seq<u8>)
    requires
        outside::passkeys_in(saved) == Some(passkeys),
    ensures
        passkeys_held(Some(saved)) == passkeys,
{
}

/// Dropping what has ended twice is dropping it once, at the later time.
pub proof fn expiring_twice<V: Expires>(m: Map<Seq<char>, V>, first: u64, second: u64)
    requires
        first <= second,
    ensures
        unexpired(unexpired(m, first), second) == unexpired(m, second),
{
    assert(unexpired(unexpired(m, first), second) =~= unexpired(m, second));
}

/// Loading the entries that a table was saved with gives the table back.
pub proof fn loading_undoes_saving<V>(entries: Seq<(String, V)>)
    requires
        keys_differ(entries),
    ensures
        inserted(entries) == map_of(entries),
    decreases entries.len(),
{
    if entries.len() == 0 {
        assert(map_of(entries) =~= Map::<Seq<char>, V>::empty()) by {
            assert forall|key: Seq<char>| !map_of(entries).dom().contains(key) by {
                assert(forall|i: int| !stands_under(entries, key, i));
            }
        }
    } else {
        let head = entries.drop_last();
        let e = entries.last();
        assert(head.push(e) =~= entries);
        assert(keys_differ(head)) by {
            assert forall|i: int, j: int| 0 <= i < j < head.len() implies #[trigger] head[i].0@
                != #[trigger] head[j].0@ by {
                assert(entries[i].0@ != entries[j].0@);
            }
        }
        loading_undoes_saving(head);
        assert forall|i: int| !stands_under(head, e.0@, i) by {
            if 0 <= i < head.len() {
                assert(entries[i].0@ != entries[entries.len() - 1].0@);
            }
        }
        lemma_push(head, e);
    }
}

} // verus!
