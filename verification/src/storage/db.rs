//! The keyspace: names mapped to typed values, with the deadline each key
//! was first stored with, and the events that mutations publish.

use super::{pairs_view, DBError, DBEvent, DBEventView, DBFault};
use crate::clock::Timestamp;
use crate::text::texts;
use std::collections::VecDeque;
use vstd::hash_map::StringHashMap;
use vstd::prelude::*;
use vstd::string::*;

verus! {

/// What a key holds.
#[derive(Debug)]
pub enum Value {
    String(String),
    List(VecDeque<String>),
}

/// The mathematical value of a [`Value`].
pub enum ValueView {
    String(Seq<char>),
    List(Seq<Seq<char>>),
}

impl View for Value {
    type V = ValueView;

    open spec fn view(&self) -> ValueView {
        match self {
            Value::String(s) => ValueView::String(s@),
            Value::List(l) => ValueView::List(texts(l@)),
        }
    }
}

/// Copies a list of strings.
pub fn clone_list(list: &VecDeque<String>) -> (res: VecDeque<String>)
    ensures
        texts(res@) == texts(list@),
{
    let mut out: VecDeque<String> = VecDeque::new();
    let mut i: usize = 0;
    while i < list.len()
        invariant
            i <= list.len(),
            out@.len() == i,
            forall|j: int| 0 <= j < i ==> out@[j]@ == list@[j]@,
        decreases list.len() - i,
    {
        out.push_back(list[i].clone());
        i += 1;
    }
    assert(texts(out@) =~= texts(list@));
    out
}

impl Clone for Value {
    fn clone(&self) -> (res: Self)
        ensures
            res@ == self@,
    {
        match self {
            Value::String(s) => Value::String(s.clone()),
            Value::List(l) => Value::List(clone_list(l)),
        }
    }
}

/// A key of the store: its name, and the deadline after which it is no
/// longer to be seen. Two keys with the same name are the same key.
#[derive(Debug)]
pub struct Key {
    value: String,
    expiry: Option<Timestamp>,
}

impl Key {
    /// The name of the key.
    pub closed spec fn name(&self) -> Seq<char> {
        self.value@
    }

    /// The deadline of the key, in nanoseconds since the Unix epoch.
    pub closed spec fn deadline(&self) -> Option<int> {
        match self.expiry {
            Some(t) => Some(t@),
            None => None,
        }
    }

    /// A key with a name and, possibly, a deadline.
    pub fn new(value: String, expiry: Option<Timestamp>) -> (res: Key)
        ensures
            res.name() == value@,
            res.deadline() == deadline_of(expiry),
    {
        Key { value, expiry }
    }

    /// A key with a name and no deadline.
    pub fn from_name(value: &str) -> (res: Key)
        ensures
            res.name() == value@,
            res.deadline() is None,
    {
        Key { value: String::from_str(value), expiry: None }
    }

    /// The key's name.
    pub fn value(&self) -> (res: &String)
        ensures
            res@ == self.name(),
    {
        &self.value
    }

    /// The key's deadline.
    pub fn expiry(&self) -> (res: Option<Timestamp>)
        ensures
            deadline_of(res) == self.deadline(),
    {
        self.expiry
    }

    /// The key's name as text to show.
    pub fn message(&self) -> (res: String)
        ensures
            res@ == self.name(),
    {
        self.value.clone()
    }

    /// Whether two keys are the same key: whether their names are equal.
    pub fn same_as(&self, other: &Key) -> (res: bool)
        ensures
            res == (self.name() == other.name()),
    {
        crate::text::str_eq(self.value.as_str(), other.value.as_str())
    }
}

/// The deadline that an optional instant stands for.
pub open spec fn deadline_of(expiry: Option<Timestamp>) -> Option<int> {
    match expiry {
        Some(t) => Some(t@),
        None => None,
    }
}

/// What is stored against a key.
#[derive(Debug)]
pub struct Entry {
    value: Value,
}

impl View for Entry {
    type V = ValueView;

    closed spec fn view(&self) -> ValueView {
        self.value@
    }
}

impl Entry {
    /// An entry that holds the value.
    pub fn new(value: Value) -> (res: Entry)
        ensures
            res@ == value@,
    {
        Entry { value }
    }

    /// The value that the entry holds.
    pub fn value(&self) -> (res: &Value)
        ensures
            res@ == self@,
    {
        &self.value
    }
}


/// What the store holds against one name.
pub struct Slot {
    /// The deadline that the key was first stored with.
    pub expiry: Option<int>,
    /// The value.
    pub value: ValueView,
}

/// The store as a mathematical value: the entries by name, and the events
/// published and not yet taken, oldest first.
pub struct DBState {
    pub entries: Map<Seq<char>, Slot>,
    pub events: Seq<DBEventView>,
}

/// The outcome of deleting the first keys of a list, one after another.
pub struct BulkDel {
    /// The entries that are left.
    pub entries: Map<Seq<char>, Slot>,
    /// How many keys were there to delete.
    pub count: nat,
    /// The deleted keys that carried a deadline, in the order of deletion.
    pub expired: Seq<(int, Seq<char>)>,
}

/// Where an index given by a client points in a list of `len` items: a
/// negative index counts from the end and stops at the first item, any other
/// stops at the last.
pub open spec fn round_index(len: int, idx: int) -> int {
    if idx < 0 {
        if len + idx < 0 {
            0
        } else {
            len + idx
        }
    } else if idx >= len {
        len - 1
    } else {
        idx
    }
}

/// The half-open range of a list of `len` items that the inclusive range
/// from `start` to `stop` selects.
pub open spec fn round_range(len: int, start: int, stop: int) -> (int, int) {
    if stop < start || len <= 0 {
        (0, 0)
    } else {
        let first = round_index(len, start);
        let last = round_index(len, stop);
        if first <= last {
            (first, last + 1)
        } else {
            (0, 0)
        }
    }
}

impl DBState {
    /// The store with nothing in it.
    pub open spec fn empty() -> DBState {
        DBState { entries: Map::empty(), events: Seq::empty() }
    }

    /// What `get` gives for a name.
    pub open spec fn get(self, k: Seq<char>) -> Result<Option<Seq<char>>, DBFault> {
        if !self.entries.contains_key(k) {
            Ok(None)
        } else {
            match self.entries[k].value {
                ValueView::String(s) => Ok(Some(s)),
                ValueView::List(_) => Err(DBFault::WrongType),
            }
        }
    }

    /// Whether the name is free or holds a string.
    pub open spec fn takes_string(self, k: Seq<char>) -> bool {
        self.entries.contains_key(k) ==> self.entries[k].value is String
    }

    /// Whether the name is free or holds a list.
    pub open spec fn takes_list(self, k: Seq<char>) -> bool {
        self.entries.contains_key(k) ==> self.entries[k].value is List
    }

    /// The deadline that a key is stored with after a write: the one it
    /// already has, or for a new key the one given.
    pub open spec fn kept_expiry(self, k: Seq<char>, given: Option<int>) -> Option<int> {
        if self.entries.contains_key(k) {
            self.entries[k].expiry
        } else {
            given
        }
    }

    /// The list under a name, empty where there is none.
    pub open spec fn list_at(self, k: Seq<char>) -> Seq<Seq<char>> {
        if self.entries.contains_key(k) && self.entries[k].value is List {
            self.entries[k].value->List_0
        } else {
            Seq::empty()
        }
    }

    /// The store after a value was set under a name.
    pub open spec fn after_set(self, k: Seq<char>, v: ValueView, expiry: Option<int>) -> DBState {
        DBState {
            entries: self.entries.insert(
                k,
                Slot { expiry: self.kept_expiry(k, expiry), value: v },
            ),
            events: match expiry {
                Some(d) => self.events.push(DBEventView::SetKeyExpiry(d, k)),
                None => self.events,
            },
        }
    }

    /// The store after the list under a name was replaced.
    pub open spec fn with_list(self, k: Seq<char>, list: Seq<Seq<char>>) -> DBState {
        DBState {
            entries: self.entries.insert(
                k,
                Slot { expiry: self.kept_expiry(k, None), value: ValueView::List(list) },
            ),
            events: self.events,
        }
    }

    /// The store after values were pushed at the head of a list, one after
    /// another, so that the last of them is the new head.
    pub open spec fn after_lpush(self, k: Seq<char>, values: Seq<Seq<char>>) -> DBState {
        self.with_list(k, values.reverse() + self.list_at(k))
    }

    /// The store after values were pushed at the tail of a list.
    pub open spec fn after_rpush(self, k: Seq<char>, values: Seq<Seq<char>>) -> DBState {
        self.with_list(k, self.list_at(k) + values)
    }

    /// What `lrange` gives for a name and an inclusive range of indices.
    pub open spec fn lrange(self, k: Seq<char>, start: int, stop: int) -> Result<
        Seq<Seq<char>>,
        DBFault,
    > {
        if !self.entries.contains_key(k) {
            Ok(Seq::empty())
        } else {
            match self.entries[k].value {
                ValueView::List(l) => {
                    let (from, to) = round_range(l.len() as int, start, stop);
                    Ok(l.subrange(from, to))
                },
                ValueView::String(_) => Err(DBFault::WrongType),
            }
        }
    }

    /// The store after a name was deleted.
    pub open spec fn after_del(self, k: Seq<char>) -> DBState {
        DBState { entries: self.entries.remove(k), events: self.events }
    }

    /// What `del` returns for a name.
    pub open spec fn deleted(self, k: Seq<char>) -> Option<ValueView> {
        if self.entries.contains_key(k) {
            Some(self.entries[k].value)
        } else {
            None
        }
    }

    /// The outcome of deleting the first `n` names of a list in turn.
    pub open spec fn bulk_del_first(self, names: Seq<Seq<char>>, n: nat) -> BulkDel
        decreases n,
    {
        if n == 0 {
            BulkDel { entries: self.entries, count: 0, expired: Seq::empty() }
        } else {
            let before = self.bulk_del_first(names, (n - 1) as nat);
            let k = names[n - 1];
            if before.entries.contains_key(k) {
                BulkDel {
                    entries: before.entries.remove(k),
                    count: before.count + 1,
                    expired: match before.entries[k].expiry {
                        Some(d) => before.expired.push((d, k)),
                        None => before.expired,
                    },
                }
            } else {
                before
            }
        }
    }

    /// The store after a list of names was deleted: one event names the
    /// deleted keys that carried a deadline, if there were any.
    pub open spec fn after_bulk_del(self, names: Seq<Seq<char>>) -> DBState {
        let done = self.bulk_del_first(names, names.len());
        DBState {
            entries: done.entries,
            events: if done.expired.len() > 0 {
                self.events.push(DBEventView::BulkDelKeys(done.expired))
            } else {
                self.events
            },
        }
    }
}

/// The names that a list of string slices holds.
pub open spec fn names_of(keys: Seq<&str>) -> Seq<Seq<char>> {
    Seq::new(keys.len(), |i: int| keys[i]@)
}

/// The events that a list of events stands for.
pub open spec fn events_view(events: Seq<DBEvent>) -> Seq<DBEventView> {
    Seq::new(events.len(), |i: int| events[i]@)
}

/// A key as it was first stored, with the entry it holds now.
struct Stored {
    key: Key,
    entry: Entry,
}

impl Stored {
    spec fn slot(self) -> Slot {
        Slot { expiry: self.key.deadline(), value: self.entry@ }
    }
}

/// The keyspace store.
pub struct DB {
    data: StringHashMap<Stored>,
    events: Vec<DBEvent>,
}

impl View for DB {
    type V = DBState;

    closed spec fn view(&self) -> DBState {
        DBState {
            entries: Map::new(
                |k: Seq<char>| self.data@.contains_key(k),
                |k: Seq<char>| self.data@[k].slot(),
            ),
            events: events_view(self.events@),
        }
    }
}

impl DB {
    /// A store with nothing in it.
    pub fn new() -> (res: DB)
        ensures
            res@ == DBState::empty(),
    {
        let res = DB { data: StringHashMap::new(), events: Vec::new() };
        assert(res@.entries =~= Map::<Seq<char>, Slot>::empty());
        assert(res@.events =~= Seq::<DBEventView>::empty());
        res
    }

    /// The string stored under a name. A name that holds a list is an error,
    /// a name that holds nothing gives `None`.
    pub fn get(&self, k: String) -> (res: Result<Option<String>, DBError>)
        ensures
            match res {
                Ok(Some(s)) => self@.get(k@) == Ok::<Option<Seq<char>>, DBFault>(Some(s@)),
                Ok(None) => self@.get(k@) == Ok::<Option<Seq<char>>, DBFault>(None),
                Err(e) => self@.get(k@) == Err::<Option<Seq<char>>, DBFault>(e@),
            },
    {
        match self.data.get(k.as_str()) {
            None => Ok(None),
            Some(stored) => match &stored.entry.value {
                Value::String(s) => Ok(Some(s.clone())),
                Value::List(_) => Err(DBError::WrongType),
            },
        }
    }

    /// Stores a value under a name, in place of the string that the name
    /// held. A name that holds a list is an error and nothing changes. A new
    /// key is stored with the deadline given; a key that is already there
    /// keeps the one it has. With a deadline given, the store publishes it
    /// with the name.
    pub fn set(&mut self, k: String, v: Value, expiry_ts: Option<Timestamp>) -> (res: Result<
        (),
        DBError,
    >)
        ensures
            old(self)@.takes_string(k@) ==> res is Ok && final(self)@ == old(self)@.after_set(
                k@,
                v@,
                deadline_of(expiry_ts),
            ),
            !old(self)@.takes_string(k@) ==> (res matches Err(e) && e@ == DBFault::WrongType
                && final(self)@ == old(self)@),
    {
        let ghost before = self@;
        let kept = match self.data.get(k.as_str()) {
            None => expiry_ts,
            Some(stored) => match &stored.entry.value {
                Value::String(_) => stored.key.expiry,
                Value::List(_) => {
                    return Err(DBError::WrongType);
                },
            },
        };
        if let Some(expiry) = expiry_ts {
            self.events.push(DBEvent::SetKeyExpiry((expiry, k.clone())));
        }
        let key = Key::new(k.clone(), kept);
        self.data.insert(k, Stored { key, entry: Entry::new(v) });
        proof {
            let want = before.after_set(k@, v@, deadline_of(expiry_ts));
            assert(self@.entries =~= want.entries);
            assert(self@.events =~= want.events);
        }
        Ok(())
    }

    /// Pushes values at the head of the list under a name, one after another,
    /// so that the last value ends up at the head, and returns the length of
    /// the list. A name that holds nothing gets a new list. A name that holds a
    /// string is an error and nothing changes.
    pub fn lpush(&mut self, k: String, v: Vec<String>) -> (res: Result<usize, DBError>)
        ensures
            old(self)@.takes_list(k@) ==> (res matches Ok(n) && final(self)@ == old(self)@.after_lpush(k@, texts(v@)) && n == final(self)@.list_at(k@).len()),
            !old(self)@.takes_list(k@) ==> (res matches Err(e) && e@ == DBFault::WrongType
                && final(self)@ == old(self)@),
    {
        let ghost before = self@;
        let (kept, mut list) = match self.data.get(k.as_str()) {
            None => (None, VecDeque::new()),
            Some(stored) => match &stored.entry.value {
                Value::List(l) => (stored.key.expiry, clone_list(l)),
                Value::String(_) => {
                    return Err(DBError::WrongType);
                },
            },
        };
        let ghost start = texts(list@);
        assert(start =~= before.list_at(k@));
        let mut i: usize = 0;
        while i < v.len()
            invariant
                i <= v.len(),
                texts(list@) == texts(v@).subrange(0, i as int).reverse() + start,
            decreases v.len() - i,
        {
            let ghost prev = texts(list@);
            list.push_front(v[i].clone());
            proof {
                let all = texts(v@);
                assert(texts(list@) =~= seq![all[i as int]] + prev);
                assert(texts(list@) =~= all.subrange(0, i + 1).reverse() + start);
            }
            i += 1;
        }
        let n = list.len();
        let key = Key::new(k.clone(), kept);
        self.data.insert(k, Stored { key, entry: Entry::new(Value::List(list)) });
        proof {
            assert(texts(v@).subrange(0, v@.len() as int) =~= texts(v@));
            let want = before.after_lpush(k@, texts(v@));
            assert(self@.entries =~= want.entries);
        }
        Ok(n)
    }

    /// Pushes values at the tail of the list under a name, in their order,
    /// and returns the length of the list. A name that holds nothing gets a new
    /// list. A name that holds a string is an error and nothing changes.
    pub fn rpush(&mut self, k: String, v: Vec<String>) -> (res: Result<usize, DBError>)
        ensures
            old(self)@.takes_list(k@) ==> (res matches Ok(n) && final(self)@ == old(self)@.after_rpush(k@, texts(v@)) && n == final(self)@.list_at(k@).len()),
            !old(self)@.takes_list(k@) ==> (res matches Err(e) && e@ == DBFault::WrongType
                && final(self)@ == old(self)@),
    {
        let ghost before = self@;
        let (kept, mut list) = match self.data.get(k.as_str()) {
            None => (None, VecDeque::new()),
            Some(stored) => match &stored.entry.value {
                Value::List(l) => (stored.key.expiry, clone_list(l)),
                Value::String(_) => {
                    return Err(DBError::WrongType);
                },
            },
        };
        let ghost start = texts(list@);
        assert(start =~= before.list_at(k@));
        let mut i: usize = 0;
        while i < v.len()
            invariant
                i <= v.len(),
                texts(list@) == start + texts(v@).subrange(0, i as int),
            decreases v.len() - i,
        {
            let ghost prev = texts(list@);
            list.push_back(v[i].clone());
            proof {
                let all = texts(v@);
                assert(texts(list@) =~= prev.push(all[i as int]));
                assert(texts(list@) =~= start + all.subrange(0, i + 1));
            }
            i += 1;
        }
        let n = list.len();
        let key = Key::new(k.clone(), kept);
        self.data.insert(k, Stored { key, entry: Entry::new(Value::List(list)) });
        proof {
            assert(texts(v@).subrange(0, v@.len() as int) =~= texts(v@));
            let want = before.after_rpush(k@, texts(v@));
            assert(self@.entries =~= want.entries);
        }
        Ok(n)
    }

    /// The items of the list under a name from index `start_idx` to index
    /// `stop_idx`, both included. Negative indices count from the end of the
    /// list. A name that holds nothing gives no items; a name that holds a
    /// string is an error.
    pub fn lrange(&self, k: String, start_idx: i64, stop_idx: i64) -> (res: Result<
        Vec<String>,
        DBError,
    >)
        ensures
            match res {
                Ok(items) => self@.lrange(k@, start_idx as int, stop_idx as int) == Ok::<
                    Seq<Seq<char>>,
                    DBFault,
                >(texts(items@)),
                Err(e) => self@.lrange(k@, start_idx as int, stop_idx as int) == Err::<
                    Seq<Seq<char>>,
                    DBFault,
                >(e@),
            },
    {
        let list = match self.data.get(k.as_str()) {
            None => {
                let none: Vec<String> = Vec::new();
                assert(texts(none@) =~= Seq::<Seq<char>>::empty());
                return Ok(none);
            },
            Some(stored) => match &stored.entry.value {
                Value::List(l) => l,
                Value::String(_) => {
                    return Err(DBError::WrongType);
                },
            },
        };
        let (from, to) = Self::round_list_indices(list.len(), start_idx, stop_idx);
        let mut out: Vec<String> = Vec::new();
        let mut i: usize = from;
        while i < to
            invariant
                from <= i <= to <= list@.len(),
                texts(out@) == texts(list@).subrange(from as int, i as int),
            decreases to - i,
        {
            let ghost prev = texts(out@);
            out.push(list[i].clone());
            proof {
                assert(texts(out@) =~= prev.push(texts(list@)[i as int]));
                assert(texts(out@) =~= texts(list@).subrange(from as int, i + 1));
            }
            i += 1;
        }
        proof {
            if from == to {
                assert(texts(out@) =~= texts(list@).subrange(from as int, to as int));
            }
        }
        Ok(out)
    }

    /// Deletes a name and returns what it held. No event is published.
    pub fn del(&mut self, k: &str) -> (res: Result<Option<Entry>, DBError>)
        ensures
            final(self)@ == old(self)@.after_del(k@),
            match res {
                Ok(Some(entry)) => old(self)@.deleted(k@) == Some(entry@),
                Ok(None) => old(self)@.deleted(k@) is None,
                Err(_) => false,
            },
    {
        let ghost before = self@;
        let held = match self.data.get(k) {
            None => None,
            Some(stored) => Some(Entry::new(stored.entry.value.clone())),
        };
        self.data.remove(k);
        proof {
            assert(self@.entries =~= before.after_del(k@).entries);
        }
        Ok(held)
    }

    /// Deletes a list of names in turn and returns how many of them were
    /// there. If any deleted key carried a deadline, one event names them
    /// with their deadlines.
    pub fn bulk_del(&mut self, keys: &[&str]) -> (res: Result<usize, DBError>)
        ensures
            final(self)@ == old(self)@.after_bulk_del(names_of(keys@)),
            res matches Ok(n) && n == old(self)@.bulk_del_first(
                names_of(keys@),
                keys@.len(),
            ).count,
    {
        let ghost before = self@;
        let ghost names = names_of(keys@);
        let mut count: usize = 0;
        let mut expired: Vec<(Timestamp, String)> = Vec::new();
        let mut i: usize = 0;
        assert(self@.entries =~= before.bulk_del_first(names, 0).entries);
        assert(pairs_view(expired@) =~= before.bulk_del_first(names, 0).expired);
        while i < keys.len()
            invariant
                i <= keys.len(),
                names == names_of(keys@),
                count <= i,
                self.events@ == old(self).events@,
                before == old(self)@,
                self@.entries == before.bulk_del_first(names, i as nat).entries,
                count == before.bulk_del_first(names, i as nat).count,
                pairs_view(expired@) == before.bulk_del_first(names, i as nat).expired,
            decreases keys.len() - i,
        {
            let k = keys[i];
            let ghost entries = self@.entries;
            let ghost listed = pairs_view(expired@);
            assert(names[i as int] == k@);
            match self.data.get(k) {
                None => {},
                Some(stored) => {
                    count = count + 1;
                    if let Some(expiry) = stored.key.expiry {
                        expired.push((expiry, String::from_str(k)));
                        assert(pairs_view(expired@) =~= listed.push((expiry@, k@)));
                    }
                    self.data.remove(k);
                    assert(self@.entries =~= entries.remove(k@));
                },
            }
            i += 1;
        }
        if expired.len() > 0 {
            let ghost before_events = events_view(self.events@);
            let ghost listed = pairs_view(expired@);
            self.events.push(DBEvent::BulkDelKeys(expired));
            assert(events_view(self.events@) =~= before_events.push(
                DBEventView::BulkDelKeys(listed),
            ));
        }
        Ok(count)
    }

    /// Takes the events published since they were last taken, oldest first.
    pub fn take_events(&mut self) -> (res: Vec<DBEvent>)
        ensures
            events_view(res@) == old(self)@.events,
            final(self)@ == (DBState { entries: old(self)@.entries, events: Seq::empty() }),
    {
        let mut out: Vec<DBEvent> = Vec::new();
        core::mem::swap(&mut out, &mut self.events);
        assert(events_view(self.events@) =~= Seq::<DBEventView>::empty());
        out
    }

    /// Where an index given by a client points in a list of `list_len`
    /// items.
    fn round_list_index(list_len: usize, idx: i64) -> (res: usize)
        requires
            list_len > 0,
        ensures
            res == round_index(list_len as int, idx as int),
            res < list_len,
    {
        if idx < 0 {
            let back: u64 = (-(idx as i128)) as u64;
            if back > list_len as u64 {
                0
            } else {
                list_len - (back as usize)
            }
        } else if idx as u64 >= list_len as u64 {
            list_len - 1
        } else {
            idx as usize
        }
    }

    /// The half-open range of a list of `list_len` items that an inclusive
    /// range of client indices selects.
    fn round_list_indices(list_len: usize, start_idx: i64, stop_idx: i64) -> (res: (usize, usize))
        ensures
            (res.0 as int, res.1 as int) == round_range(
                list_len as int,
                start_idx as int,
                stop_idx as int,
            ),
            res.0 <= res.1 <= list_len,
    {
        if stop_idx < start_idx || list_len == 0 {
            return (0, 0);
        }
        let first = Self::round_list_index(list_len, start_idx);
        let last = Self::round_list_index(list_len, stop_idx);
        if first <= last {
            (first, last + 1)
        } else {
            (0, 0)
        }
    }
}


/// After a string was set under a name, `get` gives that string.
pub proof fn lemma_get_after_set(db: DBState, k: Seq<char>, v: Seq<char>, expiry: Option<int>)
    ensures
        db.after_set(k, ValueView::String(v), expiry).get(k) == Ok::<Option<Seq<char>>, DBFault>(
            Some(v),
        ),
{
}

/// Where a name holds a value that is no string, `get` fails with
/// `WrongType`, and so does `set`, which needs the name to be free or to hold
/// a string.
pub proof fn lemma_wrong_type(db: DBState, k: Seq<char>)
    requires
        db.entries.contains_key(k),
        !(db.entries[k].value is String),
    ensures
        db.get(k) == Err::<Option<Seq<char>>, DBFault>(DBFault::WrongType),
        !db.takes_string(k),
{
}

/// For a name that holds nothing, every range is empty.
pub proof fn lemma_lrange_absent(db: DBState, k: Seq<char>, start: int, stop: int)
    requires
        !db.entries.contains_key(k),
    ensures
        db.lrange(k, start, stop) == Ok::<Seq<Seq<char>>, DBFault>(Seq::empty()),
{
}

/// The range from the first index to the last is the whole list, head to
/// tail.
pub proof fn lemma_lrange_whole(db: DBState, k: Seq<char>)
    requires
        db.entries.contains_key(k),
        db.entries[k].value is List,
        db.list_at(k).len() > 0,
    ensures
        db.lrange(k, 0, db.list_at(k).len() - 1) == Ok::<Seq<Seq<char>>, DBFault>(db.list_at(k)),
{
    let l = db.list_at(k);
    assert(l.subrange(0, l.len() as int) =~= l);
}

/// The range from index 0 to index -1 of a list without items is the whole
/// list. (Index -1 is below index 0, and a range whose last index is below
/// its first is empty whatever the list holds.)
pub proof fn lemma_lrange_to_minus_one(db: DBState, k: Seq<char>)
    requires
        db.entries.contains_key(k),
        db.entries[k].value is List,
    ensures
        db.lrange(k, 0, -1) == Ok::<Seq<Seq<char>>, DBFault>(Seq::empty()),
        db.list_at(k).len() == 0 ==> db.lrange(k, 0, -1) == Ok::<Seq<Seq<char>>, DBFault>(
            db.list_at(k),
        ),
{
    let l = db.list_at(k);
    assert(l.subrange(0, 0) =~= Seq::<Seq<char>>::empty());
    if l.len() == 0 {
        assert(l =~= Seq::<Seq<char>>::empty());
    }
}

/// After values were pushed at the head of a list, the list begins with the
/// values in reverse, the last value first, and goes on as it was.
pub proof fn lemma_list_after_lpush(db: DBState, k: Seq<char>, values: Seq<Seq<char>>)
    requires
        db.takes_list(k),
    ensures
        db.after_lpush(k, values).list_at(k) == values.reverse() + db.list_at(k),
        !db.entries.contains_key(k) ==> db.after_lpush(k, values).list_at(k) == values.reverse(),
{
    if !db.entries.contains_key(k) {
        assert(values.reverse() + db.list_at(k) =~= values.reverse());
    }
}

/// After a name was deleted, `get` gives nothing for it.
pub proof fn lemma_get_after_del(db: DBState, k: Seq<char>)
    ensures
        db.after_del(k).get(k) == Ok::<Option<Seq<char>>, DBFault>(None),
{
}

/// Deleting names in turn leaves none of them, and touches no other name.
pub proof fn lemma_bulk_del_entries(db: DBState, names: Seq<Seq<char>>, n: nat)
    requires
        n <= names.len(),
    ensures
        forall|k: Seq<char>| #[trigger]
            db.bulk_del_first(names, n).entries.contains_key(k) <==> (db.entries.contains_key(k)
                && !names.subrange(0, n as int).contains(k)),
        forall|k: Seq<char>| #[trigger]
            db.bulk_del_first(names, n).entries.contains_key(k) ==> db.bulk_del_first(
                names,
                n,
            ).entries[k] == db.entries[k],
        db.bulk_del_first(names, n).count <= n,
    decreases n,
{
    if n > 0 {
        lemma_bulk_del_entries(db, names, (n - 1) as nat);
        let before = db.bulk_del_first(names, (n - 1) as nat);
        let shorter = names.subrange(0, n - 1);
        let longer = names.subrange(0, n as int);
        assert forall|k: Seq<char>| #[trigger]
            db.bulk_del_first(names, n).entries.contains_key(k) <==> (db.entries.contains_key(k)
                && !longer.contains(k)) by {
            if longer.contains(k) {
                let j = choose|j: int| 0 <= j < longer.len() && longer[j] == k;
                if j < n - 1 {
                    assert(shorter[j] == k);
                }
            }
            if shorter.contains(k) {
                let j = choose|j: int| 0 <= j < shorter.len() && shorter[j] == k;
                assert(longer[j] == k);
            }
            if k == names[n - 1] {
                assert(longer[n - 1] == k);
            }
        }
    } else {
        assert(names.subrange(0, 0) =~= Seq::<Seq<char>>::empty());
    }
}

/// After a list of names was deleted, `get` gives nothing for each of them.
pub proof fn lemma_get_after_bulk_del(db: DBState, names: Seq<Seq<char>>, k: Seq<char>)
    requires
        names.contains(k),
    ensures
        db.after_bulk_del(names).get(k) == Ok::<Option<Seq<char>>, DBFault>(None),
{
    lemma_bulk_del_entries(db, names, names.len());
    assert(names.subrange(0, names.len() as int) =~= names);
}

} // verus!
