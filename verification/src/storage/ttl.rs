//! The expiry index: the deadlines of keys, kept in the order in which they
//! fall due, and the sweep that deletes the keys whose deadline has passed.

use super::db::{DBState, DB};
use super::{pairs_view, DBError, DBEvent, DBEventView};
use crate::clock::{whole_millis, Timestamp};
use crate::text::{
    lemma_lex_irreflexive, lemma_lex_total, lemma_lex_transitive, lemma_utf8_injective, lex_less,
    str_eq, str_less, utf8,
};
use vstd::prelude::*;
use vstd::string::*;

verus! {

/// A deadline in nanoseconds since the Unix epoch, with the name of the key
/// it belongs to.
pub type Expiry = (int, Seq<char>);

/// Whether `p` falls due before `q`: by deadline, and by name where the
/// deadlines are equal.
pub open spec fn falls_before(p: Expiry, q: Expiry) -> bool {
    p.0 < q.0 || (p.0 == q.0 && lex_less(utf8(p.1), utf8(q.1)))
}

/// Whether the pairs stand in the order in which they fall due, none twice.
pub open spec fn in_order(s: Seq<Expiry>) -> bool {
    forall|i: int, j: int| 0 <= i < j < s.len() ==> falls_before(s[i], s[j])
}

/// How many pairs at the head of the index are due at the instant `till`.
pub open spec fn due_count(s: Seq<Expiry>, till: int) -> nat
    decreases s.len(),
{
    if s.len() > 0 && s[0].0 <= till {
        1 + due_count(s.drop_first(), till)
    } else {
        0
    }
}

/// The names of the first `n` pairs.
pub open spec fn names_of_first(s: Seq<Expiry>, n: int) -> Set<Seq<char>> {
    Set::new(|name: Seq<char>| exists|j: int| 0 <= j < n && j < s.len() && s[j].1 == name)
}

/// The deadline that falls due first, if the index holds any.
pub open spec fn next_deadline(s: Seq<Expiry>) -> Option<int> {
    if s.len() > 0 {
        Some(s[0].0)
    } else {
        None
    }
}

/// The order of pairs is strict and total.
pub proof fn lemma_falls_before_total(p: Expiry, q: Expiry)
    ensures
        p == q || falls_before(p, q) || falls_before(q, p),
        !(falls_before(p, q) && falls_before(q, p)),
        !falls_before(p, p),
{
    lemma_lex_total(utf8(p.1), utf8(q.1));
    lemma_lex_irreflexive(utf8(p.1));
    if utf8(p.1) == utf8(q.1) {
        lemma_utf8_injective(p.1, q.1);
    }
}

/// The order of pairs is transitive.
pub proof fn lemma_falls_before_transitive(p: Expiry, q: Expiry, r: Expiry)
    requires
        falls_before(p, q),
        falls_before(q, r),
    ensures
        falls_before(p, r),
{
    if p.0 == q.0 && q.0 == r.0 {
        lemma_lex_transitive(utf8(p.1), utf8(q.1), utf8(r.1));
    }
}

/// In an index that is in order, the pairs that are due at `till` are
/// exactly the first `due_count`.
pub proof fn lemma_due_prefix(s: Seq<Expiry>, till: int)
    requires
        in_order(s),
    ensures
        due_count(s, till) <= s.len(),
        forall|j: int| 0 <= j < due_count(s, till) ==> (#[trigger] s[j]).0 <= till,
        forall|j: int| due_count(s, till) <= j < s.len() ==> (#[trigger] s[j]).0 > till,
    decreases s.len(),
{
    if s.len() > 0 {
        let rest = s.drop_first();
        assert(in_order(rest)) by {
            assert forall|i: int, j: int| 0 <= i < j < rest.len() implies falls_before(
                rest[i],
                rest[j],
            ) by {
                assert(falls_before(s[i + 1], s[j + 1]));
            }
        }
        lemma_due_prefix(rest, till);
        if s[0].0 <= till {
            assert forall|j: int| 0 <= j < due_count(s, till) implies (#[trigger] s[j]).0
                <= till by {
                if j > 0 {
                    assert(s[j] == rest[j - 1]);
                }
            }
            assert forall|j: int| due_count(s, till) <= j < s.len() implies (#[trigger] s[j]).0
                > till by {
                assert(s[j] == rest[j - 1]);
            }
        } else {
            assert forall|j: int| 0 <= j < s.len() implies (#[trigger] s[j]).0 > till by {
                if j > 0 {
                    assert(falls_before(s[0], s[j]));
                }
            }
        }
    }
}

/// Whether the first pair falls due before the second.
fn pair_before(a: &(Timestamp, String), b: &(Timestamp, String)) -> (r: bool)
    ensures
        r == falls_before((a.0@, a.1@), (b.0@, b.1@)),
{
    if a.0.nanos < b.0.nanos {
        true
    } else if a.0.nanos == b.0.nanos {
        str_less(a.1.as_str(), b.1.as_str())
    } else {
        false
    }
}

/// Whether two pairs are the same deadline of the same key.
fn pair_same(a: &(Timestamp, String), b: &(Timestamp, String)) -> (r: bool)
    ensures
        r == ((a.0@, a.1@) == (b.0@, b.1@)),
{
    a.0.nanos == b.0.nanos && str_eq(a.1.as_str(), b.1.as_str())
}

/// The index of the first pair that does not fall due before `pair`.
fn position_of(list: &Vec<(Timestamp, String)>, pair: &(Timestamp, String)) -> (pos: usize)
    requires
        in_order(pairs_view(list@)),
    ensures
        pos <= list@.len(),
        forall|j: int| 0 <= j < pos ==> falls_before(#[trigger] pairs_view(list@)[j], (pair.0@, pair.1@)),
        forall|j: int|
            pos <= j < list@.len() ==> !falls_before(
                #[trigger] pairs_view(list@)[j],
                (pair.0@, pair.1@),
            ),
{
    let ghost s = pairs_view(list@);
    let ghost p = (pair.0@, pair.1@);
    let mut pos: usize = 0;
    while pos < list.len() && pair_before(&list[pos], pair)
        invariant
            pos <= list@.len(),
            s == pairs_view(list@),
            p == (pair.0@, pair.1@),
            forall|j: int| 0 <= j < pos ==> falls_before(#[trigger] s[j], p),
        decreases list@.len() - pos,
    {
        pos += 1;
    }
    proof {
        assert forall|j: int| pos <= j < list@.len() implies !falls_before(#[trigger] s[j], p) by {
            assert(!falls_before(s[pos as int], p));
            if j > pos && falls_before(s[j], p) {
                assert(falls_before(s[pos as int], s[j]));
                lemma_falls_before_transitive(s[pos as int], s[j], p);
            }
        }
    }
    pos
}

/// The expiry index, with the sweep that evicts the keys that are due.
#[derive(Debug)]
pub struct KeyEvictor {
    expiries: Vec<(Timestamp, String)>,
}

impl View for KeyEvictor {
    type V = Seq<Expiry>;

    closed spec fn view(&self) -> Seq<Expiry> {
        pairs_view(self.expiries@)
    }
}

impl KeyEvictor {
    /// The pairs stand in the order in which they fall due.
    #[verifier::type_invariant]
    spec fn well_formed(self) -> bool {
        in_order(pairs_view(self.expiries@))
    }

    /// An index that holds nothing.
    pub fn new() -> (res: KeyEvictor)
        ensures
            res@ == Seq::<Expiry>::empty(),
    {
        let res = KeyEvictor { expiries: Vec::new() };
        assert(res@ =~= Seq::<Expiry>::empty());
        res
    }

    /// The number of pairs in the index.
    pub fn len(&self) -> (res: usize)
        ensures
            res == self@.len(),
            in_order(self@),
    {
        proof {
            use_type_invariant(self);
        }
        self.expiries.len()
    }

    /// Puts the deadline of a key into the index, at its place in the order.
    /// A pair that is there already is not put in twice.
    pub fn update_key_expiry(&mut self, key_expiry: (Timestamp, String)) -> (res: Result<
        (),
        DBError,
    >)
        ensures
            res is Ok,
            in_order(final(self)@),
            final(self)@.to_set() == old(self)@.to_set().insert((key_expiry.0@, key_expiry.1@)),
    {
        proof {
            use_type_invariant(&*self);
        }
        let ghost before = self@;
        let ghost p = (key_expiry.0@, key_expiry.1@);
        let mut list: Vec<(Timestamp, String)> = Vec::new();
        core::mem::swap(&mut list, &mut self.expiries);
        let pos = position_of(&list, &key_expiry);
        if pos < list.len() && pair_same(&list[pos], &key_expiry) {
            proof {
                assert(before[pos as int] == p);
                assert(before.to_set() =~= before.to_set().insert(p));
            }
            self.expiries = list;
            return Ok(());
        }
        list.insert(pos, key_expiry);
        proof {
            let after = pairs_view(list@);
            assert(after =~= before.insert(pos as int, p));
            assert forall|i: int, j: int| 0 <= i < j < after.len() implies falls_before(
                after[i],
                after[j],
            ) by {
                if j < pos {
                    assert(falls_before(before[i], before[j]));
                } else if j == pos {
                    assert(after[i] == before[i]);
                } else if i == pos {
                    assert(after[j] == before[j - 1]);
                    lemma_falls_before_total(before[j - 1], p);
                    if j - 1 > pos {
                        assert(falls_before(before[pos as int], before[j - 1]));
                        lemma_falls_before_total(before[pos as int], p);
                        if before[pos as int] == p {
                        } else {
                            lemma_falls_before_transitive(p, before[pos as int], before[j - 1]);
                        }
                    }
                } else if i < pos {
                    assert(after[j] == before[j - 1]);
                    assert(after[i] == before[i]);
                    assert(falls_before(before[i], before[j - 1]));
                } else {
                    assert(after[j] == before[j - 1]);
                    assert(after[i] == before[i - 1]);
                    assert(falls_before(before[i - 1], before[j - 1]));
                }
            }
            assert(after.to_set() =~= before.to_set().insert(p)) by {
                assert forall|x: Expiry| after.to_set().contains(x) implies before.to_set().insert(
                    p,
                ).contains(x) by {
                    let k = choose|k: int| 0 <= k < after.len() && after[k] == x;
                    if k < pos {
                        assert(before[k] == x);
                    } else if k > pos {
                        assert(before[k - 1] == x);
                    }
                }
                assert forall|x: Expiry| before.to_set().insert(p).contains(x) implies after.to_set().contains(x) by {
                    if x == p {
                        assert(after[pos as int] == x);
                    } else {
                        let k = choose|k: int| 0 <= k < before.len() && before[k] == x;
                        if k < pos {
                            assert(after[k] == x);
                        } else {
                            assert(after[k + 1] == x);
                        }
                    }
                }
            }
        }
        self.expiries = list;
        Ok(())
    }

    /// Takes the deadlines of deleted keys out of the index. A pair that is
    /// not there is passed over.
    pub fn remove_deleted_key(&mut self, del_keys: Vec<(Timestamp, String)>) -> (res: Result<
        (),
        DBError,
    >)
        ensures
            res is Ok,
            in_order(final(self)@),
            final(self)@.to_set() == old(self)@.to_set().difference(
                pairs_view(del_keys@).to_set(),
            ),
    {
        proof {
            use_type_invariant(&*self);
        }
        let ghost before = self@;
        let ghost dels = pairs_view(del_keys@);
        let mut list: Vec<(Timestamp, String)> = Vec::new();
        core::mem::swap(&mut list, &mut self.expiries);
        let mut i: usize = 0;
        assert(dels.subrange(0, 0).to_set() =~= Set::<Expiry>::empty());
        assert(before.to_set().difference(Set::<Expiry>::empty()) =~= before.to_set());
        while i < del_keys.len()
            invariant
                i <= del_keys.len(),
                dels == pairs_view(del_keys@),
                in_order(pairs_view(list@)),
                pairs_view(list@).to_set() == before.to_set().difference(
                    dels.subrange(0, i as int).to_set(),
                ),
            decreases del_keys.len() - i,
        {
            let ghost cur = pairs_view(list@);
            let ghost p = dels[i as int];
            let pos = position_of(&list, &del_keys[i]);
            let found = pos < list.len() && pair_same(&list[pos], &del_keys[i]);
            if found {
                list.remove(pos);
            }
            proof {
                let after = pairs_view(list@);
                let done = dels.subrange(0, i as int).to_set();
                let done_next = dels.subrange(0, i + 1).to_set();
                let d0 = dels.subrange(0, i as int);
                let d1 = dels.subrange(0, i + 1);
                assert(done_next =~= done.insert(p)) by {
                    assert forall|x: Expiry| done_next.contains(x) implies done.insert(p).contains(
                        x,
                    ) by {
                        let k = choose|k: int| 0 <= k < d1.len() && #[trigger] d1[k] == x;
                        if k < i {
                            assert(d0[k] == x);
                        }
                    }
                    assert forall|x: Expiry| done.insert(p).contains(x) implies done_next.contains(
                        x,
                    ) by {
                        if x == p {
                            assert(d1[i as int] == x);
                        } else {
                            let k = choose|k: int| 0 <= k < d0.len() && #[trigger] d0[k] == x;
                            assert(d1[k] == x);
                        }
                    }
                }
                if found {
                    assert(cur[pos as int] == p);
                    assert(after =~= cur.remove(pos as int));
                    assert forall|a: int, b: int| 0 <= a < b < after.len() implies falls_before(
                        after[a],
                        after[b],
                    ) by {
                        let a0 = if a < pos { a } else { a + 1 };
                        let b0 = if b < pos { b } else { b + 1 };
                        assert(after[a] == cur[a0]);
                        assert(after[b] == cur[b0]);
                        assert(falls_before(cur[a0], cur[b0]));
                    }
                    assert(after.to_set() =~= cur.to_set().remove(p)) by {
                        assert forall|x: Expiry| after.to_set().contains(x) implies cur.to_set().remove(p).contains(x) by {
                            let k = choose|k: int| 0 <= k < after.len() && after[k] == x;
                            let k0 = if k < pos { k } else { k + 1 };
                            assert(cur[k0] == x);
                            if x == p {
                                if k0 < pos {
                                    assert(falls_before(cur[k0], cur[pos as int]));
                                } else {
                                    assert(falls_before(cur[pos as int], cur[k0]));
                                }
                                lemma_falls_before_total(p, p);
                            }
                        }
                        assert forall|x: Expiry| cur.to_set().remove(p).contains(x) implies after.to_set().contains(x) by {
                            let k = choose|k: int| 0 <= k < cur.len() && cur[k] == x;
                            if k < pos {
                                assert(after[k] == x);
                            } else {
                                assert(after[k - 1] == x);
                            }
                        }
                    }
                    assert(after.to_set() =~= before.to_set().difference(done_next));
                } else {
                    assert(!cur.to_set().contains(p)) by {
                        if cur.to_set().contains(p) {
                            let k = choose|k: int| 0 <= k < cur.len() && cur[k] == p;
                            lemma_falls_before_total(p, p);
                            if k < pos {
                            } else if k == pos {
                            } else {
                                assert(falls_before(cur[pos as int], cur[k]));
                                lemma_falls_before_total(cur[pos as int], p);
                            }
                        }
                    }
                    assert(after.to_set() =~= before.to_set().difference(done_next));
                }
            }
            i += 1;
        }
        proof {
            assert(dels.subrange(0, del_keys@.len() as int) =~= dels);
        }
        self.expiries = list;
        Ok(())
    }

    /// Brings the index up to date with an event of the store: a deadline
    /// that was set is put in, the deadlines of deleted keys are taken out.
    pub fn on_event(&mut self, event: DBEvent)
        ensures
            in_order(final(self)@),
            match event@ {
                DBEventView::SetKeyExpiry(d, name) => final(self)@.to_set() == old(self)@.to_set().insert((d, name)),
                DBEventView::BulkDelKeys(pairs) => final(self)@.to_set() == old(self)@.to_set().difference(pairs.to_set()),
            },
    {
        match event {
            DBEvent::SetKeyExpiry(key_exp) => {
                let _ = self.update_key_expiry(key_exp);
            },
            DBEvent::BulkDelKeys(key_exps) => {
                let _ = self.remove_deleted_key(key_exps);
            },
        }
    }

    /// Deletes from the store every key whose deadline in the index is not
    /// after `expire_till`, takes those pairs out of the index, and returns
    /// the deadline that falls due next, if any is left.
    pub fn evict_keys(&mut self, db: &mut DB, expire_till: Timestamp) -> (res: Result<
        Option<Timestamp>,
        DBError,
    >)
        ensures
            in_order(old(self)@),
            final(self)@ == old(self)@.skip(due_count(old(self)@, expire_till@) as int),
            final(db)@.entries == old(db)@.entries.remove_keys(
                names_of_first(old(self)@, due_count(old(self)@, expire_till@) as int),
            ),
            final(db)@.events == old(db)@.events,
            res matches Ok(next) && crate::storage::db::deadline_of(next) == next_deadline(
                final(self)@,
            ),
    {
        proof {
            use_type_invariant(&*self);
        }
        let ghost before = self@;
        let ghost db0 = db@;
        let ghost till = expire_till@;
        let mut list: Vec<(Timestamp, String)> = Vec::new();
        core::mem::swap(&mut list, &mut self.expiries);
        let mut n: usize = 0;
        proof {
            lemma_due_prefix(before, till);
            assert(db@.entries =~= db0.entries.remove_keys(names_of_first(before, 0)));
        }
        while n < list.len() && !list[n].0.is_after(expire_till)
            invariant
                n <= list@.len(),
                till == expire_till@,
                before == pairs_view(list@),
                in_order(before),
                n <= due_count(before, till) <= before.len(),
                forall|j: int| 0 <= j < due_count(before, till) ==> (#[trigger] before[j]).0 <= till,
                forall|j: int|
                    due_count(before, till) <= j < before.len() ==> (#[trigger] before[j]).0 > till,
                db@.entries == db0.entries.remove_keys(names_of_first(before, n as int)),
                db@.events == db0.events,
            decreases list@.len() - n,
        {
            proof {
                assert(before[n as int].0 <= till);
            }
            let _ = db.del(list[n].1.as_str());
            proof {
                let name = before[n as int].1;
                assert(names_of_first(before, n + 1) =~= names_of_first(before, n as int).insert(
                    name,
                )) by {
                    assert forall|x: Seq<char>| names_of_first(before, n + 1).contains(
                        x,
                    ) implies names_of_first(before, n as int).insert(name).contains(x) by {
                        let j = choose|j: int| 0 <= j < n + 1 && j < before.len() && before[j].1 == x;
                        if j < n {
                            assert(names_of_first(before, n as int).contains(x));
                        }
                    }
                }
                assert(db@.entries =~= db0.entries.remove_keys(names_of_first(before, n + 1)));
            }
            n += 1;
        }
        proof {
            if n < list@.len() {
                assert(before[n as int].0 > till);
            }
            assert(n == due_count(before, till));
        }
        let rest = list.split_off(n);
        proof {
            assert(pairs_view(rest@) =~= before.skip(n as int));
            assert forall|i: int, j: int| 0 <= i < j < rest@.len() implies falls_before(
                pairs_view(rest@)[i],
                pairs_view(rest@)[j],
            ) by {
                assert(falls_before(before[i + n], before[j + n]));
            }
        }
        let next = if rest.len() > 0 {
            Some(rest[0].0)
        } else {
            None
        };
        self.expiries = rest;
        Ok(next)
    }

    /// One turn of the sweeper at the instant `utc_now`: evicts the keys that
    /// are due, and says for how many milliseconds to sleep until the next
    /// deadline. `None` says that no deadline is left, and that the sweeper
    /// is to wait until it is notified.
    pub fn run(&mut self, db: &mut DB, utc_now: Timestamp) -> (res: Option<u64>)
        ensures
            final(self)@ == old(self)@.skip(due_count(old(self)@, utc_now@) as int),
            final(db)@.entries == old(db)@.entries.remove_keys(
                names_of_first(old(self)@, due_count(old(self)@, utc_now@) as int),
            ),
            final(db)@.events == old(db)@.events,
            match next_deadline(final(self)@) {
                Some(d) => res == Some(whole_millis(d - utc_now@) as u64),
                None => res is None,
            },
    {
        match self.evict_keys(db, utc_now) {
            Ok(Some(next)) => Some(utc_now.millis_until(next)),
            _ => None,
        }
    }
}


/// What a sweep at the instant `till` does to a key. A key with a deadline in
/// the index that is not after `till` is gone from the store afterwards, so
/// that `get` gives nothing for it. A key none of whose deadlines in the
/// index is due is in the store as before.
pub proof fn lemma_sweep(index: Seq<Expiry>, db: DBState, till: int, name: Seq<char>)
    requires
        in_order(index),
    ensures
        ({
            let swept = DBState {
                entries: db.entries.remove_keys(
                    names_of_first(index, due_count(index, till) as int),
                ),
                events: db.events,
            };
            &&& (exists|j: int| 0 <= j < index.len() && #[trigger] index[j].1 == name && index[j].0
                <= till) ==> swept.get(name) == Ok::<Option<Seq<char>>, super::DBFault>(None)
            &&& (forall|j: int| 0 <= j < index.len() && #[trigger] index[j].1 == name ==> index[j].0
                > till) ==> swept.get(name) == db.get(name)
        }),
{
    lemma_due_prefix(index, till);
    let k = due_count(index, till) as int;
    let gone = names_of_first(index, k);
    if exists|j: int| 0 <= j < index.len() && #[trigger] index[j].1 == name && index[j].0 <= till {
        let j = choose|j: int|
            0 <= j < index.len() && #[trigger] index[j].1 == name && index[j].0 <= till;
        assert(j < k) by {
            if j >= k {
                assert(index[j].0 > till);
            }
        }
        assert(gone.contains(name));
    }
    if forall|j: int| 0 <= j < index.len() && #[trigger] index[j].1 == name ==> index[j].0 > till {
        if gone.contains(name) {
            let j = choose|j: int| 0 <= j < k && j < index.len() && index[j].1 == name;
            assert(index[j].0 <= till);
            assert(index[j].1 == name);
        }
    }
}

/// A deadline that lies a time to live of `ms` milliseconds after the
/// instant `now` is not due at any instant before it, and is due at every
/// instant from it on.
pub proof fn lemma_deadline_due(now: int, ms: int, at: int)
    requires
        ms >= 0,
        now + ms * 1_000_000 <= i128::MAX,
    ensures
        at < now + ms * 1_000_000 ==> crate::clock::plus_millis(now, ms) > at,
        at >= now + ms * 1_000_000 ==> crate::clock::plus_millis(now, ms) <= at,
{
}

} // verus!
