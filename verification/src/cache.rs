//! The key-value cache as the gateway relies on it: documents under string
//! keys, each with an optional time to live, held in memory with a clock
//! that the owner moves.

use vstd::prelude::*;
use crate::json::{Json, JsonView};

verus! {

/// Why a cache operation gave no result.
#[derive(Debug, Clone, Copy, PartialEq, Eq, Structural)]
pub enum CacheError {
    /// No value is stored under the key.
    NotFound,
    /// The store cannot be reached.
    Unreachable,
}

/// What the store holds under one key.
pub struct Slot {
    pub value: JsonView,
    /// The seconds after which the value is gone; `None` where it stays.
    pub remaining: Option<int>,
}

/// The mathematical value of a [`Redis`] store.
pub struct RedisView {
    pub reachable: bool,
    pub slots: Map<Seq<char>, Slot>,
}

impl Slot {
    /// Whether the value is still there after `seconds` more seconds.
    pub open spec fn outlasts(self, seconds: nat) -> bool {
        match self.remaining {
            Some(left) => left > seconds,
            None => true,
        }
    }

    /// The slot as it is `seconds` later.
    pub open spec fn aged(self, seconds: nat) -> Slot {
        Slot {
            value: self.value,
            remaining: match self.remaining {
                Some(left) => Some(left - seconds),
                None => None,
            },
        }
    }
}

impl RedisView {
    /// What a read of `key` gives.
    pub open spec fn get(self, key: Seq<char>) -> Result<JsonView, CacheError> {
        if !self.reachable {
            Err(CacheError::Unreachable)
        } else if self.slots.contains_key(key) {
            Ok(self.slots[key].value)
        } else {
            Err(CacheError::NotFound)
        }
    }

    /// The seconds that the value under `key` has left: -2 where there is
    /// no value, -1 where the value has no time to live.
    pub open spec fn ttl(self, key: Seq<char>) -> int {
        if !self.slots.contains_key(key) {
            -2
        } else {
            match self.slots[key].remaining {
                Some(left) => left,
                None => -1,
            }
        }
    }

    /// The store after `value` is written under `key`: the value is there
    /// and has no time to live. A store out of reach keeps what it has.
    pub open spec fn set(self, key: Seq<char>, value: JsonView) -> RedisView {
        if self.reachable {
            RedisView {
                reachable: true,
                slots: self.slots.insert(key, Slot { value, remaining: None }),
            }
        } else {
            self
        }
    }

    /// The store after the value under `key` is given `seconds` to live:
    /// with no seconds left to it the value goes at once. A key without a
    /// value, and a store out of reach, are left as they are.
    pub open spec fn expire(self, key: Seq<char>, seconds: int) -> RedisView {
        if self.reachable && self.slots.contains_key(key) {
            if seconds <= 0 {
                RedisView { reachable: true, slots: self.slots.remove(key) }
            } else {
                RedisView {
                    reachable: true,
                    slots: self.slots.insert(
                        key,
                        Slot { value: self.slots[key].value, remaining: Some(seconds) },
                    ),
                }
            }
        } else {
            self
        }
    }

    /// The store `seconds` later: every value whose time has run out is
    /// gone, and the others have that much less to live.
    pub open spec fn later(self, seconds: nat) -> RedisView {
        RedisView {
            reachable: self.reachable,
            slots: Map::new(
                |key: Seq<char>| self.slots.contains_key(key) && self.slots[key].outlasts(seconds),
                |key: Seq<char>| self.slots[key].aged(seconds),
            ),
        }
    }
}

struct Entry {
    key: String,
    value: Json,
    remaining: Option<i64>,
}

impl Entry {
    spec fn slot(self) -> Slot {
        Slot {
            value: self.value@,
            remaining: match self.remaining {
                Some(left) => Some(left as int),
                None => None,
            },
        }
    }
}

spec fn slots_of(entries: Seq<Entry>) -> Map<Seq<char>, Slot>
    decreases entries.len(),
{
    if entries.len() == 0 {
        Map::empty()
    } else {
        slots_of(entries.drop_last()).insert(entries.last().key@, entries.last().slot())
    }
}

spec fn distinct(entries: Seq<Entry>) -> bool {
    forall|i: int, j: int|
        0 <= i < j < entries.len() ==> (#[trigger] entries[i]).key@ != (#[trigger] entries[j]).key@
}

spec fn timed(entries: Seq<Entry>) -> bool {
    forall|i: int|
        0 <= i < entries.len() ==> ((#[trigger] entries[i]).remaining matches Some(left) ==> left > 0)
}

spec fn holds_key(entries: Seq<Entry>, key: Seq<char>) -> bool {
    exists|i: int| 0 <= i < entries.len() && (#[trigger] entries[i]).key@ == key
}

proof fn lemma_slots(entries: Seq<Entry>)
    requires
        distinct(entries),
    ensures
        forall|i: int|
            0 <= i < entries.len() ==> slots_of(entries).contains_key((#[trigger] entries[i]).key@)
                && slots_of(entries)[entries[i].key@] == entries[i].slot(),
        forall|key: Seq<char>| #[trigger]
            slots_of(entries).contains_key(key) ==> holds_key(entries, key),
    decreases entries.len(),
{
    if entries.len() > 0 {
        let front = entries.drop_last();
        lemma_slots(front);
        assert forall|i: int| 0 <= i < entries.len() implies slots_of(entries).contains_key(
            (#[trigger] entries[i]).key@,
        ) && slots_of(entries)[entries[i].key@] == entries[i].slot() by {
            if i < entries.len() - 1 {
                assert(front[i] == entries[i]);
                assert(entries[i].key@ != entries[entries.len() - 1].key@);
            }
        }
        assert forall|key: Seq<char>| #[trigger]
            slots_of(entries).contains_key(key) implies holds_key(entries, key) by {
            if key == entries.last().key@ {
                assert(entries[entries.len() - 1].key@ == key);
            } else {
                assert(holds_key(front, key));
                let i = choose|i: int| 0 <= i < front.len() && (#[trigger] front[i]).key@ == key;
                assert(entries[i].key@ == key);
            }
        }
    }
}

proof fn lemma_agrees(entries: Seq<Entry>, wanted: Map<Seq<char>, Slot>)
    requires
        distinct(entries),
        forall|i: int|
            0 <= i < entries.len() ==> wanted.contains_key((#[trigger] entries[i]).key@)
                && wanted[entries[i].key@] == entries[i].slot(),
        forall|key: Seq<char>| #[trigger] wanted.contains_key(key) ==> holds_key(entries, key),
    ensures
        slots_of(entries) == wanted,
{
    lemma_slots(entries);
    assert forall|key: Seq<char>| #[trigger] wanted.contains_key(key) implies slots_of(
        entries,
    ).contains_key(key) && slots_of(entries)[key] == wanted[key] by {
        assert(holds_key(entries, key));
        let i = choose|i: int| 0 <= i < entries.len() && (#[trigger] entries[i]).key@ == key;
        assert(slots_of(entries).contains_key(entries[i].key@));
    }
    assert forall|key: Seq<char>| #[trigger] slots_of(entries).contains_key(key) implies wanted.contains_key(
        key,
    ) by {
        assert(holds_key(entries, key));
        let i = choose|i: int| 0 <= i < entries.len() && (#[trigger] entries[i]).key@ == key;
        assert(wanted.contains_key(entries[i].key@));
    }
    assert(slots_of(entries) =~= wanted);
}

/// An in-memory store of documents under string keys, with a time to live
/// for each value and a clock that moves only when told to.
///
/// It behaves as the gateway expects of its cache: a value that is written
/// stays until its time runs out, a read tells an absent value from a store
/// that cannot be reached, and the time left is reported as the store sees
/// it at the moment of asking.
pub struct Redis {
    reachable: bool,
    entries: Vec<Entry>,
}

impl View for Redis {
    type V = RedisView;

    closed spec fn view(&self) -> RedisView {
        RedisView { reachable: self.reachable, slots: slots_of(self.entries@) }
    }
}

impl Redis {
    /// Whether the store is in order: no key twice, no value with its time
    /// already out.
    pub closed spec fn wf(&self) -> bool {
        distinct(self.entries@) && timed(self.entries@)
    }

    /// Every time to live in a store that is in order is positive.
    pub proof fn lemma_times_positive(&self)
        requires
            self.wf(),
        ensures
            forall|key: Seq<char>| #[trigger]
                self@.slots.contains_key(key) ==> (self@.slots[key].remaining matches Some(left)
                    ==> left > 0),
    {
        lemma_slots(self.entries@);
        assert forall|key: Seq<char>| #[trigger] self@.slots.contains_key(key) implies (
        self@.slots[key].remaining matches Some(left) ==> left > 0) by {
            assert(holds_key(self.entries@, key));
            let i = choose|i: int|
                0 <= i < self.entries@.len() && (#[trigger] self.entries@[i]).key@ == key;
            assert(self.entries@[i].slot() == self@.slots[key]);
        }
    }

    /// An empty store within reach.
    pub fn new() -> (out: Redis)
        ensures
            out.wf(),
            out@ == (RedisView { reachable: true, slots: Map::empty() }),
    {
        Redis { reachable: true, entries: Vec::new() }
    }

    /// Puts the store within or out of reach; what it holds stays.
    pub fn set_reachable(&mut self, reachable: bool)
        requires
            old(self).wf(),
        ensures
            final(self).wf(),
            final(self)@ == (RedisView { reachable, slots: old(self)@.slots }),
    {
        self.reachable = reachable;
    }

    fn find(&self, key: &str) -> (found: Option<usize>)
        ensures
            match found {
                Some(at) => at < self.entries@.len() && self.entries@[at as int].key@ == key@,
                None => !holds_key(self.entries@, key@),
            },
    {
        let wanted: String = String::from_str(key);
        let mut i: usize = 0;
        while i < self.entries.len()
            invariant
                i <= self.entries@.len(),
                wanted@ == key@,
                forall|j: int| 0 <= j < i ==> (#[trigger] self.entries@[j]).key@ != key@,
            decreases self.entries@.len() - i,
        {
            if self.entries[i].key == wanted {
                return Some(i);
            }
            i += 1;
        }
        None
    }

    /// Reads the document under `key`.
    pub fn get(&self, key: &str) -> (out: Result<Json, CacheError>)
        requires
            self.wf(),
        ensures
            match out {
                Ok(document) => self@.get(key@) == Ok::<JsonView, CacheError>(document@),
                Err(error) => self@.get(key@) == Err::<JsonView, CacheError>(error),
            },
    {
        if !self.reachable {
            return Err(CacheError::Unreachable);
        }
        proof {
            lemma_slots(self.entries@);
        }
        match self.find(key) {
            Some(at) => Ok(self.entries[at].value.clone()),
            None => Err(CacheError::NotFound),
        }
    }

    /// Reports the seconds that the value under `key` has left.
    pub fn ttl(&self, key: &str) -> (out: Result<i64, CacheError>)
        requires
            self.wf(),
        ensures
            self@.reachable ==> out == Ok::<i64, CacheError>(self@.ttl(key@) as i64),
            self@.reachable ==> i64::MIN <= self@.ttl(key@) <= i64::MAX,
            !self@.reachable ==> out == Err::<i64, CacheError>(CacheError::Unreachable),
    {
        if !self.reachable {
            return Err(CacheError::Unreachable);
        }
        proof {
            lemma_slots(self.entries@);
        }
        match self.find(key) {
            Some(at) => match self.entries[at].remaining {
                Some(left) => Ok(left),
                None => Ok(-1),
            },
            None => Ok(-2),
        }
    }

    /// Writes `value` under `key`. The value has no time to live until
    /// [`Redis::expire`] gives it one.
    pub fn set(&mut self, key: &str, value: Json) -> (out: Result<(), CacheError>)
        requires
            old(self).wf(),
        ensures
            final(self).wf(),
            final(self)@ == old(self)@.set(key@, value@),
            out is Ok <==> old(self)@.reachable,
            out is Err ==> out == Err::<(), CacheError>(CacheError::Unreachable),
    {
        if !self.reachable {
            return Err(CacheError::Unreachable);
        }
        let ghost before = self.entries@;
        let entry = Entry { key: String::from_str(key), value, remaining: None };
        let ghost slot = entry.slot();
        let found: Option<usize> = self.find(key);
        match found {
            Some(at) => {
                self.entries.set(at, entry);
            },
            None => {
                self.entries.push(entry);
            },
        }
        proof {
            let after = self.entries@;
            let at: int = match found {
                Some(at) => at as int,
                None => before.len() as int,
            };
            assert(after[at].key@ == key@ && after[at].slot() == slot);
            assert forall|i: int| 0 <= i < after.len() && i != at implies after[i] == before[i]
                && (#[trigger] after[i]).key@ != key@ by {
                assert(before[i].key@ != key@) by {
                    if found is Some {
                        assert(before[i].key@ != before[at].key@);
                    }
                }
            }
            lemma_slots(before);
            let wanted = slots_of(before).insert(key@, slot);
            assert forall|k: Seq<char>| #[trigger] wanted.contains_key(k) implies holds_key(
                after,
                k,
            ) by {
                if k != key@ {
                    assert(holds_key(before, k));
                    let i = choose|i: int| 0 <= i < before.len() && (#[trigger] before[i]).key@ == k;
                    assert(after[i].key@ == k);
                }
            }
            lemma_agrees(after, wanted);
        }
        Ok(())
    }

    /// Gives the value under `key` a time to live of `seconds`.
    pub fn expire(&mut self, key: &str, seconds: i64) -> (out: Result<(), CacheError>)
        requires
            old(self).wf(),
        ensures
            final(self).wf(),
            final(self)@ == old(self)@.expire(key@, seconds as int),
            out is Ok <==> old(self)@.reachable,
            out is Err ==> out == Err::<(), CacheError>(CacheError::Unreachable),
    {
        if !self.reachable {
            return Err(CacheError::Unreachable);
        }
        let ghost before = self.entries@;
        proof {
            lemma_slots(before);
        }
        match self.find(key) {
            Some(at) => {
                let entry: Entry = self.entries.remove(at);
                if seconds > 0 {
                    let renewed = Entry {
                        key: entry.key,
                        value: entry.value,
                        remaining: Some(seconds),
                    };
                    self.entries.insert(at, renewed);
                    proof {
                        let after = self.entries@;
                        assert forall|i: int| 0 <= i < after.len() && i != at implies after[i]
                            == before[i] by {}
                        let wanted = slots_of(before).insert(key@, after[at as int].slot());
                        assert forall|k: Seq<char>| #[trigger]
                            wanted.contains_key(k) implies holds_key(after, k) by {
                            if k != key@ {
                                assert(holds_key(before, k));
                                let i = choose|i: int|
                                    0 <= i < before.len() && (#[trigger] before[i]).key@ == k;
                                assert(after[i].key@ == k);
                            } else {
                                assert(after[at as int].key@ == k);
                            }
                        }
                        assert forall|i: int, j: int| 0 <= i < j < after.len() implies (
                        #[trigger] after[i]).key@ != (#[trigger] after[j]).key@ by {
                            assert(before[i].key@ != before[j].key@);
                        }
                        assert forall|i: int| 0 <= i < after.len() implies wanted.contains_key(
                            (#[trigger] after[i]).key@,
                        ) && wanted[after[i].key@] == after[i].slot() by {
                            if i != at {
                                assert(before[i].key@ != before[at as int].key@);
                            }
                        }
                        lemma_agrees(after, wanted);
                    }
                } else {
                    proof {
                        let after = self.entries@;
                        let wanted = slots_of(before).remove(key@);
                        assert forall|i: int| 0 <= i < after.len() implies (#[trigger] after[i])
                            == before[if i < at { i } else { i + 1 }] by {}
                        assert forall|i: int, j: int| 0 <= i < j < after.len() implies (
                        #[trigger] after[i]).key@ != (#[trigger] after[j]).key@ by {
                            let from_i = if i < at { i } else { i + 1 };
                            let from_j = if j < at { j } else { j + 1 };
                            assert(before[from_i].key@ != before[from_j].key@);
                        }
                        assert forall|i: int| 0 <= i < after.len() implies wanted.contains_key(
                            (#[trigger] after[i]).key@,
                        ) && wanted[after[i].key@] == after[i].slot() by {
                            let from = if i < at { i } else { i + 1 };
                            assert(before[from].key@ != before[at as int].key@);
                        }
                        assert forall|k: Seq<char>| #[trigger]
                            wanted.contains_key(k) implies holds_key(after, k) by {
                            assert(holds_key(before, k));
                            let i = choose|i: int|
                                0 <= i < before.len() && (#[trigger] before[i]).key@ == k;
                            let to = if i < at { i } else { i - 1 };
                            assert(after[to].key@ == k);
                        }
                        lemma_agrees(after, wanted);
                    }
                }
            },
            None => {},
        }
        Ok(())
    }

    /// Moves the clock on by `seconds`.
    pub fn advance(&mut self, seconds: u64)
        requires
            old(self).wf(),
        ensures
            final(self).wf(),
            final(self)@ == old(self)@.later(seconds as nat),
    {
        let ghost before = self.entries@;
        let mut rest: Vec<Entry> = Vec::new();
        std::mem::swap(&mut rest, &mut self.entries);
        let mut kept: Vec<Entry> = Vec::new();
        let ghost mut origin: Seq<int> = Seq::empty();
        while rest.len() > 0
            invariant
                distinct(before),
                timed(before),
                rest@ == before.take(rest@.len() as int),
                rest@.len() <= before.len(),
                origin.len() == kept@.len(),
                timed(kept@),
                forall|j: int|
                    0 <= j < kept@.len() ==> rest@.len() <= #[trigger] origin[j] < before.len(),
                forall|j: int, k: int| 0 <= j < k < kept@.len() ==> origin[j] > origin[k],
                forall|j: int|
                    0 <= j < kept@.len() ==> (#[trigger] kept@[j]).key@ == before[origin[j]].key@
                        && before[origin[j]].slot().outlasts(seconds as nat) && kept@[j].slot()
                        == before[origin[j]].slot().aged(seconds as nat),
                forall|i: int|
                    rest@.len() <= i < before.len() && (#[trigger] before[i]).slot().outlasts(
                        seconds as nat,
                    ) ==> holds_key(kept@, before[i].key@),
            decreases rest@.len(),
        {
            let ghost held = kept@;
            let ghost at = rest@.len() - 1;
            let entry: Entry = rest.pop().unwrap();
            assert(entry == before[at]);
            let stays: Option<Option<i64>> = match entry.remaining {
                None => Some(None),
                Some(left) => if left as u64 > seconds {
                    Some(Some(left - (seconds as i64)))
                } else {
                    None
                },
            };
            match stays {
                Some(remaining) => {
                    kept.push(Entry { key: entry.key, value: entry.value, remaining });
                    proof {
                        origin = origin.push(at);
                        assert forall|i: int|
                            rest@.len() <= i < before.len() && (#[trigger] before[i]).slot().outlasts(
                                seconds as nat,
                            ) implies holds_key(kept@, before[i].key@) by {
                            if i == at {
                                assert(kept@[held.len() as int].key@ == before[i].key@);
                            } else {
                                assert(holds_key(held, before[i].key@));
                                let j = choose|j: int|
                                    0 <= j < held.len() && (#[trigger] held[j]).key@
                                        == before[i].key@;
                                assert(kept@[j].key@ == before[i].key@);
                            }
                        }
                    }
                },
                None => {},
            }
        }
        self.entries = kept;
        proof {
            let after = self.entries@;
            lemma_slots(before);
            let wanted = old(self)@.later(seconds as nat).slots;
            assert forall|i: int, j: int| 0 <= i < j < after.len() implies (#[trigger] after[i]).key@
                != (#[trigger] after[j]).key@ by {
                assert(before[origin[i]].key@ != before[origin[j]].key@);
            }
            assert forall|i: int| 0 <= i < after.len() implies wanted.contains_key(
                (#[trigger] after[i]).key@,
            ) && wanted[after[i].key@] == after[i].slot() by {
                assert(slots_of(before).contains_key(before[origin[i]].key@));
            }
            assert forall|k: Seq<char>| #[trigger] wanted.contains_key(k) implies holds_key(
                after,
                k,
            ) by {
                assert(holds_key(before, k));
                let i = choose|i: int| 0 <= i < before.len() && (#[trigger] before[i]).key@ == k;
                assert(slots_of(before)[before[i].key@] == before[i].slot());
            }
            lemma_agrees(after, wanted);
        }
    }
}

} // verus!
