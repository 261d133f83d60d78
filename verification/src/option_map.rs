//! Segment option values and the per-segment option table.
use vstd::prelude::*;

use crate::text::{int_string, int_text, str_eq, to_string};

verus! {

/// A stored option value: what `[segments.options]` holds for one key.
pub enum OptionValue {
    Bool(bool),
    /// An integer (what `parse_value` makes of integer text).
    Int(i64),
    /// A non-integer number, held as the text serde_json renders for it.
    Float(String),
    Str(String),
    /// Any other value (null, arrays, tables, integers beyond `i64`), held as its JSON text.
    Other(String),
}

/// Mathematical model of an [`OptionValue`].
pub enum OptionVal {
    Bool(bool),
    Int(int),
    Float(Seq<char>),
    Str(Seq<char>),
    Other(Seq<char>),
}

impl View for OptionValue {
    type V = OptionVal;

    open spec fn view(&self) -> OptionVal {
        match self {
            OptionValue::Bool(b) => OptionVal::Bool(*b),
            OptionValue::Int(n) => OptionVal::Int(*n as int),
            OptionValue::Float(t) => OptionVal::Float(t@),
            OptionValue::Str(t) => OptionVal::Str(t@),
            OptionValue::Other(t) => OptionVal::Other(t@),
        }
    }
}

/// How a value reads back as the user would type it: strings bare, everything
/// else as JSON.
pub open spec fn display_text(v: OptionVal) -> Seq<char> {
    match v {
        OptionVal::Bool(b) => if b {
            seq!['t', 'r', 'u', 'e']
        } else {
            seq!['f', 'a', 'l', 's', 'e']
        },
        OptionVal::Int(n) => int_text(n),
        OptionVal::Float(t) => t,
        OptionVal::Str(t) => t,
        OptionVal::Other(t) => t,
    }
}

/// `Value::as_bool`.
pub open spec fn val_as_bool(v: OptionVal) -> Option<bool> {
    match v {
        OptionVal::Bool(b) => Some(b),
        _ => None,
    }
}

/// `Value::as_str`.
pub open spec fn val_as_str(v: OptionVal) -> Option<Seq<char>> {
    match v {
        OptionVal::Str(t) => Some(t),
        _ => None,
    }
}

/// `Value::as_u64`: non-negative integers.
pub open spec fn val_as_u64(v: OptionVal) -> Option<int> {
    match v {
        OptionVal::Int(n) => if n >= 0 {
            Some(n)
        } else {
            None
        },
        _ => None,
    }
}

impl OptionValue {
    /// Rendering of the value as the user would type it.
    pub fn display(&self) -> (r: String)
        ensures
            r@ == display_text(self@),
    {
        match self {
            OptionValue::Bool(b) => {
                let r = if *b {
                    to_string("true")
                } else {
                    to_string("false")
                };
                proof {
                    reveal_strlit("true");
                    reveal_strlit("false");
                }
                assert(r@ =~= display_text(self@));
                r
            },
            OptionValue::Int(n) => int_string(*n),
            OptionValue::Float(t) => t.clone(),
            OptionValue::Str(t) => t.clone(),
            OptionValue::Other(t) => t.clone(),
        }
    }

    pub fn as_bool(&self) -> (r: Option<bool>)
        ensures
            r == val_as_bool(self@),
    {
        match self {
            OptionValue::Bool(b) => Some(*b),
            _ => None,
        }
    }

    pub fn as_str(&self) -> (r: Option<&str>)
        ensures
            match r {
                Some(t) => val_as_str(self@) == Some(t@),
                None => val_as_str(self@) is None,
            },
    {
        match self {
            OptionValue::Str(t) => Some(t.as_str()),
            _ => None,
        }
    }

    pub fn as_u64(&self) -> (r: Option<u64>)
        ensures
            match r {
                Some(n) => val_as_u64(self@) == Some(n as int),
                None => val_as_u64(self@) is None,
            },
    {
        match self {
            OptionValue::Int(n) => if *n >= 0 {
                Some(*n as u64)
            } else {
                None
            },
            _ => None,
        }
    }

    /// Whether two values are equal.
    pub fn same_as(&self, other: &OptionValue) -> (r: bool)
        ensures
            r == (self@ == other@),
    {
        match (self, other) {
            (OptionValue::Bool(a), OptionValue::Bool(b)) => *a == *b,
            (OptionValue::Int(a), OptionValue::Int(b)) => *a == *b,
            (OptionValue::Float(a), OptionValue::Float(b)) => str_eq(a.as_str(), b.as_str()),
            (OptionValue::Str(a), OptionValue::Str(b)) => str_eq(a.as_str(), b.as_str()),
            (OptionValue::Other(a), OptionValue::Other(b)) => str_eq(a.as_str(), b.as_str()),
            _ => false,
        }
    }
}

/// The entry index of key `k` in a list of entries.
pub open spec fn key_index(s: Seq<(Seq<char>, OptionVal)>, k: Seq<char>) -> int {
    choose|i: int| 0 <= i < s.len() && s[i].0 == k
}

/// The map a list of entries with distinct keys stands for.
pub open spec fn entries_map(s: Seq<(Seq<char>, OptionVal)>) -> Map<Seq<char>, OptionVal> {
    Map::new(
        |k: Seq<char>| exists|i: int| 0 <= i < s.len() && s[i].0 == k,
        |k: Seq<char>| s[key_index(s, k)].1,
    )
}

pub open spec fn keys_distinct(s: Seq<(Seq<char>, OptionVal)>) -> bool {
    forall|i: int, j: int| 0 <= i < s.len() && 0 <= j < s.len() && i != j ==> s[i].0 != s[j].0
}

proof fn lemma_entries_map_at(s: Seq<(Seq<char>, OptionVal)>, i: int)
    requires
        keys_distinct(s),
        0 <= i < s.len(),
    ensures
        entries_map(s).contains_key(s[i].0),
        entries_map(s)[s[i].0] == s[i].1,
{
    let k = s[i].0;
    assert(exists|j: int| 0 <= j < s.len() && s[j].0 == k);
    let j = key_index(s, k);
    assert(j == i);
}

proof fn lemma_entries_update(s: Seq<(Seq<char>, OptionVal)>, i: int, v: OptionVal)
    requires
        keys_distinct(s),
        0 <= i < s.len(),
    ensures
        keys_distinct(s.update(i, (s[i].0, v))),
        entries_map(s.update(i, (s[i].0, v))) =~= entries_map(s).insert(s[i].0, v),
{
    let k = s[i].0;
    let t = s.update(i, (k, v));
    assert forall|x: Seq<char>| #[trigger] entries_map(t).contains_key(x) <==> entries_map(s).insert(
        k,
        v,
    ).contains_key(x) by {
        if exists|j: int| 0 <= j < s.len() && s[j].0 == x {
            let j = choose|j: int| 0 <= j < s.len() && s[j].0 == x;
            assert(t[j].0 == x);
        }
        if exists|j: int| 0 <= j < t.len() && t[j].0 == x {
            let j = choose|j: int| 0 <= j < t.len() && t[j].0 == x;
            assert(s[j].0 == x);
        }
    }
    assert forall|x: Seq<char>| #[trigger] entries_map(t).contains_key(x) implies entries_map(t)[x]
        == entries_map(s).insert(k, v)[x] by {
        let j = choose|j: int| 0 <= j < t.len() && t[j].0 == x;
        lemma_entries_map_at(t, j);
        if j != i {
            lemma_entries_map_at(s, j);
        } else {
            lemma_entries_map_at(t, i);
        }
    }
}

proof fn lemma_entries_push(s: Seq<(Seq<char>, OptionVal)>, k: Seq<char>, v: OptionVal)
    requires
        keys_distinct(s),
        !entries_map(s).contains_key(k),
    ensures
        keys_distinct(s.push((k, v))),
        entries_map(s.push((k, v))) =~= entries_map(s).insert(k, v),
{
    let t = s.push((k, v));
    assert forall|j: int| 0 <= j < s.len() implies s[j].0 != k by {
        if s[j].0 == k {
            assert(entries_map(s).contains_key(k));
        }
    }
    assert forall|x: Seq<char>| #[trigger] entries_map(t).contains_key(x) <==> entries_map(s).insert(
        k,
        v,
    ).contains_key(x) by {
        if exists|j: int| 0 <= j < s.len() && s[j].0 == x {
            let j = choose|j: int| 0 <= j < s.len() && s[j].0 == x;
            assert(t[j].0 == x);
        }
        if x == k {
            assert(t[s.len() as int].0 == x);
        }
        if exists|j: int| 0 <= j < t.len() && t[j].0 == x {
            let j = choose|j: int| 0 <= j < t.len() && t[j].0 == x;
            if j < s.len() {
                assert(s[j].0 == x);
            }
        }
    }
    assert forall|x: Seq<char>| #[trigger] entries_map(t).contains_key(x) implies entries_map(t)[x]
        == entries_map(s).insert(k, v)[x] by {
        let j = choose|j: int| 0 <= j < t.len() && t[j].0 == x;
        lemma_entries_map_at(t, j);
        if j < s.len() {
            lemma_entries_map_at(s, j);
        }
    }
}

proof fn lemma_entries_remove(s: Seq<(Seq<char>, OptionVal)>, i: int)
    requires
        keys_distinct(s),
        0 <= i < s.len(),
    ensures
        keys_distinct(s.remove(i)),
        entries_map(s.remove(i)) =~= entries_map(s).remove(s[i].0),
{
    let k = s[i].0;
    let t = s.remove(i);
    assert forall|a: int, b: int| 0 <= a < t.len() && 0 <= b < t.len() && a != b implies t[a].0
        != t[b].0 by {
        let a2 = if a < i {
            a
        } else {
            a + 1
        };
        let b2 = if b < i {
            b
        } else {
            b + 1
        };
        assert(t[a] == s[a2]);
        assert(t[b] == s[b2]);
    }
    assert forall|x: Seq<char>| #[trigger] entries_map(t).contains_key(x) <==> entries_map(s).remove(
        k,
    ).contains_key(x) by {
        if exists|j: int| 0 <= j < s.len() && s[j].0 == x {
            let j = choose|j: int| 0 <= j < s.len() && s[j].0 == x;
            if x != k {
                assert(j != i);
                let j2 = if j < i {
                    j
                } else {
                    j - 1
                };
                assert(t[j2].0 == x);
            }
        }
        if exists|j: int| 0 <= j < t.len() && t[j].0 == x {
            let j = choose|j: int| 0 <= j < t.len() && t[j].0 == x;
            let j2 = if j < i {
                j
            } else {
                j + 1
            };
            assert(s[j2].0 == x);
            assert(j2 != i);
        }
    }
    assert forall|x: Seq<char>| #[trigger] entries_map(t).contains_key(x) implies entries_map(t)[x]
        == entries_map(s).remove(k)[x] by {
        let j = choose|j: int| 0 <= j < t.len() && t[j].0 == x;
        let j2 = if j < i {
            j
        } else {
            j + 1
        };
        assert(t[j] == s[j2]);
        lemma_entries_map_at(t, j);
        lemma_entries_map_at(s, j2);
    }
}

/// A segment's option table: keys are distinct, entries keep the order in
/// which keys were first set.
pub struct OptionMap {
    entries: Vec<(String, OptionValue)>,
}

impl OptionMap {
    /// The entries, as key text and value model, in order.
    pub closed spec fn pairs(&self) -> Seq<(Seq<char>, OptionVal)> {
        self.entries@.map_values(|e: (String, OptionValue)| (e.0@, e.1@))
    }

    #[verifier::type_invariant]
    closed spec fn inv(&self) -> bool {
        keys_distinct(self.pairs())
    }

    /// The keys, in entry order.
    pub open spec fn key_order(&self) -> Seq<Seq<char>> {
        self.pairs().map_values(|p: (Seq<char>, OptionVal)| p.0)
    }

    pub fn new() -> (m: OptionMap)
        ensures
            m@ == Map::<Seq<char>, OptionVal>::empty(),
            m.pairs() == Seq::<(Seq<char>, OptionVal)>::empty(),
    {
        let m = OptionMap { entries: Vec::new() };
        assert(m.pairs() =~= Seq::<(Seq<char>, OptionVal)>::empty());
        assert(m@ =~= Map::<Seq<char>, OptionVal>::empty());
        m
    }

    pub fn len(&self) -> (n: usize)
        ensures
            n == self.pairs().len(),
    {
        self.entries.len()
    }

    /// Index of `key` among the entries.
    fn find(&self, key: &str) -> (r: Option<usize>)
        ensures
            match r {
                Some(i) => i < self.pairs().len() && self.pairs()[i as int].0 == key@,
                None => !self@.contains_key(key@),
            },
    {
        let mut i: usize = 0;
        while i < self.entries.len()
            invariant
                i <= self.entries.len(),
                forall|j: int| 0 <= j < i ==> self.pairs()[j].0 != key@,
            decreases self.entries.len() - i,
        {
            if str_eq(self.entries[i].0.as_str(), key) {
                return Some(i);
            }
            i = i + 1;
        }
        None
    }

    /// The value stored under `key`.
    pub fn get(&self, key: &str) -> (r: Option<&OptionValue>)
        ensures
            match r {
                Some(v) => self@.contains_key(key@) && self@[key@] == v@,
                None => !self@.contains_key(key@),
            },
    {
        proof {
            use_type_invariant(self);
        }
        match self.find(key) {
            Some(i) => {
                proof {
                    lemma_entries_map_at(self.pairs(), i as int);
                }
                Some(&self.entries[i].1)
            },
            None => None,
        }
    }

    pub fn contains_key(&self, key: &str) -> (r: bool)
        ensures
            r == self@.contains_key(key@),
    {
        match self.get(key) {
            Some(_) => true,
            None => false,
        }
    }
}

impl View for OptionMap {
    type V = Map<Seq<char>, OptionVal>;

    open spec fn view(&self) -> Map<Seq<char>, OptionVal> {
        entries_map(self.pairs())
    }
}


impl OptionMap {
    /// Stores `value` under `key`, replacing any earlier value; a new key goes last.
    pub fn insert(&mut self, key: String, value: OptionValue)
        ensures
            final(self)@ == old(self)@.insert(key@, value@),
            final(self).key_order() == (if old(self)@.contains_key(key@) {
                old(self).key_order()
            } else {
                old(self).key_order().push(key@)
            }),
    {
        proof {
            use_type_invariant(&*self);
        }
        let idx = self.find(key.as_str());
        let ghost old_pairs = self.pairs();
        let ghost kv = key@;
        let ghost vv = value@;
        let mut entries: Vec<(String, OptionValue)> = Vec::new();
        std::mem::swap(&mut entries, &mut self.entries);
        match idx {
            Some(i) => {
                entries.set(i, (key, value));
                proof {
                    lemma_entries_update(old_pairs, i as int, vv);
                }
            },
            None => {
                entries.push((key, value));
                proof {
                    lemma_entries_push(old_pairs, kv, vv);
                }
            },
        }
        let ghost new_pairs = entries@.map_values(|e: (String, OptionValue)| (e.0@, e.1@));
        assert(idx is Some ==> new_pairs =~= old_pairs.update(idx->0 as int, (kv, vv)));
        assert(idx is None ==> new_pairs =~= old_pairs.push((kv, vv)));
        self.entries = entries;
        assert(idx is Some ==> self.key_order() =~= old(self).key_order());
        assert(idx is None ==> self.key_order() =~= old(self).key_order().push(kv));
    }

    /// Removes `key`; gives back the value it held.
    pub fn remove(&mut self, key: &str) -> (r: Option<OptionValue>)
        ensures
            final(self)@ == old(self)@.remove(key@),
            match r {
                Some(v) => old(self)@.contains_key(key@) && old(self)@[key@] == v@,
                None => !old(self)@.contains_key(key@),
            },
    {
        proof {
            use_type_invariant(&*self);
        }
        let idx = self.find(key);
        match idx {
            None => {
                assert(self@ =~= old(self)@.remove(key@));
                None
            },
            Some(i) => {
                let ghost old_pairs = self.pairs();
                let mut entries: Vec<(String, OptionValue)> = Vec::new();
                std::mem::swap(&mut entries, &mut self.entries);
                let (_, v) = entries.remove(i);
                proof {
                    lemma_entries_remove(old_pairs, i as int);
                    lemma_entries_map_at(old_pairs, i as int);
                }
                let ghost new_pairs = entries@.map_values(|e: (String, OptionValue)| (e.0@, e.1@));
                assert(new_pairs =~= old_pairs.remove(i as int));
                self.entries = entries;
                Some(v)
            },
        }
    }

    /// The key and value of entry `i`.
    pub fn entry(&self, i: usize) -> (r: (&String, &OptionValue))
        requires
            i < self.pairs().len(),
        ensures
            (r.0@, r.1@) == self.pairs()[i as int],
            self@.contains_key(r.0@),
            self@[r.0@] == r.1@,
    {
        proof {
            use_type_invariant(self);
            lemma_entries_map_at(self.pairs(), i as int);
        }
        (&self.entries[i].0, &self.entries[i].1)
    }

    /// Every key of the table is the key of some entry, and entry keys are distinct.
    pub fn keys_cover(&self)
        ensures
            keys_distinct(self.pairs()),
            forall|k: Seq<char>| #[trigger]
                self@.contains_key(k) <==> self.key_order().contains(k),
    {
        proof {
            use_type_invariant(self);
            assert forall|k: Seq<char>| #[trigger]
                self@.contains_key(k) <==> self.key_order().contains(k) by {
                if self@.contains_key(k) {
                    let j = choose|j: int| 0 <= j < self.pairs().len() && self.pairs()[j].0 == k;
                    assert(self.key_order()[j] == k);
                }
                if self.key_order().contains(k) {
                    let j = choose|j: int| 0 <= j < self.key_order().len() && self.key_order()[j] == k;
                    assert(self.pairs()[j].0 == k);
                }
            }
        }
    }

    /// Whether both tables hold the same keys with equal values.
    pub fn same_as(&self, other: &OptionMap) -> (r: bool)
        ensures
            r == (self@ == other@),
    {
        proof {
            use_type_invariant(self);
            use_type_invariant(other);
        }
        let mut i: usize = 0;
        while i < self.entries.len()
            invariant
                i <= self.entries.len(),
                keys_distinct(self.pairs()),
                forall|j: int|
                    0 <= j < i ==> #[trigger] other@.contains_key(self.pairs()[j].0)
                        && other@[self.pairs()[j].0] == self.pairs()[j].1,
            decreases self.entries.len() - i,
        {
            let key = self.entries[i].0.as_str();
            match other.get(key) {
                Some(w) => {
                    if !self.entries[i].1.same_as(w) {
                        proof {
                            lemma_entries_map_at(self.pairs(), i as int);
                        }
                        return false;
                    }
                },
                None => {
                    proof {
                        lemma_entries_map_at(self.pairs(), i as int);
                    }
                    return false;
                },
            }
            i = i + 1;
        }
        let mut j: usize = 0;
        while j < other.entries.len()
            invariant
                j <= other.entries.len(),
                keys_distinct(other.pairs()),
                forall|q: int| 0 <= q < j ==> #[trigger] self@.contains_key(other.pairs()[q].0),
            decreases other.entries.len() - j,
        {
            if !self.contains_key(other.entries[j].0.as_str()) {
                proof {
                    lemma_entries_map_at(other.pairs(), j as int);
                }
                return false;
            }
            j = j + 1;
        }
        assert(self@ =~= other@) by {
            assert forall|k: Seq<char>| #[trigger] self@.contains_key(k) implies other@.contains_key(k)
                && other@[k] == self@[k] by {
                let q = choose|q: int| 0 <= q < self.pairs().len() && self.pairs()[q].0 == k;
                lemma_entries_map_at(self.pairs(), q);
            }
            assert forall|k: Seq<char>| #[trigger] other@.contains_key(k) implies self@.contains_key(k) by {
                let q = choose|q: int| 0 <= q < other.pairs().len() && other.pairs()[q].0 == k;
                assert(self@.contains_key(other.pairs()[q].0));
            }
        }
        true
    }
}

} // verus!
