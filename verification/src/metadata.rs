//! Free-form metadata of an entity: a map from field names to values, in which
//! each name occurs at most once.

use vstd::prelude::*;
use crate::text::str_eq;

verus! {

broadcast use vstd::string::group_string_axioms;

/// A metadata value: a text, or any other JSON value kept as its JSON text.
#[derive(Debug)]
pub enum MetaValue {
    /// A JSON string.
    Text(String),
    /// A JSON value that is not a string (number, boolean, null, array or object), as JSON text.
    Json(String),
}

/// The mathematical value of a `MetaValue`.
pub enum MetaVal {
    Text(Seq<char>),
    Json(Seq<char>),
}

impl View for MetaValue {
    type V = MetaVal;

    open spec fn view(&self) -> MetaVal {
        match self {
            MetaValue::Text(s) => MetaVal::Text(s@),
            MetaValue::Json(s) => MetaVal::Json(s@),
        }
    }
}

impl MetaValue {
    /// A copy of the value.
    pub fn duplicate(&self) -> (r: MetaValue)
        ensures
            r@ == self@,
    {
        match self {
            MetaValue::Text(s) => MetaValue::Text(s.clone()),
            MetaValue::Json(s) => MetaValue::Json(s.clone()),
        }
    }

    /// The text of a string value, `None` for any other value.
    pub fn as_text(&self) -> (r: Option<&String>)
        ensures
            match self@ {
                MetaVal::Text(t) => r is Some && r->0@ == t,
                MetaVal::Json(_) => r is None,
            },
    {
        match self {
            MetaValue::Text(s) => Some(s),
            MetaValue::Json(_) => None,
        }
    }
}

/// The map that a list of entries describes, later entries taking precedence.
pub open spec fn entries_map(s: Seq<(String, MetaValue)>) -> Map<Seq<char>, MetaVal>
    decreases s.len(),
{
    if s.len() == 0 {
        Map::empty()
    } else {
        entries_map(s.drop_last()).insert(s.last().0@, s.last().1@)
    }
}

/// No two entries share a name.
pub open spec fn keys_unique(s: Seq<(String, MetaValue)>) -> bool {
    forall|i: int, j: int| 0 <= i < s.len() && 0 <= j < s.len() && i != j ==> s[i].0@ != s[j].0@
}

/// A name is in the map exactly when an entry carries it, and then the map holds that entry's value.
pub proof fn lemma_entries_map_lookup(s: Seq<(String, MetaValue)>, k: Seq<char>)
    requires
        keys_unique(s),
    ensures
        entries_map(s).contains_key(k) <==> exists|i: int| 0 <= i < s.len() && s[i].0@ == k,
        forall|i: int| 0 <= i < s.len() && s[i].0@ == k ==> entries_map(s)[k] == s[i].1@,
    decreases s.len(),
{
    if s.len() > 0 {
        let p = s.drop_last();
        assert(keys_unique(p));
        lemma_entries_map_lookup(p, k);
        if entries_map(s).contains_key(k) {
            if s.last().0@ != k {
                let i = choose|i: int| 0 <= i < p.len() && p[i].0@ == k;
                assert(s[i].0@ == k);
            } else {
                assert(s[s.len() - 1].0@ == k);
            }
        }
        if exists|i: int| 0 <= i < s.len() && s[i].0@ == k {
            let i = choose|i: int| 0 <= i < s.len() && s[i].0@ == k;
            if i < s.len() - 1 {
                assert(p[i].0@ == k);
            }
        }
        assert forall|i: int| 0 <= i < s.len() && s[i].0@ == k implies entries_map(s)[k] == s[i].1@ by {
            if i < s.len() - 1 {
                assert(p[i].0@ == k);
                assert(s.last().0@ != k);
            }
        }
    }
}

/// Replacing the value of an existing entry replaces it in the map.
pub proof fn lemma_entries_map_update(s: Seq<(String, MetaValue)>, i: int, e: (String, MetaValue))
    requires
        keys_unique(s),
        0 <= i < s.len(),
        s[i].0@ == e.0@,
    ensures
        entries_map(s.update(i, e)) == entries_map(s).insert(e.0@, e.1@),
    decreases s.len(),
{
    let t = s.update(i, e);
    if i == s.len() - 1 {
        assert(t.drop_last() == s.drop_last());
        assert(entries_map(t) =~= entries_map(s).insert(e.0@, e.1@));
    } else {
        let p = s.drop_last();
        assert(keys_unique(p));
        assert(t.drop_last() == p.update(i, e));
        lemma_entries_map_update(p, i, e);
        assert(s.last().0@ != s[i].0@);
        assert(entries_map(t) =~= entries_map(s).insert(e.0@, e.1@));
    }
}

/// A list of entries with distinct names describes a finite map with as many names as entries.
pub proof fn lemma_entries_map_len(s: Seq<(String, MetaValue)>)
    requires
        keys_unique(s),
    ensures
        entries_map(s).dom().finite(),
        entries_map(s).dom().len() == s.len(),
    decreases s.len(),
{
    if s.len() > 0 {
        let p = s.drop_last();
        assert(keys_unique(p));
        lemma_entries_map_len(p);
        lemma_entries_map_lookup(p, s.last().0@);
        if entries_map(p).contains_key(s.last().0@) {
            let i = choose|i: int| 0 <= i < p.len() && p[i].0@ == s.last().0@;
            assert(s[i].0@ == s[s.len() - 1].0@);
        }
    }
}

/// The metadata after naming each text value of `args` by its key in turn, starting from `m`.
pub open spec fn with_texts(m: Map<Seq<char>, MetaVal>, args: Seq<(Seq<char>, Seq<char>)>) -> Map<Seq<char>, MetaVal>
    decreases args.len(),
{
    if args.len() == 0 {
        m
    } else {
        with_texts(m, args.drop_last()).insert(args.last().0, MetaVal::Text(args.last().1))
    }
}

/// Names each text value of `args` by its key, in order.
pub fn insert_texts(m: &mut Metadata, args: Vec<(String, String)>)
    ensures
        final(m)@ == with_texts(old(m)@, crate::keyval::pairs_view(args@)),
{
    let ghost all = crate::keyval::pairs_view(args@);
    for arg in it: args.into_iter()
        invariant
            all == crate::keyval::pairs_view(it.seq()),
            m@ == with_texts(old(m)@, all.take(it.index())),
    {
        assert(all.take(it.index() + 1).drop_last() == all.take(it.index()));
        assert(all[it.index()] == (arg.0@, arg.1@));
        let (k, v) = arg;
        m.insert(k, MetaValue::Text(v));
    }
    assert(all.take(all.len() as int) == all);
}

/// The metadata of an entity: named values, each name at most once.
#[derive(Debug)]
pub struct Metadata {
    entries: Vec<(String, MetaValue)>,
}

impl View for Metadata {
    type V = Map<Seq<char>, MetaVal>;

    closed spec fn view(&self) -> Map<Seq<char>, MetaVal> {
        entries_map(self.entries@)
    }
}

impl Metadata {
    #[verifier::type_invariant]
    spec fn distinct_names(self) -> bool {
        keys_unique(self.entries@)
    }

    /// The entries, in the order in which their names were first set.
    pub closed spec fn entry_seq(self) -> Seq<(String, MetaValue)> {
        self.entries@
    }

    /// Metadata without any entry.
    pub fn new() -> (m: Metadata)
        ensures
            m@ == Map::<Seq<char>, MetaVal>::empty(),
            m.entry_seq().len() == 0,
    {
        Metadata { entries: Vec::new() }
    }

    /// The position of the entry named `key`.
    fn position(&self, key: &str) -> (r: Option<usize>)
        ensures
            match r {
                Some(i) => i < self.entries@.len() && self.entries@[i as int].0@ == key@,
                None => forall|j: int| 0 <= j < self.entries@.len() ==> self.entries@[j].0@ != key@,
            },
    {
        let mut i: usize = 0;
        while i < self.entries.len()
            invariant
                i <= self.entries@.len(),
                forall|j: int| 0 <= j < i ==> self.entries@[j].0@ != key@,
            decreases self.entries@.len() - i,
        {
            if str_eq(self.entries[i].0.as_str(), key) {
                return Some(i);
            }
            i = i + 1;
        }
        None
    }

    /// The value named `key`, if any.
    pub fn get(&self, key: &str) -> (r: Option<&MetaValue>)
        ensures
            match r {
                Some(v) => self@.contains_key(key@) && self@[key@] == v@,
                None => !self@.contains_key(key@),
            },
    {
        proof {
            use_type_invariant(self);
            lemma_entries_map_lookup(self.entries@, key@);
        }
        match self.position(key) {
            Some(i) => Some(&self.entries[i].1),
            None => None,
        }
    }

    /// Whether a value is named `key`.
    pub fn contains_key(&self, key: &str) -> (r: bool)
        ensures
            r == self@.contains_key(key@),
    {
        proof {
            use_type_invariant(self);
            lemma_entries_map_lookup(self.entries@, key@);
        }
        self.position(key).is_some()
    }

    /// The number of named values.
    pub fn len(&self) -> (n: usize)
        ensures
            self@.dom().finite(),
            n == self@.dom().len(),
    {
        proof {
            use_type_invariant(self);
            lemma_entries_map_len(self.entries@);
        }
        self.entries.len()
    }

    /// Whether no value is named.
    pub fn is_empty(&self) -> (r: bool)
        ensures
            r == (self@.dom().len() == 0),
            self@.dom().finite(),
    {
        self.len() == 0
    }

    /// Names `value` by `key`, replacing any value that `key` named before.
    pub fn insert(&mut self, key: String, value: MetaValue)
        ensures
            final(self)@ == old(self)@.insert(key@, value@),
    {
        proof {
            use_type_invariant(&*self);
        }
        let ghost before = self.entries@;
        let found = self.position(key.as_str());
        let mut entries: Vec<(String, MetaValue)> = Vec::new();
        std::mem::swap(&mut entries, &mut self.entries);
        match found {
            Some(i) => {
                let ghost e = (key, value);
                proof {
                    lemma_entries_map_update(before, i as int, e);
                }
                entries.set(i, (key, value));
                assert(entries@ == before.update(i as int, e));
                assert(keys_unique(entries@));
            },
            None => {
                entries.push((key, value));
                assert(entries@.drop_last() == before);
                assert(keys_unique(entries@));
            },
        }
        self.entries = entries;
    }

    /// The named values, each name once, in the order in which their names were first set.
    pub fn entries(&self) -> (r: &Vec<(String, MetaValue)>)
        ensures
            r@ == self.entry_seq(),
            keys_unique(r@),
            entries_map(r@) == self@,
    {
        proof {
            use_type_invariant(self);
        }
        &self.entries
    }

    /// A copy of the metadata.
    pub fn duplicate(&self) -> (r: Metadata)
        ensures
            r@ == self@,
    {
        let mut m = Metadata::new();
        let mut i: usize = 0;
        while i < self.entries.len()
            invariant
                i <= self.entries@.len(),
                m@ == entries_map(self.entries@.take(i as int)),
            decreases self.entries@.len() - i,
        {
            let k = self.entries[i].0.clone();
            let v = self.entries[i].1.duplicate();
            m.insert(k, v);
            assert(self.entries@.take(i + 1).drop_last() == self.entries@.take(i as int));
            i = i + 1;
        }
        assert(self.entries@.take(self.entries@.len() as int) == self.entries@);
        m
    }
}

impl Metadata {
    /// The metadata naming each value of `entries` in turn, later entries
    /// replacing earlier ones with the same name.
    pub fn from_entries(entries: Vec<(String, MetaValue)>) -> (m: Metadata)
        ensures
            m@ == entries_map(entries@),
    {
        let mut m = Metadata::new();
        let ghost all = entries@;
        for e in it: entries.into_iter()
            invariant
                it.seq() == all,
                m@ == entries_map(all.take(it.index())),
        {
            assert(all.take(it.index() + 1).drop_last() == all.take(it.index()));
            let (k, v) = e;
            m.insert(k, v);
        }
        assert(all.take(all.len() as int) == all);
        m
    }
}

} // verus!
