//! The `KEY=value` arguments of the `--set` option and their sorting into
//! relation fields and ordinary fields.

use vstd::prelude::*;
use crate::text::{chars_of, string_from_chars, str_eq};
use vstd::multiset::Multiset;

verus! {

broadcast use vstd::string::group_string_axioms;

/// The position of the first occurrence of `c` in `s`, if any.
pub open spec fn find_char(s: Seq<char>, c: char) -> Option<int>
    decreases s.len(),
{
    if s.len() == 0 {
        None
    } else if s[0] == c {
        Some(0)
    } else {
        match find_char(s.drop_first(), c) {
            Some(i) => Some(i + 1),
            None => None,
        }
    }
}

/// `find_char` gives the first occurrence, and gives none exactly when `c` does not occur.
pub proof fn lemma_find_char(s: Seq<char>, c: char)
    ensures
        match find_char(s, c) {
            Some(i) => 0 <= i < s.len() && s[i] == c && forall|j: int| 0 <= j < i ==> s[j] != c,
            None => forall|j: int| 0 <= j < s.len() ==> s[j] != c,
        },
    decreases s.len(),
{
    if s.len() > 0 && s[0] != c {
        lemma_find_char(s.drop_first(), c);
        match find_char(s.drop_first(), c) {
            Some(i) => {
                assert forall|j: int| 0 <= j < i + 1 implies s[j] != c by {
                    if j > 0 {
                        assert(s[j] == s.drop_first()[j - 1]);
                    }
                }
            },
            None => {
                assert forall|j: int| 0 <= j < s.len() implies s[j] != c by {
                    if j > 0 {
                        assert(s[j] == s.drop_first()[j - 1]);
                    }
                }
            },
        }
    }
}

/// The split of `s` at its first `=`: the text before it and the text after it.
pub open spec fn key_val_split(s: Seq<char>) -> Option<(Seq<char>, Seq<char>)> {
    match find_char(s, '=') {
        Some(i) => Some((s.take(i), s.skip(i + 1))),
        None => None,
    }
}

/// A `--set` argument without any `=`.
#[derive(Debug)]
pub enum KeyValError {
    /// The argument, which holds no `=`.
    MissingEquals(String),
}

impl KeyValError {
    /// The message shown for the error.
    pub open spec fn message_text(self) -> Seq<char> {
        match self {
            KeyValError::MissingEquals(t) => "invalid KEY=value: no `=` found in `"@ + t@ + "`"@,
        }
    }

    /// The message shown for the error, naming the argument.
    pub fn message(&self) -> (r: String)
        ensures
            r@ == self.message_text(),
    {
        match self {
            KeyValError::MissingEquals(t) => crate::text::framed("invalid KEY=value: no `=` found in `", t.as_str(), "`"),
        }
    }
}

/// The position of the first `c` in `v`.
pub fn find_char_in(v: &[char], c: char) -> (r: Option<usize>)
    ensures
        match r {
            Some(i) => find_char(v@, c) == Some(i as int),
            None => find_char(v@, c) is None,
        },
{
    proof {
        lemma_find_char(v@, c);
    }
    let mut i: usize = 0;
    while i < v.len()
        invariant
            i <= v@.len(),
            forall|j: int| 0 <= j < i ==> v@[j] != c,
            match find_char(v@, c) {
                Some(k) => 0 <= k < v@.len() && v@[k] == c && forall|j: int| 0 <= j < k ==> v@[j] != c,
                None => forall|j: int| 0 <= j < v@.len() ==> v@[j] != c,
            },
        decreases v@.len() - i,
    {
        if v[i] == c {
            return Some(i);
        }
        i = i + 1;
    }
    None
}

/// Splits one `--set` argument `KEY=value` at its first `=`.
pub fn parse_key_val(s: &str) -> (r: Result<(String, String), KeyValError>)
    ensures
        match r {
            Ok((k, v)) => key_val_split(s@) == Some((k@, v@)),
            Err(KeyValError::MissingEquals(t)) => key_val_split(s@) is None && t@ == s@,
        },
{
    let v = chars_of(s);
    match find_char_in(v.as_slice(), '=') {
        Some(pos) => {
            proof {
                lemma_find_char(v@, '=');
            }
            let mut key: Vec<char> = Vec::new();
            let mut val: Vec<char> = Vec::new();
            let mut i: usize = 0;
            while i < v.len()
                invariant
                    pos < v@.len(),
                    i <= v@.len(),
                    key@ == v@.take(if i <= pos { i as int } else { pos as int }),
                    val@ == (if i <= pos + 1 { Seq::<char>::empty() } else { v@.subrange(pos + 1, i as int) }),
                decreases v@.len() - i,
            {
                if i < pos {
                    key.push(v[i]);
                    assert(v@.take(i + 1) == v@.take(i as int).push(v@[i as int]));
                } else if i > pos {
                    val.push(v[i]);
                    assert(v@.subrange(pos + 1, i + 1) == (if i <= pos + 1 { Seq::<char>::empty() } else { v@.subrange(pos + 1, i as int) }).push(v@[i as int]));
                }
                i = i + 1;
            }
            assert(val@ == v@.skip(pos + 1));
            Ok((string_from_chars(key.as_slice()), string_from_chars(val.as_slice())))
        },
        None => Err(KeyValError::MissingEquals(string_from_chars(v.as_slice()))),
    }
}

/// Splitting `k=v` gives back `k` and `v` whenever `k` holds no `=`.
pub proof fn lemma_key_val_round_trip(k: Seq<char>, v: Seq<char>)
    requires
        !k.contains('='),
    ensures
        key_val_split(k + seq!['='] + v) == Some((k, v)),
{
    let s = k + seq!['='] + v;
    lemma_find_char(s, '=');
    match find_char(s, '=') {
        Some(i) => {
            if i < k.len() {
                assert(s[i] == k[i]);
            } else if i > k.len() {
                assert(s[k.len() as int] == '=');
            }
            assert(i == k.len());
            assert(s.take(i) == k);
            assert(s.skip(i + 1) == v);
        },
        None => {
            assert(s[k.len() as int] == '=');
        },
    }
}

/// The `(key, value)` views of a list of string pairs.
pub open spec fn pairs_view(s: Seq<(String, String)>) -> Seq<(Seq<char>, Seq<char>)> {
    s.map_values(|p: (String, String)| (p.0@, p.1@))
}

/// The pairs of `s` whose key is (when `wanted`) or is not (otherwise) one of `keys`, in order.
pub open spec fn select_pairs(s: Seq<(Seq<char>, Seq<char>)>, keys: Seq<Seq<char>>, wanted: bool) -> Seq<(Seq<char>, Seq<char>)>
    decreases s.len(),
{
    if s.len() == 0 {
        Seq::empty()
    } else {
        let rest = select_pairs(s.drop_last(), keys, wanted);
        if keys.contains(s.last().0) == wanted {
            rest.push(s.last())
        } else {
            rest
        }
    }
}

/// The views of a list of keys.
pub open spec fn keys_view(keys: Seq<&str>) -> Seq<Seq<char>> {
    keys.map_values(|k: &str| k@)
}

/// Whether `key` is one of `keys`.
pub fn is_one_of(key: &str, keys: &[&str]) -> (r: bool)
    ensures
        r == keys_view(keys@).contains(key@),
{
    let mut i: usize = 0;
    while i < keys.len()
        invariant
            i <= keys@.len(),
            forall|j: int| 0 <= j < i ==> keys@[j]@ != key@,
        decreases keys@.len() - i,
    {
        if str_eq(keys[i], key) {
            assert(keys_view(keys@)[i as int] == key@);
            return true;
        }
        i = i + 1;
    }
    proof {
        if keys_view(keys@).contains(key@) {
            let j = choose|j: int| 0 <= j < keys_view(keys@).len() && keys_view(keys@)[j] == key@;
            assert(keys@[j]@ == key@);
        }
    }
    false
}

/// Splits `--set` arguments into those that name a relation (a key among
/// `relation_keys`) and the ordinary fields, each in the given order.
pub fn separate_relation_fields(set_args: Vec<(String, String)>, relation_keys: &[&str]) -> (r: (Vec<(String, String)>, Vec<(String, String)>))
    ensures
        pairs_view(r.0@) == select_pairs(pairs_view(set_args@), keys_view(relation_keys@), true),
        pairs_view(r.1@) == select_pairs(pairs_view(set_args@), keys_view(relation_keys@), false),
{
    let mut relations: Vec<(String, String)> = Vec::new();
    let mut regular: Vec<(String, String)> = Vec::new();
    let ghost all = pairs_view(set_args@);
    let ghost keys = keys_view(relation_keys@);
    let mut i: usize = 0;
    while i < set_args.len()
        invariant
            i <= set_args@.len(),
            all == pairs_view(set_args@),
            keys == keys_view(relation_keys@),
            pairs_view(relations@) == select_pairs(all.take(i as int), keys, true),
            pairs_view(regular@) == select_pairs(all.take(i as int), keys, false),
        decreases set_args@.len() - i,
    {
        let pair = (set_args[i].0.clone(), set_args[i].1.clone());
        let ghost before_rel = relations@;
        let ghost before_reg = regular@;
        assert(all.take(i + 1).drop_last() == all.take(i as int));
        assert(all.take(i + 1).last() == (pair.0@, pair.1@));
        if is_one_of(pair.0.as_str(), relation_keys) {
            relations.push(pair);
            assert(pairs_view(relations@) == pairs_view(before_rel).push((pair.0@, pair.1@)));
        } else {
            regular.push(pair);
            assert(pairs_view(regular@) == pairs_view(before_reg).push((pair.0@, pair.1@)));
        }
        i = i + 1;
    }
    assert(all.take(set_args@.len() as int) == all);
    (relations, regular)
}

/// The assignments of `s` whose key is (when `wanted`) or is not (otherwise) one of `keys`, in order.
pub open spec fn select_args(s: Seq<crate::setargs::SetArgView>, keys: Seq<Seq<char>>, wanted: bool) -> Seq<crate::setargs::SetArgView>
    decreases s.len(),
{
    if s.len() == 0 {
        Seq::empty()
    } else {
        let rest = select_args(s.drop_last(), keys, wanted);
        if keys.contains(s.last().key) == wanted {
            rest.push(s.last())
        } else {
            rest
        }
    }
}

/// Splits `--set` assignments into those that name a relation (a key among
/// `relation_keys`) and the ordinary fields, each in the given order.
pub fn separate_relation_args(set_args: Vec<crate::setargs::SetArg>, relation_keys: &[&str]) -> (r: (Vec<crate::setargs::SetArg>, Vec<crate::setargs::SetArg>))
    ensures
        crate::setargs::args_view(r.0@) == select_args(crate::setargs::args_view(set_args@), keys_view(relation_keys@), true),
        crate::setargs::args_view(r.1@) == select_args(crate::setargs::args_view(set_args@), keys_view(relation_keys@), false),
{
    let mut relations: Vec<crate::setargs::SetArg> = Vec::new();
    let mut regular: Vec<crate::setargs::SetArg> = Vec::new();
    let ghost all = crate::setargs::args_view(set_args@);
    let ghost keys = keys_view(relation_keys@);
    for arg in it: set_args.into_iter()
        invariant
            all == crate::setargs::args_view(it.seq()),
            keys == keys_view(relation_keys@),
            crate::setargs::args_view(relations@) == select_args(all.take(it.index()), keys, true),
            crate::setargs::args_view(regular@) == select_args(all.take(it.index()), keys, false),
    {
        let ghost k = it.index();
        assert(all.take(k + 1).drop_last() == all.take(k));
        assert(all.take(k + 1).last() == arg@);
        let ghost before_rel = relations@;
        let ghost before_reg = regular@;
        if is_one_of(arg.key.as_str(), relation_keys) {
            relations.push(arg);
            assert(crate::setargs::args_view(relations@) =~= crate::setargs::args_view(before_rel).push(relations@.last()@));
        } else {
            regular.push(arg);
            assert(crate::setargs::args_view(regular@) =~= crate::setargs::args_view(before_reg).push(regular@.last()@));
        }
    }
    assert(all.take(all.len() as int) == all);
    (relations, regular)
}

/// Every assignment of a selection comes from the list it was selected from.
pub proof fn lemma_select_args_from(s: Seq<crate::setargs::SetArgView>, keys: Seq<Seq<char>>, wanted: bool, i: int)
    requires
        0 <= i < select_args(s, keys, wanted).len(),
    ensures
        s.contains(select_args(s, keys, wanted)[i]),
    decreases s.len(),
{
    if s.len() > 0 {
        let rest = select_args(s.drop_last(), keys, wanted);
        if i < rest.len() {
            lemma_select_args_from(s.drop_last(), keys, wanted, i);
            let j = choose|j: int| 0 <= j < s.drop_last().len() && s.drop_last()[j] == rest[i];
            assert(s[j] == rest[i]);
        } else {
            assert(s[s.len() - 1] == s.last());
        }
    }
}

/// The keys of the `--set` arguments that a race routes to its relations.
pub fn race_relation_keys() -> (keys: Vec<&'static str>)
    ensures
        keys@.len() == 1,
        keys@[0]@ == "system"@,
{
    let mut keys = Vec::new();
    keys.push("system");
    keys
}

/// The keys of the `--set` arguments that an episode routes to its relations.
pub fn episode_relation_keys() -> (keys: Vec<&'static str>)
    ensures
        keys@.len() == 1,
        keys@[0]@ == "character"@,
{
    let mut keys = Vec::new();
    keys.push("character");
    keys
}

/// Every argument lands on exactly one side of the split: together the two
/// sides hold each argument as often as the arguments do.
pub proof fn lemma_separation_keeps_every_pair(s: Seq<(Seq<char>, Seq<char>)>, keys: Seq<Seq<char>>)
    ensures
        select_pairs(s, keys, true).len() + select_pairs(s, keys, false).len() == s.len(),
        select_pairs(s, keys, true).to_multiset().add(select_pairs(s, keys, false).to_multiset()) == s.to_multiset(),
    decreases s.len(),
{
    broadcast use {vstd::seq_lib::group_to_multiset_ensures, vstd::multiset::group_multiset_axioms};
    if s.len() == 0 {
        assert(select_pairs(s, keys, true).to_multiset() =~= Multiset::empty());
        assert(select_pairs(s, keys, false).to_multiset() =~= Multiset::empty());
        assert(s.to_multiset() =~= Multiset::empty());
        assert(Multiset::<(Seq<char>, Seq<char>)>::empty().add(Multiset::empty()) =~= Multiset::empty());
    } else {
        lemma_separation_keeps_every_pair(s.drop_last(), keys);
        assert(s =~= s.drop_last().push(s.last()));
        assert(s.to_multiset() =~= s.drop_last().to_multiset().insert(s.last()));
        let t = select_pairs(s.drop_last(), keys, true);
        let f = select_pairs(s.drop_last(), keys, false);
        if keys.contains(s.last().0) {
            assert(t.push(s.last()).to_multiset() =~= t.to_multiset().insert(s.last()));
            assert(t.to_multiset().insert(s.last()).add(f.to_multiset()) =~= t.to_multiset().add(f.to_multiset()).insert(s.last()));
        } else {
            assert(f.push(s.last()).to_multiset() =~= f.to_multiset().insert(s.last()));
            assert(t.to_multiset().add(f.to_multiset().insert(s.last())) =~= t.to_multiset().add(f.to_multiset()).insert(s.last()));
        }
    }
}

} // verus!
