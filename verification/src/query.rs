//! The guard on user-written SQL queries: only a `SELECT` without any
//! data-changing keyword is let through.

use vstd::prelude::*;
use crate::text::{chars_of, string_of};

verus! {

broadcast use vstd::string::group_string_axioms;

/// A character with the Unicode `White_Space` property, which is what
/// `char::is_whitespace` tests and `str::trim` removes.
pub open spec fn white_space(c: char) -> bool {
    ||| ('\u{9}' <= c && c <= '\u{d}')
    ||| c == ' '
    ||| c == '\u{85}'
    ||| c == '\u{a0}'
    ||| c == '\u{1680}'
    ||| ('\u{2000}' <= c && c <= '\u{200a}')
    ||| c == '\u{2028}'
    ||| c == '\u{2029}'
    ||| c == '\u{202f}'
    ||| c == '\u{205f}'
    ||| c == '\u{3000}'
}

/// `s` without its leading white space.
pub open spec fn trim_start(s: Seq<char>) -> Seq<char>
    decreases s.len(),
{
    if s.len() > 0 && white_space(s[0]) {
        trim_start(s.drop_first())
    } else {
        s
    }
}

/// `s` without its trailing white space.
pub open spec fn trim_end(s: Seq<char>) -> Seq<char>
    decreases s.len(),
{
    if s.len() > 0 && white_space(s.last()) {
        trim_end(s.drop_last())
    } else {
        s
    }
}

/// The text that `str::trim` leaves of `s`: `s` without its leading and
/// trailing white space.
pub open spec fn trimmed(s: Seq<char>) -> Seq<char> {
    trim_end(trim_start(s))
}

/// The text that `str::to_lowercase` makes of `s`.
pub uninterp spec fn lowercased(s: Seq<char>) -> Seq<char>;

/// The ASCII lowercase of `c`: `A` to `Z` become `a` to `z`.
pub open spec fn ascii_lower(c: char) -> char {
    if 'A' <= c && c <= 'Z' {
        ((c as u32) + 32) as char
    } else {
        c
    }
}

/// `str::trim`: `s` without its leading and trailing white space (the
/// Unicode `White_Space` characters).
#[verifier::external_body]
fn trim_text(s: &str) -> (r: String)
    ensures
        r@ == trimmed(s@),
{
    s.trim().to_string()
}

/// `str::to_lowercase`: the Unicode lowercase of `s`. The contract names the
/// result by `lowercased`, and states the ASCII part of the mapping: a text
/// of ASCII characters is lowercased character by character, `A` to `Z`
/// becoming `a` to `z`.
#[verifier::external_body]
fn lowercase_text(s: &str) -> (r: String)
    ensures
        r@ == lowercased(s@),
        (forall|i: int| 0 <= i < s@.len() ==> (s@[i] as u32) < 128)
            ==> r@ == s@.map_values(|c: char| ascii_lower(c)),
{
    s.to_lowercase()
}

/// Whether `s` begins with `p`.
pub open spec fn starts_with(s: Seq<char>, p: Seq<char>) -> bool {
    p.len() <= s.len() && s.take(p.len() as int) == p
}

/// A character that can be part of an SQL identifier or keyword: an ASCII
/// letter or digit, or `_`.
pub open spec fn word_char(c: char) -> bool {
    ||| ('a' <= c && c <= 'z')
    ||| ('A' <= c && c <= 'Z')
    ||| ('0' <= c && c <= '9')
    ||| c == '_'
}

/// `t` occurs in `s` at position `i` as a whole word: no word character
/// stands right before or right after it.
pub open spec fn word_at(s: Seq<char>, t: Seq<char>, i: int) -> bool {
    &&& 0 <= i
    &&& i + t.len() <= s.len()
    &&& s.subrange(i, i + t.len()) == t
    &&& (i == 0 || !word_char(s[i - 1]))
    &&& (i + t.len() == s.len() || !word_char(s[i + t.len()]))
}

/// `t` occurs in `s` as a whole word.
pub open spec fn contains_word(s: Seq<char>, t: Seq<char>) -> bool {
    exists|i: int| #[trigger] word_at(s, t, i)
}

/// The keywords that a query may not contain, in the order in which they are checked.
pub open spec fn forbidden_keywords() -> Seq<Seq<char>> {
    seq!["insert"@, "update"@, "delete"@, "drop"@, "create"@, "alter"@, "pragma"@]
}

/// The first keyword, from position `from` of the list on, that `q` contains as a whole word.
pub open spec fn first_forbidden(q: Seq<char>, from: int) -> Option<Seq<char>>
    decreases 7 - from,
{
    if from < 0 || from >= 7 {
        None
    } else if contains_word(q, forbidden_keywords()[from]) {
        Some(forbidden_keywords()[from])
    } else {
        first_forbidden(q, from + 1)
    }
}

/// Why a query was refused.
#[derive(Debug)]
pub enum QueryError {
    /// The query does not begin with `select`.
    NotSelect,
    /// The query contains a data-changing keyword.
    ForbiddenKeyword(String),
}

impl QueryError {
    /// The message shown for the error.
    pub open spec fn message_text(self) -> Seq<char> {
        match self {
            QueryError::NotSelect => "Only SELECT queries are allowed"@,
            QueryError::ForbiddenKeyword(k) => "Query contains forbidden keyword: "@ + k@,
        }
    }

    /// The message shown for the error, naming the forbidden keyword where there is one.
    pub fn message(&self) -> (r: String)
        ensures
            r@ == self.message_text(),
    {
        match self {
            QueryError::NotSelect => string_of("Only SELECT queries are allowed"),
            QueryError::ForbiddenKeyword(k) => crate::text::prefixed("Query contains forbidden keyword: ", k.as_str()),
        }
    }
}

/// The verdict on a query once trimmed and lowercased.
pub open spec fn verdict(q: Seq<char>) -> Result<(), Seq<char>> {
    if !starts_with(q, "select"@) {
        Err(Seq::empty())
    } else {
        match first_forbidden(q, 0) {
            Some(k) => Err(k),
            None => Ok(()),
        }
    }
}

/// Whether `t` stands in `q` at `i` with no letter, digit or `_` right
/// before or right after it.
pub open spec fn bounded_occurrence(q: Seq<char>, t: Seq<char>, i: int) -> bool {
    &&& 0 <= i && i + t.len() <= q.len()
    &&& q.subrange(i, i + t.len()) == t
    &&& !(i > 0 && ('a' <= q[i - 1] <= 'z' || 'A' <= q[i - 1] <= 'Z' || '0' <= q[i - 1] <= '9' || q[i - 1] == '_'))
    &&& !(i + t.len() < q.len() && ('a' <= q[i + t.len()] <= 'z' || 'A' <= q[i + t.len()] <= 'Z'
        || '0' <= q[i + t.len()] <= '9' || q[i + t.len()] == '_'))
}

proof fn lemma_first_forbidden_none(q: Seq<char>, from: int)
    requires
        0 <= from <= 7,
    ensures
        first_forbidden(q, from) is None <==> forall|k: int| from <= k < 7 ==> !contains_word(q, #[trigger] forbidden_keywords()[k]),
    decreases 7 - from,
{
    if from < 7 {
        lemma_first_forbidden_none(q, from + 1);
    }
}

proof fn lemma_first_forbidden_some(q: Seq<char>, from: int)
    requires
        0 <= from <= 7,
    ensures
        first_forbidden(q, from) matches Some(k) ==> exists|j: int| from <= j < 7 && #[trigger] forbidden_keywords()[j] == k && contains_word(q, k),
    decreases 7 - from,
{
    if from < 7 {
        lemma_first_forbidden_some(q, from + 1);
    }
}

/// The SELECT guard, on a trimmed and lowercased query `q`: it lets `q` run
/// exactly when `q` begins with `select` and none of `insert`, `update`,
/// `delete`, `drop`, `create`, `alter`, `pragma` stands in it as a whole
/// word (with no letter, digit or `_` right before or after it), so a
/// keyword inside a longer name such as `created_at` does not count; a
/// refused query that begins with `select` names a keyword that does stand in
/// it as a whole word.
pub proof fn lemma_verdict_whole_words(q: Seq<char>)
    ensures
        verdict(q) is Ok <==> (q.len() >= 6 && q.take(6) == "select"@

            && (forall|i: int| !#[trigger] bounded_occurrence(q, "insert"@, i))
            && (forall|i: int| !#[trigger] bounded_occurrence(q, "update"@, i))
            && (forall|i: int| !#[trigger] bounded_occurrence(q, "delete"@, i))
            && (forall|i: int| !#[trigger] bounded_occurrence(q, "drop"@, i))
            && (forall|i: int| !#[trigger] bounded_occurrence(q, "create"@, i))
            && (forall|i: int| !#[trigger] bounded_occurrence(q, "alter"@, i))
            && (forall|i: int| !#[trigger] bounded_occurrence(q, "pragma"@, i))),
        match verdict(q) {
            Err(k) => ((k.len() == 0) == !(q.len() >= 6 && q.take(6) == "select"@))
                && (k.len() > 0 ==> exists|i: int| bounded_occurrence(q, k, i)),
            Ok(_) => true,
        },
{
    reveal_strlit("select");
    reveal_strlit("insert");
    reveal_strlit("update");
    reveal_strlit("delete");
    reveal_strlit("drop");
    reveal_strlit("create");
    reveal_strlit("alter");
    reveal_strlit("pragma");
    let kws = seq!["insert"@, "update"@, "delete"@, "drop"@, "create"@, "alter"@, "pragma"@];
    assert(forbidden_keywords() == kws);
    lemma_first_forbidden_none(q, 0);
    lemma_first_forbidden_some(q, 0);
    assert forall|t: Seq<char>, i: int| word_at(q, t, i) <==> bounded_occurrence(q, t, i) by {}
    if starts_with(q, "select"@) {
        if first_forbidden(q, 0) is None {
            assert(!contains_word(q, forbidden_keywords()[0]));
            assert forall|i: int| !#[trigger] bounded_occurrence(q, "insert"@, i) by {
                assert(!word_at(q, kws[0], i));
            }
            assert(!contains_word(q, forbidden_keywords()[1]));
            assert forall|i: int| !#[trigger] bounded_occurrence(q, "update"@, i) by {
                assert(!word_at(q, kws[1], i));
            }
            assert(!contains_word(q, forbidden_keywords()[2]));
            assert forall|i: int| !#[trigger] bounded_occurrence(q, "delete"@, i) by {
                assert(!word_at(q, kws[2], i));
            }
            assert(!contains_word(q, forbidden_keywords()[3]));
            assert forall|i: int| !#[trigger] bounded_occurrence(q, "drop"@, i) by {
                assert(!word_at(q, kws[3], i));
            }
            assert(!contains_word(q, forbidden_keywords()[4]));
            assert forall|i: int| !#[trigger] bounded_occurrence(q, "create"@, i) by {
                assert(!word_at(q, kws[4], i));
            }
            assert(!contains_word(q, forbidden_keywords()[5]));
            assert forall|i: int| !#[trigger] bounded_occurrence(q, "alter"@, i) by {
                assert(!word_at(q, kws[5], i));
            }
            assert(!contains_word(q, forbidden_keywords()[6]));
            assert forall|i: int| !#[trigger] bounded_occurrence(q, "pragma"@, i) by {
                assert(!word_at(q, kws[6], i));
            }
        } else {
            let k = first_forbidden(q, 0)->0;
            let j = choose|j: int| 0 <= j < 7 && #[trigger] forbidden_keywords()[j] == k && contains_word(q, k);
            let i = choose|i: int| #[trigger] word_at(q, k, i);
            assert(bounded_occurrence(q, kws[j], i));
            assert(k.len() > 0);
        }
    }
}

/// `e` is the refusal that `verdict` describes.
pub open spec fn refusal_matches(e: QueryError, v: Result<(), Seq<char>>) -> bool {
    match e {
        QueryError::NotSelect => v == Err::<(), Seq<char>>(Seq::empty()),
        QueryError::ForbiddenKeyword(k) => k@.len() > 0 && v == Err::<(), Seq<char>>(k@),
    }
}

/// Whether `t` begins `s` at position `i`.
fn occurs_at(s: &[char], t: &[char], i: usize) -> (r: bool)
    requires
        i + t@.len() <= s@.len(),
    ensures
        r == (s@.subrange(i as int, i + t@.len()) == t@),
{
    let n = s.len();
    let mut j: usize = 0;
    while j < t.len()
        invariant
            n == s@.len(),
            j <= t@.len(),
            i + t@.len() <= s@.len(),
            forall|k: int| 0 <= k < j ==> s@[i + k] == t@[k],
        decreases t@.len() - j,
    {
        assert(i + j < s@.len());
        if s[i + j] != t[j] {
            assert(s@.subrange(i as int, i + t@.len())[j as int] != t@[j as int]);
            return false;
        }
        j = j + 1;
    }
    assert(s@.subrange(i as int, i + t@.len()) == t@);
    true
}

/// Whether `c` can be part of an SQL identifier or keyword.
fn is_word_char(c: char) -> (r: bool)
    ensures
        r == word_char(c),
{
    ('a' <= c && c <= 'z') || ('A' <= c && c <= 'Z') || ('0' <= c && c <= '9') || c == '_'
}

/// Whether `t` occurs in `s` as a whole word.
pub fn contains_word_chars(s: &[char], t: &[char]) -> (r: bool)
    ensures
        r == contains_word(s@, t@),
{
    if t.len() > s.len() {
        return false;
    }
    let last = s.len() - t.len();
    let mut i: usize = 0;
    while i <= last
        invariant
            t@.len() <= s@.len(),
            last == s@.len() - t@.len(),
            i <= last + 1,
            forall|k: int| 0 <= k < i ==> !#[trigger] word_at(s@, t@, k),
        decreases last + 1 - i,
    {
        let before_ok = i == 0 || !is_word_char(s[i - 1]);
        let after_ok = i + t.len() == s.len() || !is_word_char(s[i + t.len()]);
        if before_ok && after_ok && occurs_at(s, t, i) {
            assert(word_at(s@, t@, i as int));
            return true;
        }
        assert(!word_at(s@, t@, i as int));
        if i == last {
            assert forall|k: int| #![trigger word_at(s@, t@, k)] !word_at(s@, t@, k) by {
                if 0 <= k && k + t@.len() <= s@.len() {
                    assert(k <= last);
                }
            }
            return false;
        }
        i = i + 1;
    }
    false
}

/// Whether `s` begins with `p`.
pub fn starts_with_chars(s: &[char], p: &[char]) -> (r: bool)
    ensures
        r == starts_with(s@, p@),
{
    if p.len() > s.len() {
        return false;
    }
    let b = occurs_at(s, p, 0);
    assert(s@.subrange(0, p@.len() as int) == s@.take(p@.len() as int));
    b
}

/// The verdict on a query that is already trimmed and lowercased.
pub fn check_normalized_query(q: &str) -> (r: Result<(), QueryError>)
    ensures
        match r {
            Ok(()) => verdict(q@) is Ok,
            Err(e) => refusal_matches(e, verdict(q@)),
        },
{
    let v = chars_of(q);
    let select = chars_of("select");
    if !starts_with_chars(v.as_slice(), select.as_slice()) {
        return Err(QueryError::NotSelect);
    }
    let keywords: [&str; 7] = ["insert", "update", "delete", "drop", "create", "alter", "pragma"];
    let mut i: usize = 0;
    while i < 7
        invariant
            i <= 7,
            v@ == q@,
            starts_with(q@, "select"@),
            keywords@.len() == 7,
            forall|k: int| 0 <= k < 7 ==> #[trigger] keywords@[k]@ == forbidden_keywords()[k],
            first_forbidden(q@, 0) == first_forbidden(q@, i as int),
        decreases 7 - i,
    {
        let kw = chars_of(keywords[i]);
        if contains_word_chars(v.as_slice(), kw.as_slice()) {
            proof {
                reveal_strlit("insert");
                reveal_strlit("update");
                reveal_strlit("delete");
                reveal_strlit("drop");
                reveal_strlit("create");
                reveal_strlit("alter");
                reveal_strlit("pragma");
                assert(kw@.len() > 0);
                assert(kw@ == forbidden_keywords()[i as int]);
                assert(first_forbidden(q@, i as int) == Some(kw@));
                assert(verdict(q@) == Err::<(), Seq<char>>(kw@));
            }
            return Err(QueryError::ForbiddenKeyword(string_of(keywords[i])));
        }
        i = i + 1;
    }
    Ok(())
}

/// Lets a query through only when, once trimmed and lowercased, it begins
/// with `select` and contains none of `insert`, `update`, `delete`, `drop`,
/// `create`, `alter`, `pragma` as a whole word (the first one of the list
/// found is reported); a keyword inside a longer name, as `create` in
/// `created_at`, does not count.
pub fn validate_select_only(sql: &str) -> (r: Result<(), QueryError>)
    ensures
        match r {
            Ok(()) => verdict(lowercased(trimmed(sql@))) is Ok,
            Err(e) => refusal_matches(e, verdict(lowercased(trimmed(sql@)))),
        },
{
    let t = trim_text(sql);
    let lower = lowercase_text(t.as_str());
    check_normalized_query(lower.as_str())
}

} // verus!
