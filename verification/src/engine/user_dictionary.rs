//! Bounded immutable user vocabulary. Exclusions protect both source and target.
use crate::text::{lowercase, to_chars, to_lowercase};
use vstd::prelude::*;

verus! {

/// Refusal for more than 500 entries in one list.
pub const TOO_MANY_ENTRIES: &'static str = "Too many entries";

/// Refusal for an entry that is not a 2-32 letter Russian or English word.
pub const BAD_ENTRY: &'static str = "Expected a 2-32 letter RU or EN word";

pub open spec fn is_russian_lower(c: char) -> bool {
    ('а' <= c && c <= 'я') || c == 'ё'
}

/// Whether an already lowercased entry is a 2-32 letter word written wholly in
/// lowercase Latin or wholly in lowercase Russian letters.
pub open spec fn entry_ok(w: Seq<char>) -> bool {
    &&& 2 <= w.len() <= 32
    &&& (forall|i: int| 0 <= i < w.len() ==> 'a' <= #[trigger] w[i] && w[i] <= 'z') || (forall|
        i: int,
    | 0 <= i < w.len() ==> is_russian_lower(#[trigger] w[i]))
}

/// What validating one list answers: `None` when every entry is acceptable
/// after lowercasing, else the refusal.
pub open spec fn list_error(values: Seq<Seq<char>>) -> Option<&'static str> {
    if values.len() > 500 {
        Some(TOO_MANY_ENTRIES)
    } else if exists|i: int| 0 <= i < values.len() && !entry_ok(lowercase(#[trigger] values[i])) {
        Some(BAD_ENTRY)
    } else {
        None
    }
}

/// The characters of each string.
pub open spec fn views(values: Seq<String>) -> Seq<Seq<char>> {
    values.map_values(|s: String| s@)
}

pub struct UserDictionary {
    words: Vec<String>,
    exclusions: Vec<String>,
}

impl UserDictionary {
    /// The lowercased words the user taught.
    pub closed spec fn word_set(self) -> Set<Seq<char>> {
        Set::new(|w: Seq<char>| exists|i: int| 0 <= i < self.words@.len() && self.words@[i]@ == w)
    }

    /// The lowercased entries that must never be converted.
    pub closed spec fn exclusion_set(self) -> Set<Seq<char>> {
        Set::new(
            |w: Seq<char>| exists|i: int| 0 <= i < self.exclusions@.len() && self.exclusions@[i]@ == w,
        )
    }

    /// An empty vocabulary.
    pub fn empty() -> (d: UserDictionary)
        ensures
            d.word_set() == Set::<Seq<char>>::empty(),
            d.exclusion_set() == Set::<Seq<char>>::empty(),
    {
        let d = UserDictionary { words: Vec::new(), exclusions: Vec::new() };
        assert(d.word_set() =~= Set::<Seq<char>>::empty());
        assert(d.exclusion_set() =~= Set::<Seq<char>>::empty());
        d
    }

    /// Lowercases and validates both lists (words first). At most 500 entries
    /// per list, each a 2-32 letter word wholly Latin or wholly Russian.
    pub fn new(words: Vec<String>, exclusions: Vec<String>) -> (r: Result<
        UserDictionary,
        &'static str,
    >)
        ensures
            list_error(views(words@)) matches Some(e) ==> r == Err::<UserDictionary, &'static str>(
                e,
            ),
            list_error(views(words@)) is None ==> (list_error(views(exclusions@)) matches Some(e)
                ==> r == Err::<UserDictionary, &'static str>(e)),
            list_error(views(words@)) is None && list_error(views(exclusions@)) is None ==> (
            r matches Ok(d) && d.word_set() == Set::new(
                |w: Seq<char>| exists|i: int| 0 <= i < words@.len() && lowercase(words@[i]@) == w,
            ) && d.exclusion_set() == Set::new(
                |w: Seq<char>|
                    exists|i: int| 0 <= i < exclusions@.len() && lowercase(exclusions@[i]@) == w,
            )),
    {
        let w = match validate(&words) {
            Ok(v) => v,
            Err(e) => {
                return Err(e);
            },
        };
        let x = match validate(&exclusions) {
            Ok(v) => v,
            Err(e) => {
                return Err(e);
            },
        };
        let d = UserDictionary { words: w, exclusions: x };
        proof {
            lemma_lowered_set(words@, w@);
            lemma_lowered_set(exclusions@, x@);
        }
        Ok(d)
    }

    /// Whether the user taught exactly this (lowercase) word.
    pub fn contains(&self, word: &str) -> (b: bool)
        ensures
            b == self.word_set().contains(word@),
    {
        any_equal(&self.words, word)
    }

    /// Whether either side of a conversion is excluded.
    pub fn excluded(&self, source: &str, target: &str) -> (b: bool)
        ensures
            b == (self.exclusion_set().contains(source@) || self.exclusion_set().contains(target@)),
    {
        any_equal(&self.exclusions, source) || any_equal(&self.exclusions, target)
    }
}

impl Default for UserDictionary {
    fn default() -> (d: UserDictionary)
        ensures
            d.word_set() == Set::<Seq<char>>::empty(),
            d.exclusion_set() == Set::<Seq<char>>::empty(),
    {
        UserDictionary::empty()
    }
}

proof fn lemma_lowered_set(values: Seq<String>, out: Seq<String>)
    requires
        out.len() == values.len(),
        forall|i: int| 0 <= i < values.len() ==> #[trigger] out[i]@ == lowercase(values[i]@),
    ensures
        Set::new(|w: Seq<char>| exists|i: int| 0 <= i < out.len() && out[i]@ == w) == Set::new(
            |w: Seq<char>| exists|i: int| 0 <= i < values.len() && lowercase(values[i]@) == w,
        ),
{
    let a = Set::new(|w: Seq<char>| exists|i: int| 0 <= i < out.len() && out[i]@ == w);
    let b = Set::new(|w: Seq<char>| exists|i: int| 0 <= i < values.len() && lowercase(values[i]@) == w);
    assert forall|w: Seq<char>| a.contains(w) <==> b.contains(w) by {
        if a.contains(w) {
            let i = choose|i: int| 0 <= i < out.len() && out[i]@ == w;
            assert(lowercase(values[i]@) == w);
        }
        if b.contains(w) {
            let i = choose|i: int| 0 <= i < values.len() && lowercase(values[i]@) == w;
            assert(out[i]@ == w);
        }
    }
    assert(a =~= b);
}

fn any_equal(values: &Vec<String>, word: &str) -> (b: bool)
    ensures
        b == exists|i: int| 0 <= i < values@.len() && values@[i]@ == word@,
{
    let target = String::from_str(word);
    let mut i: usize = 0;
    while i < values.len()
        invariant
            i <= values@.len(),
            target@ == word@,
            forall|j: int| 0 <= j < i ==> values@[j]@ != word@,
        decreases values.len() - i,
    {
        if values[i] == target {
            return true;
        }
        i += 1;
    }
    false
}

fn entry_is_ok(w: &str) -> (b: bool)
    ensures
        b == entry_ok(w@),
{
    let chars = to_chars(w);
    let n = chars.len();
    if n < 2 || n > 32 {
        return false;
    }
    let mut latin = true;
    let mut russian = true;
    let mut i: usize = 0;
    while i < n
        invariant
            i <= n,
            n == chars@.len(),
            chars@ == w@,
            latin == forall|j: int| 0 <= j < i ==> 'a' <= #[trigger] chars@[j] && chars@[j] <= 'z',
            russian == forall|j: int| 0 <= j < i ==> is_russian_lower(#[trigger] chars@[j]),
        decreases n - i,
    {
        let c = chars[i];
        if !('a' <= c && c <= 'z') {
            latin = false;
        }
        if !(('а' <= c && c <= 'я') || c == 'ё') {
            russian = false;
        }
        i += 1;
    }
    latin || russian
}

fn validate(values: &Vec<String>) -> (r: Result<Vec<String>, &'static str>)
    ensures
        list_error(views(values@)) matches Some(e) ==> r == Err::<Vec<String>, &'static str>(e),
        list_error(views(values@)) is None ==> (r matches Ok(out) && out@.len() == values@.len()
            && forall|i: int| 0 <= i < values@.len() ==> #[trigger] out@[i]@ == lowercase(
            values@[i]@,
        )),
{
    let ghost vs = views(values@);
    if values.len() > 500 {
        return Err(TOO_MANY_ENTRIES);
    }
    let mut out: Vec<String> = Vec::new();
    let mut i: usize = 0;
    while i < values.len()
        invariant
            i <= values@.len(),
            values@.len() <= 500,
            vs == views(values@),
            vs.len() == values@.len(),
            out@.len() == i,
            forall|j: int| 0 <= j < i ==> #[trigger] out@[j]@ == lowercase(values@[j]@),
            forall|j: int| 0 <= j < i ==> entry_ok(lowercase(#[trigger] vs[j])),
        decreases values.len() - i,
    {
        let lower = to_lowercase(values[i].as_str());
        if !entry_is_ok(lower.as_str()) {
            assert(vs[i as int] == values@[i as int]@);
            assert(!entry_ok(lowercase(vs[i as int])));
            return Err(BAD_ENTRY);
        }
        out.push(lower);
        i += 1;
    }
    Ok(out)
}

} // verus!
