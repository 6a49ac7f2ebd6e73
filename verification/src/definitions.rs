//! Word definitions: a cache of what the dictionary service answered, and
//! the shaping of an answer into one short line.

use crate::text::{
    ascii_upper_text, is_ascii_text, join, join3, law_ascii_case_is_blind, spec_to_lowercase, spec_to_uppercase,
    str_eq, to_lowercase, to_uppercase,
};
use vstd::prelude::*;
use vstd::string::StringSliceAdditionalSpecFns;

verus! {

/// Definitions looked up so far, by upper-case word: `Some(text)` once
/// fetched, `None` while in flight or after a failed fetch.
pub struct DefinitionCache {
    entries: Vec<(String, Option<String>)>,
}

pub open spec fn opt_text(o: Option<String>) -> Option<Seq<char>> {
    match o {
        Some(s) => Some(s@),
        None => None,
    }
}

impl DefinitionCache {
    /// What is cached, by upper-case word.
    pub closed spec fn view(&self) -> Map<Seq<char>, Option<Seq<char>>> {
        Map::new(
            |k: Seq<char>| exists|i: int| 0 <= i < self.entries@.len() && #[trigger] self.entries@[i].0@ == k,
            |k: Seq<char>|
                {
                    let i = choose|i: int| 0 <= i < self.entries@.len() && #[trigger] self.entries@[i].0@ == k;
                    opt_text(self.entries@[i].1)
                },
        )
    }

    pub closed spec fn wf(&self) -> bool {
        forall|i: int, j: int|
            0 <= i < j < self.entries@.len() ==> #[trigger] self.entries@[i].0@ != #[trigger] self.entries@[j].0@
    }

    /// The index of the entry for `key`, if any.
    fn find(&self, key: &str) -> (r: Option<usize>)
        requires
            self.wf(),
        ensures
            r is None <==> !self.view().contains_key(key@),
            r is Some ==> r->0 < self.entries@.len() && self.entries@[r->0 as int].0@ == key@,
    {
        let mut i: usize = 0;
        while i < self.entries.len()
            invariant
                i <= self.entries@.len(),
                forall|j: int| 0 <= j < i ==> #[trigger] self.entries@[j].0@ != key@,
            decreases self.entries@.len() - i,
        {
            if str_eq(self.entries[i].0.as_str(), key) {
                return Some(i);
            }
            i = i + 1;
        }
        None
    }

    pub fn new() -> (c: DefinitionCache)
        ensures
            c.wf(),
            c.view() == Map::<Seq<char>, Option<Seq<char>>>::empty(),
    {
        let c = DefinitionCache { entries: Vec::new() };
        assert(c.view() =~= Map::<Seq<char>, Option<Seq<char>>>::empty());
        c
    }

    /// Request a definition for a word. If the word (in upper case) is
    /// neither cached nor in flight, it is marked in flight and the word in
    /// lower case comes back: the caller fetches that and hands the answer
    /// to `complete`. Otherwise nothing changes and `None` comes back.
    pub fn request(&mut self, word: &str) -> (r: Option<String>)
        requires
            old(self).wf(),
        ensures
            final(self).wf(),
            old(self).view().contains_key(spec_to_uppercase(word@)) ==> r is None && final(self).view()
                == old(self).view(),
            !old(self).view().contains_key(spec_to_uppercase(word@)) ==> r is Some && r->0@
                == spec_to_lowercase(word@) && final(self).view() == old(self).view().insert(
                spec_to_uppercase(word@),
                None,
            ),
    {
        let upper = to_uppercase(word);
        if self.find(upper.as_str()).is_some() {
            return None;
        }
        self.put(upper, None);
        Some(to_lowercase(word))
    }

    /// Records the answer of a fetch for a word.
    pub fn complete(&mut self, word: &str, definition: Option<String>)
        requires
            old(self).wf(),
        ensures
            final(self).wf(),
            final(self).view() == old(self).view().insert(spec_to_uppercase(word@), opt_text(definition)),
    {
        let upper = to_uppercase(word);
        self.put(upper, definition);
    }

    /// Sets the entry for `key`.
    fn put(&mut self, key: String, value: Option<String>)
        requires
            old(self).wf(),
        ensures
            final(self).wf(),
            final(self).view() == old(self).view().insert(key@, opt_text(value)),
    {
        let ghost k = key@;
        let ghost v = opt_text(value);
        let ghost before = self.view();
        match self.find(key.as_str()) {
            Some(i) => {
                let ghost old_entries = self.entries@;
                self.entries.set(i, (key, value));
                proof {
                    assert forall|a: int, b: int| 0 <= a < b < self.entries@.len() implies #[trigger] self.entries@[a].0@
                        != #[trigger] self.entries@[b].0@ by {
                        assert(old_entries[a].0@ != old_entries[b].0@);
                        if a == i {
                            assert(old_entries[a].0@ == k);
                        }
                        if b == i {
                            assert(old_entries[b].0@ == k);
                        }
                    }
                    assert(self.view() =~= before.insert(k, v)) by {
                        assert forall|q: Seq<char>| #[trigger] self.view().contains_key(q) <==> before.insert(k, v).contains_key(q) by {
                            if before.contains_key(q) {
                                let j = choose|j: int| 0 <= j < old_entries.len() && #[trigger] old_entries[j].0@ == q;
                                assert(self.entries@[j].0@ == q);
                            }
                            if self.view().contains_key(q) {
                                let j = choose|j: int| 0 <= j < self.entries@.len() && #[trigger] self.entries@[j].0@ == q;
                                if j != i {
                                    assert(old_entries[j].0@ == q);
                                }
                            }
                        }
                        assert forall|q: Seq<char>| #[trigger] self.view().contains_key(q) implies self.view()[q] == before.insert(k, v)[q] by {
                            let j = choose|j: int| 0 <= j < self.entries@.len() && #[trigger] self.entries@[j].0@ == q;
                            if q == k {
                                assert(j == i) by {
                                    if j != i {
                                        assert(old_entries[j].0@ == k);
                                        assert(old_entries[i as int].0@ == k);
                                    }
                                }
                            } else {
                                assert(j != i);
                                let j0 = choose|j0: int| 0 <= j0 < old_entries.len() && #[trigger] old_entries[j0].0@ == q;
                                assert(old_entries[j].0@ == q);
                                if j0 != j {
                                    assert(old_entries[j0].0@ != old_entries[j].0@);
                                }
                            }
                        }
                    }
                }
            },
            None => {
                let ghost old_entries = self.entries@;
                self.entries.push((key, value));
                proof {
                    let n = old_entries.len() as int;
                    assert forall|a: int, b: int| 0 <= a < b < self.entries@.len() implies #[trigger] self.entries@[a].0@
                        != #[trigger] self.entries@[b].0@ by {
                        if b == n {
                            assert(old_entries[a].0@ != k);
                        } else {
                            assert(old_entries[a].0@ != old_entries[b].0@);
                        }
                    }
                    assert(self.view() =~= before.insert(k, v)) by {
                        assert forall|q: Seq<char>| #[trigger] self.view().contains_key(q) <==> before.insert(k, v).contains_key(q) by {
                            if before.contains_key(q) {
                                let j = choose|j: int| 0 <= j < old_entries.len() && #[trigger] old_entries[j].0@ == q;
                                assert(self.entries@[j].0@ == q);
                            }
                            if q == k {
                                assert(self.entries@[n].0@ == k);
                            }
                            if self.view().contains_key(q) {
                                let j = choose|j: int| 0 <= j < self.entries@.len() && #[trigger] self.entries@[j].0@ == q;
                                if j != n {
                                    assert(old_entries[j].0@ == q);
                                }
                            }
                        }
                        assert forall|q: Seq<char>| #[trigger] self.view().contains_key(q) implies self.view()[q] == before.insert(k, v)[q] by {
                            let j = choose|j: int| 0 <= j < self.entries@.len() && #[trigger] self.entries@[j].0@ == q;
                            if q == k {
                                if j != n {
                                    assert(old_entries[j].0@ == k);
                                }
                            } else {
                                assert(j != n);
                                let j0 = choose|j0: int| 0 <= j0 < old_entries.len() && #[trigger] old_entries[j0].0@ == q;
                                if j0 != j {
                                    assert(old_entries[j0].0@ != old_entries[j].0@);
                                }
                            }
                        }
                    }
                }
            },
        }
    }

    /// Get a cached definition. Returns:
    /// - Some(Some(def)) if fetched successfully
    /// - Some(None) if fetch is in-flight or failed
    /// - None if never requested
    pub fn get(&self, word: &str) -> (r: Option<Option<String>>)
        requires
            self.wf(),
        ensures
            ({
                let k = spec_to_uppercase(word@);
                &&& r is None <==> !self.view().contains_key(k)
                &&& r is Some ==> opt_text(r->0) == self.view()[k]
            }),
    {
        let upper = to_uppercase(word);
        match self.find(upper.as_str()) {
            Some(i) => {
                let v = match &self.entries[i].1 {
                    Some(s) => Some(s.clone()),
                    None => None,
                };
                proof {
                    let k = upper@;
                    let j = choose|j: int| 0 <= j < self.entries@.len() && #[trigger] self.entries@[j].0@ == k;
                    if j != i {
                        assert(self.entries@[j].0@ != self.entries@[i as int].0@);
                    }
                }
                Some(v)
            },
            None => None,
        }
    }
}


/// The usual abbreviation of a part of speech; others stay as they are.
pub open spec fn abbreviation(pos: Seq<char>) -> Seq<char> {
    if pos == "noun"@ {
        "n"@
    } else if pos == "verb"@ {
        "v"@
    } else if pos == "adjective"@ {
        "adj"@
    } else if pos == "adverb"@ {
        "adv"@
    } else if pos == "pronoun"@ {
        "pron"@
    } else if pos == "preposition"@ {
        "prep"@
    } else if pos == "conjunction"@ {
        "conj"@
    } else if pos == "interjection"@ {
        "interj"@
    } else {
        pos
    }
}

pub fn abbreviate_pos<'a>(pos: &'a str) -> (r: &'a str)
    ensures
        r@ == abbreviation(pos@),
{
    if str_eq(pos, "noun") {
        "n"
    } else if str_eq(pos, "verb") {
        "v"
    } else if str_eq(pos, "adjective") {
        "adj"
    } else if str_eq(pos, "adverb") {
        "adv"
    } else if str_eq(pos, "pronoun") {
        "pron"
    } else if str_eq(pos, "preposition") {
        "prep"
    } else if str_eq(pos, "conjunction") {
        "conj"
    } else if str_eq(pos, "interjection") {
        "interj"
    } else {
        pos
    }
}

/// How many bytes of a definition are kept.
pub const DEFINITION_MAX_BYTES: usize = 70;

/// The part of speech as it leads a definition: "(n.) ", or nothing.
pub open spec fn pos_tag(pos: Seq<char>) -> Seq<char> {
    if pos.len() == 0 {
        Seq::empty()
    } else {
        "("@ + abbreviation(pos) + ".) "@
    }
}

/// A definition as shown: the part of speech, then the text, cut after 70
/// bytes with "..." when it is longer.
pub open spec fn shown_definition(pos: Seq<char>, def: Seq<char>) -> Seq<char> {
    let bytes = vstd::utf8::encode_utf8(def);
    pos_tag(pos) + if bytes.len() > 70 {
        vstd::utf8::decode_utf8(bytes.subrange(0, 70)) + "..."@
    } else {
        def
    }
}

/// Shapes a fetched definition into one line for the log.
pub fn format_definition(part_of_speech: &str, definition: &str) -> (r: String)
    requires
        definition.spec_bytes().len() > 70 ==> vstd::utf8::is_char_boundary(definition.spec_bytes(), 70),
    ensures
        r@ == shown_definition(part_of_speech@, definition@),
{
    let abbrev = if part_of_speech.unicode_len() == 0 {
        String::new()
    } else {
        join3("(", abbreviate_pos(part_of_speech), ".) ")
    };
    if definition.as_bytes().len() > DEFINITION_MAX_BYTES {
        let (head, _) = definition.split_at(DEFINITION_MAX_BYTES);
        proof {
            vstd::utf8::encode_utf8_decode_utf8(head@);
        }
        join3(abbrev.as_str(), head, "...")
    } else {
        join(abbrev.as_str(), definition)
    }
}

/// One sense of a word, as the dictionary service answers it.
pub struct Sense {
    pub definition: Option<String>,
}

/// One meaning of a word: its part of speech and its senses.
pub struct Meaning {
    pub part_of_speech: Option<String>,
    pub definitions: Option<Vec<Sense>>,
}

/// One entry of the dictionary service's answer.
pub struct DictEntry {
    pub meanings: Option<Vec<Meaning>>,
}

/// The part of speech and the text of the first sense of the first meaning
/// of the first entry, when the answer has them; a missing part of speech
/// reads as empty.
pub open spec fn first_sense(entries: Seq<DictEntry>) -> Option<(Seq<char>, Seq<char>)> {
    if entries.len() == 0 {
        None
    } else {
        match entries[0].meanings {
            None => None,
            Some(ms) => if ms@.len() == 0 {
                None
            } else {
                let m = ms@[0];
                match m.definitions {
                    None => None,
                    Some(ds) => if ds@.len() == 0 {
                        None
                    } else {
                        match ds@[0].definition {
                            None => None,
                            Some(d) => Some(
                                (
                                    match m.part_of_speech {
                                        Some(p) => p@,
                                        None => Seq::empty(),
                                    },
                                    d@,
                                ),
                            ),
                        }
                    },
                }
            },
        }
    }
}

/// A definition can be cut after its first 70 bytes only between
/// characters.
pub open spec fn cut_fits(def: Seq<char>) -> bool {
    let bytes = vstd::utf8::encode_utf8(def);
    bytes.len() > 70 ==> vstd::utf8::is_char_boundary(bytes, 70)
}

/// The line an answer gives: its first sense shaped for the log, or nothing
/// when the answer has no such sense or its text cannot be cut there.
pub open spec fn definition_shown(entries: Seq<DictEntry>) -> Option<Seq<char>> {
    match first_sense(entries) {
        Some((pos, def)) => if cut_fits(def) {
            Some(shown_definition(pos, def))
        } else {
            None
        },
        None => None,
    }
}

/// Shapes the dictionary service's answer into one line for the log: the
/// first meaning's first sense of the first entry.
pub fn definition_from_entries(entries: &Vec<DictEntry>) -> (r: Option<String>)
    ensures
        opt_text(r) == definition_shown(entries@),
{
    if entries.len() == 0 {
        return None;
    }
    let meanings = match &entries[0].meanings {
        Some(ms) => ms,
        None => {
            return None;
        },
    };
    if meanings.len() == 0 {
        return None;
    }
    let meaning = &meanings[0];
    let senses = match &meaning.definitions {
        Some(ds) => ds,
        None => {
            return None;
        },
    };
    if senses.len() == 0 {
        return None;
    }
    let definition = match &senses[0].definition {
        Some(d) => d.as_str(),
        None => {
            return None;
        },
    };
    let part_of_speech = match &meaning.part_of_speech {
        Some(p) => p.as_str(),
        None => "",
    };
    proof {
        reveal_strlit("");
    }
    if definition.as_bytes().len() > DEFINITION_MAX_BYTES && !definition.is_char_boundary(DEFINITION_MAX_BYTES) {
        return None;
    }
    Some(format_definition(part_of_speech, definition))
}

/// A word is fetched at most once: once requested, its entry exists, so
/// another request for it asks for nothing; and what `complete` records is
/// what `get` then finds.
pub proof fn law_request_once_then_found(m: Map<Seq<char>, Option<Seq<char>>>, k: Seq<char>, v: Option<Seq<char>>)
    ensures
        m.insert(k, None).contains_key(k),
        m.insert(k, v).contains_key(k),
        m.insert(k, v)[k] == v,
{
}

/// What a request makes of the cache: a word neither cached nor in flight
/// is marked in flight, under its upper-case form.
pub open spec fn after_request(m: Map<Seq<char>, Option<Seq<char>>>, word: Seq<char>) -> Map<Seq<char>, Option<Seq<char>>> {
    if m.contains_key(spec_to_uppercase(word)) {
        m
    } else {
        m.insert(spec_to_uppercase(word), None)
    }
}

/// A new cache that is only asked for the words of `ws`, one after another,
/// holds an entry for exactly those words (in upper case), each still
/// waiting for its answer. `cs` are the caches along the way.
pub proof fn law_cache_after_requests(cs: Seq<DefinitionCache>, ws: Seq<Seq<char>>)
    requires
        cs.len() == ws.len() + 1,
        cs[0]@ == Map::<Seq<char>, Option<Seq<char>>>::empty(),
        forall|i: int| 0 <= i < ws.len() ==> #[trigger] cs[i + 1]@ == after_request(cs[i]@, ws[i]),
    ensures
        cs.last()@.dom() == Set::new(|k: Seq<char>| exists|j: int| 0 <= j < ws.len() && k == spec_to_uppercase(#[trigger] ws[j])),
        forall|k: Seq<char>| #[trigger] cs.last()@.contains_key(k) ==> cs.last()@[k] is None,
    decreases ws.len(),
{
    let target = Set::new(|k: Seq<char>| exists|j: int| 0 <= j < ws.len() && k == spec_to_uppercase(#[trigger] ws[j]));
    if ws.len() == 0 {
        assert(cs.last()@.dom() =~= target);
    } else {
        let n = ws.len() - 1;
        let cs0 = cs.drop_last();
        let ws0 = ws.drop_last();
        assert forall|i: int| 0 <= i < ws0.len() implies #[trigger] cs0[i + 1]@ == after_request(cs0[i]@, ws0[i]) by {
            assert(cs[i + 1]@ == after_request(cs[i]@, ws[i]));
        }
        law_cache_after_requests(cs0, ws0);
        assert(cs[n + 1]@ == after_request(cs[n]@, ws[n]));
        assert(cs0.last() == cs[n]);
        assert forall|k: Seq<char>| #[trigger] target.contains(k) <==> cs.last()@.dom().contains(k) by {
            if target.contains(k) {
                let j = choose|j: int| 0 <= j < ws.len() && k == spec_to_uppercase(#[trigger] ws[j]);
                if j < n {
                    assert(ws0[j] == ws[j]);
                }
            }
            if cs[n]@.dom().contains(k) {
                let j = choose|j: int| 0 <= j < ws0.len() && k == spec_to_uppercase(#[trigger] ws0[j]);
                assert(ws[j] == ws0[j]);
            }
        }
        assert(cs.last()@.dom() =~= target);
    }
}

/// The cache reads alike in either case: two ASCII spellings of a word
/// that differ only in case lead to the same entry, and so does the
/// lower-case form a request hands out for fetching.
pub proof fn law_cache_is_case_blind(c: DefinitionCache, a: Seq<char>, b: Seq<char>)
    requires
        is_ascii_text(a),
        is_ascii_text(b),
        ascii_upper_text(a) == ascii_upper_text(b),
    ensures
        spec_to_uppercase(a) == spec_to_uppercase(b),
        spec_to_uppercase(spec_to_lowercase(a)) == spec_to_uppercase(a),
        c@.contains_key(spec_to_uppercase(a)) == c@.contains_key(spec_to_uppercase(b)),
        c@[spec_to_uppercase(a)] == c@[spec_to_uppercase(b)],
{
    law_ascii_case_is_blind(a);
}

/// A new cache asked only for the ASCII words of `ws`, one after another,
/// has an entry for an ASCII word exactly when one of the words is that
/// word in some mix of cases, and the entry still waits for its answer.
/// `cs` are the caches along the way.
pub proof fn law_cache_after_ascii_requests(cs: Seq<DefinitionCache>, ws: Seq<Seq<char>>, w: Seq<char>)
    requires
        cs.len() == ws.len() + 1,
        cs[0]@ == Map::<Seq<char>, Option<Seq<char>>>::empty(),
        forall|i: int| 0 <= i < ws.len() ==> #[trigger] cs[i + 1]@ == after_request(cs[i]@, ws[i]),
        forall|i: int| 0 <= i < ws.len() ==> is_ascii_text(#[trigger] ws[i]),
        is_ascii_text(w),
    ensures
        cs.last()@.contains_key(spec_to_uppercase(w)) == exists|j: int|
            0 <= j < ws.len() && #[trigger] ascii_upper_text(ws[j]) == ascii_upper_text(w),
        cs.last()@.contains_key(spec_to_uppercase(w)) ==> cs.last()@[spec_to_uppercase(w)] is None,
{
    law_cache_after_requests(cs, ws);
    let k = spec_to_uppercase(w);
    if cs.last()@.contains_key(k) {
        let j = choose|j: int| 0 <= j < ws.len() && k == spec_to_uppercase(#[trigger] ws[j]);
        assert(is_ascii_text(ws[j]));
        assert(ascii_upper_text(ws[j]) == ascii_upper_text(w));
    }
    if exists|j: int| 0 <= j < ws.len() && #[trigger] ascii_upper_text(ws[j]) == ascii_upper_text(w) {
        let j = choose|j: int| 0 <= j < ws.len() && #[trigger] ascii_upper_text(ws[j]) == ascii_upper_text(w);
        assert(is_ascii_text(ws[j]));
        assert(k == spec_to_uppercase(ws[j]));
    }
}

} // verus!
