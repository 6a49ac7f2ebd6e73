//! The word list: which words are valid and which letter sequences can
//! still grow into one.

use crate::text::{
    ascii_upper_text, chars_of, is_ascii_text, law_ascii_case_is_blind, lines, spec_lines, spec_to_uppercase, spec_trim,
    to_uppercase, trim,
};
use crate::trie::{all_letters, is_ascii_letter, key, leading_letters, lemma_leading_letters, letter_index, Trie};
use vstd::prelude::*;
use vstd::string::StringSliceAdditionalSpecFns;

verus! {

/// Whether the word is made of the letters `A` to `Z` only.
pub open spec fn is_upper_word(u: Seq<char>) -> bool {
    forall|i: int| 0 <= i < u.len() ==> 'A' <= #[trigger] u[i] <= 'Z'
}

/// Whether a cleaned-up line is kept as a word: three or more letters and
/// nothing else.
pub open spec fn accepted(u: Seq<char>) -> bool {
    all_letters(u) && u.len() >= 3
}

/// The line `l` of a word list as it is looked up: trimmed, in upper case.
pub open spec fn cleaned(l: Seq<char>) -> Seq<char> {
    spec_to_uppercase(spec_trim(l))
}

/// The words a word list holds: its lines, cleaned up, that are accepted.
pub open spec fn words_of(text: Seq<char>) -> Set<Seq<char>> {
    Set::new(
        |u: Seq<char>|
            accepted(u) && exists|i: int|
                0 <= i < spec_lines(text).len() && u == cleaned(#[trigger] spec_lines(text)[i]),
    )
}

/// Whether `p` is the start of `u`.
pub open spec fn starts(u: Seq<char>, p: Seq<char>) -> bool {
    p.len() <= u.len() && u.subrange(0, p.len() as int) == p
}

/// Upper-case words with the same key are the same word.
proof fn lemma_key_injective(u: Seq<char>, v: Seq<char>)
    requires
        is_upper_word(u),
        is_upper_word(v),
        key(u) == key(v),
    ensures
        u == v,
{
    assert(u.len() == key(u).len());
    assert forall|i: int| 0 <= i < u.len() implies u[i] == v[i] by {
        assert(key(u)[i] == key(v)[i]);
        assert(key(u)[i] == letter_index(u[i]));
        assert(key(v)[i] == letter_index(v[i]));
        assert('A' <= u[i] <= 'Z');
        assert('A' <= v[i] <= 'Z');
        assert(u[i] as int == v[i] as int);
    }
    assert(u =~= v);
}

/// A string with no `a` to `z` that is made of letters is upper case.
proof fn lemma_upper_letters(u: Seq<char>)
    requires
        all_letters(u),
        forall|i: int| 0 <= i < u.len() ==> !('a' <= #[trigger] u[i] <= 'z'),
    ensures
        is_upper_word(u),
{
    assert forall|i: int| 0 <= i < u.len() implies 'A' <= #[trigger] u[i] <= 'Z' by {
        assert(is_ascii_letter(u[i]));
    }
}

pub struct Dictionary {
    trie: Trie,
    count: usize,
    words: Ghost<Set<Seq<char>>>,
}

impl Dictionary {
    /// The valid words.
    pub closed spec fn words(&self) -> Set<Seq<char>> {
        self.words@
    }

    pub closed spec fn wf(&self) -> bool {
        &&& self.trie.wf()
        &&& self.words@.finite()
        &&& self.count == self.words@.len()
        &&& forall|u: Seq<char>| #[trigger] self.words@.contains(u) ==> is_upper_word(u) && u.len() >= 3
        &&& forall|k: Seq<int>|
            #[trigger] self.trie.words().contains(k) <==> exists|u: Seq<char>|
                #[trigger] self.words@.contains(u) && key(u) == k
        &&& forall|k: Seq<int>|
            #[trigger] self.trie.prefixes().contains(k) <==> (k.len() == 0 || exists|u: Seq<char>, j: int|
                #[trigger] self.words@.contains(u) && 0 <= j <= u.len() && key(#[trigger] u.subrange(0, j)) == k)
    }

    /// Reads a word list, one word per line. Lines are trimmed and put in
    /// upper case; those of three or more letters and nothing else are kept.
    pub fn new(text: &str) -> (d: Dictionary)
        ensures
            d.wf(),
            d.words() == words_of(text@),
    {
        let all = lines(text);
        let mut d = Dictionary { trie: Trie::new(), count: 0, words: Ghost(Set::empty()) };
        proof {
            assert forall|k: Seq<int>| #[trigger] d.trie.prefixes().contains(k) <==> (k.len() == 0 || exists|u: Seq<char>, j: int|
                #[trigger] d.words@.contains(u) && 0 <= j <= u.len() && key(#[trigger] u.subrange(0, j)) == k) by {
                if k.len() == 0 {
                    assert(k =~= Seq::<int>::empty());
                }
            }
        }
        let mut i: usize = 0;
        while i < all.len()
            invariant
                d.wf(),
                i <= all@.len(),
                all@.len() == spec_lines(text@).len(),
                forall|j: int| 0 <= j < all@.len() ==> #[trigger] all@[j]@ == spec_lines(text@)[j],
                d.words() == Set::new(
                    |u: Seq<char>|
                        accepted(u) && exists|j: int|
                            0 <= j < i && u == cleaned(#[trigger] spec_lines(text@)[j]),
                ),
            decreases all@.len() - i,
        {
            let t = trim(all[i]);
            let upper = to_uppercase(t);
            let us = upper.as_str();
            let ghost before = d.words();
            let letters = all_ascii_letters(us);
            proof {
                if letters {
                    lemma_upper_letters(upper@);
                    vstd::string::is_ascii_spec_bytes(us);
                    assert(vstd::string::is_ascii(us)) by {
                        assert forall|j: int| 0 <= j < upper@.len() implies #[trigger] upper@[j] < 128 by {
                            assert(is_ascii_letter(upper@[j]));
                        }
                    }
                    assert(us.spec_bytes().len() == upper@.len());
                }
            }
            if us.len() >= 3 && letters {
                d.add(us);
                assert(d.words() == before.insert(upper@));
            } else {
                assert(!accepted(upper@));
                assert(d.words() == before);
            }
            proof {
                assert(d.words() =~= Set::new(
                    |u: Seq<char>|
                        accepted(u) && exists|j: int|
                            0 <= j < i + 1 && u == cleaned(#[trigger] spec_lines(text@)[j]),
                )) by {
                    assert(upper@ == cleaned(spec_lines(text@)[i as int]));
                    assert forall|u: Seq<char>| accepted(u) && exists|j: int| 0 <= j < i + 1 && u == cleaned(#[trigger] spec_lines(text@)[j])
                        implies #[trigger] d.words().contains(u) by {
                        let j = choose|j: int| 0 <= j < i + 1 && u == cleaned(#[trigger] spec_lines(text@)[j]);
                        if j < i {
                            assert(before.contains(u));
                        } else {
                            assert(u == upper@);
                            assert(u.len() >= 3);

                        }
                    }
                }
            }
            i = i + 1;
        }
        proof {
            assert(d.words() =~= words_of(text@));
        }
        d
    }

    /// Adds one accepted upper-case word.
    fn add(&mut self, u: &str)
        requires
            old(self).wf(),
            is_upper_word(u@),
            all_letters(u@),
            u@.len() >= 3,
        ensures
            final(self).wf(),
            final(self).words() == old(self).words().insert(u@),
    {
        let present = self.trie.contains(u);
        let ghost w = u@;
        let ghost old_words = self.words@;
        proof {
            lemma_leading_letters(w, w.len() as int);
            assert(w.subrange(0, w.len() as int) =~= w);
            if present {
                let v = choose|v: Seq<char>| #[trigger] self.words@.contains(v) && key(v) == key(w);
                lemma_key_injective(v, w);
            } else {
                assert(!old_words.contains(w));
            }
        }
        let ghost old_tw = self.trie.words();
        let ghost old_tp = self.trie.prefixes();
        self.trie.insert(u);
        proof {
            self.words@ = old_words.insert(w);
            assert(self.trie.words() == old_tw.insert(key(w)));
            assert forall|k: Seq<int>|
                #[trigger] self.trie.words().contains(k) <==> exists|v: Seq<char>|
                    #[trigger] self.words@.contains(v) && key(v) == k by {
                if self.trie.words().contains(k) {
                    if k == key(w) {
                        assert(self.words@.contains(w));
                    } else {
                        assert(old_tw.contains(k));
                        let v = choose|v: Seq<char>| #[trigger] old_words.contains(v) && key(v) == k;
                        assert(self.words@.contains(v));
                    }
                }
                if exists|v: Seq<char>| #[trigger] self.words@.contains(v) && key(v) == k {
                    let v = choose|v: Seq<char>| #[trigger] self.words@.contains(v) && key(v) == k;
                    if v != w {
                        assert(old_words.contains(v));
                        assert(old_tw.contains(key(v)));
                    }
                }
            }
            assert forall|k: Seq<int>|
                #[trigger] self.trie.prefixes().contains(k) <==> (k.len() == 0 || exists|v: Seq<char>, j: int|
                    #[trigger] self.words@.contains(v) && 0 <= j <= v.len() && key(#[trigger] v.subrange(0, j)) == k) by {
                if exists|v: Seq<char>, j: int| #[trigger] self.words@.contains(v) && 0 <= j <= v.len() && key(#[trigger] v.subrange(0, j)) == k {
                    let (v, j) = choose|v: Seq<char>, j: int| #[trigger] self.words@.contains(v) && 0 <= j <= v.len() && key(#[trigger] v.subrange(0, j)) == k;
                    if v == w {
                        assert(key(w.subrange(0, j)) == k);
                        assert(self.trie.prefixes().contains(k));
                    } else {
                        assert(old_words.contains(v));
                        assert(old_tp.contains(k));
                    }
                }
                if self.trie.prefixes().contains(k) && k.len() != 0 {
                    if old_tp.contains(k) {
                        let (v, j) = choose|v: Seq<char>, j: int| #[trigger] old_words.contains(v) && 0 <= j <= v.len() && key(#[trigger] v.subrange(0, j)) == k;
                        assert(self.words@.contains(v));
                    } else {
                        let j = choose|j: int| 0 <= j <= leading_letters(w) && k == key(#[trigger] w.subrange(0, j));
                        assert(self.words@.contains(w));
                    }
                }
            }
        }
        if !present {
            proof {
                self.trie.lemma_word_count_bound();
                let f = |v: Seq<char>| key(v);
                assert(vstd::relations::injective_on(f, self.words@)) by {
                    assert forall|a: Seq<char>, b: Seq<char>| self.words@.contains(a) && self.words@.contains(b) && #[trigger] f(a) == #[trigger] f(b) implies a == b by {
                        lemma_key_injective(a, b);
                    }
                }
                assert(self.words@.map(f) =~= self.trie.words());
                vstd::set_lib::lemma_map_size(self.words@, self.trie.words(), f);
                assert(self.words@.len() == old_words.len() + 1);
            }
            self.count = self.count + 1;
        }
    }

    /// Check if a word is valid (exists in dictionary, 3+ chars)
    pub fn is_word(&self, word: &str) -> (r: bool)
        requires
            self.wf(),
        ensures
            r == self.words().contains(spec_to_uppercase(word@)),
    {
        let upper = to_uppercase(word);
        let r = self.trie.contains(upper.as_str());
        proof {
            let u = upper@;
            if r {
                lemma_upper_letters(u);
                let v = choose|v: Seq<char>| #[trigger] self.words@.contains(v) && key(v) == key(u);
                lemma_key_injective(v, u);
            }
            if self.words@.contains(u) {
                assert(all_letters(u)) by {
                    assert forall|i: int| 0 <= i < u.len() implies is_ascii_letter(#[trigger] u[i]) by {
                        assert('A' <= u[i] <= 'Z');
                    }
                }
                assert(self.trie.words().contains(key(u)));
            }
        }
        r
    }

    /// Check if a prefix could lead to a valid word: the empty prefix always
    /// can, and otherwise some valid word must start with it.
    pub fn is_prefix(&self, prefix: &str) -> (r: bool)
        requires
            self.wf(),
        ensures
            r == ({
                let p = spec_to_uppercase(prefix@);
                p.len() == 0 || exists|u: Seq<char>| #[trigger] self.words().contains(u) && starts(u, p)
            }),
    {
        let upper = to_uppercase(prefix);
        let r = self.trie.is_prefix(upper.as_str());
        proof {
            let p = upper@;
            let goal = p.len() == 0 || exists|u: Seq<char>| #[trigger] self.words().contains(u) && starts(u, p);
            if p.len() == 0 {
                assert(key(p) =~= Seq::<int>::empty());
                assert(all_letters(p));
                assert(self.trie.prefixes().contains(key(p)));
                assert(r);
            } else if r {
                lemma_upper_letters(p);
                assert(self.trie.prefixes().contains(key(p)));
                assert(key(p).len() != 0);
                let (v, j) = choose|v: Seq<char>, j: int| #[trigger] self.words@.contains(v) && 0 <= j <= v.len() && key(#[trigger] v.subrange(0, j)) == key(p);
                assert(is_upper_word(v.subrange(0, j))) by {
                    assert forall|i: int| 0 <= i < j implies 'A' <= #[trigger] v.subrange(0, j)[i] <= 'Z' by {
                        assert(v.subrange(0, j)[i] == v[i]);
                    }
                }
                lemma_key_injective(v.subrange(0, j), p);
                assert(starts(v, p));
                assert(self.words().contains(v));
                assert(goal);
            } else {
                if exists|u: Seq<char>| #[trigger] self.words@.contains(u) && starts(u, p) {
                    let u = choose|u: Seq<char>| #[trigger] self.words@.contains(u) && starts(u, p);
                    assert(all_letters(p)) by {
                        assert forall|i: int| 0 <= i < p.len() implies is_ascii_letter(#[trigger] p[i]) by {
                            assert(p[i] == u.subrange(0, p.len() as int)[i]);
                            assert('A' <= u[i] <= 'Z');
                        }
                    }
                    let j = p.len() as int;
                    assert(key(u.subrange(0, j)) == key(p));
                    assert(self.trie.prefixes().contains(key(p)));
                    assert(false);
                }
                assert(!goal);
            }
        }
        r
    }

    pub fn word_count(&self) -> (n: usize)
        requires
            self.wf(),
        ensures
            n == self.words().len(),
    {
        self.count
    }
}

/// Whether every character of the string is an ASCII letter.
fn all_ascii_letters(s: &str) -> (r: bool)
    ensures
        r == all_letters(s@),
        s@.len() <= usize::MAX,
{
    let cs = chars_of(s);
    let _n = cs.len();
    let mut i: usize = 0;
    while i < cs.len()
        invariant
            cs@ == s@,
            i <= cs@.len(),
            forall|j: int| 0 <= j < i ==> is_ascii_letter(#[trigger] cs@[j]),
        decreases cs@.len() - i,
    {
        let c = cs[i];
        if !(('a' <= c && c <= 'z') || ('A' <= c && c <= 'Z')) {
            return false;
        }
        i = i + 1;
    }
    true
}

/// Every word of a word list has at least three characters, each a letter.
pub proof fn law_words_are_letters_only(text: Seq<char>, u: Seq<char>)
    requires
        words_of(text).contains(u),
    ensures
        u.len() >= 3,
        all_letters(u),
{
}

/// Case does not matter to the dictionary: two ASCII spellings that differ
/// only in case are a word (or a prefix) alike, and the empty prefix is
/// always a prefix.
pub proof fn law_dictionary_is_case_blind(d: Dictionary, a: Seq<char>, b: Seq<char>)
    requires
        is_ascii_text(a),
        is_ascii_text(b),
        ascii_upper_text(a) == ascii_upper_text(b),
    ensures
        d.words().contains(spec_to_uppercase(a)) == d.words().contains(spec_to_uppercase(b)),
        forall|u: Seq<char>| starts(u, spec_to_uppercase(a)) == starts(u, spec_to_uppercase(b)),
        spec_to_uppercase(Seq::<char>::empty()).len() == 0,
{
    law_ascii_case_is_blind(a);
    assert(ascii_upper_text(Seq::<char>::empty()) =~= Seq::<char>::empty());
}

} // verus!
