//! A prefix tree over the letters `A` to `Z`, with upper and lower case
//! read alike.

use crate::text::{ascii_upper_text, chars_of, spec_ascii_upper};
use vstd::prelude::*;

verus! {

pub const ALPHABET_SIZE: usize = 26;

/// Whether `c` is an ASCII letter.
pub open spec fn is_ascii_letter(c: char) -> bool {
    ('a' <= c <= 'z') || ('A' <= c <= 'Z')
}

/// The position of an ASCII letter in the alphabet, either case.
pub open spec fn letter_index(c: char) -> int {
    if 'a' <= c <= 'z' {
        c as int - 'a' as int
    } else {
        c as int - 'A' as int
    }
}

pub open spec fn all_letters(w: Seq<char>) -> bool {
    forall|i: int| 0 <= i < w.len() ==> is_ascii_letter(#[trigger] w[i])
}

/// A word as the sequence of its letters' positions in the alphabet.
pub open spec fn key(w: Seq<char>) -> Seq<int> {
    w.map_values(|c: char| letter_index(c))
}

/// How many letters the word starts with before its first other character.
pub open spec fn leading_letters(w: Seq<char>) -> nat
    decreases w.len(),
{
    if w.len() == 0 {
        0
    } else if is_ascii_letter(w[0]) {
        1 + leading_letters(w.drop_first())
    } else {
        0
    }
}

/// A word that runs into a non-letter after `i` letters starts with
/// exactly `i` letters.
pub proof fn lemma_leading_letters(w: Seq<char>, i: int)
    requires
        0 <= i <= w.len(),
        all_letters(w.subrange(0, i)),
        i == w.len() || !is_ascii_letter(w[i]),
    ensures
        leading_letters(w) == i,
    decreases i,
{
    if i > 0 {
        let t = w.drop_first();
        assert(w.subrange(0, i)[0] == w[0]);
        assert forall|j: int| 0 <= j < i - 1 implies is_ascii_letter(#[trigger] t.subrange(0, i - 1)[j]) by {
            assert(t.subrange(0, i - 1)[j] == w.subrange(0, i)[j + 1]);
        }
        if i < w.len() {
            assert(t[i - 1] == w[i]);
        }
        lemma_leading_letters(t, i - 1);
    } else {
        if w.len() > 0 {
            assert(!is_ascii_letter(w[0]));
        }
    }
}

/// `push` is one-to-one.
proof fn lemma_push_injective(p: Seq<int>, c: int, q: Seq<int>, d: int)
    requires
        p.push(c) == q.push(d),
    ensures
        p == q,
        c == d,
{
    assert(p.push(c).drop_last() =~= p);
    assert(q.push(d).drop_last() =~= q);
    assert(p.push(c).last() == c);
}

/// The key of a word one letter longer.
proof fn lemma_key_push(w: Seq<char>, i: int)
    requires
        0 <= i < w.len(),
    ensures
        key(w.subrange(0, i + 1)) == key(w.subrange(0, i)).push(letter_index(w[i])),
{
    assert(key(w.subrange(0, i + 1)) =~= key(w.subrange(0, i)).push(letter_index(w[i])));
}

/// The position in the alphabet of an ASCII letter, either case.
fn char_index(c: char) -> (r: Option<usize>)
    ensures
        r is Some <==> is_ascii_letter(c),
        r is Some ==> r->0 == letter_index(c) && r->0 < 26,
{
    if 'a' <= c && c <= 'z' {
        Some(((c as u32) - ('a' as u32)) as usize)
    } else if 'A' <= c && c <= 'Z' {
        Some(((c as u32) - ('A' as u32)) as usize)
    } else {
        None
    }
}

/// Appends the (empty) child slots of one more node.
fn push_empty_children(child: &mut Vec<Option<usize>>)
    ensures
        final(child)@.len() == old(child)@.len() + 26,
        forall|n: int| 0 <= n < old(child)@.len() ==> #[trigger] final(child)@[n] == old(child)@[n],
        forall|n: int| old(child)@.len() <= n < final(child)@.len() ==> #[trigger] final(child)@[n] is None,
{
    let ghost start = child@;
    let mut k: usize = 0;
    while k < ALPHABET_SIZE
        invariant
            k <= 26,
            child@.len() == start.len() + k,
            forall|n: int| 0 <= n < start.len() ==> #[trigger] child@[n] == start[n],
            forall|n: int| start.len() <= n < child@.len() ==> #[trigger] child@[n] is None,
        decreases 26 - k,
    {
        child.push(None);
        k = k + 1;
    }
}

/// A prefix tree. Node `n`'s child for letter `c` sits at `child[26 n + c]`;
/// `index` names the node each stored prefix leads to.
pub struct Trie {
    child: Vec<Option<usize>>,
    is_end: Vec<bool>,
    index: Ghost<Map<Seq<int>, int>>,
}

impl Trie {
    /// The prefixes that lead to a node.
    pub closed spec fn prefixes(&self) -> Set<Seq<int>> {
        self.index@.dom()
    }

    /// The stored words.
    pub closed spec fn words(&self) -> Set<Seq<int>> {
        Set::new(|p: Seq<int>| self.index@.dom().contains(p) && self.is_end@[self.index@[p]])
    }

    /// The number of nodes.
    pub closed spec fn node_count(&self) -> nat {
        self.is_end@.len()
    }

    pub closed spec fn wf(&self) -> bool {
        &&& self.is_end@.len() >= 1
        &&& self.child@.len() == 26 * self.is_end@.len()
        &&& self.child@.len() <= usize::MAX
        &&& self.index@.dom().contains(Seq::<int>::empty())
        &&& self.index@.dom().finite()
        &&& self.index@[Seq::<int>::empty()] == 0
        &&& forall|p: Seq<int>| #[trigger]
            self.index@.dom().contains(p) ==> 0 <= self.index@[p] < self.is_end@.len()
        &&& forall|p: Seq<int>, q: Seq<int>|
            #[trigger] self.index@.dom().contains(p) && #[trigger] self.index@.dom().contains(q)
                && self.index@[p] == self.index@[q] ==> p == q
        &&& forall|p: Seq<int>, c: int|
            #![trigger self.index@.dom().contains(p.push(c))]
            self.index@.dom().contains(p) && 0 <= c < 26 ==> (self.index@.dom().contains(p.push(c))
                <==> self.child@[26 * self.index@[p] + c] is Some)
        &&& forall|p: Seq<int>, c: int|
            #![trigger self.index@[p.push(c)]]
            self.index@.dom().contains(p) && 0 <= c < 26 && self.index@.dom().contains(p.push(c))
                ==> self.child@[26 * self.index@[p] + c] == Some(self.index@[p.push(c)] as usize)
        &&& forall|n: int|
            0 <= n < self.child@.len() && #[trigger] self.child@[n] is Some ==> self.child@[n]->0
                < self.is_end@.len()
        &&& forall|p: Seq<int>|
            #[trigger] self.index@.dom().contains(p) && p.len() > 0 ==> self.index@.dom().contains(
                p.drop_last(),
            )
    }

    pub fn new() -> (t: Trie)
        ensures
            t.wf(),
            t.prefixes() == set![Seq::<int>::empty()],
            t.words() == Set::<Seq<int>>::empty(),
            t.node_count() == 1,
    {
        let mut child: Vec<Option<usize>> = Vec::new();
        let mut i: usize = 0;
        while i < ALPHABET_SIZE
            invariant
                i <= 26,
                child@.len() == i,
                forall|j: int| 0 <= j < i ==> #[trigger] child@[j] is None,
            decreases 26 - i,
        {
            child.push(None);
            i = i + 1;
        }
        let mut is_end: Vec<bool> = Vec::new();
        is_end.push(false);
        let ghost m = Map::<Seq<int>, int>::empty().insert(Seq::<int>::empty(), 0int);
        let t = Trie { child, is_end, index: Ghost(m) };
        assert(t.prefixes() =~= set![Seq::<int>::empty()]);
        assert forall|p: Seq<int>, c: int| t.index@.dom().contains(p) && 0 <= c < 26 implies (t.index@.dom().contains(p.push(c))
                <==> t.child@[26 * t.index@[p] + c] is Some) by {
            assert(p == Seq::<int>::empty());
            assert(p.push(c).len() == 1);
        }
        assert(t.words() =~= Set::<Seq<int>>::empty());
        t
    }
}


impl Trie {
    /// There are no more stored words than nodes.
    pub proof fn lemma_word_count_bound(&self)
        requires
            self.wf(),
        ensures
            self.words().finite(),
            self.words().len() <= self.node_count(),
            self.node_count() <= usize::MAX,
    {
        let ws = self.words();
        vstd::set_lib::lemma_len_subset(ws, self.index@.dom());
        let f = |p: Seq<int>| self.index@[p];
        let img = ws.map(f);
        assert(vstd::relations::injective_on(f, ws));
        vstd::set_lib::lemma_map_size(ws, img, f);
        vstd::set_lib::lemma_int_range(0, self.node_count() as int);
        assert(img.subset_of(vstd::set_lib::set_int_range(0, self.node_count() as int)));
        vstd::set_lib::lemma_len_subset(img, vstd::set_lib::set_int_range(0, self.node_count() as int));
    }

    /// Every stored word is also a stored prefix.
    pub proof fn law_words_are_prefixes(&self)
        requires
            self.wf(),
        ensures
            self.words().subset_of(self.prefixes()),
    {
    }

    /// The stored prefixes are closed under taking prefixes.
    pub proof fn law_prefixes_are_closed(&self, p: Seq<int>, j: int)
        requires
            self.wf(),
            self.prefixes().contains(p),
            0 <= j <= p.len(),
        ensures
            self.prefixes().contains(p.subrange(0, j)),
    {
        self.lemma_prefix_closed(p, j);
    }

    /// Every prefix of a stored prefix is stored.
    proof fn lemma_prefix_closed(&self, q: Seq<int>, j: int)
        requires
            self.wf(),
            self.index@.dom().contains(q),
            0 <= j <= q.len(),
        ensures
            self.index@.dom().contains(q.subrange(0, j)),
        decreases q.len() - j,
    {
        if j == q.len() {
            assert(q.subrange(0, j) =~= q);
        } else {
            self.lemma_prefix_closed(q, j + 1);
            assert(q.subrange(0, j + 1).drop_last() =~= q.subrange(0, j));
        }
    }

    /// Insert a word. Its leading letters are stored as prefixes; the word
    /// itself counts as stored only if it is made of letters alone.
    pub fn insert(&mut self, word: &str)
        requires
            old(self).wf(),
        ensures
            final(self).wf(),
            inserted(*old(self), *final(self), word@),
            final(self).node_count() <= old(self).node_count() + word@.len(),
    {
        let chars = chars_of(word);
        let ghost w = word@;
        let ghost added = |i: int| Set::new(
            |p: Seq<int>| exists|j: int| 0 <= j <= i && p == key(#[trigger] w.subrange(0, j)),
        );
        let mut node: usize = 0;
        let mut i: usize = 0;
        let ghost mut p: Seq<int> = Seq::empty();
        proof {
            assert(key(w.subrange(0, 0)) =~= Seq::<int>::empty());
            assert(self.prefixes() + added(0) =~= self.prefixes());
        }
        while i < chars.len()
            invariant
                self.wf(),
                chars@ == w,
                w == word@,
                i <= w.len(),
                self.node_count() <= old(self).node_count() + i,
                all_letters(w.subrange(0, i as int)),
                p == key(w.subrange(0, i as int)),
                self.index@.dom().contains(p),
                self.index@[p] == node,
                self.prefixes() == old(self).prefixes() + added(i as int),
                self.words() == old(self).words(),
                added == (|i: int| Set::new(
                    |p: Seq<int>| exists|j: int| 0 <= j <= i && p == key(#[trigger] w.subrange(0, j)),
                )),
            decreases w.len() - i,
        {
            match char_index(chars[i]) {
                Some(idx) => {
                    let slot = node * ALPHABET_SIZE + idx;
                    let ghost old_words = self.words();
                    let ghost old_prefixes = self.prefixes();
                    match self.child[slot] {
                        Some(next) => {
                            proof {
                                assert(self.index@.dom().contains(p.push(idx as int)));
                            }
                            node = next;
                        },
                        None => {
                            proof {
                                assert(!self.index@.dom().contains(p.push(idx as int)));
                            }
                            let fresh = self.is_end.len();
                            push_empty_children(&mut self.child);
                            let _grown = self.child.len();
                            self.is_end.push(false);
                            self.child.set(slot, Some(fresh));
                            let ghost q = p.push(idx as int);
                            proof {
                                let old_index = self.index@;
                                self.index@ = old_index.insert(q, fresh as int);
                                assert forall|a: Seq<int>, b: Seq<int>|
                                    #[trigger] self.index@.dom().contains(a) && #[trigger] self.index@.dom().contains(b)
                                        && self.index@[a] == self.index@[b] implies a == b by {
                                    if a != q && b != q {
                                        assert(old_index.dom().contains(a) && old_index.dom().contains(b));
                                    } else if a == q && b != q {
                                        assert(old_index.dom().contains(b));
                                        assert(old_index[b] < fresh);
                                    } else if a != q && b == q {
                                        assert(old_index.dom().contains(a));
                                        assert(old_index[a] < fresh);
                                    }
                                }
                                assert forall|a: Seq<int>, c: int|
                                    #![trigger self.index@.dom().contains(a.push(c))]
                                    self.index@.dom().contains(a) && 0 <= c < 26 implies (self.index@.dom().contains(a.push(c))
                                        <==> self.child@[26 * self.index@[a] + c] is Some) by {
                                    if a == q {
                                        assert(a.push(c) != q) by {
                                            assert(a.push(c).len() != q.len());
                                        }
                                        assert(!old_index.dom().contains(a.push(c))) by {
                                            if old_index.dom().contains(a.push(c)) {
                                                assert(a.push(c).drop_last() =~= a);
                                            }
                                        }
                                        assert(self.child@[26 * fresh + c] is None);
                                    } else {
                                        assert(old_index.dom().contains(a));
                                        assert(old_index[a] < fresh);
                                        let present = old_index.dom().contains(a.push(c));
                                        if a.push(c) == q {
                                            lemma_push_injective(a, c, p, idx as int);
                                        }
                                        if 26 * old_index[a] + c == slot {
                                            assert(old_index[a] == node as int);
                                            assert(a == p);
                                        }
                                    }
                                }
                                assert forall|a: Seq<int>, c: int|
                                    #![trigger self.index@[a.push(c)]]
                                    self.index@.dom().contains(a) && 0 <= c < 26 && self.index@.dom().contains(a.push(c))
                                        implies self.child@[26 * self.index@[a] + c] == Some(self.index@[a.push(c)] as usize) by {
                                    if a == q {
                                        assert(a.push(c).len() != q.len());
                                    } else {
                                        assert(old_index.dom().contains(a));
                                        if a.push(c) == q {
                                            lemma_push_injective(a, c, p, idx as int);
                                        } else {
                                            if 26 * old_index[a] + c == slot {
                                                assert(old_index[a] == node as int);
                                                assert(a == p);
                                            }
                                        }
                                    }
                                }
                                assert forall|a: Seq<int>|
                                    #[trigger] self.index@.dom().contains(a) && a.len() > 0 implies self.index@.dom().contains(
                                        a.drop_last()) by {
                                    if a == q {
                                        assert(q.drop_last() =~= p);
                                    }
                                }
                            }
                            node = fresh;
                        },
                    }
                    proof {
                        lemma_key_push(w, i as int);
                        p = p.push(idx as int);
                        assert(all_letters(w.subrange(0, i + 1))) by {
                            assert forall|j: int| 0 <= j < i + 1 implies is_ascii_letter(#[trigger] w.subrange(0, i + 1)[j]) by {
                                if j < i {
                                    assert(w.subrange(0, i + 1)[j] == w.subrange(0, i as int)[j]);
                                }
                            }
                        }
                        assert(self.words() =~= old(self).words()) by {
                            assert forall|a: Seq<int>| self.words().contains(a) <==> old_words.contains(a) by {
                                if self.index@.dom().contains(a) && !old_prefixes.contains(a) {
                                    assert(a == p);
                                }
                            }
                        }
                        assert(self.prefixes() =~= old(self).prefixes() + added(i + 1)) by {
                            assert forall|a: Seq<int>| self.prefixes().contains(a) <==> (old(self).prefixes() + added(i + 1)).contains(a) by {
                                if added(i + 1).contains(a) && !added(i as int).contains(a) {
                                    let j = choose|j: int| 0 <= j <= i + 1 && a == key(#[trigger] w.subrange(0, j));
                                    assert(j == i + 1);
                                }
                                if added(i as int).contains(a) {
                                    let j = choose|j: int| 0 <= j <= i && a == key(#[trigger] w.subrange(0, j));
                                    assert(added(i + 1).contains(a)) by {
                                        assert(0 <= j <= i + 1 && a == key(w.subrange(0, j)));
                                    }
                                }
                                if self.prefixes().contains(a) && !old_prefixes.contains(a) {
                                    assert(a == key(w.subrange(0, i + 1)));
                                    assert(added(i + 1).contains(a));
                                }
                            }
                        }
                    }
                },
                None => {
                    proof {
                        lemma_leading_letters(w, i as int);
                        assert(leading_letters(w) == i);
                        assert(w == word@);
                        assert(i < w.len());
                        assert(added(i as int) =~= Set::new(
                            |p: Seq<int>|
                                exists|j: int|
                                    0 <= j <= leading_letters(word@) && p == key(#[trigger] word@.subrange(0, j)),
                        ));
                        assert(leading_letters(word@) != word@.len());
                        assert(self.words() == old(self).words());
                    }
                    return;
                },
            }
            i = i + 1;
        }
        proof {
            lemma_leading_letters(w, i as int);
            assert(w.subrange(0, i as int) =~= w);
            assert(added(i as int) =~= Set::new(
                |p: Seq<int>|
                    exists|j: int|
                        0 <= j <= leading_letters(word@) && p == key(#[trigger] word@.subrange(0, j)),
            ));
        }
        let ghost before = self.words();
        self.is_end.set(node, true);
        proof {
            assert(self.words() =~= before.insert(key(w))) by {
                assert forall|a: Seq<int>| self.words().contains(a) <==> before.insert(key(w)).contains(a) by {
                    if self.index@.dom().contains(a) && self.index@[a] == node {
                        assert(a == p);
                    }
                }
            }
        }
    }

    /// Check if a prefix could lead to a stored word.
    pub fn is_prefix(&self, prefix: &str) -> (r: bool)
        requires
            self.wf(),
        ensures
            r == (all_letters(prefix@) && self.prefixes().contains(key(prefix@))),
    {
        match self.find(prefix) {
            Some(_) => true,
            None => false,
        }
    }

    /// Check if a word is stored.
    pub fn contains(&self, word: &str) -> (r: bool)
        requires
            self.wf(),
        ensures
            r == (all_letters(word@) && self.words().contains(key(word@))),
    {
        match self.find(word) {
            Some(n) => self.is_end[n],
            None => false,
        }
    }

    /// The node a word leads to, if it is made of letters and stored as a
    /// prefix.
    fn find(&self, word: &str) -> (r: Option<usize>)
        requires
            self.wf(),
        ensures
            r is Some <==> (all_letters(word@) && self.prefixes().contains(key(word@))),
            r is Some ==> r->0 == self.index@[key(word@)] && r->0 < self.is_end@.len(),
    {
        let chars = chars_of(word);
        let ghost w = word@;
        let mut node: usize = 0;
        let mut i: usize = 0;
        proof {
            assert(key(w.subrange(0, 0)) =~= Seq::<int>::empty());
        }
        while i < chars.len()
            invariant
                self.wf(),
                chars@ == w,
                w == word@,
                i <= w.len(),
                all_letters(w.subrange(0, i as int)),
                self.index@.dom().contains(key(w.subrange(0, i as int))),
                self.index@[key(w.subrange(0, i as int))] == node,
            decreases w.len() - i,
        {
            let ghost p = key(w.subrange(0, i as int));
            proof {
                lemma_key_push(w, i as int);
            }
            match char_index(chars[i]) {
                Some(idx) => {
                    match self.child[node * ALPHABET_SIZE + idx] {
                        Some(next) => {
                            proof {
                                assert(self.index@.dom().contains(p.push(idx as int)));
                                assert(all_letters(w.subrange(0, i + 1))) by {
                                    assert forall|j: int| 0 <= j < i + 1 implies is_ascii_letter(#[trigger] w.subrange(0, i + 1)[j]) by {
                                        if j < i {
                                            assert(w.subrange(0, i + 1)[j] == w.subrange(0, i as int)[j]);
                                        }
                                    }
                                }
                            }
                            node = next;
                        },
                        None => {
                            proof {
                                if all_letters(w) && self.index@.dom().contains(key(w)) {
                                    self.lemma_prefix_closed(key(w), i + 1);
                                    assert(key(w).subrange(0, i + 1) =~= key(w.subrange(0, i + 1)));
                                    assert(self.index@.dom().contains(p.push(idx as int)));
                                    assert(false);
                                }
                            }
                            return None;
                        },
                    }
                },
                None => {
                    proof {
                        assert(!is_ascii_letter(w[i as int]));
                        assert(!all_letters(w));
                    }
                    return None;
                },
            }
            i = i + 1;
        }
        proof {
            assert(w.subrange(0, i as int) =~= w);
        }
        Some(node)
    }
}

/// A word of letters alone is found after it is inserted: the words after
/// `insert` (as its contract gives them) contain its key.
pub proof fn law_inserted_word_is_found(before: Set<Seq<int>>, w: Seq<char>)
    requires
        all_letters(w),
    ensures
        (if leading_letters(w) == w.len() {
            before.insert(key(w))
        } else {
            before
        }).contains(key(w)),
{
    assert(w.subrange(0, w.len() as int) =~= w);
    lemma_leading_letters(w, w.len() as int);
}

/// The beginnings of `w` up to its first non-letter, as keys.
pub open spec fn leading_keys(w: Seq<char>) -> Set<Seq<int>> {
    Set::new(|p: Seq<int>| exists|i: int| 0 <= i <= leading_letters(w) && p == key(#[trigger] w.subrange(0, i)))
}

/// `t` is `s` after inserting `w`: it gains the beginnings of `w` up to its
/// first non-letter as prefixes, and `w` itself as a word when `w` is made
/// of letters alone.
pub open spec fn inserted(s: Trie, t: Trie, w: Seq<char>) -> bool {
    &&& t.prefixes() == s.prefixes() + leading_keys(w)
    &&& t.words() == if leading_letters(w) == w.len() {
        s.words().insert(key(w))
    } else {
        s.words()
    }
}

/// A word starts with letters up to its count of leading letters.
proof fn lemma_leading_are_letters(w: Seq<char>)
    ensures
        leading_letters(w) <= w.len(),
        all_letters(w.subrange(0, leading_letters(w) as int)),
    decreases w.len(),
{
    if w.len() > 0 && is_ascii_letter(w[0]) {
        let t = w.drop_first();
        lemma_leading_are_letters(t);
        let n = leading_letters(t) as int;
        assert forall|j: int| 0 <= j < n + 1 implies is_ascii_letter(#[trigger] w.subrange(0, n + 1)[j]) by {
            if j > 0 {
                assert(w.subrange(0, n + 1)[j] == t.subrange(0, n)[j - 1]);
            }
        }
    }
}

/// A word is made of letters alone exactly when all of it is leading
/// letters.
pub proof fn lemma_all_letters_leading(w: Seq<char>)
    ensures
        all_letters(w) <==> leading_letters(w) == w.len(),
{
    lemma_leading_are_letters(w);
    if all_letters(w) {
        assert(w.subrange(0, w.len() as int) =~= w);
        lemma_leading_letters(w, w.len() as int);
    }
    if leading_letters(w) == w.len() {
        assert(w.subrange(0, w.len() as int) =~= w);
    }
}

/// Inserting a word of letters alone stores it, with every beginning of it
/// as a prefix, and stores nothing else: every other key is a word after
/// exactly when it was before. Inserting anything else stores no word.
pub proof fn law_insert_stores_only_the_word(s: Trie, t: Trie, w: Seq<char>, x: Seq<int>)
    requires
        inserted(s, t, w),
    ensures
        all_letters(w) ==> t.words().contains(key(w)),
        all_letters(w) ==> forall|i: int| 0 <= i <= w.len() ==> t.prefixes().contains(key(#[trigger] w.subrange(0, i))),
        x != key(w) ==> (t.words().contains(x) == s.words().contains(x)),
        !all_letters(w) ==> t.words() == s.words(),
        forall|p: Seq<int>| s.prefixes().contains(p) ==> #[trigger] t.prefixes().contains(p),
{
    lemma_all_letters_leading(w);
    if all_letters(w) {
        assert forall|i: int| 0 <= i <= w.len() implies t.prefixes().contains(key(#[trigger] w.subrange(0, i))) by {
            assert(leading_keys(w).contains(key(w.subrange(0, i))));
        }
    }
}

/// The prefixes a list of words gives: the empty one, and the beginnings of
/// each word up to its first non-letter.
pub open spec fn list_prefixes(ws: Seq<Seq<char>>) -> Set<Seq<int>> {
    Set::new(
        |p: Seq<int>|
            p == Seq::<int>::empty() || exists|j: int, i: int|
                0 <= j < ws.len() && 0 <= i <= leading_letters(ws[j]) && p == key(#[trigger] ws[j].subrange(0, i)),
    )
}

/// The words a list of words gives: those made of letters alone.
pub open spec fn list_words(ws: Seq<Seq<char>>) -> Set<Seq<int>> {
    Set::new(|k: Seq<int>| exists|j: int| 0 <= j < ws.len() && all_letters(ws[j]) && k == key(#[trigger] ws[j]))
}

/// A trie made by inserting a list of words, one after another, into a new
/// trie holds as prefixes exactly the empty one and the beginnings of the
/// words up to their first non-letter, and as words exactly the words made
/// of letters alone. `ts` are the tries along the way.
pub proof fn law_trie_of_words(ts: Seq<Trie>, ws: Seq<Seq<char>>)
    requires
        ts.len() == ws.len() + 1,
        ts[0].prefixes() == set![Seq::<int>::empty()],
        ts[0].words() == Set::<Seq<int>>::empty(),
        forall|i: int| 0 <= i < ws.len() ==> inserted(#[trigger] ts[i], ts[i + 1], ws[i]),
    ensures
        ts.last().prefixes() == list_prefixes(ws),
        ts.last().words() == list_words(ws),
    decreases ws.len(),
{
    if ws.len() == 0 {
        assert(ts.last().prefixes() =~= list_prefixes(ws));
        assert(ts.last().words() =~= list_words(ws));
    } else {
        let n = ws.len() - 1;
        let ts0 = ts.drop_last();
        let ws0 = ws.drop_last();
        assert forall|i: int| 0 <= i < ws0.len() implies inserted(#[trigger] ts0[i], ts0[i + 1], ws0[i]) by {
            assert(inserted(ts[i], ts[i + 1], ws[i]));
        }
        law_trie_of_words(ts0, ws0);
        let w = ws[n];
        assert(inserted(ts[n], ts[n + 1], w));
        assert(ts0.last() == ts[n]);
        lemma_all_letters_leading(w);
        assert forall|p: Seq<int>| #[trigger] list_prefixes(ws).contains(p) <==> list_prefixes(ws0).contains(p)
            || leading_keys(w).contains(p) by {
            if list_prefixes(ws).contains(p) && p != Seq::<int>::empty() {
                let (j, i) = choose|j: int, i: int|
                    0 <= j < ws.len() && 0 <= i <= leading_letters(ws[j]) && p == key(#[trigger] ws[j].subrange(0, i));
                if j < n {
                    assert(ws0[j] == ws[j]);
                    assert(list_prefixes(ws0).contains(p));
                } else {
                    assert(leading_keys(w).contains(p));
                }
            }
            if list_prefixes(ws0).contains(p) && p != Seq::<int>::empty() {
                let (j, i) = choose|j: int, i: int|
                    0 <= j < ws0.len() && 0 <= i <= leading_letters(ws0[j]) && p == key(#[trigger] ws0[j].subrange(0, i));
                assert(ws[j] == ws0[j]);
            }
            if leading_keys(w).contains(p) {
                let i = choose|i: int| 0 <= i <= leading_letters(w) && p == key(#[trigger] w.subrange(0, i));
                assert(ws[n].subrange(0, i) == w.subrange(0, i));
            }
        }
        assert(ts.last().prefixes() =~= list_prefixes(ws));
        assert forall|k: Seq<int>| #[trigger] list_words(ws).contains(k) <==> list_words(ws0).contains(k) || (
        all_letters(w) && k == key(w)) by {
            if list_words(ws).contains(k) {
                let j = choose|j: int| 0 <= j < ws.len() && all_letters(ws[j]) && k == key(#[trigger] ws[j]);
                if j < n {
                    assert(ws0[j] == ws[j]);
                    assert(list_words(ws0).contains(k));
                }
            }
            if list_words(ws0).contains(k) {
                let j = choose|j: int| 0 <= j < ws0.len() && all_letters(ws0[j]) && k == key(#[trigger] ws0[j]);
                assert(ws[j] == ws0[j]);
            }
            if all_letters(w) && k == key(w) {
                assert(ws[n] == w);
            }
        }
        assert(ts.last().words() =~= list_words(ws));
    }
}

/// Two words of letters have the same key exactly when they are the same
/// in ASCII upper case.
pub proof fn lemma_key_is_upper_case(a: Seq<char>, b: Seq<char>)
    requires
        all_letters(a),
        all_letters(b),
    ensures
        (key(a) == key(b)) == (ascii_upper_text(a) == ascii_upper_text(b)),
{
    assert forall|i: int| 0 <= i < a.len() implies (spec_ascii_upper(#[trigger] a[i]) as int) == letter_index(a[i]) + 65 by {
        assert(is_ascii_letter(a[i]));
    }
    assert forall|i: int| 0 <= i < b.len() implies (spec_ascii_upper(#[trigger] b[i]) as int) == letter_index(b[i]) + 65 by {
        assert(is_ascii_letter(b[i]));
    }
    assert(key(a).len() == a.len() && key(b).len() == b.len());
    assert(ascii_upper_text(a).len() == a.len() && ascii_upper_text(b).len() == b.len());
    if key(a) == key(b) {
        assert forall|i: int| 0 <= i < a.len() implies #[trigger] ascii_upper_text(a)[i] == ascii_upper_text(b)[i] by {
            assert(key(a)[i] == key(b)[i]);
            assert(key(a)[i] == letter_index(a[i]));
            assert(key(b)[i] == letter_index(b[i]));
            assert(ascii_upper_text(a)[i] == spec_ascii_upper(a[i]));
            assert(ascii_upper_text(b)[i] == spec_ascii_upper(b[i]));
            assert((spec_ascii_upper(a[i]) as int) == (spec_ascii_upper(b[i]) as int));
        }
        assert(ascii_upper_text(a) =~= ascii_upper_text(b));
    }
    if ascii_upper_text(a) == ascii_upper_text(b) {
        assert forall|i: int| 0 <= i < a.len() implies #[trigger] key(a)[i] == key(b)[i] by {
            assert(ascii_upper_text(a)[i] == ascii_upper_text(b)[i]);
            assert(ascii_upper_text(a)[i] == spec_ascii_upper(a[i]));
            assert(ascii_upper_text(b)[i] == spec_ascii_upper(b[i]));
            assert(key(a)[i] == letter_index(a[i]));
            assert(key(b)[i] == letter_index(b[i]));
        }
        assert(key(a) =~= key(b));
    }
}

/// What a trie made from a list of words answers to a prefix query: the
/// empty prefix counts; any other counts exactly when it is made of letters
/// and, in ASCII upper case, begins one of the words before that word's
/// first non-letter. `ts` are the tries along the way.
pub proof fn law_trie_prefix_query(ts: Seq<Trie>, ws: Seq<Seq<char>>, s: Seq<char>)
    requires
        ts.len() == ws.len() + 1,
        ts[0].prefixes() == set![Seq::<int>::empty()],
        ts[0].words() == Set::<Seq<int>>::empty(),
        forall|i: int| 0 <= i < ws.len() ==> inserted(#[trigger] ts[i], ts[i + 1], ws[i]),
    ensures
        (all_letters(s) && ts.last().prefixes().contains(key(s))) == (s.len() == 0 || (all_letters(s) && exists|j: int|
            0 <= j < ws.len() && s.len() <= leading_letters(ws[j]) && #[trigger] ascii_upper_text(
                ws[j].take(s.len() as int),
            ) == ascii_upper_text(s))),
{
    law_trie_of_words(ts, ws);
    let n = s.len() as int;
    if s.len() == 0 {
        assert(key(s) =~= Seq::<int>::empty());
        assert(list_prefixes(ws).contains(key(s)));
    } else if all_letters(s) {
        if ts.last().prefixes().contains(key(s)) {
            assert(key(s) != Seq::<int>::empty()) by {
                assert(key(s).len() == n);
            }
            let (j, i) = choose|j: int, i: int|
                0 <= j < ws.len() && 0 <= i <= leading_letters(ws[j]) && key(s) == key(#[trigger] ws[j].subrange(0, i));
            lemma_leading_are_letters(ws[j]);
            assert(key(ws[j].subrange(0, i)).len() == i);
            assert(i == n);
            let pre = ws[j].subrange(0, i);
            assert(all_letters(pre)) by {
                assert forall|k: int| 0 <= k < pre.len() implies is_ascii_letter(#[trigger] pre[k]) by {
                    assert(pre[k] == ws[j].subrange(0, leading_letters(ws[j]) as int)[k]);
                }
            }
            assert(ws[j].take(n) =~= pre);
            lemma_key_is_upper_case(pre, s);
        }
        if exists|j: int|
            0 <= j < ws.len() && s.len() <= leading_letters(ws[j]) && #[trigger] ascii_upper_text(ws[j].take(n))
                == ascii_upper_text(s) {
            let j = choose|j: int|
                0 <= j < ws.len() && s.len() <= leading_letters(ws[j]) && #[trigger] ascii_upper_text(ws[j].take(n))
                    == ascii_upper_text(s);
            lemma_leading_are_letters(ws[j]);
            let pre = ws[j].subrange(0, n);
            assert(all_letters(pre)) by {
                assert forall|k: int| 0 <= k < pre.len() implies is_ascii_letter(#[trigger] pre[k]) by {
                    assert(pre[k] == ws[j].subrange(0, leading_letters(ws[j]) as int)[k]);
                }
            }
            assert(ws[j].take(n) =~= pre);
            lemma_key_is_upper_case(pre, s);
            assert(list_prefixes(ws).contains(key(s)));
        }
    }
}

} // verus!
