//! Character and string helpers shared by the game logic.

use vstd::prelude::*;

verus! {

/// `String::push`: appends one character.
#[verifier::external_body]
pub(crate) fn push_char(s: &mut String, c: char)
    ensures
        final(s)@ == old(s)@.push(c),
{
    s.push(c)
}

/// The ASCII upper-case form of a character; other characters stay as they are.
pub open spec fn spec_ascii_upper(c: char) -> char {
    if 'a' <= c <= 'z' {
        ((c as int) - 32) as char
    } else {
        c
    }
}

/// `char::to_ascii_uppercase`.
pub fn ascii_upper(c: char) -> (r: char)
    ensures
        r == spec_ascii_upper(c),
{
    if 'a' <= c && c <= 'z' {
        let b: u8 = (c as u8) - 32;
        b as char
    } else {
        c
    }
}

} // verus!

verus! {

/// The characters of a string, in order.
pub fn chars_of(s: &str) -> (v: Vec<char>)
    ensures
        v@ == s@,
{
    let mut v: Vec<char> = Vec::new();
    for c in iter: s.chars()
        invariant
            v@ == iter.seq().take(iter.index() as int),
    {
        v.push(c);
    }
    v
}

} // verus!

verus! {

/// What `str::to_uppercase` returns for a string that is not all ASCII.
pub uninterp spec fn unicode_uppercase(s: Seq<char>) -> Seq<char>;

/// Whether every character of the string is ASCII.
pub open spec fn is_ascii_text(s: Seq<char>) -> bool {
    forall|i: int| 0 <= i < s.len() ==> (#[trigger] s[i] as int) < 128
}

/// The ASCII lower-case form of a character; other characters stay as they are.
pub open spec fn spec_ascii_lower(c: char) -> char {
    if 'A' <= c <= 'Z' {
        ((c as int) + 32) as char
    } else {
        c
    }
}

/// The string with each ASCII letter in upper case.
pub open spec fn ascii_upper_text(s: Seq<char>) -> Seq<char> {
    s.map_values(|c: char| spec_ascii_upper(c))
}

/// The string with each ASCII letter in lower case.
pub open spec fn ascii_lower_text(s: Seq<char>) -> Seq<char> {
    s.map_values(|c: char| spec_ascii_lower(c))
}

/// The upper-case form of a string: of an ASCII string, its ASCII letters
/// in upper case; of any other, what Unicode's case mapping gives.
pub open spec fn spec_to_uppercase(s: Seq<char>) -> Seq<char> {
    if is_ascii_text(s) {
        ascii_upper_text(s)
    } else {
        unicode_uppercase(s)
    }
}

/// Unicode white space (the `White_Space` property): the ASCII controls
/// from tab to carriage return, the space, next line, no-break space, ogham
/// space mark, the spaces from en quad to hair space, the line and paragraph
/// separators, narrow no-break space, medium mathematical space and the
/// ideographic space.
pub open spec fn is_white_space(c: char) -> bool {
    let u = c as int;
    ||| 0x09 <= u <= 0x0d
    ||| u == 0x20 || u == 0x85 || u == 0xa0 || u == 0x1680
    ||| 0x2000 <= u <= 0x200a
    ||| u == 0x2028 || u == 0x2029 || u == 0x202f || u == 0x205f || u == 0x3000
}

/// How many white-space characters the string starts with.
pub open spec fn leading_white(s: Seq<char>) -> nat
    decreases s.len(),
{
    if s.len() > 0 && is_white_space(s[0]) {
        1 + leading_white(s.drop_first())
    } else {
        0
    }
}

/// How many white-space characters the string ends with.
pub open spec fn trailing_white(s: Seq<char>) -> nat
    decreases s.len(),
{
    if s.len() > 0 && is_white_space(s.last()) {
        1 + trailing_white(s.drop_last())
    } else {
        0
    }
}

/// The string without its leading and trailing white space.
pub open spec fn spec_trim(s: Seq<char>) -> Seq<char> {
    let t = s.skip(leading_white(s) as int);
    t.take(t.len() - trailing_white(t))
}

/// The string cut after each line feed, each piece keeping its line feed;
/// there is no empty last piece.
pub open spec fn line_pieces(s: Seq<char>) -> Seq<Seq<char>>
    decreases s.len(),
{
    if s.len() == 0 {
        Seq::empty()
    } else {
        let rest = line_pieces(s.drop_first());
        if s[0] == '\n' {
            seq![seq!['\n']] + rest
        } else if rest.len() == 0 {
            seq![seq![s[0]]]
        } else {
            rest.update(0, seq![s[0]] + rest[0])
        }
    }
}

/// A piece without its line ending: a line feed, or a carriage return and
/// a line feed.
pub open spec fn without_line_ending(p: Seq<char>) -> Seq<char> {
    if p.len() > 0 && p.last() == '\n' {
        let q = p.drop_last();
        if q.len() > 0 && q.last() == '\r' {
            q.drop_last()
        } else {
            q
        }
    } else {
        p
    }
}

/// The lines of a string, without their line endings; a final line ending
/// starts no further line.
pub open spec fn spec_lines(s: Seq<char>) -> Seq<Seq<char>> {
    line_pieces(s).map_values(|p: Seq<char>| without_line_ending(p))
}

/// `str::to_uppercase`: the Unicode upper-case form of the string. The
/// contract states it for an ASCII string, whose Unicode mapping is the
/// ASCII one (`a` to `z` become `A` to `Z`, all else stays); for any other
/// string it names the result and claims only that no letter `a` to `z` is
/// left.
#[verifier::external_body]
pub(crate) fn to_uppercase(s: &str) -> (r: String)
    ensures
        is_ascii_text(s@) ==> r@ == ascii_upper_text(s@),
        !is_ascii_text(s@) ==> r@ == unicode_uppercase(s@),
        r@ == spec_to_uppercase(s@),
        forall|i: int| 0 <= i < r@.len() ==> !('a' <= #[trigger] r@[i] <= 'z'),
{
    s.to_uppercase()
}

/// `str::trim`: the string without leading and trailing white space, as
/// the `White_Space` property of Unicode defines it.
#[verifier::external_body]
pub(crate) fn trim(s: &str) -> (r: &str)
    ensures
        r@ == spec_trim(s@),
{
    s.trim()
}

/// `str::lines`: the lines of the string, split at each line feed, without
/// their line endings (a line feed, or a carriage return before one); a
/// final line ending starts no further line.
#[verifier::external_body]
pub(crate) fn lines(s: &str) -> (r: Vec<&str>)
    ensures
        r@.len() == spec_lines(s@).len(),
        forall|i: int| 0 <= i < r@.len() ==> #[trigger] r@[i]@ == spec_lines(s@)[i],
{
    s.lines().collect()
}

} // verus!

verus! {

/// The decimal digit for `d` in `0 .. 10`.
pub open spec fn digit_char(d: int) -> char {
    (d + 48) as char
}

/// The decimal digits of a natural number, most significant first.
pub open spec fn digits(n: nat) -> Seq<char>
    decreases n,
{
    if n < 10 {
        seq![digit_char(n as int)]
    } else {
        digits(n / 10).push(digit_char((n % 10) as int))
    }
}

/// An integer written in decimal, with a leading `-` when negative.
pub open spec fn decimal(n: int) -> Seq<char> {
    if n < 0 {
        seq!['-'].add(digits((-n) as nat))
    } else {
        digits(n as nat)
    }
}

/// The decimal digit of `d`, for `d` below ten.
fn digit_of(d: u64) -> (c: char)
    requires
        d < 10,
    ensures
        c == digit_char(d as int),
{
    let b: u8 = (d as u8) + 48;
    b as char
}

/// A signed integer in decimal, with a leading `-` when negative.
pub(crate) fn int_to_string(n: i64) -> (r: String)
    ensures
        r@ == decimal(n as int),
{
    if n < 0 {
        let magnitude: u64 = ((-(n + 1)) as u64) + 1;
        let digits_text = uint_to_string(magnitude);
        proof {
            reveal_strlit("-");
            assert("-"@ =~= seq!['-']);
        }
        join("-", digits_text.as_str())
    } else {
        uint_to_string(n as u64)
    }
}

/// An unsigned integer in decimal.
pub(crate) fn uint_to_string(n: u64) -> (r: String)
    ensures
        r@ == decimal(n as int),
{
    let mut low: Vec<char> = Vec::new();
    let mut m: u64 = n;
    while m >= 10
        invariant
            digits(n as nat) == digits(m as nat) + low@.reverse(),
        decreases m,
    {
        let c = digit_of(m % 10);
        proof {
            assert(low@.push(c).reverse() =~= seq![c] + low@.reverse());
            assert(digits((m / 10) as nat) + (seq![c] + low@.reverse()) =~= digits((m / 10) as nat).push(c)
                + low@.reverse());
        }
        low.push(c);
        m = m / 10;
    }
    let mut r = String::new();
    push_char(&mut r, digit_of(m));
    proof {
        reveal_strlit("");
    }
    let mut i: usize = low.len();
    while i > 0
        invariant
            i <= low@.len(),
            digits(n as nat) == digits(m as nat) + low@.reverse(),
            m < 10,
            r@ == digits(m as nat) + low@.subrange(i as int, low@.len() as int).reverse(),
        decreases i,
    {
        i = i - 1;
        proof {
            assert(low@.subrange(i as int, low@.len() as int).reverse() =~= low@.subrange(
                i + 1,
                low@.len() as int,
            ).reverse().push(low@[i as int]));
        }
        push_char(&mut r, low[i]);
    }
    proof {
        assert(low@.subrange(0, low@.len() as int) =~= low@);
    }
    r
}

/// The string with `tail` appended.
pub(crate) fn join(head: &str, tail: &str) -> (r: String)
    ensures
        r@ == head@ + tail@,
{
    let mut r = String::from_str(head);
    r.append(tail);
    r
}

/// `a`, then `b`, then `c`, as one string.
pub(crate) fn join3(a: &str, b: &str, c: &str) -> (r: String)
    ensures
        r@ == a@ + b@ + c@,
{
    let mut r = String::from_str(a);
    r.append(b);
    r.append(c);
    r
}

} // verus!

verus! {

/// Whether two strings hold the same characters.
pub fn str_eq(a: &str, b: &str) -> (r: bool)
    ensures
        r == (a@ == b@),
{
    let x = chars_of(a);
    let y = chars_of(b);
    if x.len() != y.len() {
        return false;
    }
    let mut i: usize = 0;
    while i < x.len()
        invariant
            x@ == a@,
            y@ == b@,
            x@.len() == y@.len(),
            i <= x@.len(),
            forall|j: int| 0 <= j < i ==> x@[j] == y@[j],
        decreases x@.len() - i,
    {
        if x[i] != y[i] {
            return false;
        }
        i = i + 1;
    }
    assert(a@ =~= b@);
    true
}

/// What `str::to_lowercase` returns for a string that is not all ASCII.
pub uninterp spec fn unicode_lowercase(s: Seq<char>) -> Seq<char>;

/// The lower-case form of a string: of an ASCII string, its ASCII letters
/// in lower case; of any other, what Unicode's case mapping gives.
pub open spec fn spec_to_lowercase(s: Seq<char>) -> Seq<char> {
    if is_ascii_text(s) {
        ascii_lower_text(s)
    } else {
        unicode_lowercase(s)
    }
}

/// `str::to_lowercase`: the Unicode lower-case form of the string. The
/// contract states it for an ASCII string, whose Unicode mapping is the
/// ASCII one (`A` to `Z` become `a` to `z`, all else stays); for any other
/// string it names the result.
#[verifier::external_body]
pub(crate) fn to_lowercase(s: &str) -> (r: String)
    ensures
        is_ascii_text(s@) ==> r@ == ascii_lower_text(s@),
        !is_ascii_text(s@) ==> r@ == unicode_lowercase(s@),
        r@ == spec_to_lowercase(s@),
{
    s.to_lowercase()
}

} // verus!

verus! {

/// `n` occurs in `h` as a run of consecutive characters.
pub open spec fn contains_text(h: Seq<char>, n: Seq<char>) -> bool {
    exists|j: int| 0 <= j && j + n.len() <= h.len() && #[trigger] h.subrange(j, j + n.len()) == n
}

/// `str::contains` for a string pattern: whether `n` occurs in `h`.
pub fn text_contains(h: &str, n: &str) -> (r: bool)
    ensures
        r == contains_text(h@, n@),
{
    let hv = chars_of(h);
    let nv = chars_of(n);
    if nv.len() > hv.len() {
        return false;
    }
    let hl = hv.len();
    let last = hl - nv.len();
    let mut j: usize = 0;
    while j <= last
        invariant
            hv@ == h@,
            nv@ == n@,
            last == hv@.len() - nv@.len(),
            nv@.len() <= hv@.len(),
            hl == hv@.len(),
            j <= last + 1,
            forall|jj: int| 0 <= jj < j ==> #[trigger] hv@.subrange(jj, jj + nv@.len()) != nv@,
        decreases last + 1 - j,
    {
        let mut k: usize = 0;
        let mut same = true;
        while k < nv.len()
            invariant
                hv@ == h@,
                nv@ == n@,
                j <= last,
                last == hv@.len() - nv@.len(),
                nv@.len() <= hv@.len(),
                hl == hv@.len(),
                k <= nv@.len(),
                same == forall|kk: int| 0 <= kk < k ==> hv@[j + kk] == nv@[kk],
            decreases nv@.len() - k,
        {
            if hv[j + k] != nv[k] {
                same = false;
            }
            k = k + 1;
        }
        if same {
            proof {
                assert(hv@.subrange(j as int, j + nv@.len()) =~= nv@);
            }
            return true;
        }
        proof {
            let kk = choose|kk: int| 0 <= kk < nv@.len() && hv@[j + kk] != nv@[kk];
            assert(hv@.subrange(j as int, j + nv@.len())[kk] != nv@[kk]);
        }
        if j == last {
            proof {
                assert forall|jj: int| 0 <= jj && jj + n@.len() <= h@.len() implies #[trigger] h@.subrange(
                    jj,
                    jj + n@.len(),
                ) != n@ by {
                    assert(jj <= j);
                }
            }
            return false;
        }
        j = j + 1;
    }
    proof {
        assert forall|jj: int| 0 <= jj && jj + n@.len() <= h@.len() implies #[trigger] h@.subrange(jj, jj + n@.len())
            != n@ by {
            assert(jj < j);
        }
    }
    false
}

/// For an ASCII string, case does not matter: its lower-case and its
/// upper-case forms have the same upper-case form as it has, and every form
/// stays ASCII.
pub proof fn law_ascii_case_is_blind(w: Seq<char>)
    requires
        is_ascii_text(w),
    ensures
        is_ascii_text(spec_to_lowercase(w)),
        is_ascii_text(spec_to_uppercase(w)),
        spec_to_uppercase(spec_to_lowercase(w)) == spec_to_uppercase(w),
        spec_to_uppercase(spec_to_uppercase(w)) == spec_to_uppercase(w),
        spec_to_lowercase(w).len() == w.len(),
        spec_to_uppercase(w).len() == w.len(),
{
    let lo = ascii_lower_text(w);
    let up = ascii_upper_text(w);
    assert forall|i: int| 0 <= i < w.len() implies (#[trigger] lo[i] as int) < 128 && (up[i] as int) < 128
        && spec_ascii_upper(lo[i]) == up[i] && spec_ascii_upper(up[i]) == up[i] by {
        let c = w[i];
        assert(lo[i] == spec_ascii_lower(c));
        assert(up[i] == spec_ascii_upper(c));
    }
    assert(ascii_upper_text(lo) =~= up);
    assert(ascii_upper_text(up) =~= up);
}

} // verus!
