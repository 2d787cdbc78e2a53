//! Text helpers for reading the output of adb: characters, whitespace,
//! trimming, splitting into lines and words, ASCII case.
//!
//! Whitespace is Unicode's `White_Space` property, the set that Rust's
//! `char::is_whitespace` (and so `str::trim` and `str::split_whitespace`) uses.

use vstd::prelude::*;

verus! {

/// Unicode `White_Space`: U+0009 to U+000D, U+0020, U+0085, U+00A0, U+1680,
/// U+2000 to U+200A, U+2028, U+2029, U+202F, U+205F, U+3000.
pub open spec fn is_ws(c: char) -> bool {
    let u = c as u32;
    (0x9 <= u <= 0xD) || u == 0x20 || u == 0x85 || u == 0xA0 || u == 0x1680 || (0x2000 <= u
        <= 0x200A) || u == 0x2028 || u == 0x2029 || u == 0x202F || u == 0x205F || u == 0x3000
}

/// `s` without its leading whitespace.
pub open spec fn trim_start(s: Seq<char>) -> Seq<char>
    decreases s.len(),
{
    if s.len() > 0 && is_ws(s[0]) {
        trim_start(s.drop_first())
    } else {
        s
    }
}

/// `s` without its trailing whitespace.
pub open spec fn trim_end(s: Seq<char>) -> Seq<char>
    decreases s.len(),
{
    if s.len() > 0 && is_ws(s.last()) {
        trim_end(s.drop_last())
    } else {
        s
    }
}

/// `s` without leading and trailing whitespace.
pub open spec fn trim(s: Seq<char>) -> Seq<char> {
    trim_end(trim_start(s))
}

/// Splitting `s` at every `sep`, left to right: the pieces closed so far and
/// the piece still open.
pub open spec fn split_state(s: Seq<char>, sep: char) -> (Seq<Seq<char>>, Seq<char>)
    decreases s.len(),
{
    if s.len() == 0 {
        (seq![], seq![])
    } else {
        let st = split_state(s.drop_last(), sep);
        if s.last() == sep {
            (st.0.push(st.1), seq![])
        } else {
            (st.0, st.1.push(s.last()))
        }
    }
}

/// The pieces of `s` between occurrences of `sep` (one more than there are
/// separators; some may be empty).
pub open spec fn split_at_char(s: Seq<char>, sep: char) -> Seq<Seq<char>> {
    let st = split_state(s, sep);
    st.0.push(st.1)
}

/// Splitting `s` into words, left to right: the words closed so far and the
/// word still open.
pub open spec fn word_state(s: Seq<char>) -> (Seq<Seq<char>>, Seq<char>)
    decreases s.len(),
{
    if s.len() == 0 {
        (seq![], seq![])
    } else {
        let st = word_state(s.drop_last());
        if is_ws(s.last()) {
            if st.1.len() > 0 {
                (st.0.push(st.1), seq![])
            } else {
                (st.0, seq![])
            }
        } else {
            (st.0, st.1.push(s.last()))
        }
    }
}

/// The maximal runs of non-whitespace characters of `s`, in order.
pub open spec fn words(s: Seq<char>) -> Seq<Seq<char>> {
    let st = word_state(s);
    if st.1.len() > 0 {
        st.0.push(st.1)
    } else {
        st.0
    }
}

/// ASCII lower case of a character; other characters are unchanged.
pub open spec fn ascii_lower(c: char) -> char {
    if 'A' <= c <= 'Z' {
        ((c as u32) + 32) as char
    } else {
        c
    }
}

/// ASCII lower case of every character of `s`.
pub open spec fn ascii_lower_seq(s: Seq<char>) -> Seq<char> {
    Seq::new(s.len(), |i: int| ascii_lower(s[i]))
}

/// `s` begins with `p`.
pub open spec fn starts_with(s: Seq<char>, p: Seq<char>) -> bool {
    p.len() <= s.len() && s.take(p.len() as int) == p
}

/// The characters of `s`, in order.
pub fn chars_of(s: &str) -> (v: Vec<char>)
    ensures
        v@ == s@,
{
    let mut v: Vec<char> = Vec::new();
    for c in it: s.chars()
        invariant
            it.seq() == s@,
            v@ == it.seq().take(it.index() as int),
    {
        v.push(c);
    }
    v
}

/// `String::push`: appends one character.
#[verifier::external_body]
pub(crate) fn string_push(s: &mut String, c: char)
    ensures
        final(s)@ == old(s)@.push(c),
{
    s.push(c);
}

/// `String::push_str`: appends a string slice.
#[verifier::external_body]
pub(crate) fn string_push_str(s: &mut String, t: &str)
    ensures
        final(s)@ == old(s)@ + t@,
{
    s.push_str(t);
}

/// The string made of the characters of `v`.
pub fn string_of(v: &[char]) -> (s: String)
    ensures
        s@ == v@,
{
    let mut s = String::new();
    let mut i: usize = 0;
    while i < v.len()
        invariant
            i <= v@.len(),
            s@ == v@.take(i as int),
        decreases v@.len() - i,
    {
        string_push(&mut s, v[i]);
        i = i + 1;
        assert(s@ =~= v@.take(i as int));
    }
    assert(v@.take(v@.len() as int) =~= v@);
    s
}

/// Whether `c` is whitespace (see [`is_ws`]).
pub fn is_whitespace(c: char) -> (r: bool)
    ensures
        r == is_ws(c),
{
    let u = c as u32;
    (0x9 <= u && u <= 0xD) || u == 0x20 || u == 0x85 || u == 0xA0 || u == 0x1680 || (0x2000 <= u
        && u <= 0x200A) || u == 0x2028 || u == 0x2029 || u == 0x202F || u == 0x205F || u == 0x3000
}

proof fn lemma_trim_start_skip(s: Seq<char>, i: int)
    requires
        0 <= i < s.len(),
        is_ws(s[i]),
    ensures
        trim_start(s.skip(i)) == trim_start(s.skip(i + 1)),
{
    assert(s.skip(i).drop_first() =~= s.skip(i + 1));
}

proof fn lemma_trim_end_take(s: Seq<char>, j: int)
    requires
        0 < j <= s.len(),
        is_ws(s[j - 1]),
    ensures
        trim_end(s.take(j)) == trim_end(s.take(j - 1)),
{
    assert(s.take(j).drop_last() =~= s.take(j - 1));
}

/// `v` without leading and trailing whitespace.
pub fn trim_chars(v: &[char]) -> (r: Vec<char>)
    ensures
        r@ == trim(v@),
{
    let n = v.len();
    let mut i: usize = 0;
    assert(v@.skip(0) =~= v@);
    while i < n && is_whitespace(v[i])
        invariant
            i <= n,
            n == v@.len(),
            trim_start(v@) == trim_start(v@.skip(i as int)),
        decreases n - i,
    {
        proof {
            lemma_trim_start_skip(v@, i as int);
        }
        i = i + 1;
    }
    let ghost t = v@.skip(i as int);
    assert(trim_start(v@) == t);
    let mut j: usize = n;
    assert(t.take(n - i) =~= t);
    while j > i && is_whitespace(v[j - 1])
        invariant
            i <= j <= n,
            n == v@.len(),
            t == v@.skip(i as int),
            trim_end(t) == trim_end(t.take(j - i)),
        decreases j,
    {
        proof {
            assert(t[j - i - 1] == v@[j - 1]);
            lemma_trim_end_take(t, j - i);
        }
        j = j - 1;
    }
    let mut r: Vec<char> = Vec::new();
    let mut k: usize = i;
    while k < j
        invariant
            i <= k <= j <= n,
            n == v@.len(),
            r@ == v@.subrange(i as int, k as int),
        decreases j - k,
    {
        r.push(v[k]);
        k = k + 1;
        assert(r@ =~= v@.subrange(i as int, k as int));
    }
    assert(r@ =~= t.take(j - i));
    r
}

/// The pieces of `v` between occurrences of `sep`.
pub fn split_chars(v: &[char], sep: char) -> (r: Vec<Vec<char>>)
    ensures
        r.deep_view() == split_at_char(v@, sep),
{
    let mut done: Vec<Vec<char>> = Vec::new();
    let mut cur: Vec<char> = Vec::new();
    let mut i: usize = 0;
    while i < v.len()
        invariant
            i <= v@.len(),
            (done.deep_view(), cur@) == split_state(v@.take(i as int), sep),
        decreases v@.len() - i,
    {
        let ghost prev = done.deep_view();
        assert(v@.take(i + 1).drop_last() =~= v@.take(i as int));
        if v[i] == sep {
            let piece = cur;
            let ghost p = piece.deep_view();
            assert(p =~= piece@);
            done.push(piece);
            cur = Vec::new();
            assert(done.deep_view() =~= prev.push(p));
        } else {
            cur.push(v[i]);
        }
        i = i + 1;
    }
    assert(v@.take(v@.len() as int) =~= v@);
    let ghost prev = done.deep_view();
    let ghost p = cur.deep_view();
    assert(p =~= cur@);
    done.push(cur);
    assert(done.deep_view() =~= prev.push(p));
    done
}

/// The words of `v`: its maximal runs of non-whitespace characters.
pub fn split_words(v: &[char]) -> (r: Vec<Vec<char>>)
    ensures
        r.deep_view() == words(v@),
{
    let mut done: Vec<Vec<char>> = Vec::new();
    let mut cur: Vec<char> = Vec::new();
    let mut i: usize = 0;
    while i < v.len()
        invariant
            i <= v@.len(),
            (done.deep_view(), cur@) == word_state(v@.take(i as int)),
        decreases v@.len() - i,
    {
        let ghost prev = done.deep_view();
        assert(v@.take(i + 1).drop_last() =~= v@.take(i as int));
        if is_whitespace(v[i]) {
            if cur.len() > 0 {
                let piece = cur;
                let ghost p = piece.deep_view();
                assert(p =~= piece@);
                done.push(piece);
                assert(done.deep_view() =~= prev.push(p));
            }
            cur = Vec::new();
        } else {
            cur.push(v[i]);
        }
        i = i + 1;
    }
    assert(v@.take(v@.len() as int) =~= v@);
    if cur.len() > 0 {
        let ghost prev = done.deep_view();
        let ghost p = cur.deep_view();
        assert(p =~= cur@);
        done.push(cur);
        assert(done.deep_view() =~= prev.push(p));
    }
    done
}

/// ASCII lower case of `c`.
pub fn to_ascii_lower(c: char) -> (r: char)
    ensures
        r == ascii_lower(c),
{
    if 'A' <= c && c <= 'Z' {
        ((c as u8) + 32) as char
    } else {
        c
    }
}

/// Whether `s` begins with the characters of `p` once `s` is put in ASCII
/// lower case.
pub fn starts_with_lower(s: &[char], p: &[char]) -> (r: bool)
    ensures
        r == starts_with(ascii_lower_seq(s@), p@),
{
    if p.len() > s.len() {
        return false;
    }
    let mut i: usize = 0;
    while i < p.len()
        invariant
            i <= p@.len() <= s@.len(),
            forall|k: int| 0 <= k < i ==> ascii_lower(s@[k]) == p@[k],
        decreases p@.len() - i,
    {
        if to_ascii_lower(s[i]) != p[i] {
            assert(ascii_lower_seq(s@).take(p@.len() as int)[i as int] != p@[i as int]);
            return false;
        }
        i = i + 1;
    }
    assert(ascii_lower_seq(s@).take(p@.len() as int) =~= p@);
    true
}

/// Whether `s` begins with `p`.
pub fn starts_with_chars(s: &[char], p: &[char]) -> (r: bool)
    ensures
        r == starts_with(s@, p@),
{
    if p.len() > s.len() {
        return false;
    }
    let mut i: usize = 0;
    while i < p.len()
        invariant
            i <= p@.len() <= s@.len(),
            forall|k: int| 0 <= k < i ==> s@[k] == p@[k],
        decreases p@.len() - i,
    {
        if s[i] != p[i] {
            assert(s@.take(p@.len() as int)[i as int] != p@[i as int]);
            return false;
        }
        i = i + 1;
    }
    assert(s@.take(p@.len() as int) =~= p@);
    true
}

/// Whether `a` and `b` hold the same characters.
pub fn eq_chars(a: &[char], b: &[char]) -> (r: bool)
    ensures
        r == (a@ == b@),
{
    if a.len() != b.len() {
        return false;
    }
    let r = starts_with_chars(a, b);
    assert(a@.take(b@.len() as int) =~= a@);
    r
}

/// Splitting `a`, a separator, then `b`, continues the split of `a` with
/// the split of `b`.
proof fn lemma_split_state_after_sep(a: Seq<char>, b: Seq<char>, sep: char)
    ensures
        split_state(a + seq![sep] + b, sep) == (
        split_at_char(a, sep) + split_state(b, sep).0,
        split_state(b, sep).1,
        ),
    decreases b.len(),
{
    if b.len() == 0 {
        assert(a + seq![sep] + b =~= a.push(sep));
        assert((a + seq![sep] + b).drop_last() =~= a);
    } else {
        let p = b.drop_last();
        lemma_split_state_after_sep(a, p, sep);
        assert((a + seq![sep] + b).drop_last() =~= a + seq![sep] + p);
        let x = split_state(p, sep);
        assert((split_at_char(a, sep) + x.0).push(x.1) =~= split_at_char(a, sep) + x.0.push(x.1));
    }
}

/// A text without the separator is one piece.
proof fn lemma_split_state_plain(b: Seq<char>, sep: char)
    requires
        !b.contains(sep),
    ensures
        split_state(b, sep) == (Seq::<Seq<char>>::empty(), b),
    decreases b.len(),
{
    if b.len() > 0 {
        let p = b.drop_last();
        assert(!p.contains(sep)) by {
            if p.contains(sep) {
                let k = choose|k: int| 0 <= k < p.len() && p[k] == sep;
                assert(b[k] == sep);
            }
        }
        lemma_split_state_plain(p, sep);
        assert(b.last() != sep) by {
            assert(b[b.len() - 1] == b.last());
        }
        assert(p.push(b.last()) =~= b);
    } else {
        assert(b =~= Seq::<char>::empty());
    }
}

/// The lines of `a`, a separator and `b` are the lines of `a` followed by
/// those of `b`.
pub proof fn split_concat(a: Seq<char>, b: Seq<char>, sep: char)
    ensures
        split_at_char(a + seq![sep] + b, sep) == split_at_char(a, sep) + split_at_char(b, sep),
{
    lemma_split_state_after_sep(a, b, sep);
    let x = split_state(b, sep);
    assert((split_at_char(a, sep) + x.0).push(x.1) =~= split_at_char(a, sep) + x.0.push(x.1));
}

/// A text without the separator splits into itself alone.
pub proof fn split_plain(b: Seq<char>, sep: char)
    requires
        !b.contains(sep),
    ensures
        split_at_char(b, sep) == seq![b],
{
    lemma_split_state_plain(b, sep);
    assert(Seq::<Seq<char>>::empty().push(b) =~= seq![b]);
}

} // verus!
