//! Scanning strings by character, and the UTF-8 facts that tie a character
//! position to the byte offset at which that character starts.

use vstd::prelude::*;
use vstd::string::*;
use vstd::utf8::*;

verus! {

/// Number of bytes that the UTF-8 encoding of `s` takes.
pub open spec fn utf8_len(s: Seq<char>) -> nat {
    encode_utf8(s).len()
}

/// `pat` stands in `s` at character position `at`.
pub open spec fn occurs_at(s: Seq<char>, pat: Seq<char>, at: int) -> bool {
    &&& 0 <= at
    &&& at + pat.len() <= s.len()
    &&& s.subrange(at, at + pat.len()) == pat
}

/// `at` is the leftmost position at which `pat` stands in `s`.
pub open spec fn is_first_occurrence(s: Seq<char>, pat: Seq<char>, at: int) -> bool {
    &&& occurs_at(s, pat, at)
    &&& forall|j: int| 0 <= j < at ==> !occurs_at(s, pat, j)
}

/// The leftmost position at which `pat` stands in `s`, if it stands anywhere.
pub open spec fn first_occurrence(s: Seq<char>, pat: Seq<char>) -> Option<int> {
    if exists|at: int| occurs_at(s, pat, at) {
        Some(choose|at: int| is_first_occurrence(s, pat, at))
    } else {
        None
    }
}

/// The character `c` is nowhere in `s`.
pub open spec fn lacks(s: Seq<char>, c: char) -> bool {
    forall|j: int| 0 <= j < s.len() ==> s[j] != c
}

proof fn lemma_some_occurrence_has_a_first(s: Seq<char>, pat: Seq<char>, at: int)
    requires
        occurs_at(s, pat, at),
    ensures
        exists|k: int| is_first_occurrence(s, pat, k),
    decreases at,
{
    if exists|j: int| 0 <= j < at && occurs_at(s, pat, j) {
        let j = choose|j: int| 0 <= j < at && occurs_at(s, pat, j);
        lemma_some_occurrence_has_a_first(s, pat, j);
    } else {
        assert(is_first_occurrence(s, pat, at));
    }
}

/// `first_occurrence` names a leftmost occurrence when there is one and
/// `None` only when there is none.
pub proof fn lemma_first_occurrence(s: Seq<char>, pat: Seq<char>)
    ensures
        match first_occurrence(s, pat) {
            Some(at) => is_first_occurrence(s, pat, at),
            None => forall|k: int| !occurs_at(s, pat, k),
        },
{
    if exists|at: int| occurs_at(s, pat, at) {
        let at = choose|at: int| occurs_at(s, pat, at);
        lemma_some_occurrence_has_a_first(s, pat, at);
    }
}

/// A leftmost occurrence is the one that `first_occurrence` names.
pub proof fn lemma_first_occurrence_at(s: Seq<char>, pat: Seq<char>, at: int)
    requires
        is_first_occurrence(s, pat, at),
    ensures
        first_occurrence(s, pat) == Some(at),
{
    lemma_first_occurrence(s, pat);
}

/// A one-character pattern stands exactly where that character stands.
pub proof fn lemma_occurs_at_single(s: Seq<char>, c: char, at: int)
    ensures
        occurs_at(s, seq![c], at) <==> (0 <= at < s.len() && s[at] == c),
{
    let pat = seq![c];
    if 0 <= at < s.len() {
        if s[at] == c {
            assert(s.subrange(at, at + 1) =~= pat);
        } else {
            assert(s.subrange(at, at + 1)[0] == s[at]);
        }
    }
}

/// The first `c` of `head + [c] + tail` is the one written out, when `head`
/// holds none.
pub proof fn lemma_first_single_after(head: Seq<char>, c: char, tail: Seq<char>)
    requires
        lacks(head, c),
    ensures
        first_occurrence(head + seq![c] + tail, seq![c]) == Some(head.len() as int),
        (head + seq![c] + tail).take(head.len() as int) == head,
        (head + seq![c] + tail).skip(head.len() as int + 1) == tail,
{
    let s = head + seq![c] + tail;
    let at = head.len() as int;
    lemma_occurs_at_single(s, c, at);
    assert forall|j: int| 0 <= j < at implies !occurs_at(s, seq![c], j) by {
        lemma_occurs_at_single(s, c, j);
        assert(s[j] == head[j]);
    }
    lemma_first_occurrence_at(s, seq![c], at);
    assert(s.take(at) =~= head);
    assert(s.skip(at + 1) =~= tail);
}

/// A string without `c` has no occurrence of the pattern `[c]`.
pub proof fn lemma_first_single_absent(s: Seq<char>, c: char)
    requires
        lacks(s, c),
    ensures
        first_occurrence(s, seq![c]) is None,
{
    assert forall|k: int| !occurs_at(s, seq![c], k) by {
        lemma_occurs_at_single(s, c, k);
    }
}

/// `s` cut in two at its first `c`, which belongs to neither part.
pub open spec fn cut(s: Seq<char>, c: char) -> Option<(Seq<char>, Seq<char>)> {
    match first_occurrence(s, seq![c]) {
        Some(at) => Some((s.take(at), s.skip(at + 1))),
        None => None,
    }
}

/// The two parts of a cut, with the character between them, make up the
/// string again, and the first part is free of the character. A string that
/// cannot be cut is free of it.
pub proof fn lemma_cut(s: Seq<char>, c: char)
    ensures
        match cut(s, c) {
            Some((head, tail)) => {
                &&& s == head + seq![c] + tail
                &&& lacks(head, c)
                &&& first_occurrence(s, seq![c]) == Some(head.len() as int)
            },
            None => lacks(s, c),
        },
{
    lemma_first_occurrence(s, seq![c]);
    match first_occurrence(s, seq![c]) {
        Some(at) => {
            lemma_occurs_at_single(s, c, at);
            assert(s =~= s.take(at) + seq![c] + s.skip(at + 1));
            assert forall|j: int| 0 <= j < at implies s.take(at)[j] != c by {
                lemma_occurs_at_single(s, c, j);
            }
        },
        None => {
            assert forall|j: int| 0 <= j < s.len() implies s[j] != c by {
                lemma_occurs_at_single(s, c, j);
            }
        },
    }
}

/// A string written as `head + [c] + tail` with `head` free of `c` is cut
/// into `head` and `tail`.
pub proof fn lemma_cut_written(head: Seq<char>, c: char, tail: Seq<char>)
    requires
        lacks(head, c),
    ensures
        cut(head + seq![c] + tail, c) == Some((head, tail)),
{
    lemma_first_single_after(head, c, tail);
}

/// A string free of `c` cannot be cut at `c`.
pub proof fn lemma_cut_absent(s: Seq<char>, c: char)
    requires
        lacks(s, c),
    ensures
        cut(s, c) is None,
{
    lemma_first_single_absent(s, c);
}

/// Encoding distributes over concatenation.
pub proof fn lemma_encode_concat(a: Seq<char>, b: Seq<char>)
    ensures
        encode_utf8(a + b) == encode_utf8(a) + encode_utf8(b),
    decreases a.len(),
{
    if a.len() == 0 {
        assert(a + b =~= b);
        assert(encode_utf8(a) + encode_utf8(b) =~= encode_utf8(b));
    } else {
        lemma_encode_concat(a.drop_first(), b);
        assert((a + b).drop_first() =~= a.drop_first() + b);
        assert(encode_utf8(a + b) =~= encode_utf8(a) + encode_utf8(b));
    }
}

/// The part before an occurrence, the pattern and the part behind it make
/// up the string again, and so do their encodings: the bytes up to the end of
/// an occurrence are among the bytes of the string.
pub proof fn lemma_occurrence_fits(s: Seq<char>, pat: Seq<char>, at: int)
    requires
        occurs_at(s, pat, at),
    ensures
        s == s.take(at) + pat + s.skip(at + pat.len()),
        utf8_len(s) == utf8_len(s.take(at)) + utf8_len(pat) + utf8_len(s.skip(at + pat.len())),
{
    let rest = s.skip(at + pat.len());
    assert(s =~= s.take(at) + pat + rest);
    lemma_encode_concat(s.take(at) + pat, rest);
    lemma_encode_concat(s.take(at), pat);
}

/// The byte offset at which a prefix ends is a character boundary of the
/// encoding of the whole string.
pub proof fn lemma_prefix_ends_on_boundary(a: Seq<char>, b: Seq<char>)
    ensures
        is_char_boundary(encode_utf8(a + b), encode_utf8(a).len() as int),
    decreases a.len(),
{
    broadcast use encode_utf8_valid_utf8;

    let bytes = encode_utf8(a + b);
    if a.len() != 0 {
        let rest = a.drop_first() + b;
        assert((a + b).drop_first() =~= rest);
        encode_utf8_first_scalar(a + b);
        lemma_prefix_ends_on_boundary(a.drop_first(), b);
        lemma_encode_concat(a, b);
        assert(pop_first_scalar(bytes) =~= encode_utf8(rest));
        assert(encode_utf8(a).len() == encode_scalar(a[0] as u32).len() + encode_utf8(
            a.drop_first(),
        ).len());
    }
}

/// Two strings with the same encoding are the same string.
pub proof fn lemma_encode_injective(a: Seq<char>, b: Seq<char>)
    requires
        encode_utf8(a) == encode_utf8(b),
    ensures
        a == b,
{
    encode_utf8_decode_utf8(a);
    encode_utf8_decode_utf8(b);
}

/// The characters of `s`, in order.
pub fn chars_of(s: &str) -> (v: Vec<char>)
    ensures
        v@ == s@,
{
    broadcast use vstd::string::group_string_axioms;

    let mut v: Vec<char> = Vec::new();
    for c in it: s.chars()
        invariant
            it.seq() == s@,
            v@ == it.seq().take(it.index()),
    {
        v.push(c);
    }
    v
}

/// Whether two strings hold the same characters.
pub fn str_eq(a: &str, b: &str) -> (same: bool)
    ensures
        same == (a@ == b@),
{
    let x = a.as_bytes();
    let y = b.as_bytes();
    if x.len() != y.len() {
        return false;
    }
    let mut i: usize = 0;
    while i < x.len()
        invariant
            x@ == encode_utf8(a@),
            y@ == encode_utf8(b@),
            x@.len() == y@.len(),
            i <= x@.len(),
            forall|j: int| 0 <= j < i ==> x@[j] == y@[j],
        decreases x@.len() - i,
    {
        if x[i] != y[i] {
            return false;
        }
        i += 1;
    }
    proof {
        assert(x@ =~= y@);
        lemma_encode_injective(a@, b@);
    }
    true
}

fn matches_here(hay: &Vec<char>, pat: &Vec<char>, at: usize) -> (hit: bool)
    requires
        at + pat@.len() <= hay@.len(),
    ensures
        hit == occurs_at(hay@, pat@, at as int),
{
    let n: usize = hay.len();
    let mut k: usize = 0;
    while k < pat.len()
        invariant
            n == hay@.len(),
            at + pat@.len() <= hay@.len(),
            k <= pat@.len(),
            forall|j: int| 0 <= j < k ==> hay@[at + j] == pat@[j],
        decreases pat@.len() - k,
    {
        if hay[at + k] != pat[k] {
            assert(hay@.subrange(at as int, at + pat@.len())[k as int] != pat@[k as int]);
            return false;
        }
        k += 1;
    }
    assert(hay@.subrange(at as int, at + pat@.len()) =~= pat@);
    true
}

/// Position of the leftmost occurrence of `pat` in `hay`.
pub fn find_chars(hay: &Vec<char>, pat: &Vec<char>) -> (found: Option<usize>)
    ensures
        match found {
            Some(at) => first_occurrence(hay@, pat@) == Some(at as int),
            None => first_occurrence(hay@, pat@) is None,
        },
{
    if pat.len() > hay.len() {
        return None;
    }
    let last: usize = hay.len() - pat.len();
    let mut at: usize = 0;
    loop
        invariant
            last + pat@.len() == hay@.len(),
            at <= last,
            forall|j: int| 0 <= j < at ==> !occurs_at(hay@, pat@, j),
        decreases last - at,
    {
        if matches_here(hay, pat, at) {
            proof {
                lemma_first_occurrence_at(hay@, pat@, at as int);
            }
            return Some(at);
        }
        if at == last {
            return None;
        }
        at += 1;
    }
}

/// Splits `s` at the leftmost occurrence of `pattern`.
///
/// When `pattern` occurs, the result is the part of `s` before it, and `i`
/// grows by the number of bytes up to the end of that occurrence, so that a
/// caller who slices `s` from the old `i` can go on from the new one. When it
/// does not occur, the result is `None` and `i` is left alone, whatever it
/// is.
///
/// `i` must have room for the bytes up to the end of the occurrence, where
/// there is one. Room for all of `s` is always enough.
pub fn split_on_pattern<'a>(s: &'a str, pattern: &str, i: &mut usize) -> (before: Option<&'a str>)
    requires
        *old(i) + s.len() <= usize::MAX || (first_occurrence(s@, pattern@) matches Some(at)
            ==> *old(i) + utf8_len(s@.take(at)) + utf8_len(pattern@) <= usize::MAX),
    ensures
        match first_occurrence(s@, pattern@) {
            Some(at) => {
                &&& before matches Some(head)
                &&& head@ == s@.take(at)
                &&& *final(i) == *old(i) + utf8_len(s@.take(at)) + utf8_len(pattern@)
            },
            None => before is None && *final(i) == *old(i),
        },
{
    let hay = chars_of(s);
    let pat = chars_of(pattern);
    // The length of a slice is known to fit `usize`; that of a string is not.
    let whole: usize = s.as_bytes().len();
    assert(whole == utf8_len(s@));
    match find_chars(&hay, &pat) {
        Some(at) => {
            proof {
                lemma_first_occurrence(s@, pattern@);
                lemma_occurrence_fits(s@, pattern@, at as int);
            }
            let head = s.substring_char(0, at);
            let head_bytes: usize = head.as_bytes().len();
            let pattern_bytes: usize = pattern.as_bytes().len();
            *i = *i + head_bytes + pattern_bytes;
            Some(head)
        },
        None => None,
    }
}

/// The part of `s` that starts at byte offset `at`, where `at` is the offset
/// at which the character at position `k` starts.
pub(crate) fn tail_at<'a>(s: &'a str, at: usize, Ghost(k): Ghost<int>) -> (tail: &'a str)
    requires
        0 <= k <= s@.len(),
        at == utf8_len(s@.take(k)),
    ensures
        tail@ == s@.skip(k),
{
    proof {
        assert(s@ =~= s@.take(k) + s@.skip(k));
        lemma_prefix_ends_on_boundary(s@.take(k), s@.skip(k));
        lemma_encode_concat(s@.take(k), s@.skip(k));
    }
    let (_, tail) = s.split_at(at);
    proof {
        assert(encode_utf8(s@).subrange(at as int, encode_utf8(s@).len() as int) =~= encode_utf8(
            s@.skip(k),
        ));
        lemma_encode_injective(tail@, s@.skip(k));
    }
    tail
}

/// The character for a digit below ten.
pub open spec fn digit(d: nat) -> char {
    if d == 0 {
        '0'
    } else if d == 1 {
        '1'
    } else if d == 2 {
        '2'
    } else if d == 3 {
        '3'
    } else if d == 4 {
        '4'
    } else if d == 5 {
        '5'
    } else if d == 6 {
        '6'
    } else if d == 7 {
        '7'
    } else if d == 8 {
        '8'
    } else {
        '9'
    }
}

/// `n` written in decimal, without leading zeros.
pub open spec fn decimal_text(n: nat) -> Seq<char>
    decreases n,
{
    if n < 10 {
        seq![digit(n)]
    } else {
        decimal_text(n / 10) + seq![digit(n % 10)]
    }
}

fn digit_str(d: u32) -> (s: &'static str)
    requires
        d < 10,
    ensures
        s@ == seq![digit(d as nat)],
{
    proof {
        reveal_strlit("0");
        reveal_strlit("1");
        reveal_strlit("2");
        reveal_strlit("3");
        reveal_strlit("4");
        reveal_strlit("5");
        reveal_strlit("6");
        reveal_strlit("7");
        reveal_strlit("8");
        reveal_strlit("9");
    }
    let s = if d == 0 {
        "0"
    } else if d == 1 {
        "1"
    } else if d == 2 {
        "2"
    } else if d == 3 {
        "3"
    } else if d == 4 {
        "4"
    } else if d == 5 {
        "5"
    } else if d == 6 {
        "6"
    } else if d == 7 {
        "7"
    } else if d == 8 {
        "8"
    } else {
        "9"
    };
    assert(s@ =~= seq![digit(d as nat)]);
    s
}

/// Writes `n` in decimal.
pub fn decimal(n: u32) -> (text: String)
    ensures
        text@ == decimal_text(n as nat),
    decreases n,
{
    if n < 10 {
        String::from_str(digit_str(n))
    } else {
        let mut text = decimal(n / 10);
        text.append(digit_str(n % 10));
        text
    }
}

} // verus!
