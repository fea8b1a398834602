//! Character-level text helpers: doubled delimiters, Unicode trimming and
//! string comparison, each with the mathematical statement it meets.
use vstd::prelude::*;

verus! {

/// `c` is a character with the Unicode `White_Space` property, the set that
/// `char::is_whitespace` (and so `str::trim`) recognises.
pub open spec fn is_white_space(c: char) -> bool {
    ||| ('\u{9}' <= c && c <= '\u{d}')
    ||| c == ' '
    ||| c == '\u{85}'
    ||| c == '\u{a0}'
    ||| c == '\u{1680}'
    ||| ('\u{2000}' <= c && c <= '\u{200a}')
    ||| c == '\u{2028}'
    ||| c == '\u{2029}'
    ||| c == '\u{202f}'
    ||| c == '\u{205f}'
    ||| c == '\u{3000}'
}

/// `s` without its leading white space.
pub open spec fn trim_start(s: Seq<char>) -> Seq<char>
    decreases s.len(),
{
    if s.len() > 0 && is_white_space(s[0]) {
        trim_start(s.drop_first())
    } else {
        s
    }
}

/// `s` without its trailing white space.
pub open spec fn trim_end(s: Seq<char>) -> Seq<char>
    decreases s.len(),
{
    if s.len() > 0 && is_white_space(s.last()) {
        trim_end(s.drop_last())
    } else {
        s
    }
}

/// `s` without leading and trailing white space, as `str::trim` returns it.
pub open spec fn trim(s: Seq<char>) -> Seq<char> {
    trim_end(trim_start(s))
}

/// The two characters of `s` at `i` and `i + 1` are both `c`.
pub open spec fn pair_at(s: Seq<char>, i: int, c: char) -> bool {
    0 <= i && i + 1 < s.len() && s[i] == c && s[i + 1] == c
}

/// `s` holds the doubled delimiter `cc` somewhere.
pub open spec fn has_pair(s: Seq<char>, c: char) -> bool {
    exists|i: int| pair_at(s, i, c)
}

/// `i` is where the doubled delimiter `cc` occurs first in `s`.
pub open spec fn is_first_pair(s: Seq<char>, c: char, i: int) -> bool {
    &&& pair_at(s, i, c)
    &&& forall|j: int| 0 <= j < i ==> !pair_at(s, j, c)
}

/// The index of the first occurrence of `cc` in `s`, as `str::find` reports it.
pub open spec fn first_pair(s: Seq<char>, c: char) -> Option<int> {
    if exists|i: int| is_first_pair(s, c, i) {
        Some(choose|i: int| is_first_pair(s, c, i))
    } else {
        None
    }
}

/// The first occurrence is unique, so `first_pair` names it.
pub proof fn lemma_first_pair_is(s: Seq<char>, c: char, k: int)
    requires
        is_first_pair(s, c, k),
    ensures
        first_pair(s, c) == Some(k),
{
    let w = choose|i: int| is_first_pair(s, c, i);
    assert(is_first_pair(s, c, w));
    if w < k {
        assert(!pair_at(s, w, c));
    } else if k < w {
        assert(!pair_at(s, k, c));
    }
}

/// A first occurrence that `first_pair` reports is one.
pub proof fn lemma_first_pair_found(s: Seq<char>, c: char)
    ensures
        first_pair(s, c) matches Some(k) ==> is_first_pair(s, c, k),
{
}

/// Text without the delimiter has no first occurrence of it.
pub proof fn lemma_no_pair(s: Seq<char>, c: char)
    requires
        !has_pair(s, c),
    ensures
        first_pair(s, c) is None,
{
    if exists|i: int| is_first_pair(s, c, i) {
        let w = choose|i: int| is_first_pair(s, c, i);
        assert(pair_at(s, w, c));
    }
}

/// Whenever `cc` occurs in `s`, it has a first occurrence, at or before any other.
pub proof fn lemma_first_pair_exists(s: Seq<char>, c: char, k: int)
    requires
        pair_at(s, k, c),
    ensures
        first_pair(s, c) matches Some(f) && f <= k && is_first_pair(s, c, f),
    decreases k,
{
    if forall|j: int| 0 <= j < k ==> !pair_at(s, j, c) {
        lemma_first_pair_is(s, c, k);
    } else {
        let j = choose|j: int| 0 <= j < k && pair_at(s, j, c);
        lemma_first_pair_exists(s, c, j);
    }
}

/// `a` ends with `c` and `b` begins with it, so that `a + b` holds a `cc`
/// that neither part holds.
pub open spec fn spans(a: Seq<char>, b: Seq<char>, c: char) -> bool {
    a.len() > 0 && b.len() > 0 && a.last() == c && b[0] == c
}

/// Where no `cc` spans the joint, the occurrences of `cc` in `a + b` are
/// those of `a` and those of `b`, moved by the length of `a`.
pub proof fn lemma_pairs_of_concat(a: Seq<char>, b: Seq<char>, c: char)
    requires
        !spans(a, b, c),
    ensures
        forall|i: int|
            #[trigger] pair_at(a + b, i, c) <==> (pair_at(a, i, c) || pair_at(b, i - a.len(), c)),
        has_pair(a + b, c) <==> (has_pair(a, c) || has_pair(b, c)),
{
    let ab = a + b;
    assert forall|i: int|
        #[trigger] pair_at(ab, i, c) <==> (pair_at(a, i, c) || pair_at(b, i - a.len(), c)) by {
        if 0 <= i && i + 1 < a.len() {
            assert(ab[i] == a[i] && ab[i + 1] == a[i + 1]);
        } else if i == a.len() - 1 && i >= 0 && b.len() > 0 {
            assert(ab[i] == a.last() && ab[i + 1] == b[0]);
        } else if i >= a.len() && i + 1 < ab.len() {
            assert(ab[i] == b[i - a.len()] && ab[i + 1] == b[i - a.len() + 1]);
        }
    }
    if has_pair(ab, c) {
        let i = choose|i: int| pair_at(ab, i, c);
        if !pair_at(a, i, c) {
            assert(pair_at(b, i - a.len(), c));
        }
    }
    if has_pair(a, c) {
        let i = choose|i: int| pair_at(a, i, c);
        assert(pair_at(ab, i, c));
    }
    if has_pair(b, c) {
        let i = choose|i: int| pair_at(b, i, c);
        assert(pair_at(ab, i + a.len(), c));
    }
}

/// The first `cc` of `a` is the first of `a + b`.
pub proof fn lemma_first_pair_of_prefix(a: Seq<char>, b: Seq<char>, c: char, k: int)
    requires
        is_first_pair(a, c, k),
    ensures
        first_pair(a + b, c) == Some(k),
{
    let ab = a + b;
    assert(ab[k] == a[k] && ab[k + 1] == a[k + 1]);
    assert forall|j: int| 0 <= j < k implies !pair_at(ab, j, c) by {
        assert(ab[j] == a[j] && ab[j + 1] == a[j + 1]);
        assert(!pair_at(a, j, c));
    }
    lemma_first_pair_is(ab, c, k);
}

/// When `a` holds no `cc` and none spans the joint, the first `cc` of `a + b`
/// is the first of `b`, moved by the length of `a`.
pub proof fn lemma_first_pair_after(a: Seq<char>, b: Seq<char>, c: char, k: int)
    requires
        !spans(a, b, c),
        !has_pair(a, c),
        is_first_pair(b, c, k),
    ensures
        first_pair(a + b, c) == Some(a.len() + k),
{
    lemma_pairs_of_concat(a, b, c);
    let ab = a + b;
    assert(pair_at(ab, a.len() + k, c));
    assert forall|j: int| 0 <= j < a.len() + k implies !pair_at(ab, j, c) by {
        assert(!pair_at(a, j, c));
        if j >= a.len() {
            assert(!pair_at(b, j - a.len(), c));
        }
    }
    lemma_first_pair_is(ab, c, a.len() + k);
}

/// The characters of `s`, in order.
pub fn chars_of(s: &str) -> (v: Vec<char>)
    ensures
        v@ == s@,
{
    let mut v: Vec<char> = Vec::new();
    for c in it: s.chars()
        invariant
            v@ == it.seq().take(it.index() as int),
    {
        v.push(c);
    }
    v
}

/// Whether `c` has the Unicode `White_Space` property.
pub fn white_space(c: char) -> (r: bool)
    ensures
        r == is_white_space(c),
{
    ('\u{9}' <= c && c <= '\u{d}') || c == ' ' || c == '\u{85}' || c == '\u{a0}' || c == '\u{1680}'
        || ('\u{2000}' <= c && c <= '\u{200a}') || c == '\u{2028}' || c == '\u{2029}' || c
        == '\u{202f}' || c == '\u{205f}' || c == '\u{3000}'
}

/// The first occurrence of `cc` in `s[from..to]`, relative to `from`.
pub fn find_pair(s: &Vec<char>, from: usize, to: usize, c: char) -> (r: Option<usize>)
    requires
        from <= to <= s@.len(),
    ensures
        match r {
            Some(k) => is_first_pair(s@.subrange(from as int, to as int), c, k as int),
            None => !has_pair(s@.subrange(from as int, to as int), c),
        },
{
    let ghost sub = s@.subrange(from as int, to as int);
    let mut i: usize = from;
    while to - i > 1
        invariant
            from <= i <= to,
            to <= s@.len(),
            sub == s@.subrange(from as int, to as int),
            forall|j: int| 0 <= j < i - from ==> !pair_at(sub, j, c),
        decreases to - i,
    {
        if s[i] == c && s[i + 1] == c {
            assert(pair_at(sub, i - from, c));
            return Some(i - from);
        }
        assert(!pair_at(sub, i - from, c));
        i = i + 1;
    }
    assert forall|j: int| !pair_at(sub, j, c) by {
        if 0 <= j < i - from {
        }
    }
    None
}

/// Bounds `(lo, hi)` with `s[lo..hi]` equal to `s[from..to]` trimmed.
pub fn trim_bounds(s: &Vec<char>, from: usize, to: usize) -> (r: (usize, usize))
    requires
        from <= to <= s@.len(),
    ensures
        from <= r.0 <= r.1 <= to,
        s@.subrange(r.0 as int, r.1 as int) == trim(s@.subrange(from as int, to as int)),
{
    let mut lo: usize = from;
    while lo < to && white_space(s[lo])
        invariant
            from <= lo <= to,
            to <= s@.len(),
            trim_start(s@.subrange(from as int, to as int)) == trim_start(
                s@.subrange(lo as int, to as int),
            ),
        decreases to - lo,
    {
        assert(s@.subrange(lo as int, to as int).drop_first() =~= s@.subrange(
            lo + 1,
            to as int,
        ));
        lo = lo + 1;
    }
    let mut hi: usize = to;
    while hi > lo && white_space(s[hi - 1])
        invariant
            lo <= hi <= to,
            to <= s@.len(),
            trim_start(s@.subrange(from as int, to as int)) == s@.subrange(lo as int, to as int),
            trim_end(s@.subrange(lo as int, to as int)) == trim_end(
                s@.subrange(lo as int, hi as int),
            ),
        decreases hi - lo,
    {
        assert(s@.subrange(lo as int, hi as int).drop_last() =~= s@.subrange(
            lo as int,
            hi - 1,
        ));
        hi = hi - 1;
    }
    (lo, hi)
}

/// `s` trimmed of leading and trailing white space.
pub fn trim_text(s: &str) -> (t: &str)
    ensures
        t@ == trim(s@),
{
    let chars = chars_of(s);
    let (lo, hi): (usize, usize) = trim_bounds(&chars, 0, chars.len());
    assert(chars@.subrange(0, chars@.len() as int) =~= chars@);
    s.substring_char(lo, hi)
}

/// Whether `a` and `b` hold the same characters.
pub fn same_text(a: &str, b: &str) -> (r: bool)
    ensures
        r == (a@ == b@),
{
    let x = a.to_owned();
    let y = b.to_owned();
    x == y
}

/// A new `String` holding `a`, `b` and `c` in turn.
pub fn concat3(a: &str, b: &str, c: &str) -> (r: String)
    ensures
        r@ == a@ + b@ + c@,
{
    let mut r = a.to_owned();
    r.append(b);
    r.append(c);
    r
}

/// A new `String` holding `a` to `e` in turn.
pub fn concat5(a: &str, b: &str, c: &str, d: &str, e: &str) -> (r: String)
    ensures
        r@ == a@ + b@ + c@ + d@ + e@,
{
    let mut r = a.to_owned();
    r.append(b);
    r.append(c);
    r.append(d);
    r.append(e);
    r
}

/// The decimal digit `d` as text.
pub open spec fn digit_text(d: nat) -> Seq<char> {
    if d == 0 {
        "0"@
    } else if d == 1 {
        "1"@
    } else if d == 2 {
        "2"@
    } else if d == 3 {
        "3"@
    } else if d == 4 {
        "4"@
    } else if d == 5 {
        "5"@
    } else if d == 6 {
        "6"@
    } else if d == 7 {
        "7"@
    } else if d == 8 {
        "8"@
    } else {
        "9"@
    }
}

/// `n` written in decimal without leading zeros, as `Display` writes an integer.
pub open spec fn decimal(n: nat) -> Seq<char>
    decreases n,
{
    if n < 10 {
        digit_text(n)
    } else {
        decimal(n / 10) + digit_text(n % 10)
    }
}

fn digit_str(d: u32) -> (r: &'static str)
    requires
        d < 10,
    ensures
        r@ == digit_text(d as nat),
{
    if d == 0 {
        "0"
    } else if d == 1 {
        "1"
    } else if d == 2 {
        "2"
    } else if d == 3 {
        "3"
    } else if d == 4 {
        "4"
    } else if d == 5 {
        "5"
    } else if d == 6 {
        "6"
    } else if d == 7 {
        "7"
    } else if d == 8 {
        "8"
    } else {
        "9"
    }
}

/// `n` in decimal.
pub fn decimal_text(n: u32) -> (r: String)
    ensures
        r@ == decimal(n as nat),
    decreases n,
{
    if n < 10 {
        digit_str(n).to_owned()
    } else {
        let mut r = decimal_text(n / 10);
        r.append(digit_str(n % 10));
        r
    }
}

} // verus!
