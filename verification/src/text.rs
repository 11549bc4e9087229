//! Character-sequence helpers shared by the rest of the library.
//!
//! Strings are worked on as `Vec<char>`; every operation is specified over the
//! `Seq<char>` view, so contracts elsewhere can speak of text directly.
use vstd::prelude::*;

verus! {

pub assume_specification[ String::push ](string: &mut String, ch: char)
    ensures
        final(string)@ == old(string)@.push(ch),
;

/// Unicode `White_Space` characters, as `char::is_whitespace` classifies them.
pub open spec fn is_ws(c: char) -> bool {
    let u = c as u32;
    ||| 0x09 <= u <= 0x0D
    ||| u == 0x20
    ||| u == 0x85
    ||| u == 0xA0
    ||| u == 0x1680
    ||| 0x2000 <= u <= 0x200A
    ||| u == 0x2028
    ||| u == 0x2029
    ||| u == 0x202F
    ||| u == 0x205F
    ||| u == 0x3000
}

pub fn is_whitespace(c: char) -> (b: bool)
    ensures
        b == is_ws(c),
{
    let u = c as u32;
    (0x09 <= u && u <= 0x0D) || u == 0x20 || u == 0x85 || u == 0xA0 || u == 0x1680 || (0x2000
        <= u && u <= 0x200A) || u == 0x2028 || u == 0x2029 || u == 0x202F || u == 0x205F || u
        == 0x3000
}

pub open spec fn is_digit(c: char) -> bool {
    '0' <= c <= '9'
}

/// Leading whitespace removed.
pub open spec fn trim_start(s: Seq<char>) -> Seq<char>
    decreases s.len(),
{
    if s.len() > 0 && is_ws(s[0]) {
        trim_start(s.drop_first())
    } else {
        s
    }
}

/// Trailing whitespace removed.
pub open spec fn trim_end(s: Seq<char>) -> Seq<char>
    decreases s.len(),
{
    if s.len() > 0 && is_ws(s.last()) {
        trim_end(s.drop_last())
    } else {
        s
    }
}

/// Whitespace removed at both ends (`str::trim`).
pub open spec fn trim(s: Seq<char>) -> Seq<char> {
    trim_end(trim_start(s))
}

/// `p` occurs in `s` at index `i`.
pub open spec fn match_at(s: Seq<char>, p: Seq<char>, i: int) -> bool {
    0 <= i && i + p.len() <= s.len() && s.subrange(i, i + p.len()) == p
}

/// First occurrence of `p` in `s` at or after `i`.
pub open spec fn find_from(s: Seq<char>, p: Seq<char>, i: int) -> Option<int>
    decreases s.len() + 1 - i,
{
    if i < 0 || i + p.len() > s.len() {
        None
    } else if match_at(s, p, i) {
        Some(i)
    } else {
        find_from(s, p, i + 1)
    }
}

/// First occurrence of `p` in `s` (`str::find`, counted in characters).
pub open spec fn find(s: Seq<char>, p: Seq<char>) -> Option<int> {
    find_from(s, p, 0)
}

/// Last occurrence of `c` in `s` (`str::rfind`, counted in characters).
pub open spec fn rfind(s: Seq<char>, c: char) -> Option<int>
    decreases s.len(),
{
    if s.len() == 0 {
        None
    } else if s.last() == c {
        Some(s.len() - 1)
    } else {
        rfind(s.drop_last(), c)
    }
}

pub open spec fn ends_with(s: Seq<char>, c: char) -> bool {
    s.len() > 0 && s.last() == c
}

pub open spec fn starts_with(s: Seq<char>, p: Seq<char>) -> bool {
    p.len() <= s.len() && s.subrange(0, p.len() as int) == p
}

pub open spec fn contains_seq(s: Seq<char>, p: Seq<char>) -> bool {
    find(s, p) is Some
}

/// Decimal digits of `n`, most significant first, without padding.
pub open spec fn dec(n: nat) -> Seq<char>
    decreases n,
{
    if n < 10 {
        seq![digit_char(n)]
    } else {
        dec(n / 10).push(digit_char(n % 10))
    }
}

pub open spec fn digit_char(d: nat) -> char {
    ('0' as u32 + d) as char
}

/// `dec(n)` padded on the left with `'0'` to at least `w` characters (`{:0w}`).
pub open spec fn dec_pad(n: nat, w: nat) -> Seq<char> {
    let d = dec(n);
    if d.len() >= w {
        d
    } else {
        Seq::new((w - d.len()) as nat, |i: int| '0') + d
    }
}

pub proof fn lemma_find_from_result(s: Seq<char>, p: Seq<char>, i: int)
    ensures
        find_from(s, p, i) matches Some(k) ==> i <= k && match_at(s, p, k) && (forall|j: int|
            i <= j < k ==> !match_at(s, p, j)),
    decreases s.len() + 1 - i,
{
    if i < 0 || i + p.len() > s.len() {
    } else if match_at(s, p, i) {
    } else {
        lemma_find_from_result(s, p, i + 1);
    }
}

pub proof fn lemma_find_from_none(s: Seq<char>, p: Seq<char>, i: int)
    requires
        0 <= i,
    ensures
        find_from(s, p, i) is None ==> forall|j: int| i <= j ==> !match_at(s, p, j),
    decreases s.len() + 1 - i,
{
    if i + p.len() > s.len() {
    } else if match_at(s, p, i) {
    } else {
        lemma_find_from_none(s, p, i + 1);
    }
}

pub proof fn lemma_rfind(s: Seq<char>, c: char)
    ensures
        rfind(s, c) matches Some(k) ==> 0 <= k < s.len() && s[k] == c && forall|j: int|
            k < j < s.len() ==> s[j] != c,
        rfind(s, c) is None ==> forall|j: int| 0 <= j < s.len() ==> s[j] != c,
    decreases s.len(),
{
    if s.len() == 0 {
    } else if s.last() == c {
    } else {
        lemma_rfind(s.drop_last(), c);
        assert forall|j: int| 0 <= j < s.len() - 1 implies s.drop_last()[j] == s[j] by {}
    }
}

pub proof fn lemma_dec_len(n: nat)
    ensures
        dec(n).len() >= 1,
        n < 10 ==> dec(n).len() == 1,
        10 <= n < 100 ==> dec(n).len() == 2,
        100 <= n < 1000 ==> dec(n).len() == 3,
    decreases n,
{
    if n >= 10 {
        lemma_dec_len(n / 10);
    }
}

/// The characters of `s`, in order.
pub fn chars_of(s: &str) -> (v: Vec<char>)
    ensures
        v@ == s@,
{
    let mut v: Vec<char> = Vec::new();
    for c in it: s.chars()
        invariant
            v@ == it.seq().take(it.index() as int),
    {
        v.push(c);
    }
    v
}

/// A `String` holding exactly the characters of `v`.
pub fn string_of(v: &Vec<char>) -> (s: String)
    ensures
        s@ == v@,
{
    let mut s = String::new();
    let mut i: usize = 0;
    while i < v.len()
        invariant
            i <= v.len(),
            s@ == v@.take(i as int),
        decreases v.len() - i,
    {
        s.push(v[i]);
        i += 1;
        assert(s@ == v@.take(i as int));
    }
    assert(v@.take(v.len() as int) == v@);
    s
}

/// `v[lo..hi]` as a new vector.
pub fn slice_of(v: &Vec<char>, lo: usize, hi: usize) -> (r: Vec<char>)
    requires
        lo <= hi <= v.len(),
    ensures
        r@ == v@.subrange(lo as int, hi as int),
{
    let mut r: Vec<char> = Vec::new();
    let mut i = lo;
    while i < hi
        invariant
            lo <= i <= hi <= v.len(),
            r@ == v@.subrange(lo as int, i as int),
        decreases hi - i,
    {
        r.push(v[i]);
        i += 1;
    }
    r
}

/// `a` followed by `b`.
pub fn concat(a: &Vec<char>, b: &Vec<char>) -> (r: Vec<char>)
    ensures
        r@ == a@ + b@,
{
    let mut r = a.clone();
    let mut i: usize = 0;
    while i < b.len()
        invariant
            i <= b.len(),
            r@ == a@ + b@.take(i as int),
        decreases b.len() - i,
    {
        r.push(b[i]);
        i += 1;
        assert(r@ == a@ + b@.take(i as int));
    }
    assert(b@.take(b.len() as int) == b@);
    r
}

/// Appends all of `b` to `r`.
pub fn push_all(r: &mut Vec<char>, b: &Vec<char>)
    ensures
        final(r)@ == old(r)@ + b@,
{
    let mut i: usize = 0;
    while i < b.len()
        invariant
            i <= b.len(),
            r@ == old(r)@ + b@.take(i as int),
        decreases b.len() - i,
    {
        r.push(b[i]);
        i += 1;
        assert(r@ == old(r)@ + b@.take(i as int));
    }
    assert(b@.take(b.len() as int) == b@);
}

/// Appends the characters of `s` to `r`.
pub fn push_str(r: &mut Vec<char>, s: &str)
    ensures
        final(r)@ == old(r)@ + s@,
{
    let b = chars_of(s);
    push_all(r, &b);
}

/// Index of the first non-whitespace character from `lo` on.
fn skip_ws_forward(v: &Vec<char>) -> (i: usize)
    ensures
        i <= v.len(),
        trim_start(v@) == v@.skip(i as int),
{
    let mut i: usize = 0;
    assert(v@.skip(0) == v@);
    while i < v.len() && is_whitespace(v[i])
        invariant
            i <= v.len(),
            trim_start(v@) == trim_start(v@.skip(i as int)),
        decreases v.len() - i,
    {
        assert(v@.skip(i as int).drop_first() == v@.skip(i + 1));
        i += 1;
    }
    i
}

/// Whitespace removed at both ends.
pub fn trim_chars(v: &Vec<char>) -> (r: Vec<char>)
    ensures
        r@ == trim(v@),
{
    let lo = skip_ws_forward(v);
    let ghost t = v@.skip(lo as int);
    let mut hi = v.len();
    assert(v@.subrange(lo as int, hi as int) == t);
    while hi > lo && is_whitespace(v[hi - 1])
        invariant
            lo <= hi <= v.len(),
            t == v@.skip(lo as int),
            trim_end(t) == trim_end(v@.subrange(lo as int, hi as int)),
        decreases hi,
    {
        assert(v@.subrange(lo as int, hi as int).drop_last() == v@.subrange(lo as int, hi - 1));
        hi -= 1;
    }
    slice_of(v, lo, hi)
}

/// `str::trim` on a string.
pub fn trim_str(s: &str) -> (r: Vec<char>)
    ensures
        r@ == trim(s@),
{
    let v = chars_of(s);
    trim_chars(&v)
}

/// Index of the first occurrence of `p` in `s`.
pub fn find_seq(s: &Vec<char>, p: &Vec<char>) -> (r: Option<usize>)
    ensures
        r matches Some(k) ==> find(s@, p@) == Some(k as int),
        r is None ==> find(s@, p@) is None,
{
    if p.len() > s.len() {
        return None;
    }
    let last = s.len() - p.len();
    let mut i: usize = 0;
    while i <= last
        invariant
            last + p.len() == s.len(),
            find(s@, p@) == find_from(s@, p@, i as int),
        decreases last + 1 - i,
    {
        let mut j: usize = 0;
        let mut ok = true;
        while j < p.len()
            invariant
                i + p.len() <= s.len(),
                j <= p.len(),
                ok <==> forall|k: int| 0 <= k < j ==> s@[i + k] == p@[k],
            decreases p.len() - j,
        {
            if s[i + j] != p[j] {
                ok = false;
            }
            j += 1;
        }
        if ok {
            assert(s@.subrange(i as int, i + p.len()) == p@);
            return Some(i);
        }
        assert(!match_at(s@, p@, i as int)) by {
            if s@.subrange(i as int, i + p.len()) == p@ {
                assert forall|k: int| 0 <= k < p.len() implies s@[i + k] == p@[k] by {
                    assert(s@.subrange(i as int, i + p.len())[k] == s@[i + k]);
                }
            }
        }
        i += 1;
    }
    None
}

/// Index of the last occurrence of `c` in `s`.
pub fn rfind_char(s: &Vec<char>, c: char) -> (r: Option<usize>)
    ensures
        r matches Some(k) ==> rfind(s@, c) == Some(k as int) && k < s.len(),
        r is None ==> rfind(s@, c) is None,
{
    let mut i = s.len();
    assert(s@.take(i as int) == s@);
    while i > 0
        invariant
            i <= s.len(),
            rfind(s@, c) == rfind(s@.take(i as int), c),
        decreases i,
    {
        if s[i - 1] == c {
            return Some(i - 1);
        }
        assert(s@.take(i as int).drop_last() == s@.take(i - 1));
        i -= 1;
    }
    None
}

/// Whether `s` ends with `c`.
pub fn ends_with_char(s: &Vec<char>, c: char) -> (b: bool)
    ensures
        b == ends_with(s@, c),
{
    s.len() > 0 && s[s.len() - 1] == c
}

/// Whether `s` starts with `p`.
pub fn starts_with_str(s: &Vec<char>, p: &str) -> (b: bool)
    ensures
        b == starts_with(s@, p@),
{
    let pv = chars_of(p);
    if pv.len() > s.len() {
        return false;
    }
    let mut j: usize = 0;
    while j < pv.len()
        invariant
            pv@ == p@,
            pv.len() <= s.len(),
            j <= pv.len(),
            forall|k: int| 0 <= k < j ==> s@[k] == pv@[k],
        decreases pv.len() - j,
    {
        if s[j] != pv[j] {
            assert(s@.subrange(0, pv.len() as int)[j as int] != pv@[j as int]);
            return false;
        }
        j += 1;
    }
    assert(s@.subrange(0, pv.len() as int) == pv@);
    true
}

/// Whether `p` occurs in `s`.
pub fn contains_str(s: &Vec<char>, p: &str) -> (b: bool)
    ensures
        b == contains_seq(s@, p@),
{
    let pv = chars_of(p);
    find_seq(s, &pv).is_some()
}

/// Equality of two character vectors.
pub fn seq_eq(a: &Vec<char>, b: &Vec<char>) -> (r: bool)
    ensures
        r == (a@ == b@),
{
    if a.len() != b.len() {
        return false;
    }
    let mut i: usize = 0;
    while i < a.len()
        invariant
            a.len() == b.len(),
            i <= a.len(),
            forall|k: int| 0 <= k < i ==> a@[k] == b@[k],
        decreases a.len() - i,
    {
        if a[i] != b[i] {
            return false;
        }
        i += 1;
    }
    assert(a@ == b@);
    true
}

/// Equality of a character vector and a string.
pub fn eq_str(a: &Vec<char>, s: &str) -> (r: bool)
    ensures
        r == (a@ == s@),
{
    let b = chars_of(s);
    seq_eq(a, &b)
}

/// The character of decimal digit `d`.
pub fn digit(d: u64) -> (c: char)
    requires
        d < 10,
    ensures
        c == digit_char(d as nat),
{
    (48u8 + d as u8) as char
}

/// Decimal digits of `n`.
pub fn dec_chars(n: u64) -> (r: Vec<char>)
    ensures
        r@ == dec(n as nat),
    decreases n,
{
    if n < 10 {
        let mut acc: Vec<char> = Vec::new();
        acc.push(digit(n));
        return acc;
    }
    let mut r = dec_chars(n / 10);
    r.push(digit(n % 10));
    r
}

/// `n` in decimal, left-padded with `'0'` to at least `w` characters.
pub fn dec_pad_chars(n: u64, w: usize) -> (r: Vec<char>)
    ensures
        r@ == dec_pad(n as nat, w as nat),
{
    let d = dec_chars(n);
    if d.len() >= w {
        return d;
    }
    let mut r: Vec<char> = Vec::new();
    let k = w - d.len();
    let mut i: usize = 0;
    while i < k
        invariant
            i <= k,
            r@ == Seq::new(i as nat, |j: int| '0'),
        decreases k - i,
    {
        r.push('0');
        i += 1;
        assert(r@ == Seq::new(i as nat, |j: int| '0'));
    }
    push_all(&mut r, &d);
    r
}

} // verus!

verus! {

/// ASCII lower-casing (`to_ascii_lowercase`): `A`-`Z` become `a`-`z`.
pub open spec fn ascii_lower_char(c: char) -> char {
    if 'A' <= c <= 'Z' {
        ((c as u32) + 32) as char
    } else {
        c
    }
}

pub open spec fn ascii_lower(s: Seq<char>) -> Seq<char> {
    s.map_values(|c: char| ascii_lower_char(c))
}

/// Every character is ASCII.
pub open spec fn all_ascii(s: Seq<char>) -> bool {
    forall|i: int| 0 <= i < s.len() ==> (#[trigger] s[i] as u32) < 128
}

/// Unicode lower-casing (`str::to_lowercase`) of a character sequence.
pub uninterp spec fn lowercase(s: Seq<char>) -> Seq<char>;

/// Calls `str::to_lowercase`: the contract names its result by `lowercase`;
/// on ASCII text it is ASCII lower-casing (`A`-`Z` become `a`-`z`, the rest
/// stays), as the Unicode case mapping of ASCII letters is theirs.
#[verifier::external_body]
pub(crate) fn to_lowercase_str(s: &str) -> (r: String)
    ensures
        r@ == lowercase(s@),
        all_ascii(s@) ==> r@ == ascii_lower(s@),
{
    s.to_lowercase()
}

/// `lowercase` of a character vector, ASCII lower-casing on ASCII text.
pub fn lowercase_chars(v: &Vec<char>) -> (r: Vec<char>)
    ensures
        r@ == lowercase(v@),
        all_ascii(v@) ==> r@ == ascii_lower(v@),
{
    let s = string_of(v);
    let l = to_lowercase_str(s.as_str());
    chars_of(l.as_str())
}

} // verus!

verus! {

/// `s` up to the first occurrence of `p` (all of `s` when `p` does not occur):
/// the first piece of `s.split(p)`.
pub open spec fn upto(s: Seq<char>, p: Seq<char>) -> Seq<char> {
    match find(s, p) {
        Some(k) => s.take(k),
        None => s,
    }
}

/// The second piece of `s.split(p)`, when `p` occurs.
pub open spec fn split_second(s: Seq<char>, p: Seq<char>) -> Option<Seq<char>> {
    match find(s, p) {
        Some(k) => Some(upto(s.skip(k + p.len()), p)),
        None => None,
    }
}

/// Piece `i` of `s.split(p)`, when there are that many.
pub open spec fn split_piece(s: Seq<char>, p: Seq<char>, i: nat) -> Option<Seq<char>>
    decreases i,
{
    if i == 0 {
        Some(upto(s, p))
    } else {
        match find(s, p) {
            Some(k) => split_piece(s.skip(k + p.len()), p, (i - 1) as nat),
            None => None,
        }
    }
}

/// `s` with every leading copy of `p` removed (`str::trim_start_matches`).
pub open spec fn strip_prefix_all(s: Seq<char>, p: Seq<char>) -> Seq<char>
    decreases s.len(),
{
    if p.len() > 0 && starts_with(s, p) {
        strip_prefix_all(s.skip(p.len() as int), p)
    } else {
        s
    }
}

/// `s` with every occurrence of `from` replaced by `to` (`str::replace`).
pub open spec fn replace_all(s: Seq<char>, from: Seq<char>, to: Seq<char>) -> Seq<char>
    decreases s.len(),
{
    if from.len() == 0 {
        s
    } else {
        match find(s, from) {
            Some(k) => if k + from.len() <= s.len() && k >= 0 {
                s.take(k) + to + replace_all(s.skip(k + from.len()), from, to)
            } else {
                s
            },
            None => s,
        }
    }
}

/// The first line of `s` (`s.lines().next()`, or empty text).
pub open spec fn first_line(s: Seq<char>) -> Seq<char> {
    match find(s, seq!['\n']) {
        Some(k) => if ends_with(s.take(k), '\r') {
            s.take(k).drop_last()
        } else {
            s.take(k)
        },
        None => s,
    }
}

/// Checked facts about `find`.
pub fn find_checked(s: &Vec<char>, p: &Vec<char>) -> (r: Option<usize>)
    ensures
        r matches Some(k) ==> find(s@, p@) == Some(k as int) && k + p.len() <= s.len(),
        r is None ==> find(s@, p@) is None,
{
    let r = find_seq(s, p);
    proof {
        lemma_find_from_result(s@, p@, 0);
    }
    r
}

pub fn upto_chars(s: &Vec<char>, p: &Vec<char>) -> (r: Vec<char>)
    ensures
        r@ == upto(s@, p@),
{
    match find_checked(s, p) {
        Some(k) => slice_of(s, 0, k),
        None => s.clone(),
    }
}

pub fn split_second_chars(s: &Vec<char>, p: &Vec<char>) -> (r: Option<Vec<char>>)
    ensures
        r matches Some(v) ==> split_second(s@, p@) == Some(v@),
        r is None ==> split_second(s@, p@) is None,
{
    match find_checked(s, p) {
        Some(k) => {
            let rest = slice_of(s, k + p.len(), s.len());
            assert(rest@ == s@.skip(k + p.len()));
            Some(upto_chars(&rest, p))
        },
        None => None,
    }
}

pub fn split_piece_chars(s: &Vec<char>, p: &Vec<char>, i: usize) -> (r: Option<Vec<char>>)
    ensures
        r matches Some(v) ==> split_piece(s@, p@, i as nat) == Some(v@),
        r is None ==> split_piece(s@, p@, i as nat) is None,
    decreases i,
{
    if i == 0 {
        return Some(upto_chars(s, p));
    }
    match find_checked(s, p) {
        Some(k) => {
            let rest = slice_of(s, k + p.len(), s.len());
            assert(rest@ == s@.skip(k + p.len()));
            split_piece_chars(&rest, p, i - 1)
        },
        None => None,
    }
}

pub fn strip_prefix_all_chars(s: &Vec<char>, p: &str) -> (r: Vec<char>)
    ensures
        r@ == strip_prefix_all(s@, p@),
{
    let pv = chars_of(p);
    if pv.len() == 0 {
        return s.clone();
    }
    let mut cur = s.clone();
    while starts_with_str(&cur, p)
        invariant
            pv@ == p@,
            pv.len() > 0,
            strip_prefix_all(s@, p@) == strip_prefix_all(cur@, p@),
        decreases cur.len(),
    {
        cur = slice_of(&cur, pv.len(), cur.len());
    }
    cur
}

pub fn replace_all_chars(s: &Vec<char>, from: &Vec<char>, to: &Vec<char>) -> (r: Vec<char>)
    ensures
        r@ == replace_all(s@, from@, to@),
    decreases s.len(),
{
    if from.len() == 0 {
        return s.clone();
    }
    match find_checked(s, from) {
        Some(k) => {
            let mut out = slice_of(s, 0, k);
            push_all(&mut out, to);
            let rest = slice_of(s, k + from.len(), s.len());
            assert(rest@ == s@.skip(k + from.len()));
            let tail = replace_all_chars(&rest, from, to);
            push_all(&mut out, &tail);
            out
        },
        None => s.clone(),
    }
}

pub fn first_line_chars(s: &Vec<char>) -> (r: Vec<char>)
    ensures
        r@ == first_line(s@),
{
    let mut nl: Vec<char> = Vec::new();
    nl.push('\n');
    assert(nl@ == seq!['\n']);
    match find_checked(s, &nl) {
        Some(k) => {
            let line = slice_of(s, 0, k);
            assert(line@ == s@.take(k as int));
            if ends_with_char(&line, '\r') {
                slice_of(&line, 0, line.len() - 1)
            } else {
                line
            }
        },
        None => s.clone(),
    }
}

} // verus!
