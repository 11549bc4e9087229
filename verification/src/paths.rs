//! File-path text, read the way Windows paths are: `\` and `/` both separate
//! components, a leading `X:` is a drive prefix, trailing separators and `.`
//! components do not count, and `..` names no file.
use vstd::prelude::*;
use crate::text::{chars_of, lemma_rfind, push_str, rfind, rfind_char, slice_of, string_of};

verus! {

pub open spec fn is_sep(c: char) -> bool {
    c == '\\' || c == '/'
}

pub open spec fn is_ascii_alpha(c: char) -> bool {
    ('a' <= c <= 'z') || ('A' <= c <= 'Z')
}

/// The path with trailing separators and trailing `.` components removed.
pub open spec fn strip_tail(p: Seq<char>) -> Seq<char>
    decreases p.len(),
{
    if p.len() > 0 && is_sep(p.last()) {
        strip_tail(p.drop_last())
    } else if p.len() >= 2 && p.last() == '.' && is_sep(p[p.len() - 2]) {
        strip_tail(p.drop_last())
    } else {
        p
    }
}

/// Index of the last separator.
pub open spec fn last_sep(p: Seq<char>) -> Option<int>
    decreases p.len(),
{
    if p.len() == 0 {
        None
    } else if is_sep(p.last()) {
        Some(p.len() - 1)
    } else {
        last_sep(p.drop_last())
    }
}

/// The path starts with a drive prefix such as `C:`.
pub open spec fn has_drive(p: Seq<char>) -> bool {
    p.len() >= 2 && p[1] == ':' && is_ascii_alpha(p[0])
}

/// Text of the last component of a path whose tail has been stripped.
pub open spec fn last_segment(q: Seq<char>) -> Seq<char> {
    match last_sep(q) {
        Some(k) => q.skip(k + 1),
        None => if has_drive(q) {
            q.skip(2)
        } else {
            q
        },
    }
}

/// `Path::file_name`: the last component, when it names a file or folder.
pub open spec fn file_name(p: Seq<char>) -> Option<Seq<char>> {
    let seg = last_segment(strip_tail(p));
    if seg.len() == 0 || seg == seq!['.'] || seg == seq!['.', '.'] {
        None
    } else {
        Some(seg)
    }
}

/// `Path::parent` followed by `Path::file_name`: the name of the containing folder.
pub open spec fn folder_name(p: Seq<char>) -> Option<Seq<char>> {
    let q = strip_tail(p);
    match last_sep(q) {
        Some(k) => file_name(q.take(k)),
        None => None,
    }
}

/// The stem of a file name: the text before its last `.`, unless that `.` leads the name.
pub open spec fn stem_of(n: Seq<char>) -> Seq<char> {
    match rfind(n, '.') {
        Some(k) => if k > 0 {
            n.take(k)
        } else {
            n
        },
        None => n,
    }
}

/// The extension of a file name: the text after its last `.`, unless that `.` leads the name.
pub open spec fn ext_of(n: Seq<char>) -> Option<Seq<char>> {
    match rfind(n, '.') {
        Some(k) => if k > 0 {
            Some(n.skip(k + 1))
        } else {
            None
        },
        None => None,
    }
}

/// `Path::file_stem`.
pub open spec fn file_stem(p: Seq<char>) -> Option<Seq<char>> {
    match file_name(p) {
        Some(n) => Some(stem_of(n)),
        None => None,
    }
}

/// `Path::extension`.
pub open spec fn extension(p: Seq<char>) -> Option<Seq<char>> {
    match file_name(p) {
        Some(n) => ext_of(n),
        None => None,
    }
}

/// `base` joined with the relative name `name`: one separator between them.
pub open spec fn join(base: Seq<char>, name: Seq<char>) -> Seq<char> {
    if base.len() == 0 || is_sep(base.last()) {
        base + name
    } else {
        base.push('\\') + name
    }
}

pub fn is_separator(c: char) -> (b: bool)
    ensures
        b == is_sep(c),
{
    c == '\\' || c == '/'
}

/// Length of `strip_tail(p)`, which is always a prefix of `p`.
pub fn strip_tail_len(p: &Vec<char>) -> (n: usize)
    ensures
        n <= p.len(),
        strip_tail(p@) == p@.take(n as int),
{
    let mut n = p.len();
    assert(p@.take(n as int) == p@);
    loop
        invariant
            n <= p.len(),
            strip_tail(p@) == strip_tail(p@.take(n as int)),
        decreases n,
    {
        let ghost q = p@.take(n as int);
        if n > 0 && is_separator(p[n - 1]) {
            assert(q.drop_last() == p@.take(n - 1));
            n -= 1;
        } else if n >= 2 && p[n - 1] == '.' && is_separator(p[n - 2]) {
            assert(q.drop_last() == p@.take(n - 1));
            n -= 1;
        } else {
            return n;
        }
    }
}

/// Index of the last separator among the first `n` characters.
pub fn last_sep_in(p: &Vec<char>, n: usize) -> (r: Option<usize>)
    requires
        n <= p.len(),
    ensures
        r matches Some(k) ==> last_sep(p@.take(n as int)) == Some(k as int) && k < n,
        r is None ==> last_sep(p@.take(n as int)) is None,
{
    let mut i = n;
    while i > 0
        invariant
            i <= n <= p.len(),
            last_sep(p@.take(n as int)) == last_sep(p@.take(i as int)),
        decreases i,
    {
        if is_separator(p[i - 1]) {
            return Some(i - 1);
        }
        assert(p@.take(i as int).drop_last() == p@.take(i - 1));
        i -= 1;
    }
    None
}

fn is_alpha(c: char) -> (b: bool)
    ensures
        b == is_ascii_alpha(c),
{
    ('a' <= c && c <= 'z') || ('A' <= c && c <= 'Z')
}

/// `file_name` of the first `n` characters of `p`, where `p[..n]` has no trailing separator or `.` component.
fn name_of_prefix(p: &Vec<char>, n: usize) -> (r: Option<Vec<char>>)
    requires
        n <= p.len(),
        strip_tail(p@.take(n as int)) == p@.take(n as int),
    ensures
        r matches Some(v) ==> file_name(p@.take(n as int)) == Some(v@),
        r is None ==> file_name(p@.take(n as int)) is None,
{
    let ghost q = p@.take(n as int);
    let start = match last_sep_in(p, n) {
        Some(k) => k + 1,
        None => if n >= 2 && p[1] == ':' && is_alpha(p[0]) {
            2
        } else {
            0
        },
    };
    let seg = slice_of(p, start, n);
    assert(seg@ == last_segment(q));
    if seg.len() == 0 || (seg.len() == 1 && seg[0] == '.') || (seg.len() == 2 && seg[0] == '.'
        && seg[1] == '.') {
        if seg.len() == 1 {
            assert(seg@ =~= seq!['.']);
        } else if seg.len() == 2 {
            assert(seg@ =~= seq!['.', '.']);
        }
        None
    } else {
        assert(seg@ != seq!['.']);
        assert(seg@ != seq!['.', '.']);
        Some(seg)
    }
}

pub proof fn lemma_strip_tail_idem(p: Seq<char>)
    ensures
        strip_tail(strip_tail(p)) == strip_tail(p),
    decreases p.len(),
{
    if p.len() > 0 && is_sep(p.last()) {
        lemma_strip_tail_idem(p.drop_last());
    } else if p.len() >= 2 && p.last() == '.' && is_sep(p[p.len() - 2]) {
        lemma_strip_tail_idem(p.drop_last());
    }
}

/// `Path::file_name`.
pub fn file_name_of(p: &Vec<char>) -> (r: Option<Vec<char>>)
    ensures
        r matches Some(v) ==> file_name(p@) == Some(v@),
        r is None ==> file_name(p@) is None,
{
    let n = strip_tail_len(p);
    proof {
        lemma_strip_tail_idem(p@);
    }
    name_of_prefix(p, n)
}

/// `Path::parent` then `Path::file_name`: the containing folder's name.
pub fn folder_name_of(p: &Vec<char>) -> (r: Option<Vec<char>>)
    ensures
        r matches Some(v) ==> folder_name(p@) == Some(v@),
        r is None ==> folder_name(p@) is None,
{
    let n = strip_tail_len(p);
    let ghost q = p@.take(n as int);
    match last_sep_in(p, n) {
        Some(k) => {
            assert(q.take(k as int) == p@.take(k as int));
            let pre = slice_of(p, 0, k);
            assert(pre@ == p@.take(k as int));
            let m = strip_tail_len(&pre);
            proof {
                lemma_strip_tail_idem(pre@);
            }
            name_of_prefix(&pre, m)
        },
        None => None,
    }
}

/// The stem of a file name.
pub fn stem_of_name(n: &Vec<char>) -> (r: Vec<char>)
    ensures
        r@ == stem_of(n@),
{
    match rfind_char(n, '.') {
        Some(k) => if k > 0 {
            slice_of(n, 0, k)
        } else {
            n.clone()
        },
        None => n.clone(),
    }
}

/// The extension of a file name.
pub fn ext_of_name(n: &Vec<char>) -> (r: Option<Vec<char>>)
    ensures
        r matches Some(v) ==> ext_of(n@) == Some(v@),
        r is None ==> ext_of(n@) is None,
{
    match rfind_char(n, '.') {
        Some(k) => if k > 0 {
            proof {
                lemma_rfind(n@, '.');
            }
            Some(slice_of(n, k + 1, n.len()))
        } else {
            None
        },
        None => None,
    }
}

/// `Path::file_stem`.
pub fn file_stem_of(p: &Vec<char>) -> (r: Option<Vec<char>>)
    ensures
        r matches Some(v) ==> file_stem(p@) == Some(v@),
        r is None ==> file_stem(p@) is None,
{
    match file_name_of(p) {
        Some(n) => Some(stem_of_name(&n)),
        None => None,
    }
}

/// `Path::extension`.
pub fn extension_of(p: &Vec<char>) -> (r: Option<Vec<char>>)
    ensures
        r matches Some(v) ==> extension(p@) == Some(v@),
        r is None ==> extension(p@) is None,
{
    match file_name_of(p) {
        Some(n) => ext_of_name(&n),
        None => None,
    }
}

/// `base` joined with `name`.
pub fn join_path(base: &str, name: &str) -> (r: String)
    ensures
        r@ == join(base@, name@),
{
    let mut v = chars_of(base);
    if v.len() > 0 && !is_separator(v[v.len() - 1]) {
        v.push('\\');
    }
    push_str(&mut v, name);
    string_of(&v)
}

} // verus!
