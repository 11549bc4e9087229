//! Library helpers: display names, sort keys, band/artist/album guesses from
//! file and folder names, and the no-repeat rule of random picks.
use vstd::prelude::*;
use crate::paths::{folder_name, folder_name_of};
use crate::text::{
    chars_of, contains_seq, ends_with, ends_with_char, find, find_seq, lemma_find_from_result, lemma_rfind,
    lowercase, lowercase_chars, push_all, push_str, rfind, rfind_char, seq_eq, slice_of,
    string_of, trim, trim_chars, trim_str,
};
use crate::util::{beautify_name, beautify_spec, stem, stem_spec};

verus! {

/// The containing folder's name, or `default` when there is none.
pub open spec fn folder_or(path: Seq<char>, default: Seq<char>) -> Seq<char> {
    match folder_name(path) {
        Some(f) => f,
        None => default,
    }
}

/// `" - "`, the separator between artist and title in names.
pub open spec fn dash() -> Seq<char> {
    seq![' ', '-', ' ']
}

/// Index of the `(` that opens a trailing `(...)`, if the text ends with one.
pub open spec fn trailing_paren(s: Seq<char>) -> Option<int> {
    match rfind(s, '(') {
        Some(o) => if ends_with(s, ')') {
            Some(o)
        } else {
            None
        },
        None => None,
    }
}

/// The text inside a trailing `(...)` that opens at `o`.
pub open spec fn paren_inner(s: Seq<char>, o: int) -> Seq<char> {
    s.subrange(o + 1, s.len() - 1)
}

/// Row label from a path: `folder - beautified stem`.
pub open spec fn make_display_spec(path: Seq<char>) -> Seq<char> {
    folder_or(path, "?"@) + dash() + beautify_spec(stem_spec(path))
}

/// The now-playing label: `Folder > Song Name`.
pub open spec fn playing_display_spec(path: Seq<char>) -> Seq<char> {
    folder_or(path, "?"@) + seq![' ', '>', ' '] + beautify_spec(stem_spec(path))
}

/// Playlist row label from tags, falling back to the file name.
pub open spec fn playlist_display_spec(artist: Seq<char>, title: Seq<char>, path: Seq<char>) -> Seq<
    char,
> {
    let a = trim(artist);
    let t = trim(title);
    if t.len() > 0 {
        if a.len() > 0 {
            a + dash() + t
        } else {
            t
        }
    } else if a.len() > 0 {
        a + dash() + beautify_spec(stem_spec(path))
    } else {
        make_display_spec(path)
    }
}

/// The artist and title a sort key is made from (before lower-casing).
pub open spec fn sort_parts(path: Seq<char>) -> (Seq<char>, Seq<char>) {
    let s = stem_spec(path);
    match find(s, dash()) {
        Some(pos) => {
            let after = s.skip(pos + 3);
            let (title, artist) = match trailing_paren(after) {
                Some(o) => (after.take(o), trim(paren_inner(after, o))),
                None => (after, seq![]),
            };
            let artist = if artist.len() > 0 {
                artist
            } else {
                folder_or(path, seq![])
            };
            (artist, trim(title))
        },
        None => (folder_or(path, seq![]), s),
    }
}

/// `(artist, title)` in lower case: the order of songs within the library.
pub open spec fn song_sort_key_spec(path: Seq<char>) -> (Seq<char>, Seq<char>) {
    (lowercase(sort_parts(path).0), lowercase(sort_parts(path).1))
}

/// A song whose file stem holds no ` - ` is keyed by its folder and its
/// whole stem, lower-cased: nothing of the stem (a leading track number, say)
/// is dropped, so numbered tracks of one folder keep their order.
pub proof fn sort_key_of_plain_name(path: Seq<char>)
    requires
        find(stem_spec(path), dash()) is None,
    ensures
        song_sort_key_spec(path) == (lowercase(folder_or(path, seq![])), lowercase(stem_spec(path))),
{
}

/// Two songs of one folder whose stems hold no ` - ` share the artist part of
/// their keys, and differ only by their lower-cased stems.
pub proof fn plain_names_of_a_folder_sort_by_stem(p: Seq<char>, q: Seq<char>)
    requires
        find(stem_spec(p), dash()) is None,
        find(stem_spec(q), dash()) is None,
        folder_name(p) == folder_name(q),
    ensures
        song_sort_key_spec(p).0 == song_sort_key_spec(q).0,
        song_sort_key_spec(p).1 == lowercase(stem_spec(p)),
        song_sort_key_spec(q).1 == lowercase(stem_spec(q)),
{
}

/// The band a song belongs to, read from its folder name: the text in a
/// trailing `(...)`, else the text before ` - `, else the whole name.
pub open spec fn band_of_spec(path: Seq<char>) -> Seq<char> {
    let parent = folder_or(path, seq![]);
    if parent.len() == 0 {
        parent
    } else {
        let inner = match trailing_paren(parent) {
            Some(o) => trim(paren_inner(parent, o)),
            None => seq![],
        };
        if inner.len() > 0 {
            inner
        } else {
            match find(parent, dash()) {
                Some(pos) => trim(parent.take(pos)),
                None => parent,
            }
        }
    }
}

/// The band of a song read from its file name (`Title - Track (Artist)` or
/// `Artist - Title`), falling back to the folder.
pub open spec fn band_of_file_spec(path: Seq<char>) -> Seq<char> {
    let s = stem_spec(path);
    if s.len() == 0 {
        band_of_spec(path)
    } else {
        match find(s, dash()) {
            Some(pos) => {
                let after = s.skip(pos + 3);
                let artist = match trailing_paren(after) {
                    Some(o) => trim(paren_inner(after, o)),
                    None => seq![],
                };
                if artist.len() > 0 {
                    artist
                } else {
                    trim(s.take(pos))
                }
            },
            None => band_of_spec(path),
        }
    }
}

/// `(artist, album)` guessed from an `Artist - Album (remark)` folder name.
pub open spec fn folder_artist_album_spec(path: Seq<char>) -> Option<(Seq<char>, Seq<char>)> {
    match folder_name(path) {
        None => None,
        Some(parent) => {
            let name0 = trim(parent);
            if name0.len() == 0 {
                None
            } else {
                let name = match trailing_paren(name0) {
                    Some(o) => trim(name0.take(o)),
                    None => name0,
                };
                match find(name, dash()) {
                    Some(pos) => {
                        let artist = trim(name.take(pos));
                        if artist.len() > 0 {
                            Some((artist, trim(name.skip(pos + 3))))
                        } else {
                            Some((name, seq![]))
                        }
                    },
                    None => Some((name, seq![])),
                }
            }
        },
    }
}

pub open spec fn is_track_head_char(c: char) -> bool {
    ('0' <= c <= '9') || c == '.'
}

/// A title of the form `07 - Name` without its track number; `None` when the
/// text before the first ` - ` is not made of digits and dots.
pub open spec fn strip_track_no_spec(title: Seq<char>) -> Option<Seq<char>> {
    match find(title, dash()) {
        Some(sep) => {
            let head = trim(title.take(sep));
            if head.len() > 0 && (forall|i: int|
                0 <= i < head.len() ==> is_track_head_char(#[trigger] head[i])) {
                Some(trim(title.skip(sep + 3)))
            } else {
                None
            }
        },
        None => None,
    }
}

fn dash_chars() -> (r: Vec<char>)
    ensures
        r@ == dash(),
{
    let mut r: Vec<char> = Vec::new();
    r.push(' ');
    r.push('-');
    r.push(' ');
    r
}

fn folder_or_exec(p: &Vec<char>, default: &str) -> (r: Vec<char>)
    ensures
        r@ == folder_or(p@, default@),
{
    match folder_name_of(p) {
        Some(f) => f,
        None => chars_of(default),
    }
}

fn folder_or_empty(p: &Vec<char>) -> (r: Vec<char>)
    ensures
        r@ == folder_or(p@, seq![]),
{
    match folder_name_of(p) {
        Some(f) => f,
        None => Vec::new(),
    }
}

fn trailing_paren_exec(s: &Vec<char>) -> (r: Option<usize>)
    ensures
        r matches Some(o) ==> trailing_paren(s@) == Some(o as int) && o + 1 < s.len(),
        r is None ==> trailing_paren(s@) is None,
{
    match rfind_char(s, '(') {
        Some(o) => if ends_with_char(s, ')') {
            proof {
                lemma_rfind(s@, '(');
            }
            Some(o)
        } else {
            None
        },
        None => None,
    }
}

fn find_dash(s: &Vec<char>) -> (r: Option<usize>)
    ensures
        r matches Some(k) ==> find(s@, dash()) == Some(k as int) && k + 3 <= s.len(),
        r is None ==> find(s@, dash()) is None,
{
    let d = dash_chars();
    let r = find_seq(s, &d);
    proof {
        lemma_find_from_result(s@, dash(), 0);
    }
    r
}

pub fn make_display(path: &str) -> (r: String)
    ensures
        r@ == make_display_spec(path@),
{
    let p = chars_of(path);
    let mut out = folder_or_exec(&p, "?");
    let d = dash_chars();
    push_all(&mut out, &d);
    let st = stem(path);
    let b = beautify_name(st.as_str());
    push_str(&mut out, b.as_str());
    string_of(&out)
}

/// The now-playing label: the song's folder, `>`, and its tidied file name.
pub fn playing_display(path: &str) -> (r: String)
    ensures
        r@ == playing_display_spec(path@),
{
    let p = chars_of(path);
    let mut out = folder_or_exec(&p, "?");
    out.push(' ');
    out.push('>');
    out.push(' ');
    let st = stem(path);
    let b = beautify_name(st.as_str());
    push_str(&mut out, b.as_str());
    proof {
        assert(out@ =~= folder_or(path@, "?"@) + seq![' ', '>', ' '] + b@);
    }
    string_of(&out)
}

pub fn playlist_display(artist: &str, title: &str, path: &str) -> (r: String)
    ensures
        r@ == playlist_display_spec(artist@, title@, path@),
{
    let a = trim_str(artist);
    let t = trim_str(title);
    let d = dash_chars();
    if t.len() > 0 {
        if a.len() > 0 {
            let mut out = a;
            push_all(&mut out, &d);
            push_all(&mut out, &t);
            string_of(&out)
        } else {
            string_of(&t)
        }
    } else if a.len() > 0 {
        let mut out = a;
        push_all(&mut out, &d);
        let st = stem(path);
        let b = beautify_name(st.as_str());
        push_str(&mut out, b.as_str());
        string_of(&out)
    } else {
        make_display(path)
    }
}

fn sort_parts_exec(path: &str) -> (r: (Vec<char>, Vec<char>))
    ensures
        (r.0@, r.1@) == sort_parts(path@),
{
    let p = chars_of(path);
    let st = stem(path);
    let s = chars_of(st.as_str());
    match find_dash(&s) {
        Some(pos) => {
            let after = slice_of(&s, pos + 3, s.len());
            assert(after@ == s@.skip(pos + 3));
            let (title, artist) = match trailing_paren_exec(&after) {
                Some(o) => {
                    let inner = slice_of(&after, o + 1, after.len() - 1);
                    (slice_of(&after, 0, o), trim_chars(&inner))
                },
                None => (after.clone(), Vec::new()),
            };
            let artist = if artist.len() > 0 {
                artist
            } else {
                folder_or_empty(&p)
            };
            (artist, trim_chars(&title))
        },
        None => (folder_or_empty(&p), s),
    }
}

pub fn song_sort_key(path: &str) -> (r: (String, String))
    ensures
        r.0@ == song_sort_key_spec(path@).0,
        r.1@ == song_sort_key_spec(path@).1,
        find(stem_spec(path@), dash()) is None ==> r.0@ == lowercase(folder_or(path@, seq![]))
            && r.1@ == lowercase(stem_spec(path@)),
{
    let (a, t) = sort_parts_exec(path);
    let la = lowercase_chars(&a);
    let lt = lowercase_chars(&t);
    (string_of(&la), string_of(&lt))
}

pub fn band_of(path: &str) -> (r: String)
    ensures
        r@ == band_of_spec(path@),
{
    let p = chars_of(path);
    let parent = folder_or_empty(&p);
    if parent.len() == 0 {
        return string_of(&parent);
    }
    if let Some(o) = trailing_paren_exec(&parent) {
        let inner = slice_of(&parent, o + 1, parent.len() - 1);
        let inner = trim_chars(&inner);
        if inner.len() > 0 {
            return string_of(&inner);
        }
    }
    match find_dash(&parent) {
        Some(pos) => {
            let head = slice_of(&parent, 0, pos);
            let h = trim_chars(&head);
            string_of(&h)
        },
        None => string_of(&parent),
    }
}

pub fn band_of_file(path: &str) -> (r: String)
    ensures
        r@ == band_of_file_spec(path@),
{
    let st = stem(path);
    let s = chars_of(st.as_str());
    if s.len() == 0 {
        return band_of(path);
    }
    match find_dash(&s) {
        Some(pos) => {
            let after = slice_of(&s, pos + 3, s.len());
            assert(after@ == s@.skip(pos + 3));
            if let Some(o) = trailing_paren_exec(&after) {
                let inner = slice_of(&after, o + 1, after.len() - 1);
                let artist = trim_chars(&inner);
                if artist.len() > 0 {
                    return string_of(&artist);
                }
            }
            let head = slice_of(&s, 0, pos);
            let h = trim_chars(&head);
            string_of(&h)
        },
        None => band_of(path),
    }
}

pub fn folder_artist_album(path: &str) -> (r: Option<(String, String)>)
    ensures
        r matches Some(v) ==> folder_artist_album_spec(path@) == Some((v.0@, v.1@)),
        r is None ==> folder_artist_album_spec(path@) is None,
{
    let p = chars_of(path);
    let parent = match folder_name_of(&p) {
        Some(f) => f,
        None => return None,
    };
    let name0 = trim_chars(&parent);
    if name0.len() == 0 {
        return None;
    }
    let name = match trailing_paren_exec(&name0) {
        Some(o) => {
            let head = slice_of(&name0, 0, o);
            trim_chars(&head)
        },
        None => name0,
    };
    match find_dash(&name) {
        Some(pos) => {
            let head = slice_of(&name, 0, pos);
            let artist = trim_chars(&head);
            if artist.len() > 0 {
                let rest = slice_of(&name, pos + 3, name.len());
                assert(rest@ == name@.skip(pos + 3));
                let album = trim_chars(&rest);
                return Some((string_of(&artist), string_of(&album)));
            }
            Some((string_of(&name), String::new()))
        },
        None => Some((string_of(&name), String::new())),
    }
}

pub fn strip_track_no(title: &str) -> (r: Option<String>)
    ensures
        r matches Some(v) ==> strip_track_no_spec(title@) == Some(v@),
        r is None ==> strip_track_no_spec(title@) is None,
{
    let t = chars_of(title);
    match find_dash(&t) {
        Some(sep) => {
            let h0 = slice_of(&t, 0, sep);
            assert(h0@ == t@.take(sep as int));
            let head = trim_chars(&h0);
            if head.len() == 0 {
                return None;
            }
            let mut i: usize = 0;
            while i < head.len()
                invariant
                    i <= head.len(),
                    head@ == trim(title@.take(sep as int)),
                    find(title@, dash()) == Some(sep as int),
                    t@ == title@,
                    sep + 3 <= t.len(),
                    forall|k: int| 0 <= k < i ==> is_track_head_char(#[trigger] head@[k]),
                decreases head.len() - i,
            {
                let c = head[i];
                if !(('0' <= c && c <= '9') || c == '.') {
                    assert(!is_track_head_char(head@[i as int]));
                    return None;
                }
                i += 1;
            }
            let rest = slice_of(&t, sep + 3, t.len());
            assert(rest@ == t@.skip(sep + 3));
            let r = trim_chars(&rest);
            Some(string_of(&r))
        },
        None => None,
    }
}

/// The pick of a random step: the song `picked`, unless it is the song playing
/// and there are others, in which case the song after its first place in `pl`.
pub open spec fn avoid_repeat_spec(current: Option<Seq<char>>, pl: Seq<String>, picked: Seq<char>) -> Seq<char> {
    if pl.len() > 1 && current == Some(picked) {
        match first_index(pl, picked) {
            Some(i) => pl[(i + 1) % (pl.len() as int)]@,
            None => picked,
        }
    } else {
        picked
    }
}

/// First place of `s` in `pl`.
pub open spec fn first_index(pl: Seq<String>, s: Seq<char>) -> Option<int>
    decreases pl.len(),
{
    if pl.len() == 0 {
        None
    } else if pl[0]@ == s {
        Some(0)
    } else {
        match first_index(pl.drop_first(), s) {
            Some(i) => Some(i + 1),
            None => None,
        }
    }
}

pub proof fn lemma_first_index(pl: Seq<String>, s: Seq<char>)
    ensures
        first_index(pl, s) matches Some(i) ==> 0 <= i < pl.len() && pl[i]@ == s && forall|j: int|
            0 <= j < i ==> pl[j]@ != s,
        first_index(pl, s) is None ==> forall|j: int| 0 <= j < pl.len() ==> pl[j]@ != s,
    decreases pl.len(),
{
    if pl.len() > 0 && pl[0]@ != s {
        lemma_first_index(pl.drop_first(), s);
        assert forall|j: int| 1 <= j < pl.len() implies pl.drop_first()[j - 1] == pl[j] by {}
    }
}

/// First place of `s` in `pl`.
pub fn index_of(pl: &Vec<String>, s: &str) -> (r: Option<usize>)
    ensures
        r matches Some(i) ==> first_index(pl@, s@) == Some(i as int) && i < pl.len(),
        r is None ==> first_index(pl@, s@) is None,
{
    let sv = chars_of(s);
    let mut i: usize = 0;
    while i < pl.len()
        invariant
            i <= pl.len(),
            sv@ == s@,
            forall|j: int| 0 <= j < i ==> pl@[j]@ != s@,
        decreases pl.len() - i,
    {
        let e = chars_of(pl[i].as_str());
        if seq_eq(&e, &sv) {
            proof {
                lemma_first_index(pl@, s@);
            }
            return Some(i);
        }
        i += 1;
    }
    proof {
        lemma_first_index(pl@, s@);
    }
    None
}

/// Equality of two strings.
pub fn str_eq(a: &str, b: &str) -> (r: bool)
    ensures
        r == (a@ == b@),
{
    let av = chars_of(a);
    let bv = chars_of(b);
    seq_eq(&av, &bv)
}

/// Applies the no-repeat rule to a random pick.
pub fn avoid_repeat(current: Option<&str>, pl: &Vec<String>, picked: String) -> (r: String)
    ensures
        r@ == avoid_repeat_spec(
            match current {
                Some(c) => Some(c@),
                None => None,
            },
            pl@,
            picked@,
        ),
{
    if pl.len() > 1 {
        if let Some(c) = current {
            if str_eq(c, picked.as_str()) {
                if let Some(i) = index_of(pl, picked.as_str()) {
                    return pl[(i + 1) % pl.len()].clone();
                }
            }
        }
    }
    picked
}

/// With more than one song and no song listed twice, a random step never
/// repeats the song that is playing.
pub proof fn avoid_repeat_changes_song(current: Seq<char>, pl: Seq<String>, picked: Seq<char>)
    requires
        pl.len() > 1,
        forall|i: int, j: int| 0 <= i < j < pl.len() ==> pl[i]@ != pl[j]@,
        exists|i: int| 0 <= i < pl.len() && pl[i]@ == picked,
    ensures
        avoid_repeat_spec(Some(current), pl, picked) != current,
{
    lemma_first_index(pl, picked);
    if current == picked {
        let i = first_index(pl, picked)->0;
        let len = pl.len() as int;
        let n = (i + 1) % len;
        if i + 1 < len {
            assert(n == i + 1) by (nonlinear_arith)
                requires
                    n == (i + 1) % len,
                    0 <= i + 1 < len,
            ;
        } else {
            assert(n == 0) by (nonlinear_arith)
                requires
                    n == (i + 1) % len,
                    i + 1 == len,
                    len > 0,
            ;
        }
        assert(n != i);
        assert(pl[n]@ != pl[i]@);
    }
}

/// The tag value that stands for a missing artist or album.
pub open spec fn unknown() -> Seq<char> {
    seq!['U', 'n', 'k', 'n', 'o', 'w', 'n']
}

fn unknown_chars() -> (v: Vec<char>)
    ensures
        v@ == unknown(),
{
    let v = vec!['U', 'n', 'k', 'n', 'o', 'w', 'n'];
    assert(v@ =~= unknown());
    v
}

/// Artist and album with each `Unknown` one taken from the song's folder
/// name (`Artist - Album`), when the folder gives one.
pub open spec fn fill_unknown_spec(path: Seq<char>, artist: Seq<char>, album: Seq<char>) -> (
    Seq<char>,
    Seq<char>,
) {
    if artist == unknown() || album == unknown() {
        match folder_artist_album_spec(path) {
            Some((a, al)) => (
                if artist == unknown() {
                    a
                } else {
                    artist
                },
                if album == unknown() {
                    al
                } else {
                    album
                },
            ),
            None => (artist, album),
        }
    } else {
        (artist, album)
    }
}

/// The title, artist and album shown for a song from its tags: a missing
/// (empty) title is the file's stem, a missing artist or album `Unknown`.
pub open spec fn tag_fields_spec(path: Seq<char>, title: Seq<char>, artist: Seq<char>, album: Seq<char>) -> (
    Seq<char>,
    Seq<char>,
    Seq<char>,
) {
    (
        if title.len() == 0 { stem_spec(path) } else { title },
        if artist.len() == 0 { unknown() } else { artist },
        if album.len() == 0 { unknown() } else { album },
    )
}

pub fn tag_fields(path: &str, title: String, artist: String, album: String) -> (r: (String, String, String))
    ensures
        (r.0@, r.1@, r.2@) == tag_fields_spec(path@, title@, artist@, album@),
{
    let t = if title.as_str().is_empty() { stem(path) } else { title };
    let a = if artist.as_str().is_empty() { string_of(&unknown_chars()) } else { artist };
    let al = if album.as_str().is_empty() { string_of(&unknown_chars()) } else { album };
    (t, a, al)
}

/// Fills an `Unknown` artist or album from the song's folder name.
pub fn fill_unknown(path: &str, artist: String, album: String) -> (r: (String, String))
    ensures
        (r.0@, r.1@) == fill_unknown_spec(path@, artist@, album@),
{
    let u = unknown_chars();
    let art_unknown = seq_eq(&chars_of(artist.as_str()), &u);
    let alb_unknown = seq_eq(&chars_of(album.as_str()), &u);
    if art_unknown || alb_unknown {
        match folder_artist_album(path) {
            Some((a, al)) => {
                let na = if art_unknown {
                    a
                } else {
                    artist
                };
                let nal = if alb_unknown {
                    al
                } else {
                    album
                };
                (na, nal)
            },
            None => (artist, album),
        }
    } else {
        (artist, album)
    }
}

/// Whether a web cover search has both an artist and an album to go by.
pub fn wants_web_art(artist: &str, album: &str) -> (r: bool)
    ensures
        r == (artist@ != unknown() && album@ != unknown()),
{
    let u = unknown_chars();
    !seq_eq(&chars_of(artist), &u) && !seq_eq(&chars_of(album), &u)
}

/// The name a playlist row shows: the name made from the song's tags when
/// they were read, else one made from the cached `(artist, title)`, else one
/// made from the path.
pub open spec fn row_name_spec(
    path: Seq<char>,
    tag_name: Option<Seq<char>>,
    cached: Option<(Seq<char>, Seq<char>)>,
) -> Seq<char> {
    match tag_name {
        Some(n) => n,
        None => match cached {
            Some((a, t)) => playlist_display_spec(a, t, path),
            None => make_display_spec(path),
        },
    }
}

pub fn row_name(path: &str, tag_name: Option<&str>, cached: Option<(&str, &str)>) -> (r: String)
    ensures
        r@ == row_name_spec(
            path@,
            match tag_name {
                Some(n) => Some(n@),
                None => None,
            },
            match cached {
                Some((a, t)) => Some((a@, t@)),
                None => None,
            },
        ),
{
    match tag_name {
        Some(n) => n.to_string(),
        None => match cached {
            Some((a, t)) => playlist_display(a, t, path),
            None => make_display(path),
        },
    }
}

/// The `(artist, title)` to look a song's lyrics up by: the title without a
/// leading track number; when the artist is empty or `Unknown`, the artist
/// its folder names, else the part of the title before ` - ` (the title then
/// being the part after), when both parts are non-empty.
pub open spec fn lyrics_query_spec(path: Seq<char>, artist: Seq<char>, title: Seq<char>) -> (Seq<char>, Seq<char>) {
    let t = match strip_track_no_spec(title) {
        Some(s) => s,
        None => title,
    };
    if artist.len() == 0 || artist == unknown() {
        match folder_artist_album_spec(path) {
            Some(fa) => (fa.0, t),
            None => match find(t, dash()) {
                Some(i) => {
                    let a = trim(t.take(i));
                    let rest = trim(t.skip(i + 3));
                    if a.len() > 0 && rest.len() > 0 {
                        (a, rest)
                    } else {
                        (artist, t)
                    }
                },
                None => (artist, t),
            },
        }
    } else {
        (artist, t)
    }
}

/// With no artist tag (empty or `Unknown`), lyrics are looked up under the
/// artist the song's folder names, whether or not the folder also names an
/// album.
pub proof fn lyrics_artist_from_folder(path: Seq<char>, artist: Seq<char>, title: Seq<char>)
    requires
        artist.len() == 0 || artist == unknown(),
        folder_artist_album_spec(path) is Some,
    ensures
        lyrics_query_spec(path, artist, title).0 == (folder_artist_album_spec(path)->0).0,
{
}

/// A plain folder name (no ` - `, no trailing `(...)`, no surrounding
/// whitespace) is the artist itself: a song in `...\Queen\` with no artist
/// tag is looked up under `Queen`.
pub proof fn plain_folder_is_the_lyrics_artist(path: Seq<char>, f: Seq<char>, artist: Seq<char>, title: Seq<char>)
    requires
        artist.len() == 0 || artist == unknown(),
        folder_name(path) == Some(f),
        f.len() > 0,
        !crate::text::is_ws(f[0]),
        !crate::text::is_ws(f.last()),
        f.last() != ')',
        find(f, dash()) is None,
    ensures
        folder_artist_album_spec(path) == Some((f, Seq::<char>::empty())),
        lyrics_query_spec(path, artist, title).0 == f,
{
    assert(crate::text::trim_start(f) == f);
    assert(crate::text::trim_end(f) == f);
    assert(trim(f) == f);
    assert(trailing_paren(f) is None);
}

pub fn lyrics_query(path: &str, artist: &str, title: &str) -> (r: (String, String))
    ensures
        (r.0@, r.1@) == lyrics_query_spec(path@, artist@, title@),
        (artist@.len() == 0 || artist@ == unknown()) ==> (folder_artist_album_spec(path@) matches Some(
            fa,
        ) ==> r.0@ == fa.0),
        !(artist@.len() == 0 || artist@ == unknown()) ==> r.0@ == artist@,
{
    let t = match strip_track_no(title) {
        Some(s) => s,
        None => title.to_string(),
    };
    let av = chars_of(artist);
    let u = unknown_chars();
    if av.len() == 0 || seq_eq(&av, &u) {
        match folder_artist_album(path) {
            Some((a, _)) => (a, t),
            None => {
                let tv = chars_of(t.as_str());
                match find_dash(&tv) {
                    Some(i) => {
                        let head = slice_of(&tv, 0, i);
                        let a = trim_chars(&head);
                        let tail = slice_of(&tv, i + 3, tv.len());
                        assert(tail@ == tv@.skip(i + 3));
                        let rest = trim_chars(&tail);
                        if a.len() > 0 && rest.len() > 0 {
                            (string_of(&a), string_of(&rest))
                        } else {
                            (artist.to_string(), t)
                        }
                    },
                    None => (artist.to_string(), t),
                }
            },
        }
    } else {
        (artist.to_string(), t)
    }
}

/// Whether a playlist row shows under a search: the query, lower-cased, is
/// empty or occurs in the row's name or path, lower-cased.
pub open spec fn row_matches(name: Seq<char>, path: Seq<char>, query: Seq<char>) -> bool {
    let q = lowercase(query);
    q.len() == 0 || contains_seq(lowercase(name), q) || contains_seq(lowercase(path), q)
}

/// The places of the rows that show under a search, in playlist order:
/// `names[i]` is the name row `i` shows and `paths[i]` its song.
pub fn search_rows(names: &Vec<String>, paths: &Vec<String>, query: &str) -> (r: Vec<usize>)
    requires
        names.len() == paths.len(),
    ensures
        forall|k: int|
            0 <= k < r.len() ==> r[k] < names.len() && row_matches(
                names@[r[k] as int]@,
                paths@[r[k] as int]@,
                query@,
            ),
        forall|k1: int, k2: int| 0 <= k1 < k2 < r.len() ==> r[k1] < r[k2],
        forall|i: int|
            0 <= i < names.len() && row_matches(names@[i]@, paths@[i]@, query@) ==> r@.contains(
                i as usize,
            ),
{
    let qv = chars_of(query);
    let q = lowercase_chars(&qv);
    let mut r: Vec<usize> = Vec::new();
    let mut i: usize = 0;
    while i < names.len()
        invariant
            i <= names.len(),
            names.len() == paths.len(),
            q@ == lowercase(query@),
            forall|k: int|
                0 <= k < r.len() ==> r[k] < i && row_matches(
                    names@[r[k] as int]@,
                    paths@[r[k] as int]@,
                    query@,
                ),
            forall|k1: int, k2: int| 0 <= k1 < k2 < r.len() ==> r[k1] < r[k2],
            forall|j: int|
                0 <= j < i && row_matches(names@[j]@, paths@[j]@, query@) ==> r@.contains(
                    j as usize,
                ),
        decreases names.len() - i,
    {
        let shows = if q.len() == 0 {
            true
        } else {
            let nv = chars_of(names[i].as_str());
            let pv = chars_of(paths[i].as_str());
            let nl = lowercase_chars(&nv);
            let pl = lowercase_chars(&pv);
            find_seq(&nl, &q).is_some() || find_seq(&pl, &q).is_some()
        };
        let ghost before = r@;
        if shows {
            r.push(i);
            proof {
                assert(r@[r.len() - 1] == i);
                assert forall|j: int|
                    0 <= j < i && row_matches(names@[j]@, paths@[j]@, query@) implies r@.contains(
                    j as usize,
                ) by {
                    let k = choose|k: int| 0 <= k < before.len() && before[k] == j as usize;
                    assert(r@[k] == j as usize);
                }
            }
        } else {
            proof {
                assert(!row_matches(names@[i as int]@, paths@[i as int]@, query@));
            }
        }
        i += 1;
    }
    r
}

} // verus!
