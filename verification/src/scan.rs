//! What the folder and drive scans keep: the audio files of a folder walk,
//! the drive letters present, the Music folder with the most songs, the
//! cover pictures next to a song, and which files need ffmpeg to decode.
use vstd::prelude::*;
use crate::order::{sort_paths, sort_paths_spec};
use crate::paths::{extension, extension_of};
use crate::text::{all_ascii, ascii_lower, ascii_lower_char, chars_of, eq_str, lowercase, lowercase_chars, seq_eq};
use crate::util::{is_audio, is_audio_spec};
use crate::video::views;

verus! {

/// The entries of a folder walk that are audio files, in walk order.
pub open spec fn audio_only(paths: Seq<Seq<char>>) -> Seq<Seq<char>>
    decreases paths.len(),
{
    if paths.len() == 0 {
        seq![]
    } else {
        let pre = audio_only(paths.drop_last());
        if is_audio_spec(paths.last()) {
            pre.push(paths.last())
        } else {
            pre
        }
    }
}

/// Keeps the audio files of a folder walk.
pub fn keep_audio(paths: &Vec<String>) -> (r: Vec<String>)
    ensures
        views(r@) == audio_only(views(paths@)),
{
    let mut r: Vec<String> = Vec::new();
    let mut i: usize = 0;
    while i < paths.len()
        invariant
            i <= paths.len(),
            views(r@) == audio_only(views(paths@).take(i as int)),
        decreases paths.len() - i,
    {
        assert(views(paths@).take(i + 1).drop_last() =~= views(paths@).take(i as int));
        assert(views(paths@).take(i + 1).last() == paths@[i as int]@);
        if is_audio(paths[i].as_str()) {
            let ghost before = views(r@);
            r.push(paths[i].clone());
            assert(views(r@) =~= before.push(paths@[i as int]@));
        }
        i += 1;
    }
    assert(views(paths@).take(paths.len() as int) =~= views(paths@));
    r
}

/// The audio files of a folder walk in text order (what the folder scan
/// lists).
pub fn collect_audio(paths: &Vec<String>) -> (r: Vec<String>)
    ensures
        views(r@) == sort_paths_spec(audio_only(views(paths@))),
{
    let mut r = keep_audio(paths);
    sort_paths(&mut r);
    r
}

/// Drive `b` (0 for `A`) is present in the logical-drive bit mask.
pub open spec fn drive_present(mask: u32, b: u32) -> bool {
    (mask >> b) & 1u32 == 1u32
}

/// The root `X:\` of drive `b`.
pub open spec fn drive_root(b: u32) -> Seq<char> {
    seq![(('A' as u32) + b) as char, ':', '\\']
}

/// The roots of the drives among the first `n` present in the mask.
pub open spec fn drive_roots_spec(mask: u32, n: u32) -> Seq<Seq<char>>
    decreases n,
{
    if n == 0 {
        seq![]
    } else {
        let pre = drive_roots_spec(mask, (n - 1) as u32);
        if drive_present(mask, (n - 1) as u32) {
            pre.push(drive_root((n - 1) as u32))
        } else {
            pre
        }
    }
}

/// The roots `A:\` to `Z:\` of the drives present in the logical-drive mask.
pub fn drive_roots(mask: u32) -> (r: Vec<String>)
    ensures
        views(r@) == drive_roots_spec(mask, 26),
{
    let mut r: Vec<String> = Vec::new();
    let mut bit: u32 = 0;
    while bit < 26
        invariant
            bit <= 26,
            views(r@) == drive_roots_spec(mask, bit),
        decreases 26 - bit,
    {
        let present = mask & (1u32 << bit) != 0;
        assert(present == drive_present(mask, bit)) by (bit_vector)
            requires
                bit < 26,
                present == (mask & (1u32 << bit) != 0),
        ;
        if present {
            let letter = ((65u32 + bit) as u8) as char;
            let mut v: Vec<char> = Vec::new();
            v.push(letter);
            v.push(':');
            v.push('\\');
            let ghost before = views(r@);
            let s = crate::text::string_of(&v);
            assert(s@ =~= drive_root(bit));
            r.push(s);
            assert(views(r@) =~= before.push(drive_root(bit)));
        }
        bit += 1;
    }
    r
}

/// The best of the candidate Music folders so far, with its song count: the
/// first one with songs that no later one has more songs than.
pub open spec fn best_folder_spec(cands: Seq<(Seq<char>, usize)>) -> Option<(Seq<char>, usize)>
    decreases cands.len(),
{
    if cands.len() == 0 {
        None
    } else {
        let pre = best_folder_spec(cands.drop_last());
        let c = cands.last();
        if c.1 == 0 {
            pre
        } else {
            match pre {
                Some((p, n)) => if c.1 > n {
                    Some((c.0, c.1))
                } else {
                    Some((p, n))
                },
                None => Some((c.0, c.1)),
            }
        }
    }
}

/// What the best folder is, said directly: there is one exactly when some
/// candidate holds songs, and then it is the earliest candidate whose count
/// no candidate exceeds.
pub proof fn best_folder_is_the_fullest(cands: Seq<(Seq<char>, usize)>)
    ensures
        best_folder_spec(cands) is None <==> forall|i: int| 0 <= i < cands.len() ==> cands[i].1 == 0,
        best_folder_spec(cands) matches Some((p, n)) ==> n > 0 && exists|k: int|
            0 <= k < cands.len() && cands[k].0 == p && cands[k].1 == n
                && (forall|i: int| 0 <= i < cands.len() ==> cands[i].1 <= n)
                && (forall|i: int| 0 <= i < k ==> cands[i].1 < n),
    decreases cands.len(),
{
    if cands.len() > 0 {
        let pre = cands.drop_last();
        best_folder_is_the_fullest(pre);
        let last = cands.len() - 1;
        assert forall|i: int| 0 <= i < pre.len() implies pre[i] == cands[i] by {}
        match best_folder_spec(pre) {
            Some((p, n)) => {
                let k = choose|k: int|
                    0 <= k < pre.len() && pre[k].0 == p && pre[k].1 == n
                        && (forall|i: int| 0 <= i < pre.len() ==> pre[i].1 <= n)
                        && (forall|i: int| 0 <= i < k ==> pre[i].1 < n);
                if cands[last].1 > n {
                    assert(cands[last].0 == cands.last().0);
                } else {
                    assert(cands[k] == pre[k]);
                }
            },
            None => {
                if cands[last].1 != 0 {
                    assert(forall|i: int| 0 <= i < last ==> cands[i].1 == 0);
                }
            },
        }
    }
}

/// The folder to load music from: among `(path, songs)` candidates, the one
/// with the most songs, the earliest on a tie; none when no candidate holds
/// a song.
pub fn best_music_folder(cands: &Vec<(String, usize)>) -> (r: Option<String>)
    ensures
        ({
            let cv = cands@.map_values(|c: (String, usize)| (c.0@, c.1));
            match best_folder_spec(cv) {
                Some((p, _)) => r matches Some(s) && s@ == p,
                None => r is None,
            }
        }),
{
    let ghost cv = cands@.map_values(|c: (String, usize)| (c.0@, c.1));
    let mut best: Option<(usize, usize)> = None;
    let mut i: usize = 0;
    while i < cands.len()
        invariant
            i <= cands.len(),
            cv == cands@.map_values(|c: (String, usize)| (c.0@, c.1)),
            match best_folder_spec(cv.take(i as int)) {
                Some((p, n)) => best matches Some((k, bn)) && k < i && cands@[k as int].0@ == p
                    && bn == n,
                None => best is None,
            },
        decreases cands.len() - i,
    {
        assert(cv.take(i + 1).drop_last() =~= cv.take(i as int));
        assert(cv.take(i + 1).last() == cv[i as int]);
        let count = cands[i].1;
        if count > 0 {
            match best {
                Some((_, bn)) => {
                    if count > bn {
                        best = Some((i, count));
                    }
                },
                None => {
                    best = Some((i, count));
                },
            }
        }
        i += 1;
    }
    assert(cv.take(cands.len() as int) =~= cv);
    match best {
        Some((k, _)) => Some(cands[k].0.clone()),
        None => None,
    }
}

/// The picture files looked for first next to a song, in order.
pub open spec fn cover_names_spec() -> Seq<Seq<char>> {
    seq![
        "cover.jpg"@,
        "cover.png"@,
        "folder.jpg"@,
        "album.jpg"@,
        "front.jpg"@,
        "default.jpg"@,
    ]
}

pub fn cover_names() -> (r: Vec<&'static str>)
    ensures
        r@.map_values(|s: &str| s@) == cover_names_spec(),
{
    let r = vec!["cover.jpg", "cover.png", "folder.jpg", "album.jpg", "front.jpg", "default.jpg"];
    assert(r@.map_values(|s: &str| s@) =~= cover_names_spec());
    r
}

/// A picture extension (`jpg`, `jpeg`, `png`, any case).
pub open spec fn is_picture_spec(path: Seq<char>) -> bool {
    match extension(path) {
        Some(e) => {
            let l = lowercase(e);
            l == "jpg"@ || l == "jpeg"@ || l == "png"@
        },
        None => false,
    }
}

pub fn is_picture(path: &str) -> (r: bool)
    ensures
        r == is_picture_spec(path@),
        extension(path@) matches Some(e) ==> (all_ascii(e) ==> r == ({
            let l = ascii_lower(e);
            l == "jpg"@ || l == "jpeg"@ || l == "png"@
        })),
{
    let p = chars_of(path);
    match extension_of(&p) {
        Some(e) => {
            let l = lowercase_chars(&e);
            eq_str(&l, "jpg") || eq_str(&l, "jpeg") || eq_str(&l, "png")
        },
        None => false,
    }
}

/// The pictures of a folder listing.
pub open spec fn pictures_only(paths: Seq<Seq<char>>) -> Seq<Seq<char>>
    decreases paths.len(),
{
    if paths.len() == 0 {
        seq![]
    } else {
        let pre = pictures_only(paths.drop_last());
        if is_picture_spec(paths.last()) {
            pre.push(paths.last())
        } else {
            pre
        }
    }
}

/// The pictures of a song's folder listing, in text order: the covers
/// tried after the usual names.
pub fn cover_pictures(paths: &Vec<String>) -> (r: Vec<String>)
    ensures
        views(r@) == sort_paths_spec(pictures_only(views(paths@))),
{
    let mut r: Vec<String> = Vec::new();
    let mut i: usize = 0;
    while i < paths.len()
        invariant
            i <= paths.len(),
            views(r@) == pictures_only(views(paths@).take(i as int)),
        decreases paths.len() - i,
    {
        assert(views(paths@).take(i + 1).drop_last() =~= views(paths@).take(i as int));
        assert(views(paths@).take(i + 1).last() == paths@[i as int]@);
        if is_picture(paths[i].as_str()) {
            let ghost before = views(r@);
            r.push(paths[i].clone());
            assert(views(r@) =~= before.push(paths@[i as int]@));
        }
        i += 1;
    }
    assert(views(paths@).take(paths.len() as int) =~= views(paths@));
    sort_paths(&mut r);
    r
}

fn ascii_lower_chars(v: &Vec<char>) -> (r: Vec<char>)
    ensures
        r@ == ascii_lower(v@),
{
    let mut r: Vec<char> = Vec::new();
    let mut i: usize = 0;
    while i < v.len()
        invariant
            i <= v.len(),
            r@ == ascii_lower(v@.take(i as int)),
        decreases v.len() - i,
    {
        let c = v[i];
        let l = if 'A' <= c && c <= 'Z' {
            ((c as u32) + 32) as u8 as char
        } else {
            c
        };
        assert(l == ascii_lower_char(c));
        r.push(l);
        i += 1;
        assert(r@ =~= ascii_lower(v@.take(i as int)));
    }
    assert(v@.take(v.len() as int) =~= v@);
    r
}

/// MPEG-4 audio (`m4a`, `m4b`, `m4p`, any ASCII case) that has no cached
/// conversion goes to ffmpeg instead of the decoder.
pub open spec fn needs_ffmpeg_spec(src: Seq<char>, audio: Seq<char>) -> bool {
    src == audio && match extension(src) {
        Some(e) => {
            let l = ascii_lower(e);
            l == "m4a"@ || l == "m4b"@ || l == "m4p"@
        },
        None => false,
    }
}

/// Whether the file to decode (`src`, the cached conversion of `audio` when
/// there is one) must first be converted with ffmpeg.
pub fn needs_ffmpeg(src: &str, audio: &str) -> (r: bool)
    ensures
        r == needs_ffmpeg_spec(src@, audio@),
{
    let s = chars_of(src);
    let a = chars_of(audio);
    if !seq_eq(&s, &a) {
        return false;
    }
    match extension_of(&s) {
        Some(e) => {
            let l = ascii_lower_chars(&e);
            eq_str(&l, "m4a") || eq_str(&l, "m4b") || eq_str(&l, "m4p")
        },
        None => false,
    }
}

} // verus!
