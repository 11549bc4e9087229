//! yt-dlp: reading its progress and metadata output, choosing what to ask it
//! for, and naming the downloaded file in the music folder.
use vstd::prelude::*;
use crate::text::{
    chars_of, contains_seq, dec, dec_chars, dec_pad, dec_pad_chars, eq_str, find, first_line,
    first_line_chars, lowercase, lowercase_chars, push_all, push_str, seq_eq, split_piece,
    split_piece_chars, split_second, split_second_chars, starts_with, starts_with_str,
    strip_prefix_all, strip_prefix_all_chars, string_of, trim, trim_chars, trim_str, upto,
    upto_chars, contains_str,
};
use crate::util::{sanitize_win, sanitize_win_spec};
use crate::video::views;

verus! {

/// The three parts of a `[download]  42.0% of 3MiB at 1MiB/s ETA 00:02` line:
/// the percentage text, the speed and the ETA.
pub open spec fn yt_progress_spec(s: Seq<char>) -> Option<(Seq<char>, Seq<char>, Seq<char>)> {
    let t = trim(s);
    if !starts_with(t, "[download]"@) || !contains_seq(t, seq!['%']) {
        None
    } else {
        let rest = trim(strip_prefix_all(t, "[download]"@));
        let pct = trim(upto(rest, seq!['%']));
        let speed = match split_second(rest, " at "@) {
            Some(x) => trim(upto(x, " ETA"@)),
            None => seq![],
        };
        let eta = match split_second(rest, " ETA "@) {
            Some(x) => trim(x),
            None => seq![],
        };
        Some((pct, speed, eta))
    }
}

/// Splits a yt-dlp progress line into percentage text, speed and ETA.
pub fn split_yt_progress(s: &str) -> (r: Option<(String, String, String)>)
    ensures
        r matches Some(v) ==> yt_progress_spec(s@) == Some((v.0@, v.1@, v.2@)),
        r is None ==> yt_progress_spec(s@) is None,
{
    let t = trim_str(s);
    let mut pc: Vec<char> = Vec::new();
    pc.push('%');
    assert(pc@ == seq!['%']);
    if !starts_with_str(&t, "[download]") || !crate::text::find_seq(&t, &pc).is_some() {
        return None;
    }
    let stripped = strip_prefix_all_chars(&t, "[download]");
    let rest = trim_chars(&stripped);
    let p0 = upto_chars(&rest, &pc);
    let pct = trim_chars(&p0);
    let at = chars_of(" at ");
    let eta_short = chars_of(" ETA");
    let eta_sep = chars_of(" ETA ");
    let speed = match split_second_chars(&rest, &at) {
        Some(x) => {
            let u = upto_chars(&x, &eta_short);
            trim_chars(&u)
        },
        None => Vec::new(),
    };
    let eta = match split_second_chars(&rest, &eta_sep) {
        Some(x) => trim_chars(&x),
        None => Vec::new(),
    };
    Some((string_of(&pct), string_of(&speed), string_of(&eta)))
}

/// Lines of yt-dlp output worth showing in the download log.
pub open spec fn is_yt_log_line_spec(s: Seq<char>) -> bool {
    ||| contains_seq(s, "% of"@)
    ||| contains_seq(s, "[download]"@)
    ||| contains_seq(s, "[ExtractAudio]"@)
    ||| starts_with(s, "Destination:"@)
    ||| starts_with(s, "Deleting original"@)
    ||| starts_with(s, "[info]"@)
    ||| starts_with(s, "[ffmpeg]"@)
    ||| starts_with(s, "ERROR"@)
}

pub fn is_yt_log_line(s: &str) -> (b: bool)
    ensures
        b == is_yt_log_line_spec(s@),
{
    let v = chars_of(s);
    contains_str(&v, "% of") || contains_str(&v, "[download]") || contains_str(&v, "[ExtractAudio]")
        || starts_with_str(&v, "Destination:") || starts_with_str(&v, "Deleting original")
        || starts_with_str(&v, "[info]") || starts_with_str(&v, "[ffmpeg]") || starts_with_str(
        &v,
        "ERROR",
    )
}

/// Field `i` of a `|`-separated line, empty when missing.
pub open spec fn field(line: Seq<char>, i: nat) -> Seq<char> {
    match split_piece(line, seq!['|'], i) {
        Some(f) => f,
        None => seq![],
    }
}

/// `(id, title, artist, uploader, album)` from the first line that yt-dlp
/// printed; `None` when that line is empty.
pub open spec fn yt_lookup_spec(out: Seq<char>) -> Option<
    (Seq<char>, Seq<char>, Seq<char>, Seq<char>, Seq<char>),
> {
    let line = first_line(out);
    if line.len() == 0 {
        None
    } else {
        Some((field(line, 0), field(line, 1), field(line, 2), field(line, 3), field(line, 4)))
    }
}

fn field_chars(line: &Vec<char>, i: usize) -> (r: String)
    ensures
        r@ == field(line@, i as nat),
{
    let mut bar: Vec<char> = Vec::new();
    bar.push('|');
    assert(bar@ == seq!['|']);
    match split_piece_chars(line, &bar, i) {
        Some(f) => string_of(&f),
        None => String::new(),
    }
}

/// Reads the metadata line printed by `yt-dlp --print "%(id)s|%(title)s|..."`.
pub fn parse_yt_lookup(out: &str) -> (r: Option<(String, String, String, String, String)>)
    ensures
        r matches Some(v) ==> yt_lookup_spec(out@) == Some((v.0@, v.1@, v.2@, v.3@, v.4@)),
        r is None ==> yt_lookup_spec(out@) is None,
{
    let v = chars_of(out);
    let line = first_line_chars(&v);
    if line.len() == 0 {
        return None;
    }
    Some(
        (
            field_chars(&line, 0),
            field_chars(&line, 1),
            field_chars(&line, 2),
            field_chars(&line, 3),
            field_chars(&line, 4),
        ),
    )
}

/// What to hand yt-dlp for a query: a URL as it is, anything else as a search
/// for its best match; `None` for an empty query.
pub open spec fn yt_target_spec(query: Seq<char>) -> Option<Seq<char>> {
    let q = trim(query);
    if q.len() == 0 {
        None
    } else if starts_with(q, "http"@) {
        Some(q)
    } else {
        Some("ytsearch1:"@ + q)
    }
}

pub fn yt_search_target(query: &str) -> (r: Option<String>)
    ensures
        r matches Some(t) ==> yt_target_spec(query@) == Some(t@),
        r is None ==> yt_target_spec(query@) is None,
{
    let q = trim_str(query);
    if q.len() == 0 {
        return None;
    }
    if starts_with_str(&q, "http") {
        return Some(string_of(&q));
    }
    let mut t = chars_of("ytsearch1:");
    push_all(&mut t, &q);
    Some(string_of(&t))
}

/// The queue label of a query: the title yt-dlp found for it, or the query
/// itself when the lookup failed or found no title.
pub open spec fn resolved_title_spec(
    query: Seq<char>,
    looked_up: Option<(Seq<char>, Seq<char>, Seq<char>, Seq<char>, Seq<char>)>,
) -> Seq<char> {
    match looked_up {
        Some(info) => if info.1.len() > 0 {
            info.1
        } else {
            query
        },
        None => query,
    }
}

/// The label of a queued query once yt-dlp has been asked about
/// `yt_search_target(query)`: `looked_up` is its `(id, title, artist,
/// uploader, album)` reply, `None` when yt-dlp is missing, the query is blank
/// or the lookup failed.
pub fn yt_resolve_title(query: &str, looked_up: Option<(String, String, String, String, String)>) -> (r: String)
    ensures
        r@ == resolved_title_spec(
            query@,
            match looked_up {
                Some(v) => Some((v.0@, v.1@, v.2@, v.3@, v.4@)),
                None => None,
            },
        ),
{
    match looked_up {
        Some(info) => if !info.1.as_str().is_empty() {
            info.1
        } else {
            query.to_string()
        },
        None => query.to_string(),
    }
}

/// The artist to file a download under: the artist tag, else the uploader,
/// else `Unknown`.
pub open spec fn pick_artist_spec(artist: Seq<char>, uploader: Seq<char>) -> Seq<char> {
    let a = if artist.len() == 0 {
        uploader
    } else {
        artist
    };
    if a.len() == 0 {
        "Unknown"@
    } else {
        a
    }
}

pub fn pick_artist(artist: String, uploader: String) -> (r: String)
    ensures
        r@ == pick_artist_spec(artist@, uploader@),
{
    let a = if artist.as_str().is_empty() {
        uploader
    } else {
        artist
    };
    if a.as_str().is_empty() {
        "Unknown".to_string()
    } else {
        a
    }
}

/// The folder a download goes in: `Artist - Album`, with `Singles` for no album.
pub open spec fn album_folder_spec(artist: Seq<char>, album: Seq<char>) -> Seq<char> {
    let album_d = if trim(album).len() == 0 {
        "Singles"@
    } else {
        album
    };
    sanitize_win_spec(artist) + " - "@ + sanitize_win_spec(album_d)
}

pub fn album_folder_name(artist: &str, album: &str) -> (r: String)
    ensures
        r@ == album_folder_spec(artist@, album@),
{
    let t = trim_str(album);
    let a = sanitize_win(artist);
    let b = if t.len() == 0 {
        sanitize_win("Singles")
    } else {
        sanitize_win(album)
    };
    let mut v = chars_of(a.as_str());
    push_str(&mut v, " - ");
    push_str(&mut v, b.as_str());
    string_of(&v)
}

/// The first of `names` equal to `want` once both are lower-cased.
pub open spec fn folder_match_spec(names: Seq<String>, want: Seq<char>) -> Option<int>
    decreases names.len(),
{
    if names.len() == 0 {
        None
    } else if lowercase(names[0]@) == lowercase(want) {
        Some(0)
    } else {
        match folder_match_spec(names.drop_first(), want) {
            Some(i) => Some(i + 1),
            None => None,
        }
    }
}

/// Finds an existing folder (by name, ignoring case) among `names`.
pub fn matching_folder(names: &Vec<String>, want: &str) -> (r: Option<usize>)
    ensures
        r matches Some(i) ==> folder_match_spec(names@, want@) == Some(i as int) && i
            < names.len(),
        r is None ==> folder_match_spec(names@, want@) is None,
{
    let wv = chars_of(want);
    let wl = lowercase_chars(&wv);
    let mut i: usize = 0;
    assert(names@.skip(0) == names@);
    while i < names.len()
        invariant
            i <= names.len(),
            wl@ == lowercase(want@),
            folder_match_spec(names@, want@) == match folder_match_spec(
                names@.skip(i as int),
                want@,
            ) {
                Some(j) => Some(j + i),
                None => None,
            },
        decreases names.len() - i,
    {
        let nv = chars_of(names[i].as_str());
        let nl = lowercase_chars(&nv);
        assert(names@.skip(i as int)[0] == names@[i as int]);
        assert(names@.skip(i as int).drop_first() == names@.skip(i + 1));
        if seq_eq(&nl, &wl) {
            return Some(i);
        }
        i += 1;
    }
    None
}

/// The file name of download number `num` (and `extra` when that name is
/// taken): `007 - Title.mp3`, or `007.2 - Title.mp3`.
pub open spec fn track_file_name_spec(num: nat, extra: nat, title: Seq<char>) -> Seq<char> {
    if extra == 0 {
        dec_pad(num, 3) + " - "@ + sanitize_win_spec(title) + ".mp3"@
    } else {
        dec_pad(num, 3) + "."@ + dec(extra) + " - "@ + sanitize_win_spec(title) + ".mp3"@
    }
}

pub fn track_file_name(num: u32, extra: u32, title: &str) -> (r: String)
    ensures
        r@ == track_file_name_spec(num as nat, extra as nat, title@),
{
    let mut v = dec_pad_chars(num as u64, 3);
    if extra != 0 {
        push_str(&mut v, ".");
        let e = dec_chars(extra as u64);
        push_all(&mut v, &e);
    }
    push_str(&mut v, " - ");
    let t = sanitize_win(title);
    push_str(&mut v, t.as_str());
    push_str(&mut v, ".mp3");
    string_of(&v)
}

/// How many yt-dlp log lines are kept.
pub const YT_LOG_MAX: usize = 60;

/// The log after one more line: the last `YT_LOG_MAX` lines.
pub open spec fn log_after(log: Seq<Seq<char>>, line: Seq<char>) -> Seq<Seq<char>> {
    let l = log.push(line);
    if l.len() > YT_LOG_MAX {
        l.skip(l.len() - YT_LOG_MAX)
    } else {
        l
    }
}

/// Appends a yt-dlp output line to the log, dropping the oldest lines beyond
/// `YT_LOG_MAX`: the log keeps its last `YT_LOG_MAX` lines, so it never grows
/// past that length once it has reached it.
pub fn push_yt_log(log: &mut Vec<String>, line: String)
    ensures
        views(final(log)@) == log_after(views(old(log)@), line@),
        final(log).len() == if old(log).len() < YT_LOG_MAX {
            old(log).len() + 1
        } else {
            YT_LOG_MAX as int
        },
{
    let ghost l = views(log@).push(line@);
    if log.len() < YT_LOG_MAX {
        log.push(line);
        assert(views(log@) =~= l);
    } else {
        let start = log.len() - (YT_LOG_MAX - 1);
        let mut kept: Vec<String> = Vec::new();
        let mut i = start;
        while i < log.len()
            invariant
                start <= i <= log.len(),
                start + YT_LOG_MAX - 1 == log.len(),
                l == views(log@).push(line@),
                views(kept@) == views(log@).subrange(start as int, i as int),
            decreases log.len() - i,
        {
            let ghost before = views(kept@);
            kept.push(log[i].clone());
            assert(views(kept@) =~= before.push(views(log@)[i as int]));
            i += 1;
            assert(views(kept@) =~= views(log@).subrange(start as int, i as int));
        }
        let ghost lv = line@;
        let ghost mid = views(kept@);
        assert(mid == views(log@).subrange(start as int, log.len() as int));
        kept.push(line);
        assert(views(kept@) =~= mid.push(lv));
        assert(l.skip(l.len() - YT_LOG_MAX) =~= mid.push(lv));
        *log = kept;
    }
}

} // verus!
