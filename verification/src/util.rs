//! Small shared helpers: file classification, display names, time formatting
//! and Windows-safe file names.
use vstd::prelude::*;
use std::time::Duration;
use crate::bands::opt_text;
use crate::time::{duration_secs, whole_secs};
use crate::paths::{extension, extension_of, file_stem, file_stem_of, join, join_path};
use crate::text::{
    chars_of, concat, dec, dec_chars, dec_pad, dec_pad_chars, eq_str, is_digit, is_whitespace,
    all_ascii, ascii_lower, lowercase, lowercase_chars, push_all, slice_of, string_of, trim, trim_chars, trim_end, trim_start, trim_str, is_ws,
};

verus! {

/// The file extensions (lower case) that the player treats as audio.
pub open spec fn is_audio_format(e: Seq<char>) -> bool {
    ||| e == "mp3"@
    ||| e == "wav"@
    ||| e == "flac"@
    ||| e == "m4a"@
    ||| e == "m4b"@
    ||| e == "m4p"@
    ||| e == "ogg"@
    ||| e == "oga"@
    ||| e == "aac"@
    ||| e == "aiff"@
    ||| e == "aif"@
    ||| e == "wma"@
    ||| e == "wv"@
    ||| e == "mpc"@
    ||| e == "opus"@
    ||| e == "webm"@
}

/// The audio extensions the player plays, in its own order: mp3, wav, flac,
/// m4a, m4b, m4p, ogg, oga, aac, aiff, aif, wma, wv, mpc, opus, webm.
pub open spec fn audio_extensions() -> Seq<Seq<char>> {
    seq![
        "mp3"@,
        "wav"@,
        "flac"@,
        "m4a"@,
        "m4b"@,
        "m4p"@,
        "ogg"@,
        "oga"@,
        "aac"@,
        "aiff"@,
        "aif"@,
        "wma"@,
        "wv"@,
        "mpc"@,
        "opus"@,
        "webm"@,
    ]
}

/// An extension is an audio format exactly when it is one of the sixteen
/// listed audio extensions.
pub proof fn audio_formats_are_the_listed_ones(e: Seq<char>)
    ensures
        is_audio_format(e) <==> audio_extensions().contains(e),
{
    reveal_strlit("mp3");
    reveal_strlit("wav");
    reveal_strlit("flac");
    reveal_strlit("m4a");
    reveal_strlit("m4b");
    reveal_strlit("m4p");
    reveal_strlit("ogg");
    reveal_strlit("oga");
    reveal_strlit("aac");
    reveal_strlit("aiff");
    reveal_strlit("aif");
    reveal_strlit("wma");
    reveal_strlit("wv");
    reveal_strlit("mpc");
    reveal_strlit("opus");
    reveal_strlit("webm");
    let l = audio_extensions();
    assert(l[0] == "mp3"@);
    assert(l[1] == "wav"@);
    assert(l[2] == "flac"@);
    assert(l[3] == "m4a"@);
    assert(l[4] == "m4b"@);
    assert(l[5] == "m4p"@);
    assert(l[6] == "ogg"@);
    assert(l[7] == "oga"@);
    assert(l[8] == "aac"@);
    assert(l[9] == "aiff"@);
    assert(l[10] == "aif"@);
    assert(l[11] == "wma"@);
    assert(l[12] == "wv"@);
    assert(l[13] == "mpc"@);
    assert(l[14] == "opus"@);
    assert(l[15] == "webm"@);
    if audio_extensions().contains(e) {
        let k = choose|k: int| 0 <= k < l.len() && l[k] == e;
        assert(0 <= k < 16);
    }
}

/// Whether a file at `path` is audio, judged by its extension.
pub open spec fn is_audio_spec(path: Seq<char>) -> bool {
    match extension(path) {
        Some(e) => is_audio_format(lowercase(e)),
        None => false,
    }
}

/// The file stem of `path`, or the whole path when it names no file.
pub open spec fn stem_spec(path: Seq<char>) -> Seq<char> {
    match file_stem(path) {
        Some(s) => s,
        None => path,
    }
}

fn audio_format(e: &Vec<char>) -> (b: bool)
    ensures
        b == is_audio_format(e@),
{
    eq_str(e, "mp3") || eq_str(e, "wav") || eq_str(e, "flac") || eq_str(e, "m4a") || eq_str(
        e,
        "m4b",
    ) || eq_str(e, "m4p") || eq_str(e, "ogg") || eq_str(e, "oga") || eq_str(e, "aac") || eq_str(
        e,
        "aiff",
    ) || eq_str(e, "aif") || eq_str(e, "wma") || eq_str(e, "wv") || eq_str(e, "mpc") || eq_str(
        e,
        "opus",
    ) || eq_str(e, "webm")
}

/// Whether `path` has one of the audio extensions (case does not matter).
pub fn is_audio(path: &str) -> (b: bool)
    ensures
        b == is_audio_spec(path@),
        extension(path@) matches Some(e) ==> (all_ascii(e) ==> b == is_audio_format(ascii_lower(e))),
        extension(path@) matches Some(e) ==> (all_ascii(e) ==> (b <==> audio_extensions().contains(
            ascii_lower(e),
        ))),
        extension(path@) is None ==> !b,
{
    proof {
        if let Some(e) = extension(path@) {
            audio_formats_are_the_listed_ones(ascii_lower(e));
        }
    }
    let p = chars_of(path);
    match extension_of(&p) {
        Some(e) => {
            let l = lowercase_chars(&e);
            audio_format(&l)
        },
        None => false,
    }
}

/// The file stem of `path`, falling back to the whole path.
pub fn stem(path: &str) -> (r: String)
    ensures
        r@ == stem_spec(path@),
{
    let p = chars_of(path);
    match file_stem_of(&p) {
        Some(s) => string_of(&s),
        None => path.to_string(),
    }
}

/// `h:mm:ss` for a count of seconds.
pub open spec fn hms(s: nat) -> Seq<char> {
    dec(s / 3600) + seq![':'] + dec_pad((s % 3600) / 60, 2) + seq![':'] + dec_pad(s % 60, 2)
}

/// `m:ss` for a count of seconds.
pub open spec fn min_sec(s: nat) -> Seq<char> {
    dec(s / 60) + seq![':'] + dec_pad(s % 60, 2)
}

/// `mm:ss` for a count of seconds.
pub open spec fn min_sec_padded(s: nat) -> Seq<char> {
    dec_pad(s / 60, 2) + seq![':'] + dec_pad(s % 60, 2)
}

/// A running time as `h:mm:ss`.
pub fn fmt_run(d: Duration) -> (r: String)
    ensures
        r@ == hms(whole_secs(d)),
{
    let s = duration_secs(&d);
    fmt_hms(s)
}

/// `h:mm:ss` for `s` seconds.
pub fn fmt_hms(s: u64) -> (r: String)
    ensures
        r@ == hms(s as nat),
{
    let mut v = dec_chars(s / 3600);
    v.push(':');
    let m = dec_pad_chars((s % 3600) / 60, 2);
    push_all(&mut v, &m);
    v.push(':');
    let sec = dec_pad_chars(s % 60, 2);
    push_all(&mut v, &sec);
    string_of(&v)
}

/// `m:ss` for `s` seconds: the text of a track position.
pub fn fmt_min_sec(s: u64) -> (r: String)
    ensures
        r@ == min_sec(s as nat),
{
    let mut v = dec_chars(s / 60);
    v.push(':');
    let sec = dec_pad_chars(s % 60, 2);
    push_all(&mut v, &sec);
    string_of(&v)
}

/// `mm:ss` for `s` seconds: the text of a clock display.
pub fn fmt_min_sec_padded(s: u64) -> (r: String)
    ensures
        r@ == min_sec_padded(s as nat),
{
    let mut v = dec_pad_chars(s / 60, 2);
    v.push(':');
    let sec = dec_pad_chars(s % 60, 2);
    push_all(&mut v, &sec);
    string_of(&v)
}

/// The folder the player keeps its data in: `MediaPlayerOFDOOM` under the
/// `APPDATA` folder, else under `USERPROFILE`, else under `.` (the values
/// of those variables, `None` when unset).
pub open spec fn data_dir_spec(appdata: Option<Seq<char>>, userprofile: Option<Seq<char>>) -> Seq<char> {
    let base = match appdata {
        Some(a) => a,
        None => match userprofile {
            Some(h) => h,
            None => seq!['.'],
        },
    };
    join(base, "MediaPlayerOFDOOM"@)
}

pub fn data_dir(appdata: Option<&str>, userprofile: Option<&str>) -> (r: String)
    ensures
        r@ == data_dir_spec(opt_text(appdata), opt_text(userprofile)),
{
    let base = match appdata {
        Some(a) => a,
        None => match userprofile {
            Some(h) => h,
            None => ".",
        },
    };
    proof {
        reveal_strlit(".");
    }
    join_path(base, "MediaPlayerOFDOOM")
}

/// The folder the bundled tools are unpacked in: `tools` in the data folder.
pub fn tools_dir(appdata: Option<&str>, userprofile: Option<&str>) -> (r: String)
    ensures
        r@ == join(data_dir_spec(opt_text(appdata), opt_text(userprofile)), "tools"@),
{
    let d = data_dir(appdata, userprofile);
    join_path(d.as_str(), "tools")
}

/// Where the tag cache lives inside the data folder `data_dir`.
pub fn meta_cache_path(data_dir: &str) -> (r: String)
    ensures
        r@ == join(data_dir@, "metacache.json"@),
{
    join_path(data_dir, "metacache.json")
}

/// `s` shortened to its first and last `(max - 3) / 2` characters around `...`
/// when it has more than `max` characters.
pub open spec fn truncate_mid_spec(s: Seq<char>, max: nat) -> Seq<char> {
    if s.len() <= max {
        s
    } else {
        let keep = (if max >= 3 {
            max - 3
        } else {
            0
        }) / 2;
        s.take(keep as int) + "..."@ + s.skip(s.len() - keep)
    }
}

pub fn truncate_mid(s: &str, max: usize) -> (r: String)
    ensures
        r@ == truncate_mid_spec(s@, max as nat),
{
    let v = chars_of(s);
    if v.len() <= max {
        return s.to_string();
    }
    let keep = (if max >= 3 {
        max - 3
    } else {
        0
    }) / 2;
    let mut out = slice_of(&v, 0, keep);
    let dots = chars_of("...");
    push_all(&mut out, &dots);
    let tail = slice_of(&v, v.len() - keep, v.len());
    push_all(&mut out, &tail);
    string_of(&out)
}

/// A result of `truncate_mid` never has more than `max` characters, unless
/// `max` is below 3 (then it is exactly `...`).
pub proof fn truncate_mid_fits(s: Seq<char>, max: nat)
    ensures
        truncate_mid_spec(s, max).len() <= if max >= 3 {
            max
        } else {
            3
        },
{
    reveal_strlit("...");
}

/// Characters that Windows refuses in file names.
pub open spec fn is_bad_win_char(c: char) -> bool {
    c == '\\' || c == '/' || c == ':' || c == '*' || c == '?' || c == '"' || c == '<' || c == '>'
        || c == '|'
}

pub open spec fn replace_bad(s: Seq<char>) -> Seq<char> {
    s.map_values(|c: char|
        if is_bad_win_char(c) {
            '_'
        } else {
            c
        })
}

/// Trailing `.` and spaces removed.
pub open spec fn strip_dots_spaces(s: Seq<char>) -> Seq<char>
    decreases s.len(),
{
    if s.len() > 0 && (s.last() == '.' || s.last() == ' ') {
        strip_dots_spaces(s.drop_last())
    } else {
        s
    }
}

/// `s` made usable as a Windows file name.
pub open spec fn sanitize_win_spec(s: Seq<char>) -> Seq<char> {
    let t = strip_dots_spaces(replace_bad(trim(s)));
    if t.len() == 0 {
        "untitled"@
    } else {
        t
    }
}

fn bad_win_char(c: char) -> (b: bool)
    ensures
        b == is_bad_win_char(c),
{
    c == '\\' || c == '/' || c == ':' || c == '*' || c == '?' || c == '"' || c == '<' || c == '>'
        || c == '|'
}

pub fn sanitize_win(s: &str) -> (r: String)
    ensures
        r@ == sanitize_win_spec(s@),
{
    let t = trim_str(s);
    let mut out: Vec<char> = Vec::new();
    let mut i: usize = 0;
    while i < t.len()
        invariant
            i <= t.len(),
            out@ == replace_bad(t@.take(i as int)),
        decreases t.len() - i,
    {
        let c = t[i];
        out.push(if bad_win_char(c) { '_' } else { c });
        i += 1;
        assert(out@ =~= replace_bad(t@.take(i as int)));
    }
    assert(t@.take(t.len() as int) == t@);
    let ghost full = out@;
    while out.len() > 0 && (out[out.len() - 1] == '.' || out[out.len() - 1] == ' ')
        invariant
            strip_dots_spaces(full) == strip_dots_spaces(out@),
        decreases out.len(),
    {
        out.pop();
    }
    if out.len() == 0 {
        return "untitled".to_string();
    }
    string_of(&out)
}

/// A sanitized name is never empty, holds no character Windows refuses, and
/// does not end with a dot or a space.
pub proof fn sanitize_win_is_safe(s: Seq<char>)
    ensures
        sanitize_win_spec(s).len() > 0,
        forall|i: int|
            0 <= i < sanitize_win_spec(s).len() ==> !is_bad_win_char(
                #[trigger] sanitize_win_spec(s)[i],
            ),
        sanitize_win_spec(s).last() != '.',
        sanitize_win_spec(s).last() != ' ',
{
    reveal_strlit("untitled");
    let r = replace_bad(trim(s));
    lemma_strip_dots_spaces(r);
}

/// Sanitizing a sanitized name changes nothing, for names whose only
/// whitespace is the plain space.
pub proof fn sanitize_win_idempotent(s: Seq<char>)
    requires
        forall|i: int| 0 <= i < s.len() && is_ws(#[trigger] s[i]) ==> s[i] == ' ',
    ensures
        sanitize_win_spec(sanitize_win_spec(s)) == sanitize_win_spec(s),
{
    reveal_strlit("untitled");
    let ts = trim_start(s);
    let t = trim(s);
    let u = replace_bad(t);
    let r0 = strip_dots_spaces(u);
    lemma_trim_start(s);
    lemma_trim_end(ts);
    lemma_strip_dots_spaces(u);
    sanitize_win_is_safe(s);
    let r = sanitize_win_spec(s);
    if r0.len() == 0 {
        let w = "untitled"@;
        assert(r == w);
        assert(!is_ws(w[0]) && !is_ws(w.last()));
        assert(trim_start(w) == w);
        assert(trim_end(w) == w);
        assert(replace_bad(w) =~= w);
        assert(strip_dots_spaces(w) == w);
    } else {
        assert(r == r0);
        let k1 = s.len() - ts.len();
        assert forall|i: int| 0 <= i < r0.len() && is_ws(#[trigger] r0[i]) implies r0[i] == ' ' by {
            assert(r0[i] == u[i]);
            assert(t[i] == ts[i]);
            assert(ts[i] == s[k1 + i]);
        }
        assert(r0[0] == u[0] && t[0] == ts[0]);
        assert(!is_ws(r0[0]));
        assert(!is_ws(r0.last()));
        assert(trim_start(r0) == r0);
        assert(trim_end(r0) == r0);
        assert(trim(r0) == r0);
        assert(replace_bad(r0) =~= r0);
        assert(strip_dots_spaces(r0) == r0);
    }
}

/// Trimming the start drops a prefix, and leaves no whitespace in front.
proof fn lemma_trim_start(s: Seq<char>)
    ensures
        trim_start(s).len() <= s.len(),
        trim_start(s) == s.skip(s.len() - trim_start(s).len()),
        trim_start(s).len() > 0 ==> !is_ws(trim_start(s)[0]),
    decreases s.len(),
{
    if s.len() > 0 && is_ws(s[0]) {
        lemma_trim_start(s.drop_first());
        let t = trim_start(s.drop_first());
        assert(s.drop_first().skip(s.drop_first().len() - t.len()) =~= s.skip(s.len() - t.len()));
    } else {
        assert(s.skip(0) =~= s);
    }
}

/// Trimming the end keeps a prefix, and leaves no whitespace behind.
proof fn lemma_trim_end(s: Seq<char>)
    ensures
        trim_end(s).len() <= s.len(),
        trim_end(s) == s.take(trim_end(s).len() as int),
        trim_end(s).len() > 0 ==> !is_ws(trim_end(s).last()),
    decreases s.len(),
{
    if s.len() > 0 && is_ws(s.last()) {
        lemma_trim_end(s.drop_last());
        let t = trim_end(s.drop_last());
        assert(s.drop_last().take(t.len() as int) =~= s.take(t.len() as int));
    } else {
        assert(s.take(s.len() as int) =~= s);
    }
}

proof fn lemma_strip_dots_spaces(s: Seq<char>)
    ensures
        strip_dots_spaces(s).len() <= s.len(),
        strip_dots_spaces(s) == s.take(strip_dots_spaces(s).len() as int),
        strip_dots_spaces(s).len() > 0 ==> strip_dots_spaces(s).last() != '.'
            && strip_dots_spaces(s).last() != ' ',
    decreases s.len(),
{
    if s.len() > 0 && (s.last() == '.' || s.last() == ' ') {
        lemma_strip_dots_spaces(s.drop_last());
        let t = strip_dots_spaces(s.drop_last());
        assert(s.drop_last().take(t.len() as int) == s.take(t.len() as int));
    } else {
        assert(s.take(s.len() as int) == s);
    }
}

/// The number written by the leading ASCII digits of a name.
pub open spec fn leading_digits(s: Seq<char>) -> Seq<char>
    decreases s.len(),
{
    if s.len() > 0 && is_digit(s[0]) {
        seq![s[0]] + leading_digits(s.drop_first())
    } else {
        seq![]
    }
}

/// The value of a run of decimal digits.
pub open spec fn digits_value(d: Seq<char>) -> nat
    decreases d.len(),
{
    if d.len() == 0 {
        0
    } else {
        digits_value(d.drop_last()) * 10 + (d.last() as nat - '0' as nat) as nat
    }
}

/// `str::parse::<u32>` of the leading digits of a name: present when there is at
/// least one digit and the value fits in a `u32`.
pub open spec fn track_num_of(name: Seq<char>) -> Option<u32> {
    let d = leading_digits(name);
    if d.len() > 0 && digits_value(d) <= u32::MAX {
        Some(digits_value(d) as u32)
    } else {
        None
    }
}

proof fn lemma_leading_digits(s: Seq<char>, i: int)
    requires
        0 <= i <= s.len(),
        forall|j: int| 0 <= j < i ==> is_digit(#[trigger] s[j]),
    ensures
        leading_digits(s) == s.take(i) + leading_digits(s.skip(i)),
    decreases i,
{
    if i > 0 {
        lemma_leading_digits(s.drop_first(), i - 1);
        assert(s.drop_first().take(i - 1) == s.take(i).drop_first());
        assert(s.drop_first().skip(i - 1) == s.skip(i));
        assert(seq![s[0]] + s.take(i).drop_first() == s.take(i));
    } else {
        assert(s.skip(0) == s);
    }
}

/// The track number that a file name starts with.
pub fn track_num(name: &str) -> (r: Option<u32>)
    ensures
        r == track_num_of(name@),
{
    let v = chars_of(name);
    let mut i: usize = 0;
    let mut val: u64 = 0;
    let mut overflow = false;
    while i < v.len() && '0' <= v[i] && v[i] <= '9'
        invariant
            i <= v.len(),
            forall|j: int| 0 <= j < i ==> is_digit(#[trigger] v@[j]),
            !overflow ==> val == digits_value(v@.take(i as int)) && val <= u32::MAX,
            overflow ==> digits_value(v@.take(i as int)) > u32::MAX,
        decreases v.len() - i,
    {
        let d = (v[i] as u32 - '0' as u32) as u64;
        assert(v@.take(i + 1).drop_last() == v@.take(i as int));
        if !overflow {
            let nv = val * 10 + d;
            if nv > u32::MAX as u64 {
                overflow = true;
            } else {
                val = nv;
            }
        } else {
            assert(digits_value(v@.take(i + 1)) >= digits_value(v@.take(i as int)) * 10)
                by (nonlinear_arith)
                requires
                    digits_value(v@.take(i + 1)) == digits_value(v@.take(i as int)) * 10 + d,
                    d >= 0,
            ;
        }
        i += 1;
    }
    proof {
        lemma_leading_digits(v@, i as int);
        if i < v.len() {
            assert(leading_digits(v@.skip(i as int)) == Seq::<char>::empty());
        } else {
            assert(v@.skip(i as int) == Seq::<char>::empty());
        }
        assert(v@.take(i as int) + Seq::<char>::empty() == v@.take(i as int));
    }
    if i == 0 || overflow {
        None
    } else {
        Some(val as u32)
    }
}

/// One past the largest track number that any of `names` starts with (1 when none does).
pub open spec fn next_track_num_spec(names: Seq<String>) -> nat
    decreases names.len(),
{
    if names.len() == 0 {
        1
    } else {
        let rest = next_track_num_spec(names.drop_last());
        match track_num_of(names.last()@) {
            Some(v) => if v + 1 > rest {
                (v + 1) as nat
            } else {
                rest
            },
            None => rest,
        }
    }
}

/// The next free track number in a folder whose entries are named `names`.
pub fn next_track_num(names: &Vec<String>) -> (r: u32)
    requires
        forall|i: int| 0 <= i < names.len() ==> track_num_of(#[trigger] names[i]@) != Some(
            u32::MAX,
        ),
    ensures
        r == next_track_num_spec(names@),
{
    let mut max: u32 = 0;
    let mut i: usize = 0;
    while i < names.len()
        invariant
            i <= names.len(),
            forall|k: int| 0 <= k < names.len() ==> track_num_of(#[trigger] names[k]@) != Some(
                u32::MAX,
            ),
            max < u32::MAX,
            max + 1 == next_track_num_spec(names@.take(i as int)),
        decreases names.len() - i,
    {
        assert(names@.take(i + 1).drop_last() == names@.take(i as int));
        if let Some(v) = track_num(names[i].as_str()) {
            if v > max {
                max = v;
            }
        }
        i += 1;
    }
    assert(names@.take(names.len() as int) == names@);
    max + 1
}

} // verus!

verus! {

/// A `regex::Regex` can stand in the library's types.
#[verifier::external_type_specification]
#[verifier::external_body]
pub struct ExRegex(regex::Regex);

/// Whether `pattern` compiles as a regular expression (`regex::Regex::new`
/// returns `Ok`).
pub uninterp spec fn regex_compiles(pattern: Seq<char>) -> bool;

/// What is left of `text` once the first match of the regular expression
/// `pattern` is removed (`Regex::replace` with an empty replacement).
pub uninterp spec fn regex_removal(pattern: Seq<char>, text: Seq<char>) -> Seq<char>;

/// A compiled regular expression and the pattern it was compiled from.
pub struct Pattern {
    re: regex::Regex,
    source: Ghost<Seq<char>>,
}

impl Pattern {
    /// The pattern the expression was compiled from.
    pub closed spec fn source(&self) -> Seq<char> {
        self.source@
    }
}

/// Calls `regex::Regex::new`: `Some` exactly when the pattern compiles
/// (named `regex_compiles`), holding the pattern it was made from.
#[verifier::external_body]
fn compile_pattern(pattern: &str) -> (r: Option<Pattern>)
    ensures
        r is Some == regex_compiles(pattern@),
        r matches Some(p) ==> p.source() == pattern@,
{
    match regex::Regex::new(pattern) {
        Ok(re) => Some(Pattern { re, source: Ghost(pattern@) }),
        Err(_) => None,
    }
}

/// Calls `Regex::replace(text, "")`: the text with the first match removed,
/// named `regex_removal(pattern, text)`.
#[verifier::external_body]
fn remove_first_match(p: &Pattern, text: &str) -> (r: String)
    ensures
        r@ == regex_removal(p.source(), text@),
{
    p.re.replace(text, "").into_owned()
}

/// One clean-up pass: the first match of `pattern` removed, or `s` unchanged
/// when the pattern does not compile.
pub open spec fn removal_step(pattern: Seq<char>, s: Seq<char>) -> Seq<char> {
    if regex_compiles(pattern) {
        regex_removal(pattern, s)
    } else {
        s
    }
}

/// Leading track/disc numbers such as `01 - ` or `CD2-`.
pub open spec fn leading_numbers_re() -> Seq<char> {
    "^(CD\\s?\\d+[-]?\\s*|\\d+[-.]?\\s*)+"@
}

/// A parenthesised remark.
pub open spec fn parens_re() -> Seq<char> {
    "\\s*\\([^)]*\\)\\s*"@
}

/// A trailing bitrate such as `320kbps`.
pub open spec fn bitrate_re() -> Seq<char> {
    "[\\[\\(]?\\d{3}\\s?(kbps|kb)?[\\)]?$"@
}

/// A trailing year such as ` - 1999`.
pub open spec fn year_re() -> Seq<char> {
    "\\s*-\\s*\\d{4}\\s*$"@
}

/// A file name with track numbers, remarks, bitrate and year taken off; the
/// original name when nothing would be left.
pub open spec fn beautify_spec(f: Seq<char>) -> Seq<char> {
    let s = removal_step(
        year_re(),
        removal_step(bitrate_re(), removal_step(parens_re(), removal_step(leading_numbers_re(), f))),
    );
    let t = trim(s);
    if t.len() == 0 {
        f
    } else {
        t
    }
}

fn remove_or_keep(pattern: &str, s: String) -> (r: String)
    ensures
        r@ == removal_step(pattern@, s@),
{
    match compile_pattern(pattern) {
        Some(p) => remove_first_match(&p, s.as_str()),
        None => s,
    }
}

pub fn beautify_name(filename: &str) -> (r: String)
    ensures
        r@ == beautify_spec(filename@),
{
    let s = remove_or_keep("^(CD\\s?\\d+[-]?\\s*|\\d+[-.]?\\s*)+", filename.to_string());
    let s = remove_or_keep("\\s*\\([^)]*\\)\\s*", s);
    let s = remove_or_keep("[\\[\\(]?\\d{3}\\s?(kbps|kb)?[\\)]?$", s);
    let s = remove_or_keep("\\s*-\\s*\\d{4}\\s*$", s);
    let t = trim_str(s.as_str());
    if t.len() == 0 {
        filename.to_string()
    } else {
        string_of(&t)
    }
}

} // verus!

verus! {

/// The value of a run of digits is at least that of any of its prefixes.
pub proof fn lemma_digits_value_prefix(d: Seq<char>, k: int)
    requires
        0 <= k <= d.len(),
        forall|i: int| 0 <= i < d.len() ==> is_digit(#[trigger] d[i]),
    ensures
        digits_value(d) >= digits_value(d.take(k)),
    decreases d.len() - k,
{
    if k < d.len() {
        lemma_digits_value_prefix(d, k + 1);
        assert(d.take(k + 1).drop_last() == d.take(k));
    } else {
        assert(d.take(k) == d);
    }
}

} // verus!
