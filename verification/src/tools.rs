//! Where the bundled external tools live inside the tools folder, and which
//! entries of the ffmpeg archive hold them.
use vstd::prelude::*;
use crate::paths::{join, join_path};
use crate::text::{
    chars_of, eq_str, lemma_rfind, replace_all, replace_all_chars, rfind, rfind_char, slice_of,
    string_of,
};

verus! {

pub fn ytdlp_path(tools_dir: &str) -> (r: String)
    ensures
        r@ == join(tools_dir@, "yt-dlp.exe"@),
{
    join_path(tools_dir, "yt-dlp.exe")
}

pub fn ffmpeg_path(tools_dir: &str) -> (r: String)
    ensures
        r@ == join(tools_dir@, "ffmpeg.exe"@),
{
    join_path(tools_dir, "ffmpeg.exe")
}

pub fn ffprobe_path(tools_dir: &str) -> (r: String)
    ensures
        r@ == join(tools_dir@, "ffprobe.exe"@),
{
    join_path(tools_dir, "ffprobe.exe")
}

pub fn mkvmerge_path(tools_dir: &str) -> (r: String)
    ensures
        r@ == join(tools_dir@, "mkvmerge.exe"@),
{
    join_path(tools_dir, "mkvmerge.exe")
}

/// The file name of an archive entry: the text after its last `/` or `\`.
pub open spec fn entry_file_name_spec(name: Seq<char>) -> Seq<char> {
    let n = replace_all(name, seq!['\\'], seq!['/']);
    match rfind(n, '/') {
        Some(k) => n.skip(k + 1),
        None => n,
    }
}

pub fn entry_file_name(name: &str) -> (r: String)
    ensures
        r@ == entry_file_name_spec(name@),
{
    let from = vec!['\\'];
    let to = vec!['/'];
    assert(from@ =~= seq!['\\']);
    assert(to@ =~= seq!['/']);
    let n = replace_all_chars(&chars_of(name), &from, &to);
    match rfind_char(&n, '/') {
        Some(k) => {
            proof {
                lemma_rfind(n@, '/');
            }
            string_of(&slice_of(&n, k + 1, n.len()))
        },
        None => string_of(&n),
    }
}

/// The tool an entry of the ffmpeg archive holds: `ffmpeg.exe` (when
/// ffmpeg is wanted) or `ffprobe.exe`, by the entry's file name.
pub open spec fn wanted_tool_spec(name: Seq<char>, want_ffmpeg: bool) -> Option<Seq<char>> {
    let f = entry_file_name_spec(name);
    if (want_ffmpeg && f == "ffmpeg.exe"@) || f == "ffprobe.exe"@ {
        Some(f)
    } else {
        None
    }
}

pub fn wanted_tool(name: &str, want_ffmpeg: bool) -> (r: Option<String>)
    ensures
        r matches Some(t) ==> wanted_tool_spec(name@, want_ffmpeg) == Some(t@),
        r is None ==> wanted_tool_spec(name@, want_ffmpeg) is None,
{
    let f = entry_file_name(name);
    let fv = chars_of(f.as_str());
    if (want_ffmpeg && eq_str(&fv, "ffmpeg.exe")) || eq_str(&fv, "ffprobe.exe") {
        Some(f)
    } else {
        None
    }
}

} // verus!
