//! ffmpeg/ffprobe/mkvmerge helpers: the decode size of a video, reading
//! ffprobe's answer, and the split range handed to mkvmerge.
use vstd::prelude::*;
use crate::util::{digits_value, lemma_digits_value_prefix};
use crate::text::{is_digit, 
    chars_of, dec_pad, dec_pad_chars, ends_with, find, find_checked, first_line, first_line_chars,
    push_all, push_str, slice_of, string_of, trim, trim_chars,
};

verus! {

/// Rounds down to an even number (`x - 1` when odd).
pub open spec fn even_down(x: nat) -> nat {
    if x % 2 != 0 {
        (x - 1) as nat
    } else {
        x
    }
}

/// The frame size a `w`x`h` video is decoded at so that it fits in
/// `max_w`x`max_h`: scaled down (never up) keeping its shape, each side
/// rounded down to even and at least 2; 640x360 when any size is zero.
pub open spec fn fit_dims_spec(w: nat, h: nat, max_w: nat, max_h: nat) -> (nat, nat) {
    if w == 0 || h == 0 || max_w == 0 || max_h == 0 {
        (640, 360)
    } else {
        let (tw, th) = if max_w >= w && max_h >= h {
            (w, h)
        } else if max_w * h <= max_h * w {
            (max_w, h * max_w / w)
        } else {
            (w * max_h / h, max_h)
        };
        let ew = even_down(tw);
        let eh = even_down(th);
        (if ew < 2 {
            2
        } else {
            ew
        }, if eh < 2 {
            2
        } else {
            eh
        })
    }
}

fn even_floor(x: u64) -> (r: u64)
    ensures
        r == even_down(x as nat),
{
    if x % 2 != 0 {
        x - 1
    } else {
        x
    }
}

pub fn fit_video_dims(w: u32, h: u32, max_w: u32, max_h: u32) -> (r: (u32, u32))
    ensures
        (r.0 as nat, r.1 as nat) == fit_dims_spec(w as nat, h as nat, max_w as nat, max_h as nat),
{
    if w == 0 || h == 0 || max_w == 0 || max_h == 0 {
        return (640, 360);
    }
    let (w64, h64, mw, mh) = (w as u64, h as u64, max_w as u64, max_h as u64);
    assert(mw * h64 <= 0xffff_ffff_ffff_ffff) by (nonlinear_arith)
        requires
            mw <= 0xffff_ffff,
            h64 <= 0xffff_ffff,
    ;
    assert(mh * w64 <= 0xffff_ffff_ffff_ffff) by (nonlinear_arith)
        requires
            mh <= 0xffff_ffff,
            w64 <= 0xffff_ffff,
    ;
    let (tw, th): (u64, u64) = if mw >= w64 && mh >= h64 {
        (w64, h64)
    } else if mw * h64 <= mh * w64 {
        assert((h64 * mw) / (w64 as int) <= h64) by (nonlinear_arith)
            requires
                mw < w64 || mh < h64,
                mw * h64 <= mh * w64,
                w64 > 0,
                h64 > 0,
        {
            if mw >= w64 {
                assert(mh < h64);
                assert(mw * h64 >= w64 * h64);
                assert(mh * w64 < h64 * w64);
            }
            assert(h64 * mw <= h64 * w64);
        }
        (mw, h64 * mw / w64)
    } else {
        assert((w64 * mh) / (h64 as int) <= w64) by (nonlinear_arith)
            requires
                mw * h64 > mh * w64,
                w64 > 0,
                h64 > 0,
                mw < w64 || mh < h64,
        {
            if mh >= h64 {
                assert(mw < w64);
                assert(mh * w64 >= h64 * w64);
                assert(mw * h64 < w64 * h64);
            }
            assert(w64 * mh <= w64 * h64);
        }
        (w64 * mh / h64, mh)
    };
    let ew = even_floor(tw);
    let eh = even_floor(th);
    let rw = if ew < 2 { 2 } else { ew };
    let rh = if eh < 2 { 2 } else { eh };
    (rw as u32, rh as u32)
}

/// The decode size fits in the box, is even and never zero (for a box of at
/// least 2x2 and a real video size).
pub proof fn fit_dims_within_box(w: nat, h: nat, max_w: nat, max_h: nat)
    requires
        w > 0,
        h > 0,
        max_w >= 2,
        max_h >= 2,
    ensures
        fit_dims_spec(w, h, max_w, max_h).0 <= max_w,
        fit_dims_spec(w, h, max_w, max_h).1 <= max_h,
        fit_dims_spec(w, h, max_w, max_h).0 % 2 == 0,
        fit_dims_spec(w, h, max_w, max_h).1 % 2 == 0,
        fit_dims_spec(w, h, max_w, max_h).0 >= 2,
        fit_dims_spec(w, h, max_w, max_h).1 >= 2,
{
    if max_w >= w && max_h >= h {
    } else if max_w * h <= max_h * w {
        assert(h * max_w / w <= max_h) by (nonlinear_arith)
            requires
                max_w * h <= max_h * w,
                w > 0,
        {
            assert(h * max_w <= max_h * w);
            assert((h * max_w) / w <= (max_h * w) / w);
            assert((max_h * w) / w == max_h);
        }
    } else {
        assert(w * max_h / h <= max_w) by (nonlinear_arith)
            requires
                max_w * h > max_h * w,
                h > 0,
        {
            assert(w * max_h <= max_w * h);
            assert((w * max_h) / h <= (max_w * h) / h);
            assert((max_w * h) / h == max_w);
        }
    }
}

/// Line `i` of a text (`str::lines().nth(i)`).
pub open spec fn line_at(s: Seq<char>, i: nat) -> Option<Seq<char>>
    decreases s.len(), i,
{
    if s.len() == 0 {
        None
    } else if i == 0 {
        Some(first_line(s))
    } else {
        match find(s, seq!['\n']) {
            Some(k) => if 0 <= k < s.len() {
                line_at(s.skip(k + 1), (i - 1) as nat)
            } else {
                None
            },
            None => None,
        }
    }
}

/// Line `i` of `s`, trimmed.
pub fn probe_line(s: &str, i: usize) -> (r: Option<String>)
    ensures
        r matches Some(v) ==> line_at(s@, i as nat) matches Some(l) && v@ == trim(l),
        r is None ==> line_at(s@, i as nat) is None,
{
    let v = chars_of(s);
    match line_at_chars(&v, i) {
        Some(l) => {
            let t = trim_chars(&l);
            Some(string_of(&t))
        },
        None => None,
    }
}

fn line_at_chars(s: &Vec<char>, i: usize) -> (r: Option<Vec<char>>)
    ensures
        r matches Some(v) ==> line_at(s@, i as nat) == Some(v@),
        r is None ==> line_at(s@, i as nat) is None,
    decreases s.len(), i,
{
    if s.len() == 0 {
        return None;
    }
    if i == 0 {
        return Some(first_line_chars(s));
    }
    let mut nl: Vec<char> = Vec::new();
    nl.push('\n');
    assert(nl@ == seq!['\n']);
    match find_checked(s, &nl) {
        Some(k) => {
            let rest = slice_of(s, k + 1, s.len());
            assert(rest@ == s@.skip(k + 1));
            line_at_chars(&rest, i - 1)
        },
        None => None,
    }
}

/// The digits of an unsigned number: its text without one leading `+`.
pub open spec fn unsigned_digits(s: Seq<char>) -> Seq<char> {
    if s.len() > 0 && s[0] == '+' {
        s.drop_first()
    } else {
        s
    }
}

pub open spec fn all_digits(d: Seq<char>) -> bool {
    forall|i: int| 0 <= i < d.len() ==> is_digit(#[trigger] d[i])
}

/// `str::parse::<u32>`: an optional `+`, then decimal digits, within range.
pub open spec fn parse_u32_spec(s: Seq<char>) -> Option<u32> {
    let d = unsigned_digits(s);
    if d.len() > 0 && all_digits(d) && digits_value(d) <= u32::MAX {
        Some(digits_value(d) as u32)
    } else {
        None
    }
}

pub fn parse_u32(s: &str) -> (r: Option<u32>)
    ensures
        r == parse_u32_spec(s@),
{
    let v = chars_of(s);
    let d = if v.len() > 0 && v[0] == '+' {
        slice_of(&v, 1, v.len())
    } else {
        v
    };
    assert(d@ == unsigned_digits(s@));
    if d.len() == 0 {
        return None;
    }
    let mut i: usize = 0;
    let mut val: u64 = 0;
    while i < d.len()
        invariant
            0 < d.len(),
            i <= d.len(),
            d@ == unsigned_digits(s@),
            forall|j: int| 0 <= j < i ==> is_digit(#[trigger] d@[j]),
            val == digits_value(d@.take(i as int)),
            val <= u32::MAX,
        decreases d.len() - i,
    {
        let c = d[i];
        if !('0' <= c && c <= '9') {
            assert(!is_digit(d@[i as int]));
            assert(!all_digits(d@));
            return None;
        }
        assert(d@.take(i + 1).drop_last() == d@.take(i as int));
        let nv = val * 10 + (c as u32 - '0' as u32) as u64;
        if nv > u32::MAX as u64 {
            proof {
                if all_digits(d@) {
                    lemma_digits_value_prefix(d@, i + 1);
                }
            }
            return None;
        }
        val = nv;
        i += 1;
    }
    assert(d@.take(d.len() as int) == d@);
    Some(val as u32)
}

/// Width and height that ffprobe printed on its first two lines; `(0, 0)`
/// unless both are present and non-zero.
pub open spec fn probe_dims_spec(out: Seq<char>) -> (nat, nat) {
    let w = match line_at(out, 0) {
        Some(l) => match parse_u32_spec(trim(l)) {
            Some(v) => v as nat,
            None => 0,
        },
        None => 0,
    };
    let h = match line_at(out, 1) {
        Some(l) => match parse_u32_spec(trim(l)) {
            Some(v) => v as nat,
            None => 0,
        },
        None => 0,
    };
    if w == 0 || h == 0 {
        (0, 0)
    } else {
        (w, h)
    }
}

fn line_u32(out: &str, i: usize) -> (r: u32)
    ensures
        r as nat == match line_at(out@, i as nat) {
            Some(l) => match parse_u32_spec(trim(l)) {
                Some(v) => v as nat,
                None => 0,
            },
            None => 0,
        },
{
    match probe_line(out, i) {
        Some(l) => match parse_u32(l.as_str()) {
            Some(v) => v,
            None => 0,
        },
        None => 0,
    }
}

pub fn parse_probe_dims(out: &str) -> (r: (u32, u32))
    ensures
        (r.0 as nat, r.1 as nat) == probe_dims_spec(out@),
{
    let w = line_u32(out, 0);
    let h = line_u32(out, 1);
    if w == 0 || h == 0 {
        (0, 0)
    } else {
        (w, h)
    }
}

/// `HH:MM:SS.000` for a whole number of seconds.
pub open spec fn timestamp(s: nat) -> Seq<char> {
    dec_pad(s / 3600, 2) + seq![':'] + dec_pad((s % 3600) / 60, 2) + seq![':'] + dec_pad(s % 60, 2)
        + ".000"@
}

pub fn fmt_timestamp(s: u64) -> (r: Vec<char>)
    ensures
        r@ == timestamp(s as nat),
{
    let mut v = dec_pad_chars(s / 3600, 2);
    v.push(':');
    let m = dec_pad_chars((s % 3600) / 60, 2);
    push_all(&mut v, &m);
    v.push(':');
    let sec = dec_pad_chars(s % 60, 2);
    push_all(&mut v, &sec);
    push_str(&mut v, ".000");
    v
}

/// mkvmerge's `--split` value that keeps what lies between the end of the intro
/// (`intro_end` seconds) and the start of the credits (`credits_start`);
/// `None` when there is nothing to cut.
pub open spec fn split_parts_spec(intro_end: nat, credits_start: nat) -> Option<Seq<char>> {
    if intro_end > 0 && credits_start > 0 && credits_start > intro_end {
        Some("parts:"@ + timestamp(intro_end) + "-"@ + timestamp(credits_start))
    } else if intro_end > 0 {
        Some("parts:"@ + timestamp(intro_end) + "-"@)
    } else if credits_start > 0 {
        Some("parts:-"@ + timestamp(credits_start))
    } else {
        None
    }
}

pub fn split_parts(intro_end: u64, credits_start: u64) -> (r: Option<String>)
    ensures
        r matches Some(v) ==> split_parts_spec(intro_end as nat, credits_start as nat) == Some(v@),
        r is None ==> split_parts_spec(intro_end as nat, credits_start as nat) is None,
{
    if intro_end > 0 && credits_start > 0 && credits_start > intro_end {
        let mut v = chars_of("parts:");
        let a = fmt_timestamp(intro_end);
        push_all(&mut v, &a);
        push_str(&mut v, "-");
        let b = fmt_timestamp(credits_start);
        push_all(&mut v, &b);
        Some(string_of(&v))
    } else if intro_end > 0 {
        let mut v = chars_of("parts:");
        let a = fmt_timestamp(intro_end);
        push_all(&mut v, &a);
        push_str(&mut v, "-");
        Some(string_of(&v))
    } else if credits_start > 0 {
        let mut v = chars_of("parts:-");
        let b = fmt_timestamp(credits_start);
        push_all(&mut v, &b);
        Some(string_of(&v))
    } else {
        None
    }
}

/// Name of the cut copy of a video whose stem is `stem`.
pub fn cut_file_name(stem: &str) -> (r: String)
    ensures
        r@ == stem@ + "_cut.mkv"@,
{
    let mut v = chars_of(stem);
    push_str(&mut v, "_cut.mkv");
    string_of(&v)
}

/// A video that is itself a cut copy (never cut again).
pub open spec fn is_cut_copy_spec(path: Seq<char>) -> bool {
    path.len() >= 8 && path.skip(path.len() - 8) == "_cut.mkv"@
}

pub fn is_cut_copy(path: &str) -> (b: bool)
    ensures
        b == is_cut_copy_spec(path@),
{
    let v = chars_of(path);
    let suffix = chars_of("_cut.mkv");
    proof {
        reveal_strlit("_cut.mkv");
    }
    if v.len() < 8 {
        return false;
    }
    let tail = slice_of(&v, v.len() - 8, v.len());
    assert(tail@ == v@.skip(v.len() - 8));
    crate::text::seq_eq(&tail, &suffix)
}

} // verus!
