//! URL text for the web lookups: percent-encoding, the lyrics address and
//! the cover-art search.
use vstd::prelude::*;
use crate::text::{chars_of, push_str, replace_all, replace_all_chars, string_of};

verus! {

/// Bytes that stand for themselves in a URL: ASCII letters, digits and `-_.~`.
pub open spec fn unreserved(b: u8) -> bool {
    ||| (48u8 <= b <= 57u8)
    ||| (97u8 <= b <= 122u8)
    ||| (65u8 <= b <= 90u8)
    ||| b == 45u8
    ||| b == 95u8
    ||| b == 46u8
    ||| b == 126u8
}

/// Upper-case hexadecimal digit of `d` (`d < 16`).
pub open spec fn hex_upper(d: nat) -> char {
    if d < 10 {
        ('0' as nat + d) as char
    } else {
        ('A' as nat + (d - 10)) as char
    }
}

/// Value of a hexadecimal digit.
pub open spec fn hex_value(c: char) -> nat {
    if '0' <= c <= '9' {
        (c as nat - '0' as nat) as nat
    } else if 'A' <= c <= 'F' {
        (c as nat - 'A' as nat + 10) as nat
    } else if 'a' <= c <= 'f' {
        (c as nat - 'a' as nat + 10) as nat
    } else {
        0
    }
}

/// The URL text of one byte: itself, or `%XY`.
pub open spec fn pct_byte(b: u8) -> Seq<char> {
    if unreserved(b) {
        seq![b as char]
    } else {
        seq!['%', hex_upper(b as nat / 16), hex_upper(b as nat % 16)]
    }
}

/// The URL text of a byte string.
pub open spec fn pct_bytes(bs: Seq<u8>) -> Seq<char>
    decreases bs.len(),
{
    if bs.len() == 0 {
        seq![]
    } else {
        pct_bytes(bs.drop_last()) + pct_byte(bs.last())
    }
}

/// Reading URL text back into bytes, from the end.
pub open spec fn pct_decode(cs: Seq<char>) -> Seq<u8>
    decreases cs.len(),
{
    if cs.len() == 0 {
        seq![]
    } else if cs.len() >= 3 && cs[cs.len() - 3] == '%' {
        pct_decode(cs.take(cs.len() - 3)).push(
            (hex_value(cs[cs.len() - 2]) * 16 + hex_value(cs[cs.len() - 1])) as u8,
        )
    } else {
        pct_decode(cs.drop_last()).push(cs.last() as u8)
    }
}

fn hex_digit(d: u8) -> (c: char)
    requires
        d < 16,
    ensures
        c == hex_upper(d as nat),
{
    if d < 10 {
        (48u8 + d) as char
    } else {
        (55u8 + d) as char
    }
}

/// `s` with every byte other than letters, digits and `-_.~` written as `%XY`.
pub fn percent_encode(s: &str) -> (r: String)
    ensures
        r@ == pct_bytes(vstd::utf8::encode_utf8(s@)),
{
    let bytes = s.as_bytes();
    let mut out: Vec<char> = Vec::new();
    let mut i: usize = 0;
    while i < bytes.len()
        invariant
            i <= bytes.len(),
            bytes@ == vstd::utf8::encode_utf8(s@),
            out@ == pct_bytes(bytes@.take(i as int)),
        decreases bytes.len() - i,
    {
        let b = bytes[i];
        assert(bytes@.take(i + 1).drop_last() == bytes@.take(i as int));
        if (48u8 <= b && b <= 57u8) || (97u8 <= b && b <= 122u8) || (65u8 <= b && b <= 90u8) || b
            == 45u8 || b == 95u8 || b == 46u8 || b == 126u8 {
            out.push(b as char);
        } else {
            out.push('%');
            out.push(hex_digit(b / 16));
            out.push(hex_digit(b % 16));
        }
        i += 1;
        assert(out@ =~= pct_bytes(bytes@.take(i as int)));
    }
    assert(bytes@.take(bytes.len() as int) == bytes@);
    string_of(&out)
}

proof fn lemma_pct_no_short_escape(bs: Seq<u8>)
    ensures
        forall|k: int|
            0 <= k < pct_bytes(bs).len() && #[trigger] pct_bytes(bs)[k] == '%' ==> k + 3
                <= pct_bytes(bs).len(),
    decreases bs.len(),
{
    if bs.len() > 0 {
        lemma_pct_no_short_escape(bs.drop_last());
        let p = pct_bytes(bs.drop_last());
        let b = bs.last();
        assert forall|k: int|
            0 <= k < pct_bytes(bs).len() && #[trigger] pct_bytes(bs)[k] == '%' implies k + 3
                <= pct_bytes(bs).len() by {
            if k < p.len() {
                assert(pct_bytes(bs)[k] == p[k]);
            } else if unreserved(b) {
                assert(pct_bytes(bs)[k] == b as char);
            }
        }
    }
}

proof fn lemma_hex_roundtrip(b: u8)
    ensures
        hex_value(hex_upper(b as nat / 16)) * 16 + hex_value(hex_upper(b as nat % 16)) == b,
{
}

/// Percent-encoding loses nothing: decoding the text gives back the bytes.
pub proof fn percent_encode_roundtrip(bs: Seq<u8>)
    ensures
        pct_decode(pct_bytes(bs)) == bs,
    decreases bs.len(),
{
    if bs.len() > 0 {
        let p = pct_bytes(bs.drop_last());
        let b = bs.last();
        let cs = pct_bytes(bs);
        percent_encode_roundtrip(bs.drop_last());
        lemma_pct_no_short_escape(bs.drop_last());
        if unreserved(b) {
            assert(cs == p.push(b as char));
            if cs.len() >= 3 {
                assert(cs[cs.len() - 3] == p[p.len() - 2]);
                if p[p.len() - 2] == '%' {
                    assert(p.len() - 2 + 3 <= p.len());
                }
            }
            assert(cs.drop_last() == p);
        } else {
            lemma_hex_roundtrip(b);
            assert(cs.take(cs.len() - 3) == p);
            assert(cs[cs.len() - 3] == '%');
        }
        assert(bs.drop_last().push(b) == bs);
    }
}

/// Two strings encode to the same URL text only when their bytes are equal.
pub proof fn percent_encode_injective(a: Seq<u8>, b: Seq<u8>)
    ensures
        pct_bytes(a) == pct_bytes(b) ==> a == b,
{
    percent_encode_roundtrip(a);
    percent_encode_roundtrip(b);
}

/// A character that may stand in percent-encoded text: a letter, a digit,
/// one of `-_.~`, or `%`.
pub open spec fn is_url_char(c: char) -> bool {
    ||| ('0' <= c <= '9')
    ||| ('a' <= c <= 'z')
    ||| ('A' <= c <= 'Z')
    ||| c == '-'
    ||| c == '_'
    ||| c == '.'
    ||| c == '~'
    ||| c == '%'
}

/// An upper-case hexadecimal digit.
pub open spec fn is_upper_hex(c: char) -> bool {
    ('0' <= c <= '9') || ('A' <= c <= 'F')
}

/// The length of a byte string's URL text: one character for each byte
/// that stands for itself, three for each other.
pub open spec fn pct_len(bs: Seq<u8>) -> nat
    decreases bs.len(),
{
    if bs.len() == 0 {
        0
    } else {
        pct_len(bs.drop_last()) + if unreserved(bs.last()) {
            1nat
        } else {
            3nat
        }
    }
}

proof fn lemma_hex_upper(d: nat)
    requires
        d < 16,
    ensures
        is_upper_hex(hex_upper(d)),
{
}

/// Percent-encoded text holds only letters, digits, `-_.~` and `%`; each
/// `%` is followed by two upper-case hexadecimal digits; and its length is
/// one character per byte that stands for itself and three per other byte.
pub proof fn percent_encode_shape(bs: Seq<u8>)
    ensures
        forall|k: int| 0 <= k < pct_bytes(bs).len() ==> is_url_char(#[trigger] pct_bytes(bs)[k]),
        forall|k: int|
            0 <= k < pct_bytes(bs).len() && #[trigger] pct_bytes(bs)[k] == '%' ==> k + 2
                < pct_bytes(bs).len() && is_upper_hex(pct_bytes(bs)[k + 1]) && is_upper_hex(
                pct_bytes(bs)[k + 2],
            ),
        pct_bytes(bs).len() == pct_len(bs),
    decreases bs.len(),
{
    if bs.len() > 0 {
        let p = pct_bytes(bs.drop_last());
        let b = bs.last();
        let cs = pct_bytes(bs);
        percent_encode_shape(bs.drop_last());
        lemma_hex_upper(b as nat / 16);
        lemma_hex_upper(b as nat % 16);
        let piece = pct_byte(b);
        assert(cs == p + piece);
        assert forall|k: int| 0 <= k < cs.len() implies is_url_char(#[trigger] cs[k]) by {
            if k < p.len() {
                assert(cs[k] == p[k]);
            } else {
                assert(cs[k] == piece[k - p.len()]);
            }
        }
        assert forall|k: int| 0 <= k < cs.len() && #[trigger] cs[k] == '%' implies k + 2 < cs.len()
            && is_upper_hex(cs[k + 1]) && is_upper_hex(cs[k + 2]) by {
            if k < p.len() {
                assert(cs[k] == p[k]);
                assert(cs[k + 1] == p[k + 1] && cs[k + 2] == p[k + 2]);
            } else {
                assert(cs[k] == piece[k - p.len()]);
                assert(!unreserved(b));
                assert(k == p.len());
                assert(cs[k + 1] == piece[1] && cs[k + 2] == piece[2]);
            }
        }
    }
}

/// The lyrics.ovh address of a song's lyrics.
pub open spec fn lyrics_url_spec(artist: Seq<char>, title: Seq<char>) -> Seq<char> {
    "https://api.lyrics.ovh/v1/"@ + pct_bytes(vstd::utf8::encode_utf8(artist)) + seq!['/']
        + pct_bytes(vstd::utf8::encode_utf8(title))
}

pub fn lyrics_url(artist: &str, title: &str) -> (r: String)
    ensures
        r@ == lyrics_url_spec(artist@, title@),
{
    let mut out = chars_of("https://api.lyrics.ovh/v1/");
    let a = percent_encode(artist);
    push_str(&mut out, a.as_str());
    out.push('/');
    let t = percent_encode(title);
    push_str(&mut out, t.as_str());
    string_of(&out)
}

/// The iTunes album search term: artist and album with a space between.
pub fn art_search_term(artist: &str, album: &str) -> (r: String)
    ensures
        r@ == artist@ + seq![' '] + album@,
{
    let mut out = chars_of(artist);
    out.push(' ');
    push_str(&mut out, album);
    string_of(&out)
}

/// The cover to download for an iTunes search reply with `result_count`
/// results whose first `artworkUrl100` is `url100`: the same picture at
/// 500x500 (`100x100bb` becomes `500x500bb`); `None` when the reply has no
/// result or no address.
pub open spec fn artwork_url_spec(result_count: Option<u64>, url100: Option<Seq<char>>) -> Option<
    Seq<char>,
> {
    match result_count {
        None => None,
        Some(n) => if n == 0 {
            None
        } else {
            match url100 {
                Some(u) => Some(replace_all(u, "100x100bb"@, "500x500bb"@)),
                None => None,
            }
        },
    }
}

/// The text of an optional string.
pub open spec fn opt_string(o: Option<String>) -> Option<Seq<char>> {
    match o {
        Some(s) => Some(s@),
        None => None,
    }
}

pub fn artwork_url(result_count: Option<u64>, url100: Option<String>) -> (r: Option<String>)
    ensures
        r matches Some(u) ==> artwork_url_spec(result_count, opt_string(url100)) == Some(u@),
        r is None ==> artwork_url_spec(result_count, opt_string(url100)) is None,
{
    match result_count {
        None => None,
        Some(n) => if n == 0 {
            None
        } else {
            match url100 {
                Some(u) => {
                    let from = chars_of("100x100bb");
                    let to = chars_of("500x500bb");
                    let r = replace_all_chars(&chars_of(u.as_str()), &from, &to);
                    Some(string_of(&r))
                },
                None => None,
            }
        },
    }
}

/// What an iTunes search reply holds (`serde_json::from_str::<Value>`): the
/// number at `resultCount` and the text at `results[0].artworkUrl100`, each
/// `None` when absent or of another kind; `None` when the reply is not JSON.
pub uninterp spec fn json_art_fields(text: Seq<char>) -> Option<(Option<u64>, Option<Seq<char>>)>;

/// The text at `lyrics` in a lyrics.ovh reply (`serde_json::from_str::<Value>`),
/// `None` when the reply is not JSON or holds no text there.
pub uninterp spec fn json_lyrics(text: Seq<char>) -> Option<Seq<char>>;

/// Parses the reply with `serde_json::from_str::<Value>` and reads its
/// `resultCount` (`as_u64`) and `results[0].artworkUrl100` (`as_str`); the
/// two are named `json_art_fields(text)`.
#[verifier::external_body]
fn art_fields(text: &str) -> (r: Option<(Option<u64>, Option<String>)>)
    ensures
        r matches Some(f) ==> json_art_fields(text@) == Some((f.0, opt_string(f.1))),
        r is None ==> json_art_fields(text@) is None,
{
    match serde_json::from_str::<serde_json::Value>(text) {
        Ok(json) => Some((
            json.get("resultCount").and_then(|n| n.as_u64()),
            json["results"][0]["artworkUrl100"].as_str().map(|s| s.to_string()),
        )),
        Err(_) => None,
    }
}

/// Parses the reply with `serde_json::from_str::<Value>` and reads its
/// `lyrics` (`as_str`); the text is named `json_lyrics(text)`.
#[verifier::external_body]
fn lyrics_field(text: &str) -> (r: Option<String>)
    ensures
        opt_string(r) == json_lyrics(text@),
{
    match serde_json::from_str::<serde_json::Value>(text) {
        Ok(json) => json.get("lyrics").and_then(|l| l.as_str()).map(|s| s.to_string()),
        Err(_) => None,
    }
}

/// The 500x500 cover address an iTunes search reply points to; `None` when
/// the reply is not JSON, finds nothing, or names no artwork.
pub fn art_url_from_reply(text: &str) -> (r: Option<String>)
    ensures
        opt_string(r) == match json_art_fields(text@) {
            Some((n, u)) => artwork_url_spec(n, u),
            None => None,
        },
{
    match art_fields(text) {
        Some((n, u)) => artwork_url(n, u),
        None => None,
    }
}

/// The lyrics a lyrics.ovh reply holds; `None` when it holds none.
pub fn lyrics_from_reply(text: &str) -> (r: Option<String>)
    ensures
        opt_string(r) == json_lyrics(text@),
{
    lyrics_field(text)
}

} // verus!
