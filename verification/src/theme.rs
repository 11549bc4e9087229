//! Color themes: `#rrggbb` colors, the palette of each theme, and cycling
//! through themes and equalizer presets.
use vstd::prelude::*;
use crate::text::{chars_of, eq_str, starts_with, strip_prefix_all, strip_prefix_all_chars};

verus! {

/// An opaque 8-bit RGB color.
#[derive(Clone, Copy, PartialEq, Eq, Structural, Debug)]
pub struct Rgb {
    pub r: u8,
    pub g: u8,
    pub b: u8,
}

pub open spec fn is_hex_digit(c: char) -> bool {
    ('0' <= c <= '9') || ('a' <= c <= 'f') || ('A' <= c <= 'F')
}

pub open spec fn hex_val(c: char) -> nat {
    if '0' <= c <= '9' {
        (c as nat - '0' as nat) as nat
    } else if 'a' <= c <= 'f' {
        (c as nat - 'a' as nat + 10) as nat
    } else {
        (c as nat - 'A' as nat + 10) as nat
    }
}

/// `u8::from_str_radix` of a two-character text in base 16, or 0 when it is
/// not a number (`unwrap_or(0)`): an optional `+` then hexadecimal digits.
pub open spec fn hex_byte(a: char, b: char) -> u8 {
    if a == '+' {
        if is_hex_digit(b) {
            hex_val(b) as u8
        } else {
            0
        }
    } else if is_hex_digit(a) && is_hex_digit(b) {
        (hex_val(a) * 16 + hex_val(b)) as u8
    } else {
        0
    }
}

/// The hexadecimal text of a color: leading `#` marks removed.
pub open spec fn hex_digits(c: Seq<char>) -> Seq<char> {
    strip_prefix_all(c, seq!['#'])
}

/// A character that UTF-8 writes in one byte.
pub open spec fn is_one_byte(c: char) -> bool {
    (c as u32) < 0x80
}

/// A character that UTF-8 writes in two bytes.
pub open spec fn is_two_bytes(c: char) -> bool {
    0x80 <= (c as u32) < 0x800
}

/// The next two-byte piece of a color text, with the characters it takes:
/// two one-byte characters are a byte in base 16; a single two-byte
/// character is no number, so 0. `None` when the piece would end inside a
/// character or after the text.
pub open spec fn color_piece(h: Seq<char>) -> Option<(u8, nat)> {
    if h.len() >= 2 && is_one_byte(h[0]) && is_one_byte(h[1]) {
        Some((hex_byte(h[0], h[1]), 2))
    } else if h.len() >= 1 && is_two_bytes(h[0]) {
        Some((0u8, 1))
    } else {
        None
    }
}

/// The values of the first `n` two-byte pieces of a color text.
pub open spec fn color_bytes(h: Seq<char>, n: nat) -> Option<Seq<u8>>
    decreases n,
{
    if n == 0 {
        Some(Seq::empty())
    } else {
        match color_piece(h) {
            Some((v, k)) => match color_bytes(h.skip(k as int), (n - 1) as nat) {
                Some(rest) => Some(seq![v] + rest),
                None => None,
            },
            None => None,
        }
    }
}

/// A color text whose bytes 0-2, 2-4 and 4-6 after the `#` marks are whole
/// characters, as the text is cut there.
pub open spec fn is_color_text(c: Seq<char>) -> bool {
    color_bytes(hex_digits(c), 3) is Some
}

/// The color written as `#rrggbb`.
pub open spec fn hex_spec(c: Seq<char>) -> Rgb {
    let v = color_bytes(hex_digits(c), 3)->0;
    Rgb { r: v[0], g: v[1], b: v[2] }
}

/// Six one-byte characters are three base-16 bytes.
pub proof fn lemma_ascii_color(h: Seq<char>)
    requires
        h.len() >= 6,
        forall|i: int| 0 <= i < 6 ==> is_one_byte(#[trigger] h[i]),
    ensures
        color_bytes(h, 3) == Some(seq![hex_byte(h[0], h[1]), hex_byte(h[2], h[3]), hex_byte(h[4], h[5])]),
{
    let h2 = h.skip(2);
    let h4 = h2.skip(2);
    assert(h2[0] == h[2] && h2[1] == h[3]);
    assert(h4[0] == h[4] && h4[1] == h[5]);
    assert(color_piece(h) == Some((hex_byte(h[0], h[1]), 2nat)));
    assert(color_piece(h2) == Some((hex_byte(h[2], h[3]), 2nat)));
    assert(color_piece(h4) == Some((hex_byte(h[4], h[5]), 2nat)));
    reveal_with_fuel(color_bytes, 4);
    assert(color_bytes(h4.skip(2), 0) == Some(Seq::<u8>::empty()));
    assert(color_bytes(h4, 1) == Some(seq![hex_byte(h[4], h[5])]));
    assert(color_bytes(h2, 2) == Some(seq![hex_byte(h[2], h[3]), hex_byte(h[4], h[5])]));
}

fn hex_digit_value(c: char) -> (r: Option<u8>)
    ensures
        r matches Some(v) ==> is_hex_digit(c) && v == hex_val(c),
        r is None ==> !is_hex_digit(c),
{
    if '0' <= c && c <= '9' {
        Some((c as u32 - '0' as u32) as u8)
    } else if 'a' <= c && c <= 'f' {
        Some((c as u32 - 'a' as u32 + 10) as u8)
    } else if 'A' <= c && c <= 'F' {
        Some((c as u32 - 'A' as u32 + 10) as u8)
    } else {
        None
    }
}

fn parse_hex_byte(a: char, b: char) -> (r: u8)
    ensures
        r == hex_byte(a, b),
{
    if a == '+' {
        match hex_digit_value(b) {
            Some(v) => v,
            None => 0,
        }
    } else {
        match (hex_digit_value(a), hex_digit_value(b)) {
            (Some(x), Some(y)) => x * 16 + y,
            _ => 0,
        }
    }
}

/// The next two-byte piece of `h` from character `i` on.
fn piece_at(h: &Vec<char>, i: usize) -> (r: Option<(u8, usize)>)
    requires
        i <= h.len(),
    ensures
        match color_piece(h@.skip(i as int)) {
            Some((v, k)) => r == Some((v, k as usize)) && i + k <= h.len(),
            None => r is None,
        },
{
    let ghost t = h@.skip(i as int);
    if h.len() - i >= 2 && (h[i] as u32) < 0x80 && (h[i + 1] as u32) < 0x80 {
        assert(t[0] == h@[i as int] && t[1] == h@[i + 1]);
        Some((parse_hex_byte(h[i], h[i + 1]), 2))
    } else if h.len() - i >= 1 && 0x80 <= (h[i] as u32) && (h[i] as u32) < 0x800 {
        assert(t[0] == h@[i as int]);
        Some((0, 1))
    } else {
        assert(t.len() >= 2 ==> t[0] == h@[i as int] && t[1] == h@[i + 1]);
        assert(t.len() >= 1 ==> t[0] == h@[i as int]);
        None
    }
}

/// The color of a `#rrggbb` text.
pub fn hex(c: &str) -> (r: Rgb)
    requires
        is_color_text(c@),
    ensures
        r == hex_spec(c@),
{
    let v = chars_of(c);
    let h = strip_prefix_all_chars(&v, "#");
    proof {
        reveal_strlit("#");
        assert("#"@ == seq!['#']);
    }
    let ghost hs = h@;
    let (r, k0) = match piece_at(&h, 0) {
        Some(p) => p,
        None => {
            assert(hs.skip(0) =~= hs);
            return Rgb { r: 0, g: 0, b: 0 };
        },
    };
    proof {
        assert(hs.skip(0) =~= hs);
    }
    let (g, k1) = match piece_at(&h, k0) {
        Some(p) => p,
        None => {
            proof {
                reveal_with_fuel(color_bytes, 2);
            }
            return Rgb { r: 0, g: 0, b: 0 };
        },
    };
    proof {
        assert(hs.skip(k0 as int).skip(k1 as int) =~= hs.skip(k0 + k1));
    }
    let (b, _) = match piece_at(&h, k0 + k1) {
        Some(p) => p,
        None => {
            proof {
                reveal_with_fuel(color_bytes, 3);
            }
            return Rgb { r: 0, g: 0, b: 0 };
        },
    };
    proof {
        reveal_with_fuel(color_bytes, 4);
        let t2 = hs.skip(k0 + k1);
        assert(color_bytes(t2.skip((color_piece(t2)->0).1 as int), 0) == Some(Seq::<u8>::empty()));
    }
    Rgb { r, g, b }
}

/// The eight colors of a theme.
#[derive(Clone, Copy, PartialEq, Eq, Structural, Debug)]
pub struct ThemePalette {
    pub bg: Rgb,
    pub fg: Rgb,
    pub accent: Rgb,
    pub highlight: Rgb,
    pub btn_bg: Rgb,
    pub btn_fg: Rgb,
    pub playing_fg: Rgb,
    pub art_bg: Rgb,
}

/// The palette of the theme called `name`; unknown names get the green
/// terminal look.
pub open spec fn palette_spec(name: Seq<char>) -> ThemePalette {
    if name == "Winamp"@ {
        ThemePalette {
            bg: hex_spec("#0b0b0b"@),
            fg: hex_spec("#c8c8c8"@),
            accent: hex_spec("#1ce0ff"@),
            highlight: hex_spec("#1a2525"@),
            btn_bg: hex_spec("#565656"@),
            btn_fg: hex_spec("#e8e8e8"@),
            playing_fg: hex_spec("#8cff1a"@),
            art_bg: hex_spec("#000000"@),
        }
    } else if name == "Cyberpunk"@ {
        ThemePalette {
            bg: hex_spec("#0d0221"@),
            fg: hex_spec("#ff2a6d"@),
            accent: hex_spec("#05d9e8"@),
            highlight: hex_spec("#1a1a3a"@),
            btn_bg: hex_spec("#1a0a2e"@),
            btn_fg: hex_spec("#ff2a6d"@),
            playing_fg: hex_spec("#05d9e8"@),
            art_bg: hex_spec("#1a0030"@),
        }
    } else if name == "Amber"@ {
        ThemePalette {
            bg: hex_spec("#1a1400"@),
            fg: hex_spec("#ffb000"@),
            accent: hex_spec("#cc8800"@),
            highlight: hex_spec("#332200"@),
            btn_bg: hex_spec("#2a2000"@),
            btn_fg: hex_spec("#ffb000"@),
            playing_fg: hex_spec("#ffdd00"@),
            art_bg: hex_spec("#221100"@),
        }
    } else if name == "Ocean"@ {
        ThemePalette {
            bg: hex_spec("#0a1628"@),
            fg: hex_spec("#00d4ff"@),
            accent: hex_spec("#0088aa"@),
            highlight: hex_spec("#0f2844"@),
            btn_bg: hex_spec("#122a4a"@),
            btn_fg: hex_spec("#00d4ff"@),
            playing_fg: hex_spec("#00ffff"@),
            art_bg: hex_spec("#061020"@),
        }
    } else {
        ThemePalette {
            bg: hex_spec("#1e1e1e"@),
            fg: hex_spec("#00ff00"@),
            accent: hex_spec("#00aa00"@),
            highlight: hex_spec("#003300"@),
            btn_bg: hex_spec("#2a2a2a"@),
            btn_fg: hex_spec("#00ff00"@),
            playing_fg: hex_spec("#00ff00"@),
            art_bg: hex_spec("#002200"@),
        }
    }
}

proof fn lemma_one_hash(c: Seq<char>)
    requires
        c.len() == 7,
        c[0] == '#',
        c[1] != '#',
        forall|i: int| 1 <= i < 7 ==> (c[i] as u32) < 128,
    ensures
        hex_digits(c) == c.skip(1),
        is_color_text(c),
{
    assert(c.subrange(0, 1) =~= seq!['#']);
    assert(c.skip(1).subrange(0, 1) != seq!['#']) by {
        assert(c.skip(1).subrange(0, 1)[0] == c[1]);
    }
    assert(strip_prefix_all(c.skip(1), seq!['#']) == c.skip(1));
    assert forall|i: int| 0 <= i < 6 implies is_one_byte(#[trigger] hex_digits(c)[i]) by {
        assert(hex_digits(c)[i] == c[i + 1]);
    }
    lemma_ascii_color(hex_digits(c));
}

proof fn lemma_palette_texts()
    ensures
        is_color_text("#000000"@),
        is_color_text("#002200"@),
        is_color_text("#003300"@),
        is_color_text("#0088aa"@),
        is_color_text("#00aa00"@),
        is_color_text("#00d4ff"@),
        is_color_text("#00ff00"@),
        is_color_text("#00ffff"@),
        is_color_text("#05d9e8"@),
        is_color_text("#061020"@),
        is_color_text("#0a1628"@),
        is_color_text("#0b0b0b"@),
        is_color_text("#0d0221"@),
        is_color_text("#0f2844"@),
        is_color_text("#122a4a"@),
        is_color_text("#1a0030"@),
        is_color_text("#1a0a2e"@),
        is_color_text("#1a1400"@),
        is_color_text("#1a1a3a"@),
        is_color_text("#1a2525"@),
        is_color_text("#1ce0ff"@),
        is_color_text("#1e1e1e"@),
        is_color_text("#221100"@),
        is_color_text("#2a2000"@),
        is_color_text("#2a2a2a"@),
        is_color_text("#332200"@),
        is_color_text("#565656"@),
        is_color_text("#8cff1a"@),
        is_color_text("#c8c8c8"@),
        is_color_text("#cc8800"@),
        is_color_text("#e8e8e8"@),
        is_color_text("#ff2a6d"@),
        is_color_text("#ffb000"@),
        is_color_text("#ffdd00"@),
{
    reveal_strlit("#000000");
    lemma_one_hash("#000000"@);
    reveal_strlit("#002200");
    lemma_one_hash("#002200"@);
    reveal_strlit("#003300");
    lemma_one_hash("#003300"@);
    reveal_strlit("#0088aa");
    lemma_one_hash("#0088aa"@);
    reveal_strlit("#00aa00");
    lemma_one_hash("#00aa00"@);
    reveal_strlit("#00d4ff");
    lemma_one_hash("#00d4ff"@);
    reveal_strlit("#00ff00");
    lemma_one_hash("#00ff00"@);
    reveal_strlit("#00ffff");
    lemma_one_hash("#00ffff"@);
    reveal_strlit("#05d9e8");
    lemma_one_hash("#05d9e8"@);
    reveal_strlit("#061020");
    lemma_one_hash("#061020"@);
    reveal_strlit("#0a1628");
    lemma_one_hash("#0a1628"@);
    reveal_strlit("#0b0b0b");
    lemma_one_hash("#0b0b0b"@);
    reveal_strlit("#0d0221");
    lemma_one_hash("#0d0221"@);
    reveal_strlit("#0f2844");
    lemma_one_hash("#0f2844"@);
    reveal_strlit("#122a4a");
    lemma_one_hash("#122a4a"@);
    reveal_strlit("#1a0030");
    lemma_one_hash("#1a0030"@);
    reveal_strlit("#1a0a2e");
    lemma_one_hash("#1a0a2e"@);
    reveal_strlit("#1a1400");
    lemma_one_hash("#1a1400"@);
    reveal_strlit("#1a1a3a");
    lemma_one_hash("#1a1a3a"@);
    reveal_strlit("#1a2525");
    lemma_one_hash("#1a2525"@);
    reveal_strlit("#1ce0ff");
    lemma_one_hash("#1ce0ff"@);
    reveal_strlit("#1e1e1e");
    lemma_one_hash("#1e1e1e"@);
    reveal_strlit("#221100");
    lemma_one_hash("#221100"@);
    reveal_strlit("#2a2000");
    lemma_one_hash("#2a2000"@);
    reveal_strlit("#2a2a2a");
    lemma_one_hash("#2a2a2a"@);
    reveal_strlit("#332200");
    lemma_one_hash("#332200"@);
    reveal_strlit("#565656");
    lemma_one_hash("#565656"@);
    reveal_strlit("#8cff1a");
    lemma_one_hash("#8cff1a"@);
    reveal_strlit("#c8c8c8");
    lemma_one_hash("#c8c8c8"@);
    reveal_strlit("#cc8800");
    lemma_one_hash("#cc8800"@);
    reveal_strlit("#e8e8e8");
    lemma_one_hash("#e8e8e8"@);
    reveal_strlit("#ff2a6d");
    lemma_one_hash("#ff2a6d"@);
    reveal_strlit("#ffb000");
    lemma_one_hash("#ffb000"@);
    reveal_strlit("#ffdd00");
    lemma_one_hash("#ffdd00"@);
}

pub fn palette(name: &str) -> (r: ThemePalette)
    ensures
        r == palette_spec(name@),
{
    proof {
        lemma_palette_texts();
    }
    let n = chars_of(name);
    if eq_str(&n, "Winamp") {
        ThemePalette {
            bg: hex("#0b0b0b"),
            fg: hex("#c8c8c8"),
            accent: hex("#1ce0ff"),
            highlight: hex("#1a2525"),
            btn_bg: hex("#565656"),
            btn_fg: hex("#e8e8e8"),
            playing_fg: hex("#8cff1a"),
            art_bg: hex("#000000"),
        }
    } else if eq_str(&n, "Cyberpunk") {
        ThemePalette {
            bg: hex("#0d0221"),
            fg: hex("#ff2a6d"),
            accent: hex("#05d9e8"),
            highlight: hex("#1a1a3a"),
            btn_bg: hex("#1a0a2e"),
            btn_fg: hex("#ff2a6d"),
            playing_fg: hex("#05d9e8"),
            art_bg: hex("#1a0030"),
        }
    } else if eq_str(&n, "Amber") {
        ThemePalette {
            bg: hex("#1a1400"),
            fg: hex("#ffb000"),
            accent: hex("#cc8800"),
            highlight: hex("#332200"),
            btn_bg: hex("#2a2000"),
            btn_fg: hex("#ffb000"),
            playing_fg: hex("#ffdd00"),
            art_bg: hex("#221100"),
        }
    } else if eq_str(&n, "Ocean") {
        ThemePalette {
            bg: hex("#0a1628"),
            fg: hex("#00d4ff"),
            accent: hex("#0088aa"),
            highlight: hex("#0f2844"),
            btn_bg: hex("#122a4a"),
            btn_fg: hex("#00d4ff"),
            playing_fg: hex("#00ffff"),
            art_bg: hex("#061020"),
        }
    } else {
        ThemePalette {
            bg: hex("#1e1e1e"),
            fg: hex("#00ff00"),
            accent: hex("#00aa00"),
            highlight: hex("#003300"),
            btn_bg: hex("#2a2a2a"),
            btn_fg: hex("#00ff00"),
            playing_fg: hex("#00ff00"),
            art_bg: hex("#002200"),
        }
    }
}

} // verus!

verus! {

/// The theme after `cur` in the theme list (the first theme counts as current
/// when `cur` is not a theme).
pub open spec fn next_theme_spec(cur: Seq<char>) -> Seq<char> {
    if cur == "Winamp"@ {
        "Matrix"@
    } else if cur == "Matrix"@ {
        "Cyberpunk"@
    } else if cur == "Cyberpunk"@ {
        "Amber"@
    } else if cur == "Amber"@ {
        "Ocean"@
    } else if cur == "Ocean"@ {
        "Winamp"@
    } else {
        "Matrix"@
    }
}

/// The theme that the theme button switches to.
pub fn next_theme(cur: &str) -> (r: &'static str)
    ensures
        r@ == next_theme_spec(cur@),
{
    let c = chars_of(cur);
    if eq_str(&c, "Winamp") {
        "Matrix"
    } else if eq_str(&c, "Matrix") {
        "Cyberpunk"
    } else if eq_str(&c, "Cyberpunk") {
        "Amber"
    } else if eq_str(&c, "Amber") {
        "Ocean"
    } else if eq_str(&c, "Ocean") {
        "Winamp"
    } else {
        "Matrix"
    }
}

/// The equalizer preset after `cur` (the first preset counts as current when
/// `cur` is not a preset).
pub open spec fn next_eq_preset_spec(cur: Seq<char>) -> Seq<char> {
    if cur == "Flat"@ {
        "Metal"@
    } else if cur == "Metal"@ {
        "Rock"@
    } else if cur == "Rock"@ {
        "Pop"@
    } else if cur == "Pop"@ {
        "Heavy Metal"@
    } else if cur == "Heavy Metal"@ {
        "Death Metal"@
    } else if cur == "Death Metal"@ {
        "Punk Rock"@
    } else if cur == "Punk Rock"@ {
        "Bass Boost"@
    } else if cur == "Bass Boost"@ {
        "Treble Boost"@
    } else if cur == "Treble Boost"@ {
        "Vocal"@
    } else if cur == "Vocal"@ {
        "Flat"@
    } else {
        "Metal"@
    }
}

/// The equalizer preset before `cur` (the first preset counts as current when
/// `cur` is not a preset).
pub open spec fn prev_eq_preset_spec(cur: Seq<char>) -> Seq<char> {
    if cur == "Flat"@ {
        "Vocal"@
    } else if cur == "Metal"@ {
        "Flat"@
    } else if cur == "Rock"@ {
        "Metal"@
    } else if cur == "Pop"@ {
        "Rock"@
    } else if cur == "Heavy Metal"@ {
        "Pop"@
    } else if cur == "Death Metal"@ {
        "Heavy Metal"@
    } else if cur == "Punk Rock"@ {
        "Death Metal"@
    } else if cur == "Bass Boost"@ {
        "Punk Rock"@
    } else if cur == "Treble Boost"@ {
        "Bass Boost"@
    } else if cur == "Vocal"@ {
        "Treble Boost"@
    } else {
        "Vocal"@
    }
}

/// The preset that the EQ button switches to.
pub fn next_eq_preset(cur: &str) -> (r: &'static str)
    ensures
        r@ == next_eq_preset_spec(cur@),
{
    let c = chars_of(cur);
    if eq_str(&c, "Flat") {
        "Metal"
    } else if eq_str(&c, "Metal") {
        "Rock"
    } else if eq_str(&c, "Rock") {
        "Pop"
    } else if eq_str(&c, "Pop") {
        "Heavy Metal"
    } else if eq_str(&c, "Heavy Metal") {
        "Death Metal"
    } else if eq_str(&c, "Death Metal") {
        "Punk Rock"
    } else if eq_str(&c, "Punk Rock") {
        "Bass Boost"
    } else if eq_str(&c, "Bass Boost") {
        "Treble Boost"
    } else if eq_str(&c, "Treble Boost") {
        "Vocal"
    } else if eq_str(&c, "Vocal") {
        "Flat"
    } else {
        "Metal"
    }
}

/// The preset that the EQ back button switches to.
pub fn prev_eq_preset(cur: &str) -> (r: &'static str)
    ensures
        r@ == prev_eq_preset_spec(cur@),
{
    let c = chars_of(cur);
    if eq_str(&c, "Flat") {
        "Vocal"
    } else if eq_str(&c, "Metal") {
        "Flat"
    } else if eq_str(&c, "Rock") {
        "Metal"
    } else if eq_str(&c, "Pop") {
        "Rock"
    } else if eq_str(&c, "Heavy Metal") {
        "Pop"
    } else if eq_str(&c, "Death Metal") {
        "Heavy Metal"
    } else if eq_str(&c, "Punk Rock") {
        "Death Metal"
    } else if eq_str(&c, "Bass Boost") {
        "Punk Rock"
    } else if eq_str(&c, "Treble Boost") {
        "Bass Boost"
    } else if eq_str(&c, "Vocal") {
        "Treble Boost"
    } else {
        "Vocal"
    }
}

pub open spec fn is_theme_name(s: Seq<char>) -> bool {
    ||| s == "Winamp"@
    ||| s == "Matrix"@
    ||| s == "Cyberpunk"@
    ||| s == "Amber"@
    ||| s == "Ocean"@
}

pub open spec fn is_eq_preset_name(s: Seq<char>) -> bool {
    ||| s == "Flat"@
    ||| s == "Metal"@
    ||| s == "Rock"@
    ||| s == "Pop"@
    ||| s == "Heavy Metal"@
    ||| s == "Death Metal"@
    ||| s == "Punk Rock"@
    ||| s == "Bass Boost"@
    ||| s == "Treble Boost"@
    ||| s == "Vocal"@
}

proof fn lemma_theme_names_distinct()
    ensures
        "Winamp"@ != "Matrix"@,
        "Winamp"@ != "Cyberpunk"@,
        "Winamp"@ != "Amber"@,
        "Winamp"@ != "Ocean"@,
        "Matrix"@ != "Cyberpunk"@,
        "Matrix"@ != "Amber"@,
        "Matrix"@ != "Ocean"@,
        "Cyberpunk"@ != "Amber"@,
        "Cyberpunk"@ != "Ocean"@,
        "Amber"@ != "Ocean"@,
{
    reveal_strlit("Winamp");
    reveal_strlit("Matrix");
    reveal_strlit("Cyberpunk");
    reveal_strlit("Amber");
    reveal_strlit("Ocean");
    assert("Winamp"@.len() != "Matrix"@.len() || "Winamp"@[0] != "Matrix"@[0] || "Winamp"@[1] != "Matrix"@[1]);
    assert("Winamp"@.len() != "Cyberpunk"@.len() || "Winamp"@[0] != "Cyberpunk"@[0] || "Winamp"@[1] != "Cyberpunk"@[1]);
    assert("Winamp"@.len() != "Amber"@.len() || "Winamp"@[0] != "Amber"@[0] || "Winamp"@[1] != "Amber"@[1]);
    assert("Winamp"@.len() != "Ocean"@.len() || "Winamp"@[0] != "Ocean"@[0] || "Winamp"@[1] != "Ocean"@[1]);
    assert("Matrix"@.len() != "Cyberpunk"@.len() || "Matrix"@[0] != "Cyberpunk"@[0] || "Matrix"@[1] != "Cyberpunk"@[1]);
    assert("Matrix"@.len() != "Amber"@.len() || "Matrix"@[0] != "Amber"@[0] || "Matrix"@[1] != "Amber"@[1]);
    assert("Matrix"@.len() != "Ocean"@.len() || "Matrix"@[0] != "Ocean"@[0] || "Matrix"@[1] != "Ocean"@[1]);
    assert("Cyberpunk"@.len() != "Amber"@.len() || "Cyberpunk"@[0] != "Amber"@[0] || "Cyberpunk"@[1] != "Amber"@[1]);
    assert("Cyberpunk"@.len() != "Ocean"@.len() || "Cyberpunk"@[0] != "Ocean"@[0] || "Cyberpunk"@[1] != "Ocean"@[1]);
    assert("Amber"@.len() != "Ocean"@.len() || "Amber"@[0] != "Ocean"@[0] || "Amber"@[1] != "Ocean"@[1]);
}

proof fn lemma_eq_names_distinct()
    ensures
        "Flat"@ != "Metal"@,
        "Flat"@ != "Rock"@,
        "Flat"@ != "Pop"@,
        "Flat"@ != "Heavy Metal"@,
        "Flat"@ != "Death Metal"@,
        "Flat"@ != "Punk Rock"@,
        "Flat"@ != "Bass Boost"@,
        "Flat"@ != "Treble Boost"@,
        "Flat"@ != "Vocal"@,
        "Metal"@ != "Rock"@,
        "Metal"@ != "Pop"@,
        "Metal"@ != "Heavy Metal"@,
        "Metal"@ != "Death Metal"@,
        "Metal"@ != "Punk Rock"@,
        "Metal"@ != "Bass Boost"@,
        "Metal"@ != "Treble Boost"@,
        "Metal"@ != "Vocal"@,
        "Rock"@ != "Pop"@,
        "Rock"@ != "Heavy Metal"@,
        "Rock"@ != "Death Metal"@,
        "Rock"@ != "Punk Rock"@,
        "Rock"@ != "Bass Boost"@,
        "Rock"@ != "Treble Boost"@,
        "Rock"@ != "Vocal"@,
        "Pop"@ != "Heavy Metal"@,
        "Pop"@ != "Death Metal"@,
        "Pop"@ != "Punk Rock"@,
        "Pop"@ != "Bass Boost"@,
        "Pop"@ != "Treble Boost"@,
        "Pop"@ != "Vocal"@,
        "Heavy Metal"@ != "Death Metal"@,
        "Heavy Metal"@ != "Punk Rock"@,
        "Heavy Metal"@ != "Bass Boost"@,
        "Heavy Metal"@ != "Treble Boost"@,
        "Heavy Metal"@ != "Vocal"@,
        "Death Metal"@ != "Punk Rock"@,
        "Death Metal"@ != "Bass Boost"@,
        "Death Metal"@ != "Treble Boost"@,
        "Death Metal"@ != "Vocal"@,
        "Punk Rock"@ != "Bass Boost"@,
        "Punk Rock"@ != "Treble Boost"@,
        "Punk Rock"@ != "Vocal"@,
        "Bass Boost"@ != "Treble Boost"@,
        "Bass Boost"@ != "Vocal"@,
        "Treble Boost"@ != "Vocal"@,
{
    reveal_strlit("Flat");
    reveal_strlit("Metal");
    reveal_strlit("Rock");
    reveal_strlit("Pop");
    reveal_strlit("Heavy Metal");
    reveal_strlit("Death Metal");
    reveal_strlit("Punk Rock");
    reveal_strlit("Bass Boost");
    reveal_strlit("Treble Boost");
    reveal_strlit("Vocal");
    assert("Flat"@.len() != "Metal"@.len());
    assert("Flat"@[0] != "Rock"@[0]);
    assert("Flat"@.len() != "Pop"@.len());
    assert("Flat"@.len() != "Heavy Metal"@.len());
    assert("Flat"@.len() != "Death Metal"@.len());
    assert("Flat"@.len() != "Punk Rock"@.len());
    assert("Flat"@.len() != "Bass Boost"@.len());
    assert("Flat"@.len() != "Treble Boost"@.len());
    assert("Flat"@.len() != "Vocal"@.len());
    assert("Metal"@.len() != "Rock"@.len());
    assert("Metal"@.len() != "Pop"@.len());
    assert("Metal"@.len() != "Heavy Metal"@.len());
    assert("Metal"@.len() != "Death Metal"@.len());
    assert("Metal"@.len() != "Punk Rock"@.len());
    assert("Metal"@.len() != "Bass Boost"@.len());
    assert("Metal"@.len() != "Treble Boost"@.len());
    assert("Metal"@[0] != "Vocal"@[0]);
    assert("Rock"@.len() != "Pop"@.len());
    assert("Rock"@.len() != "Heavy Metal"@.len());
    assert("Rock"@.len() != "Death Metal"@.len());
    assert("Rock"@.len() != "Punk Rock"@.len());
    assert("Rock"@.len() != "Bass Boost"@.len());
    assert("Rock"@.len() != "Treble Boost"@.len());
    assert("Rock"@.len() != "Vocal"@.len());
    assert("Pop"@.len() != "Heavy Metal"@.len());
    assert("Pop"@.len() != "Death Metal"@.len());
    assert("Pop"@.len() != "Punk Rock"@.len());
    assert("Pop"@.len() != "Bass Boost"@.len());
    assert("Pop"@.len() != "Treble Boost"@.len());
    assert("Pop"@.len() != "Vocal"@.len());
    assert("Heavy Metal"@[0] != "Death Metal"@[0]);
    assert("Heavy Metal"@.len() != "Punk Rock"@.len());
    assert("Heavy Metal"@.len() != "Bass Boost"@.len());
    assert("Heavy Metal"@.len() != "Treble Boost"@.len());
    assert("Heavy Metal"@.len() != "Vocal"@.len());
    assert("Death Metal"@.len() != "Punk Rock"@.len());
    assert("Death Metal"@.len() != "Bass Boost"@.len());
    assert("Death Metal"@.len() != "Treble Boost"@.len());
    assert("Death Metal"@.len() != "Vocal"@.len());
    assert("Punk Rock"@.len() != "Bass Boost"@.len());
    assert("Punk Rock"@.len() != "Treble Boost"@.len());
    assert("Punk Rock"@.len() != "Vocal"@.len());
    assert("Bass Boost"@.len() != "Treble Boost"@.len());
    assert("Bass Boost"@.len() != "Vocal"@.len());
    assert("Treble Boost"@.len() != "Vocal"@.len());
}

/// Pressing the theme button once per theme comes back to the theme one
/// started from.
pub proof fn theme_cycle(t: Seq<char>)
    requires
        is_theme_name(t),
    ensures
        next_theme_spec(next_theme_spec(next_theme_spec(next_theme_spec(next_theme_spec(t))))) == t,
{
    lemma_theme_names_distinct();
}

/// Stepping back through the EQ presets undoes stepping forward, and the other
/// way round.
pub proof fn eq_preset_step_back_undoes(p: Seq<char>)
    requires
        is_eq_preset_name(p),
    ensures
        prev_eq_preset_spec(next_eq_preset_spec(p)) == p,
        next_eq_preset_spec(prev_eq_preset_spec(p)) == p,
{
    lemma_eq_names_distinct();
}

} // verus!
