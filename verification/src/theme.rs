//! The colours of the viewer, read from the active CYBERGRID palette: each
//! palette entry is a hex colour such as `ff2a6d` (leading `#`s are skipped).
use vstd::prelude::*;
use vstd::string::*;
use vstd::utf8::{encode_utf8, is_ascii_chars, is_ascii_chars_encode_utf8, is_continuation_byte};

verus! {

/// A terminal colour.
#[derive(Clone, Copy, Debug, PartialEq, Eq, Structural)]
pub enum Color {
    White,
    Rgb(u8, u8, u8),
}

/// The number of leading `#` bytes of `b`.
pub open spec fn hash_count(b: Seq<u8>) -> int
    decreases b.len(),
{
    if b.len() > 0 && b[0] == 0x23 {
        1 + hash_count(b.drop_first())
    } else {
        0
    }
}

/// `b` without its leading `#`s (`trim_start_matches('#')`).
pub open spec fn hex_digits(b: Seq<u8>) -> Seq<u8> {
    b.skip(hash_count(b))
}

/// The value of one hexadecimal digit byte.
pub open spec fn hex_value(c: u8) -> Option<u8> {
    if 0x30 <= c <= 0x39 {
        Some((c - 0x30) as u8)
    } else if 0x61 <= c <= 0x66 {
        Some((c - 0x61 + 10) as u8)
    } else if 0x41 <= c <= 0x46 {
        Some((c - 0x41 + 10) as u8)
    } else {
        None
    }
}

/// `u8::from_str_radix(_, 16)` on the two-byte text `[b0, b1]`: an optional
/// `+` and then hexadecimal digits only.
pub open spec fn radix16_pair(b0: u8, b1: u8) -> Option<u8> {
    if b0 == 0x2b {
        hex_value(b1)
    } else {
        match (hex_value(b0), hex_value(b1)) {
            (Some(h), Some(l)) => Some((h * 16 + l) as u8),
            _ => None,
        }
    }
}

/// A parsed channel, 255 when it did not parse.
pub open spec fn channel(v: Option<u8>) -> u8 {
    match v {
        Some(x) => x,
        None => 255,
    }
}

/// The colour a hex entry stands for: white when fewer than six bytes are
/// left after the `#`s, else the three two-byte channels (255 where one does
/// not parse).
pub open spec fn color_of(b: Seq<u8>) -> Color {
    let d = hex_digits(b);
    if d.len() < 6 {
        Color::White
    } else {
        Color::Rgb(
            channel(radix16_pair(d[0], d[1])),
            channel(radix16_pair(d[2], d[3])),
            channel(radix16_pair(d[4], d[5])),
        )
    }
}

/// The channel slices of the entry fall on character boundaries (else the
/// slicing panics).
pub open spec fn splits_cleanly(b: Seq<u8>) -> bool {
    let d = hex_digits(b);
    d.len() >= 6 ==> !is_continuation_byte(d[2]) && !is_continuation_byte(d[4]) && (d.len() == 6
        || !is_continuation_byte(d[6]))
}

/// The leading `#`s of `b` are within it, all `#`, and followed by no `#`.
pub proof fn lemma_hash_count(b: Seq<u8>)
    ensures
        0 <= hash_count(b) <= b.len(),
        forall|i: int| 0 <= i < hash_count(b) ==> b[i] == 0x23,
        hash_count(b) < b.len() ==> b[hash_count(b)] != 0x23,
    decreases b.len(),
{
    if b.len() > 0 && b[0] == 0x23 {
        lemma_hash_count(b.drop_first());
        assert forall|i: int| 0 <= i < hash_count(b) implies b[i] == 0x23 by {
            if i > 0 {
                assert(b[i] == b.drop_first()[i - 1]);
            }
        }
    }
}

proof fn lemma_hash_count_at(b: Seq<u8>, k: int)
    requires
        0 <= k <= b.len(),
        forall|i: int| 0 <= i < k ==> b[i] == 0x23,
        k == b.len() || b[k] != 0x23,
    ensures
        hash_count(b) == k,
    decreases k,
{
    if k > 0 {
        lemma_hash_count_at(b.drop_first(), k - 1);
    }
}

fn hex_digit(c: u8) -> (v: Option<u8>)
    ensures
        v == hex_value(c),
{
    if 0x30 <= c && c <= 0x39 {
        Some(c - 0x30)
    } else if 0x61 <= c && c <= 0x66 {
        Some(c - 0x61 + 10)
    } else if 0x41 <= c && c <= 0x46 {
        Some(c - 0x41 + 10)
    } else {
        None
    }
}

fn pair_value(b0: u8, b1: u8) -> (v: u8)
    ensures
        v == channel(radix16_pair(b0, b1)),
{
    if b0 == 0x2b {
        match hex_digit(b1) {
            Some(x) => x,
            None => 255,
        }
    } else {
        match (hex_digit(b0), hex_digit(b1)) {
            (Some(h), Some(l)) => h * 16 + l,
            _ => 255,
        }
    }
}

/// The colour of a hex entry such as `#ff2a6d`.
pub fn hex_color(hex: &str) -> (c: Color)
    requires
        splits_cleanly(hex.spec_bytes()),
    ensures
        c == color_of(hex.spec_bytes()),
{
    let b = hex.as_bytes();
    let mut k: usize = 0;
    while k < b.len() && b[k] == 0x23
        invariant
            b@ == hex.spec_bytes(),
            k <= b@.len(),
            forall|i: int| 0 <= i < k ==> b@[i] == 0x23,
        decreases b@.len() - k,
    {
        k = k + 1;
    }
    proof {
        lemma_hash_count_at(b@, k as int);
    }
    if b.len() - k < 6 {
        return Color::White;
    }
    assert(hex_digits(b@)[0] == b@[k as int]);
    assert(hex_digits(b@)[1] == b@[k + 1]);
    assert(hex_digits(b@)[2] == b@[k + 2]);
    assert(hex_digits(b@)[3] == b@[k + 3]);
    assert(hex_digits(b@)[4] == b@[k + 4]);
    assert(hex_digits(b@)[5] == b@[k + 5]);
    Color::Rgb(
        pair_value(b[k], b[k + 1]),
        pair_value(b[k + 2], b[k + 3]),
        pair_value(b[k + 4], b[k + 5]),
    )
}

/// An ASCII entry always splits cleanly.
pub proof fn lemma_ascii_splits_cleanly(s: Seq<char>)
    requires
        is_ascii_chars(s),
    ensures
        splits_cleanly(encode_utf8(s)),
{
    is_ascii_chars_encode_utf8(s);
    let b = encode_utf8(s);
    assert forall|i: int| 0 <= i < b.len() implies !is_continuation_byte(#[trigger] b[i]) by {
        assert(s[i] as u8 == b[i]);
        assert('\0' <= s[i] <= '\u{7f}');
    }
    lemma_hash_count(b);
    let d = hex_digits(b);
    assert forall|i: int| 0 <= i < d.len() implies !is_continuation_byte(#[trigger] d[i]) by {
        assert(d[i] == b[i + hash_count(b)]);
    }
}

/// A hexadecimal digit character.
pub open spec fn is_hex_char(c: char) -> bool {
    ||| '0' <= c <= '9'
    ||| 'a' <= c <= 'f'
    ||| 'A' <= c <= 'F'
}

/// An entry of exactly six hexadecimal digits, such as `ff2a6d`.
pub open spec fn is_hex6(s: Seq<char>) -> bool {
    s.len() == 6 && forall|i: int| 0 <= i < 6 ==> is_hex_char(#[trigger] s[i])
}

/// A six-digit entry is ASCII and stands for an RGB colour, its three digit
/// pairs read in turn.
pub proof fn lemma_hex6_color(s: Seq<char>)
    requires
        is_hex6(s),
    ensures
        is_ascii_chars(s),
        entry_color(s) == Color::Rgb(
            channel(radix16_pair(s[0] as u8, s[1] as u8)),
            channel(radix16_pair(s[2] as u8, s[3] as u8)),
            channel(radix16_pair(s[4] as u8, s[5] as u8)),
        ),
{
    assert(is_ascii_chars(s)) by {
        assert forall|i: int| 0 <= i < s.len() implies '\0' <= #[trigger] s[i] <= '\u{7f}' by {
            assert(is_hex_char(s[i]));
        }
    }
    is_ascii_chars_encode_utf8(s);
    let b = encode_utf8(s);
    assert(is_hex_char(s[0]));
    assert(b[0] == s[0] as u8);
    assert(hash_count(b) == 0);
    assert(hex_digits(b) =~= b);
    assert(b[1] == s[1] as u8);
    assert(b[2] == s[2] as u8);
    assert(b[3] == s[3] as u8);
    assert(b[4] == s[4] as u8);
    assert(b[5] == s[5] as u8);
}

/// The eleven colour roles of a CYBERGRID palette, each a hex entry.
pub struct Palette {
    pub bg: String,
    pub white: String,
    pub acid_green: String,
    pub hot_pink: String,
    pub purple: String,
    pub cyan: String,
    pub orange: String,
    pub red: String,
    pub panel: String,
    pub line: String,
    pub muted: String,
}

impl Palette {
    /// Every entry's channel slices fall on character boundaries.
    pub open spec fn splits_cleanly(&self) -> bool {
        &&& splits_cleanly(encode_utf8(self.bg@))
        &&& splits_cleanly(encode_utf8(self.white@))
        &&& splits_cleanly(encode_utf8(self.acid_green@))
        &&& splits_cleanly(encode_utf8(self.hot_pink@))
        &&& splits_cleanly(encode_utf8(self.purple@))
        &&& splits_cleanly(encode_utf8(self.cyan@))
        &&& splits_cleanly(encode_utf8(self.orange@))
        &&& splits_cleanly(encode_utf8(self.red@))
        &&& splits_cleanly(encode_utf8(self.panel@))
        &&& splits_cleanly(encode_utf8(self.line@))
        &&& splits_cleanly(encode_utf8(self.muted@))
    }

    /// Every entry is six hexadecimal digits.
    pub open spec fn is_hex(&self) -> bool {
        &&& is_hex6(self.bg@)
        &&& is_hex6(self.white@)
        &&& is_hex6(self.acid_green@)
        &&& is_hex6(self.hot_pink@)
        &&& is_hex6(self.purple@)
        &&& is_hex6(self.cyan@)
        &&& is_hex6(self.orange@)
        &&& is_hex6(self.red@)
        &&& is_hex6(self.panel@)
        &&& is_hex6(self.line@)
        &&& is_hex6(self.muted@)
    }
}

/// The viewer's colours.
#[derive(Clone, Copy, Debug)]
pub struct Theme {
    pub bg: Color,
    pub white: Color,
    pub acid_green: Color,
    pub hot_pink: Color,
    pub purple: Color,
    pub cyan: Color,
    pub orange: Color,
    pub red: Color,
    pub panel: Color,
    pub line: Color,
    pub muted: Color,
}

impl Theme {
    /// Every role is an RGB colour.
    pub open spec fn all_rgb(&self) -> bool {
        &&& self.bg is Rgb
        &&& self.white is Rgb
        &&& self.acid_green is Rgb
        &&& self.hot_pink is Rgb
        &&& self.purple is Rgb
        &&& self.cyan is Rgb
        &&& self.orange is Rgb
        &&& self.red is Rgb
        &&& self.panel is Rgb
        &&& self.line is Rgb
        &&& self.muted is Rgb
    }
}

/// The colour of a palette entry, judged by its UTF-8 bytes.
pub open spec fn entry_color(s: Seq<char>) -> Color {
    color_of(encode_utf8(s))
}

/// The theme a palette gives: each role the colour of its entry.
pub open spec fn theme_of(p: Palette) -> Theme {
    Theme {
        bg: entry_color(p.bg@),
        white: entry_color(p.white@),
        acid_green: entry_color(p.acid_green@),
        hot_pink: entry_color(p.hot_pink@),
        purple: entry_color(p.purple@),
        cyan: entry_color(p.cyan@),
        orange: entry_color(p.orange@),
        red: entry_color(p.red@),
        panel: entry_color(p.panel@),
        line: entry_color(p.line@),
        muted: entry_color(p.muted@),
    }
}

fn entry(s: &String) -> (c: Color)
    requires
        splits_cleanly(encode_utf8(s@)),
    ensures
        c == entry_color(s@),
{
    hex_color(s.as_str())
}

/// A palette of six-digit entries splits cleanly and gives RGB colours only.
pub proof fn lemma_hex_palette(p: Palette)
    requires
        p.is_hex(),
    ensures
        p.splits_cleanly(),
        theme_of(p).all_rgb(),
{
    lemma_hex6_color(p.bg@);
    lemma_hex6_color(p.white@);
    lemma_hex6_color(p.acid_green@);
    lemma_hex6_color(p.hot_pink@);
    lemma_hex6_color(p.purple@);
    lemma_hex6_color(p.cyan@);
    lemma_hex6_color(p.orange@);
    lemma_hex6_color(p.red@);
    lemma_hex6_color(p.panel@);
    lemma_hex6_color(p.line@);
    lemma_hex6_color(p.muted@);
    lemma_ascii_splits_cleanly(p.bg@);
    lemma_ascii_splits_cleanly(p.white@);
    lemma_ascii_splits_cleanly(p.acid_green@);
    lemma_ascii_splits_cleanly(p.hot_pink@);
    lemma_ascii_splits_cleanly(p.purple@);
    lemma_ascii_splits_cleanly(p.cyan@);
    lemma_ascii_splits_cleanly(p.orange@);
    lemma_ascii_splits_cleanly(p.red@);
    lemma_ascii_splits_cleanly(p.panel@);
    lemma_ascii_splits_cleanly(p.line@);
    lemma_ascii_splits_cleanly(p.muted@);
}

/// Calls `cybercore::schema::load()` and copies out its resolved `palette`
/// (the active theme, or the one named by `CYBERGRID_THEME`). Claims only that
/// every entry is six hexadecimal digits, as every theme embedded in cybercore
/// 0.8.2 is; which theme comes back depends on the environment and is not
/// stated.
#[verifier::external_body]
fn active_palette() -> (p: Palette)
    ensures
        p.is_hex(),
{
    let p = &cybercore::schema::load().palette;
    Palette {
        bg: p.bg.clone(),
        white: p.white.clone(),
        acid_green: p.acid_green.clone(),
        hot_pink: p.hot_pink.clone(),
        purple: p.purple.clone(),
        cyan: p.cyan.clone(),
        orange: p.orange.clone(),
        red: p.red.clone(),
        panel: p.panel.clone(),
        line: p.line.clone(),
        muted: p.muted.clone(),
    }
}

impl Theme {
    /// The theme of a palette whose entries can be cut into channels.
    pub fn from_palette(p: &Palette) -> (t: Theme)
        requires
            p.splits_cleanly(),
        ensures
            t == theme_of(*p),
    {
        Theme {
            bg: entry(&p.bg),
            white: entry(&p.white),
            acid_green: entry(&p.acid_green),
            hot_pink: entry(&p.hot_pink),
            purple: entry(&p.purple),
            cyan: entry(&p.cyan),
            orange: entry(&p.orange),
            red: entry(&p.red),
            panel: entry(&p.panel),
            line: entry(&p.line),
            muted: entry(&p.muted),
        }
    }

    /// The theme of cybercore's active CYBERGRID palette.
    pub fn from_cybercore() -> (t: Theme)
        ensures
            t.all_rgb(),
            exists|p: Palette| p.is_hex() && t == theme_of(p),
    {
        let p = active_palette();
        proof {
            lemma_hex_palette(p);
        }
        Theme::from_palette(&p)
    }
}

} // verus!
