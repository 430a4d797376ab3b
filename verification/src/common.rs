//! Shared primitives: the operating status and the RGB color model with its
//! hex-text codec and exact integer blending.

use vstd::prelude::*;
use vstd::string::*;

verus! {

use vstd::arithmetic::div_mod::{
    lemma_div_is_ordered,
    lemma_div_pos_is_pos,
    lemma_fundamental_div_mod_converse,
};

/// Operating profile, derived each tick from the external liveness flag.
#[derive(Copy, Clone, Debug, PartialEq, Eq, Structural)]
pub enum Status {
    Normal,
    Sleep,
}

/// 24-bit red-green-blue color, one byte per channel.
#[derive(Copy, Clone, Debug, PartialEq, Eq, Structural)]
pub struct Color {
    pub red: u8,
    pub green: u8,
    pub blue: u8,
}

/// The all-channels-zero color.
pub open spec fn black() -> Color {
    Color { red: 0, green: 0, blue: 0 }
}

impl Default for Color {
    fn default() -> (c: Color)
        ensures
            c == black(),
    {
        Color { red: 0, green: 0, blue: 0 }
    }
}

impl Color {
    pub fn black() -> (c: Color)
        ensures
            c == black(),
    {
        Color { red: 0, green: 0, blue: 0 }
    }

    pub fn red(self) -> (r: u8)
        ensures
            r == self.red,
    {
        self.red
    }

    pub fn green(self) -> (r: u8)
        ensures
            r == self.green,
    {
        self.green
    }

    pub fn blue(self) -> (r: u8)
        ensures
            r == self.blue,
    {
        self.blue
    }

    /// The three channel bytes in wire order.
    pub fn to_bytes(self) -> (r: Vec<u8>)
        ensures
            r@ == seq![self.red, self.green, self.blue],
    {
        let mut v: Vec<u8> = Vec::new();
        v.push(self.red);
        v.push(self.green);
        v.push(self.blue);
        proof {
            assert(v@ =~= seq![self.red, self.green, self.blue]);
        }
        v
    }
}

/// Rejection of ill-formed user input, carrying the offending text.
#[derive(Debug)]
pub enum ApiError {
    Validation { input: String },
}

/// True for the ASCII hexadecimal digits, either case.
pub open spec fn is_hex_digit(c: char) -> bool {
    ||| '0' as int <= c as int && c as int <= '9' as int
    ||| 'a' as int <= c as int && c as int <= 'f' as int
    ||| 'A' as int <= c as int && c as int <= 'F' as int
}

/// Numeric value of a hexadecimal digit.
pub open spec fn hex_digit_value(c: char) -> int {
    if '0' as int <= c as int && c as int <= '9' as int {
        c as int - '0' as int
    } else if 'a' as int <= c as int && c as int <= 'f' as int {
        c as int - 'a' as int + 10
    } else {
        c as int - 'A' as int + 10
    }
}

/// A well-formed color string: `#` followed by exactly six hex digits.
pub open spec fn is_color_text(s: Seq<char>) -> bool {
    &&& s.len() == 7
    &&& s[0] == '#'
    &&& forall|i: int| 1 <= i < 7 ==> is_hex_digit(#[trigger] s[i])
}

/// The color a well-formed color string denotes.
pub open spec fn color_of_text(s: Seq<char>) -> Color {
    Color {
        red: (16 * hex_digit_value(s[1]) + hex_digit_value(s[2])) as u8,
        green: (16 * hex_digit_value(s[3]) + hex_digit_value(s[4])) as u8,
        blue: (16 * hex_digit_value(s[5]) + hex_digit_value(s[6])) as u8,
    }
}

/// Lowercase hexadecimal digit for a value below 16.
pub open spec fn hex_char_of(v: int) -> char {
    if v == 0 {
        '0'
    } else if v == 1 {
        '1'
    } else if v == 2 {
        '2'
    } else if v == 3 {
        '3'
    } else if v == 4 {
        '4'
    } else if v == 5 {
        '5'
    } else if v == 6 {
        '6'
    } else if v == 7 {
        '7'
    } else if v == 8 {
        '8'
    } else if v == 9 {
        '9'
    } else if v == 10 {
        'a'
    } else if v == 11 {
        'b'
    } else if v == 12 {
        'c'
    } else if v == 13 {
        'd'
    } else if v == 14 {
        'e'
    } else {
        'f'
    }
}

/// Two lowercase hex digits for a byte value.
pub open spec fn hex_pair(v: int) -> Seq<char> {
    seq![hex_char_of(v / 16), hex_char_of(v % 16)]
}

/// The canonical (lowercase) text form of a color.
pub open spec fn color_text_of(c: Color) -> Seq<char> {
    seq!['#'] + hex_pair(c.red as int) + hex_pair(c.green as int) + hex_pair(c.blue as int)
}

/// Lowercases the six uppercase hex letters, leaves every other char alone.
pub open spec fn lower_hex(c: char) -> char {
    if c == 'A' {
        'a'
    } else if c == 'B' {
        'b'
    } else if c == 'C' {
        'c'
    } else if c == 'D' {
        'd'
    } else if c == 'E' {
        'e'
    } else if c == 'F' {
        'f'
    } else {
        c
    }
}

/// Decode one hexadecimal digit, either case.
pub fn hex_digit(c: char) -> (r: Option<u8>)
    ensures
        r is Some <==> is_hex_digit(c),
        r matches Some(v) ==> v as int == hex_digit_value(c),
{
    let u = c as u32;
    if 48 <= u && u <= 57 {
        Some((u - 48) as u8)
    } else if 97 <= u && u <= 102 {
        Some((u - 97 + 10) as u8)
    } else if 65 <= u && u <= 70 {
        Some((u - 65 + 10) as u8)
    } else {
        None
    }
}

impl Color {
    /// Decode a `#rrggbb` string; rejects anything that is not exactly
    /// `#` plus six hex digits, echoing the input back in the error.
    pub fn parse(s: &str) -> (r: Result<Color, ApiError>)
        ensures
            is_color_text(s@) ==> (r matches Ok(c) && c == color_of_text(s@)),
            !is_color_text(s@) ==> (r matches Err(ApiError::Validation { input }) && input@
                == s@),
    {
        if s.unicode_len() != 7 {
            return Err(ApiError::Validation { input: s.to_owned() });
        }
        if s.get_char(0) != '#' {
            return Err(ApiError::Validation { input: s.to_owned() });
        }
        let d1 = hex_digit(s.get_char(1));
        let d2 = hex_digit(s.get_char(2));
        let d3 = hex_digit(s.get_char(3));
        let d4 = hex_digit(s.get_char(4));
        let d5 = hex_digit(s.get_char(5));
        let d6 = hex_digit(s.get_char(6));
        match (d1, d2, d3, d4, d5, d6) {
            (Some(a), Some(b), Some(c), Some(d), Some(e), Some(f)) => {
                assert forall|i: int| 1 <= i < 7 implies is_hex_digit(s@[i]) by {}
                Ok(Color { red: 16 * a + b, green: 16 * c + d, blue: 16 * e + f })
            },
            _ => Err(ApiError::Validation { input: s.to_owned() }),
        }
    }

    /// Encode as `#rrggbb`, always lowercase and zero-padded.
    pub fn to_html(self) -> (r: String)
        ensures
            r@ == color_text_of(self),
    {
        let mut out = String::new();
        proof {
            reveal_strlit("#");
        }
        out.append("#");
        push_hex_digit(&mut out, self.red / 16);
        push_hex_digit(&mut out, self.red % 16);
        push_hex_digit(&mut out, self.green / 16);
        push_hex_digit(&mut out, self.green % 16);
        push_hex_digit(&mut out, self.blue / 16);
        push_hex_digit(&mut out, self.blue % 16);
        proof {
            assert(out@ =~= color_text_of(self));
        }
        out
    }
}

/// Append one lowercase hex digit to a string.
fn push_hex_digit(out: &mut String, v: u8)
    requires
        v < 16,
    ensures
        final(out)@ == old(out)@ + seq![hex_char_of(v as int)],
{
    proof {
        reveal_strlit("0");
        reveal_strlit("1");
        reveal_strlit("2");
        reveal_strlit("3");
        reveal_strlit("4");
        reveal_strlit("5");
        reveal_strlit("6");
        reveal_strlit("7");
        reveal_strlit("8");
        reveal_strlit("9");
        reveal_strlit("a");
        reveal_strlit("b");
        reveal_strlit("c");
        reveal_strlit("d");
        reveal_strlit("e");
        reveal_strlit("f");
    }
    let piece: &str = match v {
        0 => "0",
        1 => "1",
        2 => "2",
        3 => "3",
        4 => "4",
        5 => "5",
        6 => "6",
        7 => "7",
        8 => "8",
        9 => "9",
        10 => "a",
        11 => "b",
        12 => "c",
        13 => "d",
        14 => "e",
        _ => "f",
    };
    proof {
        assert(piece@ =~= seq![hex_char_of(v as int)]);
    }
    out.append(piece);
}

/// One blended channel: the exact rounded weighted average
/// `round(x * (1 - num/den) + y * (num/den))`, written over integers.
pub open spec fn blend_channel(x: u8, y: u8, num: int, den: int) -> int {
    (2 * ((den - num) * x + num * y) + den) / (2 * den)
}

/// Weighted blend of two colors with bias `num/den`.
pub open spec fn spec_blend(a: Color, b: Color, num: int, den: int) -> Color {
    Color {
        red: blend_channel(a.red, b.red, num, den) as u8,
        green: blend_channel(a.green, b.green, num, den) as u8,
        blue: blend_channel(a.blue, b.blue, num, den) as u8,
    }
}

/// A blended channel is itself a byte value.
pub proof fn lemma_blend_channel_bounds(x: u8, y: u8, num: int, den: int)
    requires
        0 < den,
        0 <= num <= den,
    ensures
        0 <= blend_channel(x, y, num, den) <= 255,
{
    let t = (den - num) * x + num * y;
    assert(0 <= t && t <= 255 * den) by (nonlinear_arith)
        requires
            0 < den,
            0 <= num <= den,
            x <= 255,
            y <= 255,
            t == (den - num) * x + num * y,
    ;
    lemma_div_pos_is_pos(2 * t + den, 2 * den);
    lemma_div_is_ordered(2 * t + den, 511 * den, 2 * den);
    lemma_fundamental_div_mod_converse(511 * den, 2 * den, 255, den);
}

/// Equal endpoints blend to themselves, whatever the bias.
proof fn lemma_blend_channel_same(x: u8, num: int, den: int)
    requires
        0 < den,
        0 <= num <= den,
    ensures
        blend_channel(x, x, num, den) == x,
{
    let t = (den - num) * x + num * x;
    assert(t == den * x) by (nonlinear_arith)
        requires
            t == (den - num) * x + num * x,
    ;
    assert(2 * t + den == (x as int) * (2 * den) + den) by (nonlinear_arith)
        requires
            t == den * x,
    ;
    lemma_fundamental_div_mod_converse(2 * t + den, 2 * den, x as int, den);
}

/// A channel blended with bias 0 is the start channel; with bias `den/den`
/// it is the end channel, exactly.
proof fn lemma_blend_channel_ends(x: u8, y: u8, den: int)
    requires
        0 < den,
    ensures
        blend_channel(x, y, 0, den) == x,
        blend_channel(x, y, den, den) == y,
{
    let t0 = (den - 0) * x + 0 * y;
    assert(2 * t0 + den == (x as int) * (2 * den) + den) by (nonlinear_arith)
        requires
            t0 == (den - 0) * x + 0 * y,
    ;
    lemma_fundamental_div_mod_converse(2 * t0 + den, 2 * den, x as int, den);
    let t1 = (den - den) * x + den * y;
    assert(2 * t1 + den == (y as int) * (2 * den) + den) by (nonlinear_arith)
        requires
            t1 == (den - den) * x + den * y,
    ;
    lemma_fundamental_div_mod_converse(2 * t1 + den, 2 * den, y as int, den);
}

/// Blending a color with itself gives that color back, for any bias in range.
pub proof fn lemma_blend_identity(c: Color, num: int, den: int)
    requires
        0 < den,
        0 <= num <= den,
    ensures
        spec_blend(c, c, num, den) == c,
{
    lemma_blend_channel_same(c.red, num, den);
    lemma_blend_channel_same(c.green, num, den);
    lemma_blend_channel_same(c.blue, num, den);
}

/// Blending at the boundary biases returns the endpoints exactly.
pub proof fn lemma_blend_endpoints(a: Color, b: Color, den: int)
    requires
        0 < den,
    ensures
        spec_blend(a, b, 0, den) == a,
        spec_blend(a, b, den, den) == b,
{
    lemma_blend_channel_ends(a.red, b.red, den);
    lemma_blend_channel_ends(a.green, b.green, den);
    lemma_blend_channel_ends(a.blue, b.blue, den);
}

/// One blended channel, computed exactly over wide integers.
fn blend_channel_exec(x: u8, y: u8, num: u32, den: u32) -> (r: u8)
    requires
        0 < den,
        num <= den,
    ensures
        r as int == blend_channel(x, y, num as int, den as int),
{
    proof {
        lemma_blend_channel_bounds(x, y, num as int, den as int);
        assert((den - num) as u64 * (x as u64) + (num as u64) * (y as u64) <= 0xff00000000u64)
            by (nonlinear_arith)
            requires
                num <= den,
                den <= 0xffffffffu64,
                x <= 255,
                y <= 255,
        ;
    }
    let t: u64 = (den - num) as u64 * (x as u64) + (num as u64) * (y as u64);
    let q: u64 = (2 * t + den as u64) / (2 * den as u64);
    q as u8
}

impl Color {
    /// Weighted blend toward `b` with bias `num / den` in `[0, 1]`:
    /// each channel is the rounded weighted average of the endpoints.
    pub fn blend(a: Color, b: Color, num: u32, den: u32) -> (r: Color)
        requires
            0 < den,
            num <= den,
        ensures
            r == spec_blend(a, b, num as int, den as int),
    {
        Color {
            red: blend_channel_exec(a.red, b.red, num, den),
            green: blend_channel_exec(a.green, b.green, num, den),
            blue: blend_channel_exec(a.blue, b.blue, num, den),
        }
    }
}

/// The color packed into the low 24 bits of a word.
pub open spec fn color_of_u32(value: u32) -> Color {
    Color { red: (value >> 16) as u8, green: (value >> 8) as u8, blue: value as u8 }
}

/// The low 24 bits of a word for a color.
pub open spec fn u32_of_color(c: Color) -> u32 {
    ((c.red as u32) << 16) | ((c.green as u32) << 8) | (c.blue as u32)
}

impl From<u32> for Color {
    /// Unpack the low 24 bits; the top byte is discarded.
    fn from(value: u32) -> (r: Color) {
        Color { red: (value >> 16) as u8, green: (value >> 8) as u8, blue: value as u8 }
    }
}

impl vstd::std_specs::convert::FromSpecImpl<u32> for Color {
    open spec fn obeys_from_spec() -> bool {
        true
    }

    open spec fn from_spec(v: u32) -> Color {
        color_of_u32(v)
    }
}

impl From<Color> for u32 {
    fn from(color: Color) -> (r: u32) {
        ((color.red as u32) << 16) | ((color.green as u32) << 8) | (color.blue as u32)
    }
}

impl vstd::std_specs::convert::FromSpecImpl<Color> for u32 {
    open spec fn obeys_from_spec() -> bool {
        true
    }

    open spec fn from_spec(c: Color) -> u32 {
        u32_of_color(c)
    }
}

/// For a hex digit, encoding its value gives the digit itself, lowercased.
proof fn lemma_hex_char_lower(c: char)
    requires
        is_hex_digit(c),
    ensures
        hex_char_of(hex_digit_value(c)) == lower_hex(c),
{
}

/// Splitting a packed byte back into its two hex digits.
proof fn lemma_hex_pair_of_digits(hi: char, lo: char)
    requires
        is_hex_digit(hi),
        is_hex_digit(lo),
    ensures
        hex_pair(((16 * hex_digit_value(hi) + hex_digit_value(lo)) as u8) as int) == seq![
            lower_hex(hi),
            lower_hex(lo),
        ],
{
    let v = 16 * hex_digit_value(hi) + hex_digit_value(lo);
    lemma_fundamental_div_mod_converse(v, 16, hex_digit_value(hi), hex_digit_value(lo));
    lemma_hex_char_lower(hi);
    lemma_hex_char_lower(lo);
    assert(hex_pair(v) =~= seq![lower_hex(hi), lower_hex(lo)]);
}

/// Round trip: formatting a parsed well-formed color string yields the same
/// string with its hex digits lowercased.
pub proof fn lemma_parse_format_round_trip(s: Seq<char>)
    requires
        is_color_text(s),
    ensures
        color_text_of(color_of_text(s)) == s.map_values(|c: char| lower_hex(c)),
{
    lemma_hex_pair_of_digits(s[1], s[2]);
    lemma_hex_pair_of_digits(s[3], s[4]);
    lemma_hex_pair_of_digits(s[5], s[6]);
    assert(lower_hex(s[0]) == '#');
    assert(color_text_of(color_of_text(s)) =~= s.map_values(|c: char| lower_hex(c)));
}

} // verus!
