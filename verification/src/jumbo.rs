//! Jumbo clock glyphs: each digit, colon, and space maps to a fixed
//! three-row glyph built from the custom sub-glyph tiles, and a string is
//! rendered by concatenating glyphs left to right with one blank column of
//! padding after each character, accumulated independently per row.

use vstd::prelude::*;

use crate::lcd::{write_row, LcdText, LCD_WIDTH};

verus! {

// Text bytes for the glyph tiles: the five custom sub-glyphs by their bank
// index, the display's built-in solid block, and a blank cell.
pub const HBR: u8 = 0x00;

pub const HBL: u8 = 0x01;

pub const BOT: u8 = 0x02;

pub const FBR: u8 = 0x03;

pub const FBL: u8 = 0x04;

pub const FUL: u8 = 0xff;

pub const EMT: u8 = 32;

/// The characters the jumbo font supports: the ten digits, space, and colon.
pub open spec fn is_jumbo_char(c: u8) -> bool {
    (48 <= c && c <= 57) || c == 32 || c == 58
}

/// The three rows of tile bytes for one supported character; empty for an
/// unsupported one. Digits and the space are three columns wide, the colon
/// one.
pub open spec fn jumbo_rows(c: u8) -> Seq<Seq<u8>> {
    if c == 48 {
        seq![seq![HBR, BOT, HBL], seq![FUL, EMT, FUL], seq![FBR, BOT, FBL]]
    } else if c == 49 {
        seq![seq![BOT, HBL, EMT], seq![EMT, FUL, EMT], seq![BOT, FUL, BOT]]
    } else if c == 50 {
        seq![seq![HBR, BOT, HBL], seq![HBR, BOT, FBL], seq![FBR, BOT, BOT]]
    } else if c == 51 {
        seq![seq![HBR, BOT, HBL], seq![EMT, BOT, FUL], seq![BOT, BOT, FBL]]
    } else if c == 52 {
        seq![seq![BOT, EMT, BOT], seq![FBR, BOT, FUL], seq![EMT, EMT, FUL]]
    } else if c == 53 {
        seq![seq![BOT, BOT, BOT], seq![FUL, BOT, HBL], seq![BOT, BOT, FBL]]
    } else if c == 54 {
        seq![seq![HBR, BOT, HBL], seq![FUL, BOT, HBL], seq![FBR, BOT, FBL]]
    } else if c == 55 {
        seq![seq![BOT, BOT, BOT], seq![EMT, HBR, FBL], seq![EMT, FUL, EMT]]
    } else if c == 56 {
        seq![seq![HBR, BOT, HBL], seq![FUL, BOT, FUL], seq![FBR, BOT, FBL]]
    } else if c == 57 {
        seq![seq![HBR, BOT, HBL], seq![FBR, BOT, FUL], seq![EMT, EMT, FUL]]
    } else if c == 32 {
        seq![seq![EMT, EMT, EMT], seq![EMT, EMT, EMT], seq![EMT, EMT, EMT]]
    } else if c == 58 {
        seq![seq![FUL], seq![EMT], seq![FUL]]
    } else {
        Seq::<Seq<u8>>::empty()
    }
}

/// One row of the jumbo rendering of `s`: glyph rows concatenated in order,
/// one blank column after each rendered character; unsupported characters
/// are skipped and rendering continues.
pub open spec fn jumbo_line(s: Seq<u8>, r: int) -> Seq<u8>
    decreases s.len(),
{
    if s.len() == 0 {
        Seq::<u8>::empty()
    } else if is_jumbo_char(s[0]) {
        jumbo_rows(s[0])[r] + seq![EMT] + jumbo_line(s.drop_first(), r)
    } else {
        jumbo_line(s.drop_first(), r)
    }
}

/// Width in columns of the jumbo rendering, padding included.
pub open spec fn jumbo_width(s: Seq<u8>) -> nat {
    jumbo_line(s, 0).len()
}

/// All three rows of a rendering are equally wide.
pub proof fn lemma_jumbo_line_len(s: Seq<u8>, r: int)
    requires
        0 <= r < 3,
    ensures
        jumbo_line(s, r).len() == jumbo_width(s),
    decreases s.len(),
{
    if s.len() > 0 {
        lemma_jumbo_line_len(s.drop_first(), r);
        if is_jumbo_char(s[0]) {
            assert(jumbo_rows(s[0])[r].len() == jumbo_rows(s[0])[0].len());
        }
    }
}

/// No character is wider than four columns, padding included.
pub proof fn lemma_jumbo_width_bound(s: Seq<u8>)
    ensures
        jumbo_width(s) <= 4 * s.len(),
    decreases s.len(),
{
    if s.len() > 0 {
        lemma_jumbo_width_bound(s.drop_first());
        if is_jumbo_char(s[0]) {
            assert(jumbo_rows(s[0])[0].len() <= 3);
        }
    }
}

/// Rendering one more character on the right appends its glyph row and one
/// blank column to each row.
proof fn lemma_jumbo_line_push(s: Seq<u8>, c: u8, r: int)
    requires
        0 <= r < 3,
    ensures
        jumbo_line(s.push(c), r) == jumbo_line(s, r) + (if is_jumbo_char(c) {
            jumbo_rows(c)[r] + seq![EMT]
        } else {
            Seq::<u8>::empty()
        }),
    decreases s.len(),
{
    let tail = if is_jumbo_char(c) {
        jumbo_rows(c)[r] + seq![EMT]
    } else {
        Seq::<u8>::empty()
    };
    if s.len() == 0 {
        assert(s.push(c)[0] == c);
        assert(s.push(c).drop_first() =~= Seq::<u8>::empty());
        assert(jumbo_line(Seq::<u8>::empty(), r) == Seq::<u8>::empty());
        if is_jumbo_char(c) {
            assert(jumbo_line(s.push(c), r) == jumbo_rows(c)[r] + seq![EMT] + jumbo_line(
                s.push(c).drop_first(),
                r,
            ));
        }
        assert(jumbo_line(s.push(c), r) =~= jumbo_line(s, r) + tail);
    } else {
        assert(s.push(c)[0] == s[0]);
        assert(s.push(c).drop_first() =~= s.drop_first().push(c));
        lemma_jumbo_line_push(s.drop_first(), c, r);
        if is_jumbo_char(s[0]) {
            assert(jumbo_line(s.push(c), r) == jumbo_rows(s[0])[r] + seq![EMT] + jumbo_line(
                s.drop_first().push(c),
                r,
            ));
        } else {
            assert(jumbo_line(s.push(c), r) == jumbo_line(s.drop_first().push(c), r));
        }
        assert(jumbo_line(s.push(c), r) =~= jumbo_line(s, r) + tail);
    }
}

/// One jumbo glyph: a row of tile bytes per display line.
#[derive(Debug)]
pub struct JumboGlyph {
    pub top: Vec<u8>,
    pub middle: Vec<u8>,
    pub bottom: Vec<u8>,
}

/// Three tile bytes as a row.
fn tile_row3(a: u8, b: u8, c: u8) -> (r: Vec<u8>)
    ensures
        r@ == seq![a, b, c],
{
    let mut v: Vec<u8> = Vec::new();
    v.push(a);
    v.push(b);
    v.push(c);
    proof {
        assert(v@ =~= seq![a, b, c]);
    }
    v
}

/// One tile byte as a row.
fn tile_row1(a: u8) -> (r: Vec<u8>)
    ensures
        r@ == seq![a],
{
    let mut v: Vec<u8> = Vec::new();
    v.push(a);
    proof {
        assert(v@ =~= seq![a]);
    }
    v
}

/// The glyph for a single character; `None` for characters the jumbo font
/// does not cover, which callers skip.
pub fn get_jumbo_character(character: u8) -> (r: Option<JumboGlyph>)
    ensures
        r is Some <==> is_jumbo_char(character),
        r matches Some(gl) ==> {
            &&& gl.top@ == jumbo_rows(character)[0]
            &&& gl.middle@ == jumbo_rows(character)[1]
            &&& gl.bottom@ == jumbo_rows(character)[2]
        },
{
    match character {
        48 => Some(
            JumboGlyph {
                top: tile_row3(HBR, BOT, HBL),
                middle: tile_row3(FUL, EMT, FUL),
                bottom: tile_row3(FBR, BOT, FBL),
            },
        ),
        49 => Some(
            JumboGlyph {
                top: tile_row3(BOT, HBL, EMT),
                middle: tile_row3(EMT, FUL, EMT),
                bottom: tile_row3(BOT, FUL, BOT),
            },
        ),
        50 => Some(
            JumboGlyph {
                top: tile_row3(HBR, BOT, HBL),
                middle: tile_row3(HBR, BOT, FBL),
                bottom: tile_row3(FBR, BOT, BOT),
            },
        ),
        51 => Some(
            JumboGlyph {
                top: tile_row3(HBR, BOT, HBL),
                middle: tile_row3(EMT, BOT, FUL),
                bottom: tile_row3(BOT, BOT, FBL),
            },
        ),
        52 => Some(
            JumboGlyph {
                top: tile_row3(BOT, EMT, BOT),
                middle: tile_row3(FBR, BOT, FUL),
                bottom: tile_row3(EMT, EMT, FUL),
            },
        ),
        53 => Some(
            JumboGlyph {
                top: tile_row3(BOT, BOT, BOT),
                middle: tile_row3(FUL, BOT, HBL),
                bottom: tile_row3(BOT, BOT, FBL),
            },
        ),
        54 => Some(
            JumboGlyph {
                top: tile_row3(HBR, BOT, HBL),
                middle: tile_row3(FUL, BOT, HBL),
                bottom: tile_row3(FBR, BOT, FBL),
            },
        ),
        55 => Some(
            JumboGlyph {
                top: tile_row3(BOT, BOT, BOT),
                middle: tile_row3(EMT, HBR, FBL),
                bottom: tile_row3(EMT, FUL, EMT),
            },
        ),
        56 => Some(
            JumboGlyph {
                top: tile_row3(HBR, BOT, HBL),
                middle: tile_row3(FUL, BOT, FUL),
                bottom: tile_row3(FBR, BOT, FBL),
            },
        ),
        57 => Some(
            JumboGlyph {
                top: tile_row3(HBR, BOT, HBL),
                middle: tile_row3(FBR, BOT, FUL),
                bottom: tile_row3(EMT, EMT, FUL),
            },
        ),
        32 => Some(
            JumboGlyph {
                top: tile_row3(EMT, EMT, EMT),
                middle: tile_row3(EMT, EMT, EMT),
                bottom: tile_row3(EMT, EMT, EMT),
            },
        ),
        58 => Some(
            JumboGlyph { top: tile_row1(FUL), middle: tile_row1(EMT), bottom: tile_row1(FUL) },
        ),
        _ => None,
    }
}

/// One row of the rendering of `s`, computed left to right.
fn jumbo_line_exec(s: &Vec<u8>, r: usize) -> (out: Vec<u8>)
    requires
        r < 3,
    ensures
        out@ == jumbo_line(s@, r as int),
{
    let mut out: Vec<u8> = Vec::new();
    let mut k: usize = 0;
    proof {
        assert(s@.subrange(0, 0) =~= Seq::<u8>::empty());
    }
    while k < s.len()
        invariant
            r < 3,
            k <= s@.len(),
            out@ == jumbo_line(s@.subrange(0, k as int), r as int),
        decreases s@.len() - k,
    {
        let c = s[k];
        match get_jumbo_character(c) {
            Some(gl) => {
                let mut row = if r == 0 {
                    gl.top
                } else if r == 1 {
                    gl.middle
                } else {
                    gl.bottom
                };
                out.append(&mut row);
                out.push(EMT);
            },
            None => {},
        }
        proof {
            assert(s@.subrange(0, k as int + 1) =~= s@.subrange(0, k as int).push(s@[k as int]));
            lemma_jumbo_line_push(s@.subrange(0, k as int), s@[k as int], r as int);
            assert(out@ =~= jumbo_line(s@.subrange(0, k as int + 1), r as int));
        }
        k = k + 1;
    }
    proof {
        assert(s@.subrange(0, s@.len() as int) =~= s@);
    }
    out
}

/// Render a string as jumbo text into display rows 1 to 3, the top row and
/// everything right of the rendering untouched. The rendering must fit the
/// display width.
pub fn write_jumbo_text(text: &mut LcdText, s: &Vec<u8>)
    requires
        old(text).wf(),
        jumbo_width(s@) <= LCD_WIDTH,
    ensures
        final(text).wf(),
        forall|j: int| 0 <= j < LCD_WIDTH as int ==> final(text)@[j] == old(text)@[j],
        forall|r: int, i: int|
            0 <= r < 3 && 0 <= i < jumbo_width(s@) ==> #[trigger] final(text)@[(1 + r) * (
            LCD_WIDTH as int) + i] == jumbo_line(s@, r)[i],
        forall|r: int, i: int|
            0 <= r < 3 && jumbo_width(s@) <= i < LCD_WIDTH as int ==> #[trigger] final(text)@[(1
                + r) * (LCD_WIDTH as int) + i] == old(text)@[(1 + r) * (LCD_WIDTH as int) + i],
{
    proof {
        lemma_jumbo_line_len(s@, 0);
        lemma_jumbo_line_len(s@, 1);
        lemma_jumbo_line_len(s@, 2);
    }
    let line0 = jumbo_line_exec(s, 0);
    let line1 = jumbo_line_exec(s, 1);
    let line2 = jumbo_line_exec(s, 2);
    write_row(text, 1, &line0);
    write_row(text, 2, &line1);
    write_row(text, 3, &line2);
}

} // verus!
