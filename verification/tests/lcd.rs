//! Tests for the LCD render engine: command encoding, the startup
//! sequence, diff-based minimal updates, jumbo rendering, and clock text.

use soze::clock::ClockTime;
use soze::common::Color;
use soze::hardware;
use soze::jumbo::{get_jumbo_character, write_jumbo_text};
use soze::lcd::{
    CustomCharacter, LcdCommand, LcdResource, LcdText, TextGroup, LCD_HEIGHT, LCD_WIDTH,
};
use soze::user::{LcdMode, LcdState};

fn row(text: &LcdText, y: usize) -> Vec<u8> {
    let mut out = Vec::new();
    for x in 0..LCD_WIDTH {
        out.push(text.get(x, y));
    }
    out
}

#[test]
fn command_encodings_match_opcode_table() {
    assert_eq!(LcdCommand::Clear.into_bytes(), vec![0xFE, 0x58]);
    assert_eq!(LcdCommand::BacklightOn.into_bytes(), vec![0xFE, 0x42, 0x00]);
    assert_eq!(LcdCommand::BacklightOff.into_bytes(), vec![0xFE, 0x46]);
    assert_eq!(
        LcdCommand::SetSize {
            width: 20,
            height: 4
        }
        .into_bytes(),
        vec![0xFE, 0xD1, 20, 4]
    );
    assert_eq!(
        LcdCommand::SetBrightness { brightness: 255 }.into_bytes(),
        vec![0xFE, 0x98, 255]
    );
    assert_eq!(
        LcdCommand::SetContrast { contrast: 200 }.into_bytes(),
        vec![0xFE, 0x91, 200]
    );
    let color = Color::parse("#10ff20").unwrap();
    assert_eq!(
        LcdCommand::SetColor { color }.into_bytes(),
        vec![0xFE, 0xD0, 0x10, 0xff, 0x20]
    );
    assert_eq!(
        LcdCommand::CursorPos { x: 3, y: 2 }.into_bytes(),
        vec![0xFE, 0x47, 3, 2]
    );
    assert_eq!(
        LcdCommand::LoadCharacterBank { bank: 0 }.into_bytes(),
        vec![0xFE, 0xC0, 0]
    );
    let save = LcdCommand::SaveCustomCharacter {
        bank: 0,
        character: CustomCharacter::Bottom,
    };
    let mut expected = vec![0xFE, 0xC1, 0, 0x02];
    expected.extend(CustomCharacter::Bottom.pixels());
    assert_eq!(save.into_bytes(), expected);
}

#[test]
fn custom_character_tags_and_pixels() {
    assert_eq!(CustomCharacter::HalfBottomRight.tag(), 0x00);
    assert_eq!(CustomCharacter::HalfBottomLeft.tag(), 0x01);
    assert_eq!(CustomCharacter::Bottom.tag(), 0x02);
    assert_eq!(CustomCharacter::FullBottomRight.tag(), 0x03);
    assert_eq!(CustomCharacter::FullBottomLeft.tag(), 0x04);
    assert_eq!(
        CustomCharacter::Bottom.pixels(),
        vec![0b00000, 0b00000, 0b00000, 0b00000, 0b11111, 0b11111, 0b11111, 0b11111]
    );
    assert_eq!(CustomCharacter::FullBottomLeft.pixels().len(), 8);
}

#[test]
fn startup_sequence_bytes() {
    let mut engine = LcdResource::default();
    let mut hw = hardware::LcdState::default();
    engine.on_start(&mut hw);

    let mut expected: Vec<u8> = Vec::new();
    expected.extend(LcdCommand::Clear.into_bytes());
    expected.extend(LcdCommand::BacklightOn.into_bytes());
    expected.extend(
        LcdCommand::SetSize {
            width: 20,
            height: 4,
        }
        .into_bytes(),
    );
    expected.extend(LcdCommand::SetContrast { contrast: 255 }.into_bytes());
    expected.extend(LcdCommand::SetBrightness { brightness: 255 }.into_bytes());
    for character in [
        CustomCharacter::HalfBottomRight,
        CustomCharacter::HalfBottomLeft,
        CustomCharacter::Bottom,
        CustomCharacter::FullBottomLeft,
        CustomCharacter::FullBottomRight,
    ] {
        expected.extend(LcdCommand::SaveCustomCharacter { bank: 0, character }.into_bytes());
    }
    expected.extend(LcdCommand::LoadCharacterBank { bank: 0 }.into_bytes());
    assert_eq!(hw.message_queue, expected);
}

#[test]
fn same_content_twice_sends_nothing() {
    let mut engine = LcdResource::default();
    let mut hw = hardware::LcdState::default();

    let mut text = LcdText::default();
    for (i, b) in [104u8, 101, 108, 108, 111].iter().enumerate() {
        text.set(i, 1, *b);
    }
    engine.set_text(&mut hw, text.clone());
    assert!(!hw.message_queue.is_empty());

    // The identical grid again: not a byte is sent.
    hw.message_queue.clear();
    engine.set_text(&mut hw, text);
    assert!(hw.message_queue.is_empty());
}

#[test]
fn single_cell_change_sends_one_run() {
    let mut engine = LcdResource::default();
    let mut hw = hardware::LcdState::default();

    // One cell differs from the blank cache: one cursor move plus one byte.
    let mut text = LcdText::default();
    text.set(7, 2, 88); // 'X'
    engine.set_text(&mut hw, text);
    assert_eq!(hw.message_queue, vec![0xFE, 0x47, 8, 3, 88]);
}

#[test]
fn non_adjacent_changes_stay_separate_runs() {
    let mut engine = LcdResource::default();
    let mut hw = hardware::LcdState::default();

    // Two changed cells in row 0 with a gap: two runs, never merged.
    let mut text = LcdText::default();
    text.set(2, 0, 65); // 'A'
    text.set(9, 0, 66); // 'B'
    engine.set_text(&mut hw, text);
    assert_eq!(
        hw.message_queue,
        vec![0xFE, 0x47, 3, 1, 65, 0xFE, 0x47, 10, 1, 66]
    );
}

#[test]
fn adjacent_in_memory_changes_cross_rows_as_two_runs() {
    let mut engine = LcdResource::default();
    let mut hw = hardware::LcdState::default();

    // Last cell of row 0 and first cell of row 1 are adjacent in memory
    // but must still come out as two runs.
    let mut text = LcdText::default();
    text.set(LCD_WIDTH - 1, 0, 65);
    text.set(0, 1, 66);
    engine.set_text(&mut hw, text);
    assert_eq!(
        hw.message_queue,
        vec![0xFE, 0x47, 20, 1, 65, 0xFE, 0x47, 1, 2, 66]
    );
}

#[test]
fn contiguous_changes_merge_into_one_run() {
    let mut engine = LcdResource::default();
    let mut hw = hardware::LcdState::default();

    let mut text = LcdText::default();
    for (i, b) in [104u8, 105, 33].iter().enumerate() {
        text.set(4 + i, 3, *b);
    }
    engine.set_text(&mut hw, text);
    assert_eq!(hw.message_queue, vec![0xFE, 0x47, 5, 4, 104, 105, 33]);
}

#[test]
fn set_color_suppresses_repeats() {
    let mut engine = LcdResource::default();
    let mut hw = hardware::LcdState::default();
    let color = Color::parse("#336699").unwrap();

    engine.set_color(&mut hw, color);
    assert_eq!(hw.message_queue, vec![0xFE, 0xD0, 0x33, 0x66, 0x99]);

    // The same color again: nothing is sent.
    hw.message_queue.clear();
    engine.set_color(&mut hw, color);
    assert!(hw.message_queue.is_empty());
}

#[test]
fn text_group_grows() {
    let mut g = TextGroup::new(3, 1);
    assert_eq!(g.x, 3);
    assert_eq!(g.y, 1);
    assert_eq!(g.length, 1);
    g.extend();
    assert_eq!(g.length, 2);
}

#[test]
fn jumbo_glyph_lookup() {
    assert!(get_jumbo_character(b'0').is_some());
    assert!(get_jumbo_character(b'9').is_some());
    assert!(get_jumbo_character(b' ').is_some());
    assert!(get_jumbo_character(b':').is_some());
    // Unsupported characters report a miss and are skipped by rendering.
    assert!(get_jumbo_character(b'x').is_none());
    assert!(get_jumbo_character(b'-').is_none());

    let colon = get_jumbo_character(b':').unwrap();
    assert_eq!(colon.top, vec![0xff]);
    assert_eq!(colon.middle, vec![32]);
    assert_eq!(colon.bottom, vec![0xff]);
}

#[test]
fn jumbo_rendering_of_clock_text() {
    let mut text = LcdText::default();
    let s = vec![b'1', b':', b'3', b'0'];
    write_jumbo_text(&mut text, &s);

    // Expected rows: glyphs for '1', ':', '3', '0' in order, one blank
    // padding byte after each, then blank to the right edge.
    let g1 = get_jumbo_character(b'1').unwrap();
    let gc = get_jumbo_character(b':').unwrap();
    let g3 = get_jumbo_character(b'3').unwrap();
    let g0 = get_jumbo_character(b'0').unwrap();
    let rows = [
        [&g1.top, &gc.top, &g3.top, &g0.top],
        [&g1.middle, &gc.middle, &g3.middle, &g0.middle],
        [&g1.bottom, &gc.bottom, &g3.bottom, &g0.bottom],
    ];
    for (r, glyph_rows) in rows.iter().enumerate() {
        let mut expected: Vec<u8> = Vec::new();
        for part in glyph_rows {
            expected.extend(part.iter());
            expected.push(32);
        }
        while expected.len() < LCD_WIDTH {
            expected.push(32);
        }
        let actual = row(&text, 1 + r);
        assert_eq!(actual, expected);
        // Each of the three lines holds real glyph bytes.
        assert!(actual.iter().any(|&b| b != 32));
    }
    // The top row is untouched.
    assert!(row(&text, 0).iter().all(|&b| b == 32));
}

#[test]
fn clock_text_layout() {
    let t = ClockTime {
        weekday: 3,
        month: 10,
        day: 8,
        hour12: 1,
        minute: 30,
        second: 42,
    };
    let text = soze::clock::get_clock_text(&t);
    assert_eq!(row(&text, 0), b"Wednesday, Oct 8  42".to_vec());

    let mut jumbo = LcdText::default();
    write_jumbo_text(&mut jumbo, &vec![b'1', b':', b'3', b'0']);
    for y in 1..LCD_HEIGHT {
        assert_eq!(row(&text, y), row(&jumbo, y));
    }
}

#[test]
fn off_tick_sends_backlight_off_and_clear() {
    let mut engine = LcdResource::default();
    let mut hw = hardware::LcdState::default();
    let cfg = LcdState {
        mode: LcdMode::Off,
        color: Color::parse("#ff0000").unwrap(),
    };
    engine.on_tick(&cfg, &mut hw);
    assert_eq!(hw.message_queue, vec![0xFE, 0x46, 0xFE, 0x58]);
}

#[test]
fn clock_tick_renders_time() {
    let mut engine = LcdResource::default();
    let mut hw = hardware::LcdState::default();
    let color = Color::parse("#224466").unwrap();
    let cfg = LcdState {
        mode: LcdMode::Clock,
        color,
    };
    engine.on_tick(&cfg, &mut hw);
    // The color cache starts black, so the configured color is sent first,
    // followed by at least one cursor-positioned text run.
    assert_eq!(&hw.message_queue[0..5], &[0xFE, 0xD0, 0x22, 0x44, 0x66]);
    assert_eq!(&hw.message_queue[5..7], &[0xFE, 0x47]);
}

#[test]
fn clock_tick_with_fixed_time_is_exact() {
    let mut engine = LcdResource::default();
    let mut hw = hardware::LcdState::default();
    let t = ClockTime {
        weekday: 0,
        month: 1,
        day: 1,
        hour12: 12,
        minute: 5,
        second: 7,
    };
    let cfg = LcdState {
        mode: LcdMode::Clock,
        color: Color::parse("#000000").unwrap(),
    };
    engine.tick_with_time(&cfg, &mut hw, &t);
    // Color equals the cached default, so no set-color command. Against
    // the blank cache, the changed cells of the top line come out as four
    // runs: the spaces inside "Sunday, Jan 1" and the left-justification
    // gap are unchanged cells that split the runs.
    let mut expected: Vec<u8> = Vec::new();
    expected.extend([0xFE, 0x47, 1, 1]);
    expected.extend(b"Sunday,");
    expected.extend([0xFE, 0x47, 9, 1]);
    expected.extend(b"Jan");
    expected.extend([0xFE, 0x47, 13, 1]);
    expected.extend(b"1");
    expected.extend([0xFE, 0x47, 19, 1]);
    expected.extend(b"07");
    assert_eq!(&hw.message_queue[0..expected.len()], expected.as_slice());
}

#[test]
fn drain_hands_over_and_clears() {
    let mut hw = hardware::LcdState::default();
    hw.message_queue.extend([1u8, 2, 3]);
    let taken = hw.drain();
    assert_eq!(taken, vec![1, 2, 3]);
    assert!(hw.message_queue.is_empty());
}

#[test]
fn clock_text_longest_date_still_fits() {
    // "Wednesday, May 31" is the longest possible date text: 17 columns,
    // still inside the 18-column left-justified field.
    let t = ClockTime {
        weekday: 3,
        month: 5,
        day: 31,
        hour12: 11,
        minute: 59,
        second: 59,
    };
    let text = soze::clock::get_clock_text(&t);
    assert_eq!(row(&text, 0), b"Wednesday, May 31 59".to_vec());
}

#[test]
fn clock_text_double_digit_hour() {
    let t = ClockTime {
        weekday: 6,
        month: 12,
        day: 25,
        hour12: 10,
        minute: 0,
        second: 1,
    };
    let text = soze::clock::get_clock_text(&t);
    assert_eq!(row(&text, 0), b"Saturday, Dec 25  01".to_vec());

    // "10:00" renders five glyphs: widths 4+4+2+4+4 = 18 columns.
    let mut jumbo = LcdText::default();
    write_jumbo_text(&mut jumbo, &vec![b'1', b'0', b':', b'0', b'0']);
    for y in 1..LCD_HEIGHT {
        assert_eq!(row(&text, y), row(&jumbo, y));
    }
}
