//! The LCD render engine: a fixed 20x4 text buffer, the diff-based minimal
//! update algorithm, and the serial command encoding for the display.

use vstd::prelude::*;
use vstd::slice::{slice_subrange, slice_to_vec};

use crate::common::{black, Color};
use crate::hardware;
use crate::user::{LcdMode, LcdState};

verus! {

/// Width of the LCD, in characters.
pub const LCD_WIDTH: usize = 20;

/// Height of the LCD, in lines.
pub const LCD_HEIGHT: usize = 4;

/// Byte at column `x` of row `y` of a row-major grid.
pub open spec fn cell(g: Seq<u8>, x: int, y: int) -> u8 {
    g[y * (LCD_WIDTH as int) + x]
}

/// The all-spaces grid.
pub open spec fn blank_grid() -> Seq<u8> {
    Seq::new((LCD_WIDTH * LCD_HEIGHT) as nat, |i: int| 32u8)
}

/// Text on the LCD: one byte per cell (ASCII only), stored row-major.
/// Owned by the render engine and diffed against each new frame.
#[derive(Clone, Debug)]
pub struct LcdText {
    bytes: Vec<u8>,
}

impl View for LcdText {
    type V = Seq<u8>;

    closed spec fn view(&self) -> Seq<u8> {
        self.bytes@
    }
}

impl LcdText {
    /// The grid always holds exactly one byte per cell.
    pub open spec fn wf(&self) -> bool {
        self@.len() == LCD_WIDTH * LCD_HEIGHT
    }

    /// Byte at column `x` of row `y`.
    pub fn get(&self, x: usize, y: usize) -> (r: u8)
        requires
            self.wf(),
            x < LCD_WIDTH,
            y < LCD_HEIGHT,
        ensures
            r == cell(self@, x as int, y as int),
    {
        self.bytes[y * LCD_WIDTH + x]
    }

    /// Overwrite the byte at column `x` of row `y`.
    pub fn set(&mut self, x: usize, y: usize, value: u8)
        requires
            old(self).wf(),
            x < LCD_WIDTH,
            y < LCD_HEIGHT,
        ensures
            final(self).wf(),
            final(self)@ == old(self)@.update(
                y as int * (LCD_WIDTH as int) + x as int,
                value,
            ),
    {
        self.bytes[y * LCD_WIDTH + x] = value;
    }

    /// Borrow the run of bytes a group covers, within a single row.
    pub fn get_slice(&self, group: &TextGroup) -> (r: &[u8])
        requires
            self.wf(),
            group.y < LCD_HEIGHT,
            group.x + group.length <= LCD_WIDTH,
        ensures
            r@ == self@.subrange(
                group.y as int * (LCD_WIDTH as int) + group.x as int,
                group.y as int * (LCD_WIDTH as int) + group.x as int + group.length as int,
            ),
    {
        let start = group.y * LCD_WIDTH + group.x;
        slice_subrange(self.bytes.as_slice(), start, start + group.length)
    }
}

impl Default for LcdText {
    /// A grid of spaces.
    fn default() -> (r: LcdText)
        ensures
            r.wf(),
            r@ == blank_grid(),
    {
        let mut bytes: Vec<u8> = Vec::new();
        let mut i: usize = 0;
        while i < LCD_WIDTH * LCD_HEIGHT
            invariant
                i <= LCD_WIDTH * LCD_HEIGHT,
                bytes@ == Seq::new(i as nat, |j: int| 32u8),
            decreases LCD_WIDTH * LCD_HEIGHT - i,
        {
            bytes.push(32);
            i = i + 1;
            proof {
                assert(bytes@ =~= Seq::new(i as nat, |j: int| 32u8));
            }
        }
        proof {
            assert(bytes@ =~= blank_grid());
        }
        LcdText { bytes }
    }
}

/// Copy one rendered row into display row `y`, leaving every other cell of
/// the grid as it was.
pub(crate) fn write_row(text: &mut LcdText, y: usize, line: &Vec<u8>)
    requires
        old(text).wf(),
        y < LCD_HEIGHT,
        line@.len() <= LCD_WIDTH,
    ensures
        final(text).wf(),
        forall|j: int|
            0 <= j < old(text)@.len() && !(y as int * (LCD_WIDTH as int) <= j < y as int * (
            LCD_WIDTH as int) + line@.len()) ==> final(text)@[j] == old(text)@[j],
        forall|i: int|
            0 <= i < line@.len() ==> final(text)@[y as int * (LCD_WIDTH as int) + i] == line@[i],
{
    let mut i: usize = 0;
    while i < line.len()
        invariant
            text.wf(),
            old(text).wf(),
            y < LCD_HEIGHT,
            line@.len() <= LCD_WIDTH,
            i <= line@.len(),
            forall|j: int|
                0 <= j < old(text)@.len() && !(y as int * (LCD_WIDTH as int) <= j < y as int * (
                LCD_WIDTH as int) + i) ==> #[trigger] text@[j] == old(text)@[j],
            forall|ii: int|
                0 <= ii < i ==> #[trigger] text@[y as int * (LCD_WIDTH as int) + ii] == line@[ii],
        decreases line@.len() - i,
    {
        let ghost prev = text@;
        text.set(i, y, line[i]);
        proof {
            let lo = y as int * (LCD_WIDTH as int);
            assert(text@ == prev.update(lo + i, line@[i as int]));
            assert forall|j: int|
                0 <= j < old(text)@.len() && !(lo <= j < lo + i + 1) implies #[trigger] text@[j]
                == old(text)@[j] by {
                assert(text@[j] == prev[j]);
            }
            assert forall|ii: int| 0 <= ii < i + 1 implies #[trigger] text@[lo + ii]
                == line@[ii] by {
                if ii < i {
                    assert(text@[lo + ii] == prev[lo + ii]);
                }
            }
        }
        i = i + 1;
    }
}

/// A maximal run of contiguous changed cells within one row: the unit of
/// update sent to the display. Runs never span a row boundary.
#[derive(Debug, PartialEq, Eq, Structural)]
pub struct TextGroup {
    pub x: usize,
    pub y: usize,
    pub length: usize,
}

impl TextGroup {
    /// A run of one cell at the given position.
    pub fn new(x: usize, y: usize) -> (r: TextGroup)
        ensures
            r == (TextGroup { x, y, length: 1 }),
    {
        TextGroup { x, y, length: 1 }
    }

    /// Grow the run by one cell to the right.
    pub fn extend(&mut self)
        requires
            old(self).length < usize::MAX,
        ensures
            *final(self) == (TextGroup {
                x: old(self).x,
                y: old(self).y,
                length: (old(self).length + 1) as usize,
            }),
    {
        self.length = self.length + 1;
    }
}

/// The five reusable sub-glyphs that jumbo characters are built from, each
/// a 5x8 pixel bitmap loaded into character bank 0 at startup.
#[derive(Copy, Clone, Debug, PartialEq, Eq, Structural)]
pub enum CustomCharacter {
    HalfBottomRight,
    HalfBottomLeft,
    Bottom,
    FullBottomRight,
    FullBottomLeft,
}

/// Index of a sub-glyph in the character bank, which is also the text byte
/// that renders it.
pub open spec fn custom_tag(c: CustomCharacter) -> u8 {
    match c {
        CustomCharacter::HalfBottomRight => 0x00,
        CustomCharacter::HalfBottomLeft => 0x01,
        CustomCharacter::Bottom => 0x02,
        CustomCharacter::FullBottomRight => 0x03,
        CustomCharacter::FullBottomLeft => 0x04,
    }
}

/// The eight five-pixel rows of a sub-glyph's bitmap.
pub open spec fn custom_pixels(c: CustomCharacter) -> Seq<u8> {
    match c {
        CustomCharacter::HalfBottomRight => seq![
            0b00000u8,
            0b00000,
            0b00000,
            0b00000,
            0b00011,
            0b01111,
            0b01111,
            0b11111,
        ],
        CustomCharacter::HalfBottomLeft => seq![
            0b00000u8,
            0b00000,
            0b00000,
            0b00000,
            0b11000,
            0b11110,
            0b11110,
            0b11111,
        ],
        CustomCharacter::Bottom => seq![
            0b00000u8,
            0b00000,
            0b00000,
            0b00000,
            0b11111,
            0b11111,
            0b11111,
            0b11111,
        ],
        CustomCharacter::FullBottomRight => seq![
            0b11111u8,
            0b11111,
            0b11111,
            0b11111,
            0b11111,
            0b01111,
            0b01111,
            0b00011,
        ],
        CustomCharacter::FullBottomLeft => seq![
            0b11111u8,
            0b11111,
            0b11111,
            0b11111,
            0b11111,
            0b11110,
            0b11110,
            0b11000,
        ],
    }
}

impl CustomCharacter {
    /// The byte representing this sub-glyph in text, which is also its
    /// index in the character bank.
    pub fn tag(self) -> (r: u8)
        ensures
            r == custom_tag(self),
    {
        match self {
            CustomCharacter::HalfBottomRight => 0x00,
            CustomCharacter::HalfBottomLeft => 0x01,
            CustomCharacter::Bottom => 0x02,
            CustomCharacter::FullBottomRight => 0x03,
            CustomCharacter::FullBottomLeft => 0x04,
        }
    }

    /// The bitmap rows that define this sub-glyph, loaded at startup.
    pub fn pixels(self) -> (r: Vec<u8>)
        ensures
            r@ == custom_pixels(self),
    {
        let mut v: Vec<u8> = Vec::new();
        match self {
            CustomCharacter::HalfBottomRight => {
                v.push(0b00000);
                v.push(0b00000);
                v.push(0b00000);
                v.push(0b00000);
                v.push(0b00011);
                v.push(0b01111);
                v.push(0b01111);
                v.push(0b11111);
            },
            CustomCharacter::HalfBottomLeft => {
                v.push(0b00000);
                v.push(0b00000);
                v.push(0b00000);
                v.push(0b00000);
                v.push(0b11000);
                v.push(0b11110);
                v.push(0b11110);
                v.push(0b11111);
            },
            CustomCharacter::Bottom => {
                v.push(0b00000);
                v.push(0b00000);
                v.push(0b00000);
                v.push(0b00000);
                v.push(0b11111);
                v.push(0b11111);
                v.push(0b11111);
                v.push(0b11111);
            },
            CustomCharacter::FullBottomRight => {
                v.push(0b11111);
                v.push(0b11111);
                v.push(0b11111);
                v.push(0b11111);
                v.push(0b11111);
                v.push(0b01111);
                v.push(0b01111);
                v.push(0b00011);
            },
            CustomCharacter::FullBottomLeft => {
                v.push(0b11111);
                v.push(0b11111);
                v.push(0b11111);
                v.push(0b11111);
                v.push(0b11111);
                v.push(0b11110);
                v.push(0b11110);
                v.push(0b11000);
            },
        }
        proof {
            assert(v@ =~= custom_pixels(self));
        }
        v
    }
}

/// Non-text commands for the LCD. Raw text bytes are sent bare; everything
/// else is a sentinel byte, an opcode, and a fixed parameter list.
#[derive(Clone, Debug, PartialEq, Eq, Structural)]
pub enum LcdCommand {
    Clear,
    BacklightOn,
    BacklightOff,
    SetSize { width: u8, height: u8 },
    SetBrightness { brightness: u8 },
    SetContrast { contrast: u8 },
    SetColor { color: Color },
    /// Move the cursor; positions are 1-based.
    CursorPos { x: u8, y: u8 },
    /// Store a sub-glyph bitmap into a character bank.
    SaveCustomCharacter { bank: u8, character: CustomCharacter },
    LoadCharacterBank { bank: u8 },
}

/// One-byte opcode of a command.
pub open spec fn tag_of(c: LcdCommand) -> u8 {
    match c {
        LcdCommand::Clear => 0x58,
        LcdCommand::BacklightOn => 0x42,
        LcdCommand::BacklightOff => 0x46,
        LcdCommand::SetSize { .. } => 0xD1,
        LcdCommand::SetBrightness { .. } => 0x98,
        LcdCommand::SetContrast { .. } => 0x91,
        LcdCommand::SetColor { .. } => 0xD0,
        LcdCommand::CursorPos { .. } => 0x47,
        LcdCommand::SaveCustomCharacter { .. } => 0xC1,
        LcdCommand::LoadCharacterBank { .. } => 0xC0,
    }
}

/// Exact wire encoding of a command: the 0xFE sentinel, the opcode, then
/// the parameters in order.
pub open spec fn command_bytes(c: LcdCommand) -> Seq<u8> {
    seq![0xFEu8, tag_of(c)] + match c {
        LcdCommand::Clear => Seq::<u8>::empty(),
        // The parameter is a backlight timeout that the hardware ignores.
        LcdCommand::BacklightOn => seq![0u8],
        LcdCommand::BacklightOff => Seq::<u8>::empty(),
        LcdCommand::SetSize { width, height } => seq![width, height],
        LcdCommand::SetBrightness { brightness } => seq![brightness],
        LcdCommand::SetContrast { contrast } => seq![contrast],
        LcdCommand::SetColor { color } => seq![color.red, color.green, color.blue],
        LcdCommand::CursorPos { x, y } => seq![x, y],
        LcdCommand::SaveCustomCharacter { bank, character } => seq![bank, custom_tag(character)]
            + custom_pixels(character),
        LcdCommand::LoadCharacterBank { bank } => seq![bank],
    }
}

impl LcdCommand {
    /// One-byte opcode for this command type.
    pub fn tag(&self) -> (r: u8)
        ensures
            r == tag_of(*self),
    {
        match self {
            LcdCommand::Clear => 0x58,
            LcdCommand::BacklightOn => 0x42,
            LcdCommand::BacklightOff => 0x46,
            LcdCommand::SetSize { .. } => 0xD1,
            LcdCommand::SetBrightness { .. } => 0x98,
            LcdCommand::SetContrast { .. } => 0x91,
            LcdCommand::SetColor { .. } => 0xD0,
            LcdCommand::CursorPos { .. } => 0x47,
            LcdCommand::SaveCustomCharacter { .. } => 0xC1,
            LcdCommand::LoadCharacterBank { .. } => 0xC0,
        }
    }

    /// Serialize: sentinel, opcode, parameters.
    pub fn into_bytes(self) -> (r: Vec<u8>)
        ensures
            r@ == command_bytes(self),
    {
        let mut buffer: Vec<u8> = Vec::new();
        buffer.push(0xFE);
        buffer.push(self.tag());
        match self {
            LcdCommand::Clear => {},
            LcdCommand::BacklightOn => {
                buffer.push(0);
            },
            LcdCommand::BacklightOff => {},
            LcdCommand::SetSize { width, height } => {
                buffer.push(width);
                buffer.push(height);
            },
            LcdCommand::SetBrightness { brightness } => {
                buffer.push(brightness);
            },
            LcdCommand::SetContrast { contrast } => {
                buffer.push(contrast);
            },
            LcdCommand::SetColor { color } => {
                buffer.push(color.red);
                buffer.push(color.green);
                buffer.push(color.blue);
            },
            LcdCommand::CursorPos { x, y } => {
                buffer.push(x);
                buffer.push(y);
            },
            LcdCommand::SaveCustomCharacter { bank, character } => {
                buffer.push(bank);
                buffer.push(character.tag());
                let mut pixels = character.pixels();
                buffer.append(&mut pixels);
            },
            LcdCommand::LoadCharacterBank { bank } => {
                buffer.push(bank);
            },
        }
        proof {
            assert(buffer@ =~= command_bytes(self));
        }
        buffer
    }
}

/// Serialize a command and append it to the outgoing queue.
pub fn command(queue: &mut Vec<u8>, cmd: LcdCommand)
    ensures
        final(queue)@ == old(queue)@ + command_bytes(cmd),
{
    let mut bytes = cmd.into_bytes();
    queue.append(&mut bytes);
}

/// Move the cursor to a 1-based position, then send bytes as literal text.
pub fn write_at(queue: &mut Vec<u8>, x: u8, y: u8, text: &[u8])
    ensures
        final(queue)@ == old(queue)@ + command_bytes(LcdCommand::CursorPos { x, y }) + text@,
{
    command(queue, LcdCommand::CursorPos { x, y });
    let mut t = slice_to_vec(text);
    queue.append(&mut t);
    proof {
        assert(final(queue)@ =~= old(queue)@ + command_bytes(LcdCommand::CursorPos { x, y })
            + text@);
    }
}

/// Everything the startup sequence sends: clear, backlight on, geometry,
/// full contrast and brightness, the five sub-glyphs into bank 0, and the
/// bank load.
pub open spec fn startup_bytes() -> Seq<u8> {
    command_bytes(LcdCommand::Clear) + command_bytes(LcdCommand::BacklightOn) + command_bytes(
        LcdCommand::SetSize { width: 20, height: 4 },
    ) + command_bytes(LcdCommand::SetContrast { contrast: 255 }) + command_bytes(
        LcdCommand::SetBrightness { brightness: 255 },
    ) + command_bytes(
        LcdCommand::SaveCustomCharacter {
            bank: 0,
            character: CustomCharacter::HalfBottomRight,
        },
    ) + command_bytes(
        LcdCommand::SaveCustomCharacter { bank: 0, character: CustomCharacter::HalfBottomLeft },
    ) + command_bytes(
        LcdCommand::SaveCustomCharacter { bank: 0, character: CustomCharacter::Bottom },
    ) + command_bytes(
        LcdCommand::SaveCustomCharacter { bank: 0, character: CustomCharacter::FullBottomLeft },
    ) + command_bytes(
        LcdCommand::SaveCustomCharacter {
            bank: 0,
            character: CustomCharacter::FullBottomRight,
        },
    ) + command_bytes(LcdCommand::LoadCharacterBank { bank: 0 })
}

/// The LCD render engine: the background color last sent to hardware and
/// the text grid last sent, both used to suppress redundant commands.
#[derive(Debug)]
pub struct LcdResource {
    color: Color,
    text: LcdText,
}

impl LcdResource {
    /// Cached color last sent to the display.
    pub closed spec fn spec_color(&self) -> Color {
        self.color
    }

    /// Cached grid contents last sent to the display.
    pub closed spec fn spec_text(&self) -> Seq<u8> {
        self.text@
    }

    /// The cached grid always has one byte per cell.
    pub open spec fn wf(&self) -> bool {
        self.spec_text().len() == LCD_WIDTH * LCD_HEIGHT
    }

    /// Run once whenever the transport (re)connects, before steady-state
    /// ticking: appends the full startup sequence to the queue.
    pub fn on_start(&mut self, hardware_state: &mut hardware::LcdState)
        ensures
            *final(self) == *old(self),
            final(hardware_state).message_queue@ == old(hardware_state).message_queue@
                + startup_bytes(),
    {
        let queue = &mut hardware_state.message_queue;
        command(queue, LcdCommand::Clear);
        command(queue, LcdCommand::BacklightOn);
        command(queue, LcdCommand::SetSize { width: 20, height: 4 });
        command(queue, LcdCommand::SetContrast { contrast: 255 });
        command(queue, LcdCommand::SetBrightness { brightness: 255 });
        command(
            queue,
            LcdCommand::SaveCustomCharacter {
                bank: 0,
                character: CustomCharacter::HalfBottomRight,
            },
        );
        command(
            queue,
            LcdCommand::SaveCustomCharacter {
                bank: 0,
                character: CustomCharacter::HalfBottomLeft,
            },
        );
        command(
            queue,
            LcdCommand::SaveCustomCharacter { bank: 0, character: CustomCharacter::Bottom },
        );
        command(
            queue,
            LcdCommand::SaveCustomCharacter {
                bank: 0,
                character: CustomCharacter::FullBottomLeft,
            },
        );
        command(
            queue,
            LcdCommand::SaveCustomCharacter {
                bank: 0,
                character: CustomCharacter::FullBottomRight,
            },
        );
        command(queue, LcdCommand::LoadCharacterBank { bank: 0 });
        proof {
            assert(final(hardware_state).message_queue@ =~= old(
                hardware_state,
            ).message_queue@ + startup_bytes());
        }
    }

    /// Send the background color only if it differs from the cached last
    /// color, updating the cache on emission.
    pub fn set_color(&mut self, hardware_state: &mut hardware::LcdState, color: Color)
        ensures
            final(self).spec_color() == color,
            final(self).spec_text() == old(self).spec_text(),
            final(self).wf() == old(self).wf(),
            old(self).spec_color() == color ==> final(hardware_state).message_queue@ == old(
                hardware_state,
            ).message_queue@,
            old(self).spec_color() != color ==> final(hardware_state).message_queue@ == old(
                hardware_state,
            ).message_queue@ + command_bytes(LcdCommand::SetColor { color }),
    {
        if !(self.color == color) {
            self.color = color;
            command(&mut hardware_state.message_queue, LcdCommand::SetColor { color });
        }
    }
}

impl Default for LcdResource {
    /// A fresh engine: black color cache, blank text cache.
    fn default() -> (r: LcdResource)
        ensures
            r.wf(),
            r.spec_color() == black(),
            r.spec_text() == blank_grid(),
    {
        LcdResource { color: Color::black(), text: LcdText::default() }
    }
}

/// The cells at `(x, y)` of the two grids hold different bytes.
pub open spec fn differs(a: Seq<u8>, b: Seq<u8>, x: int, y: int) -> bool {
    cell(a, x, y) != cell(b, x, y)
}

/// Length of the run of consecutive differing cells beginning at column `x`
/// of row `y`; zero when that cell is unchanged or out of range.
pub open spec fn run_len(a: Seq<u8>, b: Seq<u8>, y: int, x: int) -> nat
    decreases LCD_WIDTH as int - x,
{
    if x < 0 || x >= LCD_WIDTH as int {
        0
    } else if !differs(a, b, x, y) {
        0
    } else {
        1 + run_len(a, b, y, x + 1)
    }
}

/// A maximal run begins at column `x`: the cell differs and the cell to its
/// left does not (or there is no cell to its left).
pub open spec fn run_starts_at(a: Seq<u8>, b: Seq<u8>, y: int, x: int) -> bool {
    differs(a, b, x, y) && (x == 0 || !differs(a, b, x - 1, y))
}

/// The maximal diff runs of row `y` whose start column is at or after `x`,
/// left to right.
pub open spec fn row_runs_from(a: Seq<u8>, b: Seq<u8>, y: int, x: int) -> Seq<TextGroup>
    decreases LCD_WIDTH as int - x,
{
    if x < 0 || x >= LCD_WIDTH as int {
        Seq::<TextGroup>::empty()
    } else if run_starts_at(a, b, y, x) {
        seq![
            TextGroup { x: x as usize, y: y as usize, length: run_len(a, b, y, x) as usize },
        ] + row_runs_from(a, b, y, x + 1)
    } else {
        row_runs_from(a, b, y, x + 1)
    }
}

/// All maximal diff runs of row `y`, left to right.
pub open spec fn row_runs(a: Seq<u8>, b: Seq<u8>, y: int) -> Seq<TextGroup> {
    row_runs_from(a, b, y, 0)
}

/// All maximal diff runs of the rows before row `y`, in row-major order.
pub open spec fn rows_runs_upto(a: Seq<u8>, b: Seq<u8>, y: int) -> Seq<TextGroup>
    decreases y,
{
    if y <= 0 {
        Seq::<TextGroup>::empty()
    } else {
        rows_runs_upto(a, b, y - 1) + row_runs(a, b, y - 1)
    }
}

/// All maximal diff runs of the whole grid, in row-major order. A run never
/// spans a row boundary.
pub open spec fn grid_runs(a: Seq<u8>, b: Seq<u8>) -> Seq<TextGroup> {
    rows_runs_upto(a, b, LCD_HEIGHT as int)
}

/// What one run puts on the wire: a 1-indexed cursor move, then the run's
/// bytes out of the new grid as literal text.
pub open spec fn group_bytes(new: Seq<u8>, g: TextGroup) -> Seq<u8> {
    command_bytes(LcdCommand::CursorPos { x: (g.x + 1) as u8, y: (g.y + 1) as u8 })
        + new.subrange(
        g.y as int * (LCD_WIDTH as int) + g.x as int,
        g.y as int * (LCD_WIDTH as int) + g.x as int + g.length as int,
    )
}

/// What a sequence of runs puts on the wire, in order.
pub open spec fn groups_bytes(new: Seq<u8>, gs: Seq<TextGroup>) -> Seq<u8>
    decreases gs.len(),
{
    if gs.len() == 0 {
        Seq::<u8>::empty()
    } else {
        group_bytes(new, gs[0]) + groups_bytes(new, gs.drop_first())
    }
}

/// A run length never reaches past the right edge of the row.
proof fn lemma_run_len_bound(a: Seq<u8>, b: Seq<u8>, y: int, x: int)
    requires
        0 <= x,
    ensures
        run_len(a, b, y, x) <= LCD_WIDTH as int - x || run_len(a, b, y, x) == 0,
        x < LCD_WIDTH as int ==> x + run_len(a, b, y, x) <= LCD_WIDTH as int,
    decreases LCD_WIDTH as int - x,
{
    if x < LCD_WIDTH as int && differs(a, b, x, y) {
        lemma_run_len_bound(a, b, y, x + 1);
    }
}

/// A forward scan that stops at the first unchanged cell (or the row edge)
/// has measured exactly the run length.
proof fn lemma_run_len_scan(a: Seq<u8>, b: Seq<u8>, y: int, x: int, j: int)
    requires
        0 <= x <= j <= LCD_WIDTH as int,
        forall|i: int| x <= i < j ==> differs(a, b, i, y),
        j == LCD_WIDTH as int || !differs(a, b, j, y),
    ensures
        run_len(a, b, y, x) == j - x,
    decreases j - x,
{
    if x < j {
        lemma_run_len_scan(a, b, y, x + 1, j);
    }
}

/// Every run the row decomposition yields is well-formed: it lies in row
/// `y` at or right of column `x`, starts a maximal run, and carries that
/// run's exact length.
pub open spec fn group_ok(a: Seq<u8>, b: Seq<u8>, y: int, lo: int, g: TextGroup) -> bool {
    &&& g.y == y
    &&& lo <= g.x < LCD_WIDTH
    &&& 1 <= g.length
    &&& g.x + g.length <= LCD_WIDTH
    &&& g.length == run_len(a, b, y, g.x as int)
    &&& run_starts_at(a, b, y, g.x as int)
}

proof fn lemma_row_runs_from_valid(a: Seq<u8>, b: Seq<u8>, y: int, x: int)
    requires
        0 <= x,
        0 <= y < LCD_HEIGHT as int,
    ensures
        forall|k: int|
            0 <= k < row_runs_from(a, b, y, x).len() ==> group_ok(
                a,
                b,
                y,
                x,
                #[trigger] row_runs_from(a, b, y, x)[k],
            ),
    decreases LCD_WIDTH as int - x,
{
    if x < LCD_WIDTH as int {
        lemma_row_runs_from_valid(a, b, y, x + 1);
        let cur = row_runs_from(a, b, y, x);
        let rest = row_runs_from(a, b, y, x + 1);
        if run_starts_at(a, b, y, x) {
            lemma_run_len_bound(a, b, y, x);
            let g0 = TextGroup {
                x: x as usize,
                y: y as usize,
                length: run_len(a, b, y, x) as usize,
            };
            assert(cur == seq![g0] + rest);
            assert(run_len(a, b, y, x) == 1 + run_len(a, b, y, x + 1));
            assert(group_ok(a, b, y, x, g0));
            assert forall|k: int| 0 <= k < cur.len() implies group_ok(a, b, y, x, cur[k]) by {
                if k == 0 {
                    assert(cur[k] == g0);
                } else {
                    assert(cur[k] == rest[k - 1]);
                    assert(group_ok(a, b, y, x + 1, rest[k - 1]));
                }
            }
        } else {
            assert(cur == rest);
            assert forall|k: int| 0 <= k < cur.len() implies group_ok(a, b, y, x, cur[k]) by {
                assert(group_ok(a, b, y, x + 1, rest[k]));
            }
        }
    }
}

/// Every run of the grid decomposition is well-formed and lies in a real row.
proof fn lemma_rows_runs_upto_valid(a: Seq<u8>, b: Seq<u8>, y: int)
    requires
        y <= LCD_HEIGHT as int,
    ensures
        forall|k: int|
            0 <= k < rows_runs_upto(a, b, y).len() ==> {
                let g = #[trigger] rows_runs_upto(a, b, y)[k];
                group_ok(a, b, g.y as int, 0, g) && g.y < y
            },
    decreases y,
{
    if y > 0 {
        lemma_rows_runs_upto_valid(a, b, y - 1);
        lemma_row_runs_from_valid(a, b, y - 1, 0);
        let prev = rows_runs_upto(a, b, y - 1);
        let row = row_runs(a, b, y - 1);
        let cur = rows_runs_upto(a, b, y);
        assert(cur == prev + row);
        assert forall|k: int| 0 <= k < cur.len() implies {
            let g = #[trigger] cur[k];
            group_ok(a, b, g.y as int, 0, g) && g.y < y
        } by {
            if k < prev.len() {
                assert(cur[k] == prev[k]);
            } else {
                assert(cur[k] == row[k - prev.len()]);
                assert(group_ok(a, b, y - 1, 0, row[k - prev.len()]));
            }
        }
    }
}

/// Appending one run to a sequence appends its bytes to the encoding.
proof fn lemma_groups_bytes_push(new: Seq<u8>, gs: Seq<TextGroup>, g: TextGroup)
    ensures
        groups_bytes(new, gs.push(g)) == groups_bytes(new, gs) + group_bytes(new, g),
    decreases gs.len(),
{
    if gs.len() == 0 {
        assert(gs.push(g)[0] == g);
        assert(gs.push(g).drop_first() =~= Seq::<TextGroup>::empty());
        assert(groups_bytes(new, gs.push(g)) == group_bytes(new, g) + groups_bytes(
            new,
            Seq::<TextGroup>::empty(),
        ));
        assert(groups_bytes(new, gs.push(g)) =~= group_bytes(new, g));
        assert(groups_bytes(new, gs) + group_bytes(new, g) =~= group_bytes(new, g));
    } else {
        assert(gs.push(g)[0] == gs[0]);
        assert(gs.push(g).drop_first() =~= gs.drop_first().push(g));
        lemma_groups_bytes_push(new, gs.drop_first(), g);
        assert(groups_bytes(new, gs.push(g)) =~= groups_bytes(new, gs) + group_bytes(new, g));
    }
}

/// Columns in `[x, z)` of row `y` are unchanged, so no run starts there.
proof fn lemma_row_runs_skip(a: Seq<u8>, b: Seq<u8>, y: int, x: int, z: int)
    requires
        0 <= x <= z <= LCD_WIDTH as int,
        forall|i: int| x <= i < z ==> !differs(a, b, i, y),
    ensures
        row_runs_from(a, b, y, x) == row_runs_from(a, b, y, z),
    decreases z - x,
{
    if x < z {
        lemma_row_runs_skip(a, b, y, x + 1, z);
    }
}

/// A row with no changed cell contributes no runs.
proof fn lemma_row_none(a: Seq<u8>, b: Seq<u8>, y: int)
    requires
        forall|i: int| 0 <= i < LCD_WIDTH as int ==> !differs(a, b, i, y),
    ensures
        row_runs(a, b, y) == Seq::<TextGroup>::empty(),
{
    lemma_row_runs_skip(a, b, y, 0, LCD_WIDTH as int);
}

/// A row whose only changed cell is at column `cx` contributes exactly one
/// run of length one.
proof fn lemma_row_single(a: Seq<u8>, b: Seq<u8>, y: int, cx: int)
    requires
        0 <= y < LCD_HEIGHT as int,
        0 <= cx < LCD_WIDTH as int,
        differs(a, b, cx, y),
        forall|i: int| 0 <= i < LCD_WIDTH as int && i != cx ==> !differs(a, b, i, y),
    ensures
        row_runs(a, b, y) == seq![
            TextGroup { x: cx as usize, y: y as usize, length: 1 },
        ],
{
    lemma_row_runs_skip(a, b, y, 0, cx);
    lemma_run_len_scan(a, b, y, cx, cx + 1);
    lemma_row_runs_skip(a, b, y, cx + 1, LCD_WIDTH as int);
    assert(run_starts_at(a, b, y, cx));
    assert(row_runs_from(a, b, y, cx) =~= seq![
        TextGroup { x: cx as usize, y: y as usize, length: 1 },
    ] + row_runs_from(a, b, y, cx + 1));
    assert(row_runs(a, b, y) =~= seq![
        TextGroup { x: cx as usize, y: y as usize, length: 1 },
    ]);
}

/// A row whose only changed cells are two non-adjacent columns contributes
/// exactly two separate one-cell runs, never a merged one.
proof fn lemma_row_two(a: Seq<u8>, b: Seq<u8>, y: int, x1: int, x2: int)
    requires
        0 <= y < LCD_HEIGHT as int,
        0 <= x1,
        x1 + 1 < x2 < LCD_WIDTH as int,
        differs(a, b, x1, y),
        differs(a, b, x2, y),
        forall|i: int| 0 <= i < LCD_WIDTH as int && i != x1 && i != x2 ==> !differs(a, b, i, y),
    ensures
        row_runs(a, b, y) == seq![
            TextGroup { x: x1 as usize, y: y as usize, length: 1 },
            TextGroup { x: x2 as usize, y: y as usize, length: 1 },
        ],
{
    let g1 = TextGroup { x: x1 as usize, y: y as usize, length: 1 };
    let g2 = TextGroup { x: x2 as usize, y: y as usize, length: 1 };
    lemma_row_runs_skip(a, b, y, 0, x1);
    lemma_run_len_scan(a, b, y, x1, x1 + 1);
    lemma_row_runs_skip(a, b, y, x1 + 1, x2);
    lemma_run_len_scan(a, b, y, x2, x2 + 1);
    lemma_row_runs_skip(a, b, y, x2 + 1, LCD_WIDTH as int);
    assert(run_starts_at(a, b, y, x1));
    assert(run_starts_at(a, b, y, x2));
    assert(row_runs_from(a, b, y, x2) =~= seq![g2] + row_runs_from(a, b, y, x2 + 1));
    assert(row_runs_from(a, b, y, x1) =~= seq![g1] + row_runs_from(a, b, y, x1 + 1));
    assert(row_runs(a, b, y) =~= seq![g1, g2]);
}

/// The grid decomposition is the four row decompositions in order.
pub proof fn lemma_grid_runs_rows(a: Seq<u8>, b: Seq<u8>)
    ensures
        grid_runs(a, b) == row_runs(a, b, 0) + row_runs(a, b, 1) + row_runs(a, b, 2) + row_runs(
            a,
            b,
            3,
        ),
{
    assert(rows_runs_upto(a, b, 0) == Seq::<TextGroup>::empty());
    assert(rows_runs_upto(a, b, 1) == rows_runs_upto(a, b, 0) + row_runs(a, b, 0));
    assert(rows_runs_upto(a, b, 2) == rows_runs_upto(a, b, 1) + row_runs(a, b, 1));
    assert(rows_runs_upto(a, b, 3) == rows_runs_upto(a, b, 2) + row_runs(a, b, 2));
    assert(grid_runs(a, b) == rows_runs_upto(a, b, 3) + row_runs(a, b, 3));
    assert(grid_runs(a, b) =~= row_runs(a, b, 0) + row_runs(a, b, 1) + row_runs(a, b, 2)
        + row_runs(a, b, 3));
}

/// Writing identical content produces no runs at all, hence no cursor or
/// text bytes: the encoding of the diff is empty.
pub proof fn lemma_no_change_no_runs(a: Seq<u8>)
    ensures
        grid_runs(a, a) == Seq::<TextGroup>::empty(),
        groups_bytes(a, grid_runs(a, a)) == Seq::<u8>::empty(),
{
    assert forall|y: int| 0 <= y < LCD_HEIGHT as int implies row_runs(a, a, y)
        == Seq::<TextGroup>::empty() by {
        lemma_row_none(a, a, y);
    }
    lemma_grid_runs_rows(a, a);
    assert(grid_runs(a, a) =~= Seq::<TextGroup>::empty());
}

/// Changing exactly one cell produces exactly one run: a single cursor
/// move plus a single byte of text.
pub proof fn lemma_single_cell_single_run(a: Seq<u8>, b: Seq<u8>, cx: int, cy: int)
    requires
        0 <= cx < LCD_WIDTH as int,
        0 <= cy < LCD_HEIGHT as int,
        differs(a, b, cx, cy),
        forall|x: int, y: int|
            0 <= x < LCD_WIDTH as int && 0 <= y < LCD_HEIGHT as int && (x != cx || y != cy)
                ==> !differs(a, b, x, y),
    ensures
        grid_runs(a, b) == seq![TextGroup { x: cx as usize, y: cy as usize, length: 1 }],
    {
    let g = TextGroup { x: cx as usize, y: cy as usize, length: 1 };
    assert forall|y: int| 0 <= y < LCD_HEIGHT as int && y != cy implies row_runs(a, b, y)
        == Seq::<TextGroup>::empty() by {
        lemma_row_none(a, b, y);
    }
    lemma_row_single(a, b, cy, cx);
    lemma_grid_runs_rows(a, b);
    assert(grid_runs(a, b) =~= seq![g]);
}

/// A change spanning two non-adjacent cells of the same row produces two
/// separate runs, never a merged one.
pub proof fn lemma_two_cells_two_runs(a: Seq<u8>, b: Seq<u8>, y: int, x1: int, x2: int)
    requires
        0 <= y < LCD_HEIGHT as int,
        0 <= x1,
        x1 + 1 < x2 < LCD_WIDTH as int,
        differs(a, b, x1, y),
        differs(a, b, x2, y),
        forall|x: int, yy: int|
            0 <= x < LCD_WIDTH as int && 0 <= yy < LCD_HEIGHT as int && (yy != y || (x != x1 && x
                != x2)) ==> !differs(a, b, x, yy),
    ensures
        grid_runs(a, b) == seq![
            TextGroup { x: x1 as usize, y: y as usize, length: 1 },
            TextGroup { x: x2 as usize, y: y as usize, length: 1 },
        ],
{
    let g1 = TextGroup { x: x1 as usize, y: y as usize, length: 1 };
    let g2 = TextGroup { x: x2 as usize, y: y as usize, length: 1 };
    assert forall|yy: int| 0 <= yy < LCD_HEIGHT as int && yy != y implies row_runs(a, b, yy)
        == Seq::<TextGroup>::empty() by {
        lemma_row_none(a, b, yy);
    }
    lemma_row_two(a, b, y, x1, x2);
    lemma_grid_runs_rows(a, b);
    assert(grid_runs(a, b) =~= seq![g1, g2]);
}

/// Changes in the last cell of one row and the first cell of the next are
/// adjacent in memory but still produce two runs: a run never crosses a
/// row boundary.
pub proof fn lemma_runs_never_cross_rows(a: Seq<u8>, b: Seq<u8>, y: int)
    requires
        0 <= y,
        y + 1 < LCD_HEIGHT as int,
        differs(a, b, LCD_WIDTH as int - 1, y),
        differs(a, b, 0, y + 1),
        forall|x: int, yy: int|
            0 <= x < LCD_WIDTH as int && 0 <= yy < LCD_HEIGHT as int && !(x == LCD_WIDTH as int
                - 1 && yy == y) && !(x == 0 && yy == y + 1) ==> !differs(a, b, x, yy),
    ensures
        grid_runs(a, b) == seq![
            TextGroup { x: (LCD_WIDTH - 1) as usize, y: y as usize, length: 1 },
            TextGroup { x: 0, y: (y + 1) as usize, length: 1 },
        ],
{
    let g1 = TextGroup { x: (LCD_WIDTH - 1) as usize, y: y as usize, length: 1 };
    let g2 = TextGroup { x: 0, y: (y + 1) as usize, length: 1 };
    assert forall|yy: int| 0 <= yy < LCD_HEIGHT as int && yy != y && yy != y + 1 implies row_runs(
        a,
        b,
        yy,
    ) == Seq::<TextGroup>::empty() by {
        lemma_row_none(a, b, yy);
    }
    lemma_row_single(a, b, y, LCD_WIDTH as int - 1);
    lemma_row_single(a, b, y + 1, 0);
    lemma_grid_runs_rows(a, b);
    assert(grid_runs(a, b) =~= seq![g1, g2]);
}

/// Compute the maximal changed runs between the cached grid and a new one,
/// row by row, left to right.
fn diff_groups(a: &LcdText, b: &LcdText) -> (r: Vec<TextGroup>)
    requires
        a.wf(),
        b.wf(),
    ensures
        r@ == grid_runs(a@, b@),
{
    let mut groups: Vec<TextGroup> = Vec::new();
    let mut y: usize = 0;
    while y < LCD_HEIGHT
        invariant
            a.wf(),
            b.wf(),
            y <= LCD_HEIGHT,
            groups@ == rows_runs_upto(a@, b@, y as int),
        decreases LCD_HEIGHT - y,
    {
        let mut x: usize = 0;
        while x < LCD_WIDTH
            invariant
                a.wf(),
                b.wf(),
                y < LCD_HEIGHT,
                x <= LCD_WIDTH,
                groups@ + row_runs_from(a@, b@, y as int, x as int) == rows_runs_upto(
                    a@,
                    b@,
                    y as int,
                ) + row_runs(a@, b@, y as int),
            decreases LCD_WIDTH - x,
        {
            let d = a.get(x, y) != b.get(x, y);
            let starts = d && (x == 0 || a.get(x - 1, y) == b.get(x - 1, y));
            if starts {
                // Measure the full run before recording it.
                let mut len: usize = 1;
                while x + len < LCD_WIDTH && a.get(x + len, y) != b.get(x + len, y)
                    invariant
                        a.wf(),
                        b.wf(),
                        y < LCD_HEIGHT,
                        x < LCD_WIDTH,
                        1 <= len,
                        x + len <= LCD_WIDTH,
                        forall|i: int|
                            x <= i < x + len ==> differs(a@, b@, i, y as int),
                    decreases LCD_WIDTH - x - len,
                {
                    len = len + 1;
                }
                proof {
                    lemma_run_len_scan(a@, b@, y as int, x as int, x as int + len as int);
                }
                let g = TextGroup { x, y, length: len };
                groups.push(g);
                proof {
                    assert(row_runs_from(a@, b@, y as int, x as int) =~= seq![g]
                        + row_runs_from(a@, b@, y as int, x as int + 1));
                    assert(groups@ + row_runs_from(a@, b@, y as int, x as int + 1)
                        =~= rows_runs_upto(a@, b@, y as int) + row_runs(a@, b@, y as int));
                }
            } else {
                proof {
                    assert(row_runs_from(a@, b@, y as int, x as int) == row_runs_from(
                        a@,
                        b@,
                        y as int,
                        x as int + 1,
                    ));
                }
            }
            x = x + 1;
        }
        y = y + 1;
        proof {
            assert(row_runs_from(a@, b@, y as int - 1, LCD_WIDTH as int)
                =~= Seq::<TextGroup>::empty());
            assert(groups@ =~= rows_runs_upto(a@, b@, y as int));
        }
    }
    groups
}

impl LcdResource {
    /// Replace the displayed text: diff the new grid against the cached one,
    /// emit one cursor move plus literal run for each maximal changed run in
    /// row-major order, and cache the new grid whether or not anything was
    /// emitted.
    pub fn set_text(&mut self, hardware_state: &mut hardware::LcdState, text: LcdText)
        requires
            old(self).wf(),
            text.wf(),
        ensures
            final(self).wf(),
            final(self).spec_text() == text@,
            final(self).spec_color() == old(self).spec_color(),
            final(hardware_state).message_queue@ == old(hardware_state).message_queue@
                + groups_bytes(text@, grid_runs(old(self).spec_text(), text@)),
    {
        let groups = diff_groups(&self.text, &text);
        proof {
            lemma_rows_runs_upto_valid(self.text@, text@, LCD_HEIGHT as int);
        }
        let ghost all_bytes = groups_bytes(text@, groups@);
        let queue = &mut hardware_state.message_queue;
        let ghost queue0 = queue@;
        let mut k: usize = 0;
        while k < groups.len()
            invariant
                text.wf(),
                k <= groups@.len(),
                forall|i: int|
                    0 <= i < groups@.len() ==> {
                        let g = #[trigger] groups@[i];
                        group_ok(old(self).spec_text(), text@, g.y as int, 0, g) && g.y
                            < LCD_HEIGHT
                    },
                queue@ == queue0 + groups_bytes(text@, groups@.subrange(0, k as int)),
            decreases groups@.len() - k,
        {
            let g = &groups[k];
            let run = text.get_slice(g);
            write_at(queue, (g.x + 1) as u8, (g.y + 1) as u8, run);
            proof {
                assert(groups@.subrange(0, k as int + 1) =~= groups@.subrange(
                    0,
                    k as int,
                ).push(groups@[k as int]));
                lemma_groups_bytes_push(
                    text@,
                    groups@.subrange(0, k as int),
                    groups@[k as int],
                );
                assert(queue@ =~= queue0 + groups_bytes(
                    text@,
                    groups@.subrange(0, k as int + 1),
                ));
            }
            k = k + 1;
        }
        proof {
            assert(groups@.subrange(0, groups@.len() as int) =~= groups@);
        }
        self.text = text;
    }
}

/// What one clock-mode tick does, given the wall-clock reading `t`: the
/// color cache holds the configured color (a set-color command was sent
/// only if it changed), the text cache holds the clock grid for `t`, and
/// the queue grew by exactly the color command and the encoded text diff.
pub open spec fn clock_tick_result(
    pre: LcdResource,
    post: LcdResource,
    q0: Seq<u8>,
    q1: Seq<u8>,
    color: Color,
    t: crate::clock::ClockTime,
) -> bool {
    let text = crate::clock::spec_clock_text(t);
    let color_part = if pre.spec_color() == color {
        Seq::<u8>::empty()
    } else {
        command_bytes(LcdCommand::SetColor { color })
    };
    &&& post.spec_color() == color
    &&& post.spec_text() == text
    &&& q1 == q0 + color_part + groups_bytes(text, grid_runs(pre.spec_text(), text))
}

impl LcdResource {
    /// One clock-mode tick against a given wall-clock reading: refresh the
    /// background color, then render and diff the clock grid.
    pub fn tick_with_time(
        &mut self,
        user_state: &LcdState,
        hardware_state: &mut hardware::LcdState,
        t: &crate::clock::ClockTime,
    )
        requires
            old(self).wf(),
            t.wf(),
        ensures
            final(self).wf(),
            clock_tick_result(
                *old(self),
                *final(self),
                old(hardware_state).message_queue@,
                final(hardware_state).message_queue@,
                user_state.color,
                *t,
            ),
    {
        self.set_color(hardware_state, user_state.color);
        let text = crate::clock::get_clock_text(t);
        self.set_text(hardware_state, text);
    }

    /// One scheduler tick: off mode sends backlight-off and clear and
    /// deliberately leaves both caches alone, so a later return to clock
    /// mode diffs against the content last sent, not against the cleared
    /// display. Clock mode reads the wall clock and renders it; whatever
    /// time the clock returned, the update is exactly a clock-mode tick
    /// for some well-formed reading.
    pub fn on_tick(&mut self, user_state: &LcdState, hardware_state: &mut hardware::LcdState)
        requires
            old(self).wf(),
        ensures
            final(self).wf(),
            user_state.mode is Off ==> (*final(self) == *old(self)
                && final(hardware_state).message_queue@ == old(hardware_state).message_queue@
                + command_bytes(LcdCommand::BacklightOff) + command_bytes(LcdCommand::Clear)),
            user_state.mode is Clock ==> exists|t: crate::clock::ClockTime|
                t.wf() && #[trigger] clock_tick_result(
                    *old(self),
                    *final(self),
                    old(hardware_state).message_queue@,
                    final(hardware_state).message_queue@,
                    user_state.color,
                    t,
                ),
    {
        match user_state.mode {
            LcdMode::Off => {
                let queue = &mut hardware_state.message_queue;
                command(queue, LcdCommand::BacklightOff);
                command(queue, LcdCommand::Clear);
                proof {
                    assert(final(hardware_state).message_queue@ =~= old(
                        hardware_state,
                    ).message_queue@ + command_bytes(LcdCommand::BacklightOff) + command_bytes(
                        LcdCommand::Clear,
                    ));
                }
            },
            LcdMode::Clock => {
                let t = crate::clock::read_clock();
                self.tick_with_time(user_state, hardware_state, &t);
            },
        }
    }
}

} // verus!
