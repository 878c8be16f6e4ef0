//! SSD1306 128x64 monochrome OLED over I2C: command framing and the frame
//! buffer that drawing writes into.
//!
//! The controller's display RAM is organised in eight pages of eight rows;
//! byte `x` of page `p` holds the pixels `(x, 8p) .. (x, 8p + 7)`, least
//! significant bit on top. The driver keeps a copy of that RAM behind a
//! control byte, so a flush is one I2C write of the whole buffer.

use vstd::prelude::*;

verus! {

/// I2C address of the controller.
pub const ADDR: u8 = 0x3C;
/// Display width in pixels.
pub const WIDTH: usize = 128;
/// Display height in pixels.
pub const HEIGHT: usize = 64;
/// Bytes of display RAM: one byte per column per page.
pub const FB_LEN: usize = 1024;
/// Control byte that starts a stream of pixel data.
pub const CONTROL_DATA: u8 = 0x40;
/// Control byte that starts a stream of commands.
pub const CONTROL_COMMANDS: u8 = 0x00;
/// The most command bytes that one command packet carries.
pub const MAX_COMMANDS: usize = 31;

/// Index in the buffer (after the control byte) of the byte that holds pixel `(x, y)`.
pub open spec fn pixel_index(x: int, y: int) -> int {
    1 + (y / 8) * WIDTH + x
}

/// The bit of its byte that holds a pixel of row `y`.
pub open spec fn pixel_mask(y: int) -> u8 {
    1u8 << ((y % 8) as u8)
}

/// Whether `(x, y)` lies on the display.
pub open spec fn on_screen(x: int, y: int) -> bool {
    0 <= x < WIDTH && 0 <= y < HEIGHT
}

/// Whether pixel `(x, y)` is lit in `frame`.
pub open spec fn pixel_on(frame: Seq<u8>, x: int, y: int) -> bool {
    frame[pixel_index(x, y)] & pixel_mask(y) != 0
}

/// `frame` with pixel `(x, y)` set to `on`; coordinates off the display
/// leave it as it is.
pub open spec fn with_pixel(frame: Seq<u8>, x: int, y: int, on: bool) -> Seq<u8> {
    if on_screen(x, y) {
        let i = pixel_index(x, y);
        frame.update(
            i,
            if on {
                frame[i] | pixel_mask(y)
            } else {
                frame[i] & !pixel_mask(y)
            },
        )
    } else {
        frame
    }
}

/// A well-formed buffer: the control byte, then the display RAM.
pub open spec fn frame_wf(frame: Seq<u8>) -> bool {
    frame.len() == 1 + FB_LEN && frame[0] == CONTROL_DATA
}

/// The controller's start-up sequence.
pub open spec fn init_sequence() -> Seq<u8> {
    seq![
        0xAE, // display off
        0xD5, 0x80, // clock divide ratio / oscillator frequency
        0xA8, 0x3F, // multiplex ratio = 63 (64 rows)
        0xD3, 0x00, // display offset = 0
        0x40, // start line = 0
        0x8D, 0x14, // charge pump enable
        0x20, 0x00, // memory addressing mode = horizontal
        0xA1, // segment remap (mirror X); 0xA0 if flipped
        0xC8, // COM scan direction remap (mirror Y); 0xC0 if flipped
        0xDA, 0x12, // COM pins configuration for 128x64
        0x81, 0xCF, // contrast
        0xD9, 0xF1, // pre-charge period
        0xDB, 0x40, // VCOMH deselect level
        0xA4, // display follows RAM content
        0xA6, // normal (not inverted)
        0xAF, // display on
    ]
}

/// The commands that precede a flush: the whole screen as the write window.
pub open spec fn window_sequence() -> Seq<u8> {
    seq![
        0x21, 0x00, 0x7F, // column address 0 .. 127
        0x22, 0x00, 0x07, // page address 0 .. 7
    ]
}

proof fn lemma_bits(b: u8, k: u8, j: u8)
    by (bit_vector)
    requires
        k < 8,
        j < 8,
    ensures
        ((b | (1u8 << k)) & (1u8 << k)) != 0,
        ((b & !(1u8 << k)) & (1u8 << k)) == 0,
        j != k ==> (((b | (1u8 << k)) & (1u8 << j)) != 0) == ((b & (1u8 << j)) != 0),
        j != k ==> (((b & !(1u8 << k)) & (1u8 << j)) != 0) == ((b & (1u8 << j)) != 0),
{
}

proof fn lemma_zero_byte(k: u8)
    by (bit_vector)
    requires
        k < 8,
    ensures
        (0u8 & (1u8 << k)) == 0,
{
}

proof fn lemma_pixel_index_injective(x1: int, y1: int, x2: int, y2: int)
    requires
        on_screen(x1, y1),
        on_screen(x2, y2),
        pixel_index(x1, y1) == pixel_index(x2, y2),
    ensures
        x1 == x2,
        y1 / 8 == y2 / 8,
{
    let p1 = y1 / 8;
    let p2 = y2 / 8;
    assert(0 <= p1 < 8 && 0 <= p2 < 8);
    if p1 < p2 {
        assert(p1 * 128 + x1 < p2 * 128 + x2) by (nonlinear_arith)
            requires
                p1 < p2,
                0 <= x1 < 128,
                0 <= x2,
        ;
    } else if p2 < p1 {
        assert(p2 * 128 + x2 < p1 * 128 + x1) by (nonlinear_arith)
            requires
                p2 < p1,
                0 <= x2 < 128,
                0 <= x1,
        ;
    }
}

proof fn lemma_pixel_index_range(x: int, y: int)
    requires
        on_screen(x, y),
    ensures
        1 <= pixel_index(x, y) < 1 + FB_LEN,
{
    let p = y / 8;
    assert(0 <= p < 8);
    assert(0 <= p * 128 <= 7 * 128) by (nonlinear_arith)
        requires
            0 <= p < 8,
    ;
}

/// Setting a pixel lights or clears exactly that pixel: it reads back as
/// written, every other pixel of the display keeps its value, and the
/// control byte stays in place.
pub proof fn lemma_with_pixel(frame: Seq<u8>, x: int, y: int, on: bool)
    requires
        frame_wf(frame),
    ensures
        frame_wf(with_pixel(frame, x, y, on)),
        on_screen(x, y) ==> pixel_on(with_pixel(frame, x, y, on), x, y) == on,
        forall|x2: int, y2: int|
            on_screen(x2, y2) && (x2 != x || y2 != y) ==> #[trigger] pixel_on(
                with_pixel(frame, x, y, on),
                x2,
                y2,
            ) == pixel_on(frame, x2, y2),
{
    if on_screen(x, y) {
        lemma_pixel_index_range(x, y);
        let i = pixel_index(x, y);
        let k = (y % 8) as u8;
        lemma_bits(frame[i], k, k);
        assert forall|x2: int, y2: int|
            on_screen(x2, y2) && (x2 != x || y2 != y) implies #[trigger] pixel_on(
                with_pixel(frame, x, y, on),
                x2,
                y2,
            ) == pixel_on(frame, x2, y2) by {
            lemma_pixel_index_range(x2, y2);
            if pixel_index(x2, y2) == i {
                lemma_pixel_index_injective(x, y, x2, y2);
                assert(y2 % 8 != y % 8);
                lemma_bits(frame[i], k, (y2 % 8) as u8);
            }
        }
    }
}

proof fn lemma_bits_overwrite(b: u8, k: u8, a: bool, c: bool)
    by (bit_vector)
    requires
        k < 8,
    ensures
        (if c {
            (if a {
                b | (1u8 << k)
            } else {
                b & !(1u8 << k)
            }) | (1u8 << k)
        } else {
            (if a {
                b | (1u8 << k)
            } else {
                b & !(1u8 << k)
            }) & !(1u8 << k)
        }) == (if c {
            b | (1u8 << k)
        } else {
            b & !(1u8 << k)
        }),
{
}

proof fn lemma_bits_commute(b: u8, k: u8, j: u8, a: bool, c: bool)
    by (bit_vector)
    requires
        k < 8,
        j < 8,
    ensures
        (if c {
            (if a {
                b | (1u8 << k)
            } else {
                b & !(1u8 << k)
            }) | (1u8 << j)
        } else {
            (if a {
                b | (1u8 << k)
            } else {
                b & !(1u8 << k)
            }) & !(1u8 << j)
        }) == (if a {
            (if c {
                b | (1u8 << j)
            } else {
                b & !(1u8 << j)
            }) | (1u8 << k)
        } else {
            (if c {
                b | (1u8 << j)
            } else {
                b & !(1u8 << j)
            }) & !(1u8 << k)
        }) || j == k,
{
}

/// The last write to a pixel wins: setting it twice is the same as
/// setting it once to the second value (so setting is idempotent).
pub proof fn lemma_with_pixel_last_write_wins(frame: Seq<u8>, x: int, y: int, a: bool, b: bool)
    requires
        frame_wf(frame),
    ensures
        with_pixel(with_pixel(frame, x, y, a), x, y, b) == with_pixel(frame, x, y, b),
{
    if on_screen(x, y) {
        lemma_pixel_index_range(x, y);
        let i = pixel_index(x, y);
        lemma_bits_overwrite(frame[i], (y % 8) as u8, a, b);
        assert(with_pixel(with_pixel(frame, x, y, a), x, y, b) =~= with_pixel(frame, x, y, b));
    }
}

/// Writes to two different pixels can be done in either order.
pub proof fn lemma_with_pixel_commute(
    frame: Seq<u8>,
    x1: int,
    y1: int,
    a: bool,
    x2: int,
    y2: int,
    b: bool,
)
    requires
        frame_wf(frame),
        x1 != x2 || y1 != y2,
    ensures
        with_pixel(with_pixel(frame, x1, y1, a), x2, y2, b) == with_pixel(
            with_pixel(frame, x2, y2, b),
            x1,
            y1,
            a,
        ),
{
    let lhs = with_pixel(with_pixel(frame, x1, y1, a), x2, y2, b);
    let rhs = with_pixel(with_pixel(frame, x2, y2, b), x1, y1, a);
    if on_screen(x1, y1) && on_screen(x2, y2) {
        lemma_pixel_index_range(x1, y1);
        lemma_pixel_index_range(x2, y2);
        let i1 = pixel_index(x1, y1);
        let i2 = pixel_index(x2, y2);
        if i1 == i2 {
            lemma_pixel_index_injective(x1, y1, x2, y2);
            assert(y1 % 8 != y2 % 8);
            lemma_bits_commute(frame[i1], (y1 % 8) as u8, (y2 % 8) as u8, a, b);
        }
        assert(lhs =~= rhs);
    } else {
        assert(lhs =~= rhs);
    }
}

/// The start-up sequence drives the whole 128x64 panel and lays the RAM
/// out as the flush expects, following the SSD1306 datasheet's command
/// table:
/// it begins with the display off (0xAE) and ends with it on (0xAF); the
/// multiplex ratio (0xA8) is `HEIGHT - 1`, so every row is driven; the
/// display offset (0xD3) and start line (0x40) are 0; the charge pump
/// (0x8D) is enabled with 0x14; memory addressing (0x20) is horizontal
/// (0x00), so the column/page window of a flush applies and one buffer
/// write fills all `HEIGHT / 8` pages; and the COM pins (0xDA) use the
/// alternative configuration 0x12 that a 64-row panel needs.
pub proof fn lemma_init_sequence_configures_panel()
    ensures
        init_sequence().len() == 25,
        init_sequence()[0] == 0xAE,
        init_sequence()[24] == 0xAF,
        init_sequence()[3] == 0xA8 && init_sequence()[4] == HEIGHT - 1,
        init_sequence()[5] == 0xD3 && init_sequence()[6] == 0x00,
        init_sequence()[7] == 0x40,
        init_sequence()[8] == 0x8D && init_sequence()[9] == 0x14,
        init_sequence()[10] == 0x20 && init_sequence()[11] == 0x00,
        init_sequence()[14] == 0xDA && init_sequence()[15] == 0x12,
{
}

/// The flush window covers the whole display: columns `0 ..= WIDTH - 1`
/// (command 0x21) and pages `0 ..= HEIGHT / 8 - 1` (command 0x22), so the
/// `FB_LEN` bytes after it land on the screen one page after the other.
pub proof fn lemma_window_covers_display()
    ensures
        window_sequence().len() == 6,
        window_sequence()[0] == 0x21,
        window_sequence()[1] == 0,
        window_sequence()[2] == WIDTH - 1,
        window_sequence()[3] == 0x22,
        window_sequence()[4] == 0,
        window_sequence()[5] == HEIGHT / 8 - 1,
        (window_sequence()[2] + 1) * (window_sequence()[5] + 1) == FB_LEN,
{
}

proof fn lemma_bit_of_set(b: u8, k: u8)
    by (bit_vector)
    requires
        k < 8,
    ensures
        ((b | (1u8 << k)) >> k) & 1 == 1,
        ((b & !(1u8 << k)) >> k) & 1 == 0,
{
}

/// The display RAM layout of the SSD1306 in horizontal mode: pixel
/// `(x, y)` is bit `y % 8` of byte `x` of page `y / 8`, which is buffer
/// byte `1 + (y / 8) * WIDTH + x` after the control byte. Setting a pixel
/// sets or clears exactly that bit.
pub proof fn lemma_pixel_layout(frame: Seq<u8>, x: int, y: int, on: bool)
    requires
        frame_wf(frame),
        0 <= x < 128,
        0 <= y < 64,
    ensures
        ((with_pixel(frame, x, y, on)[1 + (y / 8) * 128 + x] >> ((y % 8) as u8)) & 1 == 1) == on,
{
    lemma_pixel_index_range(x, y);
    lemma_bit_of_set(frame[1 + (y / 8) * 128 + x], (y % 8) as u8);
}

/// The driver: the bus and the frame buffer that drawing writes into.
pub struct Ssd1306<I2C> {
    i2c: I2C,
    /// The control byte for pixel data, then the display RAM.
    buf: [u8; 1025],
}

impl<I2C> Ssd1306<I2C> {
    /// The buffer starts with the pixel-data control byte.
    pub open spec fn wf(&self) -> bool {
        frame_wf(self.frame_spec())
    }

    /// The bus the driver was made with.
    pub closed spec fn bus_spec(&self) -> I2C {
        self.i2c
    }

    /// The buffer: control byte, then display RAM.
    pub closed spec fn frame_spec(&self) -> Seq<u8> {
        self.buf@
    }

    /// A driver on `i2c` with a blank buffer.
    pub fn new(i2c: I2C) -> (d: Self)
        ensures
            d.bus_spec() == i2c,
            d.wf(),
            forall|i: int| 1 <= i < 1 + FB_LEN ==> d.frame_spec()[i] == 0,
    {
        let mut buf = [0u8; 1025];
        buf[0] = CONTROL_DATA;
        Self { i2c, buf }
    }

    /// The bus, for sending the packets that this driver frames.
    pub fn bus(&mut self) -> (bus: &mut I2C)
        ensures
            *bus == old(self).bus_spec(),
            final(self).frame_spec() == old(self).frame_spec(),
            final(self).bus_spec() == *final(bus),
    {
        &mut self.i2c
    }

    /// The buffer as it is sent on a flush: control byte, then display RAM.
    pub fn frame(&self) -> (frame: &[u8; 1025])
        requires
            self.wf(),
        ensures
            frame@ == self.frame_spec(),
            frame_wf(frame@),
    {
        &self.buf
    }

    /// Sets pixel `(x, y)` to `on`; coordinates off the display are ignored.
    pub fn set_pixel(&mut self, x: usize, y: usize, on: bool)
        requires
            old(self).wf(),
        ensures
            final(self).wf(),
            final(self).frame_spec() == with_pixel(old(self).frame_spec(), x as int, y as int, on),
            on_screen(x as int, y as int) ==> pixel_on(final(self).frame_spec(), x as int, y as int)
                == on,
            forall|x2: int, y2: int|
                on_screen(x2, y2) && (x2 != x || y2 != y) ==> #[trigger] pixel_on(
                    final(self).frame_spec(),
                    x2,
                    y2,
                ) == pixel_on(old(self).frame_spec(), x2, y2),
            final(self).bus_spec() == old(self).bus_spec(),
    {
        proof {
            lemma_with_pixel(self.buf@, x as int, y as int, on);
        }
        if x >= WIDTH || y >= HEIGHT {
            return;
        }
        proof {
            lemma_pixel_index_range(x as int, y as int);
        }
        let idx = 1 + (y / 8) * WIDTH + x;
        let bit: u8 = 1u8 << ((y % 8) as u8);
        if on {
            self.buf[idx] = self.buf[idx] | bit;
        } else {
            self.buf[idx] = self.buf[idx] & !bit;
        }
        assert(self.buf@ =~= with_pixel(old(self).buf@, x as int, y as int, on));
    }

    /// Turns every pixel off; the control byte stays.
    pub fn clear(&mut self)
        requires
            old(self).wf(),
        ensures
            final(self).wf(),
            forall|i: int| 1 <= i < 1 + FB_LEN ==> final(self).frame_spec()[i] == 0,
            forall|x: int, y: int|
                on_screen(x, y) ==> !#[trigger] pixel_on(final(self).frame_spec(), x, y),
            final(self).bus_spec() == old(self).bus_spec(),
    {
        let mut i: usize = 1;
        while i < 1025
            invariant
                1 <= i <= 1025,
                self.buf[0] == CONTROL_DATA,
                forall|j: int| 1 <= j < i ==> self.buf[j] == 0,
                self.i2c == old(self).i2c,
            decreases 1025 - i,
        {
            self.buf[i] = 0;
            i = i + 1;
        }
        assert forall|x: int, y: int| on_screen(x, y) implies !#[trigger] pixel_on(
            self.buf@,
            x,
            y,
        ) by {
            lemma_pixel_index_range(x, y);
            lemma_zero_byte((y % 8) as u8);
        }
    }

    /// Draws one pixel given in signed display coordinates; pixels with a
    /// negative coordinate, or beyond the display, are dropped.
    pub fn draw_pixel(&mut self, x: i32, y: i32, on: bool)
        requires
            old(self).wf(),
        ensures
            final(self).wf(),
            final(self).frame_spec() == with_pixel(old(self).frame_spec(), x as int, y as int, on),
            final(self).bus_spec() == old(self).bus_spec(),
    {
        if x >= 0 && y >= 0 {
            self.set_pixel(x as usize, y as usize, on);
        }
    }

    /// Frames a command sequence: the command control byte, then the commands.
    pub fn commands(cmds: &[u8]) -> (packet: Vec<u8>)
        requires
            cmds@.len() <= MAX_COMMANDS,
        ensures
            packet@ == seq![CONTROL_COMMANDS] + cmds@,
            packet@.len() == cmds@.len() + 1,
            packet@[0] == 0x00,
            forall|i: int| 0 <= i < cmds@.len() ==> packet@[i + 1] == cmds@[i],
    {
        let mut packet: Vec<u8> = Vec::new();
        packet.push(CONTROL_COMMANDS);
        let mut i: usize = 0;
        while i < cmds.len()
            invariant
                i <= cmds@.len(),
                packet@ == seq![CONTROL_COMMANDS] + cmds@.subrange(0, i as int),
            decreases cmds@.len() - i,
        {
            packet.push(cmds[i]);
            i = i + 1;
            assert(cmds@.subrange(0, i as int) =~= cmds@.subrange(0, i - 1) + seq![cmds@[i - 1]]);
        }
        assert(cmds@.subrange(0, i as int) =~= cmds@);
        packet
    }

    /// The packet that initialises the controller and turns the display on.
    pub fn init_packet() -> (packet: Vec<u8>)
        ensures
            packet@ == seq![CONTROL_COMMANDS] + init_sequence(),
            packet@.len() == 26,
            packet@[0] == 0x00,
            packet@[4] == 0xA8 && packet@[5] == HEIGHT - 1,
            packet@[11] == 0x20 && packet@[12] == 0x00,
            packet@[25] == 0xAF,
    {
        let init: [u8; 25] = [
            0xAE, 0xD5, 0x80, 0xA8, 0x3F, 0xD3, 0x00, 0x40, 0x8D, 0x14, 0x20, 0x00, 0xA1, 0xC8,
            0xDA, 0x12, 0x81, 0xCF, 0xD9, 0xF1, 0xDB, 0x40, 0xA4, 0xA6, 0xAF,
        ];
        assert(init@ =~= init_sequence());
        proof {
            lemma_init_sequence_configures_panel();
        }
        Self::commands(init.as_slice())
    }

    /// The packet sent before the buffer on a flush: it makes the whole
    /// screen the write window, so the buffer lands at column 0 of page 0.
    pub fn flush_packet() -> (packet: Vec<u8>)
        ensures
            packet@ == seq![CONTROL_COMMANDS] + window_sequence(),
            packet@ == seq![0x00u8, 0x21, 0x00, (WIDTH - 1) as u8, 0x22, 0x00, (HEIGHT / 8 - 1) as u8],
    {
        let window: [u8; 6] = [0x21, 0x00, 0x7F, 0x22, 0x00, 0x07];
        assert(window@ =~= window_sequence());
        Self::commands(window.as_slice())
    }
}

} // verus!
