//! Bosch BME280 environmental sensor: register map and calibration decoding.
//!
//! The sensor is driven over I2C in forced mode: the calibration blocks are
//! read once at start-up, humidity oversampling and the filter are
//! configured, and each measurement is triggered by a write to `ctrl_meas`.

use vstd::prelude::*;

verus! {

/// I2C address of the sensor (SDO pulled low).
pub const ADDR: u8 = 0x76;
/// First calibration block: `dig_T1` .. `dig_H1`, 26 bytes from 0x88.
pub const REG_BLOCK1: u8 = 0x88;
/// Length of the first calibration block.
pub const BLOCK1_LEN: usize = 26;
/// Second calibration block: `dig_H2` .. `dig_H6`, 7 bytes from 0xE1.
pub const REG_BLOCK2: u8 = 0xE1;
/// Length of the second calibration block.
pub const BLOCK2_LEN: usize = 7;
/// Humidity control register.
pub const REG_CTRL_HUM: u8 = 0xF2;
/// `ctrl_hum` value: humidity oversampling x1.
pub const CTRL_HUM_OVERSAMPLING_X1: u8 = 0x01;
/// Configuration register (standby, filter, SPI mode).
pub const REG_CONFIG: u8 = 0xF5;
/// `config` value: IIR filter off.
pub const CONFIG_FILTER_OFF: u8 = 0x00;
/// Measurement control register; writing it in forced mode starts a measurement.
pub const REG_CTRL_MEAS: u8 = 0xF4;
/// `ctrl_meas` value `001_001_01`: temperature x1, pressure x1, forced mode.
pub const CTRL_MEAS_FORCED: u8 = 0x25;
/// First of the eight measurement registers (`press_msb` .. `hum_lsb`).
pub const REG_PRESS_MSB: u8 = 0xF7;
/// Number of measurement registers read after each trigger.
pub const MEASUREMENT_LEN: usize = 8;
/// Time to wait, in milliseconds, between the trigger and the read-out.
pub const MEASUREMENT_DELAY_MS: u64 = 10;

/// 16-bit little-endian value of two bytes.
pub open spec fn le_u16(lo: u8, hi: u8) -> int {
    lo + 256 * hi
}

/// A 16-bit pattern read as a two's-complement integer.
pub open spec fn as_i16(v: int) -> int {
    if v >= 0x8000 {
        v - 0x1_0000
    } else {
        v
    }
}

/// A byte read as a two's-complement integer.
pub open spec fn as_i8(v: int) -> int {
    if v >= 0x80 {
        v - 0x100
    } else {
        v
    }
}

/// A 12-bit pattern read as a two's-complement integer.
pub open spec fn sign_extend_12(v: int) -> int {
    if v >= 0x800 {
        v - 0x1000
    } else {
        v
    }
}

/// The trimming parameters stored in the sensor's non-volatile memory.
pub struct Calibration {
    pub dig_t1: u16,
    pub dig_t2: i16,
    pub dig_t3: i16,
    pub dig_p1: u16,
    pub dig_p2: i16,
    pub dig_p3: i16,
    pub dig_p4: i16,
    pub dig_p5: i16,
    pub dig_p6: i16,
    pub dig_p7: i16,
    pub dig_p8: i16,
    pub dig_p9: i16,
    pub dig_h1: u8,
    pub dig_h2: i16,
    pub dig_h3: u8,
    /// 12-bit signed, packed across 0xE4 and the low nibble of 0xE5.
    pub dig_h4: i16,
    /// 12-bit signed, packed across the high nibble of 0xE5 and 0xE6.
    pub dig_h5: i16,
    pub dig_h6: i8,
}

/// Unsigned little-endian word of `block` at byte offset `i`.
pub open spec fn word_u(block: Seq<u8>, i: int) -> int {
    le_u16(block[i], block[i + 1])
}

/// Signed little-endian word of `block` at byte offset `i`.
pub open spec fn word_s(block: Seq<u8>, i: int) -> int {
    as_i16(word_u(block, i))
}

/// `cal` holds exactly the parameters that the register dumps `block1`
/// (0x88..0xA1) and `block2` (0xE1..0xE7) encode.
pub open spec fn decodes(cal: Calibration, block1: Seq<u8>, block2: Seq<u8>) -> bool {
    &&& cal.dig_t1 == word_u(block1, 0)
    &&& cal.dig_t2 == word_s(block1, 2)
    &&& cal.dig_t3 == word_s(block1, 4)
    &&& cal.dig_p1 == word_u(block1, 6)
    &&& cal.dig_p2 == word_s(block1, 8)
    &&& cal.dig_p3 == word_s(block1, 10)
    &&& cal.dig_p4 == word_s(block1, 12)
    &&& cal.dig_p5 == word_s(block1, 14)
    &&& cal.dig_p6 == word_s(block1, 16)
    &&& cal.dig_p7 == word_s(block1, 18)
    &&& cal.dig_p8 == word_s(block1, 20)
    &&& cal.dig_p9 == word_s(block1, 22)
    &&& cal.dig_h1 == block1[25]
    &&& cal.dig_h2 == word_s(block2, 0)
    &&& cal.dig_h3 == block2[2]
    &&& cal.dig_h4 == sign_extend_12(block2[3] * 16 + block2[4] % 16)
    &&& cal.dig_h5 == sign_extend_12(block2[5] * 16 + block2[4] / 16)
    &&& cal.dig_h6 == as_i8(block2[6] as int)
}

/// Every parameter is zero: the state before the blocks have been read.
pub open spec fn is_zero(cal: Calibration) -> bool {
    &&& cal.dig_t1 == 0 && cal.dig_t2 == 0 && cal.dig_t3 == 0
    &&& cal.dig_p1 == 0 && cal.dig_p2 == 0 && cal.dig_p3 == 0
    &&& cal.dig_p4 == 0 && cal.dig_p5 == 0 && cal.dig_p6 == 0
    &&& cal.dig_p7 == 0 && cal.dig_p8 == 0 && cal.dig_p9 == 0
    &&& cal.dig_h1 == 0 && cal.dig_h2 == 0 && cal.dig_h3 == 0
    &&& cal.dig_h4 == 0 && cal.dig_h5 == 0 && cal.dig_h6 == 0
}

proof fn lemma_le_u16(lo: u8, hi: u8)
    by (bit_vector)
    ensures
        ((lo as u16) | ((hi as u16) << 8u16)) == lo + 256 * hi,
{
}

proof fn lemma_as_i16(v: u16)
    by (bit_vector)
    ensures
        (v as i16) == (if v >= 0x8000 { v - 0x1_0000 } else { v as int }),
{
}

proof fn lemma_as_i8(v: u8)
    by (bit_vector)
    ensures
        (v as i8) == (if v >= 0x80 { v - 0x100 } else { v as int }),
{
}

proof fn lemma_packed_low(e4: u8, e5: u8)
    by (bit_vector)
    ensures
        ((((((e4 as u16) << 4u16) | ((e5 as u16) & 0x0F)) << 4u16) as i16) >> 4u16) == (if e4
            >= 0x80 {
            e4 * 16 + e5 % 16 - 0x1000
        } else {
            e4 * 16 + e5 % 16
        }),
{
}

proof fn lemma_packed_high(e6: u8, e5: u8)
    by (bit_vector)
    ensures
        ((((((e6 as u16) << 4u16) | ((e5 as u16) >> 4u16)) << 4u16) as i16) >> 4u16) == (if e6
            >= 0x80 {
            e6 * 16 + e5 / 16 - 0x1000
        } else {
            e6 * 16 + e5 / 16
        }),
{
}

fn u16_from_le(lo: u8, hi: u8) -> (r: u16)
    ensures
        r == le_u16(lo, hi),
{
    proof {
        lemma_le_u16(lo, hi);
    }
    (lo as u16) | ((hi as u16) << 8u16)
}

fn i16_from_le(lo: u8, hi: u8) -> (r: i16)
    ensures
        r == as_i16(le_u16(lo, hi)),
{
    let u = u16_from_le(lo, hi);
    proof {
        lemma_as_i16(u);
    }
    u as i16
}

impl Calibration {
    /// Decodes the two calibration blocks as the datasheet lays them out.
    pub fn from_raw(block1: [u8; 26], block2: [u8; 7]) -> (cal: Self)
        ensures
            decodes(cal, block1@, block2@),
    {
        let e4 = block2[3] as u16;
        let e5 = block2[4] as u16;
        let e6 = block2[5] as u16;

        let h4_raw = (e4 << 4u16) | (e5 & 0x0F);
        let dig_h4 = ((h4_raw << 4u16) as i16) >> 4u16;

        let h5_raw = (e6 << 4u16) | (e5 >> 4u16);
        let dig_h5 = ((h5_raw << 4u16) as i16) >> 4u16;

        proof {
            lemma_packed_low(block2[3], block2[4]);
            lemma_packed_high(block2[5], block2[4]);
            lemma_as_i8(block2[6]);
        }

        Calibration {
            dig_t1: u16_from_le(block1[0], block1[1]),
            dig_t2: i16_from_le(block1[2], block1[3]),
            dig_t3: i16_from_le(block1[4], block1[5]),
            dig_p1: u16_from_le(block1[6], block1[7]),
            dig_p2: i16_from_le(block1[8], block1[9]),
            dig_p3: i16_from_le(block1[10], block1[11]),
            dig_p4: i16_from_le(block1[12], block1[13]),
            dig_p5: i16_from_le(block1[14], block1[15]),
            dig_p6: i16_from_le(block1[16], block1[17]),
            dig_p7: i16_from_le(block1[18], block1[19]),
            dig_p8: i16_from_le(block1[20], block1[21]),
            dig_p9: i16_from_le(block1[22], block1[23]),
            dig_h1: block1[25],
            dig_h2: i16_from_le(block2[0], block2[1]),
            dig_h3: block2[2],
            dig_h4,
            dig_h5,
            dig_h6: block2[6] as i8,
        }
    }
}

impl Default for Calibration {
    fn default() -> (cal: Self)
        ensures
            is_zero(cal),
    {
        Calibration {
            dig_t1: 0,
            dig_t2: 0,
            dig_t3: 0,
            dig_p1: 0,
            dig_p2: 0,
            dig_p3: 0,
            dig_p4: 0,
            dig_p5: 0,
            dig_p6: 0,
            dig_p7: 0,
            dig_p8: 0,
            dig_p9: 0,
            dig_h1: 0,
            dig_h2: 0,
            dig_h3: 0,
            dig_h4: 0,
            dig_h5: 0,
            dig_h6: 0,
        }
    }
}

/// The datasheet's definition of the packed humidity parameters: the
/// high byte is a signed `i8` scaled by 16 and the nibble of 0xE5 is added
/// unsigned. The 12-bit sign extension that `from_raw` performs computes the
/// same values for every register dump.
pub proof fn lemma_packed_humidity_matches_datasheet(block1: Seq<u8>, block2: Seq<u8>, cal: Calibration)
    requires
        block2.len() == BLOCK2_LEN,
        decodes(cal, block1, block2),
    ensures
        cal.dig_h4 == as_i8(block2[3] as int) * 16 + block2[4] % 16,
        cal.dig_h5 == as_i8(block2[5] as int) * 16 + block2[4] / 16,
{
}

/// The byte the sensor holds at register `addr`, given the two dumps:
/// `block1` starts at 0x88 and `block2` at 0xE1.
pub open spec fn register(block1: Seq<u8>, block2: Seq<u8>, addr: int) -> int {
    if 0xE1 <= addr {
        block2[addr - 0xE1] as int
    } else {
        block1[addr - 0x88] as int
    }
}

/// The datasheet's table of trimming parameters (BME280 datasheet,
/// "Compensation parameter storage"): every parameter of a decoded
/// calibration is read from the registers the table names, little-endian,
/// two's complement where it is signed; register 0xA0 is not used, and
/// `dig_H4` / `dig_H5` are 0xE4 / 0xE6 as signed bytes times 16 plus the
/// low / high nibble of 0xE5.
pub proof fn lemma_calibration_register_table(block1: Seq<u8>, block2: Seq<u8>, cal: Calibration)
    requires
        block1.len() == BLOCK1_LEN,
        block2.len() == BLOCK2_LEN,
        decodes(cal, block1, block2),
    ensures
        ({
            let r = |a: int| register(block1, block2, a);
            let s16 = |v: int|
                if v >= 32768 {
                    v - 65536
                } else {
                    v
                };
            let s8 = |v: int|
                if v >= 128 {
                    v - 256
                } else {
                    v
                };
            &&& cal.dig_t1 == r(0x88) + 256 * r(0x89)
            &&& cal.dig_t2 == s16(r(0x8A) + 256 * r(0x8B))
            &&& cal.dig_t3 == s16(r(0x8C) + 256 * r(0x8D))
            &&& cal.dig_p1 == r(0x8E) + 256 * r(0x8F)
            &&& cal.dig_p2 == s16(r(0x90) + 256 * r(0x91))
            &&& cal.dig_p3 == s16(r(0x92) + 256 * r(0x93))
            &&& cal.dig_p4 == s16(r(0x94) + 256 * r(0x95))
            &&& cal.dig_p5 == s16(r(0x96) + 256 * r(0x97))
            &&& cal.dig_p6 == s16(r(0x98) + 256 * r(0x99))
            &&& cal.dig_p7 == s16(r(0x9A) + 256 * r(0x9B))
            &&& cal.dig_p8 == s16(r(0x9C) + 256 * r(0x9D))
            &&& cal.dig_p9 == s16(r(0x9E) + 256 * r(0x9F))
            &&& cal.dig_h1 == r(0xA1)
            &&& cal.dig_h2 == s16(r(0xE1) + 256 * r(0xE2))
            &&& cal.dig_h3 == r(0xE3)
            &&& cal.dig_h4 == s8(r(0xE4)) * 16 + r(0xE5) % 16
            &&& cal.dig_h5 == s8(r(0xE6)) * 16 + r(0xE5) / 16
            &&& cal.dig_h6 == s8(r(0xE7))
        }),
        cal.dig_h3 == block2[2],
{
}

proof fn lemma_ctrl_bits()
    by (bit_vector)
    ensures
        0x25u8 >> 5u8 == 1,
        (0x25u8 >> 2u8) & 7 == 1,
        0x25u8 & 3 == 1,
        0x01u8 & 7 == 1,
        (0x00u8 >> 2u8) & 7 == 0,
{
}

/// The register map and settings the driver uses, as the datasheet lays
/// them out: the first calibration block runs from 0x88 to `dig_H1` at
/// 0xA1, the second from 0xE1 to `dig_H6` at 0xE7, and a measurement is
/// the eight registers `press_msb` (0xF7) to `hum_lsb` (0xFE).
/// `ctrl_meas` selects temperature and pressure oversampling x1 (bits 7:5
/// and 4:2 equal to 1) and forced mode (bits 1:0 equal to 01); `ctrl_hum`
/// selects humidity oversampling x1; `config` turns the IIR filter off
/// (bits 4:2 equal to 0).
pub proof fn lemma_register_map()
    ensures
        REG_BLOCK1 == 0x88 && REG_BLOCK1 + BLOCK1_LEN - 1 == 0xA1,
        REG_BLOCK2 == 0xE1 && REG_BLOCK2 + BLOCK2_LEN - 1 == 0xE7,
        REG_PRESS_MSB == 0xF7 && REG_PRESS_MSB + MEASUREMENT_LEN - 1 == 0xFE,
        REG_CTRL_HUM == 0xF2 && REG_CTRL_MEAS == 0xF4 && REG_CONFIG == 0xF5,
        CTRL_MEAS_FORCED >> 5u8 == 1,
        (CTRL_MEAS_FORCED >> 2u8) & 7 == 1,
        CTRL_MEAS_FORCED & 3 == 1,
        CTRL_HUM_OVERSAMPLING_X1 & 7 == 1,
        (CONFIG_FILTER_OFF >> 2u8) & 7 == 0,
        ADDR == 0x76,
{
    lemma_ctrl_bits();
}

/// The sensor driver: the bus it talks over and the calibration read from it.
pub struct Bme280<I2C> {
    i2c: I2C,
    cal: Calibration,
}

impl<I2C> Bme280<I2C> {
    /// The bus the driver was made with.
    pub closed spec fn bus_spec(&self) -> I2C {
        self.i2c
    }

    /// The calibration currently in use.
    pub closed spec fn calibration_spec(&self) -> Calibration {
        self.cal
    }

    /// A driver on `i2c` whose calibration is not loaded yet (all zero).
    pub fn new(i2c: I2C) -> (dev: Self)
        ensures
            dev.bus_spec() == i2c,
            is_zero(dev.calibration_spec()),
    {
        Self { i2c, cal: Calibration::default() }
    }

    /// The bus, for the transfers that read the blocks and configure the sensor.
    pub fn bus(&mut self) -> (bus: &mut I2C)
        ensures
            *bus == old(self).bus_spec(),
            final(self).calibration_spec() == old(self).calibration_spec(),
            final(self).bus_spec() == *final(bus),
    {
        &mut self.i2c
    }

    /// The calibration currently in use.
    pub fn calibration(&self) -> (cal: &Calibration)
        ensures
            *cal == self.calibration_spec(),
    {
        &self.cal
    }

    /// Replaces the calibration with the one that the two register dumps
    /// encode; the bus is left as it is.
    pub fn load_calibration(&mut self, block1: [u8; 26], block2: [u8; 7])
        ensures
            decodes(final(self).calibration_spec(), block1@, block2@),
            final(self).bus_spec() == old(self).bus_spec(),
    {
        self.cal = Calibration::from_raw(block1, block2);
    }
}

} // verus!
