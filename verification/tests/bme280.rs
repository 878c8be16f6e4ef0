use swarm_lib::sensors::bme280::{Bme280, Calibration};

fn sample_blocks() -> ([u8; 26], [u8; 7]) {
    // A calibration dump of a real sensor (0x88..0xA1 and 0xE1..0xE7).
    let block1: [u8; 26] = [
        0x70, 0x6B, 0x43, 0x67, 0x18, 0xFC, 0x7D, 0x8E, 0x43, 0xD6, 0xD0, 0x0B, 0x27, 0x0B, 0x8C,
        0x00, 0xF9, 0xFF, 0x8C, 0x3C, 0xF8, 0xC6, 0x70, 0x17, 0x00, 0x4B,
    ];
    let block2: [u8; 7] = [0x6A, 0x01, 0x00, 0x13, 0x2F, 0x03, 0x1E];
    (block1, block2)
}

#[test]
fn from_raw_decodes_words() {
    let (b1, b2) = sample_blocks();
    let cal = Calibration::from_raw(b1, b2);
    assert_eq!(cal.dig_t1, 0x6B70);
    assert_eq!(cal.dig_t2, 0x6743);
    assert_eq!(cal.dig_t3, -1000); // 0xFC18
    assert_eq!(cal.dig_p1, 0x8E7D);
    assert_eq!(cal.dig_p2, -10685); // 0xD643
    assert_eq!(cal.dig_p3, 0x0BD0);
    assert_eq!(cal.dig_p4, 0x0B27);
    assert_eq!(cal.dig_p5, 0x008C);
    assert_eq!(cal.dig_p6, -7); // 0xFFF9
    assert_eq!(cal.dig_p7, 0x3C8C);
    assert_eq!(cal.dig_p8, -14600); // 0xC6F8
    assert_eq!(cal.dig_p9, 0x1770);
    assert_eq!(cal.dig_h1, 0x4B);
    assert_eq!(cal.dig_h2, 0x016A);
    assert_eq!(cal.dig_h3, 0x00);
    assert_eq!(cal.dig_h6, 0x1E);
}

#[test]
fn from_raw_unpacks_humidity_nibbles() {
    let (b1, b2) = sample_blocks();
    let cal = Calibration::from_raw(b1, b2);
    // H4 = 0x13 << 4 | 0xF = 0x13F; H5 = 0x03 << 4 | 0x2 = 0x32.
    assert_eq!(cal.dig_h4, 0x13F);
    assert_eq!(cal.dig_h5, 0x32);
}

#[test]
fn from_raw_sign_extends_packed_values() {
    let b1 = [0u8; 26];
    // E4 = 0xFF, E5 = 0xA5, E6 = 0x80, E7 = 0x80
    let b2 = [0u8, 0, 0, 0xFF, 0xA5, 0x80, 0x80];
    let cal = Calibration::from_raw(b1, b2);
    // H4 = (i8)0xFF * 16 + 5 = -11; H5 = (i8)0x80 * 16 + 0xA = -2038
    assert_eq!(cal.dig_h4, -11);
    assert_eq!(cal.dig_h5, -2038);
    assert_eq!(cal.dig_h6, -128);
}

#[test]
fn from_raw_extremes() {
    let cal = Calibration::from_raw([0xFF; 26], [0xFF; 7]);
    assert_eq!(cal.dig_t1, 0xFFFF);
    assert_eq!(cal.dig_t2, -1);
    assert_eq!(cal.dig_h4, -1);
    assert_eq!(cal.dig_h5, -1);
    assert_eq!(cal.dig_h6, -1);
    let cal = Calibration::from_raw([0x00; 26], [0x7F, 0x7F, 0, 0x7F, 0xFF, 0x7F, 0x7F]);
    assert_eq!(cal.dig_h2, 0x7F7F);
    assert_eq!(cal.dig_h4, 0x7FF);
    assert_eq!(cal.dig_h5, 0x7FF);
    assert_eq!(cal.dig_h6, 0x7F);
}

#[test]
fn new_driver_has_zero_calibration() {
    let dev = Bme280::new(17u32);
    let cal = dev.calibration();
    assert_eq!(cal.dig_t1, 0);
    assert_eq!(cal.dig_p9, 0);
    assert_eq!(cal.dig_h4, 0);
    assert_eq!(cal.dig_h6, 0);
}

#[test]
fn load_calibration_keeps_bus() {
    let mut dev = Bme280::new(17u32);
    let (b1, b2) = sample_blocks();
    dev.load_calibration(b1, b2);
    assert_eq!(dev.calibration().dig_t1, 0x6B70);
    assert_eq!(*dev.bus(), 17);
    *dev.bus() = 3;
    assert_eq!(*dev.bus(), 3);
    assert_eq!(dev.calibration().dig_h4, 0x13F);
}
