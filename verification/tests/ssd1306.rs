use swarm_lib::sensors::ssd1306::Ssd1306;

fn lit(d: &Ssd1306<()>, x: usize, y: usize) -> bool {
    let f = d.frame();
    f[1 + (y / 8) * 128 + x] & (1 << (y % 8)) != 0
}

#[test]
fn new_buffer_is_blank_with_control_byte() {
    let d = Ssd1306::new(());
    let f = d.frame();
    assert_eq!(f.len(), 1025);
    assert_eq!(f[0], 0x40);
    assert!(f[1..].iter().all(|&b| b == 0));
}

#[test]
fn set_pixel_writes_expected_bit() {
    let mut d = Ssd1306::new(());
    d.set_pixel(5, 10, true);
    // page 1, column 5, bit 2
    assert_eq!(d.frame()[1 + 128 + 5], 0b0000_0100);
    d.set_pixel(5, 8, true);
    assert_eq!(d.frame()[1 + 128 + 5], 0b0000_0101);
    d.set_pixel(5, 10, false);
    assert_eq!(d.frame()[1 + 128 + 5], 0b0000_0001);
    d.set_pixel(127, 63, true);
    assert_eq!(d.frame()[1024], 0b1000_0000);
    assert_eq!(d.frame()[0], 0x40);
}

#[test]
fn set_pixel_off_screen_is_ignored() {
    let mut d = Ssd1306::new(());
    d.set_pixel(128, 0, true);
    d.set_pixel(0, 64, true);
    d.set_pixel(usize::MAX, usize::MAX, true);
    assert!(d.frame()[1..].iter().all(|&b| b == 0));
}

#[test]
fn set_pixel_touches_only_its_pixel() {
    let mut d = Ssd1306::new(());
    d.set_pixel(3, 3, true);
    d.set_pixel(3, 4, true);
    d.set_pixel(3, 3, false);
    assert!(!lit(&d, 3, 3));
    assert!(lit(&d, 3, 4));
    let on: usize = d.frame()[1..].iter().map(|b| b.count_ones() as usize).sum();
    assert_eq!(on, 1);
}

#[test]
fn set_pixel_is_idempotent() {
    let mut a = Ssd1306::new(());
    a.set_pixel(9, 17, true);
    let once = *a.frame();
    a.set_pixel(9, 17, true);
    assert_eq!(*a.frame(), once);
}

#[test]
fn clear_turns_everything_off() {
    let mut d = Ssd1306::new(());
    for x in 0..128 {
        d.set_pixel(x, x / 2, true);
    }
    d.clear();
    assert_eq!(d.frame()[0], 0x40);
    assert!(d.frame()[1..].iter().all(|&b| b == 0));
}

#[test]
fn draw_pixel_drops_negative_coordinates() {
    let mut d = Ssd1306::new(());
    d.draw_pixel(-1, 5, true);
    d.draw_pixel(5, -1, true);
    d.draw_pixel(200, 5, true);
    assert!(d.frame()[1..].iter().all(|&b| b == 0));
    d.draw_pixel(0, 0, true);
    assert!(lit(&d, 0, 0));
}

#[test]
fn command_packets() {
    assert_eq!(Ssd1306::<()>::commands(&[0xAE]), vec![0x00, 0xAE]);
    assert_eq!(Ssd1306::<()>::commands(&[]), vec![0x00]);
    let long = [0xA4u8; 31];
    assert_eq!(Ssd1306::<()>::commands(&long).len(), 32);
    assert_eq!(
        Ssd1306::<()>::flush_packet(),
        vec![0x00, 0x21, 0x00, 0x7F, 0x22, 0x00, 0x07]
    );
    let init = Ssd1306::<()>::init_packet();
    assert_eq!(init.len(), 26);
    assert_eq!(init[0], 0x00);
    assert_eq!(init[1], 0xAE);
    assert_eq!(init[25], 0xAF);
    assert_eq!(&init[9..11], &[0x8D, 0x14]);
}

#[test]
fn bus_is_kept() {
    let mut d = Ssd1306::new(7u8);
    d.set_pixel(1, 1, true);
    assert_eq!(*d.bus(), 7);
}

#[test]
fn last_write_wins_and_writes_commute() {
    let mut a = Ssd1306::new(());
    a.set_pixel(4, 12, true);
    a.set_pixel(4, 12, false);
    let mut b = Ssd1306::new(());
    b.set_pixel(4, 12, false);
    assert_eq!(*a.frame(), *b.frame());

    let mut c = Ssd1306::new(());
    c.set_pixel(4, 12, true);
    c.set_pixel(4, 13, false);
    c.set_pixel(4, 14, true);
    let mut d = Ssd1306::new(());
    d.set_pixel(4, 14, true);
    d.set_pixel(4, 13, false);
    d.set_pixel(4, 12, true);
    assert_eq!(*c.frame(), *d.frame());
}
