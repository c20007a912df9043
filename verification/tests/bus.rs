use gamebuino_emulator::Gamebuino;

const PORTA: u32 = 0x4100_4400;
const PORTB: u32 = 0x4100_4480;
const DMAC: u32 = 0x4100_4800;
const SERCOM4: u32 = 0x4200_2000;
const SERCOM5: u32 = 0x4200_2400;

#[test]
fn new_emulator_is_erased() {
    let mut system = Gamebuino::new();
    assert_eq!(system.fetch_byte(0), 0xff);
    assert_eq!(system.fetch_word(0x3_fffc), 0xffff_ffff);
    assert_eq!(system.fetch_half_word(0x2000_0000), 0xffff);
    assert_eq!(system.fetch_word(0x2000_7ffc), 0xffff_ffff);
    for register in 0..16 {
        assert_eq!(system.get_register(register), 0);
    }
    assert_eq!(system.get_tick_count(), 0);
    assert_eq!(system.systick_trigger(), 20000);
    assert!(!system.dmac_pending());
    let flags = system.flags();
    assert!(!flags.n && !flags.z && !flags.v && !flags.c);
    assert!(system.screen_data().iter().all(|pixel| *pixel == 0));
}

#[test]
fn clock_status_always_reads_ready() {
    let mut system = Gamebuino::new();
    assert_eq!(system.fetch_word(0x4000_080c), 0xd2);
    system.write_word(0x4000_080c, 0);
    assert_eq!(system.fetch_word(0x4000_080c), 0xd2);
    // only as a word
    assert_eq!(system.fetch_byte(0x4000_080c), 0);
    assert_eq!(system.fetch_half_word(0x4000_080c), 0);
}

#[test]
fn adc_flag_always_reads_result_ready() {
    let mut system = Gamebuino::new();
    assert_eq!(system.fetch_byte(0x4200_4018), 1);
    system.write_byte(0x4200_4018, 0);
    assert_eq!(system.fetch_byte(0x4200_4018), 1);
    // only as a byte
    assert_eq!(system.fetch_word(0x4200_4018), 0);
}

#[test]
fn adc_result_reads_fresh_noise_on_each_read() {
    let mut system = Gamebuino::new();
    // the generator starts from seed 0
    assert_eq!(system.fetch_half_word(0x4200_401a), 0x3c6e);
    assert_eq!(system.fetch_half_word(0x4200_401a), 0x4750);
    assert_eq!(system.fetch_half_word(0x4200_401a), 0xd1cc);
    assert_eq!(system.fetch_half_word(0x4200_401a), 0xaaf9);
    // only a halfword read of the result register draws
    assert_eq!(system.fetch_half_word(0x4200_401c), 0);
    assert_eq!(system.fetch_byte(0x4200_401a), 0);
    assert_eq!(system.fetch_word(0x4200_401a), 0);
    assert_eq!(system.fetch_half_word(0x2000_0000), 0xffff);
    system.seed_adc(0);
    assert_eq!(system.fetch_half_word(0x4200_401a), 0x3c6e);
}

#[test]
fn adc_noise_follows_the_seed() {
    let mut first = Gamebuino::new();
    let mut second = Gamebuino::new();
    first.seed_adc(0x1234_5678);
    second.seed_adc(0x1234_5678);
    let expected = [0x7543u16, 0xcd30, 0x25db, 0x4b5c];
    for sample in expected {
        assert_eq!(first.fetch_half_word(0x4200_401a), sample);
        assert_eq!(second.fetch_half_word(0x4200_401a), sample);
    }
    second.seed_adc(0x1234_5679);
    assert_ne!(first.fetch_half_word(0x4200_401a), second.fetch_half_word(0x4200_401a));
}

#[test]
fn sram_round_trips_words_halfwords_and_bytes() {
    let mut system = Gamebuino::new();
    system.write_word(0x2000_0100, 0x1234_5678);
    assert_eq!(system.fetch_word(0x2000_0100), 0x1234_5678);
    system.write_half_word(0x2000_0200, 0xabcd);
    assert_eq!(system.fetch_half_word(0x2000_0200), 0xabcd);
    system.write_byte(0x2000_0300, 0xef);
    assert_eq!(system.fetch_byte(0x2000_0300), 0xef);
    // unaligned as well
    system.write_word(0x2000_0401, 0xcafe_babe);
    assert_eq!(system.fetch_word(0x2000_0401), 0xcafe_babe);
}

#[test]
fn sram_is_little_endian() {
    let mut system = Gamebuino::new();
    system.write_word(0x2000_0100, 0x1234_5678);
    assert_eq!(system.fetch_byte(0x2000_0100), 0x78);
    assert_eq!(system.fetch_byte(0x2000_0101), 0x56);
    assert_eq!(system.fetch_byte(0x2000_0102), 0x34);
    assert_eq!(system.fetch_byte(0x2000_0103), 0x12);
    assert_eq!(system.fetch_half_word(0x2000_0100), 0x5678);
    assert_eq!(system.fetch_half_word(0x2000_0102), 0x1234);
    assert_eq!(system.fetch_word(0x2000_0102), 0xffff_1234);
}

#[test]
fn narrow_stores_take_the_low_bits() {
    let mut system = Gamebuino::new();
    system.write_byte(0x2000_0000, 0x1234_56ab);
    assert_eq!(system.fetch_word(0x2000_0000), 0xffff_ffab);
    system.write_half_word(0x2000_0010, 0x1234_56ab);
    assert_eq!(system.fetch_word(0x2000_0010), 0xffff_56ab);
}

#[test]
fn sram_repeats_through_its_window() {
    let mut system = Gamebuino::new();
    system.write_word(0x2000_0004, 0x0102_0304);
    assert_eq!(system.fetch_word(0x2000_8004), 0x0102_0304);
    assert_eq!(system.fetch_word(0x3fff_8004), 0x0102_0304);
    system.write_byte(0x2345_8000, 0x99);
    assert_eq!(system.fetch_byte(0x2000_0000), 0x99);
}

#[test]
fn sram_wraps_at_its_end() {
    let mut system = Gamebuino::new();
    system.write_word(0x2000_7ffe, 0xaabb_ccdd);
    assert_eq!(system.fetch_byte(0x2000_7ffe), 0xdd);
    assert_eq!(system.fetch_byte(0x2000_7fff), 0xcc);
    assert_eq!(system.fetch_byte(0x2000_0000), 0xbb);
    assert_eq!(system.fetch_byte(0x2000_0001), 0xaa);
    assert_eq!(system.fetch_word(0x2000_7ffe), 0xaabb_ccdd);
    assert_eq!(system.fetch_half_word(0x2000_7fff), 0xbbcc);
    // the last word of the window wraps in SRAM, not into the peripherals
    system.write_word(0x3fff_ffff, 0x0a0b_0c0d);
    assert_eq!(system.fetch_word(0x3fff_ffff), 0x0a0b_0c0d);
    assert_eq!(system.fetch_byte(0x2000_7fff), 0x0d);
    assert_eq!(system.fetch_byte(0x2000_0000), 0x0c);
}

#[test]
fn flash_is_read_only() {
    let mut system = Gamebuino::new();
    system.load_program(&[1, 2, 3, 4, 5, 6, 7, 8], 0);
    system.write_word(0, 0xdead_beef);
    system.write_half_word(4, 0xdead);
    system.write_byte(6, 0xde);
    assert_eq!(system.fetch_word(0), 0x0403_0201);
    assert_eq!(system.fetch_word(4), 0x0807_0605);
    system.write_word(0x1fff_fffc, 0xdead_beef);
    assert_eq!(system.fetch_word(0x1fff_fffc), 0);
}

#[test]
fn flash_reads_zero_above_its_end() {
    let mut system = Gamebuino::new();
    assert_eq!(system.fetch_byte(0x3_ffff), 0xff);
    assert_eq!(system.fetch_byte(0x4_0000), 0);
    assert_eq!(system.fetch_half_word(0x4_0000), 0);
    assert_eq!(system.fetch_word(0x4_0000), 0);
    assert_eq!(system.fetch_word(0x1000_0000), 0);
    // a read across the end sees flash, then zeros
    assert_eq!(system.fetch_word(0x3_fffe), 0x0000_ffff);
    assert_eq!(system.fetch_half_word(0x3_ffff), 0x00ff);
    assert_eq!(system.fetch_word(0x3_ffff), 0x0000_00ff);
}

#[test]
fn nothing_answers_above_the_peripherals() {
    let mut system = Gamebuino::new();
    system.write_word(0x6000_0000, 0x1234_5678);
    system.write_byte(0xe000_e010, 0x12);
    assert_eq!(system.fetch_word(0x6000_0000), 0);
    assert_eq!(system.fetch_half_word(0x8000_0000), 0);
    assert_eq!(system.fetch_byte(0xffff_ffff), 0);
    assert_eq!(system.fetch_word(0xe000_e010), 0);
}

#[test]
fn unmapped_peripheral_addresses_read_zero() {
    let mut system = Gamebuino::new();
    system.write_word(0x4000_0000, 0x1234_5678);
    system.write_word(0x4200_3418, 0x1234_5678);
    assert_eq!(system.fetch_word(0x4000_0000), 0);
    assert_eq!(system.fetch_word(0x4200_3418), 0);
    assert_eq!(system.fetch_byte(0x5fff_ffff), 0);
    // just outside the windows
    assert_eq!(system.fetch_word(PORTA + 0x24), 0);
    assert_eq!(system.fetch_word(DMAC + 0x4f), 0);
    assert_eq!(system.fetch_byte(SERCOM4 + 0x29), 0);
}

#[test]
fn ports_are_reached_through_the_bus() {
    let mut system = Gamebuino::new();
    system.write_word(PORTA + 0x10, 0x0000_00f0);
    system.write_word(PORTA + 0x18, 0x0000_000f);
    system.write_word(PORTB + 0x1c, 0x8000_0001);
    system.write_word(PORTB + 0x08, 0x0000_0100);
    assert_eq!(system.fetch_word(PORTA + 0x10), 0x0000_00ff);
    assert_eq!(system.fetch_word(PORTB + 0x10), 0x8000_0001);
    assert_eq!(system.fetch_word(PORTB + 0x00), 0x0000_0100);
    assert_eq!(system.fetch_word(PORTA + 0x00), 0);
    assert_eq!(system.fetch_word(PORTA + 0x20), 0);
    // ports take words only
    system.write_byte(PORTA + 0x10, 0);
    system.write_half_word(PORTA + 0x10, 0);
    assert_eq!(system.fetch_word(PORTA + 0x10), 0x0000_00ff);
    assert_eq!(system.fetch_byte(PORTA + 0x10), 0);
}

#[test]
fn dma_controller_is_reached_through_the_bus() {
    let mut system = Gamebuino::new();
    assert_eq!(system.fetch_byte(DMAC + 0x4e), 2);
    assert_eq!(system.fetch_word(DMAC + 0x4e), 2);
    assert_eq!(system.fetch_word(DMAC + 0x34), 0);
    // base address and channel decide where the descriptor is read
    system.write_word(DMAC + 0x34, 0x2000_0100);
    system.write_byte(DMAC + 0x3f, 1);
    system.write_half_word(0x2000_0112, 2);
    system.write_word(0x2000_0114, 0x2000_0022);
    system.write_word(0x2000_0118, 0x2000_0030);
    system.write_word(0x2000_011c, 0);
    system.write_byte(0x2000_0020, 0x61);
    system.write_byte(0x2000_0021, 0x62);
    system.write_byte(DMAC + 0x40, 2);
    assert_eq!(system.fetch_byte(0x2000_0030), 0x62);
    assert!(system.dmac_pending());
}

#[test]
fn serial_ports_are_reached_through_the_bus() {
    let mut system = Gamebuino::new();
    assert_eq!(system.fetch_byte(SERCOM4 + 0x18), 7);
    assert_eq!(system.fetch_word(SERCOM5 + 0x18), 7);
    assert_eq!(system.fetch_byte(SERCOM5 + 0x28), 0x80);
    // the button shifter is selected after reset and answers every byte sent
    system.write_byte(SERCOM4 + 0x28, 0x00);
    assert_eq!(system.fetch_byte(SERCOM4 + 0x28), 0xff);
    // nothing listens on the other port
    system.write_byte(SERCOM5 + 0x28, 0x00);
    assert_eq!(system.fetch_byte(SERCOM5 + 0x28), 0x80);
}

#[test]
fn buttons_answer_with_the_byte_of_the_last_run() {
    let mut system = Gamebuino::new();
    system.run(0, 0b1101_1011);
    system.write_word(SERCOM4 + 0x28, 0);
    assert_eq!(system.fetch_word(SERCOM4 + 0x28), 0b1101_1011);
    // deselect the shifter: the received byte goes back to idle
    system.write_word(PORTB + 0x18, 1 << 3);
    system.write_byte(SERCOM4 + 0x28, 0);
    assert_eq!(system.fetch_byte(SERCOM4 + 0x28), 0x80);
}

#[test]
fn spi_bytes_draw_on_the_screen() {
    let mut system = Gamebuino::new();
    let command = |system: &mut Gamebuino, value: u32| {
        system.write_word(PORTB + 0x14, 1 << 23);
        system.write_byte(SERCOM4 + 0x28, value);
    };
    let data = |system: &mut Gamebuino, value: u32| {
        system.write_word(PORTB + 0x18, 1 << 23);
        system.write_byte(SERCOM4 + 0x28, value);
    };
    command(&mut system, 0x2a);
    for _ in 0..4 {
        data(&mut system, 0);
    }
    command(&mut system, 0x2b);
    for _ in 0..4 {
        data(&mut system, 0);
    }
    command(&mut system, 0x2c);
    data(&mut system, 0xf8);
    data(&mut system, 0x00);
    assert_eq!(system.screen_data()[0], 0xff00_00f8);
    assert_eq!(system.screen_data()[1], 0);
}

#[test]
fn deselected_display_draws_nothing() {
    let mut system = Gamebuino::new();
    system.write_word(PORTB + 0x14, 1 << 23);
    system.write_byte(SERCOM4 + 0x28, 0x2c);
    system.write_word(PORTB + 0x18, 1 << 23);
    system.write_word(PORTA + 0x18, 1 << 22);
    system.write_byte(SERCOM4 + 0x28, 0xf8);
    system.write_byte(SERCOM4 + 0x28, 0x00);
    assert_eq!(system.screen_data()[0], 0);
    system.write_word(PORTA + 0x14, 1 << 22);
    system.write_byte(SERCOM4 + 0x28, 0xf8);
    system.write_byte(SERCOM4 + 0x28, 0x00);
    assert_eq!(system.screen_data()[0], 0xff00_00f8);
}

#[test]
fn dma_feeds_the_display() {
    let mut system = Gamebuino::new();
    // a window two pixels wide, then memory write, data mode
    system.write_word(PORTB + 0x14, 1 << 23);
    system.write_byte(SERCOM4 + 0x28, 0x2a);
    system.write_word(PORTB + 0x18, 1 << 23);
    for value in [0u32, 0, 0, 1] {
        system.write_byte(SERCOM4 + 0x28, value);
    }
    system.write_word(PORTB + 0x14, 1 << 23);
    system.write_byte(SERCOM4 + 0x28, 0x2c);
    system.write_word(PORTB + 0x18, 1 << 23);
    // source bytes AA BB CC DD below the source end address
    for (index, value) in [0xaau32, 0xbb, 0xcc, 0xdd].into_iter().enumerate() {
        system.write_byte(0x2000_0000 + index as u32, value);
    }
    system.write_half_word(0x2000_0100, 0);
    system.write_half_word(0x2000_0102, 4);
    system.write_word(0x2000_0104, 0x2000_0004);
    system.write_word(0x2000_0108, SERCOM4 + 0x28);
    system.write_word(0x2000_010c, 0);
    system.write_word(DMAC + 0x34, 0x2000_0100);
    system.write_byte(DMAC + 0x3f, 0);
    assert!(!system.dmac_pending());
    system.write_byte(DMAC + 0x40, 2);
    assert_eq!(system.screen_data()[0], 0xffd8_54a8);
    assert_eq!(system.screen_data()[1], 0xffe8_98c8);
    assert!(system.dmac_pending());
}

#[test]
fn dma_store_into_the_controller_is_dropped() {
    let mut system = Gamebuino::new();
    // a descriptor that copies the enable value onto the trigger register
    system.write_byte(0x2000_0000, 2);
    system.write_half_word(0x2000_0102, 1);
    system.write_word(0x2000_0104, 0x2000_0001);
    system.write_word(0x2000_0108, DMAC + 0x40);
    system.write_word(0x2000_010c, 0);
    system.write_word(DMAC + 0x34, 0x2000_0100);
    system.write_byte(DMAC + 0x40, 2);
    assert!(system.dmac_pending());
    // and one that would select another channel
    system.write_byte(0x2000_0000, 7);
    system.write_word(0x2000_0108, DMAC + 0x3f);
    system.write_byte(DMAC + 0x40, 2);
    system.dma_store_byte(DMAC + 0x3f, 7);
    // the table entry of channel 0 is still the one in use
    system.write_byte(0x2000_0000, 0x44);
    system.write_word(0x2000_0108, 0x2000_0200);
    system.write_byte(DMAC + 0x40, 2);
    assert_eq!(system.fetch_byte(0x2000_0200), 0x44);
}
