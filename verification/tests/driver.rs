use pcd8544::mock::RecordingBus;
use pcd8544::mock::RecordingDelay;
use pcd8544::mock::RecordingPin;
use pcd8544::Buffer;
use pcd8544::Error;
use pcd8544::Pcd8544;
use pcd8544::BUF_SIZE;

type Lcd = Pcd8544<RecordingBus, RecordingPin, RecordingPin>;

fn fresh_lcd() -> Lcd {
    let mut delay = RecordingDelay::new();
    Pcd8544::new(
        RecordingBus::new(),
        RecordingPin::new(),
        RecordingPin::new(),
        &mut delay,
    )
    .expect("fresh mocks never fail")
}

/// The ten byte runs a full initialization transmits, in order.
fn init_writes() -> Vec<Vec<u8>> {
    let mut expected = vec![
        vec![0x20], // function set: basic instruction set, horizontal
        vec![0x21], // function set with the extended-instruction flag
        vec![0x06], // temperature coefficient
        vec![0x14], // bias system
        vec![0xBF], // operating voltage 0x80 | 0x3F
        vec![0x20], // back to the basic instruction set
        vec![0x0C], // normal display mode
    ];
    expected.push(vec![0u8; BUF_SIZE]); // display RAM cleared
    expected.push(vec![0x80]); // cursor column 0
    expected.push(vec![0x40]); // cursor bank 0
    expected
}

#[test]
fn init_command_sequence() {
    let mut delay = RecordingDelay::new();
    let lcd = Pcd8544::new(
        RecordingBus::new(),
        RecordingPin::new(),
        RecordingPin::new(),
        &mut delay,
    )
    .expect("fresh mocks never fail");
    let (bus, dc, rst) = lcd.release();
    assert_eq!(*bus.writes(), init_writes());
    // one command/data-select low before each command run, high before data
    let expected_dc = vec![
        false, // driven low before the first transmission
        false, false, false, false, false, false, false, // seven commands
        true,  // the clear's data run
        false, false, // cursor column and bank commands
    ];
    assert_eq!(*dc.driven(), expected_dc);
    assert_eq!(*rst.driven(), vec![true, false, true]);
    assert_eq!(*delay.waits(), vec![100, 100, 100]);
}

#[test]
fn addressing_toggle_produces_exact_function_bytes() {
    let mut lcd = fresh_lcd();
    lcd.addressing_horizontal(true).unwrap();
    lcd.addressing_horizontal(false).unwrap();
    lcd.addressing_horizontal(true).unwrap();
    let (bus, _, _) = lcd.release();
    let writes = bus.writes();
    assert_eq!(writes.len(), 13);
    assert_eq!(writes[10..], [vec![0x20], vec![0x22], vec![0x20]]);
}

#[test]
fn contrast_command_sequence() {
    let mut lcd = fresh_lcd();
    lcd.contrast(0x3f, 0x14, 0x06).unwrap();
    let (bus, _, _) = lcd.release();
    let writes = bus.writes();
    assert_eq!(writes.len(), 15);
    assert_eq!(
        writes[10..],
        [vec![0x21], vec![0x06], vec![0x14], vec![0xBF], vec![0x20]]
    );
}

#[test]
fn contrast_restores_basic_set_in_vertical_mode() {
    let mut lcd = fresh_lcd();
    lcd.addressing_horizontal(false).unwrap();
    lcd.contrast(0x40, 0x13, 0x02).unwrap();
    let (bus, _, _) = lcd.release();
    let writes = bus.writes();
    // the pre-call addressing bit survives the extended-set excursion
    assert_eq!(writes[11..], [vec![0x23], vec![0x02], vec![0x13], vec![0xC0], vec![0x22]]);
}

#[test]
fn clear_transmits_one_zero_run_then_homes_cursor() {
    let mut lcd = fresh_lcd();
    lcd.clear().unwrap();
    let (bus, dc, _) = lcd.release();
    let writes = bus.writes();
    assert_eq!(writes.len(), 13);
    assert_eq!(writes[10], vec![0u8; BUF_SIZE]);
    assert_eq!(writes[11..], [vec![0x80], vec![0x40]]);
    assert_eq!(dc.driven()[11..], [true, false, false]);
}

#[test]
fn position_ors_into_command_bases() {
    let mut lcd = fresh_lcd();
    lcd.position(3, 4).unwrap();
    let (bus, _, _) = lcd.release();
    assert_eq!(bus.writes()[10..], [vec![0x83], vec![0x44]]);
}

#[test]
fn position_out_of_range_is_truncated_not_rejected() {
    // out-of-range values fold into the command's reserved bit width
    let mut lcd = fresh_lcd();
    lcd.position(84, 6).unwrap();
    let (bus, _, _) = lcd.release();
    assert_eq!(bus.writes()[10..], [vec![0x80 | 84u8], vec![0x40 | 6u8]]);
}

#[test]
fn data_is_framed_as_one_data_run() {
    let mut lcd = fresh_lcd();
    let mut frame = Buffer::new();
    frame.set_pixel(0, 0, true);
    lcd.data(frame.bytes()).unwrap();
    let (bus, dc, _) = lcd.release();
    let writes = bus.writes();
    assert_eq!(writes.len(), 11);
    assert_eq!(writes[10].len(), BUF_SIZE);
    assert_eq!(writes[10][BUF_SIZE - 1], 0x80);
    assert_eq!(*dc.driven().last().unwrap(), true);
}

#[test]
fn reset_pulses_the_reset_line() {
    let mut lcd = fresh_lcd();
    let mut delay = RecordingDelay::new();
    lcd.reset(&mut delay).unwrap();
    let (_, _, rst) = lcd.release();
    assert_eq!(*rst.driven(), vec![true, false, true, true, false, true]);
    assert_eq!(*delay.waits(), vec![100, 100, 100]);
}

#[test]
fn init_stops_at_a_failing_bus_write() {
    // ten bus writes succeed during construction; the thirteenth write
    // overall, the third command of the re-run initialization, fails
    let mut delay = RecordingDelay::new();
    let mut lcd = Pcd8544::new(
        RecordingBus::failing_at(12),
        RecordingPin::new(),
        RecordingPin::new(),
        &mut delay,
    )
    .expect("failure is beyond the construction writes");
    let r = lcd.init();
    assert!(matches!(r, Err(Error::Spi(()))));
    let (bus, _, _) = lcd.release();
    let writes = bus.writes();
    // only the prefix before the failing write went out, nothing after it
    assert_eq!(writes.len(), 12);
    assert_eq!(writes[10..], [vec![0x20], vec![0x21]]);
}

#[test]
fn init_stops_at_a_failing_select_pin() {
    // eleven select-line changes succeed during construction; the third
    // command of the re-run initialization cannot frame and fails
    let mut delay = RecordingDelay::new();
    let mut lcd = Pcd8544::new(
        RecordingBus::new(),
        RecordingPin::failing_at(13),
        RecordingPin::new(),
        &mut delay,
    )
    .expect("failure is beyond the construction writes");
    let r = lcd.init();
    assert!(matches!(r, Err(Error::Dc(()))));
    let (bus, dc, _) = lcd.release();
    assert_eq!(bus.writes().len(), 12);
    assert_eq!(bus.writes()[10..], [vec![0x20], vec![0x21]]);
    assert_eq!(dc.driven().len(), 13);
}

#[test]
fn reset_stops_at_a_failing_reset_pin() {
    // the three reset-line edges of construction succeed; the next pulse
    // fails on its first edge and leaves the recorded trace alone
    let mut delay = RecordingDelay::new();
    let mut lcd = Pcd8544::new(
        RecordingBus::new(),
        RecordingPin::new(),
        RecordingPin::failing_at(3),
        &mut delay,
    )
    .expect("failure is beyond the construction edges");
    let mut delay2 = RecordingDelay::new();
    let r = lcd.reset(&mut delay2);
    assert!(matches!(r, Err(Error::Rst(()))));
    let (_, _, rst) = lcd.release();
    assert_eq!(*rst.driven(), vec![true, false, true]);
    assert_eq!(*delay2.waits(), Vec::<u32>::new());
}

#[test]
fn construction_failures_carry_the_failing_capability() {
    let mut delay = RecordingDelay::new();
    let r = Pcd8544::new(
        RecordingBus::failing_at(0),
        RecordingPin::new(),
        RecordingPin::new(),
        &mut delay,
    );
    assert!(matches!(r, Err(Error::Spi(()))));

    let r = Pcd8544::new(
        RecordingBus::new(),
        RecordingPin::failing_at(0),
        RecordingPin::new(),
        &mut delay,
    );
    assert!(matches!(r, Err(Error::Dc(()))));

    let r = Pcd8544::new(
        RecordingBus::new(),
        RecordingPin::new(),
        RecordingPin::failing_at(0),
        &mut delay,
    );
    assert!(matches!(r, Err(Error::Rst(()))));
}
