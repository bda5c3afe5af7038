use vex_override::adi::LogicLevel;
use vex_override::display::{
    auton_grid, calculate_cols, calibrate_label, enumerate_array, press_calibrate, AutonsState, SelectedPage,
    TrackedState, MAX_AUTONS, MAX_COLS, MAX_ROWS,
};
use vex_override::leds::{led_words, LedPixel, LED_COUNT};
use vex_override::license_plate::{AdiLicensePlate, LicensePlate};
use vex_override::pio::ws2812b_clock_divider;
use vex_override::pneumatics::{AdiPneumatic, PneumaticState};
use vex_override::touch::{Phase, Tool, Touch, TouchEvent, TouchPoint, TouchState, TouchStateHandler};

#[test]
fn columns_match_square_root_formula() {
    for n in 0..2000usize {
        let expected = (n as f64 / 2.0).sqrt().ceil() as usize;
        assert_eq!(calculate_cols(n), expected, "autons = {}", n);
    }
    assert_eq!(calculate_cols(0), 0);
    assert_eq!(calculate_cols(2), 1);
    assert_eq!(calculate_cols(3), 2);
    assert_eq!(calculate_cols(18), 3);
    assert_eq!(calculate_cols(19), 4);
}

#[test]
fn columns_of_huge_counts() {
    assert_eq!(calculate_cols(usize::MAX), 3_037_000_500);
    assert_eq!(calculate_cols(1 << 40), 741_456);
}

#[test]
fn grid_shapes() {
    assert_eq!(auton_grid(1), (1, 1));
    assert_eq!(auton_grid(5), (2, 3));
    assert_eq!(auton_grid(9), (3, 3));
    assert_eq!(auton_grid(MAX_AUTONS), (MAX_COLS, MAX_ROWS));
    for n in 1..=MAX_AUTONS {
        let (c, r) = auton_grid(n);
        assert!(c <= MAX_COLS && r <= MAX_ROWS && c * r >= n);
    }
}

#[test]
fn enumerated_indices() {
    assert_eq!(enumerate_array::<4>(), [0, 1, 2, 3]);
    assert_eq!(enumerate_array::<0>(), [0usize; 0]);
}

#[test]
fn pages() {
    assert_eq!(SelectedPage::default(), SelectedPage::Autons);
    assert_eq!(SelectedPage::from_repr(0), Some(SelectedPage::Autons));
    assert_eq!(SelectedPage::from_repr(1), Some(SelectedPage::Odometry));
    assert_eq!(SelectedPage::from_repr(2), None);
    assert_eq!(SelectedPage::variants(), [SelectedPage::Autons, SelectedPage::Odometry]);
    assert_eq!(SelectedPage::COUNT, 2);
    assert_eq!(SelectedPage::Autons.name(), "Autons");
    assert_eq!(SelectedPage::Odometry.name(), "Odometry");
}

#[test]
fn route_selection() {
    let mut state: AutonsState<&str, 3> = AutonsState::default();
    assert!(state.routes.is_none());
    assert_eq!(state.selection, 0);
    state.routes = Some(["left", "right", "skills"]);
    state.select(2);
    assert_eq!(state.selection, 2);
    state.select(5);
    assert_eq!(state.selection, 2);
    assert_eq!(state.routes, Some(["left", "right", "skills"]));
}

#[test]
fn tracked_state_marks_changes() {
    let mut s = TrackedState::new(5u32);
    assert!(!s.has_changed());
    assert_eq!(*s.get(), 5);
    *s.get_mut() = 6;
    assert!(s.has_changed());
    assert_eq!(*s.get(), 6);
    s.clear_changed();
    assert!(!s.has_changed());
    s.update(7);
    assert_eq!(*s.get(), 7);
    assert!(!s.has_changed());
    let _ = s.get_mut();
    s.update(8);
    assert!(s.has_changed());
}

fn event(x: i16, y: i16, state: TouchState) -> TouchEvent {
    TouchEvent { point: TouchPoint { x, y }, state }
}

fn touch(x: i16, y: i16, phase: Phase) -> Touch {
    Touch { id: 0, location: TouchPoint { x, y }, phase, tool: Tool::Finger }
}

#[test]
fn touch_lifecycle() {
    let mut h = TouchStateHandler::new();
    assert_eq!(h.update(event(10, 20, TouchState::Held)), None);
    assert_eq!(h.update(event(10, 20, TouchState::Released)), None);
    assert_eq!(h.update(event(10, 20, TouchState::Pressed)), Some(touch(10, 20, Phase::Started)));
    assert_eq!(h.update(event(10, 20, TouchState::Held)), None);
    assert_eq!(h.update(event(11, 20, TouchState::Held)), Some(touch(11, 20, Phase::Moved)));
    assert_eq!(h.update(event(11, 20, TouchState::Held)), None);
    assert_eq!(h.update(event(12, 21, TouchState::Released)), Some(touch(12, 21, Phase::Ended)));
    assert_eq!(h.update(event(12, 21, TouchState::Released)), None);
}

#[test]
fn led_words_put_green_highest() {
    let p = LedPixel::new(0x12, 0x34, 0x56);
    assert_eq!(p.to_word(), 0x3412_5600);
    assert_eq!(LedPixel::from(0x00AA_BBCC).to_word(), 0xBBAA_CC00);
    assert_eq!(LedPixel::from(0xFF12_3456).to_word(), 0x3412_5600);
    let strip = [LedPixel::from(0xFF0000), LedPixel::from(0x00FF00), LedPixel::new(0, 0, 1)];
    assert_eq!(led_words(&strip), vec![0x00FF_0000, 0xFF00_0000, 0x0000_0100]);
    assert_eq!(led_words(&[LedPixel::new(0, 0, 0); LED_COUNT]), vec![0u32; LED_COUNT]);
}

#[test]
fn ws2812b_divider() {
    // 150 MHz system clock, 800 kHz data, 10 cycles per bit: 18.75
    assert_eq!(ws2812b_clock_divider(150_000_000, 800_000, 10), 4800);
    // 125 MHz system clock: 15.625
    assert_eq!(ws2812b_clock_divider(125_000_000, 800_000, 10), 4000);
    // 400 kHz data rate: 31.25
    assert_eq!(ws2812b_clock_divider(100_000_000, 400_000, 8), 8000);
    // rounding down: 150000 / 2100 = 71.428..
    assert_eq!(ws2812b_clock_divider(150_000_000, 700_000, 3), 150_000 * 256 / 2100);
}

#[test]
fn pneumatic_levels() {
    let mut p = AdiPneumatic::new(PneumaticState::Extended, PneumaticState::Contracted);
    assert_eq!(p.level(), LogicLevel::Low);
    assert_eq!(p.state(), PneumaticState::Contracted);
    assert_eq!(p.extend(), LogicLevel::High);
    assert_eq!(p.level(), LogicLevel::High);
    assert_eq!(p.contract(), LogicLevel::Low);
    assert_eq!(p.set_state(PneumaticState::Extended), LogicLevel::High);
    // the reported position stays the one the piston was created in
    assert_eq!(p.state(), PneumaticState::Contracted);

    let mut q = AdiPneumatic::new(PneumaticState::Contracted, PneumaticState::default());
    assert_eq!(q.level(), LogicLevel::High);
    assert_eq!(q.extend(), LogicLevel::Low);
    assert_eq!(!PneumaticState::Extended, PneumaticState::Contracted);
    assert_eq!(!PneumaticState::Contracted, PneumaticState::Extended);
}

#[test]
fn license_plate_colors() {
    let plate = AdiLicensePlate { high_state: LicensePlate::Red };
    assert_eq!(plate.state::<()>(Ok(LogicLevel::High)), Ok(LicensePlate::Red));
    assert_eq!(plate.state::<()>(Ok(LogicLevel::Low)), Ok(LicensePlate::Blue));
    assert_eq!(plate.state(Err("port error")), Err("port error"));
    let blue = AdiLicensePlate { high_state: LicensePlate::Blue };
    assert_eq!(blue.state::<u8>(Ok(LogicLevel::Low)), Ok(LicensePlate::Red));
    assert_eq!(!LicensePlate::Red, LicensePlate::Blue);
    assert_eq!(!!LicensePlate::Blue, LicensePlate::Blue);
}

#[test]
fn logic_levels() {
    assert!(LogicLevel::High.is_high());
    assert!(!LogicLevel::High.is_low());
    assert!(LogicLevel::Low.is_low());
}

#[test]
fn calibrate_button_runs_once() {
    let mut calibrating = false;
    assert_eq!(calibrate_label(calibrating), "Calibrate");
    assert!(press_calibrate(&mut calibrating));
    assert!(calibrating);
    assert_eq!(calibrate_label(calibrating), "Calibrating...");
    assert!(!press_calibrate(&mut calibrating));
    assert!(calibrating);
}
