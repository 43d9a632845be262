use epd_driver::{Action, BusyWait, Epd, EpdError, EpdInterface, Level, Line};

fn select_low() -> Action {
    Action::Drive(Line::Select, Level::Low)
}

fn select_high() -> Action {
    Action::Drive(Line::Select, Level::High)
}

fn dc_low() -> Action {
    Action::Drive(Line::DataCommand, Level::Low)
}

fn dc_high() -> Action {
    Action::Drive(Line::DataCommand, Level::High)
}

fn transaction(opcode: u8, payload: &[u8]) -> Vec<Action> {
    let mut steps = vec![select_low(), dc_low(), Action::Write(vec![opcode])];
    if !payload.is_empty() {
        steps.push(dc_high());
        steps.push(Action::Write(payload.to_vec()));
    }
    steps.push(select_high());
    steps
}

fn fresh_interface() -> EpdInterface {
    let mut interface = EpdInterface::new();
    interface.take_pending();
    interface
}

#[test]
fn envelope_with_payload_has_six_steps_in_order() {
    let mut interface = fresh_interface();
    interface.cmd(0x00, &[0xcf]);
    assert_eq!(
        interface.take_pending(),
        vec![
            Action::Drive(Line::Select, Level::Low),
            Action::Drive(Line::DataCommand, Level::Low),
            Action::Write(vec![0x00]),
            Action::Drive(Line::DataCommand, Level::High),
            Action::Write(vec![0xcf]),
            Action::Drive(Line::Select, Level::High),
        ]
    );
}

#[test]
fn envelope_without_payload_never_drives_dc_high() {
    let mut interface = fresh_interface();
    interface.cmd(0x04, &[]);
    let steps = interface.take_pending();
    assert_eq!(
        steps,
        vec![
            Action::Drive(Line::Select, Level::Low),
            Action::Drive(Line::DataCommand, Level::Low),
            Action::Write(vec![0x04]),
            Action::Drive(Line::Select, Level::High),
        ]
    );
    assert!(!steps.contains(&dc_high()));
}

#[test]
fn envelope_carries_a_long_payload_whole() {
    let payload: Vec<u8> = (0..=255u8).collect();
    let mut interface = fresh_interface();
    interface.cmd(0x10, &payload);
    let steps = interface.take_pending();
    assert_eq!(steps.len(), 6);
    assert_eq!(steps[4], Action::Write(payload));
}

#[test]
fn commands_queue_up_in_the_order_given() {
    let mut interface = fresh_interface();
    interface.cmd(0x50, &[0x37]);
    interface.cmd(0x30, &[0x29]);
    let mut expected = transaction(0x50, &[0x37]);
    expected.extend(transaction(0x30, &[0x29]));
    assert_eq!(interface.take_pending(), expected);
}

#[test]
fn reset_holds_the_line_low_for_100_ms() {
    let mut interface = fresh_interface();
    interface.reset();
    assert_eq!(
        interface.take_pending(),
        vec![
            Action::Drive(Line::Reset, Level::Low),
            Action::DelayMs(100),
            Action::Drive(Line::Reset, Level::High),
        ]
    );
}

#[test]
fn initialization_issues_its_transactions_in_order() {
    let mut interface = EpdInterface::new();
    let steps = interface.take_pending();

    let mut expected = vec![
        Action::Drive(Line::Reset, Level::Low),
        Action::DelayMs(100),
        Action::Drive(Line::Reset, Level::High),
    ];
    expected.extend(transaction(0x01, &[0x03, 0x00, 0x2b, 0x2b, 0x09]));
    expected.extend(transaction(0x06, &[0x17, 0x17, 0x17]));
    expected.extend(transaction(0x04, &[]));
    expected.push(Action::DelayMs(100));
    expected.extend(transaction(0x00, &[0xcf]));
    expected.extend(transaction(0x50, &[0x37]));
    expected.extend(transaction(0x30, &[0x29]));
    expected.extend(transaction(0x82, &[0x0a]));
    expected.push(Action::DelayMs(10));
    expected.extend(transaction(0x61, &[152, 0x00, 0x98]));
    assert_eq!(steps, expected);

    let transactions = steps.iter().filter(|step| **step == select_low()).count();
    assert_eq!(transactions, 8);
    assert_eq!(steps.len(), 3 + 6 + 6 + 4 + 1 + 6 + 6 + 6 + 6 + 1 + 6);
    let delays: Vec<u8> = steps
        .iter()
        .filter_map(|step| match step {
            Action::DelayMs(ms) => Some(*ms),
            _ => None,
        })
        .collect();
    assert_eq!(delays, vec![100, 100, 10]);
}

#[test]
fn initialization_opcodes_come_in_the_fixed_order() {
    let mut interface = EpdInterface::new();
    let steps = interface.take_pending();
    let mut opcodes = Vec::new();
    for (at, step) in steps.iter().enumerate() {
        if *step == dc_low() {
            match &steps[at + 1] {
                Action::Write(bytes) => {
                    assert_eq!(bytes.len(), 1);
                    opcodes.push(bytes[0]);
                }
                other => panic!("a command phase without its opcode: {:?}", other),
            }
        }
    }
    assert_eq!(opcodes, vec![0x01, 0x06, 0x04, 0x00, 0x50, 0x30, 0x82, 0x61]);
}

#[test]
fn the_driver_starts_with_the_same_power_up_as_the_interface() {
    let mut interface = EpdInterface::new();
    let mut epd = Epd::new();
    assert_eq!(epd.take_pending(), interface.take_pending());
}

#[test]
fn taking_the_queue_empties_it() {
    let mut interface = EpdInterface::new();
    assert!(!interface.take_pending().is_empty());
    assert!(interface.take_pending().is_empty());
    let mut epd = Epd::new();
    assert!(!epd.take_pending().is_empty());
    assert!(epd.take_pending().is_empty());
}

#[test]
fn refresh_sends_black_then_red_then_starts_and_waits() {
    let mut black = [0xffu8; 2888];
    let mut red = [0xffu8; 2888];
    black[0] = 0x7f;
    red[2887] = 0xfe;
    let mut interface = fresh_interface();
    interface.refresh(&black, &red);

    let mut expected = transaction(0x10, &black);
    expected.extend(transaction(0x13, &red));
    expected.extend(transaction(0x12, &[]));
    expected.push(Action::AwaitIdle);
    assert_eq!(interface.take_pending(), expected);
}

#[test]
fn refresh_of_the_driver_sends_its_own_planes() {
    let mut epd = Epd::new();
    epd.take_pending();
    epd.write_pixel(0, 0, epd_driver::EpdColor::Black).unwrap();
    epd.write_pixel(151, 151, epd_driver::EpdColor::Red).unwrap();
    epd.refresh();

    let mut black = [0xffu8; 2888];
    let mut red = [0xffu8; 2888];
    black[0] = 0x7f;
    red[2887] = 0xfe;
    let mut expected = transaction(0x10, &black);
    expected.extend(transaction(0x13, &red));
    expected.extend(transaction(0x12, &[]));
    expected.push(Action::AwaitIdle);
    assert_eq!(epd.take_pending(), expected);
    assert_eq!(epd.framebuffer_black(), &black);
    assert_eq!(epd.framebuffer_red(), &red);
}

#[test]
fn refreshing_twice_replays_the_same_steps() {
    let mut epd = Epd::new();
    epd.take_pending();
    epd.write_pixel(10, 20, epd_driver::EpdColor::Black).unwrap();
    epd.write_pixel(30, 40, epd_driver::EpdColor::Red).unwrap();

    epd.refresh();
    let first = epd.take_pending();
    epd.refresh();
    let second = epd.take_pending();
    assert_eq!(first, second);
    assert_eq!(first.len(), 6 + 6 + 4 + 1);
}

#[test]
fn refreshing_twice_without_taking_queues_both() {
    let mut epd = Epd::new();
    epd.take_pending();
    epd.refresh();
    epd.refresh();
    let steps = epd.take_pending();
    assert_eq!(steps.len(), 34);
    assert_eq!(steps[..17], steps[17..]);
}

#[test]
fn a_high_busy_line_asks_for_another_sample() {
    assert_eq!(EpdInterface::busy_sampled(Some(true)), Ok(BusyWait::Poll));
}

#[test]
fn a_low_busy_line_ends_the_wait() {
    assert_eq!(EpdInterface::busy_sampled(Some(false)), Ok(BusyWait::Done));
}

#[test]
fn a_failed_busy_sample_is_an_error() {
    assert_eq!(EpdInterface::busy_sampled(None), Err(EpdError::BusyReadFailure));
}
