use herbfarm_sensor::soil::{
    capacitance_read, hw_id_read, i32_from_be, temperature_read, u16_from_be, CapacitancePoll,
    PollStep, ScanStep, SensorScan, SoilSensErr, CAPACITANCE_DELAY_MICROS, SEESAW_HW_ID_CODE,
    SENSOR_END_ADDR, SENSOR_START_ADDR, STD_PROCESSING_DELAY_MICROS,
};

/// Runs a scan against a bus on which `answer(addr)` is what a probe reads.
fn run_scan(answer: impl Fn(u8) -> Option<u8>) -> (Vec<u8>, Result<u8, SoilSensErr>) {
    let mut probed = Vec::new();
    let mut scan = SensorScan::new();
    loop {
        let addr = scan.address();
        probed.push(addr);
        match scan.on_probe(answer(addr)) {
            ScanStep::Probe(next) => scan = next,
            ScanStep::Found(a) => return (probed, Ok(a)),
            ScanStep::Failed(e) => return (probed, Err(e)),
        }
    }
}

#[test]
fn register_commands_select_the_right_registers() {
    let hw = hw_id_read();
    assert_eq!(hw.command(), [0x00, 0x01]);
    assert_eq!(hw.len, 1);
    assert_eq!(hw.delay_us, STD_PROCESSING_DELAY_MICROS);
    let temp = temperature_read();
    assert_eq!(temp.command(), [0x00, 0x04]);
    assert_eq!(temp.len, 4);
    assert_eq!(temp.delay_us, 250);
    let cap = capacitance_read();
    assert_eq!(cap.command(), [0x0F, 0x10]);
    assert_eq!(cap.len, 2);
    assert_eq!(cap.delay_us, CAPACITANCE_DELAY_MICROS);
    assert_eq!(cap.delay_us, 5000);
}

#[test]
fn big_endian_decoding_matches_std() {
    for b in [[0u8, 0], [0x01, 0x02], [0xFF, 0xFE], [0xFF, 0xFF], [0x80, 0x00]] {
        assert_eq!(u16_from_be(b), u16::from_be_bytes(b));
    }
    assert_eq!(u16_from_be([0x12, 0x34]), 0x1234);
    for b in [
        [0u8, 0, 0, 0],
        [0x00, 0x19, 0x80, 0x00],
        [0x7F, 0xFF, 0xFF, 0xFF],
        [0x80, 0x00, 0x00, 0x00],
        [0xFF, 0xFF, 0xFF, 0xFF],
        [0xFF, 0xFF, 0x00, 0x01],
        [0x12, 0x34, 0x56, 0x78],
    ] {
        assert_eq!(i32_from_be(b), i32::from_be_bytes(b));
    }
    assert_eq!(i32_from_be([0xFF, 0xFF, 0xFF, 0xFE]), -2);
}

#[test]
fn scan_finds_sensor_at_first_address() {
    let (probed, outcome) = run_scan(|_| Some(SEESAW_HW_ID_CODE));
    assert_eq!(probed, vec![SENSOR_START_ADDR]);
    assert_eq!(outcome, Ok(0x35));
}

#[test]
fn scan_skips_silent_addresses() {
    let (probed, outcome) = run_scan(|a| if a == 0x40 { Some(0x55) } else { None });
    assert_eq!(probed, (0x35..=0x40).collect::<Vec<u8>>());
    assert_eq!(outcome, Ok(0x40));
}

#[test]
fn scan_stops_at_first_answer_even_if_wrong() {
    let (probed, outcome) = run_scan(|a| {
        if a == 0x38 {
            Some(0x87)
        } else if a == 0x39 {
            Some(0x55)
        } else {
            None
        }
    });
    assert_eq!(probed, vec![0x35, 0x36, 0x37, 0x38]);
    assert_eq!(outcome, Err(SoilSensErr::HardwareMismatch(0x55, 0x87)));
}

#[test]
fn scan_of_silent_bus_fails_after_every_address() {
    let (probed, outcome) = run_scan(|_| None);
    assert_eq!(probed.len(), 21);
    assert_eq!(probed[0], SENSOR_START_ADDR);
    assert_eq!(*probed.last().unwrap(), SENSOR_END_ADDR);
    assert_eq!(outcome, Err(SoilSensErr::HwNotFound));
}

#[test]
fn scan_finds_sensor_at_last_address() {
    let (probed, outcome) = run_scan(|a| if a == 0x49 { Some(0x55) } else { None });
    assert_eq!(probed.len(), 21);
    assert_eq!(outcome, Ok(0x49));
}

/// Polls with the given attempt results; `None` when they run out first.
fn run_poll(reads: &[Option<[u8; 2]>]) -> (usize, Option<Result<u16, SoilSensErr>>) {
    let mut poll = CapacitancePoll::new();
    for (i, r) in reads.iter().enumerate() {
        match poll.on_read(*r) {
            PollStep::Retry(next) => poll = next,
            PollStep::Ready(v) => return (i + 1, Some(Ok(v))),
            PollStep::Failed(e) => return (i + 1, Some(Err(e))),
        }
    }
    (reads.len(), None)
}

#[test]
fn capacitance_first_reading() {
    assert_eq!(run_poll(&[Some([0x01, 0xF4])]), (1, Some(Ok(500))));
}

#[test]
fn capacitance_not_ready_is_read_again_without_counting() {
    let reads = [
        None,
        Some([0xFF, 0xFF]),
        None,
        Some([0xFF, 0xFF]),
        Some([0xFF, 0xFF]),
        Some([0x03, 0x20]),
    ];
    assert_eq!(run_poll(&reads), (6, Some(Ok(800))));
}

#[test]
fn capacitance_gives_up_after_three_failed_reads() {
    assert_eq!(
        run_poll(&[None, None, None, Some([0, 1])]),
        (3, Some(Err(SoilSensErr::MoistureReadErr)))
    );
    let reads = [None, Some([0xFF, 0xFF]), None, Some([0xFF, 0xFF]), None];
    assert_eq!(run_poll(&reads), (5, Some(Err(SoilSensErr::MoistureReadErr))));
}

#[test]
fn capacitance_poll_counts_failures() {
    let poll = CapacitancePoll::new();
    assert_eq!(poll.failures(), 0);
    let poll = match poll.on_read(None) {
        PollStep::Retry(p) => p,
        _ => panic!("expected a retry"),
    };
    assert_eq!(poll.failures(), 1);
    let poll = match poll.on_read(Some([0xFF, 0xFF])) {
        PollStep::Retry(p) => p,
        _ => panic!("expected a retry"),
    };
    assert_eq!(poll.failures(), 1);
    match poll.on_read(Some([0xFF, 0xFE])) {
        PollStep::Ready(v) => assert_eq!(v, 0xFFFE),
        _ => panic!("expected a value"),
    }
}
