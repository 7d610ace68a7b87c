//! The seesaw soil sensor: its registers, the bytes it answers with, the
//! address scan that finds it and the polling rule for capacitance readings.

use vstd::prelude::*;

verus! {

/// First I2C address probed when looking for the sensor.
pub const SENSOR_START_ADDR: u8 = 0x35;

/// Last I2C address probed when looking for the sensor.
pub const SENSOR_END_ADDR: u8 = 0x49;

/// Hardware ID that a seesaw chip reports from its status module.
pub const SEESAW_HW_ID_CODE: u8 = 0x55;

/// Base register of the status module.
pub const SEESAW_STATUS_BASE: u8 = 0x00;

/// Base register of the capacitive touch module.
pub const SEESAW_TOUCH_BASE: u8 = 0x0F;

/// Status register that holds the hardware ID.
pub const SEESAW_STATUS_HW_ID: u8 = 0x01;

/// Status register that holds the temperature.
pub const SEESAW_STATUS_TEMP: u8 = 0x04;

/// Touch register of the first capacitive channel.
pub const SEESAW_TOUCH_CHANNEL_OFFSET: u8 = 0x10;

/// Time the chip needs between a register write and the read of its value,
/// in microseconds.
pub const STD_PROCESSING_DELAY_MICROS: u32 = 250;

/// Processing time of a capacitance measurement, in microseconds.
pub const CAPACITANCE_DELAY_MICROS: u32 = 5000;

/// Pause before every capacitance attempt, in microseconds.
pub const CAPACITANCE_SETTLE_MICROS: u32 = 1000;

/// Number of failed capacitance reads after which polling gives up.
pub const CAPACITANCE_MAX_FAILURES: u8 = 3;

/// A capacitance value the chip reports while it is not ready yet.
pub const CAPACITANCE_NOT_READY: u16 = 0xFFFF;

/// Errors of the soil sensor.
#[derive(Debug, Clone, Copy, PartialEq, Eq, Structural)]
pub enum SoilSensErr {
    /// No valid moisture reading could be obtained.
    MoistureReadErr,
    /// No device answered on any probed address.
    HwNotFound,
    /// A device answered with another hardware ID: (expected, got).
    HardwareMismatch(u8, u8),
    /// An address that is not a valid I2C slave address.
    InvalidSlaveAddress(u16),
}

/// One register read: write `[base, offset]`, wait `delay_us`, then read
/// `len` bytes.
#[derive(Debug, Clone, Copy, PartialEq, Eq, Structural)]
pub struct RegisterRead {
    pub base: u8,
    pub offset: u8,
    pub len: usize,
    pub delay_us: u32,
}

impl RegisterRead {
    /// The two bytes written to select the register.
    pub fn command(&self) -> (c: [u8; 2])
        ensures
            c@ == seq![self.base, self.offset],
    {
        let c = [self.base, self.offset];
        assert(c@ =~= seq![self.base, self.offset]);
        c
    }
}

/// The read of the hardware ID: one byte from the status module.
pub fn hw_id_read() -> (t: RegisterRead)
    ensures
        t == (RegisterRead {
            base: SEESAW_STATUS_BASE,
            offset: SEESAW_STATUS_HW_ID,
            len: 1,
            delay_us: STD_PROCESSING_DELAY_MICROS,
        }),
{
    RegisterRead {
        base: SEESAW_STATUS_BASE,
        offset: SEESAW_STATUS_HW_ID,
        len: 1,
        delay_us: STD_PROCESSING_DELAY_MICROS,
    }
}

/// The read of the temperature: four bytes from the status module.
pub fn temperature_read() -> (t: RegisterRead)
    ensures
        t == (RegisterRead {
            base: SEESAW_STATUS_BASE,
            offset: SEESAW_STATUS_TEMP,
            len: 4,
            delay_us: STD_PROCESSING_DELAY_MICROS,
        }),
{
    RegisterRead {
        base: SEESAW_STATUS_BASE,
        offset: SEESAW_STATUS_TEMP,
        len: 4,
        delay_us: STD_PROCESSING_DELAY_MICROS,
    }
}

/// The read of the capacitance: two bytes from the first touch channel.
pub fn capacitance_read() -> (t: RegisterRead)
    ensures
        t == (RegisterRead {
            base: SEESAW_TOUCH_BASE,
            offset: SEESAW_TOUCH_CHANNEL_OFFSET,
            len: 2,
            delay_us: CAPACITANCE_DELAY_MICROS,
        }),
{
    RegisterRead {
        base: SEESAW_TOUCH_BASE,
        offset: SEESAW_TOUCH_CHANNEL_OFFSET,
        len: 2,
        delay_us: CAPACITANCE_DELAY_MICROS,
    }
}

/// The unsigned value of two bytes, most significant first.
pub open spec fn be_u16_value(b: Seq<u8>) -> int {
    b[0] * 256 + b[1]
}

/// The unsigned value of four bytes, most significant first.
pub open spec fn be_u32_value(b: Seq<u8>) -> int {
    ((b[0] * 256 + b[1]) * 256 + b[2]) * 256 + b[3]
}

/// The two's complement value of four bytes, most significant first.
pub open spec fn be_i32_value(b: Seq<u8>) -> int {
    let u = be_u32_value(b);
    if u >= 0x8000_0000 {
        u - 0x1_0000_0000
    } else {
        u
    }
}

/// Decodes a big-endian `u16`.
pub fn u16_from_be(b: [u8; 2]) -> (r: u16)
    ensures
        r == be_u16_value(b@),
        r / 256 == b@[0],
        r % 256 == b@[1],
{
    (b[0] as u16) * 256 + (b[1] as u16)
}

/// Decodes a big-endian two's complement `i32`.
pub fn i32_from_be(b: [u8; 4]) -> (r: i32)
    ensures
        r == be_i32_value(b@),
        (r < 0) == (b@[0] >= 0x80),
        (r + 0x1_0000_0000) % 0x1_0000_0000 == b@[0] * 0x100_0000 + b@[1] * 0x1_0000 + b@[2]
            * 0x100 + b@[3],
{
    let u: u32 = (((b[0] as u32) * 256 + (b[1] as u32)) * 256 + (b[2] as u32)) * 256 + (
    b[3] as u32);
    if u >= 0x8000_0000 {
        let low: u32 = u - 0x8000_0000;
        (low as i32) - 0x7FFF_FFFF - 1
    } else {
        u as i32
    }
}

/// The search for the sensor: the addresses from `SENSOR_START_ADDR` to
/// `SENSOR_END_ADDR` are probed for a hardware ID in ascending order.
pub struct SensorScan {
    addr: u8,
}

/// What follows one probe of the scan.
pub enum ScanStep {
    /// Nothing answered: probe the next address.
    Probe(SensorScan),
    /// The sensor answered with the right hardware ID at this address.
    Found(u8),
    /// The scan failed.
    Failed(SoilSensErr),
}

impl View for SensorScan {
    type V = u8;

    /// The address that is probed next.
    closed spec fn view(&self) -> u8 {
        self.addr
    }
}

/// What one probe at `addr`, answered with `response` (`None` for a failed
/// read), leads to.
pub open spec fn scan_step_spec(addr: u8, response: Option<u8>, step: ScanStep) -> bool {
    match step {
        ScanStep::Probe(next) => response is None && addr < SENSOR_END_ADDR && next@ == addr + 1,
        ScanStep::Found(found) => response == Some(SEESAW_HW_ID_CODE) && found == addr,
        ScanStep::Failed(e) => match response {
            Some(code) => code != SEESAW_HW_ID_CODE && e == SoilSensErr::HardwareMismatch(
                SEESAW_HW_ID_CODE,
                code,
            ),
            None => addr == SENSOR_END_ADDR && e == SoilSensErr::HwNotFound,
        },
    }
}

impl SensorScan {
    #[verifier::type_invariant]
    spec fn in_range(self) -> bool {
        SENSOR_START_ADDR <= self.addr <= SENSOR_END_ADDR
    }

    /// A scan that starts at the first address.
    pub fn new() -> (s: SensorScan)
        ensures
            s@ == SENSOR_START_ADDR,
    {
        SensorScan { addr: SENSOR_START_ADDR }
    }

    /// The address to probe.
    pub fn address(&self) -> (a: u8)
        ensures
            a == self@,
            SENSOR_START_ADDR <= a <= SENSOR_END_ADDR,
    {
        proof {
            use_type_invariant(self);
        }
        self.addr
    }

    /// Takes the answer of the probe at `self@`: a hardware ID, or `None`
    /// when the read failed.
    pub fn on_probe(self, response: Option<u8>) -> (step: ScanStep)
        ensures
            scan_step_spec(self@, response, step),
            SENSOR_START_ADDR <= self@ <= SENSOR_END_ADDR,
            response == Some(SEESAW_HW_ID_CODE) ==> (step matches ScanStep::Found(a) && a
                == self@),
            step matches ScanStep::Found(a) ==> a == self@ && response == Some(
                SEESAW_HW_ID_CODE,
            ),
    {
        proof {
            use_type_invariant(&self);
        }
        match response {
            Some(code) => {
                if code == SEESAW_HW_ID_CODE {
                    ScanStep::Found(self.addr)
                } else {
                    ScanStep::Failed(SoilSensErr::HardwareMismatch(SEESAW_HW_ID_CODE, code))
                }
            },
            None => {
                if self.addr < SENSOR_END_ADDR {
                    ScanStep::Probe(SensorScan { addr: self.addr + 1 })
                } else {
                    ScanStep::Failed(SoilSensErr::HwNotFound)
                }
            },
        }
    }
}

/// The verdict on a device that answered `code` at `addr`.
pub open spec fn answer_verdict(addr: u8, code: u8) -> Result<u8, SoilSensErr> {
    if code == SEESAW_HW_ID_CODE {
        Ok(addr)
    } else {
        Err(SoilSensErr::HardwareMismatch(SEESAW_HW_ID_CODE, code))
    }
}

/// The outcome of a scan from `addr` on, where a probe at address `a`
/// answers `probe(a)`: the first address that answers decides.
pub open spec fn scan_outcome_from(probe: spec_fn(u8) -> Option<u8>, addr: int) -> Result<
    u8,
    SoilSensErr,
>
    decreases SENSOR_END_ADDR + 1 - addr,
{
    if addr < SENSOR_START_ADDR || addr > SENSOR_END_ADDR {
        Err(SoilSensErr::HwNotFound)
    } else {
        match probe(addr as u8) {
            Some(code) => answer_verdict(addr as u8, code),
            None => scan_outcome_from(probe, addr + 1),
        }
    }
}

/// `a` is the first address of the scanned range that answers.
pub open spec fn first_to_answer(probe: spec_fn(u8) -> Option<u8>, a: u8) -> bool {
    &&& SENSOR_START_ADDR <= a <= SENSOR_END_ADDR
    &&& probe(a) is Some
    &&& forall|b: u8| SENSOR_START_ADDR <= b < a ==> #[trigger] probe(b) is None
}

/// Each step of the scan keeps its outcome: a further probe leads to the
/// same outcome as the current one, and a final step is that outcome.
pub proof fn lemma_scan_step_keeps_outcome(
    probe: spec_fn(u8) -> Option<u8>,
    addr: u8,
    step: ScanStep,
)
    requires
        SENSOR_START_ADDR <= addr <= SENSOR_END_ADDR,
        scan_step_spec(addr, probe(addr), step),
    ensures
        match step {
            ScanStep::Probe(next) => scan_outcome_from(probe, addr as int) == scan_outcome_from(
                probe,
                next@ as int,
            ),
            ScanStep::Found(a) => scan_outcome_from(probe, addr as int) == Ok::<u8, SoilSensErr>(a),
            ScanStep::Failed(e) => scan_outcome_from(probe, addr as int) == Err::<u8, SoilSensErr>(e),
        },
{
    if let ScanStep::Probe(next) = step {
        assert(scan_outcome_from(probe, addr as int) == scan_outcome_from(probe, addr + 1));
    }
}

/// A probe answered with the seesaw hardware ID finds the sensor at the
/// address that answered, and the scan's outcome is that address.
pub proof fn lemma_scan_found_where_answered(
    probe: spec_fn(u8) -> Option<u8>,
    addr: u8,
    step: ScanStep,
)
    requires
        SENSOR_START_ADDR <= addr <= SENSOR_END_ADDR,
        probe(addr) == Some(0x55u8),
        scan_step_spec(addr, probe(addr), step),
    ensures
        step matches ScanStep::Found(a) && a == addr,
        scan_outcome_from(probe, addr as int) == Ok::<u8, SoilSensErr>(addr),
{
}

/// A found address is always one that was probed and that answered with
/// the seesaw hardware ID.
pub proof fn lemma_scan_found_is_probed_address(addr: u8, response: Option<u8>, found: u8)
    requires
        SENSOR_START_ADDR <= addr <= SENSOR_END_ADDR,
        scan_step_spec(addr, response, ScanStep::Found(found)),
    ensures
        found == addr,
        SENSOR_START_ADDR <= found <= SENSOR_END_ADDR,
        response == Some(0x55u8),
{
}

proof fn lemma_scan_from_first_answer(probe: spec_fn(u8) -> Option<u8>, addr: int, a: u8)
    requires
        SENSOR_START_ADDR <= addr <= a,
        first_to_answer(probe, a),
    ensures
        scan_outcome_from(probe, addr) == answer_verdict(a, probe(a).unwrap()),
    decreases a - addr,
{
    if addr < a {
        assert(probe(addr as u8) is None);
        lemma_scan_from_first_answer(probe, addr + 1, a);
    }
}

proof fn lemma_scan_from_silence(probe: spec_fn(u8) -> Option<u8>, addr: int)
    requires
        SENSOR_START_ADDR <= addr,
        forall|b: u8| SENSOR_START_ADDR <= b <= SENSOR_END_ADDR ==> #[trigger] probe(b) is None,
    ensures
        scan_outcome_from(probe, addr) == Err::<u8, SoilSensErr>(SoilSensErr::HwNotFound),
    decreases SENSOR_END_ADDR + 1 - addr,
{
    if addr <= SENSOR_END_ADDR {
        assert(probe(addr as u8) is None);
        lemma_scan_from_silence(probe, addr + 1);
    }
}

/// The scan is decided by the first address that answers: the sensor is
/// found there when it reports the seesaw hardware ID, and the scan fails
/// with a hardware mismatch otherwise.
pub proof fn lemma_scan_first_answer_decides(probe: spec_fn(u8) -> Option<u8>, a: u8)
    requires
        first_to_answer(probe, a),
    ensures
        scan_outcome_from(probe, SENSOR_START_ADDR as int) == answer_verdict(a, probe(a).unwrap()),
{
    lemma_scan_from_first_answer(probe, SENSOR_START_ADDR as int, a);
}

/// The whole scan finds the sensor at `a` when `a` is the first address
/// that answers and it answers with the seesaw hardware ID, and fails with
/// a mismatch naming the code read when the first answer is another code.
pub proof fn lemma_scan_outcome_of_first_answer(probe: spec_fn(u8) -> Option<u8>, a: u8)
    requires
        first_to_answer(probe, a),
    ensures
        probe(a) == Some(0x55u8) ==> scan_outcome_from(probe, SENSOR_START_ADDR as int) == Ok::<
            u8,
            SoilSensErr,
        >(a),
        probe(a) matches Some(code) ==> (code != 0x55 ==> scan_outcome_from(
            probe,
            SENSOR_START_ADDR as int,
        ) == Err::<u8, SoilSensErr>(SoilSensErr::HardwareMismatch(0x55, code))),
{
    lemma_scan_from_first_answer(probe, SENSOR_START_ADDR as int, a);
}

/// When no address of the range answers, the scan fails with
/// `HwNotFound`.
pub proof fn lemma_scan_silence_not_found(probe: spec_fn(u8) -> Option<u8>)
    requires
        forall|b: u8| SENSOR_START_ADDR <= b <= SENSOR_END_ADDR ==> #[trigger] probe(b) is None,
    ensures
        scan_outcome_from(probe, SENSOR_START_ADDR as int) == Err::<u8, SoilSensErr>(
            SoilSensErr::HwNotFound,
        ),
{
    lemma_scan_from_silence(probe, SENSOR_START_ADDR as int);
}

/// The polling of a capacitance value: each attempt reads two bytes; a
/// failed read counts against a budget of `CAPACITANCE_MAX_FAILURES`, a
/// not-ready value is read again without counting.
pub struct CapacitancePoll {
    failures: u8,
}

/// What follows one capacitance attempt.
pub enum PollStep {
    /// Make another attempt.
    Retry(CapacitancePoll),
    /// A valid capacitance value.
    Ready(u16),
    /// The budget of failed reads is spent.
    Failed(SoilSensErr),
}

impl View for CapacitancePoll {
    type V = u8;

    /// The number of failed reads so far.
    closed spec fn view(&self) -> u8 {
        self.failures
    }
}

/// What one attempt after `failures` failed reads, with the result
/// `reading` (`None` for a failed read), leads to.
pub open spec fn poll_step_spec(failures: u8, reading: Option<[u8; 2]>, step: PollStep) -> bool {
    match step {
        PollStep::Retry(next) => match reading {
            None => failures + 1 < CAPACITANCE_MAX_FAILURES && next@ == failures + 1,
            Some(b) => be_u16_value(b@) == CAPACITANCE_NOT_READY && next@ == failures,
        },
        PollStep::Ready(v) => match reading {
            Some(b) => v == be_u16_value(b@) && v != CAPACITANCE_NOT_READY,
            None => false,
        },
        PollStep::Failed(e) => reading is None && failures + 1 == CAPACITANCE_MAX_FAILURES && e
            == SoilSensErr::MoistureReadErr,
    }
}

impl CapacitancePoll {
    #[verifier::type_invariant]
    spec fn within_budget(self) -> bool {
        self.failures < CAPACITANCE_MAX_FAILURES
    }

    /// A poll with no failed read yet.
    pub fn new() -> (p: CapacitancePoll)
        ensures
            p@ == 0,
    {
        CapacitancePoll { failures: 0 }
    }

    /// The number of failed reads so far.
    pub fn failures(&self) -> (n: u8)
        ensures
            n == self@,
            n < CAPACITANCE_MAX_FAILURES,
    {
        proof {
            use_type_invariant(self);
        }
        self.failures
    }

    /// Takes the result of one attempt: the two bytes read, or `None` when
    /// the read failed.
    pub fn on_read(self, reading: Option<[u8; 2]>) -> (step: PollStep)
        ensures
            poll_step_spec(self@, reading, step),
            reading matches Some(b) ==> (b@[0] * 256 + b@[1] != 0xFFFF ==> (
            step matches PollStep::Ready(v) && v == b@[0] * 256 + b@[1])),
            step matches PollStep::Ready(v) ==> reading matches Some(b) && v == b@[0] * 256
                + b@[1] && v != 0xFFFF,
    {
        proof {
            use_type_invariant(&self);
        }
        match reading {
            None => {
                if self.failures + 1 < CAPACITANCE_MAX_FAILURES {
                    PollStep::Retry(CapacitancePoll { failures: self.failures + 1 })
                } else {
                    PollStep::Failed(SoilSensErr::MoistureReadErr)
                }
            },
            Some(b) => {
                let cap = u16_from_be(b);
                if cap < CAPACITANCE_NOT_READY {
                    PollStep::Ready(cap)
                } else {
                    PollStep::Retry(CapacitancePoll { failures: self.failures })
                }
            },
        }
    }
}

/// A read that gave a valid capacitance value.
pub open spec fn reading_is_ready(r: Option<[u8; 2]>) -> bool {
    match r {
        Some(b) => be_u16_value(b@) != CAPACITANCE_NOT_READY,
        None => false,
    }
}

/// The number of failed reads in `rs` before its first valid value.
pub open spec fn failures_before_ready(rs: Seq<Option<[u8; 2]>>) -> nat
    decreases rs.len(),
{
    if rs.len() == 0 {
        0
    } else if rs[0] is None {
        1 + failures_before_ready(rs.drop_first())
    } else if reading_is_ready(rs[0]) {
        0
    } else {
        failures_before_ready(rs.drop_first())
    }
}

/// The outcome of polling after `failures` failed reads when the following
/// attempts give `rs`; `None` while polling goes on after them.
pub open spec fn poll_outcome(failures: nat, rs: Seq<Option<[u8; 2]>>) -> Option<
    Result<u16, SoilSensErr>,
>
    decreases rs.len(),
{
    if rs.len() == 0 {
        None
    } else {
        match rs[0] {
            None => if failures + 1 >= CAPACITANCE_MAX_FAILURES {
                Some(Err(SoilSensErr::MoistureReadErr))
            } else {
                poll_outcome(failures + 1, rs.drop_first())
            },
            Some(b) => if be_u16_value(b@) != CAPACITANCE_NOT_READY {
                Some(Ok(be_u16_value(b@) as u16))
            } else {
                poll_outcome(failures, rs.drop_first())
            },
        }
    }
}

/// Each attempt keeps the outcome of polling: a retry leads to the same
/// outcome as the current state, and a final step is that outcome.
pub proof fn lemma_poll_step_keeps_outcome(
    failures: u8,
    reading: Option<[u8; 2]>,
    rest: Seq<Option<[u8; 2]>>,
    step: PollStep,
)
    requires
        failures < CAPACITANCE_MAX_FAILURES,
        poll_step_spec(failures, reading, step),
    ensures
        ({
            let rs = seq![reading] + rest;
            match step {
                PollStep::Retry(next) => poll_outcome(failures as nat, rs) == poll_outcome(
                    next@ as nat,
                    rest,
                ),
                PollStep::Ready(v) => poll_outcome(failures as nat, rs) == Some(
                    Ok::<u16, SoilSensErr>(v),
                ),
                PollStep::Failed(e) => poll_outcome(failures as nat, rs) == Some(
                    Err::<u16, SoilSensErr>(e),
                ),
            }
        }),
{
    let rs = seq![reading] + rest;
    assert(rs[0] == reading);
    assert(rs.drop_first() =~= rest);
}

/// A read whose two bytes, most significant first, are not 0xFFFF ends the
/// poll with exactly that value, whatever the failures before it.
pub proof fn lemma_poll_returns_reading(
    failures: u8,
    b: [u8; 2],
    rest: Seq<Option<[u8; 2]>>,
    step: PollStep,
)
    requires
        failures < CAPACITANCE_MAX_FAILURES,
        b@[0] * 256 + b@[1] != 0xFFFF,
        poll_step_spec(failures, Some(b), step),
    ensures
        step matches PollStep::Ready(v) && v == b@[0] * 256 + b@[1],
        poll_outcome(failures as nat, seq![Some(b)] + rest) == Some(
            Ok::<u16, SoilSensErr>((b@[0] * 256 + b@[1]) as u16),
        ),
{
    let rs = seq![Some(b)] + rest;
    assert(rs[0] == Some(b));
}

proof fn lemma_poll_gives_up_from(failures: nat, rs: Seq<Option<[u8; 2]>>)
    requires
        failures < CAPACITANCE_MAX_FAILURES,
    ensures
        (poll_outcome(failures, rs) == Some(Err::<u16, SoilSensErr>(SoilSensErr::MoistureReadErr)))
            <==> failures + failures_before_ready(rs) >= CAPACITANCE_MAX_FAILURES,
        poll_outcome(failures, rs) matches Some(Ok(v)) ==> v != CAPACITANCE_NOT_READY,
    decreases rs.len(),
{
    if rs.len() > 0 {
        match rs[0] {
            None => {
                if failures + 1 < CAPACITANCE_MAX_FAILURES {
                    lemma_poll_gives_up_from(failures + 1, rs.drop_first());
                }
            },
            Some(b) => {
                if be_u16_value(b@) == CAPACITANCE_NOT_READY {
                    lemma_poll_gives_up_from(failures, rs.drop_first());
                }
            },
        }
    }
}

/// Polling from a fresh state gives up exactly when three reads fail
/// before any valid value arrives; not-ready values do not count, and a
/// value it returns is never the not-ready marker.
pub proof fn lemma_poll_gives_up_after_three_failures(rs: Seq<Option<[u8; 2]>>)
    ensures
        (poll_outcome(0, rs) == Some(Err::<u16, SoilSensErr>(SoilSensErr::MoistureReadErr)))
            <==> failures_before_ready(rs) >= 3,
        poll_outcome(0, rs) matches Some(Ok(v)) ==> v != 0xFFFF,
{
    lemma_poll_gives_up_from(0, rs);
}

} // verus!
