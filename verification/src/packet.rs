//! Razer EC HID feature-report packets.
//!
//! Every command is a 90-byte report sent as a HID feature report with a
//! leading report number of `0x00`, i.e. a 91-byte buffer on the wire:
//!
//! ```text
//! [0]     report number (always 0x00)
//! [1]     status        (0x00 new command; responses: 0x02 ok, ...)
//! [2]     transaction id (0x1F for Blade laptops)
//! [3..5]  remaining packets (always 0)
//! [5]     protocol type (always 0)
//! [6]     data size     (number of meaningful arg bytes)
//! [7]     command class
//! [8]     command id    (get variants = set id | 0x80)
//! [9..89] args (80 bytes)
//! [89]    crc = XOR of bytes 3 through 88 (inclusive)
//! [90]    reserved (0)
//! ```
use vstd::prelude::*;
use crate::text::{decimal, hex_byte, push_decimal, push_hex_byte, push_str, string_of};

pub mod kbd_effect;
pub mod status;

verus! {

pub const RAZER_VID: u16 = 0x1532;

pub const REPORT_LEN: usize = 91;

pub const ARGS_LEN: usize = 80;

pub const TRANSACTION_ID: u8 = 0x1F;

/// XOR of `s[lo..hi]`.
pub open spec fn xor_range(s: Seq<u8>, lo: int, hi: int) -> u8
    decreases hi - lo,
{
    if hi <= lo {
        0
    } else {
        xor_range(s, lo, hi - 1) ^ s[hi - 1]
    }
}

/// The checksum of a wire buffer: XOR of bytes 3 through 88.
pub open spec fn spec_crc(buf: Seq<u8>) -> u8 {
    xor_range(buf, 3, 89)
}

/// The XOR over a range only depends on the bytes inside the range.
pub proof fn lemma_xor_range_depends_on_range(s1: Seq<u8>, s2: Seq<u8>, lo: int, hi: int)
    requires
        forall|i: int| lo <= i < hi ==> s1[i] == s2[i],
    ensures
        xor_range(s1, lo, hi) == xor_range(s2, lo, hi),
    decreases hi - lo,
{
    if hi > lo {
        lemma_xor_range_depends_on_range(s1, s2, lo, hi - 1);
    }
}

fn xor_bytes(buf: &[u8], lo: usize, hi: usize) -> (r: u8)
    requires
        lo <= hi <= buf@.len(),
    ensures
        r == xor_range(buf@, lo as int, hi as int),
{
    let mut acc: u8 = 0;
    let mut i: usize = lo;
    while i < hi
        invariant
            lo <= i <= hi <= buf@.len(),
            acc == xor_range(buf@, lo as int, i as int),
        decreases hi - i,
    {
        acc = acc ^ buf[i];
        i = i + 1;
    }
    acc
}

/// XOR checksum over bytes 3..=88 of the HID wire buffer. The Razer report
/// itself starts at wire byte 1 (after the HID report number), and the
/// reference protocol checks its bytes 2..=87: remaining packets through the
/// final argument. Status and transaction ID are deliberately not included.
pub fn crc(buf: &[u8; REPORT_LEN]) -> (r: u8)
    ensures
        r == spec_crc(buf@),
{
    xor_bytes(buf.as_slice(), 3, 89)
}


/// Why a feature report could not be accepted as a response.
#[derive(Clone, Debug, PartialEq, Eq)]
pub enum ReportError {
    Length { actual: usize },
    ReportId { actual: u8 },
    RemainingPackets { actual: u16 },
    ProtocolType { actual: u8 },
    DataSize { actual: u8 },
    Checksum { expected: u8, actual: u8 },
    TransactionId { expected: u8, actual: u8 },
    Command { expected_class: u8, expected_id: u8, actual_class: u8, actual_id: u8 },
    ResponseDataSize { expected: u8, actual: u8 },
}

/// What a report error says, as text.
pub open spec fn report_error_text(e: ReportError) -> Seq<char> {
    match e {
        ReportError::Length { actual } => "feature report length "@ + decimal(actual as nat)
            + ", expected "@ + decimal(REPORT_LEN as nat),
        ReportError::ReportId { actual } => "feature report id "@ + hex_byte(actual)
            + ", expected 0x00"@,
        ReportError::RemainingPackets { actual } => "multi-packet response is unsupported ("@
            + decimal(actual as nat) + " remaining)"@,
        ReportError::ProtocolType { actual } => "feature report protocol "@ + hex_byte(actual)
            + ", expected 0x00"@,
        ReportError::DataSize { actual } => "feature report data size "@ + decimal(actual as nat)
            + " exceeds "@ + decimal(ARGS_LEN as nat),
        ReportError::Checksum { expected, actual } => "feature report CRC "@ + hex_byte(actual)
            + ", expected "@ + hex_byte(expected),
        ReportError::TransactionId { expected, actual } => "response transaction id "@ + hex_byte(
            actual,
        ) + ", expected "@ + hex_byte(expected),
        ReportError::Command { expected_class, expected_id, actual_class, actual_id } =>
            "response command "@ + hex_byte(actual_class) + "/"@ + hex_byte(actual_id)
            + ", expected "@ + hex_byte(expected_class) + "/"@ + hex_byte(expected_id),
        ReportError::ResponseDataSize { expected, actual } => "response data size "@ + decimal(
            actual as nat,
        ) + ", expected "@ + decimal(expected as nat),
    }
}

impl ReportError {
    /// The error as text (what `Display` would print).
    pub fn message(&self) -> (r: String)
        ensures
            r@ == report_error_text(*self),
    {
        let mut v: Vec<char> = Vec::new();
        match *self {
            ReportError::Length { actual } => {
                push_str(&mut v, "feature report length ");
                push_decimal(&mut v, actual as u64);
                push_str(&mut v, ", expected ");
                push_decimal(&mut v, REPORT_LEN as u64);
            },
            ReportError::ReportId { actual } => {
                push_str(&mut v, "feature report id ");
                push_hex_byte(&mut v, actual);
                push_str(&mut v, ", expected 0x00");
            },
            ReportError::RemainingPackets { actual } => {
                push_str(&mut v, "multi-packet response is unsupported (");
                push_decimal(&mut v, actual as u64);
                push_str(&mut v, " remaining)");
            },
            ReportError::ProtocolType { actual } => {
                push_str(&mut v, "feature report protocol ");
                push_hex_byte(&mut v, actual);
                push_str(&mut v, ", expected 0x00");
            },
            ReportError::DataSize { actual } => {
                push_str(&mut v, "feature report data size ");
                push_decimal(&mut v, actual as u64);
                push_str(&mut v, " exceeds ");
                push_decimal(&mut v, ARGS_LEN as u64);
            },
            ReportError::Checksum { expected, actual } => {
                push_str(&mut v, "feature report CRC ");
                push_hex_byte(&mut v, actual);
                push_str(&mut v, ", expected ");
                push_hex_byte(&mut v, expected);
            },
            ReportError::TransactionId { expected, actual } => {
                push_str(&mut v, "response transaction id ");
                push_hex_byte(&mut v, actual);
                push_str(&mut v, ", expected ");
                push_hex_byte(&mut v, expected);
            },
            ReportError::Command { expected_class, expected_id, actual_class, actual_id } => {
                push_str(&mut v, "response command ");
                push_hex_byte(&mut v, actual_class);
                push_str(&mut v, "/");
                push_hex_byte(&mut v, actual_id);
                push_str(&mut v, ", expected ");
                push_hex_byte(&mut v, expected_class);
                push_str(&mut v, "/");
                push_hex_byte(&mut v, expected_id);
            },
            ReportError::ResponseDataSize { expected, actual } => {
                push_str(&mut v, "response data size ");
                push_decimal(&mut v, actual as u64);
                push_str(&mut v, ", expected ");
                push_decimal(&mut v, expected as u64);
            },
        }
        assert(v@ =~= report_error_text(*self));
        string_of(&v)
    }
}

/// Fan/power zones. Blades drive two fans; per-zone commands are sent to both.
#[derive(Clone, Copy, Debug, PartialEq, Eq)]
pub enum Zone {
    Fan1,
    Fan2,
}

impl Zone {
    /// The zone's byte in EC commands.
    pub open spec fn code(self) -> u8 {
        match self {
            Zone::Fan1 => 0x01,
            Zone::Fan2 => 0x02,
        }
    }

    /// The zone's byte in EC commands (`0x01` and `0x02`).
    pub fn to_u8(self) -> (r: u8)
        ensures
            r == self.code(),
    {
        match self {
            Zone::Fan1 => 0x01,
            Zone::Fan2 => 0x02,
        }
    }
}

/// Both fan zones, in the order commands are sent to them.
pub fn zones() -> (r: [Zone; 2])
    ensures
        r@ == seq![Zone::Fan1, Zone::Fan2],
{
    let r = [Zone::Fan1, Zone::Fan2];
    assert(r@ =~= seq![Zone::Fan1, Zone::Fan2]);
    r
}

#[derive(Clone, Copy, Debug, PartialEq, Eq)]
pub struct Report {
    pub status: u8,
    pub transaction_id: u8,
    pub data_size: u8,
    pub command_class: u8,
    pub command_id: u8,
    pub args: [u8; ARGS_LEN],
}

/// `args` padded with zeros to the 80-byte argument area.
pub open spec fn padded_args(args: Seq<u8>) -> Seq<u8> {
    args + Seq::new((ARGS_LEN - args.len()) as nat, |i: int| 0u8)
}

/// The first 89 wire bytes of a report: everything before the checksum.
pub open spec fn wire_body(r: Report) -> Seq<u8> {
    seq![0u8, r.status, r.transaction_id, 0u8, 0u8, 0u8, r.data_size, r.command_class, r.command_id]
        + r.args@
}

impl Report {
    /// The 91-byte wire buffer of this report.
    pub open spec fn wire(self) -> Seq<u8> {
        wire_body(self) + seq![spec_crc(wire_body(self)), 0u8]
    }

    /// A fresh command (status NEW, Blade transaction id) of the given
    /// class and id whose argument area starts with `args`.
    pub open spec fn is_command(self, class: u8, id: u8, args: Seq<u8>) -> bool {
        &&& self.status == status::NEW
        &&& self.transaction_id == TRANSACTION_ID
        &&& self.data_size == args.len()
        &&& self.command_class == class
        &&& self.command_id == id
        &&& self.args@ == padded_args(args)
    }

    pub fn new(command_class: u8, command_id: u8, args: &[u8]) -> (r: Report)
        requires
            args@.len() <= ARGS_LEN,
        ensures
            r.is_command(command_class, command_id, args@),
    {
        let mut a = [0u8; ARGS_LEN];
        let mut i: usize = 0;
        while i < args.len()
            invariant
                args@.len() <= ARGS_LEN,
                0 <= i <= args@.len(),
                a@.len() == ARGS_LEN,
                forall|j: int| 0 <= j < i ==> a@[j] == args@[j],
                forall|j: int| i <= j < ARGS_LEN ==> a@[j] == 0u8,
            decreases args@.len() - i,
        {
            a[i] = args[i];
            i = i + 1;
        }
        assert(a@ =~= padded_args(args@));
        Report {
            status: status::NEW,
            transaction_id: TRANSACTION_ID,
            data_size: args.len() as u8,
            command_class,
            command_id,
            args: a,
        }
    }

    /// Serialize to the 91-byte buffer passed to `send_feature_report`.
    pub fn to_feature_report(&self) -> (buf: [u8; REPORT_LEN])
        ensures
            buf@ == self.wire(),
    {
        let mut buf = [0u8; REPORT_LEN];
        buf[1] = self.status;
        buf[2] = self.transaction_id;
        buf[6] = self.data_size;
        buf[7] = self.command_class;
        buf[8] = self.command_id;
        let mut i: usize = 0;
        while i < ARGS_LEN
            invariant
                0 <= i <= ARGS_LEN,
                buf@.len() == REPORT_LEN,
                forall|j: int| 0 <= j < 9 ==> buf@[j] == wire_body(*self)[j],
                forall|j: int| 9 <= j < 9 + i ==> buf@[j] == wire_body(*self)[j],
                forall|j: int| 9 + i <= j < REPORT_LEN ==> buf@[j] == 0u8,
            decreases ARGS_LEN - i,
        {
            buf[9 + i] = self.args[i];
            i = i + 1;
        }
        proof {
            lemma_xor_range_depends_on_range(buf@, wire_body(*self), 3, 89);
        }
        buf[89] = crc(&buf);
        assert(buf@ =~= self.wire());
        buf
    }

    /// True when a response's class/id matches the request it answers.
    pub fn answers(&self, request: &Report) -> (r: bool)
        ensures
            r == (self.command_class == request.command_class && self.command_id
                == request.command_id),
    {
        self.command_class == request.command_class && self.command_id == request.command_id
    }
}


/// Why a wire buffer is not a well-framed report, checked in this order:
/// length, report number, remaining packets, protocol type, data size,
/// checksum. `None` when the buffer is well framed.
pub open spec fn wire_error(buf: Seq<u8>) -> Option<ReportError> {
    if buf.len() != REPORT_LEN {
        Some(ReportError::Length { actual: buf.len() as usize })
    } else if buf[0] != 0 {
        Some(ReportError::ReportId { actual: buf[0] })
    } else if buf[3] != 0 || buf[4] != 0 {
        Some(ReportError::RemainingPackets { actual: (buf[3] * 256 + buf[4]) as u16 })
    } else if buf[5] != 0 {
        Some(ReportError::ProtocolType { actual: buf[5] })
    } else if buf[6] > ARGS_LEN {
        Some(ReportError::DataSize { actual: buf[6] })
    } else if buf[89] != spec_crc(buf) {
        Some(ReportError::Checksum { expected: spec_crc(buf), actual: buf[89] })
    } else {
        None
    }
}

/// `rep` carries the header fields and the argument area of `buf`.
pub open spec fn read_from_wire(rep: Report, buf: Seq<u8>) -> bool {
    &&& rep.status == buf[1]
    &&& rep.transaction_id == buf[2]
    &&& rep.data_size == buf[6]
    &&& rep.command_class == buf[7]
    &&& rep.command_id == buf[8]
    &&& rep.args@ == buf.subrange(9, 89)
}

/// Why `buf` is not an answer to `request`: a framing error first, then a
/// transaction id, command or data size that differs from the request.
pub open spec fn response_error(request: Report, buf: Seq<u8>) -> Option<ReportError> {
    if wire_error(buf) is Some {
        wire_error(buf)
    } else if buf[2] != request.transaction_id {
        Some(ReportError::TransactionId { expected: request.transaction_id, actual: buf[2] })
    } else if buf[7] != request.command_class || buf[8] != request.command_id {
        Some(
            ReportError::Command {
                expected_class: request.command_class,
                expected_id: request.command_id,
                actual_class: buf[7],
                actual_id: buf[8],
            },
        )
    } else if buf[6] != request.data_size {
        Some(ReportError::ResponseDataSize { expected: request.data_size, actual: buf[6] })
    } else {
        None
    }
}

impl Report {
    /// Parse and validate a complete buffer returned by `get_feature_report`.
    pub fn from_feature_report(buf: &[u8]) -> (r: Result<Report, ReportError>)
        ensures
            match r {
                Ok(rep) => wire_error(buf@) is None && read_from_wire(rep, buf@),
                Err(e) => wire_error(buf@) == Some(e),
            },
    {
        if buf.len() != REPORT_LEN {
            return Err(ReportError::Length { actual: buf.len() });
        }
        if buf[0] != 0 {
            return Err(ReportError::ReportId { actual: buf[0] });
        }
        if buf[3] != 0 || buf[4] != 0 {
            let remaining: u16 = (buf[3] as u16) * 256 + (buf[4] as u16);
            return Err(ReportError::RemainingPackets { actual: remaining });
        }
        if buf[5] != 0 {
            return Err(ReportError::ProtocolType { actual: buf[5] });
        }
        if buf[6] as usize > ARGS_LEN {
            return Err(ReportError::DataSize { actual: buf[6] });
        }
        let expected_crc = xor_bytes(buf, 3, 89);
        if buf[89] != expected_crc {
            return Err(ReportError::Checksum { expected: expected_crc, actual: buf[89] });
        }
        let mut args = [0u8; ARGS_LEN];
        let mut i: usize = 0;
        while i < ARGS_LEN
            invariant
                0 <= i <= ARGS_LEN,
                buf@.len() == REPORT_LEN,
                args@.len() == ARGS_LEN,
                forall|j: int| 0 <= j < i ==> args@[j] == buf@[9 + j],
            decreases ARGS_LEN - i,
        {
            args[i] = buf[9 + i];
            i = i + 1;
        }
        assert(args@ =~= buf@.subrange(9, 89));
        Ok(
            Report {
                status: buf[1],
                transaction_id: buf[2],
                data_size: buf[6],
                command_class: buf[7],
                command_id: buf[8],
                args,
            },
        )
    }

    /// Parse a feature report and prove that it answers `request` rather than
    /// accepting a stale or unrelated EC response.
    pub fn response_from_feature_report(request: &Report, buf: &[u8]) -> (r: Result<
        Report,
        ReportError,
    >)
        ensures
            match r {
                Ok(rep) => response_error(*request, buf@) is None && read_from_wire(rep, buf@),
                Err(e) => response_error(*request, buf@) == Some(e),
            },
    {
        let response = match Report::from_feature_report(buf) {
            Ok(rep) => rep,
            Err(e) => return Err(e),
        };
        if response.transaction_id != request.transaction_id {
            return Err(
                ReportError::TransactionId {
                    expected: request.transaction_id,
                    actual: response.transaction_id,
                },
            );
        }
        if !response.answers(request) {
            return Err(
                ReportError::Command {
                    expected_class: request.command_class,
                    expected_id: request.command_id,
                    actual_class: response.command_class,
                    actual_id: response.command_id,
                },
            );
        }
        if response.data_size != request.data_size {
            return Err(
                ReportError::ResponseDataSize {
                    expected: request.data_size,
                    actual: response.data_size,
                },
            );
        }
        Ok(response)
    }
}


/// Replacing one byte inside the range changes the XOR by exactly the old and
/// the new byte.
pub proof fn lemma_xor_range_update(s: Seq<u8>, i: int, v: u8, lo: int, hi: int)
    requires
        lo <= i < hi <= s.len(),
        0 <= lo,
    ensures
        xor_range(s.update(i, v), lo, hi) == (xor_range(s, lo, hi) ^ s[i]) ^ v,
    decreases hi - lo,
{
    let t = s.update(i, v);
    if hi - 1 == i {
        lemma_xor_range_depends_on_range(t, s, lo, i);
        let x = xor_range(s, lo, i);
        let b = s[i];
        assert(x ^ v == ((x ^ b) ^ b) ^ v) by (bit_vector);
    } else {
        lemma_xor_range_update(s, i, v, lo, hi - 1);
        let x = xor_range(s, lo, hi - 1);
        let b = s[i];
        let w = s[hi - 1];
        assert(((x ^ b) ^ v) ^ w == ((x ^ w) ^ b) ^ v) by (bit_vector);
    }
}

/// The checksum ignores the report number, the status, the transaction id,
/// the checksum byte itself and the reserved byte.
pub proof fn lemma_crc_ignores_unchecked_bytes(buf: Seq<u8>, i: int, v: u8)
    requires
        buf.len() == REPORT_LEN,
        0 <= i < 3 || 89 <= i < REPORT_LEN,
    ensures
        spec_crc(buf.update(i, v)) == spec_crc(buf),
{
    lemma_xor_range_depends_on_range(buf.update(i, v), buf, 3, 89);
}

/// Changing any single byte covered by the checksum (bytes 3 through 88)
/// changes the checksum.
pub proof fn lemma_crc_detects_single_byte_change(buf: Seq<u8>, i: int, v: u8)
    requires
        buf.len() == REPORT_LEN,
        3 <= i < 89,
        v != buf[i],
    ensures
        spec_crc(buf.update(i, v)) != spec_crc(buf),
{
    lemma_xor_range_update(buf, i, v, 3, 89);
    let c = spec_crc(buf);
    let b = buf[i];
    assert(b != v ==> (c ^ b) ^ v != c) by (bit_vector);
}

/// Serializing a report with at most 80 argument bytes and parsing the
/// buffer back gives the same report: the buffer is well framed and every
/// field is read back unchanged.
pub proof fn lemma_wire_roundtrip(r: Report)
    requires
        r.data_size <= ARGS_LEN,
    ensures
        wire_error(r.wire()) is None,
        read_from_wire(r, r.wire()),
{
    let w = r.wire();
    assert(w.len() == REPORT_LEN);
    lemma_xor_range_depends_on_range(w, wire_body(r), 3, 89);
    assert(w.subrange(9, 89) =~= r.args@);
}

/// A buffer that echoes a request under any status byte is accepted as the
/// answer to that request, and the status is read from the echo.
pub proof fn lemma_echo_answers_request(request: Report, status_byte: u8)
    requires
        request.data_size <= ARGS_LEN,
    ensures
        response_error(request, request.wire().update(1, status_byte)) is None,
        read_from_wire(
            Report { status: status_byte, ..request },
            request.wire().update(1, status_byte),
        ),
{
    let w = request.wire();
    lemma_wire_roundtrip(request);
    lemma_crc_ignores_unchecked_bytes(w, 1, status_byte);
    assert(w.update(1, status_byte).subrange(9, 89) =~= w.subrange(9, 89));
}

/// Every report built with [`Report::new`] is well framed on the wire.
pub proof fn lemma_commands_are_well_framed(r: Report, class: u8, id: u8, args: Seq<u8>)
    requires
        r.is_command(class, id, args),
        args.len() <= ARGS_LEN,
    ensures
        wire_error(r.wire()) is None,
        read_from_wire(r, r.wire()),
{
    lemma_wire_roundtrip(r);
}


// ---- EC commands (class 0x0d: performance / thermals) ----------------------

/// `0` or `1`.
pub open spec fn flag(b: bool) -> u8 {
    if b {
        1
    } else {
        0
    }
}

fn flag_byte(b: bool) -> (r: u8)
    ensures
        r == flag(b),
{
    if b {
        1
    } else {
        0
    }
}

/// mode: 0 balanced, 1 gaming, 4 custom. Values 2 and 3 are not exposed.
/// `manual_fan` selects manual fan RPM control instead of the EC fan curve.
pub fn set_power_mode(zone: Zone, mode: u8, manual_fan: bool) -> (r: Report)
    ensures
        r.is_command(0x0d, 0x02, seq![0x00u8, zone.code(), mode, flag(manual_fan)]),
{
    let a = [0x00u8, zone.to_u8(), mode, flag_byte(manual_fan)];
    assert(a@ =~= seq![0x00u8, zone.code(), mode, flag(manual_fan)]);
    Report::new(0x0d, 0x02, a.as_slice())
}

pub fn get_power_mode(zone: Zone) -> (r: Report)
    ensures
        r.is_command(0x0d, 0x82, seq![0x00u8, zone.code(), 0x00u8, 0x00u8]),
{
    let a = [0x00u8, zone.to_u8(), 0x00u8, 0x00u8];
    assert(a@ =~= seq![0x00u8, zone.code(), 0x00u8, 0x00u8]);
    Report::new(0x0d, 0x82, a.as_slice())
}

/// `rpm_div_100`: target RPM divided by 100 (e.g. 4400 RPM -> 44).
pub fn set_fan_rpm(zone: Zone, rpm_div_100: u8) -> (r: Report)
    ensures
        r.is_command(0x0d, 0x01, seq![0x00u8, zone.code(), rpm_div_100]),
{
    let a = [0x00u8, zone.to_u8(), rpm_div_100];
    assert(a@ =~= seq![0x00u8, zone.code(), rpm_div_100]);
    Report::new(0x0d, 0x01, a.as_slice())
}

pub fn get_fan_rpm(zone: Zone) -> (r: Report)
    ensures
        r.is_command(0x0d, 0x81, seq![0x00u8, zone.code(), 0x00u8]),
{
    let a = [0x00u8, zone.to_u8(), 0x00u8];
    assert(a@ =~= seq![0x00u8, zone.code(), 0x00u8]);
    Report::new(0x0d, 0x81, a.as_slice())
}

/// boost: 0 low, 1 medium, 2 high, 3 boost (CPU only, models with the
/// "boost" feature). Only meaningful in custom power mode (4).
pub fn set_cpu_boost(boost: u8) -> (r: Report)
    ensures
        r.is_command(0x0d, 0x07, seq![0x00u8, 0x01u8, boost]),
{
    let a = [0x00u8, 0x01u8, boost];
    assert(a@ =~= seq![0x00u8, 0x01u8, boost]);
    Report::new(0x0d, 0x07, a.as_slice())
}

pub fn get_cpu_boost() -> (r: Report)
    ensures
        r.is_command(0x0d, 0x87, seq![0x00u8, 0x01u8, 0x00u8]),
{
    let a = [0x00u8, 0x01u8, 0x00u8];
    assert(a@ =~= seq![0x00u8, 0x01u8, 0x00u8]);
    Report::new(0x0d, 0x87, a.as_slice())
}

pub fn set_gpu_boost(boost: u8) -> (r: Report)
    ensures
        r.is_command(0x0d, 0x07, seq![0x00u8, 0x02u8, boost]),
{
    let a = [0x00u8, 0x02u8, boost];
    assert(a@ =~= seq![0x00u8, 0x02u8, boost]);
    Report::new(0x0d, 0x07, a.as_slice())
}

pub fn get_gpu_boost() -> (r: Report)
    ensures
        r.is_command(0x0d, 0x87, seq![0x00u8, 0x02u8, 0x00u8]),
{
    let a = [0x00u8, 0x02u8, 0x00u8];
    assert(a@ =~= seq![0x00u8, 0x02u8, 0x00u8]);
    Report::new(0x0d, 0x87, a.as_slice())
}

// ---- EC commands (class 0x03: lighting) -------------------------------------

pub const VARSTORE: u8 = 0x01;

pub const LOGO_LED: u8 = 0x04;

pub const BACKLIGHT_LED: u8 = 0x05;

/// Keyboard backlight brightness, 0..=255.
pub fn set_brightness(value: u8) -> (r: Report)
    ensures
        r.is_command(0x03, 0x03, seq![VARSTORE, BACKLIGHT_LED, value]),
{
    let a = [VARSTORE, BACKLIGHT_LED, value];
    assert(a@ =~= seq![VARSTORE, BACKLIGHT_LED, value]);
    Report::new(0x03, 0x03, a.as_slice())
}

pub fn get_brightness() -> (r: Report)
    ensures
        r.is_command(0x03, 0x83, seq![VARSTORE, BACKLIGHT_LED, 0x00u8]),
{
    let a = [VARSTORE, BACKLIGHT_LED, 0x00u8];
    assert(a@ =~= seq![VARSTORE, BACKLIGHT_LED, 0x00u8]);
    Report::new(0x03, 0x83, a.as_slice())
}

/// Logo LED on/off. When turning on, send [`set_logo_effect`] first.
pub fn set_logo_state(on: bool) -> (r: Report)
    ensures
        r.is_command(0x03, 0x00, seq![VARSTORE, LOGO_LED, flag(on)]),
{
    let a = [VARSTORE, LOGO_LED, flag_byte(on)];
    assert(a@ =~= seq![VARSTORE, LOGO_LED, flag(on)]);
    Report::new(0x03, 0x00, a.as_slice())
}

/// Logo LED effect: 0x00 static, 0x02 breathing.
pub fn set_logo_effect(effect: u8) -> (r: Report)
    ensures
        r.is_command(0x03, 0x02, seq![VARSTORE, LOGO_LED, effect]),
{
    let a = [VARSTORE, LOGO_LED, effect];
    assert(a@ =~= seq![VARSTORE, LOGO_LED, effect]);
    Report::new(0x03, 0x02, a.as_slice())
}

/// Keyboard hardware effect. The reference implementation always declares
/// the full 80-byte args payload for this command, so mirror that.
pub fn set_kbd_effect(effect_id: u8, params: &[u8]) -> (r: Report)
    requires
        params@.len() < ARGS_LEN,
    ensures
        r.is_command(0x03, 0x0a, padded_args(seq![effect_id] + params@)),
{
    let mut args = [0u8; ARGS_LEN];
    args[0] = effect_id;
    let mut i: usize = 0;
    while i < params.len()
        invariant
            params@.len() < ARGS_LEN,
            0 <= i <= params@.len(),
            args@.len() == ARGS_LEN,
            args@[0] == effect_id,
            forall|j: int| 0 <= j < i ==> args@[1 + j] == params@[j],
            forall|j: int| 1 + i <= j < ARGS_LEN ==> args@[j] == 0u8,
        decreases params@.len() - i,
    {
        args[1 + i] = params[i];
        i = i + 1;
    }
    let ghost want = padded_args(seq![effect_id] + params@);
    assert(args@ =~= want);
    assert(padded_args(want) =~= want);
    Report::new(0x03, 0x0a, args.as_slice())
}

// ---- EC commands (class 0x07: battery) --------------------------------------

/// The Battery Health Optimizer argument byte: top bit = enabled, low 7 bits
/// = the threshold's low 7 bits.
pub open spec fn bho_byte(enabled: bool, threshold: u8) -> u8 {
    ((if enabled {
        128int
    } else {
        0int
    }) + threshold % 128) as u8
}

/// Battery Health Optimizer (Synapse's charge limiter). One arg byte: top
/// bit = enabled, low 7 bits = charge threshold percent (Synapse offers
/// 50..=80).
pub fn set_bho(enabled: bool, threshold: u8) -> (r: Report)
    ensures
        r.is_command(0x07, 0x12, seq![bho_byte(enabled, threshold)]),
{
    let e: u8 = flag_byte(enabled);
    let b: u8 = (e << 7u8) | (threshold & 0x7Fu8);
    assert(e <= 1 ==> ((e << 7u8) | (threshold & 0x7Fu8)) == e * 128 + threshold % 128)
        by (bit_vector);
    let a = [b];
    assert(a@ =~= seq![bho_byte(enabled, threshold)]);
    Report::new(0x07, 0x12, a.as_slice())
}

pub fn get_bho() -> (r: Report)
    ensures
        r.is_command(0x07, 0x92, seq![0x00u8]),
{
    let a = [0x00u8];
    assert(a@ =~= seq![0x00u8]);
    Report::new(0x07, 0x92, a.as_slice())
}

} // verus!
