//! The decisions of the JSON-lines socket server and the 1 Hz telemetry
//! loop: which requests are refused, where each command goes, and when a
//! wall-clock jump means the machine resumed from suspend. The sockets,
//! tasks and JSON are the caller's.
use vstd::prelude::*;
use crate::api::{API_VERSION, Command, GpuMode, Request};
use crate::text::{chars_of, decimal, push_decimal, push_str, string_of, trim, trimmed};

verus! {

/// Where a request goes.
pub enum Route {
    /// Answer with this error.
    Refuse(String),
    Pong,
    Status,
    Subscribe,
    Gpu(GpuMode),
    ColorPreset(u8),
    MonitorBrightness(u8),
    /// A state change for the daemon core (`Core::handle_set`).
    Core,
}

/// The refusal of a mutating request from a client of another API version.
pub open spec fn incompatible_message_spec(client: u16) -> Seq<char> {
    "incompatible Fang API: client "@ + decimal(client as nat) + ", daemon "@ + decimal(
        API_VERSION as nat,
    ) + "; update both packages"@
}

pub fn incompatible_message(client: u16) -> (r: String)
    ensures
        r@ == incompatible_message_spec(client),
{
    let mut v = chars_of("incompatible Fang API: client ");
    push_decimal(&mut v, client as u64);
    push_str(&mut v, ", daemon ");
    push_decimal(&mut v, API_VERSION as u64);
    push_str(&mut v, "; update both packages");
    assert(v@ =~= incompatible_message_spec(client));
    string_of(&v)
}

/// Read-only commands are always served; a mutating one only when the
/// client speaks this daemon's API version.
pub fn route(req: &Request) -> (r: Route)
    ensures
        req.cmd.mutating() && req.api_version != API_VERSION ==> (r matches Route::Refuse(m)
            && m@ == incompatible_message_spec(req.api_version)),
        !(req.cmd.mutating() && req.api_version != API_VERSION) ==> match req.cmd {
            Command::Ping => r is Pong,
            Command::GetStatus => r is Status,
            Command::Subscribe => r is Subscribe,
            Command::SetGpuMode { gpu_mode } => r == Route::Gpu(gpu_mode),
            Command::SetColorPreset { value } => r == Route::ColorPreset(value),
            Command::SetMonitorBrightness { value } => r == Route::MonitorBrightness(value),
            _ => r is Core,
        },
{
    if req.cmd.is_mutating() && req.api_version != API_VERSION {
        return Route::Refuse(incompatible_message(req.api_version));
    }
    match &req.cmd {
        Command::Ping => Route::Pong,
        Command::GetStatus => Route::Status,
        Command::Subscribe => Route::Subscribe,
        Command::SetGpuMode { gpu_mode } => Route::Gpu(*gpu_mode),
        Command::SetColorPreset { value } => Route::ColorPreset(*value),
        Command::SetMonitorBrightness { value } => Route::MonitorBrightness(*value),
        _ => Route::Core,
    }
}

/// A request line with nothing but whitespace is skipped.
pub fn is_blank(line: &str) -> (r: bool)
    ensures
        r == (trim(line@).len() == 0),
{
    trimmed(&chars_of(line)).len() == 0
}

/// More than this many milliseconds of wall clock between two 1 Hz ticks
/// means the machine was suspended.
pub const RESUME_GAP_MS: u64 = 20_000;

/// Whether the wall clock jumped forward by more than [`RESUME_GAP_MS`]
/// between ticks (a clock that went backwards is no jump).
pub fn clock_jumped(prev_ms: u64, now_ms: u64) -> (r: bool)
    ensures
        r == (now_ms > prev_ms && now_ms - prev_ms > RESUME_GAP_MS),
{
    now_ms > prev_ms && now_ms - prev_ms > RESUME_GAP_MS
}

} // verus!
