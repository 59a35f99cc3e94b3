//! Razer EC backend logic: choosing the laptop's HID interface, the command
//! sequence that applies a state, fan-safe recovery, and reading EC replies.
//! The HID transport itself belongs to the program.
use vstd::prelude::*;
use crate::api::{Boost, FanMode, KbdEffect, LogoMode, PerfMode};
use crate::daemon::cat;
use crate::hw::{Answer, answer};
use crate::models::{LaptopModel, by_pid, spec_by_pid};
use crate::packet::{
    self, ARGS_LEN, Report, ReportError, Zone, VARSTORE, BACKLIGHT_LED, LOGO_LED, bho_byte, flag,
    padded_args, response_error, read_from_wire,
};
use crate::state::{AppliedState, StateView};
use crate::text::{
    chars_of, hex_byte, hex_char, push_chars, push_hex_byte, push_str, slice_chars, string_of, trim,
    trimmed, unsigned_value, parse_unsigned,
};

verus! {

// ---- choosing the laptop ---------------------------------------------------

/// The text of a PID approval without surrounding whitespace and without a
/// `0x`/`0X` prefix.
pub open spec fn approval_body(value: Seq<char>) -> Seq<char> {
    let t = trim(value);
    if t.len() >= 2 && t[0] == '0' && (t[1] == 'x' || t[1] == 'X') {
        t.subrange(2, t.len() as int)
    } else {
        t
    }
}

pub open spec fn pid_format_error() -> Seq<char> {
    "expected one hexadecimal USB product id (for example 02b8)"@
}

pub open spec fn pid_zero_error() -> Seq<char> {
    "USB product id 0000 cannot be approved"@
}

/// The PID an approval names: one to four hexadecimal digits (optionally
/// after `0x`), never 0000.
pub open spec fn spec_approved_pid(value: Seq<char>) -> Result<u16, Seq<char>> {
    let body = approval_body(value);
    if body.len() == 0 || body.len() > 4 {
        Err(pid_format_error())
    } else {
        match unsigned_value(body, 16) {
            None => Err(pid_format_error()),
            Some(v) => if v == 0 {
                Err(pid_zero_error())
            } else {
                Ok(v as u16)
            },
        }
    }
}

/// Parse an exact hexadecimal PID approval. A broad boolean opt-in would
/// make it too easy to send laptop EC commands to an unrelated Razer
/// peripheral.
pub fn parse_approved_pid(value: &str) -> (r: Result<u16, String>)
    ensures
        match (r, spec_approved_pid(value@)) {
            (Ok(p), Ok(q)) => p == q,
            (Err(e), Err(f)) => e@ == f,
            _ => false,
        },
{
    let chars = chars_of(value);
    let t = trimmed(&chars);
    let body = if t.len() >= 2 && t[0] == '0' && (t[1] == 'x' || t[1] == 'X') {
        slice_chars(&t, 2, t.len())
    } else {
        t
    };
    assert(body@ == approval_body(value@));
    if body.len() == 0 || body.len() > 4 {
        return Err(String::from_str("expected one hexadecimal USB product id (for example 02b8)"));
    }
    proof {
        lemma_short_hex_fits(body@);
    }
    match parse_unsigned(&body, 16, 0xFFFF) {
        None => Err(String::from_str("expected one hexadecimal USB product id (for example 02b8)")),
        Some(v) => {
            assert(unsigned_value(body@, 16) == Some(v as int));
            if v == 0 {
                Err(String::from_str("USB product id 0000 cannot be approved"))
            } else {
                Ok(v as u16)
            }
        },
    }
}

/// At most four hexadecimal digits fit in 16 bits.
proof fn lemma_short_hex_fits(body: Seq<char>)
    requires
        body.len() <= 4,
    ensures
        unsigned_value(body, 16) matches Some(v) ==> v <= 0xFFFF,
{
    let b = if body.len() > 0 && body[0] == '+' {
        body.subrange(1, body.len() as int)
    } else {
        body
    };
    if b.len() > 0 && crate::text::all_digits(b, 16) {
        lemma_hex_digits_bound(b);
        reveal_with_fuel(pow16, 5);
        assert(pow16(b.len()) <= 65536);
    }
}

proof fn lemma_hex_digits_bound(s: Seq<char>)
    requires
        crate::text::all_digits(s, 16),
    ensures
        0 <= crate::text::digits_value(s, 16) < pow16(s.len()),
    decreases s.len(),
{
    if s.len() > 0 {
        let t = s.drop_last();
        assert(crate::text::all_digits(t, 16)) by {
            assert forall|i: int| 0 <= i < t.len() implies crate::text::hex_value(
                #[trigger] t[i],
            ) is Some by {
                assert(t[i] == s[i]);
            }
        }
        assert(crate::text::hex_value(s[s.len() - 1]) is Some);
        lemma_hex_digits_bound(t);
        let v = crate::text::digits_value(t, 16);
        let d = crate::text::hex_value(s.last())->0 as int;
        assert(d < 16);
        let p = pow16(t.len());
        assert(v * 16 + d < p * 16) by (nonlinear_arith)
            requires
                0 <= v < p,
                0 <= d < 16,
        ;
        assert(0 <= v * 16 + d) by (nonlinear_arith)
            requires
                0 <= v,
                0 <= d,
        ;
    }
}

pub open spec fn pow16(n: nat) -> int
    decreases n,
{
    if n == 0 {
        1
    } else {
        16 * pow16((n - 1) as nat)
    }
}

/// The index of the first candidate at or after `i` that is a recognized
/// laptop.
pub open spec fn first_known(c: Seq<(u16, u16)>, i: int) -> Option<int>
    decreases c.len() - i,
{
    if i < 0 || i >= c.len() {
        None
    } else if spec_by_pid(c[i].0) is Some {
        Some(i)
    } else {
        first_known(c, i + 1)
    }
}

/// The index of the first candidate at or after `i` with the approved PID
/// on a vendor-defined interface (usage page 0xFF00 and up).
pub open spec fn first_approved(c: Seq<(u16, u16)>, pid: u16, i: int) -> Option<int>
    decreases c.len() - i,
{
    if i < 0 || i >= c.len() {
        None
    } else if c[i].0 == pid && c[i].1 >= 0xFF00 {
        Some(i)
    } else {
        first_approved(c, pid, i + 1)
    }
}

/// A recognized laptop always wins; an unknown vendor-defined interface
/// only when its exact PID was approved.
pub open spec fn spec_choose_laptop(c: Seq<(u16, u16)>, approved: Option<u16>) -> Option<int> {
    match first_known(c, 0) {
        Some(i) => Some(i),
        None => match approved {
            Some(p) => first_approved(c, p, 0),
            None => None,
        },
    }
}

/// Choose the laptop among Razer HID candidates on interface 0, each given
/// as `(product_id, usage_page)`. Returns the index into `candidates`, or
/// `None` when no safe control target is present.
pub fn choose_laptop(candidates: &[(u16, u16)], approved_unverified: Option<u16>) -> (r: Option<usize>)
    ensures
        match spec_choose_laptop(candidates@, approved_unverified) {
            Some(i) => r == Some(i as usize),
            None => r is None,
        },
{
    let mut i: usize = 0;
    while i < candidates.len()
        invariant
            0 <= i <= candidates@.len(),
            first_known(candidates@, 0) == first_known(candidates@, i as int),
        decreases candidates@.len() - i,
    {
        if by_pid(candidates[i].0).is_some() {
            return Some(i);
        }
        i = i + 1;
    }
    let approved = match approved_unverified {
        Some(p) => p,
        None => return None,
    };
    let mut j: usize = 0;
    while j < candidates.len()
        invariant
            0 <= j <= candidates@.len(),
            first_approved(candidates@, approved, 0) == first_approved(candidates@, approved, j as int),
            first_known(candidates@, 0) is None,
            approved_unverified == Some(approved),
        decreases candidates@.len() - j,
    {
        if candidates[j].0 == approved && candidates[j].1 >= 0xFF00 {
            return Some(j);
        }
        j = j + 1;
    }
    None
}


// ---- applying a state --------------------------------------------------------

/// An EC command: class, id and argument bytes.
pub type Cmd = (u8, u8, Seq<u8>);

/// `r` is the report for command `c`.
pub open spec fn sends(r: Report, c: Cmd) -> bool {
    r.is_command(c.0, c.1, c.2)
}

pub open spec fn power_cmd(z: Zone, mode: u8, manual: bool) -> Cmd {
    (0x0d, 0x02, seq![0x00u8, z.code(), mode, flag(manual)])
}

pub open spec fn fan_rpm_cmd(z: Zone, step: u8) -> Cmd {
    (0x0d, 0x01, seq![0x00u8, z.code(), step])
}

pub open spec fn cpu_boost_cmd(b: u8) -> Cmd {
    (0x0d, 0x07, seq![0x00u8, 0x01u8, b])
}

pub open spec fn gpu_boost_cmd(b: u8) -> Cmd {
    (0x0d, 0x07, seq![0x00u8, 0x02u8, b])
}

pub open spec fn bho_cmd(enabled: bool, threshold: u8) -> Cmd {
    (0x07, 0x12, seq![bho_byte(enabled, threshold)])
}

pub open spec fn brightness_cmd(v: u8) -> Cmd {
    (0x03, 0x03, seq![VARSTORE, BACKLIGHT_LED, v])
}

pub open spec fn kbd_effect_cmd(id: u8, params: Seq<u8>) -> Cmd {
    (0x03, 0x0a, padded_args(seq![id] + params))
}

pub open spec fn logo_effect_cmd(effect: u8) -> Cmd {
    (0x03, 0x02, seq![VARSTORE, LOGO_LED, effect])
}

pub open spec fn logo_state_cmd(on: bool) -> Cmd {
    (0x03, 0x00, seq![VARSTORE, LOGO_LED, flag(on)])
}

/// A zone's fan commands: its power mode, and in software fan control the
/// safest target (the model's maximum) right after entering manual mode.
pub open spec fn zone_cmds(z: Zone, mode: u8, manual: bool, step: u8) -> Seq<Cmd> {
    if manual {
        seq![power_cmd(z, mode, true), fan_rpm_cmd(z, step)]
    } else {
        seq![power_cmd(z, mode, false)]
    }
}

/// Silent maps to the EC's Custom mode with both boosts pinned Low: the
/// reduced power budget keeps the fans quiet while the EC's automatic fan
/// curve stays active. Custom sends the chosen boosts, the CPU capped at
/// High without the overclock feature.
pub open spec fn boost_cmds(s: StateView, m: LaptopModel) -> Seq<Cmd> {
    match s.perf_mode {
        PerfMode::Silent => seq![cpu_boost_cmd(0), gpu_boost_cmd(0)],
        PerfMode::Custom => {
            let cpu = if !m.has_cpu_boost_oc && s.cpu_boost == Boost::Boost {
                Boost::High
            } else {
                s.cpu_boost
            };
            seq![cpu_boost_cmd(cpu.ec_level()), gpu_boost_cmd(s.gpu_boost.ec_level())]
        },
        _ => Seq::empty(),
    }
}

/// Brightness percent scaled to the EC's 0..=255 range.
pub open spec fn brightness_level(percent: u8) -> u8 {
    ((if percent > 100 {
        100
    } else {
        percent
    }) * 255 / 100) as u8
}

/// The EC level for a brightness percent is the percent, capped at 100,
/// scaled to the EC's 0..=255 range and rounded down: 100 % is 255, 0 % is
/// 0, and a higher percent never gives a lower level.
pub proof fn lemma_brightness_scales_to_the_ec_range(percent: u8, other: u8)
    ensures
        ({
            let p = if percent > 100 {
                100int
            } else {
                percent as int
            };
            let l = brightness_level(percent) as int;
            100 * l <= 255 * p < 100 * (l + 1)
        }),
        percent >= 100 ==> brightness_level(percent) == 255,
        percent == 0 ==> brightness_level(percent) == 0,
        percent <= other ==> brightness_level(percent) <= brightness_level(other),
{
    let p: int = if percent > 100 { 100 } else { percent as int };
    let q: int = if other > 100 { 100 } else { other as int };
    assert(0 <= p * 255 / 100 <= 255) by (nonlinear_arith)
        requires 0 <= p <= 100;
    assert(0 <= q * 255 / 100 <= 255) by (nonlinear_arith)
        requires 0 <= q <= 100;
    assert(100 * (p * 255 / 100) <= 255 * p < 100 * (p * 255 / 100 + 1)) by (nonlinear_arith)
        requires 0 <= p <= 100;
    assert(p <= q ==> p * 255 / 100 <= q * 255 / 100) by (nonlinear_arith)
        requires 0 <= p <= 100, 0 <= q <= 100;
}

/// Applying a state sends the keyboard brightness as that scaled level:
/// the plan holds a backlight brightness command (class 0x03, id 0x03)
/// whose level is the saved percent, capped at 100, times 255 / 100,
/// rounded down.
pub proof fn lemma_plan_scales_brightness(s: StateView, m: LaptopModel)
    ensures
        exists|i: int|
            0 <= i < apply_plan(s, m).len() && ({
                let c = #[trigger] apply_plan(s, m)[i];
                let p = if s.kbd_brightness > 100 {
                    100int
                } else {
                    s.kbd_brightness as int
                };
                &&& c.0 == 0x03 && c.1 == 0x03 && c.2.len() == 3
                &&& 100 * (c.2[2] as int) <= 255 * p < 100 * (c.2[2] as int + 1)
            }),
{
    let plan = apply_plan(s, m);
    let i = plan.len() - logo_cmds(s, m).len() - 2;
    assert(plan[i] == brightness_cmd(brightness_level(s.kbd_brightness)));
    lemma_brightness_scales_to_the_ec_range(s.kbd_brightness, s.kbd_brightness);
    assert(plan[i].2[2] == brightness_level(s.kbd_brightness));
}

/// The keyboard effect id and its parameters.
pub open spec fn effect_params(e: KbdEffect) -> (u8, Seq<u8>) {
    match e {
        KbdEffect::Off => (packet::kbd_effect::OFF, Seq::empty()),
        KbdEffect::Static { r, g, b } => (packet::kbd_effect::STATIC, seq![r, g, b]),
        KbdEffect::Spectrum => (packet::kbd_effect::SPECTRUM, Seq::empty()),
        KbdEffect::Wave => (packet::kbd_effect::WAVE, seq![0x01u8]),
    }
}

/// The logo LED: its effect first when it is on, then its state.
pub open spec fn logo_cmds(s: StateView, m: LaptopModel) -> Seq<Cmd> {
    if !m.has_logo {
        Seq::empty()
    } else if s.logo_led == LogoMode::Off {
        seq![logo_state_cmd(false)]
    } else {
        seq![
            logo_effect_cmd(if s.logo_led == LogoMode::Breathing { 0x02 } else { 0x00 }),
            logo_state_cmd(true),
        ]
    }
}

/// Every command that applies a state, in order: both fan zones, boosts,
/// the battery limiter, keyboard lighting, the logo LED.
pub open spec fn apply_plan(s: StateView, m: LaptopModel) -> Seq<Cmd> {
    let manual = !(s.fan is Auto);
    let mode = s.perf_mode.ec_mode();
    let step = (m.fan_rpm_max / 100) as u8;
    let ep = effect_params(s.kbd_effect);
    zone_cmds(Zone::Fan1, mode, manual, step) + zone_cmds(Zone::Fan2, mode, manual, step)
        + boost_cmds(s, m) + (if m.has_bho {
        seq![bho_cmd(s.bho_enabled, s.bho_threshold)]
    } else {
        Seq::empty()
    }) + seq![brightness_cmd(brightness_level(s.kbd_brightness)), kbd_effect_cmd(ep.0, ep.1)]
        + logo_cmds(s, m)
}

/// A power-mode command carries one of the EC's defined modes (0, 1 or 4);
/// other commands are not power-mode commands.
pub open spec fn defined_mode(c: Cmd) -> bool {
    (c.0 == 0x0d && c.1 == 0x02) ==> (c.2.len() == 4 && (c.2[2] == 0 || c.2[2] == 1 || c.2[2] == 4))
}

pub open spec fn all_defined_modes(p: Seq<Cmd>) -> bool {
    forall|k: int| 0 <= k < p.len() ==> defined_mode(#[trigger] p[k])
}

proof fn lemma_all_defined_concat(a: Seq<Cmd>, b: Seq<Cmd>)
    requires
        all_defined_modes(a),
        all_defined_modes(b),
    ensures
        all_defined_modes(a + b),
{
    assert forall|k: int| 0 <= k < (a + b).len() implies defined_mode(#[trigger] (a + b)[k]) by {
        if k < a.len() {
            assert((a + b)[k] == a[k]);
        } else {
            assert((a + b)[k] == b[k - a.len()]);
        }
    }
}

/// The EC never receives an undefined power mode: every power-mode
/// command in a state application or an automatic-fan restore carries
/// mode 0, 1 or 4 (Silent rides on Custom's 4).
pub proof fn lemma_plans_use_defined_modes(s: StateView, m: LaptopModel)
    ensures
        all_defined_modes(apply_plan(s, m)),
        all_defined_modes(restore_plan(s.perf_mode)),
{
    crate::api::lemma_only_exposed_perf_modes_reach_the_ec(s.perf_mode);
    let manual = !(s.fan is Auto);
    let mode = s.perf_mode.ec_mode();
    let step = (m.fan_rpm_max / 100) as u8;
    let ep = effect_params(s.kbd_effect);
    let z1 = zone_cmds(Zone::Fan1, mode, manual, step);
    let z2 = zone_cmds(Zone::Fan2, mode, manual, step);
    let bo = boost_cmds(s, m);
    let bh = if m.has_bho {
        seq![bho_cmd(s.bho_enabled, s.bho_threshold)]
    } else {
        Seq::empty()
    };
    let li = seq![brightness_cmd(brightness_level(s.kbd_brightness)), kbd_effect_cmd(ep.0, ep.1)];
    let lo = logo_cmds(s, m);
    assert(all_defined_modes(z1));
    assert(all_defined_modes(z2));
    assert(all_defined_modes(bo));
    assert(all_defined_modes(bh));
    assert(all_defined_modes(li));
    assert(all_defined_modes(lo));
    lemma_all_defined_concat(z1, z2);
    lemma_all_defined_concat(z1 + z2, bo);
    lemma_all_defined_concat(z1 + z2 + bo, bh);
    lemma_all_defined_concat(z1 + z2 + bo + bh, li);
    lemma_all_defined_concat(z1 + z2 + bo + bh + li, lo);
    assert(apply_plan(s, m) == z1 + z2 + bo + bh + li + lo);
    assert(all_defined_modes(restore_plan(s.perf_mode)));
}

/// Both fan zones back under the EC's automatic curve.
pub open spec fn restore_plan(mode: PerfMode) -> Seq<Cmd> {
    seq![power_cmd(Zone::Fan1, mode.ec_mode(), false), power_cmd(Zone::Fan2, mode.ec_mode(), false)]
}

/// The reports for a plan.
pub open spec fn reports_for(v: Seq<Report>, plan: Seq<Cmd>) -> bool {
    &&& v.len() == plan.len()
    &&& forall|k: int| 0 <= k < v.len() ==> sends(#[trigger] v[k], plan[k])
}

fn push_report(v: &mut Vec<Report>, r: Report, Ghost(plan): Ghost<Seq<Cmd>>, Ghost(c): Ghost<Cmd>)
    requires
        reports_for(old(v)@, plan),
        sends(r, c),
    ensures
        reports_for(final(v)@, plan.push(c)),
{
    v.push(r);
    assert forall|k: int| 0 <= k < v@.len() implies sends(#[trigger] v@[k], plan.push(c)[k]) by {
        if k < plan.len() {
            assert(v@[k] == old(v)@[k]);
        }
    }
}

fn push_zone(v: &mut Vec<Report>, Ghost(p): Ghost<Seq<Cmd>>, zone: Zone, mode: u8, manual: bool, step: u8)
    requires
        reports_for(old(v)@, p),
    ensures
        reports_for(final(v)@, p + zone_cmds(zone, mode, manual, step)),
{
    push_report(v, packet::set_power_mode(zone, mode, manual), Ghost(p), Ghost(power_cmd(zone, mode, manual)));
    let ghost p1 = p.push(power_cmd(zone, mode, manual));
    if manual {
        push_report(v, packet::set_fan_rpm(zone, step), Ghost(p1), Ghost(fan_rpm_cmd(zone, step)));
        assert(p1.push(fan_rpm_cmd(zone, step)) =~= p + zone_cmds(zone, mode, manual, step));
    } else {
        assert(p1 =~= p + zone_cmds(zone, mode, manual, step));
    }
}

fn push_boosts(v: &mut Vec<Report>, Ghost(p): Ghost<Seq<Cmd>>, s: &AppliedState, model: &LaptopModel)
    requires
        reports_for(old(v)@, p),
    ensures
        reports_for(final(v)@, p + boost_cmds(s@, *model)),
{
    let boosts: Option<(Boost, Boost)> = match s.perf_mode {
        PerfMode::Silent => Some((Boost::Low, Boost::Low)),
        PerfMode::Custom => {
            let cpu = if model.has_cpu_boost_oc {
                s.cpu_boost
            } else {
                match s.cpu_boost {
                    Boost::Boost => Boost::High,
                    b => b,
                }
            };
            Some((cpu, s.gpu_boost))
        },
        _ => None,
    };
    if let Some((cpu, gpu)) = boosts {
        push_report(v, packet::set_cpu_boost(cpu.to_ec()), Ghost(p), Ghost(cpu_boost_cmd(cpu.ec_level())));
        let ghost p1 = p.push(cpu_boost_cmd(cpu.ec_level()));
        push_report(v, packet::set_gpu_boost(gpu.to_ec()), Ghost(p1), Ghost(gpu_boost_cmd(gpu.ec_level())));
        assert(p1.push(gpu_boost_cmd(gpu.ec_level())) =~= p + boost_cmds(s@, *model));
    } else {
        assert(p =~= p + boost_cmds(s@, *model));
    }
}

fn kbd_report(e: KbdEffect) -> (r: Report)
    ensures
        sends(r, kbd_effect_cmd(effect_params(e).0, effect_params(e).1)),
{
    let ghost ep = effect_params(e);
    assert(padded_args(padded_args(seq![ep.0] + ep.1)) =~= padded_args(seq![ep.0] + ep.1));
    match e {
        KbdEffect::Off => {
            let params: [u8; 0] = [];
            assert(params@ =~= Seq::<u8>::empty());
            packet::set_kbd_effect(packet::kbd_effect::OFF, params.as_slice())
        },
        KbdEffect::Static { r, g, b } => {
            let params = [r, g, b];
            assert(params@ =~= seq![r, g, b]);
            packet::set_kbd_effect(packet::kbd_effect::STATIC, params.as_slice())
        },
        KbdEffect::Spectrum => {
            let params: [u8; 0] = [];
            assert(params@ =~= Seq::<u8>::empty());
            packet::set_kbd_effect(packet::kbd_effect::SPECTRUM, params.as_slice())
        },
        KbdEffect::Wave => {
            let params = [0x01u8];
            assert(params@ =~= seq![0x01u8]);
            packet::set_kbd_effect(packet::kbd_effect::WAVE, params.as_slice())
        },
    }
}

/// The commands after the boosts.
pub open spec fn tail_cmds(s: StateView, m: LaptopModel) -> Seq<Cmd> {
    let ep = effect_params(s.kbd_effect);
    (if m.has_bho {
        seq![bho_cmd(s.bho_enabled, s.bho_threshold)]
    } else {
        Seq::empty()
    }) + seq![brightness_cmd(brightness_level(s.kbd_brightness)), kbd_effect_cmd(ep.0, ep.1)]
        + logo_cmds(s, m)
}

fn push_tail(v: &mut Vec<Report>, Ghost(p): Ghost<Seq<Cmd>>, s: &AppliedState, model: &LaptopModel)
    requires
        reports_for(old(v)@, p),
    ensures
        reports_for(final(v)@, p + tail_cmds(s@, *model)),
{
    let ghost mut q = p;
    if model.has_bho {
        push_report(v, packet::set_bho(s.bho_enabled, s.bho_threshold), Ghost(q), Ghost(bho_cmd(s.bho_enabled, s.bho_threshold)));
        proof {
            q = q.push(bho_cmd(s.bho_enabled, s.bho_threshold));
        }
    }
    let percent: u8 = if s.kbd_brightness > 100 {
        100
    } else {
        s.kbd_brightness
    };
    let level: u8 = (percent as u16 * 255 / 100) as u8;
    push_report(v, packet::set_brightness(level), Ghost(q), Ghost(brightness_cmd(brightness_level(s.kbd_brightness))));
    proof {
        q = q.push(brightness_cmd(brightness_level(s.kbd_brightness)));
    }
    let ghost ep = effect_params(s.kbd_effect);
    push_report(v, kbd_report(s.kbd_effect), Ghost(q), Ghost(kbd_effect_cmd(ep.0, ep.1)));
    proof {
        q = q.push(kbd_effect_cmd(ep.0, ep.1));
    }
    let ghost q3 = q;
    if model.has_logo {
        if s.logo_led != LogoMode::Off {
            let effect: u8 = match s.logo_led {
                LogoMode::Breathing => 0x02,
                _ => 0x00,
            };
            push_report(v, packet::set_logo_effect(effect), Ghost(q), Ghost(logo_effect_cmd(effect)));
            proof {
                q = q.push(logo_effect_cmd(effect));
            }
        }
        let on = s.logo_led != LogoMode::Off;
        push_report(v, packet::set_logo_state(on), Ghost(q), Ghost(logo_state_cmd(on)));
        proof {
            q = q.push(logo_state_cmd(on));
        }
    }
    assert(q =~= q3 + logo_cmds(s@, *model));
    assert(q =~= p + tail_cmds(s@, *model));
}

/// The reports that apply `state` on `model`.
pub fn apply_reports(state: &AppliedState, model: &LaptopModel) -> (r: Vec<Report>)
    ensures
        reports_for(r@, apply_plan(state@, *model)),
{
    let manual = match &state.fan {
        FanMode::Auto => false,
        _ => true,
    };
    let mode = state.perf_mode.to_ec();
    let step = (model.fan_rpm_max / 100) as u8;
    let mut v: Vec<Report> = Vec::new();
    let ghost p0: Seq<Cmd> = Seq::empty();
    push_zone(&mut v, Ghost(p0), Zone::Fan1, mode, manual, step);
    let ghost p1 = p0 + zone_cmds(Zone::Fan1, mode, manual, step);
    push_zone(&mut v, Ghost(p1), Zone::Fan2, mode, manual, step);
    let ghost p2 = p1 + zone_cmds(Zone::Fan2, mode, manual, step);
    push_boosts(&mut v, Ghost(p2), state, model);
    let ghost p3 = p2 + boost_cmds(state@, *model);
    push_tail(&mut v, Ghost(p3), state, model);
    assert(p3 + tail_cmds(state@, *model) =~= apply_plan(state@, *model));
    v
}


// ---- sending -------------------------------------------------------------------

/// Sends one report to the EC and reports whether the EC accepted it.
pub trait EcTransport {
    fn command(&mut self, report: Report) -> Result<(), String>;
}

/// A transport together with the record of every report sent through it and
/// how the transport answered it.
pub struct EcLink<T: EcTransport> {
    pub transport: T,
    pub sent: Ghost<Seq<(Report, Answer)>>,
}

impl<T: EcTransport> EcLink<T> {
    pub fn new(transport: T) -> (r: EcLink<T>)
        ensures
            r.sent@.len() == 0,
    {
        EcLink { transport, sent: Ghost(Seq::empty()) }
    }

    pub fn send(&mut self, report: Report) -> (r: Result<(), String>)
        ensures
            final(self).sent@ == old(self).sent@.push((report, answer(r))),
    {
        let r = self.transport.command(report);
        proof {
            self.sent@ = self.sent@.push((report, answer(r)));
        }
        r
    }
}

/// What was sent after the first `n` records.
pub open spec fn sent_since(sent: Seq<(Report, Answer)>, n: int) -> Seq<(Report, Answer)> {
    sent.subrange(n, sent.len() as int)
}

/// `s` sent a prefix of `plan`, stopping at the first rejected report: on
/// success all of it, on failure up to and including the rejected one.
pub open spec fn sent_until_failure(s: Seq<(Report, Answer)>, plan: Seq<Cmd>, ok: bool) -> bool {
    &&& s.len() <= plan.len()
    &&& forall|k: int| 0 <= k < s.len() ==> sends(#[trigger] s[k].0, plan[k])
    &&& forall|k: int| 0 <= k < s.len() - 1 ==> #[trigger] s[k].1 is Ok
    &&& ok ==> s.len() == plan.len() && (s.len() > 0 ==> s.last().1 is Ok)
    &&& !ok ==> s.len() > 0 && s.last().1 is Err
}

/// What sending stopped with: `Ok` when every report was accepted, else
/// the transport's error for the rejected one.
pub open spec fn outcome(s: Seq<(Report, Answer)>) -> Answer {
    if s.len() > 0 && s.last().1 is Err {
        s.last().1
    } else {
        Ok(())
    }
}

/// Send reports in order, stopping at the first one the EC rejects.
pub fn send_all<T: EcTransport>(reports: &Vec<Report>, link: &mut EcLink<T>, Ghost(plan): Ghost<Seq<Cmd>>) -> (r: Result<(), String>)
    requires
        reports_for(reports@, plan),
    ensures
        old(link).sent@.len() <= final(link).sent@.len(),
        final(link).sent@.subrange(0, old(link).sent@.len() as int) == old(link).sent@,
        sent_until_failure(sent_since(final(link).sent@, old(link).sent@.len() as int), plan, r is Ok),
        answer(r) == outcome(sent_since(final(link).sent@, old(link).sent@.len() as int)),
{
    let ghost n = link.sent@.len();
    assert(link.sent@.subrange(0, n as int) =~= link.sent@);
    let mut i: usize = 0;
    while i < reports.len()
        invariant
            reports_for(reports@, plan),
            0 <= i <= reports@.len(),
            link.sent@.len() == n + i,
            link.sent@.subrange(0, n as int) == old(link).sent@,
            n == old(link).sent@.len(),
            forall|k: int| 0 <= k < i ==> sends(#[trigger] sent_since(link.sent@, n as int)[k].0, plan[k]),
            forall|k: int| 0 <= k < i ==> #[trigger] sent_since(link.sent@, n as int)[k].1 is Ok,
        decreases reports@.len() - i,
    {
        let ghost before = link.sent@;
        let r = link.send(reports[i]);
        proof {
            let now = sent_since(link.sent@, n as int);
            let was = sent_since(before, n as int);
            assert(link.sent@.subrange(0, n as int) =~= before.subrange(0, n as int));
            assert(now.len() == i + 1);
            assert(now[i as int] == (reports@[i as int], answer(r)));
            assert forall|k: int| 0 <= k < i + 1 implies sends(#[trigger] now[k].0, plan[k]) by {
                if k < i {
                    assert(now[k] == was[k]);
                }
            }
            assert forall|k: int| 0 <= k < i implies #[trigger] now[k].1 is Ok by {
                assert(now[k] == was[k]);
            }
        }
        if r.is_err() {
            return r;
        }
        proof {
            let now = sent_since(link.sent@, n as int);
            assert forall|k: int| 0 <= k < i + 1 implies #[trigger] now[k].1 is Ok by {
                if k < i {
                    assert(now[k].1 is Ok);
                }
            }
        }
        i = i + 1;
    }
    assert(sent_since(link.sent@, n as int).len() == reports@.len());
    Ok(())
}

/// Send a complete desired state once, stopping at the first failure.
pub fn apply_state_once<T: EcTransport>(state: &AppliedState, model: &LaptopModel, link: &mut EcLink<T>) -> (r: Result<(), String>)
    ensures
        old(link).sent@.len() <= final(link).sent@.len(),
        final(link).sent@.subrange(0, old(link).sent@.len() as int) == old(link).sent@,
        sent_until_failure(
            sent_since(final(link).sent@, old(link).sent@.len() as int),
            apply_plan(state@, *model),
            r is Ok,
        ),
        answer(r) == outcome(sent_since(final(link).sent@, old(link).sent@.len() as int)),
{
    let reports = apply_reports(state, model);
    send_all(&reports, link, Ghost(apply_plan(state@, *model)))
}

/// "Fan1" or "Fan2".
pub fn zone_name(z: Zone) -> (r: &'static str)
    ensures
        r@ == (match z {
            Zone::Fan1 => "Fan1"@,
            Zone::Fan2 => "Fan2"@,
        }),
{
    match z {
        Zone::Fan1 => "Fan1",
        Zone::Fan2 => "Fan2",
    }
}

/// What restoring both zones reports: each refused zone, by name, with the
/// transport's error, joined by "; ".
pub open spec fn restore_result(fan1: Answer, fan2: Answer) -> Answer {
    match (fan1, fan2) {
        (Ok(()), Ok(())) => Ok(()),
        (Err(e), Ok(())) => Err("Fan1"@ + ": "@ + e),
        (Ok(()), Err(e)) => Err("Fan2"@ + ": "@ + e),
        (Err(e1), Err(e2)) => Err("Fan1"@ + ": "@ + e1 + "; "@ + "Fan2"@ + ": "@ + e2),
    }
}

/// What applying with recovery reports once the state was refused with
/// `apply_error` and restoring answered `restored`.
pub open spec fn recovery_text(apply_error: Seq<char>, restored: Answer) -> Seq<char> {
    match restored {
        Ok(()) => apply_error + "; restored EC automatic fan control"@,
        Err(e) => apply_error + "; restoring EC automatic fan control also failed: "@ + e,
    }
}

/// Restore both fan zones even if one command fails. Stopping at the first
/// error could otherwise leave one fan under manual control.
pub fn restore_auto_commands<T: EcTransport>(mode: PerfMode, link: &mut EcLink<T>) -> (r: Result<(), String>)
    ensures
        final(link).sent@.len() == old(link).sent@.len() + 2,
        final(link).sent@.subrange(0, old(link).sent@.len() as int) == old(link).sent@,
        sends(final(link).sent@[old(link).sent@.len() as int].0, restore_plan(mode)[0]),
        sends(final(link).sent@[old(link).sent@.len() + 1int].0, restore_plan(mode)[1]),
        answer(r) == restore_result(
            final(link).sent@[old(link).sent@.len() as int].1,
            final(link).sent@[old(link).sent@.len() + 1int].1,
        ),
{
    let ghost n = link.sent@.len();
    let m = mode.to_ec();
    let first = link.send(packet::set_power_mode(Zone::Fan1, m, false));
    let second = link.send(packet::set_power_mode(Zone::Fan2, m, false));
    assert(link.sent@.subrange(0, n as int) =~= old(link).sent@);
    match (first, second) {
        (Ok(()), Ok(())) => Ok(()),
        (Err(e), Ok(())) => {
            let a = cat(zone_name(Zone::Fan1), ": ");
            let r = cat(a.as_str(), e.as_str());
            assert(r@ =~= "Fan1"@ + ": "@ + e@);
            Err(r)
        },
        (Ok(()), Err(e)) => {
            let a = cat(zone_name(Zone::Fan2), ": ");
            let r = cat(a.as_str(), e.as_str());
            assert(r@ =~= "Fan2"@ + ": "@ + e@);
            Err(r)
        },
        (Err(e1), Err(e2)) => {
            let a = cat(zone_name(Zone::Fan1), ": ");
            let b = cat(a.as_str(), e1.as_str());
            let c = cat(b.as_str(), "; ");
            let d = cat(c.as_str(), zone_name(Zone::Fan2));
            let f = cat(d.as_str(), ": ");
            let r = cat(f.as_str(), e2.as_str());
            assert(r@ =~= "Fan1"@ + ": "@ + e1@ + "; "@ + "Fan2"@ + ": "@ + e2@);
            Err(r)
        },
    }
}

/// Apply a state with an immediate fan-safe fallback: when any command
/// fails, both fans are handed back to the EC's automatic control right
/// away. This closes the dangerous window where manual mode succeeded but
/// its RPM write failed.
pub fn apply_state_with_recovery<T: EcTransport>(state: &AppliedState, model: &LaptopModel, link: &mut EcLink<T>) -> (r: Result<(), String>)
    ensures
        old(link).sent@.len() <= final(link).sent@.len(),
        final(link).sent@.subrange(0, old(link).sent@.len() as int) == old(link).sent@,
        ({
            let s = sent_since(final(link).sent@, old(link).sent@.len() as int);
            let plan = apply_plan(state@, *model);
            &&& r is Ok ==> sent_until_failure(s, plan, true)
            &&& r is Err ==> {
                &&& s.len() >= 3
                &&& sent_until_failure(s.subrange(0, s.len() - 2), plan, false)
                &&& sends(s[s.len() - 2].0, restore_plan(state.perf_mode)[0])
                &&& sends(s[s.len() - 1].0, restore_plan(state.perf_mode)[1])
                &&& r->Err_0@ == recovery_text(
                    s[s.len() - 3].1->Err_0,
                    restore_result(s[s.len() - 2].1, s[s.len() - 1].1),
                )
            }
        }),
{
    let ghost n = link.sent@.len();
    match apply_state_once(state, model, link) {
        Ok(()) => Ok(()),
        Err(apply_error) => {
            let ghost mid = link.sent@;
            let recovery = restore_auto_commands(state.perf_mode, link);
            let ghost s = sent_since(link.sent@, n as int);
            assert(s.subrange(0, s.len() - 2) =~= sent_since(mid, n as int));
            assert(link.sent@.subrange(0, n as int) =~= old(link).sent@);
            assert(s[s.len() - 2] == link.sent@[mid.len() as int]);
            assert(s[s.len() - 1] == link.sent@[mid.len() + 1int]);
            match recovery {
                Ok(()) => Err(cat(apply_error.as_str(), "; restored EC automatic fan control")),
                Err(recovery_error) => {
                    let a = cat(
                        apply_error.as_str(),
                        "; restoring EC automatic fan control also failed: ",
                    );
                    Err(cat(a.as_str(), recovery_error.as_str()))
                },
            }
        },
    }
}

/// The EC step for a target RPM: clamped to the model's limits, divided by
/// 100.
pub open spec fn spec_clamp_rpm(rpm: u16, min: u16, max: u16) -> u8 {
    (crate::fan::clamp(rpm as int, min as int, max as int) / 100) as u8
}

pub fn clamp_rpm(rpm: u16, min: u16, max: u16) -> (r: u8)
    requires
        min <= max,
    ensures
        r == spec_clamp_rpm(rpm, min, max),
{
    let c: u16 = if rpm < min {
        min
    } else if rpm > max {
        max
    } else {
        rpm
    };
    #[verifier::truncate]
    ((c / 100) as u8)
}

// ---- reading EC replies -----------------------------------------------------------

/// Why the EC did not carry out a command.
#[derive(Clone, Debug, PartialEq, Eq)]
pub enum EcFailure {
    /// The reply was malformed or answered another request.
    Invalid(ReportError),
    /// The EC rejected the command as unsupported.
    Unsupported,
    /// The EC answered with another status.
    Status(u8),
    /// The HID transfer itself failed, with this error.
    Transfer(String),
}

/// What to do with a reply to a command.
#[derive(Clone, Debug, PartialEq, Eq)]
pub enum EcReply {
    /// The EC carried out the command; its answer.
    Accepted(Report),
    /// Try the command once more.
    Retry,
    /// Give up.
    Failed(EcFailure),
}

/// The EC carried out the command: a well-formed answer to the request
/// with status SUCCESS.
pub open spec fn accepts(request: Report, buf: Seq<u8>) -> bool {
    response_error(request, buf) is None && buf[1] == packet::status::SUCCESS
}

/// The decision for a reply the EC did not accept: a malformed or
/// mismatched reply and a busy EC are retried once (on the first attempt);
/// an unsupported command or any other status fails.
pub open spec fn refusal(request: Report, attempt: u8, buf: Seq<u8>) -> EcReply {
    match response_error(request, buf) {
        Some(e) => if attempt == 0 {
            EcReply::Retry
        } else {
            EcReply::Failed(EcFailure::Invalid(e))
        },
        None => {
            let status = buf[1];
            if status == packet::status::BUSY && attempt == 0 {
                EcReply::Retry
            } else if status == packet::status::NOT_SUPPORTED {
                EcReply::Failed(EcFailure::Unsupported)
            } else {
                EcReply::Failed(EcFailure::Status(status))
            }
        },
    }
}

pub fn classify_reply(request: &Report, attempt: u8, buf: &[u8]) -> (r: EcReply)
    ensures
        r is Accepted <==> accepts(*request, buf@),
        match r {
            EcReply::Accepted(rep) => read_from_wire(rep, buf@),
            _ => r == refusal(*request, attempt, buf@),
        },
{
    let parsed = match Report::response_from_feature_report(request, buf) {
        Ok(p) => p,
        Err(e) => {
            if attempt == 0 {
                return EcReply::Retry;
            }
            return EcReply::Failed(EcFailure::Invalid(e));
        },
    };
    if parsed.status == packet::status::SUCCESS {
        EcReply::Accepted(parsed)
    } else if parsed.status == packet::status::BUSY && attempt == 0 {
        EcReply::Retry
    } else if parsed.status == packet::status::NOT_SUPPORTED {
        EcReply::Failed(EcFailure::Unsupported)
    } else {
        EcReply::Failed(EcFailure::Status(parsed.status))
    }
}

/// What to do when the HID transfer itself failed (a feature report could
/// not be written or read back): the first failure is retried, a second one
/// is reported as it came.
pub fn classify_transfer_error(attempt: u8, error: String) -> (r: EcReply)
    ensures
        r == (if attempt == 0 {
            EcReply::Retry
        } else {
            EcReply::Failed(EcFailure::Transfer(error))
        }),
{
    if attempt == 0 {
        EcReply::Retry
    } else {
        EcReply::Failed(EcFailure::Transfer(error))
    }
}

/// `class/id` of a command, each as `0x` and two hexadecimal digits.
pub open spec fn command_pair(r: Report) -> Seq<char> {
    hex_byte(r.command_class) + "/"@ + hex_byte(r.command_id)
}

/// Why a command failed, as text.
pub open spec fn failure_text(r: Report, f: EcFailure) -> Seq<char> {
    match f {
        EcFailure::Invalid(e) => "invalid EC response for "@ + command_pair(r) + ": "@
            + crate::packet::report_error_text(e),
        EcFailure::Unsupported => "EC rejected command "@ + command_pair(r) + " as unsupported"@,
        EcFailure::Status(s) => "EC status "@ + hex_byte(s) + " for command "@ + command_pair(r),
        EcFailure::Transfer(e) => e@,
    }
}

pub fn failure_message(request: &Report, failure: &EcFailure) -> (r: String)
    ensures
        r@ == failure_text(*request, *failure),
{
    let mut v: Vec<char> = Vec::new();
    match failure {
        EcFailure::Invalid(e) => {
            push_str(&mut v, "invalid EC response for ");
            push_hex_byte(&mut v, request.command_class);
            push_str(&mut v, "/");
            push_hex_byte(&mut v, request.command_id);
            push_str(&mut v, ": ");
            let m = e.message();
            push_chars(&mut v, &chars_of(m.as_str()));
        },
        EcFailure::Unsupported => {
            push_str(&mut v, "EC rejected command ");
            push_hex_byte(&mut v, request.command_class);
            push_str(&mut v, "/");
            push_hex_byte(&mut v, request.command_id);
            push_str(&mut v, " as unsupported");
        },
        EcFailure::Status(st) => {
            push_str(&mut v, "EC status ");
            push_hex_byte(&mut v, *st);
            push_str(&mut v, " for command ");
            push_hex_byte(&mut v, request.command_class);
            push_str(&mut v, "/");
            push_hex_byte(&mut v, request.command_id);
        },
        EcFailure::Transfer(e) => {
            push_chars(&mut v, &chars_of(e.as_str()));
        },
    }
    assert(v@ =~= failure_text(*request, *failure));
    string_of(&v)
}

/// A product id as four lower-case hexadecimal digits (`{pid:04x}`).
pub open spec fn hex4(pid: u16) -> Seq<char> {
    seq![
        hex_char((pid / 4096) as int),
        hex_char(((pid / 256) % 16) as int),
        hex_char(((pid / 16) % 16) as int),
        hex_char((pid % 16) as int),
    ]
}

fn push_hex4(v: &mut Vec<char>, pid: u16)
    ensures
        final(v)@ == old(v)@ + hex4(pid),
{
    let ghost v0 = v@;
    let hi: u8 = (pid / 256) as u8;
    let lo: u8 = (pid % 256) as u8;
    let mut t: Vec<char> = Vec::new();
    push_hex_byte(&mut t, hi);
    push_hex_byte(&mut t, lo);
    v.push(t[2]);
    v.push(t[3]);
    v.push(t[6]);
    v.push(t[7]);
    assert(hi / 16 == pid / 4096 && hi % 16 == (pid / 256) % 16) by (nonlinear_arith)
        requires
            hi == pid / 256,
            pid < 65536,
    ;
    assert(lo / 16 == (pid / 16) % 16 && lo % 16 == pid % 16) by (nonlinear_arith)
        requires
            lo == pid % 256,
            pid < 65536,
    ;
    assert(v@ =~= v0 + hex4(pid));
}

/// The first candidate from `i` on that is not in the model table but
/// exposes a vendor-defined interface: an EC that nobody has approved.
pub open spec fn first_unlisted_ec(c: Seq<(u16, u16)>, i: int) -> Option<int>
    decreases c.len() - i,
{
    if i < 0 || i >= c.len() {
        None
    } else if spec_by_pid(c[i].0) is None && c[i].1 >= 0xFF00 {
        Some(i)
    } else {
        first_unlisted_ec(c, i + 1)
    }
}

pub open spec fn unapproved_ec_text(pid: u16) -> Seq<char> {
    "unrecognized Razer EC interface (pid "@ + hex4(pid)
        + "); controls are disabled by default. Add a verified model entry or explicitly approve this exact PID with FANGD_ALLOW_UNVERIFIED_PID="@
        + hex4(pid)
}

/// Why no laptop EC was chosen among the Razer devices found.
pub open spec fn no_laptop_text(c: Seq<(u16, u16)>) -> Seq<char> {
    if c.len() == 0 {
        "no USB device with Razer vendor id 0x1532"@
    } else {
        match first_unlisted_ec(c, 0) {
            Some(i) => unapproved_ec_text(c[i].0),
            None => "found a Razer USB device but no laptop EC — a Razer mouse or keyboard is not a Blade (add your model's PID to models.rs if this is an unrecognized laptop)"@,
        }
    }
}

/// The message when `choose_laptop` found nothing to control.
pub fn no_laptop_reason(candidates: &[(u16, u16)]) -> (r: String)
    ensures
        r@ == no_laptop_text(candidates@),
{
    if candidates.len() == 0 {
        return String::from_str("no USB device with Razer vendor id 0x1532");
    }
    let mut i: usize = 0;
    while i < candidates.len()
        invariant
            0 <= i <= candidates@.len(),
            first_unlisted_ec(candidates@, 0) == first_unlisted_ec(candidates@, i as int),
        decreases candidates@.len() - i,
    {
        let (pid, usage_page) = candidates[i];
        if by_pid(pid).is_none() && usage_page >= 0xFF00 {
            let mut v = chars_of("unrecognized Razer EC interface (pid ");
            push_hex4(&mut v, pid);
            push_str(
                &mut v,
                "); controls are disabled by default. Add a verified model entry or explicitly approve this exact PID with FANGD_ALLOW_UNVERIFIED_PID=",
            );
            push_hex4(&mut v, pid);
            assert(v@ =~= unapproved_ec_text(pid));
            return string_of(&v);
        }
        i = i + 1;
    }
    String::from_str(
        "found a Razer USB device but no laptop EC — a Razer mouse or keyboard is not a Blade (add your model's PID to models.rs if this is an unrecognized laptop)",
    )
}

/// The name shown for an approved device that is not in the model table.
pub open spec fn unverified_name_text(product: Seq<char>, pid: u16) -> Seq<char> {
    product + " (pid "@ + hex4(pid) + ", unverified)"@
}

pub fn unverified_name(product: &str, pid: u16) -> (r: String)
    ensures
        r@ == unverified_name_text(product@, pid),
{
    let mut v = chars_of(product);
    push_str(&mut v, " (pid ");
    push_hex4(&mut v, pid);
    push_str(&mut v, ", unverified)");
    assert(v@ =~= unverified_name_text(product@, pid));
    string_of(&v)
}

} // verus!
