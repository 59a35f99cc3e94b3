//! Fan policy: RPM normalization, curve validation and interpolation, and
//! the mandatory thermal guard.
//!
//! Temperatures are millidegrees Celsius, the unit hwmon reports.
use vstd::prelude::*;
use crate::api::{FanCurvePoint, FanMode, FanPolicy};
use crate::hw::ModelInfo;

verus! {

/// The thermal guard is deliberately not configurable. It overrides both
/// Manual and Curve control at the model's maximum fan target, then uses
/// lower release thresholds to avoid rapidly toggling around the boundary.
pub const CPU_OVERRIDE_ON_MC: i32 = 95_000;

pub const CPU_OVERRIDE_OFF_MC: i32 = 88_000;

pub const GPU_OVERRIDE_ON_MC: i32 = 87_000;

pub const GPU_OVERRIDE_OFF_MC: i32 = 82_000;

/// Tolerate two isolated read failures, then treat the mandatory CPU sensor
/// as stale. At the 1 Hz control rate this forces max fans within three
/// seconds.
pub const CPU_SENSOR_MISS_LIMIT: u8 = 3;

pub const MIN_CURVE_POINTS: usize = 2;

pub const MAX_CURVE_POINTS: usize = 8;

pub open spec fn clamp(x: int, lo: int, hi: int) -> int {
    if x < lo {
        lo
    } else if x > hi {
        hi
    } else {
        x
    }
}

/// The nearest multiple of 100, halves rounded up.
pub open spec fn round_to_hundred(x: int) -> int {
    ((x + 50) / 100) * 100
}

/// Clamp to the model's range, round to the EC's 100-RPM step, and clamp
/// again so the step never leaves the range.
pub open spec fn spec_normalize_rpm(rpm: u16, min: u16, max: u16) -> u16 {
    clamp(round_to_hundred(clamp(rpm as int, min as int, max as int)), min as int, max as int) as u16
}

pub fn normalize_rpm(rpm: u16, min: u16, max: u16) -> (r: u16)
    requires
        min <= max,
    ensures
        r == spec_normalize_rpm(rpm, min, max),
        min <= r <= max,
{
    let clamped: u16 = if rpm < min {
        min
    } else if rpm > max {
        max
    } else {
        rpm
    };
    let rounded: u32 = ((clamped as u32 + 50) / 100) * 100;
    if rounded < min as u32 {
        min
    } else if rounded > max as u32 {
        max
    } else {
        rounded as u16
    }
}

/// Normalizing an already normalized RPM changes nothing.
pub proof fn lemma_normalize_rpm_idempotent(rpm: u16, min: u16, max: u16)
    requires
        min <= max,
    ensures
        spec_normalize_rpm(spec_normalize_rpm(rpm, min, max), min, max) == spec_normalize_rpm(
            rpm,
            min,
            max,
        ),
{
    let n = spec_normalize_rpm(rpm, min, max) as int;
    let c = clamp(rpm as int, min as int, max as int);
    let r = round_to_hundred(c);
    assert(r % 100 == 0);
    assert(c - 50 < r <= c + 50);
    let r2 = round_to_hundred(n);
    assert(n - 50 < r2 <= n + 50);
    assert(r2 % 100 == 0);
}

/// With limits on the EC's 100-RPM grid, the result is on the grid and at
/// most 50 RPM from the clamped request.
pub proof fn lemma_normalize_rpm_nearest_step(rpm: u16, min: u16, max: u16)
    requires
        min <= max,
        min % 100 == 0,
        max % 100 == 0,
    ensures
        spec_normalize_rpm(rpm, min, max) % 100 == 0,
        -50 < spec_normalize_rpm(rpm, min, max) - clamp(rpm as int, min as int, max as int) <= 50,
{
    let c = clamp(rpm as int, min as int, max as int);
    let r = round_to_hundred(c);
    assert(r % 100 == 0);
    assert(c - 50 < r <= c + 50);
}

/// `t` is present and at least `limit`.
pub open spec fn at_least(t: Option<i32>, limit: i32) -> bool {
    t matches Some(v) && v >= limit
}

/// The guard's next state. When inactive it engages at CPU >= 95 C or
/// GPU >= 87 C. When active it releases only once a reading is present and
/// every present reading is below 88 C (CPU) and 82 C (GPU): if every sensor
/// vanishes while protecting the machine, it stays at max.
pub open spec fn spec_thermal_override_next(active: bool, cpu: Option<i32>, gpu: Option<i32>) -> bool {
    if active {
        (cpu is None && gpu is None) || at_least(cpu, CPU_OVERRIDE_OFF_MC) || at_least(
            gpu,
            GPU_OVERRIDE_OFF_MC,
        )
    } else {
        at_least(cpu, CPU_OVERRIDE_ON_MC) || at_least(gpu, GPU_OVERRIDE_ON_MC)
    }
}

fn reading_at_least(t: Option<i32>, limit: i32) -> (r: bool)
    ensures
        r == at_least(t, limit),
{
    match t {
        Some(v) => v >= limit,
        None => false,
    }
}

pub fn thermal_override_next(active: bool, cpu: Option<i32>, gpu: Option<i32>) -> (r: bool)
    ensures
        r == spec_thermal_override_next(active, cpu, gpu),
{
    if active {
        if cpu.is_none() && gpu.is_none() {
            return true;
        }
        reading_at_least(cpu, CPU_OVERRIDE_OFF_MC) || reading_at_least(gpu, GPU_OVERRIDE_OFF_MC)
    } else {
        reading_at_least(cpu, CPU_OVERRIDE_ON_MC) || reading_at_least(gpu, GPU_OVERRIDE_ON_MC)
    }
}

/// The hotter of the available readings.
pub open spec fn spec_hottest_temp(cpu: Option<i32>, gpu: Option<i32>) -> Option<i32> {
    match (cpu, gpu) {
        (Some(c), Some(g)) => Some(if c >= g { c } else { g }),
        (Some(c), None) => Some(c),
        (None, Some(g)) => Some(g),
        (None, None) => None,
    }
}

pub fn hottest_temp(cpu: Option<i32>, gpu: Option<i32>) -> (r: Option<i32>)
    ensures
        r == spec_hottest_temp(cpu, gpu),
{
    match (cpu, gpu) {
        (Some(c), Some(g)) => Some(if c >= g { c } else { g }),
        (Some(c), None) => Some(c),
        (None, Some(g)) => Some(g),
        (None, None) => None,
    }
}

/// The guard's thresholds, in millidegrees: inactive, it engages exactly
/// when the CPU reads at least 95 C or the GPU at least 87 C. Active, it
/// stays engaged while any present reading is at or above its release
/// threshold (CPU 88 C, GPU 82 C) or no reading is present, and it releases
/// only when a reading is present and every present one is below its
/// release threshold. Whatever engages the guard also keeps it engaged.
pub proof fn lemma_thermal_guard_hysteresis(active: bool, cpu: Option<i32>, gpu: Option<i32>)
    ensures
        !spec_thermal_override_next(false, cpu, gpu) <==> (!(cpu matches Some(c) && c >= 95_000)
            && !(gpu matches Some(g) && g >= 87_000)),
        (cpu matches Some(c) && c >= 88_000) ==> spec_thermal_override_next(true, cpu, gpu),
        (gpu matches Some(g) && g >= 82_000) ==> spec_thermal_override_next(true, cpu, gpu),
        (cpu is None && gpu is None) ==> spec_thermal_override_next(true, cpu, gpu),
        !spec_thermal_override_next(true, cpu, gpu) ==> (cpu is Some || gpu is Some) && (cpu matches Some(
            c,
        ) ==> c < 88_000) && (gpu matches Some(g) ==> g < 82_000),
        spec_thermal_override_next(false, cpu, gpu) ==> spec_thermal_override_next(true, cpu, gpu),
{
}

/// The temperature a curve is evaluated at is the hotter reading: with both
/// present it is one of them and at least each; with one present it is
/// that one; with none there is none.
pub proof fn lemma_hottest_is_the_maximum(cpu: Option<i32>, gpu: Option<i32>)
    ensures
        (cpu is Some && gpu is Some) ==> (spec_hottest_temp(cpu, gpu) matches Some(t)
            && t >= cpu->0 && t >= gpu->0 && (t == cpu->0 || t == gpu->0)),
        (cpu is Some && gpu is None) ==> spec_hottest_temp(cpu, gpu) == cpu,
        (cpu is None && gpu is Some) ==> spec_hottest_temp(cpu, gpu) == gpu,
        (cpu is None && gpu is None) ==> spec_hottest_temp(cpu, gpu) is None,
{
}

/// A point's temperature in millidegrees.
pub open spec fn point_mc(p: FanCurvePoint) -> int {
    p.temp_c * 1000
}

/// Linear interpolation between `lo` and `hi` at `t`, rounded to the nearest
/// RPM (halves up).
pub open spec fn interp(lo: FanCurvePoint, hi: FanCurvePoint, t: int) -> int {
    let span = point_mc(hi) - point_mc(lo);
    let x = t - point_mc(lo);
    (2 * (lo.rpm * (span - x) + hi.rpm * x) + span) / (2 * span)
}

/// The curve's RPM at `t`, looking at segments from point `i` on.
pub open spec fn curve_from(points: Seq<FanCurvePoint>, i: int, t: int) -> int
    decreases points.len() - i,
{
    if i + 1 >= points.len() {
        points.last().rpm as int
    } else if t <= point_mc(points[i + 1]) {
        interp(points[i], points[i + 1], t)
    } else {
        curve_from(points, i + 1, t)
    }
}

/// The curve's RPM at `t`: the first point's RPM at or below its
/// temperature, linear between neighbouring points, the last point's RPM
/// above the last temperature.
pub open spec fn spec_curve_target(points: Seq<FanCurvePoint>, t: int) -> int {
    if t <= point_mc(points[0]) {
        points[0].rpm as int
    } else {
        curve_from(points, 0, t)
    }
}

proof fn lemma_quotient_between(n: int, d: int, lo: int, hi: int)
    requires
        0 < d,
        0 <= lo,
        lo * d <= n,
        n < (hi + 1) * d,
    ensures
        lo <= n / d <= hi,
{
    let q = n / d;
    let r = n % d;
    vstd::arithmetic::div_mod::lemma_fundamental_div_mod(n, d);
    assert(0 <= r < d);
    assert(lo <= q) by (nonlinear_arith)
        requires
            n == d * q + r,
            0 <= r < d,
            lo * d <= n,
            0 < d,
    ;
    assert(q <= hi) by (nonlinear_arith)
        requires
            n == d * q + r,
            0 <= r < d,
            n < (hi + 1) * d,
            0 < d,
    ;
}

pub proof fn lemma_interp_between(lo: FanCurvePoint, hi: FanCurvePoint, t: int)
    requires
        point_mc(lo) < t <= point_mc(hi),
    ensures
        lo.rpm <= hi.rpm ==> lo.rpm <= interp(lo, hi, t) <= hi.rpm,
        hi.rpm <= lo.rpm ==> hi.rpm <= interp(lo, hi, t) <= lo.rpm,
        0 <= interp(lo, hi, t) <= u16::MAX,
{
    let span = point_mc(hi) - point_mc(lo);
    let x = t - point_mc(lo);
    let a = lo.rpm as int;
    let b = hi.rpm as int;
    let num = a * (span - x) + b * x;
    assert(0 < x <= span);
    if a <= b {
        assert(a * span <= num <= b * span) by (nonlinear_arith)
            requires
                0 < x <= span,
                a <= b,
                num == a * (span - x) + b * x,
        ;
        assert(a * (2 * span) <= 2 * num + span < (b + 1) * (2 * span)) by (nonlinear_arith)
            requires
                a * span <= num <= b * span,
                0 < span,
        ;
        lemma_quotient_between(2 * num + span, 2 * span, a, b);
    } else {
        assert(b * span <= num <= a * span) by (nonlinear_arith)
            requires
                0 < x <= span,
                b <= a,
                num == a * (span - x) + b * x,
        ;
        assert(b * (2 * span) <= 2 * num + span < (a + 1) * (2 * span)) by (nonlinear_arith)
            requires
                b * span <= num <= a * span,
                0 < span,
        ;
        lemma_quotient_between(2 * num + span, 2 * span, b, a);
    }
}

fn interpolate(lo: FanCurvePoint, hi: FanCurvePoint, t: i32) -> (r: u16)
    requires
        point_mc(lo) < t <= point_mc(hi),
    ensures
        r == interp(lo, hi, t as int),
{
    proof {
        lemma_interp_between(lo, hi, t as int);
    }
    let span: u64 = (hi.temp_c as u64 - lo.temp_c as u64) * 1000;
    let x: u64 = (t as i64 - lo.temp_c as i64 * 1000) as u64;
    let a = lo.rpm as u64;
    let b = hi.rpm as u64;
    assert(a * (span - x) <= 65535 * 255000) by (nonlinear_arith)
        requires
            a <= 65535,
            x <= span <= 255000,
    ;
    assert(b * x <= 65535 * 255000) by (nonlinear_arith)
        requires
            b <= 65535,
            x <= span <= 255000,
    ;
    let num: u64 = a * (span - x) + b * x;
    let q: u64 = (2 * num + span) / (2 * span);
    q as u16
}

pub fn curve_target(points: &Vec<FanCurvePoint>, temp_mc: i32) -> (r: u16)
    requires
        points@.len() >= 1,
    ensures
        r == spec_curve_target(points@, temp_mc as int),
{
    let first = points[0];
    if temp_mc as i64 <= first.temp_c as i64 * 1000 {
        return first.rpm;
    }
    let mut i: usize = 0;
    while i < points.len() - 1
        invariant
            points@.len() >= 1,
            0 <= i < points@.len(),
            temp_mc > point_mc(points@[i as int]),
            spec_curve_target(points@, temp_mc as int) == curve_from(points@, i as int, temp_mc as int),
        decreases points@.len() - i,
    {
        let low = points[i];
        let high = points[i + 1];
        if temp_mc as i64 <= high.temp_c as i64 * 1000 {
            return interpolate(low, high, temp_mc);
        }
        i = i + 1;
    }
    points[points.len() - 1].rpm
}

/// Temperatures strictly increasing along the curve.
pub open spec fn increasing_temps(points: Seq<FanCurvePoint>) -> bool {
    forall|i: int, j: int| 0 <= i < j < points.len() ==> #[trigger] points[i].temp_c < #[trigger] points[j].temp_c
}

proof fn lemma_curve_from_segment(points: Seq<FanCurvePoint>, i: int, k: int, t: int)
    requires
        increasing_temps(points),
        0 <= i <= k,
        k + 1 < points.len(),
        point_mc(points[k]) < t <= point_mc(points[k + 1]),
    ensures
        curve_from(points, i, t) == interp(points[k], points[k + 1], t),
    decreases k - i,
{
    if i < k {
        assert(points[i + 1].temp_c <= points[k].temp_c);
        lemma_curve_from_segment(points, i + 1, k, t);
    }
}

proof fn lemma_curve_from_beyond(points: Seq<FanCurvePoint>, i: int, t: int)
    requires
        increasing_temps(points),
        0 <= i < points.len(),
        t > point_mc(points.last()),
    ensures
        curve_from(points, i, t) == points.last().rpm,
    decreases points.len() - i,
{
    if i + 1 < points.len() {
        assert(points[i + 1].temp_c <= points.last().temp_c);
        lemma_curve_from_beyond(points, i + 1, t);
    }
}

/// What a curve of increasing temperatures gives: the first point's RPM at
/// or below its temperature, the last point's RPM above the last
/// temperature, exactly each point's RPM at its temperature, and between
/// two neighbouring points an RPM between theirs.
pub proof fn lemma_curve_follows_its_points(points: Seq<FanCurvePoint>, k: int, t: int)
    requires
        points.len() >= 1,
        increasing_temps(points),
        0 <= k < points.len(),
    ensures
        t <= points[0].temp_c * 1000 ==> spec_curve_target(points, t) == points[0].rpm,
        t > points.last().temp_c * 1000 ==> spec_curve_target(points, t) == points.last().rpm,
        spec_curve_target(points, points[k].temp_c * 1000) == points[k].rpm,
        (k + 1 < points.len() && points[k].temp_c * 1000 < t <= points[k + 1].temp_c * 1000) ==> {
            let v = spec_curve_target(points, t);
            &&& points[k].rpm <= points[k + 1].rpm ==> points[k].rpm <= v <= points[k + 1].rpm
            &&& points[k + 1].rpm <= points[k].rpm ==> points[k + 1].rpm <= v <= points[k].rpm
        },
{
    if t > point_mc(points.last()) {
        if points.len() > 1 {
            assert(points[0].temp_c < points.last().temp_c);
        }
        lemma_curve_from_beyond(points, 0, t);
    }
    if k > 0 {
        let tk = point_mc(points[k]);
        assert(points[0].temp_c < points[k].temp_c);
        lemma_curve_from_segment(points, 0, k - 1, tk);
        let lo = points[k - 1];
        let hi = points[k];
        let span = point_mc(hi) - point_mc(lo);
        let b = hi.rpm as int;
        assert(span > 0);
        assert(interp(lo, hi, tk) == (2 * (lo.rpm * 0 + b * span) + span) / (2 * span));
        assert(2 * (lo.rpm * 0 + b * span) + span == (2 * b + 1) * span) by (nonlinear_arith);
        assert(b * (2 * span) <= (2 * b + 1) * span < (b + 1) * (2 * span)) by (nonlinear_arith)
            requires
                span > 0,
                b >= 0,
        ;
        lemma_quotient_between((2 * b + 1) * span, 2 * span, b, b);
    }
    if k + 1 < points.len() && point_mc(points[k]) < t <= point_mc(points[k + 1]) {
        assert(points[0].temp_c <= points[k].temp_c);
        lemma_curve_from_segment(points, 0, k, t);
        lemma_interp_between(points[k], points[k + 1], t);
    }
}

/// Why a fan policy was refused.
#[derive(Clone, Copy, Debug, PartialEq, Eq, Structural)]
pub enum FanError {
    NoDevice,
    PointCount,
    TemperatureRange,
    NotIncreasing,
    RpmDecreasing,
}

impl FanError {
    /// The message shown to clients.
    pub open spec fn text(self) -> Seq<char> {
        match self {
            FanError::NoDevice => "fan control is unavailable without a Razer device"@,
            FanError::PointCount => "fan curve needs 2..=8 points"@,
            FanError::TemperatureRange => "fan-curve temperatures must be between 30 and 100 C"@,
            FanError::NotIncreasing => "fan-curve temperatures must be strictly increasing"@,
            FanError::RpmDecreasing => "fan-curve RPM must not decrease as temperature rises"@,
        }
    }

    pub fn message(&self) -> (r: String)
        ensures
            r@ == self.text(),
    {
        match self {
            FanError::NoDevice => String::from_str("fan control is unavailable without a Razer device"),
            FanError::PointCount => String::from_str("fan curve needs 2..=8 points"),
            FanError::TemperatureRange => String::from_str(
                "fan-curve temperatures must be between 30 and 100 C",
            ),
            FanError::NotIncreasing => String::from_str(
                "fan-curve temperatures must be strictly increasing",
            ),
            FanError::RpmDecreasing => String::from_str(
                "fan-curve RPM must not decrease as temperature rises",
            ),
        }
    }
}

/// A curve point with its RPM normalized to the model's limits.
pub open spec fn norm_point(p: FanCurvePoint, min: u16, max: u16) -> FanCurvePoint {
    FanCurvePoint { temp_c: p.temp_c, rpm: spec_normalize_rpm(p.rpm, min, max) }
}

pub open spec fn norm_points(points: Seq<FanCurvePoint>, min: u16, max: u16) -> Seq<FanCurvePoint> {
    points.map_values(|p: FanCurvePoint| norm_point(p, min, max))
}

/// What is wrong with point `i` of a curve, given the point before it.
pub open spec fn point_error(points: Seq<FanCurvePoint>, i: int, min: u16, max: u16) -> Option<FanError> {
    if !(30 <= points[i].temp_c <= 100) {
        Some(FanError::TemperatureRange)
    } else if i > 0 && points[i].temp_c <= points[i - 1].temp_c {
        Some(FanError::NotIncreasing)
    } else if i > 0 && spec_normalize_rpm(points[i].rpm, min, max) < spec_normalize_rpm(
        points[i - 1].rpm,
        min,
        max,
    ) {
        Some(FanError::RpmDecreasing)
    } else {
        None
    }
}

/// The first error among points `i..`, checked in order.
pub open spec fn first_point_error(points: Seq<FanCurvePoint>, i: int, min: u16, max: u16) -> Option<FanError>
    decreases points.len() - i,
{
    if i >= points.len() || i < 0 {
        None
    } else if point_error(points, i, min, max) is Some {
        point_error(points, i, min, max)
    } else {
        first_point_error(points, i + 1, min, max)
    }
}

/// The policy a model accepts for a request: Auto always; Manual and Curve
/// only with a device, with RPMs normalized to the model's limits, and a
/// curve only with 2..=8 points at 30..=100 C, strictly increasing in
/// temperature and not decreasing in RPM.
pub open spec fn spec_normalize_fan(fan: FanPolicy, info: ModelInfo) -> Result<FanPolicy, FanError> {
    match fan {
        FanPolicy::Auto => Ok(FanPolicy::Auto),
        FanPolicy::Manual { rpm } => if !info.device_present {
            Err(FanError::NoDevice)
        } else {
            Ok(
                FanPolicy::Manual {
                    rpm: spec_normalize_rpm(rpm, info.fan_rpm_min, info.fan_rpm_max),
                },
            )
        },
        FanPolicy::Curve { points } => if !info.device_present {
            Err(FanError::NoDevice)
        } else if !(MIN_CURVE_POINTS <= points.len() <= MAX_CURVE_POINTS) {
            Err(FanError::PointCount)
        } else if first_point_error(points, 0, info.fan_rpm_min, info.fan_rpm_max) is Some {
            Err(first_point_error(points, 0, info.fan_rpm_min, info.fan_rpm_max)->0)
        } else {
            Ok(
                FanPolicy::Curve {
                    points: norm_points(points, info.fan_rpm_min, info.fan_rpm_max),
                },
            )
        },
    }
}

proof fn lemma_first_point_error_none(points: Seq<FanCurvePoint>, i: int, min: u16, max: u16)
    requires
        0 <= i,
        first_point_error(points, i, min, max) is None,
    ensures
        forall|j: int| i <= j < points.len() ==> point_error(points, j, min, max) is None,
    decreases points.len() - i,
{
    if i < points.len() {
        lemma_first_point_error_none(points, i + 1, min, max);
    }
}

proof fn lemma_first_point_error_prefix(points: Seq<FanCurvePoint>, i: int, k: int, min: u16, max: u16)
    requires
        0 <= i <= k <= points.len(),
        forall|j: int| i <= j < k ==> point_error(points, j, min, max) is None,
    ensures
        first_point_error(points, i, min, max) == first_point_error(points, k, min, max),
    decreases k - i,
{
    if i < k {
        lemma_first_point_error_prefix(points, i + 1, k, min, max);
    }
}

pub fn normalize_fan(fan: &FanMode, info: &ModelInfo) -> (r: Result<FanMode, FanError>)
    requires
        info.wf(),
    ensures
        match (r, spec_normalize_fan(fan@, *info)) {
            (Ok(f), Ok(g)) => f@ == g,
            (Err(e), Err(g)) => e == g,
            _ => false,
        },
{
    if !info.device_present {
        return match fan {
            FanMode::Auto => Ok(FanMode::Auto),
            _ => Err(FanError::NoDevice),
        };
    }
    match fan {
        FanMode::Auto => Ok(FanMode::Auto),
        FanMode::Manual { rpm } => Ok(
            FanMode::Manual { rpm: normalize_rpm(*rpm, info.fan_rpm_min, info.fan_rpm_max) },
        ),
        FanMode::Curve { points } => {
            if points.len() < MIN_CURVE_POINTS || points.len() > MAX_CURVE_POINTS {
                return Err(FanError::PointCount);
            }
            let min = info.fan_rpm_min;
            let max = info.fan_rpm_max;
            let ghost ps = points@;
            let mut normalized: Vec<FanCurvePoint> = Vec::new();
            let mut i: usize = 0;
            while i < points.len()
                invariant
                    ps == points@,
                    fan@ == (FanPolicy::Curve { points: ps }),
                    info.device_present,
                    min == info.fan_rpm_min,
                    max == info.fan_rpm_max,
                    MIN_CURVE_POINTS <= ps.len() <= MAX_CURVE_POINTS,
                    min <= max,
                    0 <= i <= ps.len(),
                    normalized@ == norm_points(ps, min, max).subrange(0, i as int),
                    forall|j: int| 0 <= j < i ==> point_error(ps, j, min, max) is None,
                decreases ps.len() - i,
            {
                let point = points[i];
                if point.temp_c < 30 || point.temp_c > 100 {
                    assert(point_error(ps, i as int, min, max) == Some(FanError::TemperatureRange));
                    proof {
                        lemma_first_point_error_prefix(ps, 0, i as int, min, max);
                    }
                    return Err(FanError::TemperatureRange);
                }
                let np = FanCurvePoint {
                    temp_c: point.temp_c,
                    rpm: normalize_rpm(point.rpm, min, max),
                };
                if i > 0 {
                    let previous = normalized[i - 1];
                    assert(previous == norm_point(ps[i - 1], min, max));
                    if np.temp_c <= previous.temp_c {
                        proof {
                            lemma_first_point_error_prefix(ps, 0, i as int, min, max);
                        }
                        return Err(FanError::NotIncreasing);
                    }
                    if np.rpm < previous.rpm {
                        proof {
                            lemma_first_point_error_prefix(ps, 0, i as int, min, max);
                        }
                        return Err(FanError::RpmDecreasing);
                    }
                }
                normalized.push(np);
                i = i + 1;
                assert(normalized@ =~= norm_points(ps, min, max).subrange(0, i as int));
            }
            proof {
                lemma_first_point_error_prefix(ps, 0, ps.len() as int, min, max);
                assert(norm_points(ps, min, max).subrange(0, ps.len() as int) =~= norm_points(
                    ps,
                    min,
                    max,
                ));
            }
            Ok(FanMode::Curve { points: normalized })
        },
    }
}


/// An RPM the EC accepts for the model: within its limits and left as is
/// by normalization.
pub open spec fn normal_rpm(rpm: u16, min: u16, max: u16) -> bool {
    min <= rpm <= max && spec_normalize_rpm(rpm, min, max) == rpm
}

/// A policy the model can run: Auto; Manual at a normal RPM; or a curve of
/// 2..=8 points at 30..=100 C, strictly increasing in temperature, with
/// normal RPMs that never decrease.
pub open spec fn valid_policy(p: FanPolicy, info: ModelInfo) -> bool {
    match p {
        FanPolicy::Auto => true,
        FanPolicy::Manual { rpm } => info.device_present && normal_rpm(
            rpm,
            info.fan_rpm_min,
            info.fan_rpm_max,
        ),
        FanPolicy::Curve { points } => {
            &&& info.device_present
            &&& MIN_CURVE_POINTS <= points.len() <= MAX_CURVE_POINTS
            &&& forall|i: int|
                0 <= i < points.len() ==> 30 <= #[trigger] points[i].temp_c <= 100 && normal_rpm(
                    points[i].rpm,
                    info.fan_rpm_min,
                    info.fan_rpm_max,
                )
            &&& forall|i: int, j: int|
                0 <= i < j < points.len() ==> #[trigger] points[i].temp_c < #[trigger] points[j].temp_c
                    && points[i].rpm <= points[j].rpm
        },
    }
}

proof fn lemma_normal_after_normalize(rpm: u16, min: u16, max: u16)
    requires
        min <= max,
    ensures
        normal_rpm(spec_normalize_rpm(rpm, min, max), min, max),
{
    lemma_normalize_rpm_idempotent(rpm, min, max);
}

proof fn lemma_chain_increasing(ps: Seq<FanCurvePoint>, min: u16, max: u16, i: int, j: int)
    requires
        min <= max,
        forall|k: int| 0 <= k < ps.len() ==> point_error(ps, k, min, max) is None,
        0 <= i < j < ps.len(),
    ensures
        ps[i].temp_c < ps[j].temp_c,
        spec_normalize_rpm(ps[i].rpm, min, max) <= spec_normalize_rpm(ps[j].rpm, min, max),
    decreases j - i,
{
    assert(point_error(ps, j, min, max) is None);
    if i < j - 1 {
        lemma_chain_increasing(ps, min, max, i, j - 1);
    }
}

/// Every policy the daemon accepts can run on the model: normalization only
/// ever yields a valid policy.
pub proof fn lemma_normalize_fan_valid(fan: FanPolicy, info: ModelInfo)
    requires
        info.wf(),
        spec_normalize_fan(fan, info) is Ok,
    ensures
        valid_policy(spec_normalize_fan(fan, info)->Ok_0, info),
{
    let min = info.fan_rpm_min;
    let max = info.fan_rpm_max;
    match fan {
        FanPolicy::Auto => {},
        FanPolicy::Manual { rpm } => {
            lemma_normal_after_normalize(rpm, min, max);
        },
        FanPolicy::Curve { points } => {
            lemma_first_point_error_none(points, 0, min, max);
            let np = norm_points(points, min, max);
            assert forall|i: int| 0 <= i < np.len() implies 30 <= #[trigger] np[i].temp_c <= 100
                && normal_rpm(np[i].rpm, min, max) by {
                assert(point_error(points, i, min, max) is None);
                lemma_normal_after_normalize(points[i].rpm, min, max);
            }
            assert forall|i: int, j: int|
                0 <= i < j < np.len() implies #[trigger] np[i].temp_c < #[trigger] np[j].temp_c
                && np[i].rpm <= np[j].rpm by {
                lemma_chain_increasing(points, min, max, i, j);
            }
        },
    }
}

/// Every policy the model can already run is accepted as it is: curves
/// with flat segments included, since RPM must only not decrease.
pub proof fn lemma_normalize_fan_accepts_valid(fan: FanPolicy, info: ModelInfo)
    requires
        info.wf(),
        valid_policy(fan, info),
    ensures
        spec_normalize_fan(fan, info) == Ok::<FanPolicy, FanError>(fan),
{
    let min = info.fan_rpm_min;
    let max = info.fan_rpm_max;
    match fan {
        FanPolicy::Auto => {},
        FanPolicy::Manual { rpm } => {},
        FanPolicy::Curve { points } => {
            assert forall|k: int| 0 <= k < points.len() implies point_error(points, k, min, max) is None by {
                assert(30 <= points[k].temp_c <= 100);
                if k > 0 {
                    assert(points[k - 1].temp_c < points[k].temp_c && points[k - 1].rpm <= points[k].rpm);
                    assert(normal_rpm(points[k - 1].rpm, min, max));
                    assert(normal_rpm(points[k].rpm, min, max));
                }
            }
            lemma_first_point_error_prefix(points, 0, points.len() as int, min, max);
            assert forall|k: int| 0 <= k < points.len() implies #[trigger] norm_point(points[k], min, max) == points[k] by {
                assert(30 <= points[k].temp_c <= 100);
            }
            assert(norm_points(points, min, max) =~= points);
        },
    }
}

/// Normalizing an accepted policy again accepts it unchanged.
pub proof fn lemma_normalize_fan_idempotent(fan: FanPolicy, info: ModelInfo)
    requires
        info.wf(),
        spec_normalize_fan(fan, info) is Ok,
    ensures
        spec_normalize_fan(spec_normalize_fan(fan, info)->Ok_0, info) == spec_normalize_fan(fan, info),
{
    let min = info.fan_rpm_min;
    let max = info.fan_rpm_max;
    lemma_normalize_fan_valid(fan, info);
    match fan {
        FanPolicy::Auto => {},
        FanPolicy::Manual { rpm } => {
            lemma_normalize_rpm_idempotent(rpm, min, max);
        },
        FanPolicy::Curve { points } => {
            let np = norm_points(points, min, max);
            assert forall|k: int| 0 <= k < np.len() implies point_error(np, k, min, max) is None by {
                if k > 0 {
                    assert(np[k - 1].temp_c < np[k].temp_c);
                    assert(np[k - 1].rpm <= np[k].rpm);
                }
            }
            lemma_first_point_error_prefix(np, 0, np.len() as int, min, max);
            assert(norm_points(np, min, max) =~= np);
        },
    }
}

} // verus!
