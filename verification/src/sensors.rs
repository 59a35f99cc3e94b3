//! Telemetry sources: which sysfs entries are CPU temperature, CPU package
//! energy and the NVIDIA GPU, how their values read, and when the GPU may
//! be queried without waking it. Reading the files is left to the caller.
use vstd::prelude::*;
use crate::text::{
    chars_of, contains, contains_str, eq_str, parse_unsigned, starts_with, strip_prefix, trim,
    trimmed, unsigned_value,
};

verus! {

/// Whether to ask NVML about the GPU. Runtime-PM `auto` lets an idle
/// dGPU suspend; querying it would wake it, so it is queried only while
/// `active` and in use (`runtime_usage` other than 0). With runtime PM off
/// it is always queried.
pub open spec fn should_query_gpu_spec(control: Seq<char>, status: Seq<char>, usage: Seq<char>) -> bool {
    control != "auto"@ || (status == "active"@ && unsigned_value(usage, 10) != Some(0int))
}

pub fn should_query_gpu(control: &str, status: &str, usage: &str) -> (r: bool)
    ensures
        r == should_query_gpu_spec(control@, status@, usage@),
{
    let c = chars_of(control);
    if !eq_str(&c, "auto") {
        return true;
    }
    let s = chars_of(status);
    if !eq_str(&s, "active") {
        return false;
    }
    match parse_unsigned(&chars_of(usage), 10, u64::MAX) {
        Some(u) => u > 0,
        None => true,
    }
}

/// Energy used between two readings of a RAPL counter that wraps after
/// `max`.
pub open spec fn energy_delta_spec(uj: u64, prev_uj: u64, max: u64) -> int {
    if uj >= prev_uj {
        uj - prev_uj
    } else {
        max - prev_uj + uj
    }
}

pub fn energy_delta(uj: u64, prev_uj: u64, max: u64) -> (r: u64)
    requires
        uj < prev_uj ==> prev_uj <= max,
    ensures
        r == energy_delta_spec(uj, prev_uj, max),
{
    if uj >= prev_uj {
        uj - prev_uj
    } else {
        max - prev_uj + uj
    }
}

/// A hwmon chip that reports the CPU package temperature.
pub open spec fn is_cpu_hwmon_spec(name: Seq<char>) -> bool {
    let n = trim(name);
    n == "coretemp"@ || n == "k10temp"@ || n == "zenpower"@
}

pub fn is_cpu_hwmon(name: &str) -> (r: bool)
    ensures
        r == is_cpu_hwmon_spec(name@),
{
    let n = trimmed(&chars_of(name));
    eq_str(&n, "coretemp") || eq_str(&n, "k10temp") || eq_str(&n, "zenpower")
}

/// A temperature label naming the whole package (Intel `Package id 0`,
/// AMD `Tctl`/`Tdie`).
pub open spec fn is_package_label_spec(label: Seq<char>) -> bool {
    let l = trim(label);
    starts_with(l, "Package"@) || l == "Tctl"@ || l == "Tdie"@
}

pub fn is_package_label(label: &str) -> (r: bool)
    ensures
        r == is_package_label_spec(label@),
{
    let l = trimmed(&chars_of(label));
    strip_prefix(&l, "Package").is_some() || eq_str(&l, "Tctl") || eq_str(&l, "Tdie")
}

/// A PCI function that is an NVIDIA display controller.
pub open spec fn is_nvidia_gpu_spec(vendor: Seq<char>, class: Seq<char>) -> bool {
    trim(vendor) == "0x10de"@ && starts_with(trim(class), "0x03"@)
}

pub fn is_nvidia_gpu(vendor: &str, class: &str) -> (r: bool)
    ensures
        r == is_nvidia_gpu_spec(vendor@, class@),
{
    eq_str(&trimmed(&chars_of(vendor)), "0x10de") && strip_prefix(
        &trimmed(&chars_of(class)),
        "0x03",
    ).is_some()
}

/// A powercap zone that is the CPU package's RAPL counter: named
/// `package-0`, and not the MMIO duplicate.
pub open spec fn is_package_zone_spec(dir_name: Seq<char>, name: Seq<char>) -> bool {
    !contains(dir_name, "mmio"@) && trim(name) == "package-0"@
}

pub fn is_package_zone(dir_name: &str, name: &str) -> (r: bool)
    ensures
        r == is_package_zone_spec(dir_name@, name@),
{
    !contains_str(&chars_of(dir_name), "mmio") && eq_str(&trimmed(&chars_of(name)), "package-0")
}

/// A hwmon temperature in millidegrees Celsius: an optional sign, then
/// decimal digits.
pub open spec fn millidegrees_spec(text: Seq<char>) -> Option<int> {
    let t = trim(text);
    if t.len() > 0 && t[0] == '-' {
        match unsigned_value(t.skip(1), 10) {
            Some(v) => if t.len() > 1 && t[1] != '+' && v <= 0x8000_0000 {
                Some(-v)
            } else {
                None
            },
            None => None,
        }
    } else {
        match unsigned_value(t, 10) {
            Some(v) => if v <= 0x7fff_ffff {
                Some(v)
            } else {
                None
            },
            None => None,
        }
    }
}

/// Parse a hwmon temperature file.
pub fn parse_millidegrees(text: &str) -> (r: Option<i32>)
    ensures
        match millidegrees_spec(text@) {
            Some(v) => r == Some(v as i32),
            None => r is None,
        },
{
    let t = trimmed(&chars_of(text));
    if t.len() > 0 && t[0] == '-' {
        if t.len() > 1 && t[1] == '+' {
            return None;
        }
        let rest = crate::text::slice_chars(&t, 1, t.len());
        assert(rest@ =~= t@.skip(1));
        match parse_unsigned(&rest, 10, 0x8000_0000) {
            Some(v) => {
                if v == 0x8000_0000 {
                    Some(i32::MIN)
                } else {
                    let x: i32 = v as i32;
                    Some(-x)
                }
            },
            None => None,
        }
    } else {
        match parse_unsigned(&t, 10, 0x7fff_ffff) {
            Some(v) => Some(v as i32),
            None => None,
        }
    }
}

} // verus!
