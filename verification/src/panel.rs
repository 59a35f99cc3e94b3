//! Internal laptop-panel backlight brightness: which sysfs backlight is the
//! panel's, and the arithmetic between raw levels and percent. Reading
//! sysfs and calling logind's `SetBrightness` are left to the caller.
use vstd::prelude::*;
use crate::text::{chars_of, eq_str, starts_with, string_of, strip_prefix, trim, trimmed, unsigned_value};

verus! {

/// What the panel page shows.
#[derive(Clone, Debug, Default)]
pub struct PanelInfo {
    pub supported: bool,
    /// Backlight level as a percentage (0..=100).
    pub brightness: u8,
    /// Filled when unsupported.
    pub hint: String,
}

/// A backlight device under `/sys/class/backlight`: its name and the text
/// of its `max_brightness` file, `None` when that could not be read.
pub struct BacklightEntry {
    pub name: String,
    pub max_brightness: Option<String>,
}

/// The usable maximum of an entry: a positive `u32`.
pub open spec fn entry_max(e: BacklightEntry) -> Option<u32> {
    match e.max_brightness {
        None => None,
        Some(t) => match unsigned_value(trim(t@), 10) {
            Some(v) => if 0 < v <= u32::MAX {
                Some(v as u32)
            } else {
                None
            },
            None => None,
        },
    }
}

/// The panel controllers preferred over a dGPU's own backlight.
pub open spec fn preferred(k: int) -> Seq<char> {
    if k == 0 {
        "intel_backlight"@
    } else if k == 1 {
        "amdgpu_bl1"@
    } else if k == 2 {
        "amdgpu_bl0"@
    } else {
        "acpi_video0"@
    }
}

/// The first usable entry from `i` on that `ok` accepts.
pub open spec fn first_usable(es: Seq<BacklightEntry>, i: int, ok: spec_fn(Seq<char>) -> bool) -> Option<int>
    decreases es.len() - i,
{
    if i < 0 || i >= es.len() {
        None
    } else if entry_max(es[i]) is Some && ok(es[i].name@) {
        Some(i)
    } else {
        first_usable(es, i + 1, ok)
    }
}

/// The panel's backlight: the first preferred controller present (in the
/// order intel, amdgpu_bl1, amdgpu_bl0, acpi_video0), else the first
/// usable one not named `nvidia*`, else the first usable one.
pub open spec fn choose_backlight_spec(es: Seq<BacklightEntry>) -> Option<int> {
    if first_usable(es, 0, |n: Seq<char>| n == preferred(0)) is Some {
        first_usable(es, 0, |n: Seq<char>| n == preferred(0))
    } else if first_usable(es, 0, |n: Seq<char>| n == preferred(1)) is Some {
        first_usable(es, 0, |n: Seq<char>| n == preferred(1))
    } else if first_usable(es, 0, |n: Seq<char>| n == preferred(2)) is Some {
        first_usable(es, 0, |n: Seq<char>| n == preferred(2))
    } else if first_usable(es, 0, |n: Seq<char>| n == preferred(3)) is Some {
        first_usable(es, 0, |n: Seq<char>| n == preferred(3))
    } else if first_usable(es, 0, |n: Seq<char>| !starts_with(n, "nvidia"@)) is Some {
        first_usable(es, 0, |n: Seq<char>| !starts_with(n, "nvidia"@))
    } else {
        first_usable(es, 0, |n: Seq<char>| true)
    }
}

fn max_of(e: &BacklightEntry) -> (r: Option<u32>)
    ensures
        r == entry_max(*e),
{
    match &e.max_brightness {
        None => None,
        Some(t) => match crate::text::parse_unsigned(&trimmed(&chars_of(t.as_str())), 10, 0xffff_ffff) {
            Some(v) => if v > 0 {
                Some(v as u32)
            } else {
                None
            },
            None => None,
        },
    }
}

/// Which names a search accepts: one preferred name, or any name that is
/// not `nvidia*` (`which == 4`), or any name (`which == 5`).
pub open spec fn accepts(which: int, n: Seq<char>) -> bool {
    if which < 4 {
        n == preferred(which)
    } else if which == 4 {
        !starts_with(n, "nvidia"@)
    } else {
        true
    }
}

fn accepts_name(which: usize, name: &String) -> (r: bool)
    requires
        which <= 5,
    ensures
        r == accepts(which as int, name@),
{
    let n = chars_of(name.as_str());
    if which == 0 {
        eq_str(&n, "intel_backlight")
    } else if which == 1 {
        eq_str(&n, "amdgpu_bl1")
    } else if which == 2 {
        eq_str(&n, "amdgpu_bl0")
    } else if which == 3 {
        eq_str(&n, "acpi_video0")
    } else if which == 4 {
        strip_prefix(&n, "nvidia").is_none()
    } else {
        true
    }
}

fn search(es: &Vec<BacklightEntry>, which: usize) -> (r: Option<usize>)
    requires
        which <= 5,
    ensures
        match first_usable(es@, 0, |n: Seq<char>| accepts(which as int, n)) {
            Some(i) => r == Some(i as usize) && i < es@.len(),
            None => r is None,
        },
{
    let ghost ok = |n: Seq<char>| accepts(which as int, n);
    let mut i: usize = 0;
    while i < es.len()
        invariant
            which <= 5,
            ok == (|n: Seq<char>| accepts(which as int, n)),
            0 <= i <= es@.len(),
            first_usable(es@, 0, ok) == first_usable(es@, i as int, ok),
        decreases es@.len() - i,
    {
        if max_of(&es[i]).is_some() && accepts_name(which, &es[i].name) {
            return Some(i);
        }
        i = i + 1;
    }
    None
}

/// The panel's backlight entry, by index.
pub fn choose_backlight(es: &Vec<BacklightEntry>) -> (r: Option<usize>)
    ensures
        match choose_backlight_spec(es@) {
            Some(i) => r == Some(i as usize) && i < es@.len(),
            None => r is None,
        },
{
    let mut which: usize = 0;
    proof {
        assert((|n: Seq<char>| accepts(0, n)) =~= (|n: Seq<char>| n == preferred(0)));
        assert((|n: Seq<char>| accepts(1, n)) =~= (|n: Seq<char>| n == preferred(1)));
        assert((|n: Seq<char>| accepts(2, n)) =~= (|n: Seq<char>| n == preferred(2)));
        assert((|n: Seq<char>| accepts(3, n)) =~= (|n: Seq<char>| n == preferred(3)));
        assert((|n: Seq<char>| accepts(4, n)) =~= (|n: Seq<char>| !starts_with(n, "nvidia"@)));
        assert((|n: Seq<char>| accepts(5, n)) =~= (|n: Seq<char>| true));
    }
    let a = search(es, 0);
    if a.is_some() {
        return a;
    }
    let b = search(es, 1);
    if b.is_some() {
        return b;
    }
    let c = search(es, 2);
    if c.is_some() {
        return c;
    }
    let d = search(es, 3);
    if d.is_some() {
        return d;
    }
    let e = search(es, 4);
    if e.is_some() {
        return e;
    }
    search(es, 5)
}

/// The backlight level in percent, rounded to nearest.
pub open spec fn percent_spec(cur: u32, max: u32) -> int {
    let c = if cur < max {
        cur as int
    } else {
        max as int
    };
    (c * 100 + max / 2) / (max as int)
}

/// The arithmetic of `percent` stays within `u32`.
pub open spec fn percent_fits(cur: u32, max: u32) -> bool {
    (if cur < max {
        cur as int
    } else {
        max as int
    }) * 100 + max / 2 <= u32::MAX
}

pub fn percent(cur: u32, max: u32) -> (r: u8)
    requires
        max > 0,
        percent_fits(cur, max),
    ensures
        r == percent_spec(cur, max),
        r <= 100,
{
    let c: u32 = if cur < max {
        cur
    } else {
        max
    };
    let v: u32 = (c * 100 + max / 2) / max;
    assert(v <= 100) by (nonlinear_arith)
        requires
            v == (c * 100 + max / 2) / (max as int),
            c <= max,
            max > 0,
    ;
    v as u8
}

/// The panel as reported: its backlight level, or the hint that there is
/// none. `backlight` is the chosen device's name and maximum, `raw` its
/// current level when readable.
pub fn get(backlight: Option<(String, u32)>, raw: Option<u32>) -> (r: PanelInfo)
    requires
        backlight matches Some(b) ==> 0 < b.1 && percent_fits(
            match raw {
                Some(c) => c,
                None => 0,
            },
            b.1,
        ),
    ensures
        match backlight {
            None => !r.supported && r.brightness == 0 && r.hint@
                == "No internal panel backlight found."@,
            Some((_, max)) => r.supported && r.hint@ == Seq::<char>::empty() && r.brightness
                == percent_spec(
                match raw {
                    Some(c) => c,
                    None => 0,
                },
                max,
            ),
        },
{
    match backlight {
        None => PanelInfo {
            supported: false,
            brightness: 0,
            hint: String::from_str("No internal panel backlight found."),
        },
        Some((_, max)) => {
            let cur = match raw {
                Some(c) => c,
                None => 0,
            };
            PanelInfo { supported: true, brightness: percent(cur, max), hint: String::new() }
        },
    }
}

/// The raw level for `percent`, never fully dark: the percent is clamped
/// to 5..=100 and the level is at least 1.
pub open spec fn raw_level_spec(percent: u8, max: u32) -> int {
    let p = if percent < 5 {
        5
    } else if percent > 100 {
        100
    } else {
        percent as int
    };
    let raw = p * max / 100;
    if raw < 1 {
        1
    } else {
        raw
    }
}

/// The arithmetic of `raw_level` stays within `u32`.
pub open spec fn raw_fits(percent: u8, max: u32) -> bool {
    (if percent < 5 {
        5
    } else if percent > 100 {
        100
    } else {
        percent as int
    }) * max <= u32::MAX
}

pub fn raw_level(percent: u8, max: u32) -> (r: u32)
    requires
        raw_fits(percent, max),
    ensures
        r == raw_level_spec(percent, max),
{
    let p: u32 = if percent < 5 {
        5
    } else if percent > 100 {
        100
    } else {
        percent as u32
    };
    let raw: u32 = p * max / 100;
    if raw < 1 {
        1
    } else {
        raw
    }
}

/// What to ask logind for to set the panel to `percent`: the device name
/// and raw level, or the error when there is no panel backlight.
pub fn set(backlight: Option<(String, u32)>, percent: u8) -> (r: Result<(String, u32), String>)
    requires
        backlight matches Some(b) ==> raw_fits(percent, b.1),
    ensures
        match backlight {
            None => r matches Err(e) && e@ == "no internal panel backlight"@,
            Some((name, max)) => r matches Ok(x) && x.0 == name && x.1 == raw_level_spec(
                percent,
                max,
            ),
        },
{
    match backlight {
        None => Err(String::from_str("no internal panel backlight")),
        Some((name, max)) => Ok((name, raw_level(percent, max))),
    }
}

} // verus!
