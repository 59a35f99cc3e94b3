//! Which power source the laptop is on, from what sysfs reports under
//! `/sys/class/power_supply/<name>/`.
//!
//! `type` identifies batteries and external supplies, while `online` is `1`
//! when a supply is powering the machine. Names such as `AC`, `ADP1`, and
//! `ucsi-source-psy-*` are driver-specific, so detection uses the kernel's
//! type values and aggregates every adapter.
use vstd::prelude::*;
use crate::text::{chars_of, eq_str, trim, trimmed};

verus! {

/// Kernel `power_supply_type_text` values that represent an external source.
/// `USB_TYPE_C` is accepted as a compatibility alias used by some out-of-tree
/// drivers; upstream kernels expose that type as `USB_C`.
pub open spec fn is_external_supply_spec(kind: Seq<char>) -> bool {
    ||| kind == "Mains"@
    ||| kind == "USB"@
    ||| kind == "USB_DCP"@
    ||| kind == "USB_CDP"@
    ||| kind == "USB_ACA"@
    ||| kind == "USB_C"@
    ||| kind == "USB_TYPE_C"@
    ||| kind == "USB_PD"@
    ||| kind == "USB_PD_DRP"@
    ||| kind == "BrickID"@
    ||| kind == "Wireless"@
}

pub fn is_external_supply(kind: &Vec<char>) -> (r: bool)
    ensures
        r == is_external_supply_spec(kind@),
{
    eq_str(kind, "Mains") || eq_str(kind, "USB") || eq_str(kind, "USB_DCP") || eq_str(
        kind,
        "USB_CDP",
    ) || eq_str(kind, "USB_ACA") || eq_str(kind, "USB_C") || eq_str(kind, "USB_TYPE_C")
        || eq_str(kind, "USB_PD") || eq_str(kind, "USB_PD_DRP") || eq_str(kind, "BrickID")
        || eq_str(kind, "Wireless")
}

/// The `online` attribute: `1` or `0`, surrounding whitespace ignored.
pub open spec fn parse_online_spec(value: Seq<char>) -> Option<bool> {
    let t = trim(value);
    if t == "1"@ {
        Some(true)
    } else if t == "0"@ {
        Some(false)
    } else {
        None
    }
}

pub fn parse_online(value: &str) -> (r: Option<bool>)
    ensures
        r == parse_online_spec(value@),
{
    let t = trimmed(&chars_of(value));
    if eq_str(&t, "1") {
        Some(true)
    } else if eq_str(&t, "0") {
        Some(false)
    } else {
        None
    }
}

/// What sysfs shows of one supply: the text of its `type` and `online`
/// attributes, `None` where a file could not be read.
pub struct SupplyReading {
    pub kind: Option<String>,
    pub online: Option<String>,
}

/// What one supply says: `Some(true)` for an external supply powering the
/// machine, `Some(false)` for one that is not, `None` when it is no
/// external supply or cannot tell.
pub open spec fn supply_state(r: SupplyReading) -> Option<bool> {
    match r.kind {
        None => None,
        Some(k) => if !is_external_supply_spec(trim(k@)) {
            None
        } else {
            match r.online {
                None => None,
                Some(o) => parse_online_spec(o@),
            }
        },
    }
}

/// `Some(true)` on external power (any live adapter wins, whatever the
/// order), `Some(false)` when every readable external supply is offline,
/// and `None` when no external supply reports.
pub open spec fn on_ac_spec(supplies: Seq<SupplyReading>) -> Option<bool> {
    if exists|i: int| 0 <= i < supplies.len() && supply_state(#[trigger] supplies[i]) == Some(true) {
        Some(true)
    } else if exists|i: int|
        0 <= i < supplies.len() && supply_state(#[trigger] supplies[i]) == Some(false) {
        Some(false)
    } else {
        None
    }
}

fn state_of(r: &SupplyReading) -> (s: Option<bool>)
    ensures
        s == supply_state(*r),
{
    match &r.kind {
        None => None,
        Some(k) => {
            if !is_external_supply(&trimmed(&chars_of(k.as_str()))) {
                None
            } else {
                match &r.online {
                    None => None,
                    Some(o) => parse_online(o.as_str()),
                }
            }
        },
    }
}

/// Whether the laptop runs on external power, from the supplies sysfs lists.
pub fn on_ac(supplies: &Vec<SupplyReading>) -> (r: Option<bool>)
    ensures
        r == on_ac_spec(supplies@),
{
    let mut saw_offline = false;
    let mut i: usize = 0;
    while i < supplies.len()
        invariant
            0 <= i <= supplies@.len(),
            forall|k: int| 0 <= k < i ==> supply_state(#[trigger] supplies@[k]) != Some(true),
            saw_offline == exists|k: int|
                0 <= k < i && supply_state(#[trigger] supplies@[k]) == Some(false),
        decreases supplies@.len() - i,
    {
        match state_of(&supplies[i]) {
            Some(true) => {
                assert(supply_state(supplies@[i as int]) == Some(true));
                return Some(true);
            },
            Some(false) => {
                assert(supply_state(supplies@[i as int]) == Some(false));
                saw_offline = true;
            },
            None => {},
        }
        i = i + 1;
    }
    if saw_offline {
        Some(false)
    } else {
        None
    }
}

} // verus!
