use vstd::prelude::*;
use vstd::string::*;

use crate::text::{field, lemma_earlier_fields, same_text, split_field};

verus! {

/// Used memory and used swap, each as a whole percentage of its total (swap
/// counts as zero when there is none); `None` when the memory total is zero.
pub open spec fn ram_levels_spec(total_mem: u64, used_mem: u64, total_swap: u64, used_swap: u64) -> Option<(u64, u64)> {
    if total_mem == 0 {
        None
    } else {
        Some(
            (
                ((100 * used_mem) / total_mem as int) as u64,
                if total_swap == 0 {
                    0
                } else {
                    ((100 * used_swap) / total_swap as int) as u64
                },
            ),
        )
    }
}

/// Whole percentages of used memory and used swap, which a memory reading
/// carries as its levels.
pub fn ram_levels(total_mem: u64, used_mem: u64, total_swap: u64, used_swap: u64) -> (r: Option<(u64, u64)>)
    requires
        used_mem <= total_mem,
        used_swap <= total_swap,
    ensures
        r == ram_levels_spec(total_mem, used_mem, total_swap, used_swap),
        r matches Some((m, s)) ==> m <= 100 && s <= 100,
{
    if total_mem == 0 {
        return None;
    }
    let m = (100 * (used_mem as u128) / (total_mem as u128)) as u64;
    let s = if total_swap == 0 {
        0
    } else {
        (100 * (used_swap as u128) / (total_swap as u128)) as u64
    };
    proof {
        assert(100 * used_mem / total_mem as int <= 100) by (nonlinear_arith)
            requires
                used_mem <= total_mem,
                total_mem > 0,
        ;
        if total_swap > 0 {
            assert(100 * used_swap / total_swap as int <= 100) by (nonlinear_arith)
                requires
                    used_swap <= total_swap,
                    total_swap > 0,
            ;
        }
    }
    Some((m, s))
}

/// Used space of a disk as a whole percentage: a hundred less the available
/// share, rounded down; `None` when the total is zero.
pub open spec fn disk_used_percent_spec(total: u64, available: u64) -> Option<u64> {
    if total == 0 {
        None
    } else {
        Some((100 - (100 * available) / total as int) as u64)
    }
}

/// Used space of a disk as a whole percentage.
pub fn disk_used_percent(total: u64, available: u64) -> (r: Option<u64>)
    requires
        available <= total,
    ensures
        r == disk_used_percent_spec(total, available),
        r matches Some(p) ==> p <= 100,
{
    if total == 0 {
        return None;
    }
    let free = (100 * (available as u128) / (total as u128)) as u64;
    proof {
        assert(100 * available / total as int <= 100) by (nonlinear_arith)
            requires
                available <= total,
                total > 0,
        ;
    }
    Some(100 - free)
}

/// Volume as the volume script reports it: level in percent, icon, style
/// class, and whether headphones are plugged in (`1`) or not (`0`).
pub struct VolumeObj {
    pub value: i64,
    pub icon: String,
    pub clazz: String,
    pub headphones: i8,
}

/// Charge state of the host battery.
#[derive(Clone, Copy, Debug, PartialEq, Eq, Structural)]
pub enum BatteryState {
    Charging,
    Discharging,
    Full,
    Empty,
    Unknown,
    Other,
}

/// Name of a charge state on the wire.
pub open spec fn battery_state_name_spec(s: BatteryState) -> Seq<char> {
    match s {
        BatteryState::Charging => "Charging"@,
        BatteryState::Discharging => "Discharging"@,
        BatteryState::Full => "Full"@,
        BatteryState::Empty => "Empty"@,
        BatteryState::Unknown => "Unknown"@,
        BatteryState::Other => "Strage"@,
    }
}

/// Names a charge state.
pub fn battery_state_name(s: BatteryState) -> (r: &'static str)
    ensures
        r@ == battery_state_name_spec(s),
{
    match s {
        BatteryState::Charging => "Charging",
        BatteryState::Discharging => "Discharging",
        BatteryState::Full => "Full",
        BatteryState::Empty => "Empty",
        BatteryState::Unknown => "Unknown",
        BatteryState::Other => "Strage",
    }
}

/// Icon of a discharging battery: one glyph per ten points of charge.
pub open spec fn discharge_icon_spec(percentage: i32) -> Seq<char> {
    if percentage < 15 {
        "\u{f007a}"@
    } else if percentage < 25 {
        "\u{f007b}"@
    } else if percentage < 35 {
        "\u{f007c}"@
    } else if percentage < 45 {
        "\u{f007d}"@
    } else if percentage < 55 {
        "\u{f007e}"@
    } else if percentage < 65 {
        "\u{f007f}"@
    } else if percentage < 75 {
        "\u{f0080}"@
    } else if percentage < 85 {
        "\u{f0081}"@
    } else if percentage < 95 {
        "\u{f0082}"@
    } else {
        "\u{f0079}"@
    }
}

/// Icon of the host battery in a charge state at a charge percentage.
pub open spec fn battery_icon_spec(s: BatteryState, percentage: i32) -> Seq<char> {
    match s {
        BatteryState::Charging => "\u{f0084}"@,
        BatteryState::Discharging => discharge_icon_spec(percentage),
        BatteryState::Full => "\u{f17e2}"@,
        BatteryState::Unknown => "\u{f17e2}"@,
        BatteryState::Empty => "Empty"@,
        BatteryState::Other => "\u{f19e5}"@,
    }
}

/// Picks the icon of the host battery.
pub fn battery_icon(s: BatteryState, percentage: i32) -> (r: &'static str)
    ensures
        r@ == battery_icon_spec(s, percentage),
{
    match s {
        BatteryState::Charging => "\u{f0084}",
        BatteryState::Discharging => {
            if percentage < 15 {
                "\u{f007a}"
            } else if percentage < 25 {
                "\u{f007b}"
            } else if percentage < 35 {
                "\u{f007c}"
            } else if percentage < 45 {
                "\u{f007d}"
            } else if percentage < 55 {
                "\u{f007e}"
            } else if percentage < 65 {
                "\u{f007f}"
            } else if percentage < 75 {
                "\u{f0080}"
            } else if percentage < 85 {
                "\u{f0081}"
            } else if percentage < 95 {
                "\u{f0082}"
            } else {
                "\u{f0079}"
            }
        },
        BatteryState::Full => "\u{f17e2}",
        BatteryState::Unknown => "\u{f17e2}",
        BatteryState::Empty => "Empty",
        BatteryState::Other => "\u{f19e5}",
    }
}

/// Icon of a wifi link by signal strength; a plain wifi glyph when the
/// strength is unknown.
pub open spec fn wifi_icon_spec(signal: Option<u8>) -> Seq<char> {
    match signal {
        None => "\u{f0783}"@,
        Some(s) => if s < 15 {
            "\u{f08bf}"@
        } else if s < 30 {
            "\u{f08bc}"@
        } else if s < 60 {
            "\u{f08bd}"@
        } else {
            "\u{f08be}"@
        },
    }
}

/// Picks the icon of a wifi link.
pub fn wifi_icon(signal: Option<u8>) -> (r: &'static str)
    ensures
        r@ == wifi_icon_spec(signal),
{
    match signal {
        None => "\u{f0783}",
        Some(s) => if s < 15 {
            "\u{f08bf}"
        } else if s < 30 {
            "\u{f08bc}"
        } else if s < 60 {
            "\u{f08bd}"
        } else {
            "\u{f08be}"
        },
    }
}

/// The icon of a wired link.
pub fn ethernet_icon() -> (r: &'static str)
    ensures
        r@ == "\u{f0200}"@,
{
    "\u{f0200}"
}

/// Interface and connection type of a line of
/// `nmcli -t -f DEVICE,TYPE,STATE,CONNECTION device`, when the line has all
/// four fields and its device is connected.
pub open spec fn connected_device_spec(line: Seq<char>) -> Option<(Seq<char>, Seq<char>)> {
    if field(line, ":"@, 3).is_some() && field(line, ":"@, 2) == Some("connected"@) {
        Some((field(line, ":"@, 0).unwrap(), field(line, ":"@, 1).unwrap()))
    } else {
        None
    }
}

/// Interface and connection type of a connected device's line.
pub fn connected_device(line: &str) -> (r: Option<(&str, &str)>)
    ensures
        match r {
            Some((i, t)) => connected_device_spec(line@) == Some((i@, t@)),
            None => connected_device_spec(line@).is_none(),
        },
{
    proof {
        reveal_strlit(":");
    }
    if split_field(line, ":", 3).is_none() {
        return None;
    }
    proof {
        lemma_earlier_fields(line@, ":"@, 3, 0, 0);
        lemma_earlier_fields(line@, ":"@, 3, 0, 1);
        lemma_earlier_fields(line@, ":"@, 3, 0, 2);
    }
    let state = match split_field(line, ":", 2) {
        Some(s) => s,
        None => {
            return None;
        },
    };
    if !same_text(state, "connected") {
        return None;
    }
    match (split_field(line, ":", 0), split_field(line, ":", 1)) {
        (Some(i), Some(t)) => Some((i, t)),
        _ => None,
    }
}

/// SSID and signal field of a line of `nmcli -t -f ACTIVE,SSID,SIGNAL dev
/// wifi`, when the line has at least three fields and is the active network.
pub open spec fn active_wifi_spec(line: Seq<char>) -> Option<(Seq<char>, Seq<char>)> {
    if field(line, ":"@, 2).is_some() && field(line, ":"@, 0) == Some("yes"@) {
        Some((field(line, ":"@, 1).unwrap(), field(line, ":"@, 2).unwrap()))
    } else {
        None
    }
}

/// SSID and signal field of the active wifi network's line.
pub fn active_wifi(line: &str) -> (r: Option<(&str, &str)>)
    ensures
        match r {
            Some((ssid, signal)) => active_wifi_spec(line@) == Some((ssid@, signal@)),
            None => active_wifi_spec(line@).is_none(),
        },
{
    proof {
        reveal_strlit(":");
    }
    let signal = match split_field(line, ":", 2) {
        Some(s) => s,
        None => {
            return None;
        },
    };
    proof {
        lemma_earlier_fields(line@, ":"@, 2, 0, 0);
        lemma_earlier_fields(line@, ":"@, 2, 0, 1);
    }
    let active = match split_field(line, ":", 0) {
        Some(a) => a,
        None => {
            return None;
        },
    };
    if !same_text(active, "yes") {
        return None;
    }
    match split_field(line, ":", 1) {
        Some(ssid) => Some((ssid, signal)),
        None => None,
    }
}

} // verus!
