use vstd::prelude::*;
use vstd::string::*;

use crate::text::{field, same_text, split_field, trim, trimmed};

verus! {

/// Kind of an auxiliary battery-powered device.
#[derive(Clone, Copy, Debug, PartialEq, Eq, Structural)]
pub enum DeviceKind {
    Mouse,
    Keyboard,
    Headphones,
    Gamepad,
    Unknown,
}

/// The device kind that a UPower `Type` code stands for.
pub open spec fn device_kind_of(t: u32) -> DeviceKind {
    if t == 5 {
        DeviceKind::Mouse
    } else if t == 6 {
        DeviceKind::Keyboard
    } else if t == 11 {
        DeviceKind::Headphones
    } else if t == 12 {
        DeviceKind::Gamepad
    } else {
        DeviceKind::Unknown
    }
}

/// Maps a UPower device `Type` code to a device kind.
pub fn map_device_type(t: u32) -> (k: DeviceKind)
    ensures
        k == device_kind_of(t),
{
    match t {
        5 => DeviceKind::Mouse,
        6 => DeviceKind::Keyboard,
        11 => DeviceKind::Headphones,
        12 => DeviceKind::Gamepad,
        _ => DeviceKind::Unknown,
    }
}

/// Whether a UPower `Type` code is a line-power supply or the host's own
/// battery, which are not auxiliary devices.
pub open spec fn is_host_power(t: u32) -> bool {
    t == 1 || t == 2
}

/// Whether a device with these UPower properties is an auxiliary device
/// whose battery is reported: present, not a power supply, and neither line
/// power nor the host's battery.
pub fn is_auxiliary_device(is_present: bool, power_supply: bool, t: u32) -> (r: bool)
    ensures
        r == (is_present && !power_supply && !is_host_power(t)),
{
    is_present && !power_supply && t != 1 && t != 2
}

/// The object path of a `upower --monitor` line: its second field on `": "`.
pub open spec fn event_path(line: Seq<char>) -> Option<Seq<char>> {
    field(line, ": "@, 1)
}

/// The event type of a `upower --monitor` line: the second tab-separated
/// field of its first field on `": "`.
pub open spec fn event_type(line: Seq<char>) -> Option<Seq<char>> {
    match field(line, ": "@, 0) {
        Some(head) => field(head, "\t"@, 1),
        None => None,
    }
}

/// The object path of a `upower --monitor` line, untrimmed.
pub fn parse_upower_event(line: &str) -> (r: Option<&str>)
    ensures
        match r {
            Some(p) => event_path(line@) == Some(p@),
            None => event_path(line@).is_none(),
        },
{
    proof {
        reveal_strlit(": ");
    }
    split_field(line, ": ", 1)
}

/// The event type of a `upower --monitor` line (`device added`, ...).
pub fn parse_upower_event_type(line: &str) -> (r: Option<&str>)
    ensures
        match r {
            Some(t) => event_type(line@) == Some(t@),
            None => event_type(line@).is_none(),
        },
{
    proof {
        reveal_strlit(": ");
        reveal_strlit("\t");
    }
    match split_field(line, ": ", 0) {
        Some(head) => split_field(head, "\t", 1),
        None => None,
    }
}

/// A `upower --monitor` event: what happened, to which device path.
#[derive(Clone, Copy, Debug, PartialEq, Eq, Structural)]
pub enum EventKind {
    Added,
    Changed,
    Removed,
    Other,
}

/// The event kind that an event type names.
pub open spec fn event_kind_of(t: Seq<char>) -> EventKind {
    if t == "device added"@ {
        EventKind::Added
    } else if t == "device changed"@ {
        EventKind::Changed
    } else if t == "device removed"@ {
        EventKind::Removed
    } else {
        EventKind::Other
    }
}

/// Classifies an event type.
pub fn classify_event(t: &str) -> (k: EventKind)
    ensures
        k == event_kind_of(t@),
{
    if same_text(t, "device added") {
        EventKind::Added
    } else if same_text(t, "device changed") {
        EventKind::Changed
    } else if same_text(t, "device removed") {
        EventKind::Removed
    } else {
        EventKind::Other
    }
}

/// The auxiliary devices known so far, keyed by UPower object path, each path
/// once, in order of first insertion.
pub struct DeviceTable<D> {
    paths: Vec<String>,
    devices: Vec<D>,
}

/// The views of a list of strings.
pub open spec fn texts(v: Seq<String>) -> Seq<Seq<char>> {
    v.map_values(|s: String| s@)
}

impl<D> DeviceTable<D> {
    /// The object paths, in table order.
    pub closed spec fn keys(&self) -> Seq<Seq<char>> {
        texts(self.paths@)
    }

    /// The devices, in table order.
    pub closed spec fn values(&self) -> Seq<D> {
        self.devices@
    }

    pub open spec fn wf(&self) -> bool {
        &&& self.keys().len() == self.values().len()
        &&& self.keys().no_duplicates()
    }

    /// An empty table.
    pub fn new() -> (t: Self)
        ensures
            t.wf(),
            t.keys() == Seq::<Seq<char>>::empty(),
            t.values() == Seq::<D>::empty(),
    {
        let t = DeviceTable { paths: Vec::new(), devices: Vec::new() };
        assert(t.keys() =~= Seq::<Seq<char>>::empty());
        t
    }

    /// Position of `path` in the table, if it is there.
    pub fn find(&self, path: &str) -> (r: Option<usize>)
        requires
            self.wf(),
        ensures
            match r {
                Some(i) => i < self.keys().len() && self.keys()[i as int] == path@,
                None => !self.keys().contains(path@),
            },
    {
        let mut i: usize = 0;
        while i < self.paths.len()
            invariant
                i <= self.paths@.len(),
                self.wf(),
                forall|j: int| 0 <= j < i ==> self.keys()[j] != path@,
            decreases self.paths@.len() - i,
        {
            if same_text(self.paths[i].as_str(), path) {
                return Some(i);
            }
            i = i + 1;
        }
        None
    }

    /// Whether `path` is in the table.
    pub fn contains_path(&self, path: &str) -> (r: bool)
        requires
            self.wf(),
        ensures
            r == self.keys().contains(path@),
    {
        self.find(path).is_some()
    }

    /// Records `device` under `path`, replacing the device already there.
    pub fn insert(&mut self, path: String, device: D)
        requires
            old(self).wf(),
        ensures
            final(self).wf(),
            final(self).keys().contains(path@),
            match old(self).find_spec(path@) {
                Some(i) => final(self).keys() == old(self).keys() && final(self).values()
                    == old(self).values().update(i, device),
                None => final(self).keys() == old(self).keys().push(path@) && final(self).values()
                    == old(self).values().push(device),
            },
    {
        match self.find(path.as_str()) {
            Some(i) => {
                self.devices.set(i, device);
                proof {
                    lemma_unique_position(old(self).keys(), path@, i as int);
                }
            },
            None => {
                self.paths.push(path);
                self.devices.push(device);
                assert(self.keys() =~= old(self).keys().push(path@));
                assert(self.keys()[self.keys().len() - 1] == path@);
            },
        }
    }

    /// Position of `p` among the keys, if it is there.
    pub open spec fn find_spec(&self, p: Seq<char>) -> Option<int> {
        if self.keys().contains(p) {
            Some(choose|i: int| 0 <= i < self.keys().len() && self.keys()[i] == p)
        } else {
            None
        }
    }

    /// Removes the device recorded under `path`, if any; says whether there
    /// was one.
    pub fn remove(&mut self, path: &str) -> (removed: bool)
        requires
            old(self).wf(),
        ensures
            final(self).wf(),
            removed == old(self).keys().contains(path@),
            !final(self).keys().contains(path@),
            match old(self).find_spec(path@) {
                Some(i) => final(self).keys() == old(self).keys().remove(i) && final(self).values()
                    == old(self).values().remove(i),
                None => final(self).keys() == old(self).keys() && final(self).values()
                    == old(self).values(),
            },
    {
        match self.find(path) {
            Some(i) => {
                proof {
                    lemma_unique_position(old(self).keys(), path@, i as int);
                }
                self.paths.remove(i);
                self.devices.remove(i);
                assert(self.keys() =~= old(self).keys().remove(i as int));
                proof {
                    let k = old(self).keys();
                    assert forall|a: int, b: int|
                        0 <= a < b < self.keys().len() implies self.keys()[a]
                        != self.keys()[b] by {
                        let a2 = if a < i { a } else { a + 1 };
                        let b2 = if b < i { b } else { b + 1 };
                        assert(self.keys()[a] == k[a2]);
                        assert(self.keys()[b] == k[b2]);
                    }
                    assert(!self.keys().contains(path@)) by {
                        if self.keys().contains(path@) {
                            let j = choose|j: int|
                                0 <= j < self.keys().len() && self.keys()[j] == path@;
                            let j2 = if j < i { j } else { j + 1 };
                            assert(k[j2] == path@);
                        }
                    }
                }
                true
            },
            None => false,
        }
    }

    /// The devices, in table order.
    pub fn devices(&self) -> (r: &Vec<D>)
        ensures
            r@ == self.values(),
    {
        &self.devices
    }

    /// Handles one `upower --monitor` line: a removed known device leaves the
    /// table. Returns whether the device list must be read again and sent:
    /// on a change or removal of a known device, and on any addition.
    pub fn apply_event(&mut self, line: &str) -> (refresh: bool)
        requires
            old(self).wf(),
        ensures
            final(self).wf(),
            refresh == refreshes(old(self).keys(), line@),
            match removal(old(self).keys(), line@) {
                Some(p) => !final(self).keys().contains(p) && final(self).keys() == old(
                    self,
                ).keys().remove(old(self).find_spec(p).unwrap()) && final(self).values() == old(
                    self,
                ).values().remove(old(self).find_spec(p).unwrap()),
                None => final(self).keys() == old(self).keys() && final(self).values() == old(
                    self,
                ).values(),
            },
    {
        let path = match parse_upower_event(line) {
            Some(p) => trim(p),
            None => {
                return false;
            },
        };
        let kind = match parse_upower_event_type(line) {
            Some(t) => classify_event(t),
            None => {
                return false;
            },
        };
        match kind {
            EventKind::Changed => self.contains_path(path),
            EventKind::Removed => self.remove(path),
            EventKind::Added => true,
            EventKind::Other => false,
        }
    }
}

/// The device path (trimmed) and event kind of a `upower --monitor` line,
/// when it has both.
pub open spec fn event_of(line: Seq<char>) -> Option<(Seq<char>, EventKind)> {
    match (event_path(line), event_type(line)) {
        (Some(p), Some(t)) => Some((trimmed(p), event_kind_of(t))),
        _ => None,
    }
}

/// The known path that a `upower --monitor` line removes, if any.
pub open spec fn removal(known: Seq<Seq<char>>, line: Seq<char>) -> Option<Seq<char>> {
    match event_of(line) {
        Some((p, EventKind::Removed)) => if known.contains(p) {
            Some(p)
        } else {
            None
        },
        _ => None,
    }
}

/// Whether a `upower --monitor` line calls for reading the device list again,
/// given the paths known before it.
pub open spec fn refreshes(known: Seq<Seq<char>>, line: Seq<char>) -> bool {
    match event_of(line) {
        Some((p, EventKind::Changed)) => known.contains(p),
        Some((p, EventKind::Removed)) => known.contains(p),
        Some((_, EventKind::Added)) => true,
        _ => false,
    }
}

proof fn lemma_unique_position(k: Seq<Seq<char>>, p: Seq<char>, i: int)
    requires
        k.no_duplicates(),
        0 <= i < k.len(),
        k[i] == p,
    ensures
        k.contains(p),
        (choose|j: int| 0 <= j < k.len() && k[j] == p) == i,
{
    assert(k.contains(p));
}

} // verus!
