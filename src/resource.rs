use vstd::prelude::*;

verus! {

/// Number of resources held in a snapshot and sent in a connect-time burst.
pub const RESOURCE_COUNT: usize = 9;

/// The closed set of resources a snapshot holds, in burst order.
#[derive(Clone, Copy, Debug, PartialEq, Eq, Structural)]
pub enum ResourceKind {
    Ram,
    Disk,
    Temperature,
    Weather,
    LoadAvg,
    Volume,
    Battery,
    Network,
    Display,
}

/// Position of a resource in a snapshot and in a burst.
pub open spec fn kind_index(k: ResourceKind) -> nat {
    match k {
        ResourceKind::Ram => 0,
        ResourceKind::Disk => 1,
        ResourceKind::Temperature => 2,
        ResourceKind::Weather => 3,
        ResourceKind::LoadAvg => 4,
        ResourceKind::Volume => 5,
        ResourceKind::Battery => 6,
        ResourceKind::Network => 7,
        ResourceKind::Display => 8,
    }
}

/// The resource at a given burst position.
pub open spec fn kind_at(i: int) -> ResourceKind
    recommends
        0 <= i < RESOURCE_COUNT,
{
    if i == 0 {
        ResourceKind::Ram
    } else if i == 1 {
        ResourceKind::Disk
    } else if i == 2 {
        ResourceKind::Temperature
    } else if i == 3 {
        ResourceKind::Weather
    } else if i == 4 {
        ResourceKind::LoadAvg
    } else if i == 5 {
        ResourceKind::Volume
    } else if i == 6 {
        ResourceKind::Battery
    } else if i == 7 {
        ResourceKind::Network
    } else {
        ResourceKind::Display
    }
}

/// The identifier a resource carries on the wire.
pub open spec fn kind_name(k: ResourceKind) -> Seq<char> {
    match k {
        ResourceKind::Ram => "ram"@,
        ResourceKind::Disk => "disk"@,
        ResourceKind::Temperature => "temperature"@,
        ResourceKind::Weather => "weather"@,
        ResourceKind::LoadAvg => "loadavg"@,
        ResourceKind::Volume => "volume"@,
        ResourceKind::Battery => "battery"@,
        ResourceKind::Network => "network"@,
        ResourceKind::Display => "display"@,
    }
}

/// Index and position agree in both directions.
pub proof fn lemma_kind_index_at(k: ResourceKind, i: int)
    ensures
        kind_index(k) < RESOURCE_COUNT,
        kind_at(kind_index(k) as int) == k,
        0 <= i < RESOURCE_COUNT ==> kind_index(kind_at(i)) == i,
{
}

impl ResourceKind {
    /// Position of this resource in a snapshot.
    pub fn index(&self) -> (r: usize)
        ensures
            r == kind_index(*self),
            r < RESOURCE_COUNT,
    {
        match self {
            ResourceKind::Ram => 0,
            ResourceKind::Disk => 1,
            ResourceKind::Temperature => 2,
            ResourceKind::Weather => 3,
            ResourceKind::LoadAvg => 4,
            ResourceKind::Volume => 5,
            ResourceKind::Battery => 6,
            ResourceKind::Network => 7,
            ResourceKind::Display => 8,
        }
    }

    /// The resource at burst position `i`.
    pub fn at(i: usize) -> (r: ResourceKind)
        requires
            i < RESOURCE_COUNT,
        ensures
            r == kind_at(i as int),
            kind_index(r) == i,
    {
        if i == 0 {
            ResourceKind::Ram
        } else if i == 1 {
            ResourceKind::Disk
        } else if i == 2 {
            ResourceKind::Temperature
        } else if i == 3 {
            ResourceKind::Weather
        } else if i == 4 {
            ResourceKind::LoadAvg
        } else if i == 5 {
            ResourceKind::Volume
        } else if i == 6 {
            ResourceKind::Battery
        } else if i == 7 {
            ResourceKind::Network
        } else {
            ResourceKind::Display
        }
    }

    /// The identifier this resource carries on the wire.
    pub fn name(&self) -> (r: &'static str)
        ensures
            r@ == kind_name(*self),
    {
        match self {
            ResourceKind::Ram => "ram",
            ResourceKind::Disk => "disk",
            ResourceKind::Temperature => "temperature",
            ResourceKind::Weather => "weather",
            ResourceKind::LoadAvg => "loadavg",
            ResourceKind::Volume => "volume",
            ResourceKind::Battery => "battery",
            ResourceKind::Network => "network",
            ResourceKind::Display => "display",
        }
    }
}

} // verus!
