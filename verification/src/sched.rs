//! Scheduler identities and run modes.

use vstd::prelude::*;

use crate::text::str_eq;

verus! {

/// A run mode for a scheduler.
#[derive(Debug, Clone, Copy, PartialEq, Eq, Structural, Hash)]
pub enum SchedMode {
    Auto,
    Gaming,
    PowerSave,
    LowLatency,
    Server,
}

/// The name under which a mode is written (`"Auto"`, `"Gaming"`, ...).
pub open spec fn mode_name_spec(mode: SchedMode) -> Seq<char> {
    match mode {
        SchedMode::Auto => "Auto"@,
        SchedMode::Gaming => "Gaming"@,
        SchedMode::PowerSave => "PowerSave"@,
        SchedMode::LowLatency => "LowLatency"@,
        SchedMode::Server => "Server"@,
    }
}

/// All modes, in the stable order used for enumeration and cycling.
pub open spec fn all_modes_spec() -> Seq<SchedMode> {
    seq![SchedMode::Auto, SchedMode::Gaming, SchedMode::PowerSave, SchedMode::LowLatency, SchedMode::Server]
}

/// The number that stands for a mode on the loader's D-Bus interface.
pub open spec fn mode_code_spec(mode: SchedMode) -> u32 {
    match mode {
        SchedMode::Auto => 0,
        SchedMode::Gaming => 1,
        SchedMode::PowerSave => 2,
        SchedMode::LowLatency => 3,
        SchedMode::Server => 4,
    }
}

impl SchedMode {
    /// The number that stands for this mode on the loader's D-Bus interface.
    pub fn code(self) -> (res: u32)
        ensures
            res == mode_code_spec(self),
    {
        match self {
            SchedMode::Auto => 0,
            SchedMode::Gaming => 1,
            SchedMode::PowerSave => 2,
            SchedMode::LowLatency => 3,
            SchedMode::Server => 4,
        }
    }

    /// The mode a D-Bus number stands for, if any.
    pub fn from_code(code: u32) -> (res: Option<SchedMode>)
        ensures
            match res {
                Some(m) => mode_code_spec(m) == code,
                None => code > 4,
            },
    {
        if code == 0 {
            Some(SchedMode::Auto)
        } else if code == 1 {
            Some(SchedMode::Gaming)
        } else if code == 2 {
            Some(SchedMode::PowerSave)
        } else if code == 3 {
            Some(SchedMode::LowLatency)
        } else if code == 4 {
            Some(SchedMode::Server)
        } else {
            None
        }
    }

    /// The mode written as `name` (`"Auto"`, `"Gaming"`, ...), if any.
    pub fn from_name(name: &str) -> (res: Option<SchedMode>)
        ensures
            match res {
                Some(m) => mode_name_spec(m) == name@,
                None => forall|m: SchedMode| mode_name_spec(m) != name@,
            },
    {
        proof {
            reveal_strlit("Auto");
            reveal_strlit("Gaming");
            reveal_strlit("PowerSave");
            reveal_strlit("LowLatency");
            reveal_strlit("Server");
        }
        if str_eq(name, "Auto") {
            Some(SchedMode::Auto)
        } else if str_eq(name, "Gaming") {
            Some(SchedMode::Gaming)
        } else if str_eq(name, "PowerSave") {
            Some(SchedMode::PowerSave)
        } else if str_eq(name, "LowLatency") {
            Some(SchedMode::LowLatency)
        } else if str_eq(name, "Server") {
            Some(SchedMode::Server)
        } else {
            None
        }
    }

    /// The name under which this mode is written.
    pub fn name(self) -> (res: &'static str)
        ensures
            res@ == mode_name_spec(self),
    {
        match self {
            SchedMode::Auto => "Auto",
            SchedMode::Gaming => "Gaming",
            SchedMode::PowerSave => "PowerSave",
            SchedMode::LowLatency => "LowLatency",
            SchedMode::Server => "Server",
        }
    }
}

/// All modes, in the stable order used for enumeration and cycling:
/// Auto, Gaming, PowerSave, LowLatency, Server.
pub fn all_modes() -> (res: Vec<SchedMode>)
    ensures
        res@ == all_modes_spec(),
{
    let v = vec![SchedMode::Auto, SchedMode::Gaming, SchedMode::PowerSave, SchedMode::LowLatency, SchedMode::Server];
    assert(v@ =~= all_modes_spec());
    v
}


/// A scheduler that the loader knows how to run.
#[derive(Debug, Clone, Copy, PartialEq, Eq, Structural, Hash)]
pub enum SupportedSched {
    Bpfland,
    Rusty,
    Lavd,
    Flash,
    P2DQ,
    Tickless,
    Rustland,
    Cosmos,
    Beerland,
    Cake,
    Pandemonium,
    Flow,
    Forge,
}

/// The full name of a scheduler (`"scx_bpfland"`, ...).
pub open spec fn sched_name_spec(sched: SupportedSched) -> Seq<char> {
    match sched {
        SupportedSched::Bpfland => "scx_bpfland"@,
        SupportedSched::Rusty => "scx_rusty"@,
        SupportedSched::Lavd => "scx_lavd"@,
        SupportedSched::Flash => "scx_flash"@,
        SupportedSched::P2DQ => "scx_p2dq"@,
        SupportedSched::Tickless => "scx_tickless"@,
        SupportedSched::Rustland => "scx_rustland"@,
        SupportedSched::Cosmos => "scx_cosmos"@,
        SupportedSched::Beerland => "scx_beerland"@,
        SupportedSched::Cake => "scx_cake"@,
        SupportedSched::Pandemonium => "scx_pandemonium"@,
        SupportedSched::Flow => "scx_flow"@,
        SupportedSched::Forge => "scx_forge"@,
    }
}

/// The scheduler whose full name is `name`, if any.
pub open spec fn sched_of_name_spec(name: Seq<char>) -> Option<SupportedSched> {
    if name == "scx_bpfland"@ {
        Some(SupportedSched::Bpfland)
    } else if name == "scx_rusty"@ {
        Some(SupportedSched::Rusty)
    } else if name == "scx_lavd"@ {
        Some(SupportedSched::Lavd)
    } else if name == "scx_flash"@ {
        Some(SupportedSched::Flash)
    } else if name == "scx_p2dq"@ {
        Some(SupportedSched::P2DQ)
    } else if name == "scx_tickless"@ {
        Some(SupportedSched::Tickless)
    } else if name == "scx_rustland"@ {
        Some(SupportedSched::Rustland)
    } else if name == "scx_cosmos"@ {
        Some(SupportedSched::Cosmos)
    } else if name == "scx_beerland"@ {
        Some(SupportedSched::Beerland)
    } else if name == "scx_cake"@ {
        Some(SupportedSched::Cake)
    } else if name == "scx_pandemonium"@ {
        Some(SupportedSched::Pandemonium)
    } else if name == "scx_flow"@ {
        Some(SupportedSched::Flow)
    } else if name == "scx_forge"@ {
        Some(SupportedSched::Forge)
    } else {
        None
    }
}

/// Every supported scheduler, in the order of the built-in configuration.
pub open spec fn all_scheds_spec() -> Seq<SupportedSched> {
    seq![
        SupportedSched::Bpfland,
        SupportedSched::Rusty,
        SupportedSched::Lavd,
        SupportedSched::Flash,
        SupportedSched::P2DQ,
        SupportedSched::Tickless,
        SupportedSched::Rustland,
        SupportedSched::Cosmos,
        SupportedSched::Beerland,
        SupportedSched::Cake,
        SupportedSched::Pandemonium,
        SupportedSched::Flow,
        SupportedSched::Forge,
    ]
}

impl SupportedSched {
    /// The full name of this scheduler.
    pub fn name(&self) -> (res: &'static str)
        ensures
            res@ == sched_name_spec(*self),
    {
        match self {
            SupportedSched::Bpfland => "scx_bpfland",
            SupportedSched::Rusty => "scx_rusty",
            SupportedSched::Lavd => "scx_lavd",
            SupportedSched::Flash => "scx_flash",
            SupportedSched::P2DQ => "scx_p2dq",
            SupportedSched::Tickless => "scx_tickless",
            SupportedSched::Rustland => "scx_rustland",
            SupportedSched::Cosmos => "scx_cosmos",
            SupportedSched::Beerland => "scx_beerland",
            SupportedSched::Cake => "scx_cake",
            SupportedSched::Pandemonium => "scx_pandemonium",
            SupportedSched::Flow => "scx_flow",
            SupportedSched::Forge => "scx_forge",
        }
    }

    /// The scheduler whose full name is `name`; `None` for any other text.
    pub fn from_name(name: &str) -> (res: Option<SupportedSched>)
        ensures
            res == sched_of_name_spec(name@),
    {
        if str_eq(name, "scx_bpfland") {
            Some(SupportedSched::Bpfland)
        } else if str_eq(name, "scx_rusty") {
            Some(SupportedSched::Rusty)
        } else if str_eq(name, "scx_lavd") {
            Some(SupportedSched::Lavd)
        } else if str_eq(name, "scx_flash") {
            Some(SupportedSched::Flash)
        } else if str_eq(name, "scx_p2dq") {
            Some(SupportedSched::P2DQ)
        } else if str_eq(name, "scx_tickless") {
            Some(SupportedSched::Tickless)
        } else if str_eq(name, "scx_rustland") {
            Some(SupportedSched::Rustland)
        } else if str_eq(name, "scx_cosmos") {
            Some(SupportedSched::Cosmos)
        } else if str_eq(name, "scx_beerland") {
            Some(SupportedSched::Beerland)
        } else if str_eq(name, "scx_cake") {
            Some(SupportedSched::Cake)
        } else if str_eq(name, "scx_pandemonium") {
            Some(SupportedSched::Pandemonium)
        } else if str_eq(name, "scx_flow") {
            Some(SupportedSched::Flow)
        } else if str_eq(name, "scx_forge") {
            Some(SupportedSched::Forge)
        } else {
            None
        }
    }
}

/// Every supported scheduler, in the order of the built-in configuration.
pub fn all_scheds() -> (res: Vec<SupportedSched>)
    ensures
        res@ == all_scheds_spec(),
{
    let v = vec![
        SupportedSched::Bpfland,
        SupportedSched::Rusty,
        SupportedSched::Lavd,
        SupportedSched::Flash,
        SupportedSched::P2DQ,
        SupportedSched::Tickless,
        SupportedSched::Rustland,
        SupportedSched::Cosmos,
        SupportedSched::Beerland,
        SupportedSched::Cake,
        SupportedSched::Pandemonium,
        SupportedSched::Flow,
        SupportedSched::Forge,
    ];
    assert(v@ =~= all_scheds_spec());
    v
}

/// A scheduler's full name leads back to that scheduler, so no two
/// schedulers share a name.
pub proof fn lemma_sched_name_round_trip(sched: SupportedSched)
    ensures
        sched_of_name_spec(sched_name_spec(sched)) == Some(sched),
{
    reveal_strlit("scx_bpfland");
    reveal_strlit("scx_rusty");
    reveal_strlit("scx_lavd");
    reveal_strlit("scx_flash");
    reveal_strlit("scx_p2dq");
    reveal_strlit("scx_tickless");
    reveal_strlit("scx_rustland");
    reveal_strlit("scx_cosmos");
    reveal_strlit("scx_beerland");
    reveal_strlit("scx_cake");
    reveal_strlit("scx_pandemonium");
    reveal_strlit("scx_flow");
    reveal_strlit("scx_forge");
    assert("scx_bpfland"@.len() == 11 && "scx_bpfland"@[4] == 'b' && "scx_bpfland"@[5] == 'p');
    assert("scx_rusty"@.len() == 9 && "scx_rusty"@[4] == 'r' && "scx_rusty"@[5] == 'u');
    assert("scx_lavd"@.len() == 8 && "scx_lavd"@[4] == 'l' && "scx_lavd"@[5] == 'a');
    assert("scx_flash"@.len() == 9 && "scx_flash"@[4] == 'f' && "scx_flash"@[5] == 'l');
    assert("scx_p2dq"@.len() == 8 && "scx_p2dq"@[4] == 'p' && "scx_p2dq"@[5] == '2');
    assert("scx_tickless"@.len() == 12 && "scx_tickless"@[4] == 't' && "scx_tickless"@[5] == 'i');
    assert("scx_rustland"@.len() == 12 && "scx_rustland"@[4] == 'r' && "scx_rustland"@[5] == 'u');
    assert("scx_cosmos"@.len() == 10 && "scx_cosmos"@[4] == 'c' && "scx_cosmos"@[5] == 'o');
    assert("scx_beerland"@.len() == 12 && "scx_beerland"@[4] == 'b' && "scx_beerland"@[5] == 'e');
    assert("scx_cake"@.len() == 8 && "scx_cake"@[4] == 'c' && "scx_cake"@[5] == 'a');
    assert("scx_pandemonium"@.len() == 15 && "scx_pandemonium"@[4] == 'p' && "scx_pandemonium"@[5] == 'a');
    assert("scx_flow"@.len() == 8 && "scx_flow"@[4] == 'f' && "scx_flow"@[5] == 'l');
    assert("scx_forge"@.len() == 9 && "scx_forge"@[4] == 'f' && "scx_forge"@[5] == 'o');
}

} // verus!
