//! Process enumeration: grouping the running processes of the machine
//! by executable, with display metadata for the intercept UI.
//!
//! Reading the process table and the window list belongs to the
//! surrounding process; it hands the rows in as plain records, and the
//! grouping rules — one entry per executable, visibility merged across
//! processes, system accounts flagged — are verified here.

pub mod linux_list;
pub mod nix_list;

use vstd::prelude::*;

verus! {

/// One entry of the process list handed to the embedding application.
#[derive(Debug)]
pub struct ProcessInfo {
    /// Absolute path of the executable.
    pub executable: String,
    /// Name suitable for display in a UI.
    pub display_name: String,
    /// Whether some process of this executable has a visible window.
    pub is_visible: bool,
    /// Whether the first seen process of this executable runs as the
    /// superuser.
    pub is_system: bool,
}

/// All running executables, one entry each.
pub type ProcessList = Vec<ProcessInfo>;

/// One row of the operating system's process table, as the
/// surrounding process reads it: the process id, the executable path
/// when it could be resolved, and the effective user id when known.
#[derive(Debug)]
pub struct ProcessRecord {
    pub pid: u32,
    pub executable: Option<String>,
    pub euid: Option<u32>,
}

/// One row of the window enumeration: the owning process id, when the
/// platform reports one.
#[derive(Debug)]
pub struct WindowRecord {
    pub owner_pid: Option<u32>,
}

/// The observable content of one process-list entry.
pub open spec fn info_model(p: ProcessInfo) -> (Seq<char>, Seq<char>, bool, bool) {
    (p.executable@, p.display_name@, p.is_visible, p.is_system)
}

/// The observable content of a process list.
pub open spec fn models(r: Seq<ProcessInfo>) -> Seq<(Seq<char>, Seq<char>, bool, bool)> {
    r.map_values(|p: ProcessInfo| info_model(p))
}

/// Some entry already lists this executable.
pub open spec fn lists_exe(acc: Seq<(Seq<char>, Seq<char>, bool, bool)>, exe: Seq<char>) -> bool {
    exists|j: int| 0 <= j < acc.len() && acc[j].0 == exe
}

} // verus!
