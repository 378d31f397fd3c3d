//! Names of iOS system processes and subsystems that flood device logs.
use vstd::prelude::*;
use crate::text::{chars_of, eq_chars, lower, lower_chars, starts_with, starts_with_str};

verus! {

/// Subsystem prefixes of Apple's own components.
pub open spec fn system_subsystem_prefixes() -> Seq<Seq<char>> {
    seq!["com.apple."@, "com.apple.CoreSimulator."@, "com.apple.WebKit."@]
}

/// Processes of the iOS system.
pub open spec fn system_processes() -> Seq<Seq<char>> {
    seq!["SpringBoard"@, "backboardd"@, "assertiond"@, "runningboardd"@, "launchd"@, "logd"@, "installd"@, "cfprefsd"@, "networkd"@, "nsurlsessiond"@, "powerd"@, "securityd"@, "symptomsd"@, "trustd"@, "wifid"@, "Simulator"@, "SimulatorTrampoline"@]
}

/// The subsystem belongs to an Apple system component.
pub open spec fn spec_is_system_subsystem(subsystem: Seq<char>) -> bool {
    exists|i: int| 0 <= i < system_subsystem_prefixes().len() && starts_with(subsystem, #[trigger] system_subsystem_prefixes()[i])
}

/// The process is an iOS system process, compared ignoring ASCII case.
pub open spec fn spec_is_system_process(process: Seq<char>) -> bool {
    exists|i: int| 0 <= i < system_processes().len() && lower(process) == lower(#[trigger] system_processes()[i])
}

/// The subsystem prefixes as literals.
pub fn system_subsystem_prefix_list() -> (v: Vec<&'static str>)
    ensures
        v@.len() == system_subsystem_prefixes().len(),
        forall|i: int| 0 <= i < v@.len() ==> #[trigger] v@[i]@ == system_subsystem_prefixes()[i],
{
    let v = vec!["com.apple.", "com.apple.CoreSimulator.", "com.apple.WebKit."];
    v
}

/// The system process names as literals.
pub fn system_process_list() -> (v: Vec<&'static str>)
    ensures
        v@.len() == system_processes().len(),
        forall|i: int| 0 <= i < v@.len() ==> #[trigger] v@[i]@ == system_processes()[i],
{
    let v = vec!["SpringBoard", "backboardd", "assertiond", "runningboardd", "launchd", "logd", "installd", "cfprefsd", "networkd", "nsurlsessiond", "powerd", "securityd", "symptomsd", "trustd", "wifid", "Simulator", "SimulatorTrampoline"];
    v
}

pub fn is_ios_system_subsystem(subsystem: &str) -> (b: bool)
    ensures
        b == spec_is_system_subsystem(subsystem@),
{
    let cs = chars_of(subsystem);
    let list = system_subsystem_prefix_list();
    let mut i: usize = 0;
    while i < list.len()
        invariant
            i <= list@.len() == system_subsystem_prefixes().len(),
            cs@ == subsystem@,
            forall|k: int| 0 <= k < list@.len() ==> #[trigger] list@[k]@ == system_subsystem_prefixes()[k],
            forall|k: int| 0 <= k < i ==> !starts_with(subsystem@, #[trigger] system_subsystem_prefixes()[k]),
        decreases list.len() - i,
    {
        if starts_with_str(&cs, list[i]) {
            assert(starts_with(subsystem@, system_subsystem_prefixes()[i as int]));
            return true;
        }
        i += 1;
    }
    false
}

pub fn is_ios_system_process(process: &str) -> (b: bool)
    ensures
        b == spec_is_system_process(process@),
{
    let cs = chars_of(process);
    let lp = lower_chars(&cs);
    let list = system_process_list();
    let mut i: usize = 0;
    while i < list.len()
        invariant
            i <= list@.len() == system_processes().len(),
            lp@ == lower(process@),
            forall|k: int| 0 <= k < list@.len() ==> #[trigger] list@[k]@ == system_processes()[k],
            forall|k: int| 0 <= k < i ==> lower(process@) != lower(#[trigger] system_processes()[k]),
        decreases list.len() - i,
    {
        let cand = chars_of(list[i]);
        let lc = lower_chars(&cand);
        if eq_chars(&lp, &lc) {
            assert(lower(process@) == lower(system_processes()[i as int]));
            return true;
        }
        i += 1;
    }
    false
}

} // verus!
