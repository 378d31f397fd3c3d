//! iOS capture targets: physical devices from `devicectl` records and
//! simulators from `simctl` records.
use vstd::prelude::*;
use crate::log_entry::{normalize_optional, normalize_optional_string, opt_view};
use crate::sorting::{Key3, sort_by_key3, sorted_by_key3};
use crate::network_condition::{NetworkConditionPreset, preset_label, preset_slug};
use crate::text::{chars_eq_str, chars_of, decode_lossy, join, join_strings, lower, lower_chars, str_eq, sviews, trim, trim_str, utf8_lossy};

verus! {

/// A physical iOS device.
#[derive(Debug, Clone, PartialEq, Eq)]
pub struct IosDevice {
    pub udid: String,
    pub name: String,
    pub description: String,
}

impl Key3 for IosDevice {
    open spec fn key3(&self) -> (Seq<char>, Seq<char>, Seq<char>) {
        (self.name@, self.description@, self.udid@)
    }

    fn key_parts(&self) -> (r: (&str, &str, &str)) {
        (self.name.as_str(), self.description.as_str(), self.udid.as_str())
    }
}

/// An iOS simulator.
#[derive(Debug, Clone, PartialEq, Eq)]
pub struct IosSimulator {
    pub udid: String,
    pub name: String,
    pub runtime: String,
    pub state: String,
}

impl Key3 for IosSimulator {
    open spec fn key3(&self) -> (Seq<char>, Seq<char>, Seq<char>) {
        (self.name@, self.runtime@, self.udid@)
    }

    fn key_parts(&self) -> (r: (&str, &str, &str)) {
        (self.name.as_str(), self.runtime.as_str(), self.udid.as_str())
    }
}

/// One device of `xcrun devicectl list devices` (absent fields are empty).
#[derive(Debug, Clone, Default)]
pub struct DevicectlDevice {
    pub pairing_state: String,
    pub transport_type: String,
    pub name: String,
    pub os_version_number: String,
    pub marketing_name: String,
    pub platform: String,
    pub reality: String,
    pub udid: String,
}

/// `a` equals `b` ignoring ASCII case (`str::eq_ignore_ascii_case`).
pub open spec fn eq_ignoring_ascii_case(a: Seq<char>, b: Seq<char>) -> bool {
    lower(a) == lower(b)
}

fn eq_ignore_ascii_case(a: &str, b: &str) -> (r: bool)
    ensures
        r == eq_ignoring_ascii_case(a@, b@),
{
    let x = chars_of(a);
    let y = chars_of(b);
    let xl = lower_chars(&x);
    let yl = lower_chars(&y);
    crate::text::eq_chars(&xl, &yl)
}

/// The name a device shows: its own, else its model, else its udid.
pub open spec fn device_name(d: DevicectlDevice, udid: Seq<char>) -> Seq<char> {
    match normalize_optional(d.name@) {
        Some(n) => n,
        None => match normalize_optional(d.marketing_name@) {
            Some(m) => m,
            None => udid,
        },
    }
}

/// The parts of a device's description: its model (unless that is its
/// name), its iOS version, and `USB`.
pub open spec fn description_parts(d: DevicectlDevice, name: Seq<char>) -> Seq<Seq<char>> {
    (match normalize_optional(d.marketing_name@) {
        Some(m) => if m != name {
            seq![m]
        } else {
            seq![]
        },
        None => seq![],
    }) + (match normalize_optional(d.os_version_number@) {
        Some(v) => seq!["iOS "@ + v],
        None => seq![],
    }) + seq!["USB"@]
}

/// The device a record describes, when it is a paired physical iOS device
/// on a cable and has a udid: its udid, name and description.
pub open spec fn device_from_record(d: DevicectlDevice) -> Option<(Seq<char>, Seq<char>, Seq<char>)> {
    if !eq_ignoring_ascii_case(d.platform@, "iOS"@) || !eq_ignoring_ascii_case(d.reality@, "physical"@) {
        None
    } else if !eq_ignoring_ascii_case(d.pairing_state@, "paired"@) || !eq_ignoring_ascii_case(
        d.transport_type@,
        "wired"@,
    ) {
        None
    } else {
        match normalize_optional(d.udid@) {
            None => None,
            Some(u) => {
                let name = device_name(d, u);
                Some((u, name, join(description_parts(d, name), " · "@)))
            },
        }
    }
}

/// The device a `devicectl` record describes, if it is one to capture from.
pub fn ios_device_from_record(d: &DevicectlDevice) -> (r: Option<IosDevice>)
    ensures
        match device_from_record(*d) {
            Some((u, n, desc)) => (r matches Some(x) && x.udid@ == u && x.name@ == n && x.description@
                == desc),
            None => r is None,
        },
{
    if !eq_ignore_ascii_case(d.platform.as_str(), "iOS") || !eq_ignore_ascii_case(
        d.reality.as_str(),
        "physical",
    ) {
        return None;
    }
    if !eq_ignore_ascii_case(d.pairing_state.as_str(), "paired") || !eq_ignore_ascii_case(
        d.transport_type.as_str(),
        "wired",
    ) {
        return None;
    }
    let udid = match normalize_optional_string(d.udid.as_str()) {
        Some(u) => u,
        None => return None,
    };
    let name = match normalize_optional_string(d.name.as_str()) {
        Some(n) => n,
        None => match normalize_optional_string(d.marketing_name.as_str()) {
            Some(m) => m,
            None => udid.clone(),
        },
    };
    let mut parts: Vec<String> = Vec::new();
    let ghost p0 = sviews(parts@);
    match normalize_optional_string(d.marketing_name.as_str()) {
        Some(model) => {
            if !str_eq(model.as_str(), name.as_str()) {
                parts.push(model);
            }
        },
        None => {},
    }
    let ghost p1 = sviews(parts@);
    match normalize_optional_string(d.os_version_number.as_str()) {
        Some(version) => {
            let mut v = "iOS ".to_string();
            v.append(version.as_str());
            parts.push(v);
        },
        None => {},
    }
    let ghost p2 = sviews(parts@);
    parts.push("USB".to_string());
    proof {
        assert(sviews(parts@) =~= description_parts(*d, name@));
    }
    let description = join_strings(&parts, " · ");
    Some(IosDevice { udid, name, description })
}

/// The devices to capture from, in order of name, description and udid.
pub fn ios_devices_from_records(records: &Vec<DevicectlDevice>) -> (r: Vec<IosDevice>)
    ensures
        sorted_by_key3(r@),
        exists|k: Seq<IosDevice>| #[trigger] device_views(k) == kept_devices(records@) && r@.to_multiset() == k.to_multiset(),
{
    let mut kept: Vec<IosDevice> = Vec::new();
    let mut i: usize = 0;
    while i < records.len()
        invariant
            i <= records@.len(),
            kept@.map_values(|x: IosDevice| (x.udid@, x.name@, x.description@)) == kept_devices(
                records@.take(i as int),
            ),
        decreases records@.len() - i,
    {
        let ghost before = kept@;
        assert(records@.take(i + 1).drop_last() =~= records@.take(i as int));
        match ios_device_from_record(&records[i]) {
            Some(x) => {
                kept.push(x);
                assert(kept@.map_values(|x: IosDevice| (x.udid@, x.name@, x.description@)) =~= before.map_values(
                    |x: IosDevice| (x.udid@, x.name@, x.description@),
                ).push((x.udid@, x.name@, x.description@)));
            },
            None => {},
        }
        i += 1;
    }
    assert(records@.take(i as int) =~= records@);
    let ghost k = kept@;
    let sorted = sort_by_key3(kept);
    assert(device_views(k) == kept_devices(records@));
    sorted
}

pub open spec fn device_views(k: Seq<IosDevice>) -> Seq<(Seq<char>, Seq<char>, Seq<char>)> {
    k.map_values(|x: IosDevice| (x.udid@, x.name@, x.description@))
}

/// The devices kept from a sequence of records, in order.
pub open spec fn kept_devices(rs: Seq<DevicectlDevice>) -> Seq<(Seq<char>, Seq<char>, Seq<char>)>
    decreases rs.len(),
{
    if rs.len() == 0 {
        seq![]
    } else {
        let prev = kept_devices(rs.drop_last());
        match device_from_record(rs.last()) {
            Some(t) => prev.push(t),
            None => prev,
        }
    }
}

/// One simulator of `xcrun simctl list devices --json`, with its runtime.
#[derive(Debug, Clone)]
pub struct SimctlDevice {
    pub runtime: String,
    pub udid: String,
    pub name: String,
    pub state: String,
    pub is_available: bool,
}

/// The available simulators, in order of name, runtime and udid.
pub fn simulators_from_records(records: Vec<SimctlDevice>) -> (r: Vec<IosSimulator>)
    ensures
        sorted_by_key3(r@),
        r@.to_multiset() == available_simulators(records@).to_multiset(),
{
    let ghost all = records@;
    let mut rest = records;
    let mut kept: Vec<IosSimulator> = Vec::new();
    let ghost mut done: Seq<SimctlDevice> = Seq::empty();
    assert(done + rest@ =~= all);
    while rest.len() > 0
        invariant
            done + rest@ == all,
            kept@ == available_simulators(done),
        decreases rest@.len(),
    {
        let ghost before = rest@;
        let d = rest.remove(0);
        proof {
            assert(before =~= seq![d] + rest@);
            assert(done.push(d) + rest@ =~= all);
            assert(done.push(d).drop_last() =~= done);
        }
        if d.is_available {
            kept.push(IosSimulator { udid: d.udid, name: d.name, runtime: d.runtime, state: d.state });
        }
        proof {
            done = done.push(d);
        }
    }
    assert(done =~= all);
    sort_by_key3(kept)
}

/// The simulators the available records describe, in order.
pub open spec fn available_simulators(rs: Seq<SimctlDevice>) -> Seq<IosSimulator>
    decreases rs.len(),
{
    if rs.len() == 0 {
        seq![]
    } else {
        let prev = available_simulators(rs.drop_last());
        let d = rs.last();
        if d.is_available {
            prev.push(IosSimulator { udid: d.udid, name: d.name, runtime: d.runtime, state: d.state })
        } else {
            prev
        }
    }
}

/// The name `idevicesyslog` is run by when no known install location has it.
pub const IDEVICESYSLOG: &'static str = "idevicesyslog";

/// The `idevicesyslog` to run: the first candidate path that exists, else
/// the bare name (looked up in `PATH`).
pub fn idevicesyslog_binary(candidates: &Vec<(String, bool)>) -> (r: String)
    ensures
        (exists|i: int| 0 <= i < candidates@.len() && #[trigger] candidates@[i].1) ==> exists|i: int|
            0 <= i < candidates@.len() && #[trigger] candidates@[i].1 && r@ == candidates@[i].0@ && forall|k: int|
                0 <= k < i ==> !#[trigger] candidates@[k].1,
        (forall|k: int| 0 <= k < candidates@.len() ==> !#[trigger] candidates@[k].1) ==> r@ == IDEVICESYSLOG@,
{
    let mut i: usize = 0;
    while i < candidates.len()
        invariant
            i <= candidates@.len(),
            forall|k: int| 0 <= k < i ==> !#[trigger] candidates@[k].1,
        decreases candidates@.len() - i,
    {
        if candidates[i].1 {
            return candidates[i].0.clone();
        }
        i += 1;
    }
    IDEVICESYSLOG.to_string()
}

/// Whether device logs can be read: an installed `idevicesyslog` was found,
/// or the bare name resolves in `PATH`.
pub fn idevicesyslog_available(binary: &str, found_in_path: bool) -> (b: bool)
    ensures
        b == (binary@ != IDEVICESYSLOG@ || found_in_path),
{
    !str_eq(binary, IDEVICESYSLOG) || found_in_path
}

// ---------------------------------------------------------------------------
// simctl and the network controller
// ---------------------------------------------------------------------------
fn trimmed_text(bytes: &[u8]) -> (s: String)
    ensures
        s@ == trim(utf8_lossy(bytes@)),
{
    let t = decode_lossy(bytes);
    trim_str(t.as_str())
}

/// What the network controller reported: its output, else its error output,
/// else `fallback` (each trimmed).
pub open spec fn controller_text(stdout: Seq<u8>, stderr: Seq<u8>, fallback: Seq<char>) -> Seq<char> {
    if trim(utf8_lossy(stdout)).len() > 0 {
        trim(utf8_lossy(stdout))
    } else if trim(utf8_lossy(stderr)).len() > 0 {
        trim(utf8_lossy(stderr))
    } else {
        fallback
    }
}

pub fn controller_message(stdout: &[u8], stderr: &[u8], fallback: &str) -> (s: String)
    ensures
        s@ == controller_text(stdout@, stderr@, fallback@),
{
    let out = trimmed_text(stdout);
    if !out.as_str().is_empty() {
        return out;
    }
    let err = trimmed_text(stderr);
    if !err.as_str().is_empty() {
        return err;
    }
    fallback.to_string()
}

/// How a network-controller run ended: its report when it exited cleanly;
/// else its error output, or the exit-status error when that is empty.
pub fn controller_outcome(
    exited_ok: bool,
    stdout: &[u8],
    stderr: &[u8],
    status_error: String,
    success_fallback: &str,
) -> (r: Result<String, String>)
    ensures
        exited_ok ==> (r matches Ok(m) && m@ == controller_text(stdout@, stderr@, success_fallback@)),
        !exited_ok && trim(utf8_lossy(stderr@)).len() > 0 ==> (r matches Err(e) && e@ == trim(utf8_lossy(stderr@))),
        !exited_ok && trim(utf8_lossy(stderr@)).len() == 0 ==> r == Err::<String, String>(status_error),
{
    if exited_ok {
        return Ok(controller_message(stdout, stderr, success_fallback));
    }
    let err = trimmed_text(stderr);
    if err.as_str().is_empty() {
        Err(status_error)
    } else {
        Err(err)
    }
}

/// The network controller's arguments to apply a preset to a simulator.
pub fn simulator_network_apply_args(udid: &str, preset: NetworkConditionPreset) -> (r: Vec<String>)
    ensures
        sviews(r@) == seq!["apply"@, "--udid"@, udid@, "--preset"@, preset_slug(preset)],
{
    let r = vec![
        "apply".to_string(),
        "--udid".to_string(),
        udid.to_string(),
        "--preset".to_string(),
        preset.slug().to_string(),
    ];
    assert(sviews(r@) =~= seq!["apply"@, "--udid"@, udid@, "--preset"@, preset_slug(preset)]);
    r
}

/// The network controller's arguments to clear a simulator's throttling.
pub fn simulator_network_clear_args(udid: &str) -> (r: Vec<String>)
    ensures
        sviews(r@) == seq!["clear"@, "--udid"@, udid@],
{
    let r = vec!["clear".to_string(), "--udid".to_string(), udid.to_string()];
    assert(sviews(r@) =~= seq!["clear"@, "--udid"@, udid@]);
    r
}

/// What applying a preset to a simulator reports when the controller says
/// nothing.
pub fn simulator_network_applied(preset: NetworkConditionPreset, udid: &str) -> (s: String)
    ensures
        s@ == "Applied "@ + preset_label(preset) + " network condition on "@ + udid@,
{
    let mut s = "Applied ".to_string();
    s.append(preset.label());
    s.append(" network condition on ");
    s.append(udid);
    s
}

/// What clearing a simulator's throttling reports when the controller says
/// nothing.
pub fn simulator_network_cleared(udid: &str) -> (s: String)
    ensures
        s@ == "Cleared network throttling on "@ + udid@,
{
    let mut s = "Cleared network throttling on ".to_string();
    s.append(udid);
    s
}

/// The report of a cleared simulator location.
pub fn simulator_location_cleared(udid: &str) -> (s: String)
    ensures
        s@ == "Location cleared on "@ + udid@,
{
    let mut s = "Location cleared on ".to_string();
    s.append(udid);
    s
}

/// `simctl bootstatus` output: its output and error output (trimmed), on
/// two lines when both are there.
pub open spec fn boot_output_text(stdout: Seq<u8>, stderr: Seq<u8>) -> Seq<char> {
    let o = trim(utf8_lossy(stdout));
    let e = trim(utf8_lossy(stderr));
    if o.len() == 0 {
        e
    } else if e.len() == 0 {
        o
    } else {
        o + "\n"@ + e
    }
}

pub fn boot_output(stdout: &[u8], stderr: &[u8]) -> (s: String)
    ensures
        s@ == boot_output_text(stdout@, stderr@),
{
    let o = trimmed_text(stdout);
    let e = trimmed_text(stderr);
    if o.as_str().is_empty() {
        e
    } else if e.as_str().is_empty() {
        o
    } else {
        let mut s = o;
        s.append("\n");
        s.append(e.as_str());
        s
    }
}

pub open spec fn first_sim_with(sims: Seq<IosSimulator>, udid: Seq<char>, i: int) -> bool {
    &&& 0 <= i < sims.len()
    &&& sims[i].udid@ == udid
    &&& forall|j: int| 0 <= j < i ==> (#[trigger] sims[j]).udid@ != udid
}

/// After `simctl bootstatus` succeeded: the booted simulator's name when the
/// simulator list shows it booted; else the error saying it is missing or
/// in which state it ended (with the simctl output, if any).
pub fn check_booted(sims: &Vec<IosSimulator>, udid: &str, output: &str) -> (r: Result<String, String>)
    ensures
        (forall|i: int| 0 <= i < sims@.len() ==> (#[trigger] sims@[i]).udid@ != udid@) ==> (r matches Err(e)
            && e@ == "Simulator "@ + udid@ + " was not found after booting"@),
        forall|i: int|
            #[trigger] first_sim_with(sims@, udid@, i) ==> if sims@[i].state@ == "Booted"@ {
                r matches Ok(n) && n@ == sims@[i].name@
            } else {
                r matches Err(e) && e@ == "Simulator "@ + sims@[i].name@ + " did not end in the Booted state (current state: "@
                    + sims@[i].state@ + ")."@ + if output@.len() == 0 {
                    Seq::<char>::empty()
                } else {
                    "\n\nsimctl output:\n"@ + output@
                }
            },
{
    let mut i: usize = 0;
    while i < sims.len()
        invariant
            i <= sims@.len(),
            forall|j: int| 0 <= j < i ==> (#[trigger] sims@[j]).udid@ != udid@,
        decreases sims@.len() - i,
    {
        if str_eq(sims[i].udid.as_str(), udid) {
            proof {
                assert(first_sim_with(sims@, udid@, i as int));
                assert forall|k: int| #[trigger] first_sim_with(sims@, udid@, k) implies k == i by {
                    if k < i {
                        assert(sims@[k].udid@ != udid@);
                    } else if k > i {
                        assert(sims@[i as int].udid@ != udid@);
                    }
                }
            }
            let sim = &sims[i];
            if str_eq(sim.state.as_str(), "Booted") {
                return Ok(sim.name.clone());
            }
            let mut e = "Simulator ".to_string();
            e.append(sim.name.as_str());
            e.append(" did not end in the Booted state (current state: ");
            e.append(sim.state.as_str());
            e.append(").");
            let ghost base = e@;
            if !output.is_empty() {
                e.append("\n\nsimctl output:\n");
                e.append(output);
                assert(e@ =~= base + ("\n\nsimctl output:\n"@ + output@));
            } else {
                assert(e@ =~= base + Seq::<char>::empty());
            }
            return Err(e);
        }
        i += 1;
    }
    let mut e = "Simulator ".to_string();
    e.append(udid);
    e.append(" was not found after booting");
    Err(e)
}

/// The report of a booted simulator.
pub fn booted_message(name: &str) -> (s: String)
    ensures
        s@ == "Booted "@ + name@ + " and opened Simulator.app"@,
{
    let mut s = "Booted ".to_string();
    s.append(name);
    s.append(" and opened Simulator.app");
    s
}

} // verus!
