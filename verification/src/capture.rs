//! Capture targets and the command lines that start iOS log streams.
use vstd::prelude::*;
use crate::adb::{AdbDevice, friendly, is_tcp_device};
use crate::ios::{IosDevice, IosSimulator};
use crate::sorting::{Key3, sort_by_key3, sorted_by_key3};
use crate::ios_noise::{system_process_list, system_processes, system_subsystem_prefix_list, system_subsystem_prefixes};
use crate::text::{chars_of, contains, decimal, decimal_string, join, join_strings, lines, push_char, push_decimal, sviews};
use crate::log_entry::opt_view;

verus! {

/// What an iOS capture is narrowed to.
#[derive(Debug, Clone, Default, PartialEq, Eq)]
pub struct CaptureScope {
    pub process: Option<String>,
    pub text: Option<String>,
    pub predicate: Option<String>,
    pub quiet: bool,
    pub clean: bool,
}

impl CaptureScope {
    pub fn is_empty(&self) -> (b: bool)
        ensures
            b == (self.process is None && self.text is None && self.predicate is None && !self.quiet
                && !self.clean),
    {
        self.process.is_none() && self.text.is_none() && self.predicate.is_none() && !self.quiet
            && !self.clean
    }

    pub fn is_explicitly_scoped(&self) -> (b: bool)
        ensures
            b == (self.process is Some || self.text is Some || self.predicate is Some),
    {
        self.process.is_some() || self.text.is_some() || self.predicate.is_some()
    }
}

#[derive(Debug, Clone, Copy, PartialEq, Eq, Structural)]
pub enum DevicePlatform {
    Android,
    IosDevice,
    IosSimulator,
}

/// iOS captures start in clean mode unless asked otherwise.
pub fn default_clean_capture(platform: DevicePlatform) -> (b: bool)
    ensures
        b == (platform != DevicePlatform::Android),
{
    match platform {
        DevicePlatform::IosDevice | DevicePlatform::IosSimulator => true,
        DevicePlatform::Android => false,
    }
}

pub open spec fn platform_label(p: DevicePlatform) -> Seq<char> {
    match p {
        DevicePlatform::Android => "Android"@,
        DevicePlatform::IosDevice => "iOS Device"@,
        DevicePlatform::IosSimulator => "iOS Simulator"@,
    }
}

impl DevicePlatform {
    pub fn label(self) -> (s: &'static str)
        ensures
            s@ == platform_label(self),
    {
        match self {
            DevicePlatform::Android => "Android",
            DevicePlatform::IosDevice => "iOS Device",
            DevicePlatform::IosSimulator => "iOS Simulator",
        }
    }
}

/// A device or simulator logs can be captured from.
#[derive(Debug, Clone, PartialEq, Eq)]
pub struct ConnectedDevice {
    pub id: String,
    pub name: String,
    pub description: String,
    pub platform: DevicePlatform,
}

impl ConnectedDevice {
    /// `"<name> (<platform>)"` (what `Display` writes).
    pub fn display_name(&self) -> (s: String)
        ensures
            s@ == self.name@ + " ("@ + platform_label(self.platform) + ")"@,
    {
        let mut s = self.name.clone();
        s.append(" (");
        s.append(self.platform.label());
        s.append(")");
        s
    }

    pub fn supports_package_filter(&self) -> (b: bool)
        ensures
            b == (self.platform == DevicePlatform::Android),
    {
        self.platform == DevicePlatform::Android
    }

    pub fn supports_ios_filters(&self) -> (b: bool)
        ensures
            b == (self.platform != DevicePlatform::Android),
    {
        match self.platform {
            DevicePlatform::IosDevice | DevicePlatform::IosSimulator => true,
            DevicePlatform::Android => false,
        }
    }

    pub fn supports_wireless_debugging(&self) -> (b: bool)
        ensures
            b == (self.platform == DevicePlatform::Android),
    {
        self.platform == DevicePlatform::Android
    }

    /// Only Android devices connected over TCP/IP can be disconnected.
    pub fn supports_disconnect(&self) -> (b: bool)
        ensures
            b == (self.platform == DevicePlatform::Android && contains(self.id@, ":"@)),
    {
        self.platform == DevicePlatform::Android && is_tcp_device(self.id.as_str())
    }
}

// ---------------------------------------------------------------------------
// iOS capture command lines
// ---------------------------------------------------------------------------

/// The escaping of `quote_predicate_string`: backslashes doubled, quotes
/// preceded by a backslash.
pub open spec fn predicate_escaped(s: Seq<char>) -> Seq<char>
    decreases s.len(),
{
    if s.len() == 0 {
        s
    } else if s.last() == '\\' || s.last() == '"' {
        predicate_escaped(s.drop_last()).push('\\').push(s.last())
    } else {
        predicate_escaped(s.drop_last()).push(s.last())
    }
}

/// A string literal of NSPredicate syntax.
pub open spec fn quoted(s: Seq<char>) -> Seq<char> {
    seq!['"'] + predicate_escaped(s) + seq!['"']
}

/// Quote `value` as an NSPredicate string literal.
pub fn quote_predicate_string(value: &str) -> (r: String)
    ensures
        r@ == quoted(value@),
{
    let cs = chars_of(value);
    let mut r = String::new();
    push_char(&mut r, '"');
    let mut i: usize = 0;
    assert(cs@.take(0) =~= Seq::<char>::empty());
    while i < cs.len()
        invariant
            i <= cs.len(),
            cs@ == value@,
            r@ == seq!['"'] + predicate_escaped(cs@.take(i as int)),
        decreases cs.len() - i,
    {
        let c = cs[i];
        assert(cs@.take(i + 1).drop_last() =~= cs@.take(i as int));
        assert(cs@.take(i + 1).last() == c);
        if c == '\\' || c == '"' {
            push_char(&mut r, '\\');
        }
        push_char(&mut r, c);
        assert(r@ =~= seq!['"'] + predicate_escaped(cs@.take(i + 1)));
        i += 1;
    }
    assert(cs@.take(i as int) =~= value@);
    push_char(&mut r, '"');
    r
}

/// The NSPredicate clause that hides iOS system processes and subsystems.
pub open spec fn clean_clause() -> Seq<char> {
    "NOT (("@ + join(
        Seq::new(system_processes().len(), |i: int| "process == "@ + quoted(system_processes()[i])),
        " OR "@,
    ) + ") OR ("@ + join(
        Seq::new(
            system_subsystem_prefixes().len(),
            |i: int| "subsystem BEGINSWITH "@ + quoted(system_subsystem_prefixes()[i]),
        ),
        " OR "@,
    ) + "))"@
}

pub fn simulator_clean_predicate_clause() -> (r: String)
    ensures
        r@ == clean_clause(),
{
    let procs = system_process_list();
    let mut pclauses: Vec<String> = Vec::new();
    let mut i: usize = 0;
    while i < procs.len()
        invariant
            i <= procs@.len() == system_processes().len(),
            forall|k: int| 0 <= k < procs@.len() ==> #[trigger] procs@[k]@ == system_processes()[k],
            pclauses@.len() == i,
            forall|k: int| 0 <= k < i ==> #[trigger] pclauses@[k]@ == "process == "@ + quoted(system_processes()[k]),
        decreases procs.len() - i,
    {
        let mut c = "process == ".to_string();
        let q = quote_predicate_string(procs[i]);
        c.append(q.as_str());
        pclauses.push(c);
        i += 1;
    }
    let prefixes = system_subsystem_prefix_list();
    let mut sclauses: Vec<String> = Vec::new();
    let mut j: usize = 0;
    while j < prefixes.len()
        invariant
            j <= prefixes@.len() == system_subsystem_prefixes().len(),
            forall|k: int| 0 <= k < prefixes@.len() ==> #[trigger] prefixes@[k]@ == system_subsystem_prefixes()[k],
            sclauses@.len() == j,
            forall|k: int| 0 <= k < j ==> #[trigger] sclauses@[k]@ == "subsystem BEGINSWITH "@ + quoted(system_subsystem_prefixes()[k]),
        decreases prefixes.len() - j,
    {
        let mut c = "subsystem BEGINSWITH ".to_string();
        let q = quote_predicate_string(prefixes[j]);
        c.append(q.as_str());
        sclauses.push(c);
        j += 1;
    }
    assert(sviews(pclauses@) =~= Seq::new(system_processes().len(), |i: int| "process == "@ + quoted(system_processes()[i])));
    assert(sviews(sclauses@) =~= Seq::new(
        system_subsystem_prefixes().len(),
        |i: int| "subsystem BEGINSWITH "@ + quoted(system_subsystem_prefixes()[i]),
    ));
    let p = join_strings(&pclauses, " OR ");
    let s = join_strings(&sclauses, " OR ");
    let mut r = "NOT ((".to_string();
    r.append(p.as_str());
    r.append(") OR (");
    r.append(s.as_str());
    r.append("))");
    r
}

/// The clauses of a simulator capture predicate, in order: the clean-mode
/// exclusion, the process (only alongside a text or a user predicate), the
/// text, and the user's predicate in parentheses.
pub open spec fn predicate_clauses(scope: CaptureScope) -> Seq<Seq<char>> {
    let c1: Seq<Seq<char>> = if scope.clean {
        seq![clean_clause()]
    } else {
        seq![]
    };
    let c2: Seq<Seq<char>> = if (scope.text is Some || scope.predicate is Some) && scope.process is Some {
        seq!["process == "@ + quoted(scope.process.unwrap()@)]
    } else {
        seq![]
    };
    let c3: Seq<Seq<char>> = match scope.text {
        Some(t) => seq!["composedMessage CONTAINS[c] "@ + quoted(t@)],
        None => seq![],
    };
    let c4: Seq<Seq<char>> = match scope.predicate {
        Some(p) => seq!["("@ + p@ + ")"@],
        None => seq![],
    };
    c1 + c2 + c3 + c4
}

/// The `--predicate` of a simulator capture: the clauses joined by `AND`,
/// or none when there are none.
pub open spec fn simulator_predicate(scope: CaptureScope) -> Option<Seq<char>> {
    if predicate_clauses(scope).len() == 0 {
        None
    } else {
        Some(join(predicate_clauses(scope), " AND "@))
    }
}

pub fn build_ios_simulator_predicate(scope: &CaptureScope) -> (r: Option<String>)
    ensures
        opt_view(r) == simulator_predicate(*scope),
{
    let mut clauses: Vec<String> = Vec::new();
    if scope.clean {
        clauses.push(simulator_clean_predicate_clause());
    }
    if scope.text.is_some() || scope.predicate.is_some() {
        if let Some(process) = &scope.process {
            let mut c = "process == ".to_string();
            let q = quote_predicate_string(process.as_str());
            c.append(q.as_str());
            clauses.push(c);
        }
    }
    if let Some(text) = &scope.text {
        let mut c = "composedMessage CONTAINS[c] ".to_string();
        let q = quote_predicate_string(text.as_str());
        c.append(q.as_str());
        clauses.push(c);
    }
    if let Some(predicate) = &scope.predicate {
        let mut c = "(".to_string();
        c.append(predicate.as_str());
        c.append(")");
        clauses.push(c);
    }
    assert(sviews(clauses@) =~= predicate_clauses(*scope));
    if clauses.len() == 0 {
        None
    } else {
        Some(join_strings(&clauses, " AND "))
    }
}

/// Arguments of `xcrun` for a simulator log stream.
pub open spec fn simulator_args(udid: Seq<char>, scope: CaptureScope) -> Seq<Seq<char>> {
    let base = seq![
        "simctl"@,
        "spawn"@,
        udid,
        "log"@,
        "stream"@,
        "--style"@,
        "ndjson"@,
        "--level"@,
        "debug"@,
    ];
    match simulator_predicate(scope) {
        Some(p) => base + seq!["--predicate"@, p],
        None => match scope.process {
            Some(proc_name) => base + seq!["--process"@, proc_name@],
            None => base,
        },
    }
}

pub fn build_ios_simulator_capture_args(udid: &str, scope: &CaptureScope) -> (r: Vec<String>)
    ensures
        sviews(r@) == simulator_args(udid@, *scope),
{
    let mut args: Vec<String> = Vec::new();
    args.push("simctl".to_string());
    args.push("spawn".to_string());
    args.push(udid.to_string());
    args.push("log".to_string());
    args.push("stream".to_string());
    args.push("--style".to_string());
    args.push("ndjson".to_string());
    args.push("--level".to_string());
    args.push("debug".to_string());
    if let Some(predicate) = build_ios_simulator_predicate(scope) {
        args.push("--predicate".to_string());
        args.push(predicate);
    } else if let Some(process) = &scope.process {
        args.push("--process".to_string());
        args.push(process.clone());
    }
    assert(sviews(args@) =~= simulator_args(udid@, *scope));
    args
}

/// Arguments of `idevicesyslog` for a device log stream.
pub open spec fn device_args(udid: Seq<char>, scope: CaptureScope) -> Seq<Seq<char>> {
    seq!["-u"@, udid] + (if scope.clean || scope.quiet {
        seq!["--quiet"@]
    } else {
        seq![]
    }) + (match scope.process {
        Some(p) => seq!["--process"@, p@],
        None => seq![],
    }) + (match scope.text {
        Some(t) => seq!["--match"@, t@],
        None => seq![],
    })
}

pub fn build_ios_device_capture_args(udid: &str, scope: &CaptureScope) -> (r: Vec<String>)
    ensures
        sviews(r@) == device_args(udid@, *scope),
{
    let mut args: Vec<String> = Vec::new();
    args.push("-u".to_string());
    args.push(udid.to_string());
    if scope.clean || scope.quiet {
        args.push("--quiet".to_string());
    }
    if let Some(process) = &scope.process {
        args.push("--process".to_string());
        args.push(process.clone());
    }
    if let Some(text) = &scope.text {
        args.push("--match".to_string());
        args.push(text.clone());
    }
    assert(sviews(args@) =~= device_args(udid@, *scope));
    args
}

/// Arguments of `adb` for a logcat stream of `device_id`, optionally only
/// for process `pid`, starting with the last `backlog` lines.
pub open spec fn android_args(device_id: Seq<char>, backlog: nat, pid: Option<u32>) -> Seq<Seq<char>> {
    seq!["-s"@, device_id, "logcat"@, "-T"@, decimal(backlog), "-v"@, "threadtime"@] + match pid {
        Some(p) => seq!["--pid="@ + decimal(p as nat)],
        None => seq![],
    }
}

pub fn build_android_capture_args(device_id: &str, backlog: usize, pid_filter: Option<u32>) -> (r: Vec<String>)
    ensures
        sviews(r@) == android_args(device_id@, backlog as nat, pid_filter),
{
    let mut args: Vec<String> = Vec::new();
    args.push("-s".to_string());
    args.push(device_id.to_string());
    args.push("logcat".to_string());
    args.push("-T".to_string());
    args.push(decimal_string(backlog as u64));
    args.push("-v".to_string());
    args.push("threadtime".to_string());
    if let Some(pid) = pid_filter {
        let mut a = "--pid=".to_string();
        push_decimal(&mut a, pid as u64);
        args.push(a);
    }
    assert(sviews(args@) =~= android_args(device_id@, backlog as nat, pid_filter));
    args
}

// ---------------------------------------------------------------------------
// Capture targets
// ---------------------------------------------------------------------------

impl Key3 for ConnectedDevice {
    open spec fn key3(&self) -> (Seq<char>, Seq<char>, Seq<char>) {
        (platform_label(self.platform), self.name@, self.id@)
    }

    fn key_parts(&self) -> (r: (&str, &str, &str)) {
        (self.platform.label(), self.name.as_str(), self.id.as_str())
    }
}

/// A capture target as values: platform, id, name and description.
pub open spec fn target_view(d: ConnectedDevice) -> (DevicePlatform, Seq<char>, Seq<char>, Seq<char>) {
    (d.platform, d.id@, d.name@, d.description@)
}

pub open spec fn target_views(k: Seq<ConnectedDevice>) -> Seq<(DevicePlatform, Seq<char>, Seq<char>, Seq<char>)> {
    k.map_values(|d: ConnectedDevice| target_view(d))
}

/// The capture targets that the Android devices, physical iOS devices and
/// booted simulators give, in that order before sorting.
pub open spec fn targets_of(adb: Seq<AdbDevice>, ios: Seq<IosDevice>, sims: Seq<IosSimulator>) -> Seq<
    (DevicePlatform, Seq<char>, Seq<char>, Seq<char>),
> {
    adb.map_values(
        |d: AdbDevice| (DevicePlatform::Android, d.serial@, friendly(d.serial@, d.description@), d.description@),
    ) + ios.map_values(|d: IosDevice| (DevicePlatform::IosDevice, d.udid@, d.name@, d.description@))
        + sims.map_values(|s: IosSimulator| (DevicePlatform::IosSimulator, s.udid@, s.name@, s.runtime@))
}

/// All capture targets: Android devices (named by their model), physical
/// iOS devices and booted simulators (described by their runtime), ordered
/// by platform label, name and id.
pub fn merge_connected_devices(adb: Vec<AdbDevice>, ios: Vec<IosDevice>, sims: Vec<IosSimulator>) -> (r: Vec<
    ConnectedDevice,
>)
    ensures
        sorted_by_key3(r@),
        exists|k: Seq<ConnectedDevice>| #[trigger] target_views(k) == targets_of(adb@, ios@, sims@)
            && r@.to_multiset() == k.to_multiset(),
{
    let mut all: Vec<ConnectedDevice> = Vec::new();
    let mut i: usize = 0;
    let ghost a = adb@.map_values(
        |d: AdbDevice| (DevicePlatform::Android, d.serial@, friendly(d.serial@, d.description@), d.description@),
    );
    let ghost b = ios@.map_values(|d: IosDevice| (DevicePlatform::IosDevice, d.udid@, d.name@, d.description@));
    let ghost c = sims@.map_values(|s: IosSimulator| (DevicePlatform::IosSimulator, s.udid@, s.name@, s.runtime@));
    while i < adb.len()
        invariant
            i <= adb@.len(),
            a == adb@.map_values(
                |d: AdbDevice| (DevicePlatform::Android, d.serial@, friendly(d.serial@, d.description@), d.description@),
            ),
            target_views(all@) == a.take(i as int),
        decreases adb@.len() - i,
    {
        let d = &adb[i];
        let ghost before = all@;
        let t = ConnectedDevice {
            id: d.serial.clone(),
            name: d.friendly_name(),
            description: d.description.clone(),
            platform: DevicePlatform::Android,
        };
        assert(target_view(t) == a[i as int]);
        all.push(t);
        assert(target_views(all@) =~= target_views(before).push(target_view(t)));
        assert(a.take(i + 1) =~= a.take(i as int).push(a[i as int]));
        i += 1;
    }
    assert(a.take(i as int) =~= a);
    let mut j: usize = 0;
    while j < ios.len()
        invariant
            j <= ios@.len(),
            b == ios@.map_values(|d: IosDevice| (DevicePlatform::IosDevice, d.udid@, d.name@, d.description@)),
            target_views(all@) == a + b.take(j as int),
        decreases ios@.len() - j,
    {
        let d = &ios[j];
        let ghost before = all@;
        let t = ConnectedDevice {
            id: d.udid.clone(),
            name: d.name.clone(),
            description: d.description.clone(),
            platform: DevicePlatform::IosDevice,
        };
        assert(target_view(t) == b[j as int]);
        all.push(t);
        assert(target_views(all@) =~= target_views(before).push(target_view(t)));
        assert(a + b.take(j + 1) =~= (a + b.take(j as int)).push(b[j as int]));
        j += 1;
    }
    assert(b.take(j as int) =~= b);
    let mut k: usize = 0;
    while k < sims.len()
        invariant
            k <= sims@.len(),
            c == sims@.map_values(|s: IosSimulator| (DevicePlatform::IosSimulator, s.udid@, s.name@, s.runtime@)),
            target_views(all@) == a + b + c.take(k as int),
        decreases sims@.len() - k,
    {
        let s = &sims[k];
        let ghost before = all@;
        let t = ConnectedDevice {
            id: s.udid.clone(),
            name: s.name.clone(),
            description: s.runtime.clone(),
            platform: DevicePlatform::IosSimulator,
        };
        assert(target_view(t) == c[k as int]);
        all.push(t);
        assert(target_views(all@) =~= target_views(before).push(target_view(t)));
        assert(a + b + c.take(k + 1) =~= (a + b + c.take(k as int)).push(c[k as int]));
        k += 1;
    }
    assert(c.take(k as int) =~= c);
    let ghost built = all@;
    let r = sort_by_key3(all);
    assert(target_views(built) == targets_of(adb@, ios@, sims@));
    r
}

/// The simulators that are booted.
pub fn booted_simulators(sims: &Vec<IosSimulator>) -> (r: Vec<IosSimulator>)
    ensures
        r@ == sims@.filter(|s: IosSimulator| s.state@ == "Booted"@),
{
    let mut out: Vec<IosSimulator> = Vec::new();
    let mut i: usize = 0;
    let ghost f = |s: IosSimulator| s.state@ == "Booted"@;
    assert(sims@.take(0).filter(f) =~= Seq::<IosSimulator>::empty());
    while i < sims.len()
        invariant
            i <= sims@.len(),
            f == (|s: IosSimulator| s.state@ == "Booted"@),
            out@ == sims@.take(i as int).filter(f),
        decreases sims@.len() - i,
    {
        let s = &sims[i];
        if crate::text::str_eq(s.state.as_str(), "Booted") {
            out.push(
                IosSimulator {
                    udid: s.udid.clone(),
                    name: s.name.clone(),
                    runtime: s.runtime.clone(),
                    state: s.state.clone(),
                },
            );
        }
        proof {
            assert(sims@.take(i as int).push(sims@[i as int]) =~= sims@.take(i + 1));
            sims@.take(i as int).lemma_filter_push(sims@[i as int], f);
        }
        i += 1;
    }
    assert(sims@.take(i as int) =~= sims@);
    out
}

} // verus!
