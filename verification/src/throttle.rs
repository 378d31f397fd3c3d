//! The control protocol of the Android helper app that throttles a physical
//! device's traffic: requests, responses, and how a response is reported.
use vstd::prelude::*;
use crate::network_condition::{CustomNetworkParams, NetworkConditionPreset, NetworkConditionSpec};
use crate::log_entry::opt_view;
use crate::named::{lemma_distinct_push, lemma_distinct_remove, lemma_named_absent, lemma_named_at, lemma_named_remove, lemma_named_update, named_map, names_distinct};
use crate::text::{decimal, decode_lossy, push_decimal, str_eq, sviews, trim, trim_str, utf8_lossy};

verus! {

/// Package identifier of the helper app.
pub const HELPER_PACKAGE: &'static str = "dev.catpane.helper";

/// Device-side TCP port of the helper's control server.
pub const HELPER_DEVICE_PORT: u16 = 47821;

/// Environment variable naming a helper APK to use instead of the bundled one.
pub const HELPER_APK_ENV: &'static str = "CATPANE_HELPER_APK";

/// File name of the helper APK shipped next to the binary.
pub const HELPER_APK_FILENAME: &'static str = "catpane-helper.apk";

/// Which local traffic the helper's VPN leaves alone.
#[derive(Debug, Clone, Copy, PartialEq, Eq, Structural)]
pub enum LanExclusionMode {
    /// Tunnel everything, including LAN.
    NoExclusion,
    /// Exclude only the workstation that issued the control request.
    AdbHostOnly,
    /// Exclude the entire local subnet.
    FullLan,
}

impl Default for LanExclusionMode {
    fn default() -> (m: LanExclusionMode)
        ensures
            m == LanExclusionMode::AdbHostOnly,
    {
        LanExclusionMode::AdbHostOnly
    }
}

/// Requests the host sends to the helper.
#[derive(Debug, Clone)]
pub enum ControlRequest {
    Status,
    Apply { spec: NetworkConditionSpec },
    Clear,
    SetLanExclusion { mode: LanExclusionMode, host_ip: Option<String> },
}

/// The helper's state.
#[derive(Debug, Clone)]
pub struct HelperStatus {
    pub running: bool,
    pub vpn_permission_granted: bool,
    pub current_spec: Option<NetworkConditionSpec>,
    pub lan_exclusion: LanExclusionMode,
    pub helper_version: Option<String>,
    pub message: Option<String>,
}

impl Default for HelperStatus {
    fn default() -> (s: HelperStatus)
        ensures
            !s.running && !s.vpn_permission_granted && s.current_spec is None && s.lan_exclusion
                == LanExclusionMode::AdbHostOnly && s.helper_version is None && s.message is None,
    {
        HelperStatus {
            running: false,
            vpn_permission_granted: false,
            current_spec: None,
            lan_exclusion: LanExclusionMode::AdbHostOnly,
            helper_version: None,
            message: None,
        }
    }
}

/// Error codes the helper reports.
#[derive(Debug, Clone, Copy, PartialEq, Eq, Structural)]
pub enum HelperErrorCode {
    PermissionRequired,
    AlreadyAnotherVpnActive,
    InvalidParams,
    Internal,
}

/// A response of the helper.
#[derive(Debug, Clone)]
pub struct ControlResponse {
    pub ok: bool,
    pub status: Option<HelperStatus>,
    pub error: Option<String>,
    pub code: Option<HelperErrorCode>,
}

impl ControlResponse {
    pub fn ok_with(status: HelperStatus) -> (r: ControlResponse)
        ensures
            r.ok && r.status == Some(status) && r.error is None && r.code is None,
    {
        ControlResponse { ok: true, status: Some(status), error: None, code: None }
    }

    pub fn err(code: HelperErrorCode, message: String) -> (r: ControlResponse)
        ensures
            !r.ok && r.status is None && opt_view(r.error) == Some(message@) && r.code == Some(code),
    {
        ControlResponse { ok: false, status: None, error: Some(message), code: Some(code) }
    }
}

/// Advice added to a helper error with this code.
pub open spec fn error_advice(code: Option<HelperErrorCode>) -> Seq<char> {
    match code {
        Some(HelperErrorCode::PermissionRequired) => " — open the CatPane helper app on the device and tap 'Grant VPN permission', then retry."@,
        Some(HelperErrorCode::AlreadyAnotherVpnActive) => " — another VPN is currently active. Disconnect it (Settings → Network → VPN) and retry."@,
        _ => ""@,
    }
}

/// What an apply or clear request's response is reported as: the helper's
/// message (or `"<prefix> on <serial>"`) on success; on failure its error
/// (or a generic one) with advice for the codes the user can act on.
pub open spec fn response_report(resp: ControlResponse, serial: Seq<char>, prefix: Seq<char>) -> Result<
    Seq<char>,
    Seq<char>,
> {
    if resp.ok {
        Ok(
            match resp.status {
                Some(s) => match s.message {
                    Some(m) => m@,
                    None => prefix + " on "@ + serial,
                },
                None => prefix + " on "@ + serial,
            },
        )
    } else {
        Err(
            (match resp.error {
                Some(e) => e@,
                None => "Helper returned an unspecified error"@,
            }) + error_advice(resp.code),
        )
    }
}

/// Report an apply or clear request's response.
pub fn interpret_response(resp: ControlResponse, serial: &str, success_prefix: &str) -> (r: Result<String, String>)
    ensures
        match response_report(resp, serial@, success_prefix@) {
            Ok(m) => (r matches Ok(x) && x@ == m),
            Err(m) => (r matches Err(x) && x@ == m),
        },
{
    if resp.ok {
        let message = match resp.status {
            Some(s) => s.message,
            None => None,
        };
        let summary = match message {
            Some(m) => m,
            None => {
                let mut s = success_prefix.to_string();
                s.append(" on ");
                s.append(serial);
                s
            },
        };
        return Ok(summary);
    }
    let mut error = match resp.error {
        Some(e) => e,
        None => "Helper returned an unspecified error".to_string(),
    };
    match resp.code {
        Some(HelperErrorCode::PermissionRequired) => error.append(
            " — open the CatPane helper app on the device and tap 'Grant VPN permission', then retry.",
        ),
        Some(HelperErrorCode::AlreadyAnotherVpnActive) => error.append(
            " — another VPN is currently active. Disconnect it (Settings → Network → VPN) and retry.",
        ),
        _ => error.append(""),
    }
    Err(error)
}

/// The helper state a status request's response carries: its error (or a
/// generic one) on failure, its status (or the default one) on success.
pub fn status_from_response(resp: ControlResponse) -> (r: Result<HelperStatus, String>)
    ensures
        !resp.ok ==> (r matches Err(e) && e@ == match resp.error {
            Some(e) => e@,
            None => "Unknown helper error"@,
        }),
        resp.ok && resp.status is Some ==> r == Ok::<HelperStatus, String>(resp.status->0),
        resp.ok && resp.status is None ==> (r matches Ok(s) && !s.running && !s.vpn_permission_granted
            && s.current_spec is None && s.lan_exclusion == LanExclusionMode::AdbHostOnly
            && s.helper_version is None && s.message is None),
{
    if !resp.ok {
        return Err(
            match resp.error {
                Some(e) => e,
                None => "Unknown helper error".to_string(),
            },
        );
    }
    match resp.status {
        Some(s) => Ok(s),
        None => Ok(HelperStatus::default()),
    }
}

pub fn spec_from_preset(preset: NetworkConditionPreset) -> (s: NetworkConditionSpec)
    ensures
        s == (NetworkConditionSpec::Preset { preset }),
{
    NetworkConditionSpec::preset(preset)
}

pub fn spec_from_custom(custom: CustomNetworkParams) -> (s: NetworkConditionSpec)
    ensures
        s == (NetworkConditionSpec::Custom { params: custom }),
{
    NetworkConditionSpec::custom(custom)
}

/// Where the helper APK was found.
#[derive(Debug, Clone, PartialEq, Eq)]
pub enum HelperApkLocation {
    /// Found at this path.
    Path(String),
    /// Bundled inside the binary.
    Embedded,
    /// Not found.
    Missing,
}

/// What installing the helper did.
#[derive(Debug, Clone, Copy, PartialEq, Eq, Structural)]
pub enum HelperInstallStatus {
    AlreadyInstalled,
    Installed,
    HelperApkMissing,
}

/// The APK to install: the first candidate that is a file (the environment
/// override, then the copy next to the binary, then the one in the app
/// bundle's resources).
pub fn locate_helper_apk(candidates: &Vec<(String, bool)>) -> (r: HelperApkLocation)
    ensures
        match r {
            HelperApkLocation::Path(p) => exists|i: int| 0 <= i < candidates@.len() && #[trigger] candidates@[i].1
                && candidates@[i].0@ == p@ && forall|k: int| 0 <= k < i ==> !#[trigger] candidates@[k].1,
            HelperApkLocation::Missing => forall|k: int| 0 <= k < candidates@.len() ==> !#[trigger] candidates@[k].1,
            HelperApkLocation::Embedded => false,
        },
{
    let mut i: usize = 0;
    while i < candidates.len()
        invariant
            i <= candidates@.len(),
            forall|k: int| 0 <= k < i ==> !#[trigger] candidates@[k].1,
        decreases candidates@.len() - i,
    {
        if candidates[i].1 {
            let p = candidates[i].0.clone();
            return HelperApkLocation::Path(p);
        }
        i += 1;
    }
    HelperApkLocation::Missing
}

/// Whether `pm path` output says the helper is installed.
pub fn helper_installed(pm_exited_ok: bool, stdout: &str) -> (b: bool)
    ensures
        b == (pm_exited_ok && crate::text::contains(stdout@, "package:"@)),
{
    if !pm_exited_ok {
        return false;
    }
    let cs = crate::text::chars_of(stdout);
    crate::text::contains_str(&cs, "package:")
}

/// The transport that reaches the helper through an `adb forward` of its
/// control port.
#[derive(Debug, Clone)]
pub struct AdbForwardTransport {
    pub serial: String,
}

impl AdbForwardTransport {
    pub fn new(serial: String) -> (t: AdbForwardTransport)
        ensures
            t.serial@ == serial@,
    {
        AdbForwardTransport { serial }
    }
}

// ---------------------------------------------------------------------------
// Port forwards to the helper
// ---------------------------------------------------------------------------
pub open spec fn forwards_view(v: Seq<(String, u16)>) -> Seq<(Seq<char>, u16)> {
    v.map_values(|e: (String, u16)| (e.0@, e.1))
}

/// The local ports forwarded to the helper's control port, one per device.
pub struct ForwardRegistry {
    ports: Vec<(String, u16)>,
}

impl View for ForwardRegistry {
    type V = Map<Seq<char>, u16>;

    closed spec fn view(&self) -> Map<Seq<char>, u16> {
        named_map(forwards_view(self.ports@))
    }
}

impl ForwardRegistry {
    pub closed spec fn wf(&self) -> bool {
        names_distinct(forwards_view(self.ports@))
    }

    pub fn new() -> (r: ForwardRegistry)
        ensures
            r.wf(),
            r@ == Map::<Seq<char>, u16>::empty(),
    {
        let r = ForwardRegistry { ports: Vec::new() };
        assert(forwards_view(r.ports@) =~= Seq::empty());
        r
    }

    fn position(&self, serial: &str) -> (r: Option<usize>)
        requires
            self.wf(),
        ensures
            match r {
                Some(i) => i < self.ports@.len() && self.ports@[i as int].0@ == serial@ && self@.contains_key(
                    serial@,
                ) && self@[serial@] == self.ports@[i as int].1,
                None => !self@.contains_key(serial@),
            },
    {
        let ghost s = forwards_view(self.ports@);
        let mut i: usize = 0;
        while i < self.ports.len()
            invariant
                i <= self.ports@.len(),
                s == forwards_view(self.ports@),
                names_distinct(s),
                forall|j: int| 0 <= j < i ==> (#[trigger] s[j]).0 != serial@,
            decreases self.ports@.len() - i,
        {
            if str_eq(self.ports[i].0.as_str(), serial) {
                proof {
                    lemma_named_at(s, i as int);
                }
                return Some(i);
            }
            i += 1;
        }
        proof {
            lemma_named_absent(s, serial@);
        }
        None
    }

    /// The local port forwarded for `serial`, if any.
    pub fn port_of(&self, serial: &str) -> (r: Option<u16>)
        requires
            self.wf(),
        ensures
            r == (if self@.contains_key(serial@) {
                Some(self@[serial@])
            } else {
                None
            }),
    {
        match self.position(serial) {
            Some(i) => Some(self.ports[i].1),
            None => None,
        }
    }

    /// Remember that `serial`'s helper is reached on local `port`.
    pub fn record(&mut self, serial: &str, port: u16)
        requires
            old(self).wf(),
        ensures
            final(self).wf(),
            final(self)@ == old(self)@.insert(serial@, port),
    {
        let ghost before = forwards_view(self.ports@);
        match self.position(serial) {
            Some(i) => {
                let name = self.ports[i].0.clone();
                self.ports.set(i, (name, port));
                proof {
                    assert(forwards_view(self.ports@) =~= before.update(i as int, (serial@, port)));
                    lemma_named_update(before, i as int, port);
                    assert forall|a: int, b: int|
                        0 <= a < b < self.ports@.len() implies (#[trigger] forwards_view(self.ports@)[a]).0
                        != (#[trigger] forwards_view(self.ports@)[b]).0 by {
                        assert(forwards_view(self.ports@)[a].0 == before[a].0);
                        assert(forwards_view(self.ports@)[b].0 == before[b].0);
                    }
                }
            },
            None => {
                self.ports.push((serial.to_string(), port));
                proof {
                    assert(forwards_view(self.ports@) =~= before.push((serial@, port)));
                    lemma_distinct_push(before, serial@, port);
                }
            },
        }
    }

    /// Forget `serial`'s forward; gives its port, to be removed with adb.
    pub fn release(&mut self, serial: &str) -> (r: Option<u16>)
        requires
            old(self).wf(),
        ensures
            final(self).wf(),
            r == (if old(self)@.contains_key(serial@) {
                Some(old(self)@[serial@])
            } else {
                None
            }),
            final(self)@ == old(self)@.remove(serial@),
    {
        let ghost before = forwards_view(self.ports@);
        match self.position(serial) {
            Some(i) => {
                let (_, port) = self.ports.remove(i);
                proof {
                    assert(forwards_view(self.ports@) =~= before.remove(i as int));
                    lemma_named_remove(before, i as int);
                    lemma_distinct_remove(before, i as int);
                }
                Some(port)
            },
            None => {
                assert(self@ =~= old(self)@.remove(serial@));
                None
            },
        }
    }
}

fn tcp_arg(port: u16) -> (s: String)
    ensures
        s@ == "tcp:"@ + decimal(port as nat),
{
    let mut s = "tcp:".to_string();
    push_decimal(&mut s, port as u64);
    s
}

/// `adb` arguments forwarding local `host_port` to the helper's control port
/// on `serial`.
pub fn forward_args(serial: &str, host_port: u16) -> (r: Vec<String>)
    ensures
        sviews(r@) == seq![
            "-s"@,
            serial@,
            "forward"@,
            "tcp:"@ + decimal(host_port as nat),
            "tcp:"@ + decimal(HELPER_DEVICE_PORT as nat),
        ],
{
    let r = vec![
        "-s".to_string(),
        serial.to_string(),
        "forward".to_string(),
        tcp_arg(host_port),
        tcp_arg(HELPER_DEVICE_PORT),
    ];
    assert(sviews(r@) =~= seq![
        "-s"@,
        serial@,
        "forward"@,
        "tcp:"@ + decimal(host_port as nat),
        "tcp:"@ + decimal(HELPER_DEVICE_PORT as nat),
    ]);
    r
}

/// `adb` arguments removing the forward of local `port` on `serial`.
pub fn forward_remove_args(serial: &str, port: u16) -> (r: Vec<String>)
    ensures
        sviews(r@) == seq!["-s"@, serial@, "forward"@, "--remove"@, "tcp:"@ + decimal(port as nat)],
{
    let r = vec!["-s".to_string(), serial.to_string(), "forward".to_string(), "--remove".to_string(), tcp_arg(port)];
    assert(sviews(r@) =~= seq!["-s"@, serial@, "forward"@, "--remove"@, "tcp:"@ + decimal(port as nat)]);
    r
}

/// The error of a failed `adb forward`, with its trimmed error output.
pub fn forward_failure(stderr: &[u8]) -> (s: String)
    ensures
        s@ == "adb forward failed: "@ + trim(utf8_lossy(stderr@)),
{
    let text = decode_lossy(stderr);
    let t = trim_str(text.as_str());
    let mut s = "adb forward failed: ".to_string();
    s.append(t.as_str());
    s
}

/// The error when the forwarded helper port does not answer.
pub fn connect_failure(serial: &str, port: u16, error: &str) -> (s: String)
    ensures
        s@ == "Failed to connect to CatPane helper on "@ + serial@ + ":"@ + decimal(port as nat)
            + " (is it installed and running?): "@ + error@,
{
    let mut s = "Failed to connect to CatPane helper on ".to_string();
    s.append(serial);
    s.append(":");
    push_decimal(&mut s, port as u64);
    s.append(" (is it installed and running?): ");
    s.append(error);
    s
}

/// A request line to the helper: its JSON and a newline.
pub fn request_frame(json: &str) -> (s: String)
    ensures
        s@ == json@ + "\n"@,
{
    let mut s = json.to_string();
    s.append("\n");
    s
}

} // verus!
