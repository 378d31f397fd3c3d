//! Named network-condition presets and how they map to emulator settings.
use vstd::prelude::*;
use crate::text::{chars_eq_str, chars_of, decimal, join, join_strings, lower, lower_chars, push_decimal, sviews, trim, trim_chars};

verus! {

/// Environment variable that re-enables iOS Simulator throttling.
pub const IOS_NETWORK_THROTTLING_ENV: &'static str = "CATPANE_ENABLE_IOS_NETWORK_THROTTLING";

#[derive(Debug, Clone, Copy, PartialEq, Eq, Structural, Hash)]
pub enum NetworkConditionPreset {
    Unthrottled,
    Edge,
    ThreeG,
    Offline,
}

pub open spec fn preset_slug(p: NetworkConditionPreset) -> Seq<char> {
    match p {
        NetworkConditionPreset::Unthrottled => "unthrottled"@,
        NetworkConditionPreset::Edge => "edge"@,
        NetworkConditionPreset::ThreeG => "3g"@,
        NetworkConditionPreset::Offline => "offline"@,
    }
}

pub open spec fn preset_label(p: NetworkConditionPreset) -> Seq<char> {
    match p {
        NetworkConditionPreset::Unthrottled => "Unthrottled"@,
        NetworkConditionPreset::Edge => "Edge"@,
        NetworkConditionPreset::ThreeG => "3G"@,
        NetworkConditionPreset::Offline => "Offline"@,
    }
}

/// The preset a (trimmed, ASCII-lowercased) name or alias selects.
pub open spec fn preset_named(n: Seq<char>) -> Option<NetworkConditionPreset> {
    if n == "unthrottled"@ || n == "full"@ || n == "none"@ {
        Some(NetworkConditionPreset::Unthrottled)
    } else if n == "edge"@ {
        Some(NetworkConditionPreset::Edge)
    } else if n == "3g"@ || n == "three-g"@ || n == "three_g"@ || n == "umts"@ {
        Some(NetworkConditionPreset::ThreeG)
    } else if n == "offline"@ || n == "airplane"@ || n == "airplane-mode"@ || n == "airplane_mode"@ {
        Some(NetworkConditionPreset::Offline)
    } else {
        None
    }
}

/// The error for an unknown preset name.
pub open spec fn unsupported_preset_message(value: Seq<char>) -> Seq<char> {
    "Unsupported network condition '"@ + value + "'. Expected one of: "@ + join(
        seq!["unthrottled"@, "edge"@, "3g"@, "offline"@],
        ", "@,
    )
}

/// Emulator console settings for a preset.
#[derive(Debug, Clone, Copy, PartialEq, Eq)]
pub struct AndroidEmulatorNetworkProfile {
    pub speed: &'static str,
    pub delay: &'static str,
    pub wifi_enabled: bool,
    pub data_enabled: bool,
}

impl NetworkConditionPreset {
    /// All presets, in display order.
    pub fn all() -> (v: Vec<NetworkConditionPreset>)
        ensures
            v@ == seq![
                NetworkConditionPreset::Unthrottled,
                NetworkConditionPreset::Edge,
                NetworkConditionPreset::ThreeG,
                NetworkConditionPreset::Offline,
            ],
    {
        let v = vec![
            NetworkConditionPreset::Unthrottled,
            NetworkConditionPreset::Edge,
            NetworkConditionPreset::ThreeG,
            NetworkConditionPreset::Offline,
        ];
        assert(v@ =~= seq![
            NetworkConditionPreset::Unthrottled,
            NetworkConditionPreset::Edge,
            NetworkConditionPreset::ThreeG,
            NetworkConditionPreset::Offline,
        ]);
        v
    }

    pub fn slug(self) -> (s: &'static str)
        ensures
            s@ == preset_slug(self),
    {
        match self {
            NetworkConditionPreset::Unthrottled => "unthrottled",
            NetworkConditionPreset::Edge => "edge",
            NetworkConditionPreset::ThreeG => "3g",
            NetworkConditionPreset::Offline => "offline",
        }
    }

    pub fn label(self) -> (s: &'static str)
        ensures
            s@ == preset_label(self),
    {
        match self {
            NetworkConditionPreset::Unthrottled => "Unthrottled",
            NetworkConditionPreset::Edge => "Edge",
            NetworkConditionPreset::ThreeG => "3G",
            NetworkConditionPreset::Offline => "Offline",
        }
    }

    /// The slug as an owned string (what `Display` writes).
    pub fn to_text(self) -> (s: String)
        ensures
            s@ == preset_slug(self),
    {
        self.slug().to_string()
    }

    /// Parse a preset by name or alias, ignoring surrounding blanks and ASCII case.
    pub fn parse(value: &str) -> (r: Result<NetworkConditionPreset, String>)
        ensures
            match preset_named(lower(trim(value@))) {
                Some(p) => r == Ok::<NetworkConditionPreset, String>(p),
                None => r matches Err(e) && e@ == unsupported_preset_message(value@),
            },
    {
        let cs = chars_of(value);
        let t = trim_chars(&cs);
        let n = lower_chars(&t);
        if chars_eq_str(&n, "unthrottled") || chars_eq_str(&n, "full") || chars_eq_str(&n, "none") {
            Ok(NetworkConditionPreset::Unthrottled)
        } else if chars_eq_str(&n, "edge") {
            Ok(NetworkConditionPreset::Edge)
        } else if chars_eq_str(&n, "3g") || chars_eq_str(&n, "three-g") || chars_eq_str(
            &n,
            "three_g",
        ) || chars_eq_str(&n, "umts") {
            Ok(NetworkConditionPreset::ThreeG)
        } else if chars_eq_str(&n, "offline") || chars_eq_str(&n, "airplane") || chars_eq_str(
            &n,
            "airplane-mode",
        ) || chars_eq_str(&n, "airplane_mode") {
            Ok(NetworkConditionPreset::Offline)
        } else {
            let all = NetworkConditionPreset::all();
            let mut slugs: Vec<String> = Vec::new();
            let mut i: usize = 0;
            while i < all.len()
                invariant
                    i <= all@.len() == 4,
                    all@ == seq![
                        NetworkConditionPreset::Unthrottled,
                        NetworkConditionPreset::Edge,
                        NetworkConditionPreset::ThreeG,
                        NetworkConditionPreset::Offline,
                    ],
                    slugs@.len() == i,
                    forall|k: int| 0 <= k < i ==> #[trigger] slugs@[k]@ == preset_slug(all@[k]),
                decreases all.len() - i,
            {
                slugs.push(all[i].slug().to_string());
                i += 1;
            }
            assert(sviews(slugs@) =~= seq!["unthrottled"@, "edge"@, "3g"@, "offline"@]);
            let listed = join_strings(&slugs, ", ");
            let mut msg = "Unsupported network condition '".to_string();
            msg.append(value);
            msg.append("'. Expected one of: ");
            msg.append(listed.as_str());
            Err(msg)
        }
    }

    pub fn android_profile(self) -> (p: AndroidEmulatorNetworkProfile)
        ensures
            p.speed@ == (match self {
                NetworkConditionPreset::Edge => "edge"@,
                NetworkConditionPreset::ThreeG => "umts"@,
                _ => "full"@,
            }),
            p.delay@ == (match self {
                NetworkConditionPreset::Edge => "edge"@,
                NetworkConditionPreset::ThreeG => "umts"@,
                _ => "none"@,
            }),
            p.wifi_enabled == (self != NetworkConditionPreset::Offline),
            p.data_enabled == (self != NetworkConditionPreset::Offline),
    {
        match self {
            NetworkConditionPreset::Unthrottled => AndroidEmulatorNetworkProfile {
                speed: "full",
                delay: "none",
                wifi_enabled: true,
                data_enabled: true,
            },
            NetworkConditionPreset::Edge => AndroidEmulatorNetworkProfile {
                speed: "edge",
                delay: "edge",
                wifi_enabled: true,
                data_enabled: true,
            },
            NetworkConditionPreset::ThreeG => AndroidEmulatorNetworkProfile {
                speed: "umts",
                delay: "umts",
                wifi_enabled: true,
                data_enabled: true,
            },
            NetworkConditionPreset::Offline => AndroidEmulatorNetworkProfile {
                speed: "full",
                delay: "none",
                wifi_enabled: false,
                data_enabled: false,
            },
        }
    }
}

/// Whether the value of the throttling environment variable turns the
/// feature on: `1`, `true`, `yes` or `on`, ignoring blanks and ASCII case.
pub open spec fn throttling_flag_on(raw: Option<Seq<char>>) -> bool {
    match raw {
        None => false,
        Some(v) => {
            let n = lower(trim(v));
            n == "1"@ || n == "true"@ || n == "yes"@ || n == "on"@
        },
    }
}

/// Reads the value of `IOS_NETWORK_THROTTLING_ENV` (`None` when unset).
pub fn throttling_flag_enabled(raw: Option<&str>) -> (b: bool)
    ensures
        b == throttling_flag_on(match raw {
            Some(v) => Some(v@),
            None => None,
        }),
{
    match raw {
        None => false,
        Some(v) => {
            let cs = chars_of(v);
            let t = trim_chars(&cs);
            let n = lower_chars(&t);
            chars_eq_str(&n, "1") || chars_eq_str(&n, "true") || chars_eq_str(&n, "yes")
                || chars_eq_str(&n, "on")
        },
    }
}

/// Why iOS Simulator throttling is unavailable, and how to turn it on.
/// Why iOS simulator network throttling is refused while it is disabled.
pub open spec fn ios_gate_text() -> Seq<char> {
    "iOS Simulator network throttling is disabled by default until CatPane ships a properly signed Network Extension build. Set "@
        + IOS_NETWORK_THROTTLING_ENV@ + "=1 to re-enable it for local testing."@
}

pub fn ios_network_throttling_gate_message() -> (s: String)
    ensures
        s@ == ios_gate_text(),
{
    let mut s = "iOS Simulator network throttling is disabled by default until CatPane ships a properly signed Network Extension build. Set ".to_string();
    s.append(IOS_NETWORK_THROTTLING_ENV);
    s.append("=1 to re-enable it for local testing.");
    s
}

// ---------------------------------------------------------------------------
// Custom shaping profiles
// ---------------------------------------------------------------------------

/// A packet-loss percentage, held as what the checks on it read: whether it
/// lies in `0.0..=100.0` (never for NaN), whether it is finite, and how
/// `Display` writes it.
#[derive(Debug, Clone)]
pub struct LossPercent {
    pub in_range: bool,
    pub finite: bool,
    pub text: String,
}

impl LossPercent {
    /// What holds of every percentage read from a number: one in range is
    /// finite (NaN and the infinities lie outside `0.0..=100.0`).
    pub open spec fn wf(&self) -> bool {
        self.in_range ==> self.finite
    }
}

/// A loss percentage read from a number is never rejected as not finite:
/// the range check rejects every such value first.
pub proof fn law_loss_range_check_comes_first(p: CustomNetworkParams)
    requires
        p.loss_pct matches Some(l) ==> l.wf(),
    ensures
        custom_params_error(p) != Some("loss_pct must be a finite number"@),
{
    let m = "loss_pct must be a finite number"@;
    reveal_strlit("loss_pct must be a finite number");
    reveal_strlit("delay_ms");
    reveal_strlit("jitter_ms");
    reveal_strlit("downlink_kbps");
    reveal_strlit("uplink_kbps");
    reveal_strlit("loss_pct must be in 0.0..=100.0 (got ");
    if p.delay_ms is Some && p.delay_ms->0 > MAX_DELAY_MS {
        assert(bound_error("delay_ms"@, MAX_DELAY_MS, p.delay_ms->0)[0] != m[0]);
    } else if p.jitter_ms is Some && p.jitter_ms->0 > MAX_JITTER_MS {
        assert(bound_error("jitter_ms"@, MAX_JITTER_MS, p.jitter_ms->0)[0] != m[0]);
    } else if p.loss_pct is Some && !p.loss_pct->0.in_range {
        let e = "loss_pct must be in 0.0..=100.0 (got "@ + p.loss_pct->0.text@ + ")"@;
        assert(e[17] != m[17]);
    } else if p.loss_pct is Some && !p.loss_pct->0.finite {
        assert(false);
    } else if p.downlink_kbps is Some && p.downlink_kbps->0 > MAX_BANDWIDTH_KBPS {
        assert(bound_error("downlink_kbps"@, MAX_BANDWIDTH_KBPS, p.downlink_kbps->0)[0] != m[0]);
    } else if p.uplink_kbps is Some && p.uplink_kbps->0 > MAX_BANDWIDTH_KBPS {
        assert(bound_error("uplink_kbps"@, MAX_BANDWIDTH_KBPS, p.uplink_kbps->0)[0] != m[0]);
    }
}

/// A custom network shaping profile; every field is optional.
#[derive(Debug, Clone)]
pub struct CustomNetworkParams {
    pub delay_ms: Option<u32>,
    pub jitter_ms: Option<u32>,
    /// Packet loss as a percentage in the range `0.0..=100.0`.
    pub loss_pct: Option<LossPercent>,
    /// Downlink (device-bound) bandwidth cap in kilobits per second.
    pub downlink_kbps: Option<u32>,
    /// Uplink (device-originated) bandwidth cap in kilobits per second.
    pub uplink_kbps: Option<u32>,
}

pub const MAX_DELAY_MS: u32 = 60000;

pub const MAX_JITTER_MS: u32 = 60000;

pub const MAX_BANDWIDTH_KBPS: u32 = 10000000;

/// `"<field> must be <= <max> (got <value>)"`.
pub open spec fn bound_error(field: Seq<char>, max: u32, got: u32) -> Seq<char> {
    field + " must be <= "@ + decimal(max as nat) + " (got "@ + decimal(got as nat) + ")"@
}

/// Why a custom profile is rejected, checked field by field in order, or
/// `None` when it is acceptable.
pub open spec fn custom_params_error(p: CustomNetworkParams) -> Option<Seq<char>> {
    if p.delay_ms is Some && p.delay_ms->0 > MAX_DELAY_MS {
        Some(bound_error("delay_ms"@, MAX_DELAY_MS, p.delay_ms->0))
    } else if p.jitter_ms is Some && p.jitter_ms->0 > MAX_JITTER_MS {
        Some(bound_error("jitter_ms"@, MAX_JITTER_MS, p.jitter_ms->0))
    } else if p.loss_pct is Some && !p.loss_pct->0.in_range {
        Some("loss_pct must be in 0.0..=100.0 (got "@ + p.loss_pct->0.text@ + ")"@)
    } else if p.loss_pct is Some && !p.loss_pct->0.finite {
        Some("loss_pct must be a finite number"@)
    } else if p.downlink_kbps is Some && p.downlink_kbps->0 > MAX_BANDWIDTH_KBPS {
        Some(bound_error("downlink_kbps"@, MAX_BANDWIDTH_KBPS, p.downlink_kbps->0))
    } else if p.uplink_kbps is Some && p.uplink_kbps->0 > MAX_BANDWIDTH_KBPS {
        Some(bound_error("uplink_kbps"@, MAX_BANDWIDTH_KBPS, p.uplink_kbps->0))
    } else {
        None
    }
}

/// `"<field> must be <= <max> (got <value>)"`.
fn bound_message(field: &str, max: u32, got: u32) -> (s: String)
    ensures
        s@ == bound_error(field@, max, got),
{
    let mut s = field.to_string();
    s.append(" must be <= ");
    push_decimal(&mut s, max as u64);
    s.append(" (got ");
    push_decimal(&mut s, got as u64);
    s.append(")");
    s
}

impl Default for CustomNetworkParams {
    fn default() -> (p: CustomNetworkParams)
        ensures
            p.delay_ms is None && p.jitter_ms is None && p.loss_pct is None && p.downlink_kbps is None
                && p.uplink_kbps is None,
    {
        CustomNetworkParams {
            delay_ms: None,
            jitter_ms: None,
            loss_pct: None,
            downlink_kbps: None,
            uplink_kbps: None,
        }
    }
}

/// The two profiles have the same fields.
pub open spec fn same_custom(a: CustomNetworkParams, b: CustomNetworkParams) -> bool {
    &&& a.delay_ms == b.delay_ms
    &&& a.jitter_ms == b.jitter_ms
    &&& a.downlink_kbps == b.downlink_kbps
    &&& a.uplink_kbps == b.uplink_kbps
    &&& (a.loss_pct is Some <==> b.loss_pct is Some)
    &&& (a.loss_pct is Some ==> a.loss_pct->0.in_range == b.loss_pct->0.in_range
        && a.loss_pct->0.finite == b.loss_pct->0.finite && a.loss_pct->0.text@ == b.loss_pct->0.text@)
}

impl CustomNetworkParams {
    /// A copy with the same fields.
    pub fn duplicate(&self) -> (r: CustomNetworkParams)
        ensures
            same_custom(r, *self),
    {
        let loss_pct = match &self.loss_pct {
            Some(l) => Some(LossPercent { in_range: l.in_range, finite: l.finite, text: l.text.clone() }),
            None => None,
        };
        CustomNetworkParams {
            delay_ms: self.delay_ms,
            jitter_ms: self.jitter_ms,
            loss_pct,
            downlink_kbps: self.downlink_kbps,
            uplink_kbps: self.uplink_kbps,
        }
    }

    /// True when no field is set (no throttling at all).
    pub fn is_empty(&self) -> (b: bool)
        ensures
            b == (self.delay_ms is None && self.jitter_ms is None && self.loss_pct is None
                && self.downlink_kbps is None && self.uplink_kbps is None),
    {
        self.delay_ms.is_none() && self.jitter_ms.is_none() && self.loss_pct.is_none()
            && self.downlink_kbps.is_none() && self.uplink_kbps.is_none()
    }

    /// Checks each field against its bound.
    pub fn validate(&self) -> (r: Result<(), String>)
        ensures
            match custom_params_error(*self) {
                None => r is Ok,
                Some(m) => r matches Err(e) && e@ == m,
            },
    {
        if let Some(delay) = self.delay_ms {
            if delay > MAX_DELAY_MS {
                return Err(bound_message("delay_ms", MAX_DELAY_MS, delay));
            }
        }
        if let Some(jitter) = self.jitter_ms {
            if jitter > MAX_JITTER_MS {
                return Err(bound_message("jitter_ms", MAX_JITTER_MS, jitter));
            }
        }
        if let Some(loss) = &self.loss_pct {
            if !loss.in_range {
                let mut m = "loss_pct must be in 0.0..=100.0 (got ".to_string();
                m.append(loss.text.as_str());
                m.append(")");
                return Err(m);
            }
        }
        if let Some(loss) = &self.loss_pct {
            if !loss.finite {
                return Err("loss_pct must be a finite number".to_string());
            }
        }
        if let Some(down) = self.downlink_kbps {
            if down > MAX_BANDWIDTH_KBPS {
                return Err(bound_message("downlink_kbps", MAX_BANDWIDTH_KBPS, down));
            }
        }
        if let Some(up) = self.uplink_kbps {
            if up > MAX_BANDWIDTH_KBPS {
                return Err(bound_message("uplink_kbps", MAX_BANDWIDTH_KBPS, up));
            }
        }
        Ok(())
    }
}

/// A network condition: a named preset or a custom shaping profile.
#[derive(Debug, Clone)]
pub enum NetworkConditionSpec {
    Preset { preset: NetworkConditionPreset },
    Custom { params: CustomNetworkParams },
}

impl NetworkConditionSpec {
    pub fn preset(preset: NetworkConditionPreset) -> (s: NetworkConditionSpec)
        ensures
            s == (NetworkConditionSpec::Preset { preset }),
    {
        NetworkConditionSpec::Preset { preset }
    }

    pub fn custom(params: CustomNetworkParams) -> (s: NetworkConditionSpec)
        ensures
            s == (NetworkConditionSpec::Custom { params }),
    {
        NetworkConditionSpec::Custom { params }
    }

    /// Presets are always valid; custom profiles are checked.
    pub fn validate(&self) -> (r: Result<(), String>)
        ensures
            match self {
                NetworkConditionSpec::Preset { .. } => r is Ok,
                NetworkConditionSpec::Custom { params } => match custom_params_error(*params) {
                    None => r is Ok,
                    Some(m) => r matches Err(e) && e@ == m,
                },
            },
    {
        match self {
            NetworkConditionSpec::Preset { .. } => Ok(()),
            NetworkConditionSpec::Custom { params } => params.validate(),
        }
    }

    /// True when the condition means no throttling at all.
    pub fn is_unthrottled(&self) -> (b: bool)
        ensures
            b == match self {
                NetworkConditionSpec::Preset { preset } => *preset == NetworkConditionPreset::Unthrottled,
                NetworkConditionSpec::Custom { params } => params.delay_ms is None && params.jitter_ms is None
                    && params.loss_pct is None && params.downlink_kbps is None && params.uplink_kbps is None,
            },
    {
        match self {
            NetworkConditionSpec::Preset { preset } => *preset == NetworkConditionPreset::Unthrottled,
            NetworkConditionSpec::Custom { params } => params.is_empty(),
        }
    }

    /// A short label for status surfaces.
    pub fn label(&self) -> (s: String)
        ensures
            s@ == match self {
                NetworkConditionSpec::Preset { preset } => preset_label(*preset),
                NetworkConditionSpec::Custom { .. } => "Custom"@,
            },
    {
        match self {
            NetworkConditionSpec::Preset { preset } => preset.label().to_string(),
            NetworkConditionSpec::Custom { .. } => "Custom".to_string(),
        }
    }
}

impl From<NetworkConditionPreset> for NetworkConditionSpec {
    fn from(preset: NetworkConditionPreset) -> (s: NetworkConditionSpec) {
        NetworkConditionSpec::Preset { preset }
    }
}

impl vstd::std_specs::convert::FromSpecImpl<NetworkConditionPreset> for NetworkConditionSpec {
    open spec fn obeys_from_spec() -> bool {
        true
    }

    open spec fn from_spec(preset: NetworkConditionPreset) -> NetworkConditionSpec {
        NetworkConditionSpec::Preset { preset }
    }
}

} // verus!
