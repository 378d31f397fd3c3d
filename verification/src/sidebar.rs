//! What the sidebar says: tab headings, crash type labels, which devices
//! offer the USB-assisted wireless set-up, and hints that go with the
//! outcome of a wireless-debugging step.
use vstd::prelude::*;
use crate::adb::is_tcp_device;
use crate::capture::{ConnectedDevice, DevicePlatform, platform_label};
use crate::crash_detector::{CrashReport, CrashType};
use crate::log_entry::{LogEntry, level_char};
use crate::pane::{Pane, UiWatch, same_watch_text};
use crate::qr_pairing::QrPairStatus;
use crate::text::{byte_len, byte_len_exec, char_at_byte, char_index_at_byte, chars_of, contains, contains_str, decimal, push_char, push_decimal, str_eq, string_from, trim, trim_str, to_lowercase, unicode_lower};
use crate::workspace::{first_with_id, has_id};

verus! {

/// The sidebar's tabs.
#[derive(Debug, Clone, Copy, PartialEq, Eq, Structural)]
pub enum SidebarTab {
    Devices,
    Location,
    Crashes,
    Watches,
}

pub open spec fn tab_heading_text(tab: SidebarTab) -> Seq<char> {
    match tab {
        SidebarTab::Devices => "Devices"@,
        SidebarTab::Location => "Location"@,
        SidebarTab::Crashes => "Crashes"@,
        SidebarTab::Watches => "Watches"@,
    }
}

/// The heading a tab shows.
pub fn tab_heading(tab: SidebarTab) -> (s: &'static str)
    ensures
        s@ == tab_heading_text(tab),
{
    match tab {
        SidebarTab::Devices => "Devices",
        SidebarTab::Location => "Location",
        SidebarTab::Crashes => "Crashes",
        SidebarTab::Watches => "Watches",
    }
}

pub open spec fn crash_type_text(ct: CrashType) -> Seq<char> {
    match ct {
        CrashType::JavaException => "Java Exception"@,
        CrashType::NativeCrash => "Native Crash"@,
        CrashType::Anr => "ANR"@,
        CrashType::IosCrash => "iOS Crash"@,
    }
}

/// How the crashes tab names a crash type.
pub fn crash_type_label(ct: CrashType) -> (s: &'static str)
    ensures
        s@ == crash_type_text(ct),
{
    match ct {
        CrashType::JavaException => "Java Exception",
        CrashType::NativeCrash => "Native Crash",
        CrashType::Anr => "ANR",
        CrashType::IosCrash => "iOS Crash",
    }
}

/// An Android device attached by USB (its serial is no `host:port`), which
/// can be switched to wireless debugging.
pub fn is_usb_android_device(device: &ConnectedDevice) -> (b: bool)
    ensures
        b == (device.platform == DevicePlatform::Android && !contains(device.id@, ":"@)),
{
    device.supports_wireless_debugging() && !is_tcp_device(device.id.as_str())
}

pub open spec fn hint_after_success(lower: Seq<char>) -> Option<Seq<char>> {
    if contains(lower, "automatic connect"@) {
        Some("Pairing succeeded, but the connect step still needs help. Try Connect or Refresh devices."@)
    } else if contains(lower, "tcp/ip"@) {
        Some(
            "If the device does not appear immediately, leave USB attached briefly, then refresh devices or retry Connect."@,
        )
    } else {
        None
    }
}

pub open spec fn hint_after_failure(lower: Seq<char>) -> Option<Seq<char>> {
    if contains(lower, "protocol fault"@) {
        Some(
            "This usually means stale wireless auth or a wedged pairing service. Restart ADB, then re-open Wireless debugging on the device and pair again."@,
        )
    } else if contains(lower, "unauthorized"@) {
        Some(
            "Reconnect over USB and accept the RSA prompt again. If needed, revoke USB debugging authorizations on the phone and retry."@,
        )
    } else if contains(lower, "timed out"@) || contains(lower, "mdns"@) {
        Some(
            "Keep the phone on the QR pairing screen and make sure the Mac and phone are on the same Wi-Fi without VPN or client isolation."@,
        )
    } else if contains(lower, "failed to connect"@) || contains(lower, "unable to connect"@) || contains(
        lower,
        "connection refused"@,
    ) {
        Some(
            "Double-check that you are using the device's connect port, not the pairing port. If USB works, try the TCP/IP fallback below."@,
        )
    } else if contains(lower, "more than one device"@) {
        Some(
            "Disconnect extra Android devices or use the USB-assisted fallback selector to target the exact device you want."@,
        )
    } else {
        None
    }
}

/// The hint for a step's outcome and message.
pub open spec fn hint_for(success: bool, message: Seq<char>) -> Option<Seq<char>> {
    if success {
        hint_after_success(unicode_lower(message))
    } else {
        hint_after_failure(unicode_lower(message))
    }
}

pub open spec fn opt_str_view(o: Option<&str>) -> Option<Seq<char>> {
    match o {
        Some(h) => Some(h@),
        None => None,
    }
}

/// A hint shown under the outcome of a wireless-debugging step, picked by
/// what its (lowercased) message mentions.
pub fn wireless_status_hint(success: bool, message: &str) -> (r: Option<&'static str>)
    ensures
        opt_str_view(r) == hint_for(success, message@),
{
    let lower = to_lowercase(message);
    let cs = chars_of(lower.as_str());
    if success {
        if contains_str(&cs, "automatic connect") {
            return Some(
                "Pairing succeeded, but the connect step still needs help. Try Connect or Refresh devices.",
            );
        }
        if contains_str(&cs, "tcp/ip") {
            return Some(
                "If the device does not appear immediately, leave USB attached briefly, then refresh devices or retry Connect.",
            );
        }
        return None;
    }
    if contains_str(&cs, "protocol fault") {
        return Some(
            "This usually means stale wireless auth or a wedged pairing service. Restart ADB, then re-open Wireless debugging on the device and pair again.",
        );
    }
    if contains_str(&cs, "unauthorized") {
        return Some(
            "Reconnect over USB and accept the RSA prompt again. If needed, revoke USB debugging authorizations on the phone and retry.",
        );
    }
    if contains_str(&cs, "timed out") || contains_str(&cs, "mdns") {
        return Some(
            "Keep the phone on the QR pairing screen and make sure the Mac and phone are on the same Wi-Fi without VPN or client isolation.",
        );
    }
    if contains_str(&cs, "failed to connect") || contains_str(&cs, "unable to connect") || contains_str(
        &cs,
        "connection refused",
    ) {
        return Some(
            "Double-check that you are using the device's connect port, not the pairing port. If USB works, try the TCP/IP fallback below.",
        );
    }
    if contains_str(&cs, "more than one device") {
        return Some(
            "Disconnect extra Android devices or use the USB-assisted fallback selector to target the exact device you want.",
        );
    }
    None
}

/// The hint under a finished QR pairing.
pub fn qr_status_hint(status: &QrPairStatus) -> (r: Option<&'static str>)
    ensures
        match status {
            QrPairStatus::Success(m) => opt_str_view(r) == hint_for(true, m@),
            QrPairStatus::Failed(m) => opt_str_view(r) == hint_for(false, m@),
            _ => r is None,
        },
{
    match status {
        QrPairStatus::Success(m) => wireless_status_hint(true, m.as_str()),
        QrPairStatus::Failed(m) => wireless_status_hint(false, m.as_str()),
        _ => None,
    }
}

/// The mDNS service name a QR pairing advertises for a random suffix.
pub fn qr_service_name(suffix: &str) -> (s: String)
    ensures
        s@ == "ADB_WIFI_"@ + suffix@,
{
    let mut s = "ADB_WIFI_".to_string();
    s.append(suffix);
    s
}

pub open spec fn count_usb(devices: Seq<ConnectedDevice>) -> nat
    decreases devices.len(),
{
    if devices.len() == 0 {
        0
    } else {
        count_usb(devices.drop_last()) + if devices.last().platform == DevicePlatform::Android && !contains(
            devices.last().id@,
            ":"@,
        ) {
            1nat
        } else {
            0nat
        }
    }
}

pub open spec fn count_android(devices: Seq<ConnectedDevice>) -> nat
    decreases devices.len(),
{
    if devices.len() == 0 {
        0
    } else {
        count_android(devices.drop_last()) + if devices.last().platform == DevicePlatform::Android {
            1nat
        } else {
            0nat
        }
    }
}

proof fn lemma_usb_within_android(devices: Seq<ConnectedDevice>)
    ensures
        count_usb(devices) <= count_android(devices) <= devices.len(),
    decreases devices.len(),
{
    if devices.len() > 0 {
        lemma_usb_within_android(devices.drop_last());
    }
}

/// The wireless section's count: `"<n> Android device(s) · <usb> USB ·
/// <wifi> Wi-Fi"`.
pub fn android_device_summary(devices: &[ConnectedDevice]) -> (s: String)
    ensures
        s@ == decimal(count_android(devices@)) + " Android device(s) · "@ + decimal(count_usb(devices@))
            + " USB · "@ + decimal((count_android(devices@) - count_usb(devices@)) as nat) + " Wi-Fi"@,
{
    let mut android: usize = 0;
    let mut usb: usize = 0;
    let mut i: usize = 0;
    while i < devices.len()
        invariant
            i <= devices@.len(),
            android == count_android(devices@.take(i as int)),
            usb == count_usb(devices@.take(i as int)),
        decreases devices@.len() - i,
    {
        proof {
            assert(devices@.take(i + 1).drop_last() =~= devices@.take(i as int));
            lemma_usb_within_android(devices@.take(i as int));
        }
        if devices[i].supports_wireless_debugging() {
            android += 1;
            if !is_tcp_device(devices[i].id.as_str()) {
                usb += 1;
            }
        }
        i += 1;
    }
    proof {
        assert(devices@.take(i as int) =~= devices@);
        lemma_usb_within_android(devices@);
    }
    let mut s = String::new();
    push_decimal(&mut s, android as u64);
    s.append(" Android device(s) · ");
    push_decimal(&mut s, usb as u64);
    s.append(" USB · ");
    push_decimal(&mut s, (android - usb) as u64);
    s.append(" Wi-Fi");
    s
}

pub open spec fn is_usb_android(d: ConnectedDevice) -> bool {
    d.platform == DevicePlatform::Android && !contains(d.id@, ":"@)
}

pub open spec fn usb_has_id(devices: Seq<ConnectedDevice>, id: Seq<char>) -> bool {
    exists|i: int| 0 <= i < devices.len() && is_usb_android(#[trigger] devices[i]) && devices[i].id@ == id
}

pub open spec fn first_usb(devices: Seq<ConnectedDevice>, i: int) -> bool {
    &&& 0 <= i < devices.len()
    &&& is_usb_android(devices[i])
    &&& forall|j: int| 0 <= j < i ==> !is_usb_android(#[trigger] devices[j])
}

/// The device the USB-assisted fallback targets: the selected one while it
/// is still a USB Android device, else the first such device.
pub fn usb_fallback_selection(selected: Option<String>, devices: &[ConnectedDevice]) -> (r: Option<String>)
    ensures
        (selected matches Some(s) && usb_has_id(devices@, s@)) ==> r == selected,
        !(selected matches Some(s) && usb_has_id(devices@, s@)) ==> match r {
            Some(id) => exists|i: int| #[trigger] first_usb(devices@, i) && devices@[i].id == id,
            None => forall|i: int| 0 <= i < devices@.len() ==> !is_usb_android(#[trigger] devices@[i]),
        },
{
    if let Some(s) = &selected {
        let mut i: usize = 0;
        while i < devices.len()
            invariant
                i <= devices@.len(),
                selected == Some(*s),
                forall|j: int| 0 <= j < i ==> !(is_usb_android(#[trigger] devices@[j]) && devices@[j].id@ == s@),
            decreases devices@.len() - i,
        {
            if is_usb_android_device(&devices[i]) && str_eq(devices[i].id.as_str(), s.as_str()) {
                return selected;
            }
            i += 1;
        }
    }
    let mut i: usize = 0;
    while i < devices.len()
        invariant
            i <= devices@.len(),
            !(selected matches Some(s) && usb_has_id(devices@, s@)),
            forall|j: int| 0 <= j < i ==> !is_usb_android(#[trigger] devices@[j]),
        decreases devices@.len() - i,
    {
        if is_usb_android_device(&devices[i]) {
            assert(first_usb(devices@, i as int));
            return Some(devices[i].id.clone());
        }
        i += 1;
    }
    None
}

/// How the fallback selector names its device: `"<display name> - <id>"`,
/// or `"Select USB device"`.
pub fn usb_device_label(selected: &Option<String>, devices: &[ConnectedDevice]) -> (s: String)
    ensures
        (selected matches Some(d) && has_id(devices@, d@)) ==> exists|i: int|
            #[trigger] first_with_id(devices@, selected->0@, i) && s@ == devices@[i].name@ + " ("@ + platform_label(
                devices@[i].platform,
            ) + ")"@ + " - "@ + devices@[i].id@,
        !(selected matches Some(d) && has_id(devices@, d@)) ==> s@ == "Select USB device"@,
{
    if let Some(d) = selected {
        let mut i: usize = 0;
        while i < devices.len()
            invariant
                i <= devices@.len(),
                *selected == Some(*d),
                forall|j: int| 0 <= j < i ==> (#[trigger] devices@[j]).id@ != d@,
            decreases devices@.len() - i,
        {
            if str_eq(devices[i].id.as_str(), d.as_str()) {
                let mut s = devices[i].display_name();
                s.append(" - ");
                s.append(devices[i].id.as_str());
                assert(first_with_id(devices@, d@, i as int));
                return s;
            }
            i += 1;
        }
    }
    "Select USB device".to_string()
}

/// `"<booted> booted simulator(s) · <available> available"`.
pub fn simulator_summary(booted: usize, available: usize) -> (s: String)
    ensures
        s@ == decimal(booted as nat) + " booted simulator(s) · "@ + decimal(available as nat) + " available"@,
{
    let mut s = String::new();
    push_decimal(&mut s, booted as u64);
    s.append(" booted simulator(s) · ");
    push_decimal(&mut s, available as u64);
    s.append(" available");
    s
}

/// `"Booting <udid>..."`.
pub fn booting_label(udid: &str) -> (s: String)
    ensures
        s@ == "Booting "@ + udid@ + "..."@,
{
    let mut s = "Booting ".to_string();
    s.append(udid);
    s.append("...");
    s
}

/// A simulator row's boot button: its text, and whether it can be pressed
/// (not booted, and no boot under way).
pub fn simulator_boot_button(state: &str, udid: &str, booting: &Option<String>) -> (r: (&'static str, bool))
    ensures
        r.1 == (state@ != "Booted"@ && booting is None),
        r.0@ == if state@ == "Booted"@ {
            "Booted"@
        } else if booting matches Some(b) && b@ == udid@ {
            "Booting…"@
        } else {
            "Boot"@
        },
{
    let is_booted = str_eq(state, "Booted");
    let is_booting = match booting {
        Some(b) => str_eq(b.as_str(), udid),
        None => false,
    };
    let label = if is_booted {
        "Booted"
    } else if is_booting {
        "Booting…"
    } else {
        "Boot"
    };
    (label, !is_booted && booting.is_none())
}

/// A watch in the watches tab: `"<name> (<matches>)"`.
pub fn watch_label(watch: &UiWatch) -> (s: String)
    ensures
        s@ == watch.name@ + " ("@ + decimal(watch.match_count as nat) + ")"@,
{
    let mut s = watch.name.clone();
    s.append(" (");
    push_decimal(&mut s, watch.match_count as u64);
    s.append(")");
    s
}

/// A crash's headline as the crashes tab shows it: at most 80 bytes, with
/// `…` after a cut.
pub fn crash_summary(headline: &str) -> (s: String)
    requires
        byte_len(headline@) > 80 ==> char_at_byte(headline@, 80) is Some,
    ensures
        byte_len(headline@) <= 80 ==> s@ == headline@,
        byte_len(headline@) > 80 ==> (char_at_byte(headline@, 80) matches Some(k) && s@ == headline@.take(k)
            + "…"@),
{
    let cs = chars_of(headline);
    if byte_len_exec(&cs) > 80 {
        match char_index_at_byte(&cs, 80) {
            Some(k) => {
                let mut s = string_from(crate::text::slice_of(&cs, 0, k).as_slice());
                s.append("…");
                proof {
                    assert(headline@.take(k as int) =~= headline@.subrange(0, k as int));
                }
                s
            },
            None => headline.to_string(),
        }
    } else {
        headline.to_string()
    }
}

/// How a crash's context line reads: `"<timestamp> <level> <tag>: <message>"`.
pub open spec fn crash_line_text(e: LogEntry) -> Seq<char> {
    e.timestamp@ + " "@ + seq![level_char(e.level)] + " "@ + e.tag@ + ": "@ + e.message@
}

pub fn crash_line(entry: &LogEntry) -> (s: String)
    ensures
        s@ == crash_line_text(*entry),
{
    let mut s = String::new();
    s.append(entry.timestamp.as_str());
    s.append(" ");
    push_char(&mut s, entry.level.as_char());
    s.append(" ");
    s.append(entry.tag.as_str());
    s.append(": ");
    s.append(entry.message.as_str());
    s
}

/// The context lines of a crash's rows, each followed by a newline.
pub open spec fn context_text(entries: Seq<LogEntry>, rows: Seq<int>) -> Seq<char>
    decreases rows.len(),
{
    if rows.len() == 0 {
        Seq::empty()
    } else {
        context_text(entries, rows.drop_last()) + crash_line_text(entries[rows.last()]) + "\n"@
    }
}

/// The entries of a crash: positions `first..=last`, cut at the last entry.
pub open spec fn crash_rows(entries: Seq<LogEntry>, first: int, last: int) -> Seq<int>
    decreases last - first + 1,
{
    if last < first {
        Seq::empty()
    } else if last < entries.len() {
        crash_rows(entries, first, last - 1).push(last)
    } else {
        crash_rows(entries, first, last - 1)
    }
}

pub open spec fn crash_end(r: CrashReport, len: nat) -> int {
    if (r.last_index as int) < (if len > 0 { len - 1 } else { 0 }) {
        r.last_index as int
    } else if len > 0 {
        len - 1
    } else {
        0
    }
}

proof fn lemma_crash_rows_in(entries: Seq<LogEntry>, first: int, last: int)
    ensures
        forall|k: int| 0 <= k < crash_rows(entries, first, last).len() ==> first <= #[trigger] crash_rows(
            entries,
            first,
            last,
        )[k] <= last && crash_rows(entries, first, last)[k] < entries.len(),
    decreases last - first + 1,
{
    if last >= first {
        lemma_crash_rows_in(entries, first, last - 1);
        let prev = crash_rows(entries, first, last - 1);
        let cur = crash_rows(entries, first, last);
        assert forall|k: int| 0 <= k < cur.len() implies first <= #[trigger] cur[k] <= last && cur[k] < entries.len() by {
            if k < prev.len() {
                assert(cur[k] == prev[k]);
            }
        }
    }
}

impl Pane {
    /// The context lines of a crash with whether each is one of the crash's
    /// own lines.
    pub fn crash_context(&self, report: &CrashReport) -> (r: Vec<(String, bool)>)
        ensures
            r@.len() == crash_rows(self.entries@, report.first_index as int, crash_end(*report, self.entries@.len())).len(),
            forall|k: int|
                0 <= k < r@.len() ==> {
                    let row = crash_rows(self.entries@, report.first_index as int, crash_end(*report, self.entries@.len()))[k];
                    &&& (#[trigger] r@[k]).0@ == crash_line_text(self.entries@[row])
                    &&& r@[k].1 == self.crash_line_indices@.contains(row as usize)
                },
    {
        let len = self.entries.len();
        let end = if len == 0 {
            0
        } else if report.last_index < len - 1 {
            report.last_index
        } else {
            len - 1
        };
        let ghost rows_all = crash_rows(self.entries@, report.first_index as int, end as int);
        let mut r: Vec<(String, bool)> = Vec::new();
        let mut i = report.first_index;
        if i <= end {
            while i <= end
                invariant
                    report.first_index <= i <= end + 1,
                    end < usize::MAX,
                    end == crash_end(*report, self.entries@.len()),
                    r@.len() == crash_rows(self.entries@, report.first_index as int, i - 1).len(),
                    forall|k: int|
                        0 <= k < r@.len() ==> {
                            let row = crash_rows(self.entries@, report.first_index as int, i - 1)[k];
                            &&& (#[trigger] r@[k]).0@ == crash_line_text(self.entries@[row])
                            &&& r@[k].1 == self.crash_line_indices@.contains(row as usize)
                        },
                decreases end + 1 - i,
            {
                proof {
                    lemma_crash_rows_in(self.entries@, report.first_index as int, i - 1);
                }
                if i < self.entries.len() {
                    let line = crash_line(&self.entries[i]);
                    let marked = self.crash_line_indices.contains(&i);
                    r.push((line, marked));
                }
                i += 1;
            }
        }
        r
    }

    /// The text a crash's copy button puts on the clipboard: its type,
    /// timestamp and headline, then its context lines, each ending in a
    /// newline.
    pub fn crash_report_text(&self, report: &CrashReport) -> (s: String)
        ensures
            s@ == "["@ + crash_type_text(report.crash_type) + "] "@ + report.timestamp@ + "\n"@ + report.headline@
                + "\n"@ + context_text(
                self.entries@,
                crash_rows(self.entries@, report.first_index as int, crash_end(*report, self.entries@.len())),
            ),
    {
        let mut s = "[".to_string();
        s.append(crash_type_label(report.crash_type));
        s.append("] ");
        s.append(report.timestamp.as_str());
        s.append("\n");
        s.append(report.headline.as_str());
        s.append("\n");
        let lines = self.crash_context(report);
        let ghost head = s@;
        let ghost rows = crash_rows(self.entries@, report.first_index as int, crash_end(*report, self.entries@.len()));
        let mut k: usize = 0;
        while k < lines.len()
            invariant
                k <= lines@.len(),
                lines@.len() == rows.len(),
                forall|q: int| 0 <= q < lines@.len() ==> (#[trigger] lines@[q]).0@ == crash_line_text(self.entries@[rows[q]]),
                s@ == head + context_text(self.entries@, rows.take(k as int)),
            decreases lines@.len() - k,
        {
            assert(rows.take(k + 1).drop_last() =~= rows.take(k as int));
            s.append(lines[k].0.as_str());
            s.append("\n");
            k += 1;
        }
        assert(rows.take(k as int) =~= rows);
        s
    }

    /// "Clear All Crashes": no reports, no crash lines, no crash cursor.
    pub fn clear_crashes(&mut self)
        ensures
            final(self).crash_reports@.len() == 0,
            final(self).crash_line_indices@ == Set::<usize>::empty(),
            *final(self) == (Pane {
                crash_reports: final(self).crash_reports,
                crash_line_indices: final(self).crash_line_indices,
                crash_nav_index: None,
                ..*old(self)
            }),
    {
        self.crash_reports = Vec::new();
        self.crash_line_indices = std::collections::HashSet::new();
        self.crash_nav_index = None;
    }

    /// The watches tab's Add: the trimmed watch input, when not blank,
    /// becomes a watch named by its pattern and the input is emptied; gives
    /// whether a watch was added.
    pub fn add_watch_from_input(&mut self) -> (added: bool)
        ensures
            added == (trim(old(self).watch_input@).len() > 0),
            !added ==> *final(self) == *old(self),
            added ==> {
                &&& final(self).watches@.len() == old(self).watches@.len() + 1
                &&& same_watch_text(final(self).watches@.drop_last(), old(self).watches@)
                &&& final(self).watches@.last().name@ == trim(old(self).watch_input@)
                &&& final(self).watches@.last().pattern@ == trim(old(self).watch_input@)
                &&& final(self).watch_input@.len() == 0
            },
    {
        let pattern = trim_str(self.watch_input.as_str());
        if pattern.as_str().is_empty() {
            return false;
        }
        let name = pattern.clone();
        self.add_watch(name, pattern);
        self.watch_input = String::new();
        true
    }
}

} // verus!
