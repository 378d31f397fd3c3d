//! The decisions of QR-code pairing over mDNS: which advertised services to
//! pair with, where to connect afterwards, and what to tell the user. The
//! caller browses the services, runs `adb` and reports back.
use vstd::prelude::*;
use crate::adb::{QrPairEvent, service_matches_expected_name};
use crate::text::{contains, decimal, push_decimal, str_eq, trim, trim_str, unicode_lower, to_lowercase, chars_of, contains_exec};

verus! {

/// `"<addr>:<port>"`.
pub open spec fn host_port(addr: Seq<char>, port: u16) -> Seq<char> {
    addr + ":"@ + decimal(port as nat)
}

pub fn format_host_port(addr: &str, port: u16) -> (s: String)
    ensures
        s@ == host_port(addr@, port),
{
    let mut s = addr.to_string();
    s.append(":");
    push_decimal(&mut s, port as u64);
    s
}

/// Connect services seen so far, as (address, port), each once.
pub open spec fn ports_view(v: Seq<(String, u16)>) -> Seq<(Seq<char>, u16)> {
    v.map_values(|e: (String, u16)| (e.0@, e.1))
}

/// The state of one QR pairing session.
#[derive(Debug)]
pub struct QrPairSession {
    pub expected_name: String,
    pub connect_ports: Vec<(String, u16)>,
    pub tried: Vec<String>,
}

impl QrPairSession {
    pub open spec fn tried_view(&self) -> Seq<Seq<char>> {
        self.tried@.map_values(|t: String| t@)
    }

    /// A session for the service name shown in the QR code.
    pub fn new(expected_name: String) -> (s: QrPairSession)
        ensures
            s.expected_name@ == expected_name@,
            s.connect_ports@.len() == 0,
            s.tried@.len() == 0,
    {
        QrPairSession { expected_name, connect_ports: Vec::new(), tried: Vec::new() }
    }

    fn has_port(&self, addr: &str, port: u16) -> (b: bool)
        ensures
            b == ports_view(self.connect_ports@).contains((addr@, port)),
    {
        let mut i: usize = 0;
        while i < self.connect_ports.len()
            invariant
                i <= self.connect_ports@.len(),
                forall|k: int| 0 <= k < i ==> #[trigger] ports_view(self.connect_ports@)[k] != (addr@, port),
            decreases self.connect_ports@.len() - i,
        {
            let (a, p) = &self.connect_ports[i];
            if *p == port && str_eq(a.as_str(), addr) {
                assert(ports_view(self.connect_ports@)[i as int] == (addr@, port));
                return true;
            }
            i += 1;
        }
        false
    }

    /// A connect service resolved at an IPv4 address: it is remembered once.
    pub fn on_connect_service(&mut self, addr: String, port: u16)
        ensures
            final(self).expected_name == old(self).expected_name,
            final(self).tried == old(self).tried,
            ports_view(final(self).connect_ports@) == if ports_view(old(self).connect_ports@).contains(
                (addr@, port),
            ) {
                ports_view(old(self).connect_ports@)
            } else {
                ports_view(old(self).connect_ports@).push((addr@, port))
            },
    {
        if !self.has_port(addr.as_str(), port) {
            let ghost before = ports_view(self.connect_ports@);
            let ghost a = addr@;
            self.connect_ports.push((addr, port));
            assert(ports_view(self.connect_ports@) =~= before.push((a, port)));
        }
    }

    fn was_tried(&self, pair_addr: &str) -> (b: bool)
        ensures
            b == self.tried_view().contains(pair_addr@),
    {
        let mut i: usize = 0;
        while i < self.tried.len()
            invariant
                i <= self.tried@.len(),
                forall|k: int| 0 <= k < i ==> #[trigger] self.tried_view()[k] != pair_addr@,
            decreases self.tried@.len() - i,
        {
            if str_eq(self.tried[i].as_str(), pair_addr) {
                assert(self.tried_view()[i as int] == pair_addr@);
                return true;
            }
            i += 1;
        }
        false
    }

    /// A pairing service resolved: the address to pair with, when the
    /// service belongs to this session, has an IPv4 address and was not
    /// tried before (it is then marked as tried).
    pub fn on_pairing_service(&mut self, fullname: &str, ipv4: Option<String>, port: u16) -> (r: Option<String>)
        ensures
            final(self).expected_name == old(self).expected_name,
            final(self).connect_ports == old(self).connect_ports,
            match ipv4 {
                Some(a) if contains(fullname@, old(self).expected_name@) && !old(self).tried_view().contains(
                    host_port(a@, port),
                ) => r matches Some(p) && p@ == host_port(a@, port) && final(self).tried_view()
                    == old(self).tried_view().push(host_port(a@, port)),
                _ => r is None && final(self).tried_view() == old(self).tried_view(),
            },
    {
        if !service_matches_expected_name(fullname, self.expected_name.as_str()) {
            return None;
        }
        let addr = match ipv4 {
            Some(a) => a,
            None => return None,
        };
        let pair_addr = format_host_port(addr.as_str(), port);
        if self.was_tried(pair_addr.as_str()) {
            return None;
        }
        let ghost before = self.tried_view();
        self.tried.push(pair_addr.clone());
        assert(self.tried_view() =~= before.push(pair_addr@));
        Some(pair_addr)
    }

    /// Where to connect after pairing with `addr`: the latest connect port
    /// seen on that address.
    pub fn connect_target(&self, addr: &str) -> (r: Option<String>)
        ensures
            match r {
                Some(t) => exists|i: int| 0 <= i < self.connect_ports@.len()
                    && #[trigger] ports_view(self.connect_ports@)[i].0 == addr@
                    && t@ == host_port(addr@, self.connect_ports@[i].1)
                    && forall|k: int| i < k < self.connect_ports@.len() ==> #[trigger] ports_view(self.connect_ports@)[k].0 != addr@,
                None => forall|k: int| 0 <= k < self.connect_ports@.len() ==> #[trigger] ports_view(self.connect_ports@)[k].0 != addr@,
            },
    {
        let mut j = self.connect_ports.len();
        while j > 0
            invariant
                j <= self.connect_ports@.len(),
                forall|k: int| j <= k < self.connect_ports@.len() ==> #[trigger] ports_view(self.connect_ports@)[k].0 != addr@,
            decreases j,
        {
            let (a, p) = &self.connect_ports[j - 1];
            if str_eq(a.as_str(), addr) {
                let t = format_host_port(addr, *p);
                assert(ports_view(self.connect_ports@)[j - 1].0 == addr@);
                return Some(t);
            }
            j -= 1;
        }
        None
    }
}

/// Whether the combined output of `adb pair` reports success.
pub fn pair_succeeded(combined_output: &str) -> (b: bool)
    ensures
        b == contains(unicode_lower(combined_output@), "success"@),
{
    let lowered = to_lowercase(combined_output);
    let l = chars_of(lowered.as_str());
    let n = chars_of("success");
    contains_exec(&l, &n)
}

/// Whether the combined output of `adb connect` reports a connection.
pub fn connect_succeeded(combined_output: &str) -> (b: bool)
    ensures
        b == contains(unicode_lower(combined_output@), "connected"@),
{
    let lowered = to_lowercase(combined_output);
    let l = chars_of(lowered.as_str());
    let n = chars_of("connected");
    contains_exec(&l, &n)
}

/// What an `adb` failure is reported as: its trimmed output when the
/// command exited successfully, else its exit-status error.
pub fn command_failure_text(exited_ok: bool, combined_output: &str, status_error: String) -> (s: String)
    ensures
        s@ == if exited_ok {
            trim(combined_output@)
        } else {
            status_error@
        },
{
    if exited_ok {
        trim_str(combined_output)
    } else {
        status_error
    }
}

/// The status shown while pairing with `pair_addr`.
pub fn pairing_status(pair_addr: &str) -> (e: QrPairEvent)
    ensures
        e matches QrPairEvent::Status(m) && m@ == "Found the QR pairing service at "@ + pair_addr@
            + "; attempting to pair…"@,
{
    let mut m = "Found the QR pairing service at ".to_string();
    m.append(pair_addr);
    m.append("; attempting to pair…");
    QrPairEvent::Status(m)
}

/// The status shown while connecting after a successful pairing.
pub fn connecting_status(connect_addr: &str) -> (e: QrPairEvent)
    ensures
        e matches QrPairEvent::Status(m) && m@ == "Paired successfully; connecting to "@ + connect_addr@
            + "…"@,
{
    let mut m = "Paired successfully; connecting to ".to_string();
    m.append(connect_addr);
    m.append("…");
    QrPairEvent::Status(m)
}

/// How a session ends after `adb pair` ran on `pair_addr`, when no connect
/// port is known for its address.
pub fn paired_without_connect(pair_addr: &str) -> (e: QrPairEvent)
    ensures
        e matches QrPairEvent::Finished(Ok(m)) && m@ == "Paired with "@ + pair_addr@
            + ". If the device does not appear automatically, use the Connect section with the device's connect port."@,
{
    let mut m = "Paired with ".to_string();
    m.append(pair_addr);
    m.append(
        ". If the device does not appear automatically, use the Connect section with the device's connect port.",
    );
    QrPairEvent::Finished(Ok(m))
}

/// How a session ends after pairing and an `adb connect` that ran: connected
/// when it exited successfully and reported a connection, otherwise paired
/// with the connect failure described.
pub fn paired_then_connected(
    pair_addr: &str,
    connect_addr: &str,
    exited_ok: bool,
    combined_output: &str,
    status_error: String,
) -> (e: QrPairEvent)
    ensures
        if exited_ok && contains(unicode_lower(combined_output@), "connected"@) {
            e matches QrPairEvent::Finished(Ok(m)) && m@ == "Paired & connected to "@ + connect_addr@
        } else {
            e matches QrPairEvent::Finished(Ok(m)) && m@ == "Paired with "@ + pair_addr@
                + ". Automatic connect to "@ + connect_addr@ + " failed: "@ + (if exited_ok {
                trim(combined_output@)
            } else {
                status_error@
            }) + ". Use the Connect section with the device's connect port if needed."@
        },
{
    if exited_ok && connect_succeeded(combined_output) {
        let mut m = "Paired & connected to ".to_string();
        m.append(connect_addr);
        return QrPairEvent::Finished(Ok(m));
    }
    let reason = command_failure_text(exited_ok, combined_output, status_error);
    let mut m = "Paired with ".to_string();
    m.append(pair_addr);
    m.append(". Automatic connect to ");
    m.append(connect_addr);
    m.append(" failed: ");
    m.append(reason.as_str());
    m.append(". Use the Connect section with the device's connect port if needed.");
    QrPairEvent::Finished(Ok(m))
}

/// How a session ends when `adb connect` could not be run at all.
pub fn paired_connect_not_run(pair_addr: &str, connect_addr: &str, error: &str) -> (e: QrPairEvent)
    ensures
        e matches QrPairEvent::Finished(Ok(m)) && m@ == "Paired with "@ + pair_addr@
            + ". Automatic connect to "@ + connect_addr@ + " failed: "@ + error@
            + ". Use the Connect section if needed."@,
{
    let mut m = "Paired with ".to_string();
    m.append(pair_addr);
    m.append(". Automatic connect to ");
    m.append(connect_addr);
    m.append(" failed: ");
    m.append(error);
    m.append(". Use the Connect section if needed.");
    QrPairEvent::Finished(Ok(m))
}

/// What the pairing dialog shows.
#[derive(Debug, Clone, PartialEq, Eq)]
pub enum QrPairStatus {
    WaitingScan,
    Pairing(String),
    Success(String),
    Failed(String),
}

impl QrPairStatus {
    /// Whether the session still waits for events.
    pub fn is_active(&self) -> (b: bool)
        ensures
            b == (self is WaitingScan || self is Pairing),
    {
        match self {
            QrPairStatus::WaitingScan | QrPairStatus::Pairing(_) => true,
            _ => false,
        }
    }

    /// The status after an event: a progress message while pairing, the
    /// outcome when finished. Also says whether the device list should be
    /// refreshed (after a successful pairing).
    pub fn after_event(event: QrPairEvent) -> (r: (QrPairStatus, bool))
        ensures
            match event {
                QrPairEvent::Status(m) => r == (QrPairStatus::Pairing(m), false),
                QrPairEvent::Finished(Ok(m)) => r == (QrPairStatus::Success(m), true),
                QrPairEvent::Finished(Err(m)) => r == (QrPairStatus::Failed(m), false),
            },
    {
        match event {
            QrPairEvent::Status(m) => (QrPairStatus::Pairing(m), false),
            QrPairEvent::Finished(Ok(m)) => (QrPairStatus::Success(m), true),
            QrPairEvent::Finished(Err(m)) => (QrPairStatus::Failed(m), false),
        }
    }
}

} // verus!
