//! Android Debug Bridge: device lists, package lists and pairing strings.
use vstd::prelude::*;
use crate::network_condition::{NetworkConditionPreset, NetworkConditionSpec, custom_params_error, preset_label};
use crate::sorting::{dedup_sorted, sort_strings, sorted, strictly_sorted};
use crate::text::{decimal, to_lowercase, unicode_lower, chars_of, contains, contains_exec, contains_str, decode_lossy, find_index, find_str, has_char, is_last_char, lines, parse_unsigned, parse_unsigned_range, push_char, rfind_char, split_lines, split_whitespace, split_ws, starts_with, starts_with_exec, starts_with_str, str_eq, string_from, sub_string, sviews, trim, trim_chars, trim_range, trim_str, utf8_lossy, vviews};

verus! {

/// `serial` is a TCP/IP connection (`IP:port`).
pub fn is_tcp_device(serial: &str) -> (b: bool)
    ensures
        b == contains(serial@, ":"@),
{
    let cs = chars_of(serial);
    contains_str(&cs, ":")
}

/// `serial` names an Android emulator.
pub fn is_emulator(serial: &str) -> (b: bool)
    ensures
        b == starts_with(serial@, "emulator-"@),
{
    let cs = chars_of(serial);
    starts_with_str(&cs, "emulator-")
}

} // verus!

verus! {

/// A device as `adb devices -l` lists it.
#[derive(Debug, Clone, PartialEq, Eq)]
pub struct AdbDevice {
    pub serial: String,
    pub description: String,
}

/// Progress of QR-code pairing.
#[derive(Debug, PartialEq, Eq)]
pub enum QrPairEvent {
    Status(String),
    Finished(Result<String, String>),
}

/// Outcome of switching a device to TCP/IP mode.
#[derive(Debug, Clone, PartialEq, Eq)]
pub struct TcpipEnableResult {
    pub message: String,
    pub connect_host: Option<String>,
    pub connected: bool,
}

/// The first word of `ws` that starts with `p`.
pub open spec fn word_with_prefix(ws: Seq<Seq<char>>, p: Seq<char>) -> Option<Seq<char>>
    decreases ws.len(),
{
    if ws.len() == 0 {
        None
    } else if starts_with(ws[0], p) {
        Some(ws[0])
    } else {
        word_with_prefix(ws.drop_first(), p)
    }
}

pub open spec fn underscores_to_spaces(s: Seq<char>) -> Seq<char> {
    Seq::new(
        s.len(),
        |i: int|
            if s[i] == '_' {
                ' '
            } else {
                s[i]
            },
    )
}

/// The human-readable name of a device: its `model:` field with
/// underscores as spaces, else its `device:` field, else its serial.
pub open spec fn friendly(serial: Seq<char>, description: Seq<char>) -> Seq<char> {
    if description.len() == 0 {
        serial
    } else {
        match word_with_prefix(split_ws(description), "model:"@) {
            Some(w) => underscores_to_spaces(w.skip("model:"@.len() as int)),
            None => match word_with_prefix(split_ws(description), "device:"@) {
                Some(w) => w.skip("device:"@.len() as int),
                None => serial,
            },
        }
    }
}

proof fn lemma_word_with_prefix(ws: Seq<Seq<char>>, p: Seq<char>)
    ensures
        word_with_prefix(ws, p) matches Some(w) ==> starts_with(w, p),
    decreases ws.len(),
{
    if ws.len() > 0 && !starts_with(ws[0], p) {
        lemma_word_with_prefix(ws.drop_first(), p);
    }
}

fn word_with_prefix_exec(ws: &Vec<Vec<char>>, p: &str) -> (r: Option<usize>)
    ensures
        match r {
            Some(k) => k < ws@.len() && word_with_prefix(vviews(ws@), p@) == Some(ws@[k as int]@),
            None => word_with_prefix(vviews(ws@), p@) is None,
        },
{
    let pc = chars_of(p);
    let mut i: usize = 0;
    assert(vviews(ws@).skip(0) =~= vviews(ws@));
    while i < ws.len()
        invariant
            i <= ws@.len(),
            pc@ == p@,
            word_with_prefix(vviews(ws@), p@) == word_with_prefix(vviews(ws@).skip(i as int), p@),
        decreases ws.len() - i,
    {
        let ghost rest = vviews(ws@).skip(i as int);
        assert(rest[0] == ws@[i as int]@);
        if starts_with_exec(&ws[i], &pc) {
            return Some(i);
        }
        assert(rest.drop_first() =~= vviews(ws@).skip(i + 1));
        i += 1;
    }
    None
}

impl AdbDevice {
    /// A human-readable name, from fields like `model:Pixel_6`.
    pub fn friendly_name(&self) -> (s: String)
        ensures
            s@ == friendly(self.serial@, self.description@),
    {
        if self.description.as_str().is_empty() {
            return self.serial.clone();
        }
        let desc = chars_of(self.description.as_str());
        let words = split_whitespace(&desc);
        match word_with_prefix_exec(&words, "model:") {
            Some(k) => {
                let w = &words[k];
                let start = chars_of("model:").len();
                let mut out = String::new();
                let mut i = start;
                proof {
                    lemma_word_with_prefix(vviews(words@), "model:"@);
                    assert(starts_with(w@, "model:"@));
                }
                while i < w.len()
                    invariant
                        start <= i <= w@.len(),
                        start == "model:"@.len(),
                        out@ == underscores_to_spaces(w@.subrange(start as int, i as int)),
                    decreases w.len() - i,
                {
                    let c = if w[i] == '_' {
                        ' '
                    } else {
                        w[i]
                    };
                    push_char(&mut out, c);
                    assert(underscores_to_spaces(w@.subrange(start as int, i + 1)) =~= underscores_to_spaces(
                        w@.subrange(start as int, i as int),
                    ).push(c));
                    i += 1;
                }
                assert(w@.subrange(start as int, w@.len() as int) =~= w@.skip(start as int));
                return out;
            },
            None => {},
        }
        match word_with_prefix_exec(&words, "device:") {
            Some(k) => {
                let w = &words[k];
                let start = chars_of("device:").len();
                proof {
                    lemma_word_with_prefix(vviews(words@), "device:"@);
                    assert(starts_with(w@, "device:"@));
                }
                assert(w@.subrange(start as int, w@.len() as int) =~= w@.skip(start as int));
                sub_string(w, start, w.len())
            },
            None => self.serial.clone(),
        }
    }
}

pub open spec fn device_view(d: AdbDevice) -> (Seq<char>, Seq<char>) {
    (d.serial@, d.description@)
}

pub open spec fn devices_view(v: Seq<AdbDevice>) -> Seq<(Seq<char>, Seq<char>)> {
    Seq::new(v.len(), |i: int| device_view(v[i]))
}

/// Position of the first device named `n`, or -1.
pub open spec fn name_index(r: Seq<(Seq<char>, Seq<char>)>, n: Seq<char>) -> int
    decreases r.len(),
{
    if r.len() == 0 {
        -1
    } else if friendly(r[0].0, r[0].1) == n {
        0
    } else {
        let k = name_index(r.drop_first(), n);
        if k < 0 {
            -1
        } else {
            k + 1
        }
    }
}

/// Devices with one entry per name, in first-seen order; an `IP:port`
/// serial replaces an earlier non-TCP one of the same name.
pub open spec fn dedupe(ds: Seq<(Seq<char>, Seq<char>)>) -> Seq<(Seq<char>, Seq<char>)>
    decreases ds.len(),
{
    if ds.len() == 0 {
        seq![]
    } else {
        let r = dedupe(ds.drop_last());
        let d = ds.last();
        let k = name_index(r, friendly(d.0, d.1));
        if 0 <= k < r.len() {
            if contains(d.0, ":"@) && !contains(r[k].0, ":"@) {
                r.update(k, d)
            } else {
                r
            }
        } else {
            r.push(d)
        }
    }
}

proof fn lemma_name_index(r: Seq<(Seq<char>, Seq<char>)>, n: Seq<char>, k: int)
    requires
        0 <= k <= r.len(),
        forall|j: int| 0 <= j < k ==> friendly(#[trigger] r[j].0, r[j].1) != n,
        k < r.len() ==> friendly(r[k].0, r[k].1) == n,
    ensures
        name_index(r, n) == (if k < r.len() {
            k
        } else {
            -1
        }),
    decreases k,
{
    if k > 0 {
        let u = r.drop_first();
        assert forall|j: int| 0 <= j < k - 1 implies friendly(#[trigger] u[j].0, u[j].1) != n by {
            assert(u[j] == r[j + 1]);
        }
        if k - 1 < u.len() {
            assert(u[k - 1] == r[k]);
        }
        lemma_name_index(u, n, k - 1);
    }
}

/// Keep one entry per physical device: when wireless debugging is active
/// `adb devices -l` lists a device under both its `IP:port` and its mDNS
/// name; the `IP:port` entry is kept.
pub fn deduplicate_devices(devices: Vec<AdbDevice>) -> (r: Vec<AdbDevice>)
    ensures
        devices_view(r@) == dedupe(devices_view(devices@)),
{
    let ghost ds = devices_view(devices@);
    let mut result: Vec<AdbDevice> = Vec::new();
    let mut names: Vec<String> = Vec::new();
    let mut i: usize = 0;
    assert(ds.take(0) =~= Seq::<(Seq<char>, Seq<char>)>::empty());
    while i < devices.len()
        invariant
            i <= devices@.len(),
            ds == devices_view(devices@),
            devices_view(result@) == dedupe(ds.take(i as int)),
            names@.len() == result@.len(),
            forall|k: int| 0 <= k < names@.len() ==> #[trigger] names@[k]@ == friendly(result@[k].serial@, result@[k].description@),
        decreases devices.len() - i,
    {
        let device = AdbDevice {
            serial: devices[i].serial.clone(),
            description: devices[i].description.clone(),
        };
        let name = device.friendly_name();
        let ghost r = devices_view(result@);
        assert(ds.take(i + 1).drop_last() =~= ds.take(i as int));
        assert(ds.take(i + 1).last() == device_view(device));
        let mut k: usize = 0;
        while k < names.len() && !str_eq(names[k].as_str(), name.as_str())
            invariant
                k <= names@.len() == result@.len(),
                r == devices_view(result@),
                forall|j: int| 0 <= j < names@.len() ==> #[trigger] names@[j]@ == friendly(result@[j].serial@, result@[j].description@),
                forall|j: int| 0 <= j < k ==> friendly(#[trigger] r[j].0, r[j].1) != name@,
            decreases names.len() - k,
        {
            assert(r[k as int] == device_view(result@[k as int]));
            k += 1;
        }
        proof {
            if k < names.len() {
                assert(r[k as int] == device_view(result@[k as int]));
            }
            lemma_name_index(r, name@, k as int);
        }
        if k < names.len() {
            if is_tcp_device(device.serial.as_str()) && !is_tcp_device(result[k].serial.as_str()) {
                result.set(k, device);
                assert(devices_view(result@) =~= r.update(k as int, ds.take(i + 1).last()));
            }
        } else {
            result.push(device);
            names.push(name);
            assert(devices_view(result@) =~= r.push(ds.take(i + 1).last()));
        }
        i += 1;
    }
    assert(ds.take(i as int) =~= ds);
    result
}

/// Everything after the first element (`Iterator::skip(1)`).
pub open spec fn tail(s: Seq<Seq<char>>) -> Seq<Seq<char>> {
    if s.len() == 0 {
        s
    } else {
        s.drop_first()
    }
}

/// A device line: serial, the word `device`, then its description.
pub open spec fn device_line(l: Seq<char>) -> Option<(Seq<char>, Seq<char>)> {
    let t = trim(l);
    let i = find_index(t, " device "@);
    if t.len() == 0 || i < 0 {
        None
    } else {
        Some((trim(t.take(i)), trim(t.skip(i + " device "@.len()))))
    }
}

/// The device lines among `ls`, in order.
pub open spec fn device_lines(ls: Seq<Seq<char>>) -> Seq<(Seq<char>, Seq<char>)>
    decreases ls.len(),
{
    if ls.len() == 0 {
        seq![]
    } else {
        let pre = device_lines(ls.drop_last());
        match device_line(ls.last()) {
            Some(d) => pre.push(d),
            None => pre,
        }
    }
}

fn device_line_exec(l: &[char]) -> (r: Option<AdbDevice>)
    ensures
        match r {
            Some(d) => device_line(l@) == Some(device_view(d)),
            None => device_line(l@) is None,
        },
{
    let t = trim_chars(l);
    if t.len() == 0 {
        return None;
    }
    let i = match find_str(&t, " device ") {
        Some(i) => i,
        None => return None,
    };
    proof {
        reveal_strlit(" device ");
    }
    let (a, b) = trim_range(&t, 0, i);
    assert(t@.subrange(0, i as int) =~= t@.take(i as int));
    let (c, d) = trim_range(&t, i + 8, t.len());
    assert(t@.subrange(i + 8, t@.len() as int) =~= t@.skip(i + 8));
    Some(AdbDevice { serial: sub_string(&t, a, b), description: sub_string(&t, c, d) })
}

/// The devices `adb devices -l` lists in `text` (its first line is a header).
pub open spec fn listed_devices(text: Seq<char>) -> Seq<(Seq<char>, Seq<char>)> {
    dedupe(device_lines(tail(lines(text))))
}

pub fn parse_adb_devices_text(text: &str) -> (r: Vec<AdbDevice>)
    ensures
        devices_view(r@) == listed_devices(text@),
{
    let cs = chars_of(text);
    let ls = split_lines(&cs);
    let mut raw: Vec<AdbDevice> = Vec::new();
    let mut i: usize = 1;
    let ghost body = tail(lines(text@));
    assert(body.take(0) =~= Seq::<Seq<char>>::empty());
    while i < ls.len()
        invariant
            1 <= i,
            i <= ls@.len() || ls@.len() == 0,
            ls@.len() == 0 ==> i == 1,
            vviews(ls@) == lines(text@),
            body == tail(lines(text@)),
            devices_view(raw@) == device_lines(body.take(i - 1)),
        decreases ls.len() - i,
    {
        assert(body.take(i as int).drop_last() =~= body.take(i - 1));
        assert(body.take(i as int).last() == ls@[i as int]@);
        match device_line_exec(&ls[i]) {
            Some(d) => {
                raw.push(d);
            },
            None => {},
        }
        assert(devices_view(raw@) =~= device_lines(body.take(i as int)));
        i += 1;
    }
    if ls.len() > 0 {
        assert(i == ls.len());
        assert(body.len() == ls@.len() - 1);
        assert(body.take(i - 1) =~= body);
        assert(devices_view(raw@) == device_lines(body));
    } else {
        assert(lines(text@).len() == 0);
        assert(body.take(0) =~= body);
        assert(devices_view(raw@) == device_lines(body));
    }
    let r = deduplicate_devices(raw);
    assert(devices_view(r@) == dedupe(device_lines(body)));
    r
}

/// Devices from the raw output of `adb devices -l`.
pub fn parse_adb_devices_output(stdout: &[u8]) -> (r: Vec<AdbDevice>)
    ensures
        devices_view(r@) == listed_devices(utf8_lossy(stdout@)),
{
    let text = decode_lossy(stdout);
    parse_adb_devices_text(text.as_str())
}

/// A line of `ps -o NAME` naming a package: a dotted name not in brackets.
pub open spec fn package_name(l: Seq<char>) -> Option<Seq<char>> {
    let n = trim(l);
    if contains(n, "."@) && !starts_with(n, "["@) {
        Some(n)
    } else {
        None
    }
}

/// The package names among `ls`, in order.
pub open spec fn package_names(ls: Seq<Seq<char>>) -> Seq<Seq<char>>
    decreases ls.len(),
{
    if ls.len() == 0 {
        seq![]
    } else {
        let pre = package_names(ls.drop_last());
        match package_name(ls.last()) {
            Some(n) => pre.push(n),
            None => pre,
        }
    }
}

/// The running packages in `text`, the output of `ps -A -o NAME`: sorted,
/// without repeats, and exactly the package names of its lines after the
/// header.
pub fn parse_running_packages_text(text: &str) -> (r: Vec<String>)
    ensures
        strictly_sorted(sviews(r@)),
        sviews(r@).to_set() == package_names(tail(lines(text@))).to_set(),
{
    let cs = chars_of(text);
    let ls = split_lines(&cs);
    let mut found: Vec<String> = Vec::new();
    let mut i: usize = 1;
    let ghost body = tail(lines(text@));
    assert(body.take(0) =~= Seq::<Seq<char>>::empty());
    while i < ls.len()
        invariant
            1 <= i,
            i <= ls@.len() || ls@.len() == 0,
            ls@.len() == 0 ==> i == 1,
            vviews(ls@) == lines(text@),
            body == tail(lines(text@)),
            sviews(found@) == package_names(body.take(i - 1)),
        decreases ls.len() - i,
    {
        assert(body.take(i as int).drop_last() =~= body.take(i - 1));
        assert(body.take(i as int).last() == ls@[i as int]@);
        let n = trim_chars(&ls[i]);
        if contains_str(&n, ".") && !starts_with_str(&n, "[") {
            found.push(string_from(&n));
        }
        assert(sviews(found@) =~= package_names(body.take(i as int)));
        i += 1;
    }
    if ls.len() > 0 {
        assert(body.len() == ls@.len() - 1);
        assert(body.take(i - 1) =~= body);
    } else {
        assert(lines(text@).len() == 0);
        assert(body.take(0) =~= body);
    }
    let sorted_v = sort_strings(found);
    proof {
        lemma_multiset_same_set(sviews(sorted_v@), package_names(body));
    }
    dedup_sorted(sorted_v)
}

/// Two sequences with the same multiset hold the same set.
pub proof fn lemma_multiset_same_set(a: Seq<Seq<char>>, b: Seq<Seq<char>>)
    requires
        a.to_multiset() == b.to_multiset(),
    ensures
        a.to_set() == b.to_set(),
{
    broadcast use vstd::seq_lib::group_to_multiset_ensures;
    assert forall|x: Seq<char>| a.to_set().contains(x) <==> b.to_set().contains(x) by {
        assert(a.contains(x) <==> a.to_multiset().count(x) > 0);
        assert(b.contains(x) <==> b.to_multiset().count(x) > 0);
    }
    assert(a.to_set() =~= b.to_set());
}

pub fn parse_running_packages_output(stdout: &[u8]) -> (r: Vec<String>)
    ensures
        strictly_sorted(sviews(r@)),
        sviews(r@).to_set() == package_names(tail(lines(utf8_lossy(stdout@)))).to_set(),
{
    let text = decode_lossy(stdout);
    parse_running_packages_text(text.as_str())
}

/// A `package:NAME` line of `pm list packages`.
pub open spec fn installed_name(l: Seq<char>) -> Option<Seq<char>> {
    if starts_with(l, "package:"@) {
        Some(trim(l.skip("package:"@.len() as int)))
    } else {
        None
    }
}

pub open spec fn installed_names(ls: Seq<Seq<char>>) -> Seq<Seq<char>>
    decreases ls.len(),
{
    if ls.len() == 0 {
        seq![]
    } else {
        let pre = installed_names(ls.drop_last());
        match installed_name(ls.last()) {
            Some(n) => pre.push(n),
            None => pre,
        }
    }
}

/// The installed packages in `text`, the output of `pm list packages`, sorted.
pub fn parse_installed_packages_text(text: &str) -> (r: Vec<String>)
    ensures
        sorted(sviews(r@)),
        sviews(r@).to_multiset() == installed_names(lines(text@)).to_multiset(),
{
    let cs = chars_of(text);
    let ls = split_lines(&cs);
    let prefix = chars_of("package:");
    let mut found: Vec<String> = Vec::new();
    let mut i: usize = 0;
    assert(lines(text@).take(0) =~= Seq::<Seq<char>>::empty());
    while i < ls.len()
        invariant
            i <= ls@.len(),
            prefix@ == "package:"@,
            vviews(ls@) == lines(text@),
            sviews(found@) == installed_names(lines(text@).take(i as int)),
        decreases ls.len() - i,
    {
        assert(lines(text@).take(i + 1).drop_last() =~= lines(text@).take(i as int));
        assert(lines(text@).take(i + 1).last() == ls@[i as int]@);
        let l = &ls[i];
        if starts_with_exec(l, &prefix) {
            let (a, b) = trim_range(l, prefix.len(), l.len());
            assert(l@.subrange(prefix@.len() as int, l@.len() as int) =~= l@.skip(prefix@.len() as int));
            found.push(sub_string(l, a, b));
        }
        assert(sviews(found@) =~= installed_names(lines(text@).take(i + 1)));
        i += 1;
    }
    assert(lines(text@).take(i as int) =~= lines(text@));
    sort_strings(found)
}

pub fn parse_installed_packages_output(stdout: &[u8]) -> (r: Vec<String>)
    ensures
        sorted(sviews(r@)),
        sviews(r@).to_multiset() == installed_names(lines(utf8_lossy(stdout@))).to_multiset(),
{
    let text = decode_lossy(stdout);
    parse_installed_packages_text(text.as_str())
}

/// The first pid in the output of `pidof`.
pub open spec fn first_pid(text: Seq<char>) -> Option<nat> {
    let ws = split_ws(trim(text));
    if ws.len() == 0 {
        None
    } else {
        parse_unsigned(ws[0], u32::MAX as nat)
    }
}

pub fn parse_pidof_text(text: &str) -> (r: Option<u32>)
    ensures
        match first_pid(text@) {
            Some(v) => r == Some(v as u32),
            None => r is None,
        },
{
    let cs = chars_of(text);
    let t = trim_chars(&cs);
    let ws = split_whitespace(&t);
    if ws.len() == 0 {
        return None;
    }
    assert(vviews(ws@)[0] == ws@[0]@);
    assert(ws@[0]@.subrange(0, ws@[0]@.len() as int) =~= ws@[0]@);
    match parse_unsigned_range(&ws[0], 0, ws[0].len(), 0xffff_ffff) {
        Some(v) => Some(v as u32),
        None => None,
    }
}

pub fn parse_pidof_output(stdout: &[u8]) -> (r: Option<u32>)
    ensures
        match first_pid(utf8_lossy(stdout@)) {
            Some(v) => r == Some(v as u32),
            None => r is None,
        },
{
    let text = decode_lossy(stdout);
    parse_pidof_text(text.as_str())
}

/// Trimmed stdout, else trimmed stderr, else both on separate lines.
pub open spec fn combined_output(stdout: Seq<u8>, stderr: Seq<u8>) -> Seq<char> {
    let o = trim(utf8_lossy(stdout));
    let e = trim(utf8_lossy(stderr));
    if o.len() > 0 && e.len() > 0 {
        o + seq!['\n'] + e
    } else if o.len() > 0 {
        o
    } else {
        e
    }
}

pub fn combine_command_output(stdout: &[u8], stderr: &[u8]) -> (r: String)
    ensures
        r@ == combined_output(stdout@, stderr@),
{
    let o = decode_lossy(stdout);
    let e = decode_lossy(stderr);
    let o = trim_str(o.as_str());
    let e = trim_str(e.as_str());
    match (o.as_str().is_empty(), e.as_str().is_empty()) {
        (false, true) => o,
        (true, false) => e,
        (false, false) => {
            let mut s = o;
            push_char(&mut s, '\n');
            s.append(e.as_str());
            s
        },
        (true, true) => String::new(),
    }
}

/// The ADB pairing QR code text.
pub fn qr_pairing_string(service_name: &str, password: &str) -> (r: String)
    ensures
        r@ == "WIFI:T:ADB;S:"@ + service_name@ + ";P:"@ + password@ + ";;"@,
{
    let mut s = "WIFI:T:ADB;S:".to_string();
    s.append(service_name);
    s.append(";P:");
    s.append(password);
    s.append(";;");
    s
}

/// An mDNS service belongs to the pairing session when its full name
/// contains the expected service name.
pub fn service_matches_expected_name(fullname: &str, expected_name: &str) -> (b: bool)
    ensures
        b == contains(fullname@, expected_name@),
{
    let f = chars_of(fullname);
    let e = chars_of(expected_name);
    contains_exec(&f, &e)
}

/// The prefix of an IP address up to and including its last dot
/// (`"192.168.1."` for `"192.168.1.7"`); empty without a dot.
pub fn ip_prefix_of(ip: &str) -> (r: String)
    ensures
        has_char(ip@, '.') ==> exists|i: int| is_last_char(ip@, '.', i) && r@ == ip@.take(i + 1),
        !has_char(ip@, '.') ==> r@.len() == 0,
{
    let cs = chars_of(ip);
    match rfind_char(&cs, '.') {
        Some(i) => {
            assert(i < cs.len());
            assert(cs@.subrange(0, i + 1) =~= cs@.take(i + 1));
            sub_string(&cs, 0, i + 1)
        },
        None => String::new(),
    }
}

// ---------------------------------------------------------------------------
// Random pairing ids
// ---------------------------------------------------------------------------

/// One step of the xorshift generator.
pub open spec fn xorshift(s: u128) -> u128 {
    let a = s ^ (s << 13u128);
    let b = a ^ (a >> 7u128);
    b ^ (b << 17u128)
}

/// The generator's state after `n` steps from `seed`.
pub open spec fn xorshift_iter(seed: u128, n: nat) -> u128
    decreases n,
{
    if n == 0 {
        seed
    } else {
        xorshift(xorshift_iter(seed, (n - 1) as nat))
    }
}

/// The `i`-th letter of `A..=Z` followed by `a..=z`.
pub open spec fn letter(i: int) -> char {
    if i < 26 {
        ((65 + i) as u8) as char
    } else {
        ((97 + i - 26) as u8) as char
    }
}

/// The id of `len` letters drawn from the generator seeded with `seed`.
pub open spec fn random_id_from(seed: u128, len: nat) -> Seq<char> {
    Seq::new(len, |k: int| letter(((xorshift_iter(seed, (k + 1) as nat) as usize) % 52) as int))
}

/// `len` ASCII letters drawn from an xorshift generator seeded with `seed`.
pub fn random_id_from_seed(seed: u128, len: usize) -> (r: String)
    ensures
        r@ == random_id_from(seed, len as nat),
{
    let mut result = String::new();
    let mut state = seed;
    let mut i: usize = 0;
    while i < len
        invariant
            i <= len,
            state == xorshift_iter(seed, i as nat),
            result@ == random_id_from(seed, i as nat),
        decreases len - i,
    {
        state = state ^ (state << 13u128);
        state = state ^ (state >> 7u128);
        state = state ^ (state << 17u128);
        assert(state == xorshift_iter(seed, (i + 1) as nat));
        let idx = (state as usize) % 52;
        let c = if idx < 26 {
            ((65 + idx) as u8) as char
        } else {
            ((97 + idx - 26) as u8) as char
        };
        push_char(&mut result, c);
        assert(result@ =~= random_id_from(seed, (i + 1) as nat));
        i += 1;
    }
    result
}

/// The clock in nanoseconds since the Unix epoch.
/// Calls `SystemTime::now`; nothing is claimed of the value (a clock before
/// the epoch reads as zero).
#[verifier::external_body]
fn clock_nanos() -> (n: u128) {
    std::time::SystemTime::now().duration_since(std::time::UNIX_EPOCH).unwrap_or_default().as_nanos()
}

/// A random id of `len` ASCII letters, seeded from the clock.
pub fn random_id(len: usize) -> (r: String)
    ensures
        exists|seed: u128| r@ == random_id_from(seed, len as nat),
        r@.len() == len,
{
    let seed = clock_nanos();
    let r = random_id_from_seed(seed, len);
    assert(r@ == random_id_from(seed, len as nat));
    r
}

// ---------------------------------------------------------------------------
// Outcomes of adb commands
// ---------------------------------------------------------------------------

/// `"`<command>` completed while <doing> but did not report <what>"`, with
/// the command's output after a colon when it printed any.
pub open spec fn unconfirmed_message(display: Seq<char>, doing: Seq<char>, what: Seq<char>, combined: Seq<char>) -> Seq<char> {
    "`"@ + display + "` completed while "@ + doing + " but did not report "@ + what + if combined.len() == 0 {
        ""@
    } else {
        ": "@ + combined
    }
}

fn unconfirmed(display: &str, doing: &str, what: &str, combined: &str) -> (s: String)
    ensures
        s@ == unconfirmed_message(display@, doing@, what@, combined@),
{
    let mut s = "`".to_string();
    s.append(display);
    s.append("` completed while ");
    s.append(doing);
    s.append(" but did not report ");
    s.append(what);
    let ghost base = s@;
    if !combined.is_empty() {
        s.append(": ");
        s.append(combined);
        assert(s@ =~= base + (": "@ + combined@));
    } else {
        proof {
            reveal_strlit("");
        }
        assert(s@ =~= base + ""@);
    }
    s
}

fn stdout_text(stdout: &[u8]) -> (s: String)
    ensures
        s@ == trim(utf8_lossy(stdout@)),
{
    let o = decode_lossy(stdout);
    trim_str(o.as_str())
}

/// How `adb pair` ended: its output when the output reports success; a
/// "did not report success" error when it exited cleanly anyway; else the
/// exit-status error.
pub fn pair_outcome(display: &str, exited_ok: bool, stdout: &[u8], stderr: &[u8], status_error: String) -> (r: Result<
    String,
    String,
>)
    ensures
        ({
            let combined = combined_output(stdout@, stderr@);
            if contains(unicode_lower(combined), "success"@) {
                r matches Ok(m) && m@ == trim(utf8_lossy(stdout@))
            } else if exited_ok {
                r matches Err(m) && m@ == unconfirmed_message(
                    display@,
                    "pairing an Android device over Wi-Fi"@,
                    "success"@,
                    combined,
                )
            } else {
                r matches Err(m) && m@ == status_error@
            }
        }),
{
    let out = stdout_text(stdout);
    let combined = combine_command_output(stdout, stderr);
    if crate::qr_pairing::pair_succeeded(combined.as_str()) {
        Ok(out)
    } else if exited_ok {
        Err(unconfirmed(display, "pairing an Android device over Wi-Fi", "success", combined.as_str()))
    } else {
        Err(status_error)
    }
}

/// How `adb connect` ended: its output when it exited cleanly and reports a
/// connection; a "did not report a connection" error when it exited cleanly
/// otherwise; else the exit-status error.
pub fn connect_outcome(display: &str, exited_ok: bool, stdout: &[u8], stderr: &[u8], status_error: String) -> (r: Result<
    String,
    String,
>)
    ensures
        ({
            let combined = combined_output(stdout@, stderr@);
            if exited_ok && contains(unicode_lower(combined), "connected"@) {
                r matches Ok(m) && m@ == trim(utf8_lossy(stdout@))
            } else if exited_ok {
                r matches Err(m) && m@ == unconfirmed_message(
                    display@,
                    "connecting to an Android device over Wi-Fi"@,
                    "a connection"@,
                    combined,
                )
            } else {
                r matches Err(m) && m@ == status_error@
            }
        }),
{
    let out = stdout_text(stdout);
    let combined = combine_command_output(stdout, stderr);
    if exited_ok && crate::qr_pairing::connect_succeeded(combined.as_str()) {
        Ok(out)
    } else if exited_ok {
        Err(
            unconfirmed(
                display,
                "connecting to an Android device over Wi-Fi",
                "a connection",
                combined.as_str(),
            ),
        )
    } else {
        Err(status_error)
    }
}

/// How `adb disconnect` ended: its output when it exited cleanly or says it
/// disconnected, else the exit-status error.
pub fn disconnect_outcome(exited_ok: bool, stdout: &[u8], status_error: String) -> (r: Result<String, String>)
    ensures
        if exited_ok || contains(unicode_lower(trim(utf8_lossy(stdout@))), "disconnected"@) {
            r matches Ok(m) && m@ == trim(utf8_lossy(stdout@))
        } else {
            r matches Err(m) && m@ == status_error@
        },
{
    let out = stdout_text(stdout);
    let lowered = to_lowercase(out.as_str());
    let l = chars_of(lowered.as_str());
    if exited_ok || contains_str(&l, "disconnected") {
        Ok(out)
    } else {
        Err(status_error)
    }
}

/// What restarting the adb server reports: its output, or a default message.
pub fn restart_message(stdout: &[u8]) -> (s: String)
    ensures
        s@ == if trim(utf8_lossy(stdout@)).len() == 0 {
            "ADB server restarted"@
        } else {
            trim(utf8_lossy(stdout@))
        },
{
    let out = stdout_text(stdout);
    if out.as_str().is_empty() {
        "ADB server restarted".to_string()
    } else {
        out
    }
}

/// What enabling TCP/IP mode on `device` reports. `connect_host` is the
/// device's Wi-Fi address with the port when it could be found, and
/// `connect_result` the outcome of connecting to it.
pub fn tcpip_enable_result(
    device: &str,
    port: u16,
    stdout: &[u8],
    connect_host: Option<String>,
    connect_result: Result<String, String>,
) -> (r: TcpipEnableResult)
    ensures
        match connect_host {
            Some(h) => match connect_result {
                Ok(_) => r.connected && opt_string_view(r.connect_host) == Some(h@) && r.message@
                    == "Enabled TCP/IP on "@ + device@ + " and connected to "@ + h@ + "."@,
                Err(e) => !r.connected && opt_string_view(r.connect_host) == Some(h@) && r.message@
                    == "Enabled TCP/IP on "@ + device@ + ", but automatic connect to "@ + h@ + " failed: "@
                    + e@,
            },
            None => !r.connected && r.connect_host is None && r.message@ == (if trim(
                utf8_lossy(stdout@),
            ).len() == 0 {
                "Enabled TCP/IP on "@ + device@ + "."@
            } else {
                trim(utf8_lossy(stdout@))
            }) + " Connect manually using the device Wi-Fi IP and port "@ + decimal(port as nat) + "."@,
        },
{
    match connect_host {
        Some(host) => {
            let mut m = "Enabled TCP/IP on ".to_string();
            m.append(device);
            let connected = match connect_result {
                Ok(_) => {
                    m.append(" and connected to ");
                    m.append(host.as_str());
                    m.append(".");
                    true
                },
                Err(e) => {
                    m.append(", but automatic connect to ");
                    m.append(host.as_str());
                    m.append(" failed: ");
                    m.append(e.as_str());
                    false
                },
            };
            TcpipEnableResult { message: m, connect_host: Some(host), connected }
        },
        None => {
            let out = stdout_text(stdout);
            let mut m = if out.as_str().is_empty() {
                let mut p = "Enabled TCP/IP on ".to_string();
                p.append(device);
                p.append(".");
                p
            } else {
                out
            };
            m.append(" Connect manually using the device Wi-Fi IP and port ");
            crate::text::push_decimal(&mut m, port as u64);
            m.append(".");
            TcpipEnableResult { message: m, connect_host: None, connected: false }
        },
    }
}

pub open spec fn opt_string_view(o: Option<String>) -> Option<Seq<char>> {
    match o {
        Some(s) => Some(s@),
        None => None,
    }
}

// ---------------------------------------------------------------------------
// Device Wi-Fi address from `ip route`
// ---------------------------------------------------------------------------

/// The words after each `src` word of a line, from word `i` on; `None`
/// marks a `src` that ends the line, which ends the search. The flag says
/// whether the search ended there.
pub open spec fn src_words(ws: Seq<Seq<char>>, i: int) -> (Seq<Option<Seq<char>>>, bool)
    decreases ws.len() - i,
{
    if i < 0 || i >= ws.len() {
        (seq![], false)
    } else if ws[i] == "src"@ {
        if i + 1 < ws.len() {
            let rest = src_words(ws, i + 2);
            (seq![Some(ws[i + 1])] + rest.0, rest.1)
        } else {
            (seq![None], true)
        }
    } else {
        src_words(ws, i + 1)
    }
}

/// The candidate addresses of `ip route` output, line by line.
pub open spec fn route_candidates_of(ls: Seq<Seq<char>>) -> Seq<Option<Seq<char>>>
    decreases ls.len(),
{
    if ls.len() == 0 {
        seq![]
    } else {
        let r = src_words(split_ws(ls[0]), 0);
        if r.1 {
            r.0
        } else {
            r.0 + route_candidates_of(ls.drop_first())
        }
    }
}

pub open spec fn opt_vec_views(v: Seq<Option<String>>) -> Seq<Option<Seq<char>>> {
    v.map_values(|o: Option<String>| opt_string_view(o))
}

/// The words that follow `src` in `ip route` output, in order; `None` marks
/// a `src` at the end of a line, where the search stops.
pub fn route_src_candidates(output: &str) -> (r: Vec<Option<String>>)
    ensures
        opt_vec_views(r@) == route_candidates_of(lines(output@)),
{
    let cs = chars_of(output);
    let ls = split_lines(&cs);
    let ghost all = vviews(ls@);
    let mut out: Vec<Option<String>> = Vec::new();
    let mut li: usize = 0;
    assert(all.skip(0) =~= all);
    assert(opt_vec_views(out@) =~= Seq::<Option<Seq<char>>>::empty());
    while li < ls.len()
        invariant
            li <= ls@.len(),
            all == vviews(ls@),
            all == lines(output@),
            opt_vec_views(out@) + route_candidates_of(all.skip(li as int)) == route_candidates_of(all),
        decreases ls@.len() - li,
    {
        let ws = split_whitespace(&ls[li]);
        let ghost words = vviews(ws@);
        assert(words == split_ws(all[li as int]));
        assert(words.len() == ws@.len());
        let ghost out0 = opt_vec_views(out@);
        let mut i: usize = 0;
        let mut stopped = false;
        while i < ws.len() && !stopped
            invariant
                i <= ws@.len() + 1,
                words == vviews(ws@),
                words.len() == ws@.len(),
                opt_vec_views(out@) + src_words(words, i as int).0 == out0 + src_words(words, 0).0,
                !stopped ==> src_words(words, i as int).1 == src_words(words, 0).1,
                stopped ==> src_words(words, 0).1 && i >= ws@.len(),
            decreases ws@.len() + 1 - i,
        {
            let is_src = str_eq_chars(&ws[i], "src");
            if is_src {
                if i + 1 < ws.len() {
                    let w = string_from(&ws[i + 1]);
                    let ghost before = opt_vec_views(out@);
                    out.push(Some(w));
                    assert(opt_vec_views(out@) =~= before.push(Some(words[i + 1])));
                    assert(seq![Some(words[i + 1])] + src_words(words, i + 2).0 == src_words(words, i as int).0);
                    assert(before.push(Some(words[i + 1])) + src_words(words, i + 2).0 =~= before + (seq![Some(words[i + 1])] + src_words(words, i + 2).0));
                    i = i + 2;
                } else {
                    let ghost before = opt_vec_views(out@);
                    out.push(None);
                    assert(opt_vec_views(out@) =~= before.push(None));
                    assert(src_words(words, i as int) == (seq![None::<Seq<char>>], true));
                    assert(src_words(words, (i + 1) as int) == (Seq::<Option<Seq<char>>>::empty(), false));
                    assert(opt_vec_views(out@) + src_words(words, (i + 1) as int).0 =~= before + src_words(words, i as int).0);
                    stopped = true;
                    i = i + 1;
                }
            } else {
                i = i + 1;
            }
        }
        proof {
            assert(src_words(words, i as int).0 =~= Seq::<Option<Seq<char>>>::empty());
            assert(all.skip(li as int)[0] == all[li as int]);
            assert(all.skip(li as int).drop_first() =~= all.skip(li + 1));
            assert(opt_vec_views(out@) =~= out0 + src_words(words, 0).0);
        }
        if stopped {
            proof {
                assert(route_candidates_of(all.skip(li as int)) == src_words(words, 0).0);
                assert(opt_vec_views(out@) =~= route_candidates_of(all));
            }
            return out;
        }
        li += 1;
    }
    assert(all.skip(li as int) =~= Seq::<Seq<char>>::empty());
    assert(opt_vec_views(out@) =~= route_candidates_of(all));
    out
}

fn str_eq_chars(a: &Vec<char>, lit: &str) -> (b: bool)
    ensures
        b == (a@ == lit@),
{
    crate::text::chars_eq_str(a, lit)
}

/// The address `ip route` reports for the device: the first candidate that
/// is an IP address (`valid` tells which are), unless a `src` at the end of a
/// line comes first.
pub open spec fn picked_route_ip(c: Seq<Option<Seq<char>>>, valid: Seq<bool>) -> Option<Seq<char>>
    decreases c.len(),
{
    if c.len() == 0 || valid.len() == 0 {
        None
    } else {
        match c[0] {
            None => None,
            Some(w) => if valid[0] {
                Some(w)
            } else {
                picked_route_ip(c.drop_first(), valid.drop_first())
            },
        }
    }
}

pub fn pick_route_ip(candidates: &Vec<Option<String>>, valid: &Vec<bool>) -> (r: Option<String>)
    requires
        candidates@.len() == valid@.len(),
    ensures
        opt_string_view(r) == picked_route_ip(opt_vec_views(candidates@), valid@),
{
    let ghost c = opt_vec_views(candidates@);
    let mut i: usize = 0;
    assert(c.skip(0) =~= c);
    assert(valid@.skip(0) =~= valid@);
    while i < candidates.len()
        invariant
            i <= candidates@.len(),
            candidates@.len() == valid@.len(),
            c == opt_vec_views(candidates@),
            picked_route_ip(c.skip(i as int), valid@.skip(i as int)) == picked_route_ip(c, valid@),
        decreases candidates@.len() - i,
    {
        assert(c.skip(i as int)[0] == c[i as int]);
        assert(valid@.skip(i as int)[0] == valid@[i as int]);
        assert(c.skip(i as int).drop_first() =~= c.skip(i + 1));
        assert(valid@.skip(i as int).drop_first() =~= valid@.skip(i + 1));
        match &candidates[i] {
            None => return None,
            Some(w) => {
                if valid[i] {
                    return Some(w.clone());
                }
            },
        }
        i += 1;
    }
    None
}

// ---------------------------------------------------------------------------
// Emulator network conditions
// ---------------------------------------------------------------------------

/// Where an emulator network command runs: the emulator console or an adb
/// shell.
#[derive(Debug, Clone, Copy, PartialEq, Eq, Structural)]
pub enum EmulatorCommandKind {
    Console,
    Shell,
}

/// One command of an emulator network change, with what it does (for its
/// error message).
#[derive(Debug, Clone)]
pub struct EmulatorCommand {
    pub kind: EmulatorCommandKind,
    pub args: Vec<&'static str>,
    pub context: &'static str,
}

pub open spec fn command_view(c: EmulatorCommand) -> (EmulatorCommandKind, Seq<Seq<char>>, Seq<char>) {
    (c.kind, Seq::new(c.args@.len(), |i: int| c.args@[i]@), c.context@)
}

pub open spec fn commands_view(v: Seq<EmulatorCommand>) -> Seq<(EmulatorCommandKind, Seq<Seq<char>>, Seq<char>)> {
    Seq::new(v.len(), |i: int| command_view(v[i]))
}

/// The commands that put an emulator's network into preset `p`: console
/// speed and delay, cellular data on or off, Wi-Fi on or off (both off only
/// when offline).
pub open spec fn emulator_commands(p: NetworkConditionPreset) -> Seq<
    (EmulatorCommandKind, Seq<Seq<char>>, Seq<char>),
> {
    let speed = match p {
        NetworkConditionPreset::Edge => "edge"@,
        NetworkConditionPreset::ThreeG => "umts"@,
        _ => "full"@,
    };
    let delay = match p {
        NetworkConditionPreset::Edge => "edge"@,
        NetworkConditionPreset::ThreeG => "umts"@,
        _ => "none"@,
    };
    let on = p != NetworkConditionPreset::Offline;
    seq![
        (EmulatorCommandKind::Console, seq!["network"@, "speed"@, speed], "setting emulator network speed"@),
        (EmulatorCommandKind::Console, seq!["network"@, "delay"@, delay], "setting emulator network delay"@),
        if on {
            (EmulatorCommandKind::Console, seq!["gsm"@, "data"@, "on"@], "enabling emulator cellular data"@)
        } else {
            (EmulatorCommandKind::Console, seq!["gsm"@, "data"@, "off"@], "disabling emulator cellular data"@)
        },
        if on {
            (EmulatorCommandKind::Shell, seq!["svc"@, "wifi"@, "enable"@], "enabling emulator Wi-Fi"@)
        } else {
            (EmulatorCommandKind::Shell, seq!["svc"@, "wifi"@, "disable"@], "disabling emulator Wi-Fi"@)
        },
    ]
}

/// The commands, run in order, that put emulator `serial`'s network into
/// `preset`; physical devices are refused.
pub fn emulator_network_commands(serial: &str, preset: NetworkConditionPreset) -> (r: Result<
    Vec<EmulatorCommand>,
    String,
>)
    ensures
        !starts_with(serial@, "emulator-"@) ==> (r matches Err(e) && e@
            == "Network throttling via adb is only supported on emulators, not physical device '"@
            + serial@ + "'"@),
        starts_with(serial@, "emulator-"@) ==> (r matches Ok(v) && commands_view(v@)
            == emulator_commands(preset)),
{
    if !is_emulator(serial) {
        let mut m = "Network throttling via adb is only supported on emulators, not physical device '".to_string();
        m.append(serial);
        m.append("'");
        return Err(m);
    }
    let profile = preset.android_profile();
    let mut v: Vec<EmulatorCommand> = Vec::new();
    v.push(
        EmulatorCommand {
            kind: EmulatorCommandKind::Console,
            args: vec!["network", "speed", profile.speed],
            context: "setting emulator network speed",
        },
    );
    v.push(
        EmulatorCommand {
            kind: EmulatorCommandKind::Console,
            args: vec!["network", "delay", profile.delay],
            context: "setting emulator network delay",
        },
    );
    if profile.data_enabled {
        v.push(
            EmulatorCommand {
                kind: EmulatorCommandKind::Console,
                args: vec!["gsm", "data", "on"],
                context: "enabling emulator cellular data",
            },
        );
    } else {
        v.push(
            EmulatorCommand {
                kind: EmulatorCommandKind::Console,
                args: vec!["gsm", "data", "off"],
                context: "disabling emulator cellular data",
            },
        );
    }
    if profile.wifi_enabled {
        v.push(
            EmulatorCommand {
                kind: EmulatorCommandKind::Shell,
                args: vec!["svc", "wifi", "enable"],
                context: "enabling emulator Wi-Fi",
            },
        );
    } else {
        v.push(
            EmulatorCommand {
                kind: EmulatorCommandKind::Shell,
                args: vec!["svc", "wifi", "disable"],
                context: "disabling emulator Wi-Fi",
            },
        );
    }
    proof {
        reveal_strlit("network");
        reveal_strlit("speed");
        reveal_strlit("delay");
        reveal_strlit("gsm");
        reveal_strlit("data");
        reveal_strlit("on");
        reveal_strlit("off");
        reveal_strlit("svc");
        reveal_strlit("wifi");
        reveal_strlit("enable");
        reveal_strlit("disable");
        assert(v@[0].args@.len() == 3);
        assert(v@[0].args@[2] == profile.speed);
        assert(command_view(v@[0]) == emulator_commands(preset)[0]);
        assert(command_view(v@[1]) == emulator_commands(preset)[1]);
        assert(command_view(v@[2]) == emulator_commands(preset)[2]);
        assert(command_view(v@[3]) == emulator_commands(preset)[3]);
        assert(commands_view(v@) =~= emulator_commands(preset));
    }
    Ok(v)
}

/// What applying a preset to an emulator reports.
pub fn applied_network_message(preset: NetworkConditionPreset, serial: &str) -> (s: String)
    ensures
        s@ == "Applied "@ + preset_label(preset) + " network condition on "@ + serial@,
{
    let mut s = "Applied ".to_string();
    s.append(preset.label());
    s.append(" network condition on ");
    s.append(serial);
    s
}

/// What clearing an emulator's throttling reports.
pub fn cleared_network_message(serial: &str) -> (s: String)
    ensures
        s@ == "Cleared network throttling on "@ + serial@,
{
    let mut s = "Cleared network throttling on ".to_string();
    s.append(serial);
    s
}

/// Where an Android network condition is applied.
#[derive(Debug, Clone)]
pub enum AndroidNetworkRoute {
    /// Through the emulator console, with this preset.
    Emulator(NetworkConditionPreset),
    /// Through the helper app on a physical device.
    Helper(NetworkConditionSpec),
}

/// Where a network condition for device `serial` goes: an invalid custom
/// profile is refused; emulators take presets only; physical devices go
/// through the helper app.
pub fn android_network_route(serial: &str, spec: NetworkConditionSpec) -> (r: Result<
    AndroidNetworkRoute,
    String,
>)
    ensures
        match spec {
            NetworkConditionSpec::Custom { params } if custom_params_error(params) is Some => (r matches Err(
                e,
            ) && e@ == custom_params_error(params)->0),
            _ => if starts_with(serial@, "emulator-"@) {
                match spec {
                    NetworkConditionSpec::Preset { preset } => r matches Ok(
                        AndroidNetworkRoute::Emulator(p),
                    ) && p == preset,
                    NetworkConditionSpec::Custom { .. } => r matches Err(e) && e@
                        == "Custom network shaping parameters are not supported on Android emulators. Pick a preset (unthrottled / edge / 3g / offline) or use a physical device with the CatPane helper app installed."@,
                }
            } else {
                r matches Ok(AndroidNetworkRoute::Helper(s)) && s == spec
            },
        },
{
    if let Err(e) = spec.validate() {
        return Err(e);
    }
    if is_emulator(serial) {
        match spec {
            NetworkConditionSpec::Preset { preset } => Ok(AndroidNetworkRoute::Emulator(preset)),
            NetworkConditionSpec::Custom { .. } => Err(
                "Custom network shaping parameters are not supported on Android emulators. Pick a preset (unthrottled / edge / 3g / offline) or use a physical device with the CatPane helper app installed.".to_string(),
            ),
        }
    } else {
        Ok(AndroidNetworkRoute::Helper(spec))
    }
}

// ---------------------------------------------------------------------------
// Package lookups
// ---------------------------------------------------------------------------

/// How the `pm list packages` fallback failed.
#[derive(Debug, Clone, PartialEq, Eq)]
pub enum PmFailure {
    /// The command could not be run to its end.
    Run(String),
    /// It ran and exited unsuccessfully.
    Status(String),
}

/// The package list once the running-process lookup gave nothing (with
/// its error, if it failed) and `pm list packages` ran: `pm`'s packages,
/// or its error with the earlier one appended; an empty list with an
/// earlier error is an error naming the device.
pub fn packages_after_fallback(device: &str, ps_error: Option<String>, pm: Result<Vec<String>, PmFailure>) -> (r:
    Result<Vec<String>, String>)
    ensures
        match pm {
            Ok(pkgs) => match ps_error {
                Some(pe) => if pkgs@.len() == 0 {
                    r matches Err(e) && e@ == "No Android packages were found for `"@ + device@
                        + "`; running-process lookup failed after: "@ + pe@
                } else {
                    r == Ok::<Vec<String>, String>(pkgs)
                },
                None => r == Ok::<Vec<String>, String>(pkgs),
            },
            Err(PmFailure::Status(err)) => match ps_error {
                Some(pe) => r matches Err(e) && e@ == err@ + "; running-process lookup failed earlier with: "@
                    + pe@,
                None => r == Err::<Vec<String>, String>(err),
            },
            Err(PmFailure::Run(err)) => match ps_error {
                Some(pe) => r matches Err(e) && e@ == err@ + "; fallback from running-process lookup failed after: "@
                    + pe@,
                None => r == Err::<Vec<String>, String>(err),
            },
        },
{
    match pm {
        Ok(pkgs) => {
            if pkgs.len() == 0 {
                if let Some(pe) = ps_error {
                    let mut m = "No Android packages were found for `".to_string();
                    m.append(device);
                    m.append("`; running-process lookup failed after: ");
                    m.append(pe.as_str());
                    return Err(m);
                }
            }
            Ok(pkgs)
        },
        Err(PmFailure::Status(err)) => match ps_error {
            Some(pe) => {
                let mut m = err;
                m.append("; running-process lookup failed earlier with: ");
                m.append(pe.as_str());
                Err(m)
            },
            None => Err(err),
        },
        Err(PmFailure::Run(err)) => match ps_error {
            Some(pe) => {
                let mut m = err;
                m.append("; fallback from running-process lookup failed after: ");
                m.append(pe.as_str());
                Err(m)
            },
            None => Err(err),
        },
    }
}

/// The PID lookup once `pidof` ran: its first PID when it succeeded, no
/// PID when it failed without output, else its exit-status error.
pub fn pid_lookup_outcome(exited_ok: bool, stdout: &[u8], stderr: &[u8], status_error: String) -> (r: Result<
    Option<u32>,
    String,
>)
    ensures
        exited_ok ==> match first_pid(utf8_lossy(stdout@)) {
            Some(v) => r == Ok::<Option<u32>, String>(Some(v as u32)),
            None => r == Ok::<Option<u32>, String>(None),
        },
        !exited_ok && combined_output(stdout@, stderr@).len() == 0 ==> r == Ok::<Option<u32>, String>(None),
        !exited_ok && combined_output(stdout@, stderr@).len() > 0 ==> r == Err::<Option<u32>, String>(
            status_error,
        ),
{
    if exited_ok {
        return Ok(parse_pidof_output(stdout));
    }
    let combined = combine_command_output(stdout, stderr);
    if combined.as_str().is_empty() {
        Ok(None)
    } else {
        Err(status_error)
    }
}

} // verus!

verus! {

/// The modules of the QR code that `qrcode::QrCode::new` builds for the
/// UTF-8 bytes of `data`, row by row (`true` for dark), with its width in
/// modules; `None` where it refuses the data.
pub uninterp spec fn qr_code(data: Seq<char>) -> Option<(Seq<bool>, usize)>;

/// Calls `qrcode::QrCode::new` on the bytes of `data`, then `to_colors` and
/// `width`. Claims: the outcome is a function of `data` (named by
/// `qr_code`); on success there is one entry per module, `width * width`
/// in all (the crate's canvas is square), and the width is that of a QR
/// version from 1 to 40, 21 to 177 modules (`QrCode::new` picks only those).
/// Which data fits and which modules are dark is not stated.
#[verifier::external_body]
fn qr_modules(data: &str) -> (r: Option<(Vec<bool>, usize)>)
    ensures
        match r {
            Some((m, w)) => qr_code(data@) == Some((m@, w)) && m@.len() == w * w && 21 <= w <= 177,
            None => qr_code(data@) is None,
        },
{
    match qrcode::QrCode::new(data.as_bytes()) {
        Ok(code) => {
            let dark: Vec<bool> = code.to_colors().iter().map(|c| match c {
                qrcode::Color::Dark => true,
                qrcode::Color::Light => false,
            }).collect();
            Some((dark, code.width()))
        },
        Err(_) => None,
    }
}

/// A QR code drawn as a square of `size` by `size` pixels, row by row
/// (`true` for dark).
#[derive(Debug, Clone, PartialEq, Eq)]
pub struct QrImage {
    pub size: usize,
    pub pixels: Vec<bool>,
}

/// The side of the image of a code `width` modules wide at `scale` pixels
/// per module, with a one-module quiet zone on each side.
pub open spec fn qr_image_side(width: nat, scale: nat) -> nat {
    width * scale + 2 * scale
}

/// Pixel (`px`, `py`) of that image is dark: it lies inside the code, not
/// in the quiet zone, and the module it covers is dark.
pub open spec fn qr_pixel(modules: Seq<bool>, width: nat, scale: nat, px: nat, py: nat) -> bool {
    let x = px / scale;
    let y = py / scale;
    &&& scale > 0
    &&& 1 <= x <= width
    &&& 1 <= y <= width
    &&& modules[(y - 1) * width + (x - 1)]
}

/// All pixels of that image, row by row.
pub open spec fn qr_pixels(modules: Seq<bool>, width: nat, scale: nat) -> Seq<bool> {
    let side = qr_image_side(width, scale);
    Seq::new(side * side, |i: int| qr_pixel(modules, width, scale, (i % side as int) as nat, (i / side as int) as nat))
}

proof fn lemma_module_index(x: int, y: int, w: int)
    by (nonlinear_arith)
    requires
        0 <= x < w,
        0 <= y < w,
    ensures
        0 <= y * w + x < w * w,
        y * w <= w * w,
{
}

proof fn lemma_side(width: int, scale: int, side: int)
    by (nonlinear_arith)
    requires
        width >= 0,
        scale >= 0,
        side == (width + 2) * scale,
    ensures
        side == width * scale + 2 * scale,
        side > 0 ==> scale > 0,
{
}

proof fn lemma_square_doubles(w: int)
    by (nonlinear_arith)
    requires
        w >= 2,
    ensures
        w * w >= 2 * w,
{
}

proof fn lemma_square_grows(s: int)
    by (nonlinear_arith)
    requires
        s >= 1,
    ensures
        s * s >= s,
{
}

/// Draws the modules of a code `width` modules wide at `scale` pixels per
/// module, with a light one-module quiet zone; `None` where the image would
/// hold more pixels than a `usize` counts.
pub fn qr_image(modules: &Vec<bool>, width: usize, scale: usize) -> (r: Option<QrImage>)
    requires
        modules@.len() == width * width,
    ensures
        r is Some <==> qr_image_side(width as nat, scale as nat) * qr_image_side(width as nat, scale as nat)
            <= usize::MAX,
        r matches Some(img) ==> img.size == qr_image_side(width as nat, scale as nat) && img.pixels@
            == qr_pixels(modules@, width as nat, scale as nat),
{
    let ghost gside = qr_image_side(width as nat, scale as nat);
    let count = modules.len();
    let wide: usize = match width.checked_add(2) {
        Some(v) => v,
        None => {
            proof { lemma_square_doubles(width as int); }
            assert(false);
            return None;
        },
    };
    let side: usize = match wide.checked_mul(scale) {
        Some(v) => v,
        None => {
            proof {
                lemma_side(width as int, scale as int, (width + 2) * scale);
                lemma_square_grows(gside as int);
            }
            return None;
        },
    };
    proof { lemma_side(width as int, scale as int, side as int); }
    let total: usize = match side.checked_mul(side) {
        Some(v) => v,
        None => return None,
    };
    let mut pixels: Vec<bool> = Vec::new();
    let mut i: usize = 0;
    while i < total
        invariant
            side as nat == gside,
            total as nat == gside * gside,
            side > 0 ==> scale > 0,
            modules@.len() == width * width,
            count == modules@.len(),
            i <= total,
            pixels@.len() == i,
            forall|j: int|
                0 <= j < i ==> pixels@[j] == qr_pixel(
                    modules@,
                    width as nat,
                    scale as nat,
                    (j % side as int) as nat,
                    (j / side as int) as nat,
                ),
        decreases total - i,
    {
        if side == 0 {
            assert(total == 0);
        }
        let px = i % side;
        let py = i / side;
        let x = px / scale;
        let y = py / scale;
        let dark = if 1 <= x && x <= width && 1 <= y && y <= width {
            proof { lemma_module_index((x - 1) as int, (y - 1) as int, width as int); }
            assert(count == width * width);
            modules[(y - 1) * width + (x - 1)]
        } else {
            false
        };
        pixels.push(dark);
        i += 1;
    }
    assert(pixels@ =~= qr_pixels(modules@, width as nat, scale as nat));
    Some(QrImage { size: side, pixels })
}

/// The pairing QR code for `data` drawn at `scale` pixels per module;
/// `None` where the `qrcode` crate refuses the data or the image would not
/// fit in memory's counting range.
pub fn generate_qr_image(data: &str, scale: usize) -> (r: Option<QrImage>)
    ensures
        qr_code(data@) is None ==> r is None,
        qr_code(data@) matches Some((m, w)) ==> {
            &&& (r is Some <==> qr_image_side(w as nat, scale as nat) * qr_image_side(w as nat, scale as nat)
                <= usize::MAX)
            &&& (r matches Some(img) ==> img.size == qr_image_side(w as nat, scale as nat) && img.pixels@
                == qr_pixels(m, w as nat, scale as nat))
        },
{
    match qr_modules(data) {
        None => None,
        Some((modules, width)) => qr_image(&modules, width, scale),
    }
}

} // verus!
