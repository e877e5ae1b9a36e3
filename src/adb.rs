//! Bookkeeping for pushing a collection to an Android device over adb: the
//! device list, the states adb reports, and the decisions taken on them.
//! Running adb is left to the caller, which hands in what adb printed.
use vstd::prelude::*;

use crate::bytes::{
    append_bytes, byte_views, bytes_eq, contains_bytes, find_bytes, first_occurrence, has_prefix,
    lemma_first_occurrence, slice_bytes, starts_with, tail_from,
};
use crate::classify::{decimal_spec, parse_decimal, trim_end};
use crate::codec::{split_bytes, split_on, split_text_lines, text_lines};
use crate::tool::trim_start;
use crate::text::{
    adb_version_banner, adb_version_banner_bytes, device_list_header, device_list_header_bytes, model_key,
    model_key_bytes, no_such_dir, no_such_dir_bytes, state_bootloader, state_bootloader_bytes, state_device,
    state_device_bytes, state_offline, state_offline_bytes, state_unauthorized, state_unauthorized_bytes,
    transport_key, transport_key_bytes,
};

verus! {

/// The transport id given to a device that is not in the list.
pub const DECOY_TRANSPORT: u32 = 99;

/// How often an offline device is polled after a reconnect before giving up.
pub const RECONNECT_POLLS: u32 = 3;

/// The state of a device as adb reports it.
#[derive(Clone, Copy, Debug, Eq, Hash, Ord, PartialEq, PartialOrd)]
pub enum DeviceStatus {
    Online,
    Offline,
    Bootloader,
    Unauthorized,
    Disconnected,
}

impl DeviceStatus {
    /// A phrase for the state, to complete "the device is ...".
    pub fn as_str(&self) -> (r: &'static str)
        ensures
            r@ == match *self {
                DeviceStatus::Online => "ready for command"@,
                DeviceStatus::Offline => "offline"@,
                DeviceStatus::Bootloader => "in bootloader"@,
                DeviceStatus::Unauthorized => "unauthorized"@,
                DeviceStatus::Disconnected => "no longer connected"@,
            },
    {
        match *self {
            DeviceStatus::Online => "ready for command",
            DeviceStatus::Offline => "offline",
            DeviceStatus::Bootloader => "in bootloader",
            DeviceStatus::Unauthorized => "unauthorized",
            DeviceStatus::Disconnected => "no longer connected",
        }
    }
}

/// What an [`AndroidDevice`] is, as values.
pub struct DeviceView {
    pub identifier: Seq<u8>,
    pub model: Seq<u8>,
    pub transport_id: u32,
}

/// A device in adb's list. Two entries are the same device when identifier
/// and model agree: the transport id changes with every connection.
#[derive(Debug, Clone)]
pub struct AndroidDevice {
    pub identifier: Vec<u8>,
    pub model: Vec<u8>,
    pub transport_id: u32,
}

impl View for AndroidDevice {
    type V = DeviceView;

    open spec fn view(&self) -> DeviceView {
        DeviceView { identifier: self.identifier@, model: self.model@, transport_id: self.transport_id }
    }
}

/// Whether two list entries are the same device.
pub open spec fn same_device(a: DeviceView, b: DeviceView) -> bool {
    a.identifier == b.identifier && a.model == b.model
}

/// The values of a list of devices.
pub open spec fn device_views(ds: Seq<AndroidDevice>) -> Seq<DeviceView> {
    ds.map_values(|d: AndroidDevice| d@)
}

impl AndroidDevice {
    pub fn new(identifier: Vec<u8>, model: Vec<u8>, transport_id: u32) -> (r: AndroidDevice)
        ensures
            r@ == (DeviceView { identifier: identifier@, model: model@, transport_id }),
    {
        AndroidDevice { identifier, model, transport_id }
    }

    /// Whether this stands for no real device (it carries the decoy
    /// transport id).
    pub fn is_decoy(&self) -> (r: bool)
        ensures
            r == (self.transport_id == DECOY_TRANSPORT),
    {
        self.transport_id == DECOY_TRANSPORT
    }

    /// Whether `other` is the same device.
    pub fn same_as(&self, other: &AndroidDevice) -> (r: bool)
        ensures
            r == same_device(self@, other@),
    {
        bytes_eq(&self.identifier, &other.identifier) && bytes_eq(&self.model, &other.model)
    }

    /// A copy of the device.
    pub fn duplicate(&self) -> (r: AndroidDevice)
        ensures
            r@ == self@,
    {
        AndroidDevice { identifier: self.identifier.clone(), model: self.model.clone(), transport_id: self.transport_id }
    }
}

impl PartialEq for AndroidDevice {
    fn eq(&self, other: &AndroidDevice) -> (r: bool) {
        self.same_as(other)
    }
}

impl vstd::std_specs::cmp::PartialEqSpecImpl for AndroidDevice {
    open spec fn obeys_eq_spec() -> bool {
        true
    }

    open spec fn eq_spec(&self, other: &AndroidDevice) -> bool {
        same_device(self@, other@)
    }
}

/// The line of adb's device list for one device, or none for a line that
/// is to be passed over (the header or an empty line); `None` for a line of
/// neither kind.
#[verifier::opaque]
pub open spec fn device_line_spec(line: Seq<u8>) -> Option<Option<DeviceView>> {
    let space = seq![32u8];
    if line.len() == 0 || starts_with(line, device_list_header()) {
        Some(None)
    } else if !contains_bytes(line, space) || !contains_bytes(line, model_key()) || !contains_bytes(line, transport_key()) {
        None
    } else {
        let after_model = line.skip(first_occurrence(line, model_key()) + model_key().len());
        let tid = decimal_spec(line.skip(first_occurrence(line, transport_key()) + transport_key().len()), u32::MAX as int);
        if !contains_bytes(after_model, space) || tid is None {
            None
        } else {
            Some(Some(DeviceView {
                identifier: line.take(first_occurrence(line, space)),
                model: after_model.take(first_occurrence(after_model, space)),
                transport_id: tid.unwrap() as u32,
            }))
        }
    }
}

/// The devices of adb's device list, or none if a line is neither a device
/// nor one to pass over.
pub open spec fn device_list_spec(lines: Seq<Seq<u8>>) -> Option<Seq<DeviceView>>
    decreases lines.len(),
{
    if lines.len() == 0 {
        Some(Seq::empty())
    } else {
        match (device_list_spec(lines.drop_last()), device_line_spec(lines.last())) {
            (Some(ds), Some(Some(d))) => Some(ds.push(d)),
            (Some(ds), Some(None)) => Some(ds),
            _ => None,
        }
    }
}

/// Reads one line of adb's device list.
pub fn parse_device_line(line: &Vec<u8>) -> (r: Option<Option<AndroidDevice>>)
    ensures
        match r {
            Some(Some(d)) => device_line_spec(line@) == Some(Some(d@)),
            Some(None) => device_line_spec(line@) == Some(None::<DeviceView>),
            None => device_line_spec(line@) is None,
        },
{
    reveal(device_line_spec);
    if line.len() == 0 || has_prefix(line, &device_list_header_bytes()) {
        return Some(None);
    }
    let space = vec![32u8];
    assert(space@ =~= seq![32u8]);
    let mk = model_key_bytes();
    let tk = transport_key_bytes();
    let sp = match find_bytes(line, &space) {
        Some(i) => i,
        None => return None,
    };
    let m = match find_bytes(line, &mk) {
        Some(i) => i,
        None => return None,
    };
    let t = match find_bytes(line, &tk) {
        Some(i) => i,
        None => return None,
    };
    proof {
        lemma_first_occurrence(line@, seq![32u8], sp as int);
        lemma_first_occurrence(line@, model_key(), m as int);
        lemma_first_occurrence(line@, transport_key(), t as int);
    }
    let n = line.len();
    assert(m + mk@.len() <= n && t + tk@.len() <= n);
    let after = tail_from(line, m + mk.len());
    let tid = parse_decimal(line, t + tk.len(), n, u32::MAX);
    assert(line@.subrange(t + tk@.len(), n as int) =~= line@.skip(t + tk@.len()));
    let e = match find_bytes(&after, &space) {
        Some(i) => i,
        None => return None,
    };
    proof {
        lemma_first_occurrence(after@, seq![32u8], e as int);
    }
    match tid {
        None => None,
        Some(v) => {
            let identifier = slice_bytes(line, 0, sp);
            let model = slice_bytes(&after, 0, e);
            assert(identifier@ =~= line@.take(sp as int));
            assert(model@ =~= after@.take(e as int));
            Some(Some(AndroidDevice::new(identifier, model, v as u32)))
        },
    }
}

/// Reads adb's device list.
pub fn parse_device_list(output: &Vec<u8>) -> (r: Option<Vec<AndroidDevice>>)
    ensures
        match r {
            Some(ds) => device_list_spec(text_lines(output@)) == Some(device_views(ds@)),
            None => device_list_spec(text_lines(output@)) is None,
        },
{
    let lines = split_text_lines(output);
    let ghost ls = text_lines(output@);
    let mut ds: Vec<AndroidDevice> = Vec::new();
    let mut i: usize = 0;
    assert(ls.take(0) =~= Seq::<Seq<u8>>::empty());
    assert(device_views(ds@) =~= Seq::<DeviceView>::empty());
    while i < lines.len()
        invariant
            0 <= i <= lines@.len(),
            ls == byte_views(lines@),
            ls == text_lines(output@),
            device_list_spec(ls.take(i as int)) == Some(device_views(ds@)),
        decreases lines@.len() - i,
    {
        let ghost before = device_views(ds@);
        assert(ls.take(i + 1).drop_last() =~= ls.take(i as int));
        assert(ls.take(i + 1).last() == lines@[i as int]@);
        match parse_device_line(&lines[i]) {
            None => {
                assert(device_list_spec(ls.take(i + 1)) is None);
                proof {
                    lemma_device_list_none_extends(ls, i + 1);
                }
                return None;
            },
            Some(None) => {},
            Some(Some(d)) => {
                ds.push(d);
                assert(device_views(ds@) =~= before.push(d@));
            },
        }
        i += 1;
    }
    assert(ls.take(i as int) =~= ls);
    Some(ds)
}

proof fn lemma_device_list_none_extends(ls: Seq<Seq<u8>>, n: int)
    requires
        0 <= n <= ls.len(),
        device_list_spec(ls.take(n)) is None,
    ensures
        device_list_spec(ls) is None,
    decreases ls.len() - n,
{
    if n == ls.len() {
        assert(ls.take(n) =~= ls);
    } else {
        assert(ls.drop_last().take(n) =~= ls.take(n));
        lemma_device_list_none_extends(ls.drop_last(), n);
    }
}

/// The index of the first entry of `ds` that is the device `d`, or -1.
pub open spec fn device_index(ds: Seq<DeviceView>, d: DeviceView) -> int
    decreases ds.len(),
{
    if ds.len() == 0 {
        -1
    } else {
        let p = device_index(ds.drop_last(), d);
        if p >= 0 {
            p
        } else if same_device(ds.last(), d) {
            ds.len() - 1
        } else {
            -1
        }
    }
}

/// The transport id under which `d` is listed in `ds`, or the decoy id.
pub open spec fn transport_spec(ds: Seq<DeviceView>, d: DeviceView) -> u32 {
    let k = device_index(ds, d);
    if k >= 0 {
        ds[k].transport_id
    } else {
        DECOY_TRANSPORT
    }
}

proof fn lemma_device_index_bounds(ds: Seq<DeviceView>, d: DeviceView)
    ensures
        -1 <= device_index(ds, d) < ds.len(),
        device_index(ds, d) >= 0 ==> same_device(ds[device_index(ds, d)], d),
        device_index(ds, d) < 0 ==> forall|i: int| 0 <= i < ds.len() ==> !same_device(#[trigger] ds[i], d),
    decreases ds.len(),
{
    if ds.len() > 0 {
        lemma_device_index_bounds(ds.drop_last(), d);
        assert forall|i: int| 0 <= i < ds.len() - 1 implies ds.drop_last()[i] == ds[i] by {}
    }
}

/// How the state of a device is to be found out.
#[derive(Debug, Clone, Copy, PartialEq, Eq)]
pub enum StatusQuery {
    /// The device stands for no real device.
    NoSuchDevice,
    /// The device is not in the list any more.
    Disconnected,
    /// Ask adb for the state of the device with this transport id.
    Ask(u32),
}

/// Why a push is refused for a device in a given state.
#[derive(Debug, Clone, Copy, PartialEq, Eq)]
pub enum PushRefusal {
    NotConnected,
    Offline,
    Bootloader,
    Unauthorized,
}

/// What to do after polling a device that was told to reconnect.
#[derive(Debug, Clone, Copy, PartialEq, Eq)]
pub enum ReconnectStep {
    /// The device is online.
    Online,
    /// Wait a moment and poll again.
    Wait,
    /// Give up: the device came back in this state.
    GiveUp(DeviceStatus),
}

/// The adb tool, its version, and the devices it listed last.
#[derive(Debug)]
pub struct DeviceManager {
    pub adb_command: Vec<u8>,
    pub adb_version: Vec<u32>,
    pub devices: Vec<AndroidDevice>,
}

/// The end of the first line of `s`: the index of its first carriage return
/// or newline, or its length.
pub open spec fn first_break(s: Seq<u8>) -> int
    decreases s.len(),
{
    if s.len() == 0 {
        0
    } else {
        let p = first_break(s.drop_last());
        if p < s.len() - 1 {
            p
        } else if s.last() == 13u8 || s.last() == 10u8 {
            s.len() - 1
        } else {
            s.len() as int
        }
    }
}

/// The numbers of a dotted version, or none if a part is not a number.
pub open spec fn version_numbers(parts: Seq<Seq<u8>>) -> Option<Seq<u32>>
    decreases parts.len(),
{
    if parts.len() == 0 {
        Some(Seq::empty())
    } else {
        match (version_numbers(parts.drop_last()), decimal_spec(parts.last(), u32::MAX as int)) {
            (Some(ns), Some(v)) => Some(ns.push(v as u32)),
            _ => None,
        }
    }
}

/// The version that adb's `--version` output gives: the dotted numbers
/// after the banner, up to the end of that line.
pub open spec fn adb_version_spec(output: Seq<u8>) -> Option<Seq<u32>> {
    if !contains_bytes(output, adb_version_banner()) {
        None
    } else {
        let rest = output.skip(first_occurrence(output, adb_version_banner()) + adb_version_banner().len());
        version_numbers(split_on(rest.take(first_break(rest)), 46u8))
    }
}

/// The digits of `n`.
pub open spec fn decimal_text(n: nat) -> Seq<u8>
    decreases n,
{
    if n < 10 {
        seq![(48 + n) as u8]
    } else {
        decimal_text(n / 10) + seq![(48 + n % 10) as u8]
    }
}

/// The numbers written with dots between them.
pub open spec fn dotted(ns: Seq<u32>) -> Seq<u8>
    decreases ns.len(),
{
    if ns.len() == 0 {
        Seq::empty()
    } else if ns.len() == 1 {
        decimal_text(ns[0] as nat)
    } else {
        dotted(ns.drop_last()) + seq![46u8] + decimal_text(ns.last() as nat)
    }
}

/// Writes `n` in decimal digits.
pub fn decimal_bytes(n: u32) -> (r: Vec<u8>)
    ensures
        r@ == decimal_text(n as nat),
    decreases n,
{
    if n < 10 {
        let r = vec![48u8 + n as u8];
        assert(r@ =~= decimal_text(n as nat));
        r
    } else {
        let mut r = decimal_bytes(n / 10);
        r.push(48u8 + (n % 10) as u8);
        assert(r@ =~= decimal_text(n as nat));
        r
    }
}

/// The state that adb's `get-state` answer names.
pub open spec fn state_spec(answer: Seq<u8>) -> Option<DeviceStatus> {
    let t = trim_start(trim_end(answer));
    if t == state_device() {
        Some(DeviceStatus::Online)
    } else if t == state_offline() {
        Some(DeviceStatus::Offline)
    } else if t == state_bootloader() {
        Some(DeviceStatus::Bootloader)
    } else if t == state_unauthorized() {
        Some(DeviceStatus::Unauthorized)
    } else {
        None
    }
}

/// `s` without blanks at either end.
pub fn trimmed(s: &Vec<u8>) -> (r: Vec<u8>)
    ensures
        r@ == trim_start(trim_end(s@)),
{
    let mut j: usize = s.len();
    assert(s@.take(s@.len() as int) =~= s@);
    while j > 0 && (s[j - 1] == 32 || (9 <= s[j - 1] && s[j - 1] <= 13))
        invariant
            0 <= j <= s@.len(),
            trim_end(s@) == trim_end(s@.take(j as int)),
        decreases j,
    {
        assert(s@.take(j as int).drop_last() =~= s@.take(j - 1));
        j -= 1;
    }
    let mut i: usize = 0;
    assert(s@.subrange(0, j as int) =~= s@.take(j as int));
    while i < j && (s[i] == 32 || (9 <= s[i] && s[i] <= 13))
        invariant
            0 <= i <= j <= s@.len(),
            trim_start(s@.take(j as int)) == trim_start(s@.subrange(i as int, j as int)),
        decreases j - i,
    {
        assert(s@.subrange(i as int, j as int).drop_first() =~= s@.subrange(i + 1, j as int));
        i += 1;
    }
    slice_bytes(s, i, j)
}

/// Reads adb's answer to `get-state`.
pub fn status_from_state(answer: &Vec<u8>) -> (r: Option<DeviceStatus>)
    ensures
        r == state_spec(answer@),
{
    let t = trimmed(answer);
    if bytes_eq(&t, &state_device_bytes()) {
        Some(DeviceStatus::Online)
    } else if bytes_eq(&t, &state_offline_bytes()) {
        Some(DeviceStatus::Offline)
    } else if bytes_eq(&t, &state_bootloader_bytes()) {
        Some(DeviceStatus::Bootloader)
    } else if bytes_eq(&t, &state_unauthorized_bytes()) {
        Some(DeviceStatus::Unauthorized)
    } else {
        None
    }
}

/// Why a push to a device in state `s` is refused, if it is.
pub open spec fn refusal_spec(s: DeviceStatus) -> Option<PushRefusal> {
    match s {
        DeviceStatus::Online => None,
        DeviceStatus::Offline => Some(PushRefusal::Offline),
        DeviceStatus::Bootloader => Some(PushRefusal::Bootloader),
        DeviceStatus::Unauthorized => Some(PushRefusal::Unauthorized),
        DeviceStatus::Disconnected => Some(PushRefusal::NotConnected),
    }
}

/// Why a push to a device in state `s` is refused; only an online device
/// takes one.
pub fn push_refusal(s: DeviceStatus) -> (r: Option<PushRefusal>)
    ensures
        r == refusal_spec(s),
{
    match s {
        DeviceStatus::Online => None,
        DeviceStatus::Offline => Some(PushRefusal::Offline),
        DeviceStatus::Bootloader => Some(PushRefusal::Bootloader),
        DeviceStatus::Unauthorized => Some(PushRefusal::Unauthorized),
        DeviceStatus::Disconnected => Some(PushRefusal::NotConnected),
    }
}

/// Whether the destination directory is missing: no name was given, or the
/// device's shell answered `cd` with "No such file or directory".
pub open spec fn destination_missing_spec(answer: Seq<u8>, dest: Seq<u8>) -> bool {
    let t = trim_start(trim_end(answer));
    dest.len() == 0 || (no_such_dir().len() <= t.len() && t.skip(t.len() - no_such_dir().len()) == no_such_dir())
}

/// Whether the destination directory is missing.
pub fn destination_missing(answer: &Vec<u8>, dest: &Vec<u8>) -> (r: bool)
    ensures
        r == destination_missing_spec(answer@, dest@),
{
    if dest.len() == 0 {
        return true;
    }
    let t = trimmed(answer);
    let nd = no_such_dir_bytes();
    if nd.len() > t.len() {
        return false;
    }
    let tail = tail_from(&t, t.len() - nd.len());
    bytes_eq(&tail, &nd)
}

/// The index of the last carriage return that a newline follows, or -1.
pub open spec fn last_crlf(t: Seq<u8>) -> int
    decreases t.len(),
{
    if t.len() < 2 {
        -1
    } else if t.last() == 10u8 && t[t.len() - 2] == 13u8 {
        t.len() - 2
    } else {
        last_crlf(t.drop_last())
    }
}

/// The last line of adb's answer to a push, blanks at either end taken off.
pub open spec fn last_line_spec(output: Seq<u8>) -> Seq<u8> {
    let t = trim_start(trim_end(output));
    let k = last_crlf(t);
    if k < 0 {
        t
    } else {
        t.skip(k + 2)
    }
}

/// The last line of adb's answer to a push.
pub fn last_output_line(output: &Vec<u8>) -> (r: Vec<u8>)
    ensures
        r@ == last_line_spec(output@),
{
    let t = trimmed(output);
    let mut k: usize = t.len();
    assert(t@.take(k as int) =~= t@);
    while k >= 2 && !(t[k - 1] == 10 && t[k - 2] == 13)
        invariant
            0 <= k <= t@.len(),
            last_crlf(t@) == last_crlf(t@.take(k as int)),
        decreases k,
    {
        assert(t@.take(k as int).drop_last() =~= t@.take(k - 1));
        k -= 1;
    }
    if k < 2 {
        return t;
    }
    tail_from(&t, k)
}

/// What to do after a poll found a reconnecting device in state `s`, with
/// `polls` polls already made.
pub open spec fn reconnect_spec(s: DeviceStatus, polls: u32) -> ReconnectStep {
    match s {
        DeviceStatus::Online => ReconnectStep::Online,
        DeviceStatus::Offline => if polls >= RECONNECT_POLLS {
            ReconnectStep::GiveUp(DeviceStatus::Offline)
        } else {
            ReconnectStep::Wait
        },
        other => ReconnectStep::GiveUp(other),
    }
}

/// Decides after each poll of a device that was told to reconnect.
pub fn reconnect_step(s: DeviceStatus, polls: u32) -> (r: ReconnectStep)
    ensures
        r == reconnect_spec(s, polls),
{
    match s {
        DeviceStatus::Online => ReconnectStep::Online,
        DeviceStatus::Offline => if polls >= RECONNECT_POLLS {
            ReconnectStep::GiveUp(DeviceStatus::Offline)
        } else {
            ReconnectStep::Wait
        },
        other => ReconnectStep::GiveUp(other),
    }
}

/// The numbers of the dotted parts `parts`, if each is one.
fn version_parts(parts: &Vec<Vec<u8>>) -> (r: Option<Vec<u32>>)
    ensures
        match r {
            Some(v) => version_numbers(byte_views(parts@)) == Some(v@),
            None => version_numbers(byte_views(parts@)) is None,
        },
{
    let ghost ps = byte_views(parts@);
    let mut nums: Vec<u32> = Vec::new();
    let mut i: usize = 0;
    assert(ps.take(0) =~= Seq::<Seq<u8>>::empty());
    assert(nums@ =~= Seq::<u32>::empty());
    while i < parts.len()
        invariant
            0 <= i <= parts@.len(),
            ps == byte_views(parts@),
            version_numbers(ps.take(i as int)) == Some(nums@),
        decreases parts@.len() - i,
    {
        let p = &parts[i];
        assert(p@.subrange(0, p@.len() as int) =~= p@);
        let ghost before = nums@;
        match parse_decimal(p, 0, p.len(), u32::MAX) {
            Some(v) => {
                proof {
                    lemma_versions_step(ps, i as int, before, v as int);
                }
                nums.push(v as u32);
            },
            None => {
                proof {
                    lemma_versions_step(ps, i as int, before, -1);
                    lemma_versions_none_extends(ps, i + 1);
                }
                return None;
            },
        }
        i += 1;
    }
    assert(ps.take(i as int) =~= ps);
    Some(nums)
}

impl DeviceManager {
    /// The manager for the adb at `command`, from what `adb --version`
    /// printed; none if the output names no version.
    pub fn new(command: &Vec<u8>, output: &Vec<u8>) -> (r: Option<DeviceManager>)
        ensures
            match r {
                Some(m) => adb_version_spec(output@) == Some(m.adb_version@) && m.adb_command@ == command@
                    && m.devices@.len() == 0,
                None => adb_version_spec(output@) is None,
            },
    {
        let banner = adb_version_banner_bytes();
        let at = match find_bytes(output, &banner) {
            Some(i) => i,
            None => return None,
        };
        proof {
            lemma_first_occurrence(output@, adb_version_banner(), at as int);
        }
        let n = output.len();
        assert(at + banner@.len() <= n);
        let rest = tail_from(output, at + banner.len());
        let mut e: usize = 0;
        while e < rest.len() && rest[e] != 13 && rest[e] != 10
            invariant
                0 <= e <= rest@.len(),
                first_break(rest@.take(e as int)) == e,
                forall|j: int| 0 <= j < e ==> rest@[j] != 13u8 && rest@[j] != 10u8,
            decreases rest@.len() - e,
        {
            assert(rest@.take(e + 1).drop_last() =~= rest@.take(e as int));
            e += 1;
        }
        proof {
            lemma_first_break_at(rest@, e as int);
        }
        let text = slice_bytes(&rest, 0, e);
        assert(text@ =~= rest@.take(e as int));
        let parts = split_bytes(&text, 46);
        let nums = match version_parts(&parts) {
            Some(v) => v,
            None => return None,
        };
        Some(DeviceManager { adb_command: command.clone(), adb_version: nums, devices: Vec::new() })
    }

    /// Replaces the device list with what adb's `devices -l` printed, and
    /// hands out a copy of it; none, and no change, if the output cannot be
    /// read.
    pub fn get_devices(&mut self, listing: &Vec<u8>) -> (r: Option<Vec<AndroidDevice>>)
        ensures
            match r {
                Some(ds) => device_list_spec(text_lines(listing@)) == Some(device_views(ds@))
                    && device_views(final(self).devices@) == device_views(ds@),
                None => device_list_spec(text_lines(listing@)) is None && device_views(final(self).devices@)
                    == device_views(old(self).devices@),
            },
            final(self).adb_command@ == old(self).adb_command@,
            final(self).adb_version@ == old(self).adb_version@,
    {
        match parse_device_list(listing) {
            None => None,
            Some(ds) => {
                let mut copy: Vec<AndroidDevice> = Vec::new();
                let mut i: usize = 0;
                while i < ds.len()
                    invariant
                        0 <= i <= ds@.len(),
                        device_views(copy@) == device_views(ds@).take(i as int),
                    decreases ds@.len() - i,
                {
                    let ghost before = device_views(copy@);
                    let d = ds[i].duplicate();
                    copy.push(d);
                    assert(device_views(copy@) =~= before.push(d@));
                    assert(device_views(ds@).take(i + 1) =~= device_views(ds@).take(i as int).push(ds@[i as int]@));
                    i += 1;
                }
                assert(device_views(ds@).take(i as int) =~= device_views(ds@));
                self.devices = ds;
                Some(copy)
            },
        }
    }

    /// The version of adb, dotted.
    pub fn get_version(&self) -> (r: Vec<u8>)
        ensures
            r@ == dotted(self.adb_version@),
    {
        let mut r: Vec<u8> = Vec::new();
        let mut i: usize = 0;
        assert(self.adb_version@.take(0) =~= Seq::<u32>::empty());
        while i < self.adb_version.len()
            invariant
                0 <= i <= self.adb_version@.len(),
                r@ == dotted(self.adb_version@.take(i as int)),
            decreases self.adb_version@.len() - i,
        {
            if i > 0 {
                r.push(46);
            }
            let d = decimal_bytes(self.adb_version[i]);
            append_bytes(&mut r, &d);
            let ghost s = self.adb_version@.take(i + 1);
            assert(s.drop_last() =~= self.adb_version@.take(i as int));
            if i == 0 {
                assert(r@ =~= dotted(s));
            } else {
                assert(r@ =~= dotted(s));
            }
            i += 1;
        }
        assert(self.adb_version@.take(i as int) =~= self.adb_version@);
        r
    }

    /// The transport id under which `device` was listed, or the decoy id if
    /// it was not.
    pub fn get_transport_id(&self, device: &AndroidDevice) -> (r: u32)
        ensures
            r == transport_spec(device_views(self.devices@), device@),
    {
        let ghost ds = device_views(self.devices@);
        let mut i: usize = 0;
        assert(ds.take(0) =~= Seq::<DeviceView>::empty());
        while i < self.devices.len()
            invariant
                0 <= i <= self.devices@.len(),
                ds == device_views(self.devices@),
                device_index(ds.take(i as int), device@) == -1,
            decreases self.devices@.len() - i,
        {
            assert(ds.take(i + 1).drop_last() =~= ds.take(i as int));
            if self.devices[i].same_as(device) {
                proof {
                    lemma_device_index_prefix(ds, device@, i + 1);
                }
                return self.devices[i].transport_id;
            }
            i += 1;
        }
        assert(ds.take(i as int) =~= ds);
        DECOY_TRANSPORT
    }

    /// How to find out the state of `device`, from the last device list: a
    /// decoy is no device, one missing from the list is disconnected, and
    /// any other is asked for under its transport id.
    pub fn status_query(&self, device: &AndroidDevice) -> (r: StatusQuery)
        ensures
            device.transport_id == DECOY_TRANSPORT ==> r == StatusQuery::NoSuchDevice,
            device.transport_id != DECOY_TRANSPORT && device_index(device_views(self.devices@), device@) < 0
                ==> r == StatusQuery::Disconnected,
            device.transport_id != DECOY_TRANSPORT && device_index(device_views(self.devices@), device@) >= 0
                ==> r == StatusQuery::Ask(transport_spec(device_views(self.devices@), device@)),
    {
        if device.is_decoy() {
            return StatusQuery::NoSuchDevice;
        }
        let t = self.get_transport_id(device);
        proof {
            lemma_device_index_bounds(device_views(self.devices@), device@);
        }
        let ghost k = device_index(device_views(self.devices@), device@);
        let mut i: usize = 0;
        let mut found = false;
        while i < self.devices.len()
            invariant
                0 <= i <= self.devices@.len(),
                found == exists|j: int| 0 <= j < i && same_device(#[trigger] device_views(self.devices@)[j], device@),
            decreases self.devices@.len() - i,
        {
            if self.devices[i].same_as(device) {
                found = true;
                assert(same_device(device_views(self.devices@)[i as int], device@));
            }
            i += 1;
        }
        if !found {
            proof {
                if k >= 0 {
                    assert(same_device(device_views(self.devices@)[k], device@));
                }
            }
            StatusQuery::Disconnected
        } else {
            StatusQuery::Ask(t)
        }
    }
}

proof fn lemma_device_index_prefix(ds: Seq<DeviceView>, d: DeviceView, n: int)
    requires
        1 <= n <= ds.len(),
        device_index(ds.take(n - 1), d) == -1,
        same_device(ds[n - 1], d),
    ensures
        device_index(ds, d) == n - 1,
    decreases ds.len() - n,
{
    assert(ds.take(n).drop_last() =~= ds.take(n - 1));
    if n == ds.len() {
        assert(ds.take(n) =~= ds);
    } else {
        assert(ds.drop_last().take(n - 1) =~= ds.take(n - 1));
        assert(ds.drop_last()[n - 1] == ds[n - 1]);
        lemma_device_index_prefix(ds.drop_last(), d, n);
    }
}

proof fn lemma_first_break_at(s: Seq<u8>, e: int)
    requires
        0 <= e <= s.len(),
        first_break(s.take(e)) == e,
        forall|j: int| 0 <= j < e ==> s[j] != 13u8 && s[j] != 10u8,
        e < s.len() ==> (s[e] == 13u8 || s[e] == 10u8),
    ensures
        first_break(s) == e,
    decreases s.len() - e,
{
    if e == s.len() {
        assert(s.take(e) =~= s);
    } else {
        assert(s.take(e + 1).drop_last() =~= s.take(e));
        assert(first_break(s.take(e + 1)) == e);
        lemma_first_break_stays(s, e + 1, e);
    }
}

proof fn lemma_first_break_stays(s: Seq<u8>, n: int, e: int)
    requires
        0 <= e < n <= s.len(),
        first_break(s.take(n)) == e,
    ensures
        first_break(s) == e,
    decreases s.len() - n,
{
    if n == s.len() {
        assert(s.take(n) =~= s);
    } else {
        assert(s.take(n + 1).drop_last() =~= s.take(n));
        lemma_first_break_stays(s, n + 1, e);
    }
}

proof fn lemma_versions_step(ps: Seq<Seq<u8>>, i: int, nums: Seq<u32>, v: int)
    requires
        0 <= i < ps.len(),
        version_numbers(ps.take(i)) == Some(nums),
        v >= 0 ==> decimal_spec(ps[i], u32::MAX as int) == Some(v),
        v < 0 ==> decimal_spec(ps[i], u32::MAX as int) is None,
    ensures
        v >= 0 ==> version_numbers(ps.take(i + 1)) == Some(nums.push(v as u32)),
        v < 0 ==> version_numbers(ps.take(i + 1)) is None,
{
    assert(ps.take(i + 1).drop_last() =~= ps.take(i));
    assert(ps.take(i + 1).last() == ps[i]);
}

proof fn lemma_versions_none_extends(ps: Seq<Seq<u8>>, n: int)
    requires
        0 <= n <= ps.len(),
        version_numbers(ps.take(n)) is None,
    ensures
        version_numbers(ps) is None,
    decreases ps.len() - n,
{
    if n == ps.len() {
        assert(ps.take(n) =~= ps);
    } else {
        assert(ps.drop_last().take(n) =~= ps.take(n));
        lemma_versions_none_extends(ps.drop_last(), n);
    }
}

/// Which device a push goes to.
#[derive(Debug, Clone, Copy, PartialEq, Eq)]
pub enum Selection {
    /// The device at this index of the list.
    Chosen(usize),
    /// Several devices and none named: the user is to choose.
    AskUser,
}

/// Why no device can be chosen.
#[derive(Debug, Clone, Copy, PartialEq, Eq)]
pub enum SelectError {
    /// adb lists no device.
    NoDevices,
    /// No listed device has the identifier asked for.
    NotFound,
    /// Two listed devices, at these indices, have the identifier asked for.
    Duplicate(usize, usize),
    /// Several devices, none named, and the user may not be asked.
    NeedsChoice,
}

/// The indices of the devices of `ds` with identifier `id`, in order.
pub open spec fn id_matches(ds: Seq<DeviceView>, id: Seq<u8>) -> Seq<int>
    decreases ds.len(),
{
    if ds.len() == 0 {
        Seq::empty()
    } else if ds.last().identifier == id {
        id_matches(ds.drop_last(), id).push(ds.len() - 1)
    } else {
        id_matches(ds.drop_last(), id)
    }
}

/// The device a push goes to, among `ds`: the one with identifier
/// `wanted`, if one is named; else the only one; else the user's choice,
/// unless output is `quiet`.
pub open spec fn selection_spec(ds: Seq<DeviceView>, wanted: Option<Seq<u8>>, quiet: bool) -> Result<
    Selection,
    SelectError,
> {
    if ds.len() == 0 {
        Err(SelectError::NoDevices)
    } else {
        match wanted {
            Some(id) => {
                let m = id_matches(ds, id);
                if m.len() == 0 {
                    Err(SelectError::NotFound)
                } else if m.len() == 1 {
                    Ok(Selection::Chosen(m[0] as usize))
                } else {
                    Err(SelectError::Duplicate(m[0] as usize, m[1] as usize))
                }
            },
            None => if ds.len() == 1 {
                Ok(Selection::Chosen(0))
            } else if quiet {
                Err(SelectError::NeedsChoice)
            } else {
                Ok(Selection::AskUser)
            },
        }
    }
}

/// Chooses the device a push goes to.
pub fn select_device(devices: &Vec<AndroidDevice>, wanted: &Option<Vec<u8>>, quiet: bool) -> (r: Result<
    Selection,
    SelectError,
>)
    ensures
        r == selection_spec(device_views(devices@), match wanted {
            Some(w) => Some(w@),
            None => None,
        }, quiet),
{
    if devices.len() == 0 {
        return Err(SelectError::NoDevices);
    }
    match wanted {
        None => {
            if devices.len() == 1 {
                Ok(Selection::Chosen(0))
            } else if quiet {
                Err(SelectError::NeedsChoice)
            } else {
                Ok(Selection::AskUser)
            }
        },
        Some(id) => {
            let ghost ds = device_views(devices@);
            let mut m: Vec<usize> = Vec::new();
            let mut i: usize = 0;
            assert(ds.take(0) =~= Seq::<DeviceView>::empty());
            while i < devices.len()
                invariant
                    0 <= i <= devices@.len(),
                    ds == device_views(devices@),
                    m@.len() == id_matches(ds.take(i as int), id@).len(),
                    forall|j: int| 0 <= j < m@.len() ==> m@[j] as int == #[trigger] id_matches(ds.take(i as int), id@)[j],
                decreases devices@.len() - i,
            {
                assert(ds.take(i + 1).drop_last() =~= ds.take(i as int));
                assert(ds.take(i + 1).last() == devices@[i as int]@);
                if bytes_eq(&devices[i].identifier, id) {
                    m.push(i);
                }
                i += 1;
            }
            assert(ds.take(i as int) =~= ds);
            if m.len() == 0 {
                Err(SelectError::NotFound)
            } else if m.len() == 1 {
                Ok(Selection::Chosen(m[0]))
            } else {
                Err(SelectError::Duplicate(m[0], m[1]))
            }
        },
    }
}

/// The index of the device that the user's answer `answer` picks from a
/// list of `count` numbered from 1, if it picks one.
pub fn choice_index(answer: usize, count: usize) -> (r: Option<usize>)
    ensures
        1 <= answer <= count ==> r == Some((answer - 1) as usize),
        !(1 <= answer <= count) ==> r is None,
{
    if 1 <= answer && answer <= count {
        Some(answer - 1)
    } else {
        None
    }
}

} // verus!
