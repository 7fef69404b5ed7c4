//! Serial command session: connection lifecycle and command framing.
//!
//! The session owns the model of at most one open device connection and
//! decides every operation: what a send transmits (the trimmed command
//! with exactly one newline terminator), when it must fail instead, and
//! what each confirmation says. The surrounding application holds the
//! live device handle and performs the byte I/O that the decisions here
//! call for; port enumeration is reached through one trusted call.

use vstd::prelude::*;

use crate::hashing::{dec_render, dec_str};
use serialport::SerialPortType;

verus! {

/// How a port is attached to the machine.
#[derive(Debug, Clone, Copy, PartialEq, Eq, Structural)]
pub enum PortKind {
    Usb,
    Pci,
    Bluetooth,
    Unknown,
}

/// The label under which a connection kind is reported.
pub open spec fn kind_label(k: PortKind) -> Seq<char> {
    match k {
        PortKind::Usb => "USB"@,
        PortKind::Pci => "PCI"@,
        PortKind::Bluetooth => "Bluetooth"@,
        PortKind::Unknown => "Unknown"@,
    }
}

impl PortKind {
    /// The label under which this kind is reported.
    pub fn label(&self) -> (r: String)
        ensures
            r@ == kind_label(*self),
    {
        match self {
            PortKind::Usb => String::from_str("USB"),
            PortKind::Pci => String::from_str("PCI"),
            PortKind::Bluetooth => String::from_str("Bluetooth"),
            PortKind::Unknown => String::from_str("Unknown"),
        }
    }
}

/// One enumerated port: its name and the label of its kind.
pub struct PortInfo {
    pub port_name: String,
    pub port_type: String,
}

/// Relies on `serialport::available_ports`: the ports the OS reports at
/// this moment, each reduced to its name and connection kind (one arm
/// per `SerialPortType` variant), or the error's description. What
/// comes back depends on the machine, so nothing is assumed of it.
#[verifier::external_body]
fn available_ports_raw() -> Result<Vec<(String, PortKind)>, String> {
    match serialport::available_ports() {
        Ok(ports) => Ok(ports.into_iter().map(|p| (p.port_name, match p.port_type {
            SerialPortType::UsbPort(_) => PortKind::Usb,
            SerialPortType::PciPort => PortKind::Pci,
            SerialPortType::BluetoothPort => PortKind::Bluetooth,
            SerialPortType::Unknown => PortKind::Unknown,
        })).collect()),
        Err(e) => Err(e.to_string()),
    }
}

/// Turn enumerated (name, kind) pairs into reported port descriptions,
/// keeping order and labelling each kind.
pub fn ports_to_infos(ports: Vec<(String, PortKind)>) -> (r: Vec<PortInfo>)
    ensures
        r@.len() == ports@.len(),
        forall|i: int|
            0 <= i < ports@.len() ==> (#[trigger] r@[i]).port_name@ == ports@[i].0@ && r@[i].port_type@
                == kind_label(ports@[i].1),
{
    let mut r: Vec<PortInfo> = Vec::new();
    let mut i: usize = 0;
    while i < ports.len()
        invariant
            0 <= i <= ports@.len(),
            r@.len() == i,
            forall|j: int|
                0 <= j < i ==> (#[trigger] r@[j]).port_name@ == ports@[j].0@ && r@[j].port_type@
                    == kind_label(ports@[j].1),
        decreases ports@.len() - i,
    {
        let name = ports[i].0.clone();
        let label = ports[i].1.label();
        r.push(PortInfo { port_name: name, port_type: label });
        i = i + 1;
    }
    r
}

/// Whether `s` is the label of some connection kind.
pub open spec fn is_kind_label(s: Seq<char>) -> bool {
    exists|k: PortKind| s == kind_label(k)
}

/// The description of a failed port enumeration.
pub open spec fn enumeration_err_msg(cause: Seq<char>) -> Seq<char> {
    "Failed to list ports: "@ + cause
}

/// Ask the OS for the attached serial ports. An empty machine yields an
/// empty list, not an error. Which ports come back depends on the
/// machine, so the contract holds of every outcome: each entry carries
/// one of the four kind labels (the shaping is stated and proved in
/// `ports_to_infos`), and a failed platform query yields its description
/// behind the enumeration message.
pub fn list_serial_ports() -> (r: Result<Vec<PortInfo>, String>)
    ensures
        r matches Ok(infos) ==> forall|i: int|
            0 <= i < infos@.len() ==> is_kind_label((#[trigger] infos@[i]).port_type@),
        r matches Err(m) ==> exists|cause: Seq<char>| m@ == enumeration_err_msg(cause),
{
    match available_ports_raw() {
        Ok(ports) => {
            let infos = ports_to_infos(ports);
            proof {
                assert forall|i: int|
                    0 <= i < infos@.len() implies is_kind_label(
                    (#[trigger] infos@[i]).port_type@,
                ) by {
                    assert(infos@[i].port_type@ == kind_label(ports@[i].1));
                }
            }
            Ok(infos)
        },
        Err(cause) => {
            let mut m = String::from_str("Failed to list ports: ");
            m.append(cause.as_str());
            proof {
                assert(m@ == enumeration_err_msg(cause@));
            }
            Err(m)
        },
    }
}

/// ASCII whitespace: space, tab, line feed, vertical tab, form feed or
/// carriage return.
pub open spec fn is_space_char(c: char) -> bool {
    c as u32 == 32 || (9 <= c as u32 && c as u32 <= 13)
}

/// `s` with its trailing whitespace removed.
pub open spec fn trim_right(s: Seq<char>) -> Seq<char>
    decreases s.len(),
{
    if s.len() > 0 && is_space_char(s.last()) {
        trim_right(s.drop_last())
    } else {
        s
    }
}

/// `s` with its leading whitespace removed.
pub open spec fn trim_left(s: Seq<char>) -> Seq<char>
    decreases s.len(),
{
    if s.len() > 0 && is_space_char(s[0]) {
        trim_left(s.drop_first())
    } else {
        s
    }
}

/// `s` with surrounding whitespace removed.
pub open spec fn trim_str(s: Seq<char>) -> Seq<char> {
    trim_left(trim_right(s))
}

/// The wire form of a command: trimmed, then exactly one newline
/// terminator appended.
pub open spec fn frame_str(s: Seq<char>) -> Seq<char> {
    trim_str(s).push('\n')
}

/// ASCII whitespace test on one character.
pub fn is_space(c: char) -> (r: bool)
    ensures
        r == is_space_char(c),
{
    let u = c as u32;
    u == 32 || (9 <= u && u <= 13)
}

/// Dropping untrimmed characters from the right, one at a time, down to
/// the first kept position, computes `trim_right`.
proof fn lemma_trim_right_suffix(s: Seq<char>, j: int)
    requires
        0 <= j <= s.len(),
        forall|m: int| j <= m < s.len() ==> is_space_char(s[m]),
        j == 0 || !is_space_char(s[j - 1]),
    ensures
        trim_right(s) == s.subrange(0, j),
    decreases s.len(),
{
    if j == s.len() {
        if s.len() > 0 {
            assert(!is_space_char(s.last()));
        }
        assert(s.subrange(0, j) =~= s);
    } else {
        assert(is_space_char(s.last()));
        lemma_trim_right_suffix(s.drop_last(), j);
        assert(s.drop_last().subrange(0, j) =~= s.subrange(0, j));
    }
}

/// Dropping leading whitespace, one character at a time, down to the
/// first non-space, computes `trim_left`.
proof fn lemma_trim_left_prefix(s: Seq<char>, i: int)
    requires
        0 <= i <= s.len(),
        forall|m: int| 0 <= m < i ==> is_space_char(s[m]),
        i == s.len() || !is_space_char(s[i]),
    ensures
        trim_left(s) == s.subrange(i, s.len() as int),
    decreases i,
{
    if i == 0 {
        assert(s.subrange(0, s.len() as int) =~= s);
    } else {
        assert(is_space_char(s[0]));
        let t = s.drop_first();
        assert forall|m: int| 0 <= m < i - 1 implies is_space_char(t[m]) by {
            assert(t[m] == s[m + 1]);
        }
        lemma_trim_left_prefix(t, i - 1);
        assert(t.subrange(i - 1, t.len() as int) =~= s.subrange(i, s.len() as int));
    }
}

/// What trimming leaves never ends in whitespace.
proof fn lemma_trim_right_clean(s: Seq<char>)
    ensures
        trim_right(s).len() > 0 ==> !is_space_char(trim_right(s).last()),
    decreases s.len(),
{
    if s.len() > 0 && is_space_char(s.last()) {
        lemma_trim_right_clean(s.drop_last());
    }
}

/// Trimming on the left keeps the last character.
proof fn lemma_trim_left_keeps_last(s: Seq<char>)
    ensures
        trim_left(s).len() > 0 ==> trim_left(s).last() == s.last(),
        trim_left(s).len() <= s.len(),
    decreases s.len(),
{
    if s.len() > 0 && is_space_char(s[0]) {
        lemma_trim_left_keeps_last(s.drop_first());
    }
}

/// A framed command ends in exactly one newline: the terminator stands
/// once at the end, and the character before it, if any, is not
/// whitespace.
pub proof fn lemma_frame_single_terminator(s: Seq<char>)
    ensures
        frame_str(s).len() >= 1,
        frame_str(s).last() == '\n',
        frame_str(s).len() >= 2 ==> !is_space_char(frame_str(s)[frame_str(s).len() - 2]),
{
    lemma_trim_right_clean(s);
    lemma_trim_left_keeps_last(trim_right(s));
    let t = trim_str(s);
    if t.len() > 0 {
        assert(frame_str(s)[frame_str(s).len() - 2] == t.last());
    }
}

/// Whitespace already at the end of a command changes nothing: the
/// frame of the command with one more trailing space or newline is the
/// frame of the command itself, so the terminator is never duplicated.
pub proof fn lemma_frame_absorbs_trailing_space(s: Seq<char>, c: char)
    requires
        is_space_char(c),
    ensures
        frame_str(s.push(c)) == frame_str(s),
{
    assert(s.push(c).last() == c);
    assert(s.push(c).drop_last() =~= s);
}

/// The position after the last non-space character at or before `end`.
fn scan_trim_end(s: &str, end: usize) -> (r: usize)
    requires
        end <= s@.len(),
        forall|m: int| end <= m < s@.len() ==> is_space_char(s@[m]),
    ensures
        r <= end,
        forall|m: int| r <= m < s@.len() ==> is_space_char(s@[m]),
        r == 0 || !is_space_char(s@[r - 1]),
    decreases end,
{
    if end > 0 {
        let c = s.get_char(end - 1);
        if is_space(c) {
            scan_trim_end(s, end - 1)
        } else {
            end
        }
    } else {
        0
    }
}

/// The first non-space position at or after `i`, bounded by `end`.
fn scan_trim_start(s: &str, i: usize, end: usize) -> (r: usize)
    requires
        i <= end <= s@.len(),
        forall|m: int| 0 <= m < i ==> is_space_char(s@[m]),
    ensures
        i <= r <= end,
        forall|m: int| 0 <= m < r ==> is_space_char(s@[m]),
        r == end || !is_space_char(s@[r as int]),
    decreases end - i,
{
    if i < end {
        let c = s.get_char(i);
        if is_space(c) {
            scan_trim_start(s, i + 1, end)
        } else {
            i
        }
    } else {
        end
    }
}

/// The wire form of `command`: surrounding whitespace trimmed, exactly
/// one newline appended.
pub fn frame_command(command: &str) -> (r: String)
    ensures
        r@ == frame_str(command@),
{
    let n = command.unicode_len();
    let end = scan_trim_end(command, n);
    let start = scan_trim_start(command, 0, end);
    proof {
        lemma_trim_right_suffix(command@, end as int);
        let t = command@.subrange(0, end as int);
        assert forall|m: int| 0 <= m < start implies is_space_char(t[m]) by {
            assert(t[m] == command@[m]);
        }
        if (start as int) < t.len() {
            assert(t[start as int] == command@[start as int]);
        }
        lemma_trim_left_prefix(t, start as int);
        assert(t.subrange(start as int, t.len() as int) =~= command@.subrange(
            start as int,
            end as int,
        ));
    }
    let trimmed = command.substring_char(start, end);
    let mut r = trimmed.to_owned();
    r.push('\n');
    r
}

/// The confirmation echoed after a transmitted command.
pub fn sent_message(command: &str) -> (r: String)
    ensures
        r@ == "Sent: "@ + command@,
{
    let mut r = String::from_str("Sent: ");
    r.append(command);
    r
}

/// The confirmation for an opened connection.
pub open spec fn connect_msg(port_name: Seq<char>, baud_rate: u32) -> Seq<char> {
    "Connected to "@ + port_name + " at "@ + dec_str(baud_rate as u64) + " baud"@
}

/// Failure of a send attempt.
#[derive(Debug, PartialEq)]
pub enum SendError {
    /// No connection is open; nothing was transmitted.
    NotConnected,
    /// The device write or flush failed; the connection stays open.
    IoFailure(String),
}

/// The human-readable description of a send failure.
pub open spec fn send_error_msg(e: SendError) -> Seq<char> {
    match e {
        SendError::NotConnected => "No serial port connected"@,
        SendError::IoFailure(cause) => cause@,
    }
}

impl SendError {
    /// The human-readable description of the failure.
    pub fn message(&self) -> (r: String)
        ensures
            r@ == send_error_msg(*self),
    {
        match self {
            SendError::NotConnected => String::from_str("No serial port connected"),
            SendError::IoFailure(cause) => cause.clone(),
        }
    }
}

/// Failure to open a port.
#[derive(Debug, PartialEq)]
pub struct ConnectError {
    pub port: String,
    pub cause: String,
}

/// The human-readable description of a connect failure.
pub open spec fn connect_err_msg(port: Seq<char>, cause: Seq<char>) -> Seq<char> {
    "Failed to open port "@ + port + ": "@ + cause
}

impl ConnectError {
    /// The human-readable description of the failure.
    pub fn message(&self) -> (r: String)
        ensures
            r@ == connect_err_msg(self.port@, self.cause@),
    {
        let mut r = String::from_str("Failed to open port ");
        r.append(self.port.as_str());
        r.append(": ");
        r.append(self.cause.as_str());
        r
    }
}

/// The open connection: the port it was opened on and its baud rate.
pub struct ConnectionInfo {
    pub port_name: String,
    pub baud_rate: u32,
}

/// The serial session: the model of at most one open device connection,
/// owned by the caller and passed into every operation. The live device
/// handle is held beside it by the caller, opened when a connection is
/// recorded and dropped when the session disconnects.
pub struct SerialState {
    current: Option<ConnectionInfo>,
}

impl View for SerialState {
    type V = Option<(Seq<char>, u32)>;

    closed spec fn view(&self) -> Option<(Seq<char>, u32)> {
        match self.current {
            Some(c) => Some((c.port_name@, c.baud_rate)),
            None => None,
        }
    }
}

impl SerialState {
    /// A fresh session: nothing connected.
    pub fn new() -> (s: Self)
        ensures
            s@ is None,
    {
        SerialState { current: None }
    }

    /// Whether a connection is open. Pure observation.
    pub fn is_serial_connected(&self) -> (r: bool)
        ensures
            r == (self@ is Some),
    {
        match &self.current {
            Some(_) => true,
            None => false,
        }
    }

    /// Record a freshly opened connection, unconditionally replacing
    /// any previous one (last caller wins), and return the
    /// confirmation. On a failed open the caller leaves the session
    /// untouched instead.
    pub fn record_connect(&mut self, port_name: String, baud_rate: u32) -> (msg: String)
        ensures
            final(self)@ == Some((port_name@, baud_rate)),
            msg@ == connect_msg(port_name@, baud_rate),
    {
        let msg = {
            let mut m = String::from_str("Connected to ");
            m.append(port_name.as_str());
            m.append(" at ");
            let b = dec_render(baud_rate as u64);
            m.append(b.as_str());
            m.append(" baud");
            m
        };
        self.current = Some(ConnectionInfo { port_name, baud_rate });
        msg
    }

    /// Drop the connection, if any. Idempotent: succeeds with the same
    /// confirmation whether or not anything was connected.
    pub fn disconnect_serial(&mut self) -> (msg: String)
        ensures
            final(self)@ is None,
            msg@ == "Disconnected"@,
    {
        self.current = None;
        String::from_str("Disconnected")
    }

    /// Decide a send: on an open connection, exactly the framed command
    /// to transmit; with none, `NotConnected`, and nothing is to be
    /// transmitted. The caller writes the returned frame verbatim,
    /// followed by a flush.
    pub fn send_gcode(&self, command: &str) -> (r: Result<String, SendError>)
        ensures
            self@ is Some ==> (r matches Ok(frame) && frame@ == frame_str(command@)),
            self@ is None ==> r == Err::<String, SendError>(SendError::NotConnected),
    {
        match &self.current {
            Some(_) => Ok(frame_command(command)),
            None => Err(SendError::NotConnected),
        }
    }
}

} // verus!
