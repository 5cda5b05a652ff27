//! IPC policy between KitsuneEngine processes: roles, privilege levels,
//! capabilities, which capability each kind of message needs, which role
//! may send which kind of message, message envelopes and the length-prefixed
//! wire frame.
use vstd::prelude::*;
use crate::clock::{is_v4_uuid, new_uuid, now_millis};
use crate::text::{lowercase, push_str, str_eq, to_lower, to_owned_string};

verus! {

/// Unique identifier for a process in the process tree.
#[derive(Debug, Clone, PartialEq, Eq, Hash)]
pub struct ProcessId(pub String);

/// The role of a process.
#[derive(Debug, Clone, Copy, PartialEq, Eq, Hash, Structural)]
pub enum ProcessRole {
    Broker,
    Network,
    Renderer,
    Js,
    Agent,
}

/// The role a (lowercased) role name denotes; unknown names fall back to
/// `Renderer`.
pub open spec fn role_of_name(s: Seq<char>) -> ProcessRole {
    if s == "broker"@ {
        ProcessRole::Broker
    } else if s == "network"@ {
        ProcessRole::Network
    } else if s == "renderer"@ {
        ProcessRole::Renderer
    } else if s == "js"@ || s == "javascript"@ {
        ProcessRole::Js
    } else if s == "agent"@ {
        ProcessRole::Agent
    } else {
        ProcessRole::Renderer
    }
}

/// Case-insensitive role names: the role of the lowercased name.
impl From<String> for ProcessRole {
    fn from(s: String) -> (r: Self) {
        role_from_name(s.as_str())
    }
}

impl vstd::std_specs::convert::FromSpecImpl<String> for ProcessRole {
    open spec fn obeys_from_spec() -> bool {
        true
    }

    open spec fn from_spec(v: String) -> Self {
        role_of_name(lowercase(v@))
    }
}

/// The role named by `s`, compared case-insensitively.
pub fn role_from_name(s: &str) -> (r: ProcessRole)
    ensures
        r == role_of_name(lowercase(s@)),
{
    let l = to_lower(s);
    let t = l.as_str();
    if str_eq(t, "broker") {
        ProcessRole::Broker
    } else if str_eq(t, "network") {
        ProcessRole::Network
    } else if str_eq(t, "renderer") {
        ProcessRole::Renderer
    } else if str_eq(t, "js") || str_eq(t, "javascript") {
        ProcessRole::Js
    } else if str_eq(t, "agent") {
        ProcessRole::Agent
    } else {
        ProcessRole::Renderer
    }
}

/// The role a connecting client announces by its sender id (exact,
/// case-sensitive names); any other sender has no role.
pub open spec fn role_of_sender(s: Seq<char>) -> Option<ProcessRole> {
    if s == "Network"@ {
        Some(ProcessRole::Network)
    } else if s == "Renderer"@ {
        Some(ProcessRole::Renderer)
    } else if s == "Js"@ {
        Some(ProcessRole::Js)
    } else if s == "Agent"@ {
        Some(ProcessRole::Agent)
    } else {
        None
    }
}

/// The role of a newly connected client, from its first message's sender
/// id; `None` for a sender that names no client role.
pub fn role_from_sender_id(s: &str) -> (r: Option<ProcessRole>)
    ensures
        r == role_of_sender(s@),
{
    if str_eq(s, "Network") {
        Some(ProcessRole::Network)
    } else if str_eq(s, "Renderer") {
        Some(ProcessRole::Renderer)
    } else if str_eq(s, "Js") {
        Some(ProcessRole::Js)
    } else if str_eq(s, "Agent") {
        Some(ProcessRole::Agent)
    } else {
        None
    }
}

/// Unique identifier correlating requests and responses.
#[derive(Debug, Clone, Copy, PartialEq, Eq, Hash, Structural)]
pub struct CorrelationId(pub u128);

/// The privilege level of a process.
#[derive(Debug, Clone, Copy, PartialEq, Eq, Structural)]
pub enum PrivilegeLevel {
    /// Full access to vault, HIL, and IPC bus. Only the broker process.
    Broker,
    /// Can request vault data through HIL gates. Agent processes.
    SemiPrivileged,
    /// No direct access to vault or network. Renderer/JS processes.
    Sandboxed,
}

/// Process capability flags.
#[derive(Debug, Clone, Copy, PartialEq, Eq, Hash, Structural)]
pub enum ProcessCapability {
    VaultRead,
    VaultWrite,
    NetworkAccess,
    DomAccess,
    HilTrigger,
    ProcessSpawn,
    AgentRuntime,
    FileSystemAccess,
}

/// The kind of an IPC payload: one variant per payload variant.
#[derive(Debug, Clone, Copy, PartialEq, Eq, Hash, Structural)]
pub enum PayloadKind {
    VaultRequest,
    VaultResponse,
    NetworkFetchRequest,
    NetworkFetchResponse,
    HilCheckpointRequest,
    HilCheckpointResponse,
    DomQuery,
    DomQueryResult,
    DomFillField,
    DomClick,
    DomOperationResult,
    SetDomHighlight,
    ClearDomHighlight,
    ClearAllDomHighlights,
    NavigateRequest,
    NavigateResponse,
    ProcessRegister,
    ProcessRegistered,
    ProcessShutdown,
    AgentActionRequest,
    AgentActionResult,
    Error,
}

/// The capability a sender needs for a payload; responses and lifecycle
/// messages need none.
pub open spec fn capability_for(k: PayloadKind) -> Option<ProcessCapability> {
    match k {
        PayloadKind::VaultRequest => Some(ProcessCapability::VaultRead),
        PayloadKind::NetworkFetchRequest => Some(ProcessCapability::NetworkAccess),
        PayloadKind::HilCheckpointRequest => Some(ProcessCapability::HilTrigger),
        PayloadKind::DomQuery => Some(ProcessCapability::DomAccess),
        PayloadKind::DomFillField => Some(ProcessCapability::DomAccess),
        PayloadKind::DomClick => Some(ProcessCapability::DomAccess),
        PayloadKind::SetDomHighlight => Some(ProcessCapability::DomAccess),
        PayloadKind::ClearDomHighlight => Some(ProcessCapability::DomAccess),
        PayloadKind::ClearAllDomHighlights => Some(ProcessCapability::DomAccess),
        PayloadKind::NavigateRequest => Some(ProcessCapability::NetworkAccess),
        PayloadKind::AgentActionRequest => Some(ProcessCapability::AgentRuntime),
        _ => None,
    }
}

/// Determine the required capability for a given message payload.
pub fn required_capability(k: PayloadKind) -> (r: Option<ProcessCapability>)
    ensures
        r == capability_for(k),
{
    match k {
        PayloadKind::VaultRequest => Some(ProcessCapability::VaultRead),
        PayloadKind::VaultResponse => None,
        PayloadKind::NetworkFetchRequest => Some(ProcessCapability::NetworkAccess),
        PayloadKind::NetworkFetchResponse => None,
        PayloadKind::HilCheckpointRequest => Some(ProcessCapability::HilTrigger),
        PayloadKind::HilCheckpointResponse => None,
        PayloadKind::DomQuery => Some(ProcessCapability::DomAccess),
        PayloadKind::DomQueryResult => None,
        PayloadKind::DomFillField => Some(ProcessCapability::DomAccess),
        PayloadKind::DomClick => Some(ProcessCapability::DomAccess),
        PayloadKind::DomOperationResult => None,
        PayloadKind::SetDomHighlight => Some(ProcessCapability::DomAccess),
        PayloadKind::ClearDomHighlight => Some(ProcessCapability::DomAccess),
        PayloadKind::ClearAllDomHighlights => Some(ProcessCapability::DomAccess),
        PayloadKind::NavigateRequest => Some(ProcessCapability::NetworkAccess),
        PayloadKind::NavigateResponse => None,
        PayloadKind::ProcessRegister => None,
        PayloadKind::ProcessRegistered => None,
        PayloadKind::ProcessShutdown => None,
        PayloadKind::AgentActionRequest => Some(ProcessCapability::AgentRuntime),
        PayloadKind::AgentActionResult => None,
        PayloadKind::Error => None,
    }
}

/// IPC errors.
#[derive(Debug)]
pub enum IpcError {
    /// The target process is not reachable.
    ProcessUnreachable { process_id: String },
    /// Message decoding failed (the decoder's message).
    Decode(String),
    /// I/O error (the error's message).
    Io(String),
    /// Process disconnected.
    Disconnected(ProcessRole),
    /// Channel is closed.
    ChannelClosed,
    /// Message timed out waiting for response.
    Timeout { timeout_ms: u64 },
    /// The requesting process lacks the required capability.
    PermissionDenied { role: ProcessRole, required_privilege: PrivilegeLevel },
    /// Internal IPC infrastructure error.
    Internal(String),
}

/// Result type alias for IPC operations.
pub type IpcResult<T> = Result<T, IpcError>;

/// Whether `caps` contains `c`.
pub fn has_capability(caps: &Vec<ProcessCapability>, c: ProcessCapability) -> (r: bool)
    ensures
        r == caps@.contains(c),
{
    let mut i: usize = 0;
    while i < caps.len()
        invariant
            i <= caps@.len(),
            forall|k: int| 0 <= k < i ==> caps@[k] != c,
        decreases caps@.len() - i,
    {
        if caps[i] == c {
            assert(caps@[i as int] == c);
            return true;
        }
        i += 1;
    }
    false
}

/// Validate that a channel owner holding `caps` may send a payload of kind
/// `k`; a denial reports the owner's role (from its id) and `Sandboxed`.
pub fn validate_capability(owner: &ProcessId, caps: &Vec<ProcessCapability>, k: PayloadKind) -> (r:
    IpcResult<()>)
    ensures
        r is Ok <==> (capability_for(k) matches Some(c) ==> caps@.contains(c)),
        r matches Err(e) ==> e == (IpcError::PermissionDenied {
            role: role_of_name(lowercase(owner.0@)),
            required_privilege: PrivilegeLevel::Sandboxed,
        }),
{
    match required_capability(k) {
        Some(cap) => {
            if !has_capability(caps, cap) {
                return Err(
                    IpcError::PermissionDenied {
                        role: role_from_name(owner.0.as_str()),
                        required_privilege: PrivilegeLevel::Sandboxed,
                    },
                );
            }
            Ok(())
        },
        None => Ok(()),
    }
}

/// Which payload kinds each role may send to the broker. The broker never
/// connects as a client, so nothing is accepted under its role.
pub open spec fn role_allows(role: ProcessRole, k: PayloadKind) -> bool {
    match role {
        ProcessRole::Broker => false,
        ProcessRole::Agent => match k {
            PayloadKind::VaultRequest | PayloadKind::HilCheckpointRequest | PayloadKind::DomQuery
            | PayloadKind::DomFillField | PayloadKind::DomClick | PayloadKind::SetDomHighlight
            | PayloadKind::ClearDomHighlight | PayloadKind::ClearAllDomHighlights
            | PayloadKind::NavigateRequest | PayloadKind::AgentActionRequest
            | PayloadKind::ProcessRegister | PayloadKind::ProcessShutdown => true,
            _ => false,
        },
        ProcessRole::Renderer => match k {
            PayloadKind::DomQueryResult | PayloadKind::DomOperationResult
            | PayloadKind::ProcessRegister | PayloadKind::ProcessShutdown | PayloadKind::Error => true,
            _ => false,
        },
        ProcessRole::Network => match k {
            PayloadKind::NetworkFetchResponse | PayloadKind::NavigateResponse
            | PayloadKind::ProcessRegister | PayloadKind::ProcessShutdown | PayloadKind::Error => true,
            _ => false,
        },
        ProcessRole::Js => match k {
            PayloadKind::ProcessRegister | PayloadKind::ProcessShutdown | PayloadKind::Error => true,
            _ => false,
        },
    }
}

/// The privilege check applied to every message a connected client sends.
pub fn role_may_send(role: ProcessRole, k: PayloadKind) -> (r: bool)
    ensures
        r == role_allows(role, k),
{
    match role {
        ProcessRole::Broker => false,
        ProcessRole::Agent => match k {
            PayloadKind::VaultRequest | PayloadKind::HilCheckpointRequest | PayloadKind::DomQuery
            | PayloadKind::DomFillField | PayloadKind::DomClick | PayloadKind::SetDomHighlight
            | PayloadKind::ClearDomHighlight | PayloadKind::ClearAllDomHighlights
            | PayloadKind::NavigateRequest | PayloadKind::AgentActionRequest
            | PayloadKind::ProcessRegister | PayloadKind::ProcessShutdown => true,
            _ => false,
        },
        ProcessRole::Renderer => match k {
            PayloadKind::DomQueryResult | PayloadKind::DomOperationResult
            | PayloadKind::ProcessRegister | PayloadKind::ProcessShutdown | PayloadKind::Error => true,
            _ => false,
        },
        ProcessRole::Network => match k {
            PayloadKind::NetworkFetchResponse | PayloadKind::NavigateResponse
            | PayloadKind::ProcessRegister | PayloadKind::ProcessShutdown | PayloadKind::Error => true,
            _ => false,
        },
        ProcessRole::Js => match k {
            PayloadKind::ProcessRegister | PayloadKind::ProcessShutdown | PayloadKind::Error => true,
            _ => false,
        },
    }
}

/// Sandboxed roles (renderer, network, JS engine) can never send a message
/// that requests a capability: everything they may send is a response,
/// a report, or a lifecycle message.
pub proof fn lemma_sandboxed_roles_request_nothing(role: ProcessRole, k: PayloadKind)
    requires
        role == ProcessRole::Renderer || role == ProcessRole::Network || role == ProcessRole::Js,
        role_allows(role, k),
    ensures
        capability_for(k) is None,
{
}

/// Every kind an agent may send either needs no capability or needs one of
/// vault read, HIL trigger, DOM access, network access or agent runtime;
/// never vault write, process spawn or filesystem access.
pub proof fn lemma_agent_never_requests_privileged(k: PayloadKind)
    requires
        role_allows(ProcessRole::Agent, k),
    ensures
        capability_for(k) != Some(ProcessCapability::VaultWrite),
        capability_for(k) != Some(ProcessCapability::ProcessSpawn),
        capability_for(k) != Some(ProcessCapability::FileSystemAccess),
{
}

/// The value of a little-endian four-byte length header.
pub open spec fn le_u32(b0: u8, b1: u8, b2: u8, b3: u8) -> int {
    b0 + 256 * b1 + 65536 * b2 + 16777216 * b3
}

/// A frame: the payload length (modulo 2^32) as a little-endian `u32`,
/// then the payload bytes.
pub open spec fn frame_of(payload: Seq<u8>) -> Seq<u8> {
    let n = (payload.len() % 0x1_0000_0000) as u32;
    seq![
        (n % 256) as u8,
        ((n / 256) % 256) as u8,
        ((n / 65536) % 256) as u8,
        ((n / 16777216) % 256) as u8,
    ] + payload
}

/// Encode a payload as a wire frame: a little-endian `u32` length header
/// (the length truncated to 32 bits), then the payload.
pub fn encode_frame(payload: &Vec<u8>) -> (r: Vec<u8>)
    ensures
        r@ == frame_of(payload@),
{
    let len: u64 = payload.len() as u64;
    let n: u32 = len as u32;
    assert(n == len % 0x1_0000_0000) by (bit_vector)
        requires
            n == len as u32,
    ;
    let mut out: Vec<u8> = Vec::new();
    out.push((n & 0xff) as u8);
    out.push(((n >> 8) & 0xff) as u8);
    out.push(((n >> 16) & 0xff) as u8);
    out.push(((n >> 24) & 0xff) as u8);
    assert((n & 0xff) as u8 == (n % 256) as u8) by (bit_vector);
    assert(((n >> 8) & 0xff) as u8 == ((n / 256) % 256) as u8) by (bit_vector);
    assert(((n >> 16) & 0xff) as u8 == ((n / 65536) % 256) as u8) by (bit_vector);
    assert(((n >> 24) & 0xff) as u8 == ((n / 16777216) % 256) as u8) by (bit_vector);
    let mut i: usize = 0;
    while i < payload.len()
        invariant
            i <= payload@.len(),
            out@.len() == 4 + i,
            out@.subrange(0, 4) == frame_of(payload@).subrange(0, 4),
            out@.subrange(4, 4 + i as int) == payload@.subrange(0, i as int),
        decreases payload@.len() - i,
    {
        let ghost before = out@;
        out.push(payload[i]);
        assert(out@.subrange(0, 4) =~= before.subrange(0, 4));
        assert(out@.subrange(4, 4 + i + 1) =~= payload@.subrange(0, i + 1));
        i += 1;
    }
    assert(out@ =~= out@.subrange(0, 4) + out@.subrange(4, out@.len() as int));
    assert(payload@.subrange(0, payload@.len() as int) =~= payload@);
    assert(frame_of(payload@) =~= frame_of(payload@).subrange(0, 4) + payload@);
    out
}

/// The payload length announced by a frame header.
pub fn frame_len(header: [u8; 4]) -> (r: u32)
    ensures
        r == le_u32(header[0], header[1], header[2], header[3]),
{
    let b0 = header[0] as u32;
    let b1 = header[1] as u32;
    let b2 = header[2] as u32;
    let b3 = header[3] as u32;
    let r = b0 | (b1 << 8) | (b2 << 16) | (b3 << 24);
    assert(r == b0 + 256 * b1 + 65536 * b2 + 16777216 * b3) by (bit_vector)
        requires
            b0 < 256,
            b1 < 256,
            b2 < 256,
            b3 < 256,
            r == b0 | (b1 << 8) | (b2 << 16) | (b3 << 24),
    ;
    r
}

/// Split a buffer holding a whole frame into its payload: `None` when the
/// buffer is shorter than its header says.
pub fn decode_frame(buf: &Vec<u8>) -> (r: Option<Vec<u8>>)
    ensures
        buf@.len() < 4 ==> r is None,
        buf@.len() >= 4 ==> {
            let n = le_u32(buf@[0], buf@[1], buf@[2], buf@[3]);
            if 4 + n <= buf@.len() {
                r matches Some(p) && p@ == buf@.subrange(4, 4 + n)
            } else {
                r is None
            }
        },
{
    if buf.len() < 4 {
        return None;
    }
    let n = frame_len([buf[0], buf[1], buf[2], buf[3]]) as usize;
    if n > buf.len() - 4 {
        return None;
    }
    let mut out: Vec<u8> = Vec::new();
    let mut i: usize = 0;
    while i < n
        invariant
            n + 4 <= buf@.len(),
            buf@.len() == buf.len(),
            i <= n,
            out@ == buf@.subrange(4, 4 + i as int),
        decreases n - i,
    {
        out.push(buf[4 + i]);
        i += 1;
        assert(out@ =~= buf@.subrange(4, 4 + i as int));
    }
    Some(out)
}

/// Decoding an encoded frame gives the payload back, for any payload whose
/// length fits the 32-bit header.
pub proof fn lemma_frame_roundtrip(payload: Seq<u8>)
    requires
        payload.len() < 0x1_0000_0000,
    ensures
        frame_of(payload).len() >= 4,
        le_u32(frame_of(payload)[0], frame_of(payload)[1], frame_of(payload)[2], frame_of(payload)[3])
            == payload.len(),
        frame_of(payload).subrange(4, 4 + payload.len() as int) == payload,
{
    let f = frame_of(payload);
    let n = (payload.len() % 0x1_0000_0000) as u32;
    assert(n == payload.len());
    assert(f[0] == (n % 256) as u8);
    assert(f[1] == ((n / 256) % 256) as u8);
    assert(f[2] == ((n / 65536) % 256) as u8);
    assert(f[3] == ((n / 16777216) % 256) as u8);
    assert((n % 256) as u8 + 256 * ((n / 256) % 256) as u8 + 65536 * ((n / 65536) % 256) as u8
        + 16777216 * ((n / 16777216) % 256) as u8 == n) by (bit_vector);
    assert(f.subrange(4, 4 + payload.len() as int) =~= payload);
}

/// An IPC message envelope, generic over the payload.
#[derive(Debug, Clone)]
pub struct IpcMessage<P> {
    /// Correlates requests with responses.
    pub correlation_id: CorrelationId,
    /// The sending process.
    pub sender: ProcessId,
    /// The target process.
    pub target: ProcessId,
    /// The message payload.
    pub payload: P,
    /// Creation time, in milliseconds since the Unix epoch.
    pub timestamp_ms: i64,
}

impl CorrelationId {
    /// Generate a new random correlation ID: a random version-4 UUID.
    pub fn new() -> (r: Self)
        ensures
            is_v4_uuid(r.0),
    {
        CorrelationId(new_uuid())
    }
}

impl<P> IpcMessage<P> {
    /// Create a new message with a fresh correlation id, stamped now.
    pub fn new(sender: ProcessId, target: ProcessId, payload: P) -> (r: Self)
        ensures
            r.sender == sender,
            r.target == target,
            r.payload == payload,
    {
        IpcMessage {
            correlation_id: CorrelationId::new(),
            sender,
            target,
            payload,
            timestamp_ms: now_millis(),
        }
    }

    /// Create a response: same correlation id, addressed back to the sender.
    pub fn respond(&self, sender: ProcessId, payload: P) -> (r: Self)
        ensures
            r.correlation_id == self.correlation_id,
            r.sender == sender,
            r.target@ == self.sender@,
            r.payload == payload,
    {
        IpcMessage {
            correlation_id: self.correlation_id,
            sender,
            target: ProcessId(self.sender.0.clone()),
            payload,
            timestamp_ms: now_millis(),
        }
    }
}

impl View for ProcessId {
    type V = Seq<char>;

    open spec fn view(&self) -> Seq<char> {
        self.0@
    }
}

/// The name a role is shown by (its variant name).
pub open spec fn role_name(role: ProcessRole) -> Seq<char> {
    match role {
        ProcessRole::Broker => "Broker"@,
        ProcessRole::Network => "Network"@,
        ProcessRole::Renderer => "Renderer"@,
        ProcessRole::Js => "Js"@,
        ProcessRole::Agent => "Agent"@,
    }
}

/// The name a role is shown by.
pub fn role_display(role: ProcessRole) -> (r: String)
    ensures
        r@ == role_name(role),
{
    match role {
        ProcessRole::Broker => to_owned_string("Broker"),
        ProcessRole::Network => to_owned_string("Network"),
        ProcessRole::Renderer => to_owned_string("Renderer"),
        ProcessRole::Js => to_owned_string("Js"),
        ProcessRole::Agent => to_owned_string("Agent"),
    }
}

/// What the broker read from a connected client's stream.
#[derive(Debug, Clone, Copy, PartialEq, Eq, Structural)]
pub enum ClientEvent {
    /// A message carrying a payload of this kind.
    Received(PayloadKind),
    /// The client closed the stream.
    Closed,
    /// Reading failed for another reason.
    Failed,
}

/// What the broker does next for a connected client.
#[derive(Debug, Clone)]
pub enum ClientAction {
    /// Hand the message to the broker loop.
    Forward,
    /// Hand the broker loop an error message in its place, and keep serving.
    Deny { code: String, message: String },
    /// Tell the broker loop the client left, and stop serving it.
    Disconnect { code: String, message: String },
    /// Stop serving the client.
    Stop,
}

/// The message that replaces a payload a client may not send; a client
/// without a role is named "Unknown".
pub open spec fn denial_text(role: Option<ProcessRole>) -> Seq<char> {
    let who = match role {
        Some(r) => role_name(r),
        None => "Unknown"@,
    };
    who + " is not permitted to send this payload type"@
}

/// Whether a client with `role` may send a payload of kind `k`: a client
/// without a role may send nothing (fail closed).
pub open spec fn client_allows(role: Option<ProcessRole>, k: PayloadKind) -> bool {
    match role {
        Some(r) => role_allows(r, k),
        None => false,
    }
}

/// The broker's step for a client of `role` on `event`: a permitted message
/// is forwarded, a forbidden one (any message from a client without a role)
/// is replaced by a `PERMISSION_DENIED` error (fail closed), a closed stream
/// is reported as `EOF`/`Disconnected`, and a failed read ends the session.
pub fn client_step(role: Option<ProcessRole>, event: ClientEvent) -> (r: ClientAction)
    ensures
        match event {
            ClientEvent::Received(k) => if client_allows(role, k) {
                r is Forward
            } else {
                r matches ClientAction::Deny { code, message } && code@ == "PERMISSION_DENIED"@
                    && message@ == denial_text(role)
            },
            ClientEvent::Closed => r matches ClientAction::Disconnect { code, message } && code@
                == "EOF"@ && message@ == "Disconnected"@,
            ClientEvent::Failed => r is Stop,
        },
{
    match event {
        ClientEvent::Received(k) => {
            let allowed = match role {
                Some(r) => role_may_send(r, k),
                None => false,
            };
            if allowed {
                ClientAction::Forward
            } else {
                let mut message = match role {
                    Some(r) => role_display(r),
                    None => to_owned_string("Unknown"),
                };
                push_str(&mut message, " is not permitted to send this payload type");
                ClientAction::Deny { code: to_owned_string("PERMISSION_DENIED"), message }
            }
        },
        ClientEvent::Closed => ClientAction::Disconnect {
            code: to_owned_string("EOF"),
            message: to_owned_string("Disconnected"),
        },
        ClientEvent::Failed => ClientAction::Stop,
    }
}

/// Nothing a client sends under the broker's role is ever forwarded: the
/// broker never connects as a client, so such a session fails closed.
pub proof fn lemma_broker_role_forwards_nothing(k: PayloadKind)
    ensures
        !role_allows(ProcessRole::Broker, k),
{
}

/// A client whose first message names no client role is denied every
/// payload: nothing it sends is forwarded (fail closed).
pub proof fn lemma_unknown_clients_forward_nothing(sender: Seq<char>, k: PayloadKind)
    requires
        sender != "Network"@,
        sender != "Renderer"@,
        sender != "Js"@,
        sender != "Agent"@,
    ensures
        role_of_sender(sender) is None,
        !client_allows(role_of_sender(sender), k),
{
}

/// An entry in the bus's audit log.
#[derive(Debug, Clone)]
pub struct AuditEntry {
    /// When the event happened, in milliseconds since the Unix epoch.
    pub timestamp_ms: i64,
    /// Sender process id.
    pub sender: String,
    /// Target process id.
    pub target: String,
    /// Kind of message (the payload's variant, not its content).
    pub message_type: String,
    /// Whether the message was delivered.
    pub delivered: bool,
    /// Why delivery failed, if it did.
    pub error: Option<String>,
}

/// The bus's decision before delivering a message.
#[derive(Debug)]
pub enum BusAdmission {
    /// The sender is not registered: log `entry` and fail with `error`.
    RejectSender { entry: AuditEntry, error: IpcError },
    /// The sender lacks the capability the payload needs: log `entry` and
    /// fail with `error`; nothing is delivered.
    RejectCapability { entry: AuditEntry, error: IpcError },
    /// The target is not registered: fail with this error (nothing logged).
    NoTarget(IpcError),
    /// Both ends are registered and the sender may send it: deliver.
    Deliver,
}

/// Whether a registered sender with `level` and `caps` may send a payload
/// of kind `k`: the broker may send anything; any other process needs the
/// capability the payload asks for, if it asks for one.
pub open spec fn bus_permits(level: PrivilegeLevel, caps: Seq<ProcessCapability>, k: PayloadKind) -> bool {
    level == PrivilegeLevel::Broker || (capability_for(k) matches Some(c) ==> caps.contains(c))
}

/// An audit entry for a message that was not delivered.
pub open spec fn refused_entry(
    entry: AuditEntry,
    sender: Seq<char>,
    target: Seq<char>,
    message_type: Seq<char>,
    now_ms: i64,
    why: Seq<char>,
) -> bool {
    &&& entry.timestamp_ms == now_ms
    &&& entry.sender@ == sender
    &&& entry.target@ == target
    &&& entry.message_type@ == message_type
    &&& !entry.delivered
    &&& (entry.error matches Some(e) && e@ == why)
}

/// Decide whether the bus delivers a message of kind `kind` from `sender`
/// (registered or not; when registered, with privilege `sender_level` and
/// capabilities `sender_caps`) to `target`. Checks run in this order: the
/// sender is registered, it may send the payload, the target is registered.
pub fn bus_admission(
    sender: &str,
    target: &str,
    message_type: &str,
    kind: PayloadKind,
    sender_known: bool,
    sender_level: PrivilegeLevel,
    sender_caps: &Vec<ProcessCapability>,
    target_known: bool,
    now_ms: i64,
) -> (r: BusAdmission)
    ensures
        !sender_known ==> (match r {
            BusAdmission::RejectSender { entry, error } => {
                &&& refused_entry(entry, sender@, target@, message_type@, now_ms, "Sender not registered"@)
                &&& error matches IpcError::ProcessUnreachable { process_id } && process_id@ == sender@
            },
            _ => false,
        }),
        sender_known && !bus_permits(sender_level, sender_caps@, kind) ==> (match r {
            BusAdmission::RejectCapability { entry, error } => {
                &&& refused_entry(entry, sender@, target@, message_type@, now_ms, "Missing capability"@)
                &&& error == (IpcError::PermissionDenied {
                    role: role_of_name(lowercase(sender@)),
                    required_privilege: PrivilegeLevel::Sandboxed,
                })
            },
            _ => false,
        }),
        sender_known && bus_permits(sender_level, sender_caps@, kind) && !target_known ==> (match r {
            BusAdmission::NoTarget(IpcError::ProcessUnreachable { process_id }) => process_id@
                == target@,
            _ => false,
        }),
        sender_known && bus_permits(sender_level, sender_caps@, kind) && target_known ==> r is Deliver,
{
    if !sender_known {
        let entry = AuditEntry {
            timestamp_ms: now_ms,
            sender: to_owned_string(sender),
            target: to_owned_string(target),
            message_type: to_owned_string(message_type),
            delivered: false,
            error: Some(to_owned_string("Sender not registered")),
        };
        return BusAdmission::RejectSender {
            entry,
            error: IpcError::ProcessUnreachable { process_id: to_owned_string(sender) },
        };
    }
    if sender_level != PrivilegeLevel::Broker {
        let owner = ProcessId(to_owned_string(sender));
        match validate_capability(&owner, sender_caps, kind) {
            Ok(()) => {},
            Err(error) => {
                let entry = AuditEntry {
                    timestamp_ms: now_ms,
                    sender: to_owned_string(sender),
                    target: to_owned_string(target),
                    message_type: to_owned_string(message_type),
                    delivered: false,
                    error: Some(to_owned_string("Missing capability")),
                };
                return BusAdmission::RejectCapability { entry, error };
            },
        }
    }
    if !target_known {
        return BusAdmission::NoTarget(IpcError::ProcessUnreachable { process_id: to_owned_string(target) });
    }
    BusAdmission::Deliver
}

/// The audit entry and result after a delivery attempt.
pub fn bus_delivery(sender: &str, target: &str, message_type: &str, delivered: bool, now_ms: i64) -> (r: (
    AuditEntry,
    IpcResult<()>,
))
    ensures
        r.0.timestamp_ms == now_ms,
        r.0.sender@ == sender@,
        r.0.target@ == target@,
        r.0.message_type@ == message_type@,
        r.0.delivered == delivered,
        delivered ==> r.0.error is None && r.1 is Ok,
        !delivered ==> (r.0.error matches Some(e) && e@ == "Delivery failed"@) && r.1 matches Err(
            IpcError::ChannelClosed,
        ),
{
    let entry = AuditEntry {
        timestamp_ms: now_ms,
        sender: to_owned_string(sender),
        target: to_owned_string(target),
        message_type: to_owned_string(message_type),
        delivered,
        error: if delivered {
            None
        } else {
            Some(to_owned_string("Delivery failed"))
        },
    };
    let result = if delivered {
        Ok(())
    } else {
        Err(IpcError::ChannelClosed)
    };
    (entry, result)
}

/// The bus's audit log, oldest first.
pub struct AuditLog {
    entries: Vec<AuditEntry>,
}

impl View for AuditLog {
    type V = Seq<AuditEntry>;

    closed spec fn view(&self) -> Seq<AuditEntry> {
        self.entries@
    }
}

impl AuditLog {
    /// An empty log.
    pub fn new() -> (r: Self)
        ensures
            r@.len() == 0,
    {
        AuditLog { entries: Vec::new() }
    }

    /// Append an entry.
    pub fn record(&mut self, entry: AuditEntry)
        ensures
            final(self)@ == old(self)@.push(entry),
    {
        self.entries.push(entry);
    }

    /// The entries, oldest first.
    pub fn entries(&self) -> (r: &[AuditEntry])
        ensures
            r@ == self@,
    {
        self.entries.as_slice()
    }

    /// The bus's admission of a message, with the log kept: a refused
    /// sender (unregistered, or lacking the payload's capability) gets its
    /// error and one not-delivered entry appended; a missing target gets
    /// its error with nothing logged; otherwise `Ok` says deliver now,
    /// with nothing logged yet (`bus_delivery` makes that entry).
    pub fn screen(
        &mut self,
        sender: &str,
        target: &str,
        message_type: &str,
        kind: PayloadKind,
        sender_known: bool,
        sender_level: PrivilegeLevel,
        sender_caps: &Vec<ProcessCapability>,
        target_known: bool,
        now_ms: i64,
    ) -> (r: IpcResult<()>)
        ensures
            !sender_known ==> (match r {
                Err(IpcError::ProcessUnreachable { process_id }) => process_id@ == sender@,
                _ => false,
            }) && final(self)@.len() == old(self)@.len() + 1 && final(self)@.drop_last() == old(self)@
                && refused_entry(final(self)@.last(), sender@, target@, message_type@, now_ms, "Sender not registered"@),
            sender_known && !bus_permits(sender_level, sender_caps@, kind) ==> r == Err::<(), IpcError>(
                IpcError::PermissionDenied {
                    role: role_of_name(lowercase(sender@)),
                    required_privilege: PrivilegeLevel::Sandboxed,
                },
            ) && final(self)@.len() == old(self)@.len() + 1 && final(self)@.drop_last() == old(self)@
                && refused_entry(final(self)@.last(), sender@, target@, message_type@, now_ms, "Missing capability"@),
            sender_known && bus_permits(sender_level, sender_caps@, kind) && !target_known ==> (match r {
                Err(IpcError::ProcessUnreachable { process_id }) => process_id@ == target@,
                _ => false,
            }) && final(self)@ == old(self)@,
            sender_known && bus_permits(sender_level, sender_caps@, kind) && target_known ==> r is Ok
                && final(self)@ == old(self)@,
    {
        match bus_admission(sender, target, message_type, kind, sender_known, sender_level, sender_caps, target_known, now_ms) {
            BusAdmission::RejectSender { entry, error } => {
                self.record(entry);
                Err(error)
            },
            BusAdmission::RejectCapability { entry, error } => {
                self.record(entry);
                Err(error)
            },
            BusAdmission::NoTarget(error) => Err(error),
            BusAdmission::Deliver => Ok(()),
        }
    }

    /// Remove every entry.
    pub fn clear(&mut self)
        ensures
            final(self)@.len() == 0,
    {
        self.entries.clear();
    }
}

/// How the renderer draws a tracking highlight.
#[derive(Debug, Clone, Copy, PartialEq, Eq, Structural)]
pub enum HighlightStyle {
    Reading,
    Acting,
    Done,
}

/// The animation phase of a tracking highlight.
#[derive(Debug, Clone, Copy, PartialEq, Eq, Structural)]
pub enum HighlightPhase {
    FadingIn,
    Active,
    Pulsing,
    FadingOut,
}

/// How long fading in or out takes, in milliseconds.
pub const HIGHLIGHT_FADE_MS: u64 = 200;

/// What becomes of a highlight at a frame.
#[derive(Debug, Clone, Copy, PartialEq, Eq, Structural)]
pub enum HighlightStep {
    /// Draw it in this phase; `restart` says the phase begins now.
    Keep { phase: HighlightPhase, restart: bool },
    /// It has faded out: drop it.
    Remove,
}

/// The phase a highlight moves on to after fading in: reading highlights
/// pulse, the others stay on.
pub open spec fn after_fade_in(style: HighlightStyle) -> HighlightPhase {
    if style == HighlightStyle::Reading {
        HighlightPhase::Pulsing
    } else {
        HighlightPhase::Active
    }
}

/// A highlight's phase at a frame `elapsed_ms` after its phase began: a
/// fade in ends after `HIGHLIGHT_FADE_MS`, and a fade out then removes it;
/// the steady phases last.
pub open spec fn highlight_next(style: HighlightStyle, phase: HighlightPhase, elapsed_ms: u64) -> HighlightStep {
    match phase {
        HighlightPhase::FadingIn => if elapsed_ms >= HIGHLIGHT_FADE_MS {
            HighlightStep::Keep { phase: after_fade_in(style), restart: true }
        } else {
            HighlightStep::Keep { phase, restart: false }
        },
        HighlightPhase::FadingOut => if elapsed_ms >= HIGHLIGHT_FADE_MS {
            HighlightStep::Remove
        } else {
            HighlightStep::Keep { phase, restart: false }
        },
        _ => HighlightStep::Keep { phase, restart: false },
    }
}

/// The step of a highlight at a frame (see `highlight_next`).
pub fn highlight_step(style: HighlightStyle, phase: HighlightPhase, elapsed_ms: u64) -> (r: HighlightStep)
    ensures
        r == highlight_next(style, phase, elapsed_ms),
{
    match phase {
        HighlightPhase::FadingIn => if elapsed_ms >= HIGHLIGHT_FADE_MS {
            let next = match style {
                HighlightStyle::Reading => HighlightPhase::Pulsing,
                _ => HighlightPhase::Active,
            };
            HighlightStep::Keep { phase: next, restart: true }
        } else {
            HighlightStep::Keep { phase, restart: false }
        },
        HighlightPhase::FadingOut => if elapsed_ms >= HIGHLIGHT_FADE_MS {
            HighlightStep::Remove
        } else {
            HighlightStep::Keep { phase, restart: false }
        },
        _ => HighlightStep::Keep { phase, restart: false },
    }
}

/// Only a fading-out highlight is ever removed, and a steady highlight
/// (on, or pulsing) keeps its phase and its clock.
pub proof fn lemma_highlight_lifecycle(style: HighlightStyle, phase: HighlightPhase, elapsed_ms: u64)
    ensures
        highlight_next(style, phase, elapsed_ms) == HighlightStep::Remove ==> phase == HighlightPhase::FadingOut,
        (phase == HighlightPhase::Active || phase == HighlightPhase::Pulsing) ==> highlight_next(
            style,
            phase,
            elapsed_ms,
        ) == (HighlightStep::Keep { phase, restart: false }),
{
}

} // verus!
