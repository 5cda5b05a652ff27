//! Broker policy: where each kind of message is routed, the lifecycle of
//! managed child processes, and crash recovery (a process that crashes too
//! often in quick succession is declared unrecoverable).
use vstd::prelude::*;
use crate::ipc::{capability_for, role_display, role_name, PayloadKind, ProcessCapability, ProcessRole};
use crate::text::{dec_str, dec_string, push_str, to_owned_string};

verus! {

/// The lifecycle state of a managed child process.
#[derive(Debug, Clone, Copy, PartialEq, Eq, Structural)]
pub enum ProcessStatus {
    /// Spawned, not yet registered.
    Starting,
    /// Healthy and processing messages.
    Running,
    /// Exited unexpectedly; a respawn may be attempted.
    Crashed,
    /// Crashed too many times in quick succession; never respawned.
    Unrecoverable,
}

/// Crashes within the window after which a process is unrecoverable.
pub const MAX_CRASHES: u32 = 3;

/// A crash more than this many whole seconds after the previous one starts
/// the count afresh.
pub const CRASH_WINDOW_SECS: u64 = 10;

/// The role that receives a payload; `None` means the broker handles it or
/// forwards it to the UI.
pub open spec fn route_of(k: PayloadKind) -> Option<ProcessRole> {
    match k {
        PayloadKind::DomQuery | PayloadKind::DomFillField | PayloadKind::DomClick
        | PayloadKind::SetDomHighlight | PayloadKind::ClearDomHighlight
        | PayloadKind::ClearAllDomHighlights => Some(ProcessRole::Renderer),
        PayloadKind::NetworkFetchRequest | PayloadKind::NavigateRequest => Some(
            ProcessRole::Network,
        ),
        _ => None,
    }
}

/// Determine which role should receive a given outgoing payload.
pub fn route_payload(k: PayloadKind) -> (r: Option<ProcessRole>)
    ensures
        r == route_of(k),
{
    match k {
        PayloadKind::DomQuery | PayloadKind::DomFillField | PayloadKind::DomClick
        | PayloadKind::SetDomHighlight | PayloadKind::ClearDomHighlight
        | PayloadKind::ClearAllDomHighlights => Some(ProcessRole::Renderer),
        PayloadKind::NetworkFetchRequest | PayloadKind::NavigateRequest => Some(
            ProcessRole::Network,
        ),
        PayloadKind::HilCheckpointRequest | PayloadKind::VaultRequest => None,
        PayloadKind::VaultResponse | PayloadKind::NetworkFetchResponse
        | PayloadKind::HilCheckpointResponse | PayloadKind::DomQueryResult
        | PayloadKind::DomOperationResult | PayloadKind::NavigateResponse
        | PayloadKind::AgentActionResult => None,
        PayloadKind::ProcessRegister | PayloadKind::ProcessRegistered
        | PayloadKind::ProcessShutdown | PayloadKind::Error | PayloadKind::AgentActionRequest => None,
    }
}

/// The broker never routes a message to itself, to the JS engine or to an
/// agent: only the renderer and the network process receive routed
/// messages.
pub proof fn lemma_routes_only_to_children(k: PayloadKind)
    ensures
        route_of(k) matches Some(r) ==> r == ProcessRole::Renderer || r == ProcessRole::Network,
{
}

/// A request goes to the process that holds the capability it needs: the
/// renderer for what needs DOM access, the network process for what needs
/// network access; nothing else is routed to a child.
pub proof fn lemma_routes_follow_capabilities(k: PayloadKind)
    ensures
        route_of(k) == match capability_for(k) {
            Some(ProcessCapability::DomAccess) => Some(ProcessRole::Renderer),
            Some(ProcessCapability::NetworkAccess) => Some(ProcessRole::Network),
            _ => None,
        },
{
}

/// A managed child process as the broker tracks it.
#[derive(Debug, Clone, Copy, PartialEq, Eq, Structural)]
pub struct ProcessEntry {
    /// The role this process performs.
    pub role: ProcessRole,
    /// Current lifecycle state.
    pub status: ProcessStatus,
    /// Unexpected exits counted in the current crash window.
    pub crash_count: u32,
    /// Monotonic time of the most recent crash, in milliseconds.
    pub last_crash_ms: Option<u64>,
}

/// What the broker does after recording a crash.
#[derive(Debug, Clone, Copy, PartialEq, Eq, Structural)]
pub enum CrashOutcome {
    /// No process of that role is registered.
    NotRegistered,
    /// Respawn the process (signal readiness after a delay); this is the
    /// crash count so far.
    Respawn { attempt: u32 },
    /// The process is unrecoverable; notify the UI with the crash count.
    Unrecoverable { crashes: u32 },
}

/// The entry after a crash at monotonic time `now_ms`: the count restarts
/// when the previous crash is more than the window's whole seconds ago,
/// then grows by one; at `MAX_CRASHES` the process is unrecoverable.
pub open spec fn crash_step(e: ProcessEntry, now_ms: u64) -> ProcessEntry {
    let base: u32 = match e.last_crash_ms {
        Some(last) => if (if now_ms >= last { (now_ms - last) as int } else { 0 }) / 1000 > CRASH_WINDOW_SECS {
            0
        } else {
            e.crash_count
        },
        None => e.crash_count,
    };
    let count = (base + 1) as u32;
    ProcessEntry {
        role: e.role,
        status: if count >= MAX_CRASHES {
            ProcessStatus::Unrecoverable
        } else {
            ProcessStatus::Crashed
        },
        crash_count: count,
        last_crash_ms: Some(now_ms),
    }
}

/// The managed processes, at most one per role.
#[derive(Debug, Clone)]
pub struct ProcessTable {
    entries: Vec<ProcessEntry>,
}

/// The entry for `role` among `s`, if any (the first one).
pub open spec fn entry_for(s: Seq<ProcessEntry>, role: ProcessRole) -> Option<ProcessEntry>
    decreases s.len(),
{
    if s.len() == 0 {
        None
    } else if s[0].role == role {
        Some(s[0])
    } else {
        entry_for(s.drop_first(), role)
    }
}

/// Where the broker sends a message.
#[derive(Debug, Clone, Copy, PartialEq, Eq, Structural)]
pub enum RouteDecision {
    /// Deliver to the running process of this role.
    Deliver(ProcessRole),
    /// The destination process exists but is not running: drop the message.
    NotRunning(ProcessRole),
    /// No process of the destination role is registered: drop the message.
    NotRegistered(ProcessRole),
    /// No destination role: forward to the UI channel, if one is set.
    ToUi,
}

impl View for ProcessTable {
    type V = Seq<ProcessEntry>;

    closed spec fn view(&self) -> Seq<ProcessEntry> {
        self.entries@
    }
}

impl ProcessTable {
    /// The entry tracked for `role`.
    pub open spec fn entry(&self, role: ProcessRole) -> Option<ProcessEntry> {
        entry_for(self@, role)
    }

    /// An empty table.
    pub fn new() -> (r: Self)
        ensures
            forall|role: ProcessRole| r.entry(role) is None,
    {
        ProcessTable { entries: Vec::new() }
    }

    /// Index of the entry for `role`.
    fn find(&self, role: ProcessRole) -> (r: Option<usize>)
        ensures
            match r {
                Some(i) => i < self@.len() && self@[i as int].role == role && entry_for(self@, role)
                    == Some(self@[i as int]) && forall|j: int| 0 <= j < i ==> self@[j].role != role,
                None => entry_for(self@, role) is None,
            },
    {
        let mut i: usize = 0;
        while i < self.entries.len()
            invariant
                i <= self@.len(),
                forall|j: int| 0 <= j < i ==> self@[j].role != role,
            decreases self@.len() - i,
        {
            if self.entries[i].role == role {
                proof {
                    lemma_entry_for_skip(self@, role, i as int);
                }
                return Some(i);
            }
            i += 1;
        }
        proof {
            lemma_entry_for_skip(self@, role, i as int);
        }
        None
    }

    /// Track a process of `role` with the given status and no crashes,
    /// replacing any entry of that role.
    pub fn register(&mut self, role: ProcessRole, status: ProcessStatus)
        ensures
            final(self).entry(role) == Some(
                ProcessEntry { role, status, crash_count: 0, last_crash_ms: None },
            ),
            forall|other: ProcessRole| other != role ==> final(self).entry(other) == old(self).entry(other),
    {
        let e = ProcessEntry { role, status, crash_count: 0, last_crash_ms: None };
        match self.find(role) {
            Some(i) => {
                let ghost before = self@;
                self.entries.set(i, e);
                proof {
                    lemma_entry_for_update(before, i as int, e);
                }
            },
            None => {
                let ghost before = self@;
                self.entries.push(e);
                proof {
                    lemma_entry_for_push(before, e);
                }
            },
        }
    }

    /// Track an in-process stand-in for `role`, which is running at once.
    pub fn register_mock(&mut self, role: ProcessRole)
        ensures
            final(self).entry(role) == Some(
                ProcessEntry {
                    role,
                    status: ProcessStatus::Running,
                    crash_count: 0,
                    last_crash_ms: None,
                },
            ),
            forall|other: ProcessRole| other != role ==> final(self).entry(other) == old(self).entry(other),
    {
        self.register(role, ProcessStatus::Running)
    }

    /// The status of a managed process, or `None` if not registered.
    pub fn status(&self, role: ProcessRole) -> (r: Option<ProcessStatus>)
        ensures
            r == match self.entry(role) {
                Some(e) => Some(e.status),
                None => None,
            },
    {
        match self.find(role) {
            Some(i) => Some(self.entries[i].status),
            None => None,
        }
    }

    /// The entry tracked for `role`, if any.
    pub fn get(&self, role: ProcessRole) -> (r: Option<ProcessEntry>)
        ensures
            r == self.entry(role),
    {
        match self.find(role) {
            Some(i) => Some(self.entries[i]),
            None => None,
        }
    }

    /// Whether a process for `role` is registered and running.
    pub fn is_running(&self, role: ProcessRole) -> (r: bool)
        ensures
            r == (self.entry(role) matches Some(e) && e.status == ProcessStatus::Running),
    {
        match self.status(role) {
            Some(s) => s == ProcessStatus::Running,
            None => false,
        }
    }

    /// A child reported ready: its status becomes `Running`.
    pub fn mark_ready(&mut self, role: ProcessRole)
        ensures
            final(self).entry(role) == match old(self).entry(role) {
                Some(e) => Some(ProcessEntry { status: ProcessStatus::Running, ..e }),
                None => None,
            },
            forall|other: ProcessRole| other != role ==> final(self).entry(other) == old(self).entry(other),
    {
        match self.find(role) {
            Some(i) => {
                let ghost before = self@;
                let e = ProcessEntry { status: ProcessStatus::Running, ..self.entries[i] };
                self.entries.set(i, e);
                proof {
                    lemma_entry_for_update(before, i as int, e);
                }
            },
            None => {},
        }
    }

    /// Record an unexpected exit of `role` at monotonic time `now_ms` and
    /// decide between respawning and giving up.
    pub fn handle_crash(&mut self, role: ProcessRole, now_ms: u64) -> (r: CrashOutcome)
        requires
            old(self).entry(role) matches Some(e) ==> e.crash_count < u32::MAX,
        ensures
            match old(self).entry(role) {
                Some(e) => {
                    let n = crash_step(e, now_ms);
                    &&& final(self).entry(role) == Some(n)
                    &&& r == if n.status == ProcessStatus::Unrecoverable {
                        CrashOutcome::Unrecoverable { crashes: n.crash_count }
                    } else {
                        CrashOutcome::Respawn { attempt: n.crash_count }
                    }
                },
                None => r == CrashOutcome::NotRegistered && final(self)@ == old(self)@,
            },
            forall|other: ProcessRole| other != role ==> final(self).entry(other) == old(self).entry(other),
    {
        match self.find(role) {
            Some(i) => {
                let ghost before = self@;
                let e = self.entries[i];
                let mut count = e.crash_count;
                if let Some(last) = e.last_crash_ms {
                    let elapsed = if now_ms >= last {
                        now_ms - last
                    } else {
                        0
                    };
                    if elapsed / 1000 > CRASH_WINDOW_SECS {
                        count = 0;
                    }
                }
                count = count + 1;
                let status = if count >= MAX_CRASHES {
                    ProcessStatus::Unrecoverable
                } else {
                    ProcessStatus::Crashed
                };
                let n = ProcessEntry { role: e.role, status, crash_count: count, last_crash_ms: Some(now_ms) };
                self.entries.set(i, n);
                proof {
                    lemma_entry_for_update(before, i as int, n);
                }
                if count >= MAX_CRASHES {
                    CrashOutcome::Unrecoverable { crashes: count }
                } else {
                    CrashOutcome::Respawn { attempt: count }
                }
            },
            None => CrashOutcome::NotRegistered,
        }
    }

    /// Where a message of kind `k` goes.
    pub fn route(&self, k: PayloadKind) -> (r: RouteDecision)
        ensures
            r == match route_of(k) {
                Some(role) => match self.entry(role) {
                    Some(e) => if e.status == ProcessStatus::Running {
                        RouteDecision::Deliver(role)
                    } else {
                        RouteDecision::NotRunning(role)
                    },
                    None => RouteDecision::NotRegistered(role),
                },
                None => RouteDecision::ToUi,
            },
    {
        match route_payload(k) {
            Some(role) => match self.status(role) {
                Some(s) => if s == ProcessStatus::Running {
                    RouteDecision::Deliver(role)
                } else {
                    RouteDecision::NotRunning(role)
                },
                None => RouteDecision::NotRegistered(role),
            },
            None => RouteDecision::ToUi,
        }
    }
}

/// When the first `i` entries have other roles, the entry for `role` is
/// found among the rest.
pub proof fn lemma_entry_for_skip(s: Seq<ProcessEntry>, role: ProcessRole, i: int)
    requires
        0 <= i <= s.len(),
        forall|j: int| 0 <= j < i ==> s[j].role != role,
    ensures
        entry_for(s, role) == entry_for(s.subrange(i, s.len() as int), role),
    decreases i,
{
    if i > 0 {
        lemma_entry_for_skip(s.drop_first(), role, i - 1);
        assert(s.drop_first().subrange(i - 1, s.drop_first().len() as int) =~= s.subrange(
            i,
            s.len() as int,
        ));
    } else {
        assert(s.subrange(0, s.len() as int) =~= s);
    }
}

/// Replacing the first entry of a role by an entry of the same role.
pub proof fn lemma_entry_for_update(s: Seq<ProcessEntry>, i: int, e: ProcessEntry)
    requires
        0 <= i < s.len(),
        s[i].role == e.role,
        forall|j: int| 0 <= j < i ==> s[j].role != e.role,
    ensures
        entry_for(s.update(i, e), e.role) == Some(e),
        forall|other: ProcessRole|
            other != e.role ==> entry_for(#[trigger] s.update(i, e), other) == entry_for(s, other),
    decreases i,
{
    if i > 0 {
        lemma_entry_for_update(s.drop_first(), i - 1, e);
        assert(s.update(i, e).drop_first() =~= s.drop_first().update(i - 1, e));
        assert forall|other: ProcessRole| other != e.role implies entry_for(
            #[trigger] s.update(i, e),
            other,
        ) == entry_for(s, other) by {
            assert(entry_for(s.drop_first().update(i - 1, e), other) == entry_for(
                s.drop_first(),
                other,
            ));
        }
    } else {
        assert(s.update(0, e).drop_first() =~= s.drop_first());
        assert forall|other: ProcessRole| other != e.role implies entry_for(
            #[trigger] s.update(i, e),
            other,
        ) == entry_for(s, other) by {
        }
    }
}

/// Appending an entry for a role that had none.
pub proof fn lemma_entry_for_push(s: Seq<ProcessEntry>, e: ProcessEntry)
    requires
        entry_for(s, e.role) is None,
    ensures
        entry_for(s.push(e), e.role) == Some(e),
        forall|other: ProcessRole|
            other != e.role ==> entry_for(#[trigger] s.push(e), other) == entry_for(s, other),
    decreases s.len(),
{
    if s.len() > 0 {
        lemma_entry_for_push(s.drop_first(), e);
        assert(s.push(e).drop_first() =~= s.drop_first().push(e));
        assert forall|other: ProcessRole| other != e.role implies entry_for(
            #[trigger] s.push(e),
            other,
        ) == entry_for(s, other) by {
            assert(entry_for(s.drop_first().push(e), other) == entry_for(s.drop_first(), other));
        }
    } else {
        assert(s.push(e).drop_first() =~= Seq::<ProcessEntry>::empty());
        assert forall|other: ProcessRole| other != e.role implies entry_for(
            #[trigger] s.push(e),
            other,
        ) == entry_for(s, other) by {
            assert(entry_for(Seq::<ProcessEntry>::empty(), other) is None);
        }
    }
}

/// Three crashes of a freshly registered process, each within the crash
/// window of the previous one, make it unrecoverable.
pub proof fn lemma_three_quick_crashes_unrecoverable(role: ProcessRole, t1: u64, t2: u64, t3: u64)
    requires
        t1 <= t2 <= t3,
        t2 - t1 < 11000,
        t3 - t2 < 11000,
    ensures
        crash_step(
            crash_step(
                crash_step(
                    ProcessEntry { role, status: ProcessStatus::Running, crash_count: 0, last_crash_ms: None },
                    t1,
                ),
                t2,
            ),
            t3,
        ).status == ProcessStatus::Unrecoverable,
{
    let e0 = ProcessEntry { role, status: ProcessStatus::Running, crash_count: 0, last_crash_ms: None };
    let e1 = crash_step(e0, t1);
    assert(e1.crash_count == 1);
    assert((t2 - t1) as int / 1000 <= 10);
    let e2 = crash_step(e1, t2);
    assert(e2.crash_count == 2);
    assert((t3 - t2) as int / 1000 <= 10);
    let e3 = crash_step(e2, t3);
    assert(e3.crash_count == 3);
}

/// A crash more than the window after the previous one restarts the count:
/// the process is respawned, never declared unrecoverable.
pub proof fn lemma_spaced_crash_respawns(e: ProcessEntry, now_ms: u64)
    requires
        e.last_crash_ms matches Some(last) && last <= now_ms && now_ms - last >= 11000,
    ensures
        crash_step(e, now_ms).crash_count == 1,
        crash_step(e, now_ms).status == ProcessStatus::Crashed,
{
}

/// The command-line role argument a child process is started with; the
/// broker never starts a second broker.
pub open spec fn spawn_arg_of(role: ProcessRole) -> Option<Seq<char>> {
    match role {
        ProcessRole::Renderer => Some("--role=renderer"@),
        ProcessRole::Network => Some("--role=network"@),
        ProcessRole::Js => Some("--role=js"@),
        ProcessRole::Agent => Some("--role=agent"@),
        ProcessRole::Broker => None,
    }
}

/// The argument to start a child of `role` with, or `None` for the broker
/// ("Cannot spawn a second broker").
pub fn spawn_arg(role: ProcessRole) -> (r: Option<String>)
    ensures
        match r {
            Some(a) => spawn_arg_of(role) == Some(a@),
            None => spawn_arg_of(role) is None,
        },
{
    match role {
        ProcessRole::Renderer => Some(to_owned_string("--role=renderer")),
        ProcessRole::Network => Some(to_owned_string("--role=network")),
        ProcessRole::Js => Some(to_owned_string("--role=js")),
        ProcessRole::Agent => Some(to_owned_string("--role=agent")),
        ProcessRole::Broker => None,
    }
}

/// The shutdown reason sent to the UI for an unrecoverable process.
pub open spec fn unrecoverable_text(role: ProcessRole, crashes: u32) -> Seq<char> {
    role_name(role) + " process crashed "@ + dec_str(crashes as nat) + " times and is unrecoverable"@
}

/// The shutdown reason sent to the UI for an unrecoverable process.
pub fn unrecoverable_reason(role: ProcessRole, crashes: u32) -> (r: String)
    ensures
        r@ == unrecoverable_text(role, crashes),
{
    let mut s = role_display(role);
    push_str(&mut s, " process crashed ");
    let n = dec_string(crashes as u64);
    push_str(&mut s, n.as_str());
    push_str(&mut s, " times and is unrecoverable");
    s
}

/// An event of the broker loop, by what the broker reads of it.
#[derive(Debug, Clone, Copy, PartialEq, Eq, Structural)]
pub enum BrokerEvent {
    /// A child sent a message carrying a payload of this kind.
    FromChild { role: ProcessRole, kind: PayloadKind },
    /// A child exited unexpectedly.
    ProcessExited(ProcessRole),
    /// A child is ready to accept work.
    ProcessReady(ProcessRole),
}

/// What the broker loop does after an event.
#[derive(Debug, Clone, Copy, PartialEq, Eq, Structural)]
pub enum BrokerAction {
    /// Deliver or drop the message as decided.
    Route(RouteDecision),
    /// Act on the crash: respawn after a delay, or tell the UI.
    Crash(CrashOutcome),
    /// Nothing more to do.
    Idle,
}

impl ProcessTable {
    /// One step of the broker loop: route a child's message, record a crash
    /// at monotonic time `now_ms`, or mark a child ready.
    pub fn on_event(&mut self, event: BrokerEvent, now_ms: u64) -> (r: BrokerAction)
        requires
            event matches BrokerEvent::ProcessExited(role) ==> (old(self).entry(role) matches Some(
                e,
            ) ==> e.crash_count < u32::MAX),
        ensures
            match event {
                BrokerEvent::FromChild { kind, .. } => final(self)@ == old(self)@ && r
                    == BrokerAction::Route(match route_of(kind) {
                    Some(role) => match old(self).entry(role) {
                        Some(e) => if e.status == ProcessStatus::Running {
                            RouteDecision::Deliver(role)
                        } else {
                            RouteDecision::NotRunning(role)
                        },
                        None => RouteDecision::NotRegistered(role),
                    },
                    None => RouteDecision::ToUi,
                }),
                BrokerEvent::ProcessExited(role) => match old(self).entry(role) {
                    Some(e) => {
                        let n = crash_step(e, now_ms);
                        &&& final(self).entry(role) == Some(n)
                        &&& r == BrokerAction::Crash(
                            if n.status == ProcessStatus::Unrecoverable {
                                CrashOutcome::Unrecoverable { crashes: n.crash_count }
                            } else {
                                CrashOutcome::Respawn { attempt: n.crash_count }
                            },
                        )
                    },
                    None => r == BrokerAction::Crash(CrashOutcome::NotRegistered) && final(self)@ == old(
                        self,
                    )@,
                },
                BrokerEvent::ProcessReady(role) => r == BrokerAction::Idle && final(self).entry(role)
                    == match old(self).entry(role) {
                    Some(e) => Some(ProcessEntry { status: ProcessStatus::Running, ..e }),
                    None => None,
                },
            },
            event matches BrokerEvent::ProcessExited(role) ==> forall|other: ProcessRole|
                other != role ==> final(self).entry(other) == old(self).entry(other),
            event matches BrokerEvent::ProcessReady(role) ==> forall|other: ProcessRole|
                other != role ==> final(self).entry(other) == old(self).entry(other),
    {
        match event {
            BrokerEvent::FromChild { kind, .. } => BrokerAction::Route(self.route(kind)),
            BrokerEvent::ProcessExited(role) => BrokerAction::Crash(self.handle_crash(role, now_ms)),
            BrokerEvent::ProcessReady(role) => {
                self.mark_ready(role);
                BrokerAction::Idle
            },
        }
    }
}

} // verus!
