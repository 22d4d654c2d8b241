//! The kernel session manager and execution coordinator. It maps an editing
//! context (a session key) to at most one live kernel connection, launches
//! lazily through an external process collaborator, queues executions that
//! arrive while a launch is in flight so a key never launches twice, and
//! submits tagged requests over the session's control channel.
//!
//! Launching a kernel takes arbitrary wall-clock time and is driven outside
//! this core: `execute` and `acquire_control_channel` hand out a
//! [`LaunchRequest`] when a kernel must be started, and the driver reports
//! back through [`RuntimeManager::launch_completed`] or
//! [`RuntimeManager::launch_failed`]. All decisions stay here.

use vstd::prelude::*;

verus! {

use crate::catalog::{first_match, same_spec, RuntimeCatalog, RuntimeSpec};
use crate::channel::{clone_control_sender, send_request, ControlSender, UpdateReceiver};
use crate::messages::{make_execution_request, ExecutionId, Request, RequestPayload};

/// One live kernel connection: the session key that owns it, the sender
/// used to submit requests, and the process collaborator's token for the
/// underlying interpreter process.
pub struct KernelSession {
    pub key: u64,
    pub shell_request_tx: ControlSender,
    pub process: u64,
}

/// The state kept for one session key: either a launch is in flight, with
/// the executions that arrived meanwhile queued behind it, or the kernel is
/// connected and live.
pub enum SessionSlot {
    Launching { spec: RuntimeSpec, queued: Vec<Request> },
    Live { session: KernelSession },
}

/// One key's slot in the session map.
pub struct SessionEntry {
    pub key: u64,
    pub slot: SessionSlot,
}

/// Asks the driver to start a kernel process for `spec` on behalf of `key`
/// and to report the outcome back to the manager under the same key.
pub struct LaunchRequest {
    pub key: u64,
    pub spec: RuntimeSpec,
}

/// What acquiring a control channel decided.
pub enum AcquireOutcome {
    /// The session is live; here is a sender feeding its control channel.
    Ready(ControlSender),
    /// Another acquisition already started a launch for this key; its
    /// outcome will serve this caller too.
    AlreadyLaunching,
    /// No session exists: the caller must drive this launch and report back.
    MustLaunch(LaunchRequest),
}

/// The failures this core surfaces. None of them is fatal to the process
/// hosting the core; each is scoped to one session key.
#[derive(Debug)]
pub enum ExecuteError {
    /// No catalog spec matches the requested language; user-correctable.
    RuntimeNotFound(String),
    /// The process collaborator could not start the kernel; retryable by
    /// calling again, which relaunches from scratch.
    KernelLaunchFailed(String),
    /// The control channel is closed: the kernel died after being acquired.
    SubmissionFailed,
}

/// What an accepted execution hands back to its caller: the private stream
/// of updates for this request, and the launch the caller must drive first,
/// if the request found no session and started one.
pub struct ExecuteTicket {
    pub updates: UpdateReceiver,
    pub launch: Option<LaunchRequest>,
}

/// No two entries share a key: the map shape that keeps one session per key.
pub open spec fn distinct_keys(entries: Seq<SessionEntry>) -> bool {
    forall|i: int, j: int|
        0 <= i < j < entries.len() ==> entries[i].key != entries[j].key
}

/// The slot stored for `key`, scanning from the front.
pub open spec fn slot_of(entries: Seq<SessionEntry>, key: u64) -> Option<SessionSlot>
    decreases entries.len(),
{
    if entries.len() == 0 {
        None
    } else if entries[0].key == key {
        Some(entries[0].slot)
    } else {
        slot_of(entries.drop_first(), key)
    }
}

/// A slot holding a connected kernel.
pub open spec fn is_live(s: Option<SessionSlot>) -> bool {
    s matches Some(SessionSlot::Live { .. })
}

/// A slot holding a launch in flight.
pub open spec fn is_launching(s: Option<SessionSlot>) -> bool {
    s matches Some(SessionSlot::Launching { .. })
}

/// Every key other than `key` resolves to the same slot before and after.
pub open spec fn unchanged_except(
    pre: Seq<SessionEntry>,
    post: Seq<SessionEntry>,
    key: u64,
) -> bool {
    forall|k: u64| k != key ==> slot_of(post, k) == slot_of(pre, k)
}

/// A prefix free of `key` does not change the slot lookup.
proof fn lemma_slot_of_skip(entries: Seq<SessionEntry>, key: u64, i: int)
    requires
        0 <= i <= entries.len(),
        forall|j: int| 0 <= j < i ==> entries[j].key != key,
    ensures
        slot_of(entries, key) == slot_of(entries.skip(i), key),
    decreases i,
{
    if i > 0 {
        lemma_slot_of_skip(entries, key, i - 1);
        assert(entries.skip(i - 1)[0] == entries[i - 1]);
        assert(entries.skip(i - 1).drop_first() =~= entries.skip(i));
    } else {
        assert(entries.skip(0) =~= entries);
    }
}

/// A key resolves to nothing exactly when no entry carries it.
proof fn lemma_slot_of_absent(entries: Seq<SessionEntry>, key: u64)
    ensures
        (slot_of(entries, key) is None) <==> (forall|j: int|
            0 <= j < entries.len() ==> entries[j].key != key),
    decreases entries.len(),
{
    if entries.len() > 0 {
        lemma_slot_of_absent(entries.drop_first(), key);
        if slot_of(entries, key) is None {
            assert forall|j: int| 0 <= j < entries.len() implies entries[j].key != key by {
                if j >= 1 {
                    assert(entries.drop_first()[j - 1] == entries[j]);
                }
            }
        }
        if forall|j: int| 0 <= j < entries.len() ==> entries[j].key != key {
            assert forall|j: int|
                0 <= j < entries.drop_first().len() implies entries.drop_first()[j].key != key by {
                assert(entries.drop_first()[j] == entries[j + 1]);
            }
        }
    }
}

/// Appending an entry only adds a binding for a key that had none.
proof fn lemma_slot_of_push(entries: Seq<SessionEntry>, e: SessionEntry, key: u64)
    ensures
        slot_of(entries.push(e), key) == (if slot_of(entries, key) is Some {
            slot_of(entries, key)
        } else if e.key == key {
            Some(e.slot)
        } else {
            None
        }),
    decreases entries.len(),
{
    let post = entries.push(e);
    assert(post.len() == entries.len() + 1);
    if entries.len() == 0 {
        assert(post[0] == e);
        assert(slot_of(entries, key) is None);
        if e.key != key {
            assert(post.drop_first() =~= Seq::<SessionEntry>::empty());
            assert(slot_of(post.drop_first(), key) is None);
        }
    } else {
        assert(post[0] == entries[0]);
        if entries[0].key == key {
            assert(slot_of(post, key) == Some(entries[0].slot));
            assert(slot_of(entries, key) == Some(entries[0].slot));
        } else {
            assert(post.drop_first() =~= entries.drop_first().push(e));
            lemma_slot_of_push(entries.drop_first(), e, key);
            assert(slot_of(post, key) == slot_of(entries.drop_first().push(e), key));
            assert(slot_of(entries, key) == slot_of(entries.drop_first(), key));
        }
    }
}

/// Replacing an entry in place rebinds its key and nothing else.
proof fn lemma_slot_of_update(entries: Seq<SessionEntry>, i: int, e: SessionEntry, key: u64)
    requires
        0 <= i < entries.len(),
        e.key == entries[i].key,
        distinct_keys(entries),
    ensures
        slot_of(entries.update(i, e), key) == (if entries[i].key == key {
            Some(e.slot)
        } else {
            slot_of(entries, key)
        }),
    decreases entries.len(),
{
    let post = entries.update(i, e);
    if i == 0 {
        assert(post[0] == e);
        if entries[0].key != key {
            assert(post.drop_first() =~= entries.drop_first());
        }
    } else {
        assert(post[0] == entries[0]);
        if entries[0].key == key {
        } else {
            assert(post.drop_first() =~= entries.drop_first().update(i - 1, e));
            assert(forall|a: int, b: int|
                0 <= a < b < entries.drop_first().len() ==> #[trigger] entries.drop_first()[a].key
                    != #[trigger] entries.drop_first()[b].key);
            lemma_slot_of_update(entries.drop_first(), i - 1, e, key);
        }
    }
}

/// Removing an entry unbinds its key and nothing else.
proof fn lemma_slot_of_remove(entries: Seq<SessionEntry>, i: int, key: u64)
    requires
        0 <= i < entries.len(),
        distinct_keys(entries),
    ensures
        slot_of(entries.remove(i), key) == (if entries[i].key == key {
            None
        } else {
            slot_of(entries, key)
        }),
    decreases entries.len(),
{
    let post = entries.remove(i);
    if i == 0 {
        assert(post =~= entries.drop_first());
        if entries[0].key == key {
            lemma_slot_of_absent(entries.drop_first(), key);
            assert(forall|j: int|
                0 <= j < entries.drop_first().len() ==> #[trigger] entries.drop_first()[j]
                    == entries[j + 1]);
        }
    } else {
        assert(post[0] == entries[0]);
        if entries[0].key != key {
            assert(post.drop_first() =~= entries.drop_first().remove(i - 1));
            assert(forall|a: int, b: int|
                0 <= a < b < entries.drop_first().len() ==> #[trigger] entries.drop_first()[a].key
                    != #[trigger] entries.drop_first()[b].key);
            lemma_slot_of_remove(entries.drop_first(), i - 1, key);
        }
    }
}

/// Distinctness survives removing an entry.
proof fn lemma_distinct_remove(entries: Seq<SessionEntry>, i: int)
    requires
        0 <= i < entries.len(),
        distinct_keys(entries),
    ensures
        distinct_keys(entries.remove(i)),
{
    let post = entries.remove(i);
    assert forall|a: int, b: int| 0 <= a < b < post.len() implies post[a].key != post[b].key by {
        assert(post[a] == (if a < i {
            entries[a]
        } else {
            entries[a + 1]
        }));
        assert(post[b] == (if b < i {
            entries[b]
        } else {
            entries[b + 1]
        }));
    }
}

/// What acquiring a control channel for `key` and `lang` does to the
/// manager and hands back. A live session is reused no matter which
/// language was asked for; a launch in flight is joined, never doubled; an
/// absent session resolves the language against the catalog, first match
/// wins, and a miss rejects without any launch.
pub open spec fn acquire_post(
    pre: RuntimeManager,
    post: RuntimeManager,
    key: u64,
    lang: Seq<char>,
    r: Result<AcquireOutcome, ExecuteError>,
) -> bool {
    &&& post.runtimes() == pre.runtimes()
    &&& unchanged_except(pre.entries(), post.entries(), key)
    &&& match slot_of(pre.entries(), key) {
        Some(SessionSlot::Live { .. }) => {
            &&& post.entries() == pre.entries()
            &&& r matches Ok(AcquireOutcome::Ready(_))
        },
        Some(SessionSlot::Launching { .. }) => {
            &&& post.entries() == pre.entries()
            &&& r matches Ok(AcquireOutcome::AlreadyLaunching)
        },
        None => match first_match(pre.runtimes(), lang) {
            None => {
                &&& post.entries() == pre.entries()
                &&& r matches Err(ExecuteError::RuntimeNotFound(l)) && l@ == lang
            },
            Some(spec) => {
                &&& match slot_of(post.entries(), key) {
                    Some(SessionSlot::Launching { spec: stored, queued }) => {
                        &&& same_spec(stored, spec)
                        &&& queued@.len() == 0
                    },
                    _ => false,
                }
                &&& r matches Ok(AcquireOutcome::MustLaunch(lr)) && lr.key == key && same_spec(
                    lr.spec,
                    spec,
                )
            },
        },
    }
}

/// What one `execute` call does to the manager and hands back. On a live
/// session the tagged request is submitted at once and only a dead channel
/// fails it; while a launch is in flight the request joins that launch's
/// queue, tagged with its own id, and no second launch starts; with no
/// session the catalog decides: a miss is `RuntimeNotFound` with nothing
/// launched, a hit installs a launch in flight holding exactly this request
/// and hands the caller the launch to drive.
pub open spec fn execute_post(
    pre: RuntimeManager,
    post: RuntimeManager,
    key: u64,
    lang: Seq<char>,
    id: ExecutionId,
    code: Seq<char>,
    r: Result<ExecuteTicket, ExecuteError>,
) -> bool {
    &&& post.runtimes() == pre.runtimes()
    &&& unchanged_except(pre.entries(), post.entries(), key)
    &&& match slot_of(pre.entries(), key) {
        Some(SessionSlot::Live { .. }) => {
            &&& post.entries() == pre.entries()
            &&& match r {
                Ok(t) => t.launch is None,
                Err(e) => e is SubmissionFailed,
            }
        },
        Some(SessionSlot::Launching { spec, queued }) => {
            &&& match slot_of(post.entries(), key) {
                Some(SessionSlot::Launching { spec: stored, queued: q2 }) => {
                    &&& stored == spec
                    &&& q2@.len() == queued@.len() + 1
                    &&& q2@.subrange(0, queued@.len() as int) == queued@
                    &&& q2@.last().execution_id == id
                    &&& q2@.last().payload matches RequestPayload::Execute { code: c } && c@
                        == code
                },
                _ => false,
            }
            &&& r matches Ok(t) && t.launch is None
        },
        None => match first_match(pre.runtimes(), lang) {
            None => {
                &&& post.entries() == pre.entries()
                &&& r matches Err(ExecuteError::RuntimeNotFound(l)) && l@ == lang
            },
            Some(spec) => {
                &&& match slot_of(post.entries(), key) {
                    Some(SessionSlot::Launching { spec: stored, queued: q2 }) => {
                        &&& same_spec(stored, spec)
                        &&& q2@.len() == 1
                        &&& q2@[0].execution_id == id
                        &&& q2@[0].payload matches RequestPayload::Execute { code: c } && c@
                            == code
                    },
                    _ => false,
                }
                &&& r matches Ok(t) && t.launch matches Some(lr) && lr.key == key && same_spec(
                    lr.spec,
                    spec,
                )
            },
        },
    }
}

/// What a successful launch report does to the manager: the in-flight slot
/// for `key` becomes a live session holding exactly the reported sender and
/// process, and every other key keeps its slot. Deliberately no mention of
/// the handshake: a probe that timed out installs the same session as one
/// that replied.
pub open spec fn launch_completed_post(
    pre: RuntimeManager,
    post: RuntimeManager,
    key: u64,
    shell_request_tx: ControlSender,
    process: u64,
) -> bool {
    &&& post.runtimes() == pre.runtimes()
    &&& unchanged_except(pre.entries(), post.entries(), key)
    &&& slot_of(post.entries(), key) == Some(
        SessionSlot::Live {
            session: KernelSession { key, shell_request_tx, process },
        },
    )
}

/// LAW: for any session key, at most one session exists at any observation
/// point: two entries of a well-formed manager that share a key are one
/// and the same entry.
pub proof fn lemma_one_session_per_key(m: RuntimeManager, i: int, j: int)
    requires
        m.wf(),
        0 <= i < m.entries().len(),
        0 <= j < m.entries().len(),
        m.entries()[i].key == m.entries()[j].key,
    ensures
        i == j,
{
    if i < j {
        assert(m.entries()[i].key != m.entries()[j].key);
    } else if j < i {
        assert(m.entries()[j].key != m.entries()[i].key);
    }
}

/// LAW: requesting a language absent from the runtime catalog yields
/// `RuntimeNotFound` naming that language, and no launch is attempted: the
/// session map is left exactly as it was.
pub proof fn lemma_missing_runtime_rejects(
    pre: RuntimeManager,
    post: RuntimeManager,
    key: u64,
    lang: Seq<char>,
    id: ExecutionId,
    code: Seq<char>,
    r: Result<ExecuteTicket, ExecuteError>,
)
    requires
        execute_post(pre, post, key, lang, id, code, r),
        slot_of(pre.entries(), key) is None,
        first_match(pre.runtimes(), lang) is None,
    ensures
        r matches Err(ExecuteError::RuntimeNotFound(l)) && l@ == lang,
        post.entries() == pre.entries(),
{
}

/// LAW: two executions issued back-to-back for one key before its launch
/// completes cause exactly one launch: the first call hands out the launch,
/// the second only joins its queue, and afterwards both requests wait on
/// the one in-flight launch, each tagged with its own id.
pub proof fn lemma_single_launch_for_concurrent_executes(
    pre: RuntimeManager,
    mid: RuntimeManager,
    post: RuntimeManager,
    key: u64,
    lang1: Seq<char>,
    lang2: Seq<char>,
    id1: ExecutionId,
    id2: ExecutionId,
    code1: Seq<char>,
    code2: Seq<char>,
    r1: Result<ExecuteTicket, ExecuteError>,
    r2: Result<ExecuteTicket, ExecuteError>,
)
    requires
        slot_of(pre.entries(), key) is None,
        first_match(pre.runtimes(), lang1) is Some,
        execute_post(pre, mid, key, lang1, id1, code1, r1),
        execute_post(mid, post, key, lang2, id2, code2, r2),
    ensures
        r1 matches Ok(t1) && t1.launch is Some,
        r2 matches Ok(t2) && t2.launch is None,
        match slot_of(post.entries(), key) {
            Some(SessionSlot::Launching { queued, .. }) => {
                &&& queued@.len() == 2
                &&& queued@[0].execution_id == id1
                &&& queued@[1].execution_id == id2
            },
            _ => false,
        },
{
    let q1 = match slot_of(mid.entries(), key) {
        Some(SessionSlot::Launching { queued, .. }) => queued,
        _ => arbitrary(),
    };
    let q2 = match slot_of(post.entries(), key) {
        Some(SessionSlot::Launching { queued, .. }) => queued,
        _ => arbitrary(),
    };
    assert(q2@.subrange(0, 1) == q1@);
    assert(q2@[0] == q2@.subrange(0, 1)[0]);
}

/// LAW: a handshake that never replies within its timeout still yields a
/// usable session. The state a launch report installs never depends on
/// whether the probe was answered: the session for the key is live either
/// way, and every key resolves identically under the two outcomes.
pub proof fn lemma_handshake_timeout_still_yields_session(
    pre: RuntimeManager,
    post_replied: RuntimeManager,
    post_timed_out: RuntimeManager,
    key: u64,
    shell_request_tx: ControlSender,
    process: u64,
)
    requires
        launch_completed_post(pre, post_replied, key, shell_request_tx, process),
        launch_completed_post(pre, post_timed_out, key, shell_request_tx, process),
    ensures
        is_live(slot_of(post_replied.entries(), key)),
        forall|k: u64|
            slot_of(post_replied.entries(), k) == slot_of(post_timed_out.entries(), k),
{
    assert forall|k: u64|
        slot_of(post_replied.entries(), k) == slot_of(post_timed_out.entries(), k) by {
        if k != key {
            assert(slot_of(post_replied.entries(), k) == slot_of(pre.entries(), k));
        }
    }
}

/// LAW: while a session is live for a key, an execution for that key
/// reuses it whatever language is requested: the map is untouched, no
/// launch is handed out, and only a dead control channel can fail the call.
pub proof fn lemma_live_session_reused_for_any_language(
    pre: RuntimeManager,
    post: RuntimeManager,
    key: u64,
    lang: Seq<char>,
    id: ExecutionId,
    code: Seq<char>,
    r: Result<ExecuteTicket, ExecuteError>,
)
    requires
        execute_post(pre, post, key, lang, id, code, r),
        is_live(slot_of(pre.entries(), key)),
    ensures
        post.entries() == pre.entries(),
        r matches Ok(t) ==> t.launch is None,
        r matches Err(e) ==> e is SubmissionFailed,
{
}

/// The per-workspace manager: the runtime catalog it resolves languages
/// against, and the session map it owns exclusively.
pub struct RuntimeManager {
    catalog: RuntimeCatalog,
    sessions: Vec<SessionEntry>,
}

impl RuntimeManager {
    /// The runtime specs currently discoverable.
    pub closed spec fn runtimes(&self) -> Seq<RuntimeSpec> {
        self.catalog@
    }

    /// The session map as a sequence of entries.
    pub closed spec fn entries(&self) -> Seq<SessionEntry> {
        self.sessions@
    }

    /// The map invariant: one entry per key, so one session per key.
    pub open spec fn wf(&self) -> bool {
        distinct_keys(self.entries())
    }

    /// A manager that knows no runtimes and holds no sessions.
    pub fn new() -> (r: RuntimeManager)
        ensures
            r.wf(),
            r.runtimes() =~= Seq::<RuntimeSpec>::empty(),
            r.entries() =~= Seq::<SessionEntry>::empty(),
    {
        RuntimeManager { catalog: RuntimeCatalog::new(), sessions: Vec::new() }
    }

    /// Atomically replaces the runtime catalog, as the discovery
    /// collaborator does once its pass completes. Sessions are untouched.
    pub fn set_runtimes(&mut self, specs: Vec<RuntimeSpec>)
        ensures
            final(self).runtimes() == specs@,
            final(self).entries() == old(self).entries(),
            old(self).wf() ==> final(self).wf(),
    {
        self.catalog.set(specs);
    }

    /// The single point of truth for "is a kernel running for this context".
    pub fn is_kernel_running(&self, session_key: u64) -> (r: bool)
        ensures
            r == is_live(slot_of(self.entries(), session_key)),
    {
        match self.find_entry(session_key) {
            Some(i) => match &self.sessions[i].slot {
                SessionSlot::Live { .. } => true,
                SessionSlot::Launching { .. } => false,
            },
            None => false,
        }
    }

    /// Whether a launch for `session_key` is currently in flight: exactly
    /// then may its driver report completion or failure.
    pub fn is_launch_in_flight(&self, session_key: u64) -> (r: bool)
        ensures
            r == is_launching(slot_of(self.entries(), session_key)),
    {
        match self.find_entry(session_key) {
            Some(i) => match &self.sessions[i].slot {
                SessionSlot::Launching { .. } => true,
                SessionSlot::Live { .. } => false,
            },
            None => false,
        }
    }

    /// The position of `session_key` in the map, if it is bound.
    fn find_entry(&self, session_key: u64) -> (r: Option<usize>)
        ensures
            match r {
                Some(i) => {
                    &&& i < self.entries().len()
                    &&& self.entries()[i as int].key == session_key
                    &&& slot_of(self.entries(), session_key) == Some(
                        self.entries()[i as int].slot,
                    )
                },
                None => slot_of(self.entries(), session_key) is None,
            },
    {
        let mut i: usize = 0;
        while i < self.sessions.len()
            invariant
                i <= self.sessions.len(),
                forall|j: int| 0 <= j < i ==> self.sessions@[j].key != session_key,
            decreases self.sessions.len() - i,
        {
            if self.sessions[i].key == session_key {
                proof {
                    lemma_slot_of_skip(self.sessions@, session_key, i as int);
                    assert(self.sessions@.skip(i as int)[0] == self.sessions@[i as int]);
                }
                return Some(i);
            }
            i += 1;
        }
        proof {
            lemma_slot_of_skip(self.sessions@, session_key, self.sessions@.len() as int);
        }
        None
    }

    /// Obtains a sender for `session_key`'s control channel: the live
    /// session's sender when one exists (no matter the language), a note
    /// that a launch is already in flight, or a launch request the caller
    /// must drive. A language absent from the catalog is rejected without
    /// any launch.
    pub fn acquire_control_channel(&mut self, session_key: u64, language: &str) -> (r: Result<
        AcquireOutcome,
        ExecuteError,
    >)
        requires
            old(self).wf(),
        ensures
            final(self).wf(),
            acquire_post(*old(self), *final(self), session_key, language@, r),
    {
        match self.find_entry(session_key) {
            Some(i) => match &self.sessions[i].slot {
                SessionSlot::Live { session } => Ok(
                    AcquireOutcome::Ready(clone_control_sender(&session.shell_request_tx)),
                ),
                SessionSlot::Launching { .. } => Ok(AcquireOutcome::AlreadyLaunching),
            },
            None => match self.catalog.find(language) {
                None => Err(ExecuteError::RuntimeNotFound(language.to_owned())),
                Some(spec) => {
                    let stored = spec.clone();
                    let handed = spec.clone();
                    let entry = SessionEntry {
                        key: session_key,
                        slot: SessionSlot::Launching { spec: stored, queued: Vec::new() },
                    };
                    proof {
                        lemma_slot_of_absent(self.sessions@, session_key);
                        lemma_slot_of_push(self.sessions@, entry, session_key);
                        assert forall|k: u64| k != session_key implies slot_of(
                            self.sessions@.push(entry),
                            k,
                        ) == slot_of(self.sessions@, k) by {
                            lemma_slot_of_push(self.sessions@, entry, k);
                        }
                    }
                    self.sessions.push(entry);
                    Ok(AcquireOutcome::MustLaunch(LaunchRequest { key: session_key, spec: handed }))
                },
            },
        }
    }

    /// Submits `code` for execution under `session_key`, tagged with
    /// `execution_id`, and returns the private stream of updates for this
    /// request. Suspensionless: when a kernel must be launched first, the
    /// ticket carries the launch for the caller to drive, and the request
    /// waits in the launch's queue.
    pub fn execute(
        &mut self,
        session_key: u64,
        language: &str,
        execution_id: ExecutionId,
        code: String,
    ) -> (r: Result<ExecuteTicket, ExecuteError>)
        requires
            old(self).wf(),
        ensures
            final(self).wf(),
            execute_post(
                *old(self),
                *final(self),
                session_key,
                language@,
                execution_id,
                code@,
                r,
            ),
    {
        let (request, updates) = make_execution_request(execution_id, code);
        match self.find_entry(session_key) {
            Some(i) => match &self.sessions[i].slot {
                SessionSlot::Live { session } => match send_request(
                    &session.shell_request_tx,
                    request,
                ) {
                    Ok(()) => Ok(ExecuteTicket { updates, launch: None }),
                    Err(_) => Err(ExecuteError::SubmissionFailed),
                },
                SessionSlot::Launching { .. } => {
                    let ghost pre = self.sessions@;
                    let mut entry = self.sessions.remove(i);
                    match entry.slot {
                        SessionSlot::Launching { spec, queued } => {
                            let mut queued = queued;
                            let ghost q0 = queued@;
                            queued.push(request);
                            entry = SessionEntry {
                                key: session_key,
                                slot: SessionSlot::Launching { spec, queued },
                            };
                            proof {
                                assert(queued@.subrange(0, q0.len() as int) =~= q0);
                                assert(pre.remove(i as int).insert(i as int, entry) =~= pre.update(
                                    i as int,
                                    entry,
                                ));
                                lemma_slot_of_update(pre, i as int, entry, session_key);
                                assert forall|k: u64| k != session_key implies slot_of(
                                    pre.update(i as int, entry),
                                    k,
                                ) == slot_of(pre, k) by {
                                    lemma_slot_of_update(pre, i as int, entry, k);
                                }
                            }
                            self.sessions.insert(i, entry);
                            Ok(ExecuteTicket { updates, launch: None })
                        },
                        SessionSlot::Live { session } => {
                            proof {
                                assert(false);
                            }
                            self.sessions.insert(
                                i,
                                SessionEntry { key: session_key, slot: SessionSlot::Live { session } },
                            );
                            Err(ExecuteError::SubmissionFailed)
                        },
                    }
                },
            },
            None => match self.catalog.find(language) {
                None => Err(ExecuteError::RuntimeNotFound(language.to_owned())),
                Some(spec) => {
                    let stored = spec.clone();
                    let handed = spec.clone();
                    let mut queued: Vec<Request> = Vec::new();
                    queued.push(request);
                    let entry = SessionEntry {
                        key: session_key,
                        slot: SessionSlot::Launching { spec: stored, queued },
                    };
                    proof {
                        lemma_slot_of_absent(self.sessions@, session_key);
                        lemma_slot_of_push(self.sessions@, entry, session_key);
                        assert forall|k: u64| k != session_key implies slot_of(
                            self.sessions@.push(entry),
                            k,
                        ) == slot_of(self.sessions@, k) by {
                            lemma_slot_of_push(self.sessions@, entry, k);
                        }
                    }
                    self.sessions.push(entry);
                    Ok(
                        ExecuteTicket {
                            updates,
                            launch: Some(LaunchRequest { key: session_key, spec: handed }),
                        },
                    )
                },
            },
        }
    }

    /// The launch driver reports a kernel up: installs the live session for
    /// `session_key` and submits every execution queued while the launch
    /// was in flight, in arrival order. `handshake_replied` records whether
    /// the liveness probe was answered within its timeout; a timeout is
    /// deliberately not a failure, so the session installed does not depend
    /// on it. Returns, per queued execution id, whether its submission was
    /// accepted by the control channel.
    pub fn launch_completed(
        &mut self,
        session_key: u64,
        shell_request_tx: ControlSender,
        process: u64,
        handshake_replied: bool,
    ) -> (r: Vec<(ExecutionId, bool)>)
        requires
            old(self).wf(),
            is_launching(slot_of(old(self).entries(), session_key)),
        ensures
            final(self).wf(),
            launch_completed_post(
                *old(self),
                *final(self),
                session_key,
                shell_request_tx,
                process,
            ),
            match slot_of(old(self).entries(), session_key) {
                Some(SessionSlot::Launching { queued, .. }) => {
                    &&& r@.len() == queued@.len()
                    &&& forall|j: int|
                        0 <= j < r@.len() ==> r@[j].0 == queued@[j].execution_id
                },
                _ => false,
            },
    {
        let _ = handshake_replied;
        let i = match self.find_entry(session_key) {
            Some(i) => i,
            None => {
                proof {
                    assert(false);
                }
                0
            },
        };
        let ghost pre = self.sessions@;
        let entry = self.sessions.remove(i);
        let mut outcomes: Vec<(ExecutionId, bool)> = Vec::new();
        match entry.slot {
            SessionSlot::Launching { spec: _, queued } => {
                let ghost q0 = queued@;
                let mut queued = queued;
                while queued.len() > 0
                    invariant
                        outcomes@.len() + queued@.len() == q0.len(),
                        queued@ =~= q0.subrange(outcomes@.len() as int, q0.len() as int),
                        forall|j: int|
                            0 <= j < outcomes@.len() ==> outcomes@[j].0 == q0[j].execution_id,
                    decreases queued@.len(),
                {
                    let req = queued.remove(0);
                    let id = req.execution_id;
                    let accepted = match send_request(&shell_request_tx, req) {
                        Ok(()) => true,
                        Err(_) => false,
                    };
                    outcomes.push((id, accepted));
                }
                let live = SessionEntry {
                    key: session_key,
                    slot: SessionSlot::Live {
                        session: KernelSession { key: session_key, shell_request_tx, process },
                    },
                };
                proof {
                    lemma_distinct_remove(pre, i as int);
                    assert forall|j: int|
                        0 <= j < pre.remove(i as int).len() implies #[trigger] pre.remove(
                        i as int,
                    )[j].key != session_key by {
                        assert(pre.remove(i as int)[j] == (if j < i as int {
                            pre[j]
                        } else {
                            pre[j + 1]
                        }));
                    }
                    lemma_slot_of_absent(pre.remove(i as int), session_key);
                    lemma_slot_of_push(pre.remove(i as int), live, session_key);
                    assert forall|k: u64| k != session_key implies slot_of(
                        pre.remove(i as int).push(live),
                        k,
                    ) == slot_of(pre, k) by {
                        lemma_slot_of_push(pre.remove(i as int), live, k);
                        lemma_slot_of_remove(pre, i as int, k);
                    }
                }
                self.sessions.push(live);
                outcomes
            },
            SessionSlot::Live { session } => {
                proof {
                    assert(false);
                }
                self.sessions.insert(
                    i,
                    SessionEntry { key: session_key, slot: SessionSlot::Live { session } },
                );
                outcomes
            },
        }
    }

    /// The launch driver reports that the kernel could not be started: the
    /// in-flight slot for `session_key` is dropped, so the very next call
    /// for this key retries the launch from scratch (no failure state is
    /// cached), and the executions that were queued behind the launch are
    /// handed back so the driver can fail each with `KernelLaunchFailed`.
    pub fn launch_failed(&mut self, session_key: u64) -> (r: Vec<Request>)
        requires
            old(self).wf(),
            is_launching(slot_of(old(self).entries(), session_key)),
        ensures
            final(self).wf(),
            final(self).runtimes() == old(self).runtimes(),
            slot_of(final(self).entries(), session_key) is None,
            unchanged_except(old(self).entries(), final(self).entries(), session_key),
            match slot_of(old(self).entries(), session_key) {
                Some(SessionSlot::Launching { queued, .. }) => r@ == queued@,
                _ => false,
            },
    {
        let i = match self.find_entry(session_key) {
            Some(i) => i,
            None => {
                proof {
                    assert(false);
                }
                0
            },
        };
        let ghost pre = self.sessions@;
        let entry = self.sessions.remove(i);
        proof {
            lemma_distinct_remove(pre, i as int);
            lemma_slot_of_remove(pre, i as int, session_key);
            assert forall|k: u64| k != session_key implies slot_of(pre.remove(i as int), k)
                == slot_of(pre, k) by {
                lemma_slot_of_remove(pre, i as int, k);
            }
        }
        match entry.slot {
            SessionSlot::Launching { spec: _, queued } => queued,
            SessionSlot::Live { .. } => {
                proof {
                    assert(false);
                }
                Vec::new()
            },
        }
    }

    /// The teardown hook: the owning context was disposed, so whatever is
    /// held for `session_key` is dropped. Safe to call when no session
    /// exists (a no-op). Returns the process token of the live kernel that
    /// must now be torn down, when there was one.
    pub fn remove_session(&mut self, session_key: u64) -> (r: Option<u64>)
        requires
            old(self).wf(),
        ensures
            final(self).wf(),
            final(self).runtimes() == old(self).runtimes(),
            slot_of(final(self).entries(), session_key) is None,
            unchanged_except(old(self).entries(), final(self).entries(), session_key),
            r == (match slot_of(old(self).entries(), session_key) {
                Some(SessionSlot::Live { session }) => Some(session.process),
                _ => None::<u64>,
            }),
    {
        match self.find_entry(session_key) {
            None => None,
            Some(i) => {
                let ghost pre = self.sessions@;
                let entry = self.sessions.remove(i);
                proof {
                    lemma_distinct_remove(pre, i as int);
                    lemma_slot_of_remove(pre, i as int, session_key);
                    assert forall|k: u64| k != session_key implies slot_of(
                        pre.remove(i as int),
                        k,
                    ) == slot_of(pre, k) by {
                        lemma_slot_of_remove(pre, i as int, k);
                    }
                }
                match entry.slot {
                    SessionSlot::Live { session } => Some(session.process),
                    SessionSlot::Launching { .. } => None,
                }
            },
        }
    }
}

} // verus!
