//! Managed child processes: policies, process groups and stderr events.
use crate::duration::Duration;
use crate::text::same;
use std::collections::HashSet;
use vstd::prelude::*;

verus! {

/// Seconds to wait for a child before it is terminated: thirty days.
pub const DEFAULT_WAIT_TIMEOUT_SECS: u64 = 2_592_000;

/// Milliseconds between the polite and the forced termination of a child.
pub const DEFAULT_TERMINATION_GRACE_MILLIS: u64 = 25;

/// The most bytes of stderr that are collected.
pub const DEFAULT_STDERR_LIMIT: usize = 32_768;

/// How a child process ended: its exit code, or none if a signal ended it.
#[derive(Debug, Clone, Copy, PartialEq, Eq, Structural)]
pub struct ExitStatus {
    pub code: Option<i32>,
}

impl ExitStatus {
    /// Whether the process succeeded, which is exit code zero.
    pub fn success(&self) -> (r: bool)
        ensures
            r == (self.code == Some(0i32)),
    {
        match self.code {
            Some(code) => code == 0,
            None => false,
        }
    }
}

/// A name under which the process groups of one job are found again.
#[derive(Debug, PartialEq, Eq, Hash)]
pub struct ProcessScope(String);

impl View for ProcessScope {
    type V = Seq<char>;

    closed spec fn view(&self) -> Seq<char> {
        self.0@
    }
}

impl ProcessScope {
    /// The scope with this id.
    #[must_use]
    pub fn new(id: String) -> (r: Self)
        ensures
            r@ == id@,
    {
        Self(id)
    }

    /// The id of the scope.
    pub fn id(&self) -> (r: &str)
        ensures
            r@ == self@,
    {
        self.0.as_str()
    }
}

/// Limits under which a child process runs.
#[derive(Debug, Clone, Copy)]
pub struct ManagedProcessOptions {
    wait_timeout: Duration,
    termination_grace: Duration,
    stderr_limit: usize,
}

impl Default for ManagedProcessOptions {
    fn default() -> (r: Self)
        ensures
            r.spec_wait_timeout()@ == DEFAULT_WAIT_TIMEOUT_SECS * 1_000_000_000,
            r.spec_termination_grace()@ == DEFAULT_TERMINATION_GRACE_MILLIS * 1_000_000,
            r.spec_stderr_limit() == DEFAULT_STDERR_LIMIT,
    {
        Self {
            wait_timeout: Duration::from_secs(DEFAULT_WAIT_TIMEOUT_SECS),
            termination_grace: Duration::from_millis(DEFAULT_TERMINATION_GRACE_MILLIS),
            stderr_limit: DEFAULT_STDERR_LIMIT,
        }
    }
}

impl ManagedProcessOptions {
    pub closed spec fn spec_wait_timeout(&self) -> Duration {
        self.wait_timeout
    }

    pub closed spec fn spec_termination_grace(&self) -> Duration {
        self.termination_grace
    }

    pub closed spec fn spec_stderr_limit(&self) -> usize {
        self.stderr_limit
    }

    /// These options with another time to wait for completion.
    pub fn with_wait_timeout(self, wait_timeout: Duration) -> (r: Self)
        ensures
            r.spec_wait_timeout() == wait_timeout,
            r.spec_termination_grace() == self.spec_termination_grace(),
            r.spec_stderr_limit() == self.spec_stderr_limit(),
    {
        Self { wait_timeout, ..self }
    }

    /// These options with another bound on the collected stderr.
    pub fn with_stderr_limit(self, stderr_limit: usize) -> (r: Self)
        ensures
            r.spec_stderr_limit() == stderr_limit,
            r.spec_wait_timeout() == self.spec_wait_timeout(),
            r.spec_termination_grace() == self.spec_termination_grace(),
    {
        Self { stderr_limit, ..self }
    }

    /// The time to wait for completion.
    pub fn wait_timeout(&self) -> (r: Duration)
        ensures
            r == self.spec_wait_timeout(),
    {
        self.wait_timeout
    }

    /// The time between the polite and the forced termination.
    pub fn termination_grace(&self) -> (r: Duration)
        ensures
            r == self.spec_termination_grace(),
    {
        self.termination_grace
    }

    /// The bound on the collected stderr.
    pub fn stderr_limit(&self) -> (r: usize)
        ensures
            r == self.spec_stderr_limit(),
    {
        self.stderr_limit
    }
}

/// Whether collected output is all there was.
#[derive(Debug, Clone, Copy, PartialEq, Eq, Structural)]
pub enum OutputTruncation {
    Complete,
    Truncated,
}

impl OutputTruncation {
    /// The state for output of which something was dropped, or nothing.
    pub fn from_truncated(truncated: bool) -> (r: Self)
        ensures
            r == (if truncated {
                OutputTruncation::Truncated
            } else {
                OutputTruncation::Complete
            }),
    {
        if truncated {
            Self::Truncated
        } else {
            Self::Complete
        }
    }

    /// Whether something was dropped.
    pub fn is_truncated(self) -> (r: bool)
        ensures
            r == (self is Truncated),
    {
        matches!(self, Self::Truncated)
    }
}

/// The newest bytes of some output, as many as a limit allows.
pub open spec fn newest(bytes: Seq<u8>, limit: nat) -> Seq<u8> {
    if bytes.len() <= limit {
        bytes
    } else {
        bytes.skip(bytes.len() - limit)
    }
}

/// Bounded terminal output collected after a process has exited.
///
/// Stderr keeps the newest bytes up to the configured limit; when older bytes
/// were dropped, `stderr_truncation` is `Truncated`.
#[derive(Debug, PartialEq, Eq)]
pub struct ManagedOutput {
    pub status: ExitStatus,
    pub stderr: Vec<u8>,
    pub stderr_truncation: OutputTruncation,
}

impl ManagedOutput {
    /// What is kept of the stderr of a process that has ended.
    pub fn collected(status: ExitStatus, stderr: Vec<u8>, limit: usize) -> (r: Self)
        ensures
            r.status == status,
            r.stderr@ == newest(stderr@, limit as nat),
            r.stderr_truncation is Truncated <==> stderr@.len() > limit,
    {
        let truncated = stderr.len() > limit;
        let mut stderr = stderr;
        if truncated {
            let from: usize = stderr.len() - limit;
            stderr = stderr.split_off(from);
        }
        Self { status, stderr, stderr_truncation: OutputTruncation::from_truncated(truncated) }
    }
}

/// Bytes as a child process wrote them.
#[derive(Debug, PartialEq, Eq)]
pub struct RawOutputChunk(Vec<u8>);

impl View for RawOutputChunk {
    type V = Seq<u8>;

    closed spec fn view(&self) -> Seq<u8> {
        self.0@
    }
}

impl RawOutputChunk {
    /// A chunk of these bytes.
    pub fn new(bytes: Vec<u8>) -> (r: Self)
        ensures
            r@ == bytes@,
    {
        Self(bytes)
    }

    /// The bytes, borrowed.
    pub fn as_bytes(&self) -> (r: &[u8])
        ensures
            r@ == self@,
    {
        self.0.as_slice()
    }

    /// The bytes.
    pub fn into_bytes(self) -> (r: Vec<u8>)
        ensures
            r@ == self@,
    {
        self.0
    }
}

/// The terminal status of a child process.
#[derive(Debug, Clone, Copy, PartialEq, Eq, Structural)]
pub struct ProcessDone(ExitStatus);

impl ProcessDone {
    pub closed spec fn spec_status(self) -> ExitStatus {
        self.0
    }

    pub fn new(status: ExitStatus) -> (r: Self)
        ensures
            r.spec_status() == status,
    {
        Self(status)
    }

    /// How the process ended.
    pub fn status(self) -> (r: ExitStatus)
        ensures
            r == self.spec_status(),
    {
        self.0
    }
}

/// Output that a late subscriber did not see.
#[derive(Debug, Clone, Copy, PartialEq, Eq, Structural)]
pub struct OutputReplayGap;

/// Typed process stderr stream event.
///
/// Recent stderr bytes are replayed for delayed subscribers, and `ReplayGap`
/// says that lossy buffering skipped data. `ProcessDone` means that the child
/// reached a terminal status; score streams may yield their own logical
/// completion before this event.
#[derive(Debug, PartialEq, Eq)]
pub enum ManagedEvent {
    RawStderr(RawOutputChunk),
    ReplayGap(OutputReplayGap),
    ProcessDone(ProcessDone),
}

/// What the reader of a child's output reports.
#[derive(Debug, PartialEq, Eq)]
pub enum StreamEvent {
    Chunk(Vec<u8>),
    Gap,
    Eof,
    ReadError(String),
}

/// What an event means for the stream, without the bytes it carries.
pub open spec fn event_is(event: StreamEvent, r: Result<Option<ManagedEvent>, String>) -> bool {
    match event {
        StreamEvent::Chunk(bytes) => r matches Ok(Some(ManagedEvent::RawStderr(chunk)))
            && chunk@ == bytes@,
        StreamEvent::Gap => r matches Ok(Some(ManagedEvent::ReplayGap(_))),
        StreamEvent::Eof => r matches Ok(None),
        StreamEvent::ReadError(err) => r matches Err(e) && e@ == err@,
    }
}

/// The managed event for what a reader reports, `None` at the end of output.
pub fn managed_event_from_stream_event(event: StreamEvent) -> (r: Result<
    Option<ManagedEvent>,
    String,
>)
    ensures
        event_is(event, r),
{
    match event {
        StreamEvent::Chunk(bytes) => Ok(Some(ManagedEvent::RawStderr(RawOutputChunk::new(bytes)))),
        StreamEvent::Gap => Ok(Some(ManagedEvent::ReplayGap(OutputReplayGap))),
        StreamEvent::Eof => Ok(None),
        StreamEvent::ReadError(err) => Err(err),
    }
}

/// What happens to a child whose stream is dropped before it completes.
#[derive(Debug, Clone, Copy, PartialEq, Eq, Structural)]
pub enum StreamPolicy {
    /// For encode progress: dropping before `ProcessDone` is a mistake.
    MustComplete,
    /// For score streams, which may stop at a logical result: dropping
    /// terminates the child.
    TerminateOnDrop,
}

/// How far a stderr stream has come.
#[derive(Debug, Clone, Copy, PartialEq, Eq, Structural)]
pub enum StreamPhase {
    /// Nothing has been read yet.
    Subscribed,
    /// Output is being read.
    Reading,
    /// Output has ended, the process has not been reaped.
    Waiting,
    /// `ProcessDone` or an error was yielded.
    Finished,
}

/// A stderr stream: what it yields for what the reader and the wait report.
#[derive(Debug, Clone, Copy, PartialEq, Eq, Structural)]
pub struct StderrStream {
    pub policy: StreamPolicy,
    pub phase: StreamPhase,
}

impl StderrStream {
    /// A stream that has read nothing.
    pub fn new(policy: StreamPolicy) -> (r: Self)
        ensures
            r.policy == policy,
            r.phase == StreamPhase::Subscribed,
    {
        Self { policy, phase: StreamPhase::Subscribed }
    }

    /// Whether a gap is announced for the first event: output was there before
    /// the subscriber of a terminate-on-drop stream.
    pub open spec fn announces_gap(self, ready: bool) -> bool {
        self.phase is Subscribed && self.policy is TerminateOnDrop && ready
    }

    /// The phase after an event of the reader. At the end of a stream that has
    /// only just been subscribed to, the reader is asked once more.
    pub open spec fn phase_after(self, event: StreamEvent, ready: bool) -> StreamPhase {
        match event {
            StreamEvent::ReadError(_) => StreamPhase::Finished,
            StreamEvent::Eof => if self.announces_gap(ready) {
                StreamPhase::Reading
            } else {
                StreamPhase::Waiting
            },
            _ => StreamPhase::Reading,
        }
    }

    /// Takes an event of the reader. `ready` says that it was there at once.
    /// Gives whether a gap is announced first, and then what the event means.
    pub fn on_stream_event(&mut self, event: StreamEvent, ready: bool) -> (r: (
        bool,
        Result<Option<ManagedEvent>, String>,
    ))
        requires
            old(self).phase is Subscribed || old(self).phase is Reading,
        ensures
            final(self).policy == old(self).policy,
            final(self).phase == old(self).phase_after(event, ready),
            r.0 == old(self).announces_gap(ready),
            event_is(event, r.1),
    {
        let first = matches!(self.phase, StreamPhase::Subscribed);
        let terminate = matches!(self.policy, StreamPolicy::TerminateOnDrop);
        let gap = first && terminate && ready;
        self.phase = match &event {
            StreamEvent::ReadError(_) => StreamPhase::Finished,
            StreamEvent::Eof => if gap {
                StreamPhase::Reading
            } else {
                StreamPhase::Waiting
            },
            _ => StreamPhase::Reading,
        };
        (gap, managed_event_from_stream_event(event))
    }

    /// Takes the terminal status, `None` if the wait timed out. Only now is the
    /// process done: the end of its output is not success by itself.
    pub fn on_exit(&mut self, status: Option<ExitStatus>) -> (r: Option<ProcessDone>)
        requires
            old(self).phase is Waiting,
        ensures
            final(self).policy == old(self).policy,
            final(self).phase is Finished,
            r is Some <==> status is Some,
            r matches Some(done) ==> status == Some(done.spec_status()),
    {
        self.phase = StreamPhase::Finished;
        match status {
            Some(status) => Some(ProcessDone::new(status)),
            None => None,
        }
    }

    /// Whether dropping the stream now terminates the child.
    pub fn terminates_child_on_drop(&self) -> (r: bool)
        ensures
            r == (self.phase !is Finished),
    {
        !matches!(self.phase, StreamPhase::Finished)
    }
}

/// A signal to every process of a group.
#[derive(Debug, Clone, Copy, PartialEq, Eq, Structural)]
pub enum GroupSignal {
    Pause,
    Resume,
    Terminate,
}

/// The signals that stop a scope: a paused group is resumed first, so that it
/// can act on its termination.
pub fn stop_signals() -> (r: Vec<GroupSignal>)
    ensures
        r@ == seq![GroupSignal::Resume, GroupSignal::Terminate],
{
    let mut out: Vec<GroupSignal> = Vec::new();
    out.push(GroupSignal::Resume);
    out.push(GroupSignal::Terminate);
    out
}

/// The process groups of one scope.
pub struct ScopedGroups {
    scope: ProcessScope,
    groups: HashSet<i32>,
}

/// The process groups of all live children, and those of each scope.
pub struct ProcessGroups {
    active: HashSet<i32>,
    scoped: Vec<ScopedGroups>,
}

/// The index of the entry of a scope.
pub closed spec fn scope_at(scoped: Seq<ScopedGroups>, scope: Seq<char>) -> Option<int>
    decreases scoped.len(),
{
    if scoped.len() == 0 {
        None
    } else if scoped.last().scope@ == scope {
        Some(scoped.len() - 1)
    } else {
        scope_at(scoped.drop_last(), scope)
    }
}

proof fn lemma_scope_at(scoped: Seq<ScopedGroups>, scope: Seq<char>)
    ensures
        scope_at(scoped, scope) matches Some(k) ==> 0 <= k < scoped.len() && scoped[k].scope@
            == scope,
        scope_at(scoped, scope) is None ==> forall|j: int|
            0 <= j < scoped.len() ==> (#[trigger] scoped[j]).scope@ != scope,
    decreases scoped.len(),
{
    if scoped.len() > 0 && scoped.last().scope@ != scope {
        lemma_scope_at(scoped.drop_last(), scope);
        assert forall|j: int| 0 <= j < scoped.len() - 1 implies scoped[j] == scoped.drop_last()[j] by {}
    }
}

proof fn lemma_scope_at_is(scoped: Seq<ScopedGroups>, scope: Seq<char>, k: int)
    requires
        0 <= k < scoped.len(),
        scoped[k].scope@ == scope,
        forall|i: int, j: int|
            0 <= i < j < scoped.len() ==> (#[trigger] scoped[i]).scope@ != (
            #[trigger] scoped[j]).scope@,
    ensures
        scope_at(scoped, scope) == Some(k),
{
    lemma_scope_at(scoped, scope);
}

impl ProcessGroups {
    /// The groups of all live children.
    pub closed spec fn active(&self) -> Set<i32> {
        self.active@
    }

    /// The groups of the live children of a scope.
    pub closed spec fn scoped(&self, scope: Seq<char>) -> Set<i32> {
        match scope_at(self.scoped@, scope) {
            Some(k) => self.scoped@[k].groups@,
            None => Set::empty(),
        }
    }

    /// No scope is held twice, and none is held without groups.
    pub closed spec fn well_formed(&self) -> bool {
        &&& forall|i: int, j: int|
            0 <= i < j < self.scoped@.len() ==> (#[trigger] self.scoped@[i]).scope@ != (
            #[trigger] self.scoped@[j]).scope@
        &&& forall|i: int|
            0 <= i < self.scoped@.len() ==> !(#[trigger] self.scoped@[i]).groups@.is_empty()
    }

    /// No groups.
    pub fn new() -> (r: Self)
        ensures
            r.well_formed(),
            r.active() =~= Set::empty(),
            forall|s: Seq<char>| #[trigger] r.scoped(s) =~= Set::empty(),
    {
        Self { active: HashSet::new(), scoped: Vec::new() }
    }

    /// The index of a scope's entry.
    fn find_scope(&self, scope: &ProcessScope) -> (r: Option<usize>)
        requires
            self.well_formed(),
        ensures
            r is Some <==> scope_at(self.scoped@, scope@) is Some,
            r matches Some(k) ==> k < self.scoped@.len() && scope_at(self.scoped@, scope@) == Some(
                k as int,
            ),
    {
        let mut i: usize = 0;
        while i < self.scoped.len()
            invariant
                i <= self.scoped.len(),
                self.well_formed(),
                forall|j: int| 0 <= j < i ==> (#[trigger] self.scoped@[j]).scope@ != scope@,
            decreases self.scoped.len() - i,
        {
            if same(self.scoped[i].scope.id(), scope.id()) {
                proof {
                    lemma_scope_at_is(self.scoped@, scope@, i as int);
                }
                return Some(i);
            }
            i += 1;
        }
        proof {
            lemma_scope_at(self.scoped@, scope@);
        }
        None
    }

    /// Takes up the group of a child that was spawned, in a scope or in none.
    pub fn register(&mut self, group: i32, scope: Option<&ProcessScope>)
        requires
            old(self).well_formed(),
        ensures
            final(self).well_formed(),
            final(self).active() =~= old(self).active().insert(group),
            scope matches Some(s) ==> final(self).scoped(s@) =~= old(self).scoped(s@).insert(group),
            forall|t: Seq<char>|
                (scope matches Some(s) ==> t != s@) ==> #[trigger] final(self).scoped(t) =~= old(
                    self,
                ).scoped(t),
    {
        self.active.insert(group);
        let ghost before = self.scoped@;
        match scope {
            Some(s) => {
                proof {
                    lemma_scope_at(before, s@);
                }
                match self.find_scope(s) {
                    Some(k) => {
                        let mut entry = self.scoped.swap_remove(k);
                        entry.groups.insert(group);
                        self.scoped.push(entry);
                        proof {
                            assert(self.scoped@.drop_last() =~= swap_removed(before, k as int));
                            self.lemma_moved_to_end(before, k as int, s@);
                        }
                    },
                    None => {
                        let mut groups: HashSet<i32> = HashSet::new();
                        groups.insert(group);
                        let id = s.id().to_owned();
                        self.scoped.push(ScopedGroups { scope: ProcessScope::new(id), groups });
                        proof {
                            lemma_scope_at(before, s@);
                            assert(self.scoped@.drop_last() == before);
                            assert forall|t: Seq<char>| t != s@ implies (#[trigger] self.scoped(t))
                                =~= old(self).scoped(t) by {
                                lemma_scope_at(before, t);
                                assert(scope_at(self.scoped@, t) == scope_at(before, t));
                            }
                        }
                    },
                }
            },
            None => {},
        }
    }

    /// Lets go of the group of a child that has ended.
    pub fn unregister(&mut self, group: i32, scope: Option<&ProcessScope>)
        requires
            old(self).well_formed(),
        ensures
            final(self).well_formed(),
            final(self).active() =~= old(self).active().remove(group),
            scope matches Some(s) ==> final(self).scoped(s@) =~= old(self).scoped(s@).remove(group),
            forall|t: Seq<char>|
                (scope matches Some(s) ==> t != s@) ==> #[trigger] final(self).scoped(t) =~= old(
                    self,
                ).scoped(t),
    {
        self.active.remove(&group);
        let ghost before = self.scoped@;
        match scope {
            Some(s) => {
                proof {
                    lemma_scope_at(before, s@);
                }
                match self.find_scope(s) {
                    Some(k) => {
                        let mut entry = self.scoped.swap_remove(k);
                        let ghost removed = self.scoped@;
                        entry.groups.remove(&group);
                        if !entry.groups.is_empty() {
                            self.scoped.push(entry);
                            proof {
                                assert(self.scoped@.drop_last() =~= removed);
                                self.lemma_moved_to_end(before, k as int, s@);
                            }
                        } else {
                            proof {
                                lemma_without(before, removed, k as int, s@);
                            }
                        }
                    },
                    None => {},
                }
            },
            None => {},
        }
    }

    proof fn lemma_moved_to_end(&self, before: Seq<ScopedGroups>, k: int, scope: Seq<char>)
        requires
            0 <= k < before.len(),
            before[k].scope@ == scope,
            self.scoped@.len() == before.len(),
            self.scoped@.last().scope@ == scope,
            self.scoped@.drop_last() == swap_removed(before, k),
            forall|i: int, j: int|
                0 <= i < j < before.len() ==> (#[trigger] before[i]).scope@ != (
                #[trigger] before[j]).scope@,
        ensures
            scope_at(self.scoped@, scope) == Some(self.scoped@.len() - 1),
            forall|i: int, j: int|
                0 <= i < j < self.scoped@.len() ==> (#[trigger] self.scoped@[i]).scope@ != (
                #[trigger] self.scoped@[j]).scope@,
            forall|t: Seq<char>|
                t != scope ==> match #[trigger] scope_at(self.scoped@, t) {
                    Some(m) => scope_at(before, t) is Some && self.scoped@[m] == before[scope_at(
                        before,
                        t,
                    )->0],
                    None => scope_at(before, t) is None,
                },
    {
        let after = self.scoped@;
        lemma_without(before, after.drop_last(), k, scope);
        lemma_scope_at(after.drop_last(), scope);
        assert forall|i: int, j: int| 0 <= i < j < after.len() implies (#[trigger] after[i]).scope@
            != (#[trigger] after[j]).scope@ by {
            assert(after.drop_last()[i] == after[i]);
            if j < after.len() - 1 {
                assert(after.drop_last()[j] == after[j]);
            }
        }
        assert forall|t: Seq<char>| t != scope implies match #[trigger] scope_at(after, t) {
            Some(m) => scope_at(before, t) is Some && after[m] == before[scope_at(before, t)->0],
            None => scope_at(before, t) is None,
        } by {
            assert(scope_at(after, t) == scope_at(after.drop_last(), t));
            lemma_scope_at(after.drop_last(), t);
        }
    }

    /// The groups of a scope, each once.
    pub fn groups_of(&self, scope: &ProcessScope) -> (r: Vec<i32>)
        requires
            self.well_formed(),
        ensures
            r@.no_duplicates(),
            r@.to_set() =~= self.scoped(scope@),
    {
        match self.find_scope(scope) {
            Some(k) => copy_all(&self.scoped[k].groups),
            None => {
                let r: Vec<i32> = Vec::new();
                assert(r@.to_set() =~= Set::empty());
                r
            },
        }
    }

    /// The groups of all live children, each once.
    pub fn all_groups(&self) -> (r: Vec<i32>)
        requires
            self.well_formed(),
        ensures
            r@.no_duplicates(),
            r@.to_set() =~= self.active(),
    {
        copy_all(&self.active)
    }
}

spec fn swap_removed(s: Seq<ScopedGroups>, k: int) -> Seq<ScopedGroups> {
    s.update(k, s.last()).drop_last()
}

proof fn lemma_without(
    before: Seq<ScopedGroups>,
    after: Seq<ScopedGroups>,
    k: int,
    scope: Seq<char>,
)
    requires
        0 <= k < before.len(),
        before[k].scope@ == scope,
        after == swap_removed(before, k),
        forall|i: int, j: int|
            0 <= i < j < before.len() ==> (#[trigger] before[i]).scope@ != (
            #[trigger] before[j]).scope@,
    ensures
        scope_at(after, scope) is None,
        forall|i: int, j: int|
            0 <= i < j < after.len() ==> (#[trigger] after[i]).scope@ != (
            #[trigger] after[j]).scope@,
        forall|t: Seq<char>|
            t != scope ==> match #[trigger] scope_at(after, t) {
                Some(m) => scope_at(before, t) is Some && after[m] == before[scope_at(
                    before,
                    t,
                )->0],
                None => scope_at(before, t) is None,
            },
{
    lemma_scope_at(after, scope);
    assert forall|i: int| 0 <= i < after.len() implies (#[trigger] after[i]) == (if i == k {
        before.last()
    } else {
        before[i]
    }) by {}
    assert forall|t: Seq<char>| t != scope implies match #[trigger] scope_at(after, t) {
        Some(m) => scope_at(before, t) is Some && after[m] == before[scope_at(before, t)->0],
        None => scope_at(before, t) is None,
    } by {
        lemma_scope_at(before, t);
        lemma_scope_at(after, t);
        match scope_at(before, t) {
            Some(b) => {
                assert(b != k);
                let m = if b == before.len() - 1 {
                    k
                } else {
                    b
                };
                assert(after[m] == before[b]);
                lemma_scope_at_is(after, t, m);
            },
            None => {
                match scope_at(after, t) {
                    Some(m) => {
                        assert(after[m].scope@ == t);
                        if m == k {
                            assert(before[before.len() - 1].scope@ == t);
                        } else {
                            assert(before[m].scope@ == t);
                        }
                    },
                    None => {},
                }
            },
        }
    }
}

fn copy_all(groups: &HashSet<i32>) -> (r: Vec<i32>)
    ensures
        r@.no_duplicates(),
        r@.to_set() =~= groups@,
{
    let ghost all = vstd::std_specs::iter::IteratorSpec::remaining(&groups.iter()).unref();
    let mut out: Vec<i32> = Vec::new();
    for group in it: groups.iter()
        invariant
            it.seq().unref() == all,
            out@ == all.take(it.index() as int),
    {
        out.push(*group);
    }
    assert(out@ =~= all);
    out
}

/// Of output that is kept up to a limit, the newest is kept: the end of it, and
/// all of it where it fits.
pub proof fn law_newest_output_is_kept(bytes: Seq<u8>, limit: nat)
    ensures
        newest(bytes, limit).len() == (if bytes.len() <= limit {
            bytes.len()
        } else {
            limit
        }),
        newest(bytes, limit) == bytes.skip(bytes.len() - newest(bytes, limit).len()),
{
    assert(bytes.skip(0) =~= bytes);
}

/// A stream is read until it ends or fails: an error finishes it, the end lets
/// it wait for the process, and everything else has it read on. Only the first
/// event of a stream that ends its process can announce a gap.
pub proof fn law_stream_goes_on(stream: StderrStream, event: StreamEvent, ready: bool)
    ensures
        stream.phase_after(event, ready) == StreamPhase::Finished <==> event is ReadError,
        stream.phase_after(event, ready) == StreamPhase::Waiting ==> event is Eof,
        event is Eof && stream.phase == StreamPhase::Reading ==> stream.phase_after(event, ready)
            == StreamPhase::Waiting,
        event is Chunk || event is Gap ==> stream.phase_after(event, ready) == StreamPhase::Reading,
        stream.announces_gap(ready) <==> ready && stream.phase == StreamPhase::Subscribed
            && stream.policy is TerminateOnDrop,
        stream.phase_after(event, ready) != StreamPhase::Subscribed,
{
}

} // verus!
