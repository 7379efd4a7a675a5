use vstd::prelude::*;
use crate::container::{create_args_of, fresh, str_view, views, Container, ContainerView, ExitStatus, WaitHandle};
use crate::runtime::{ContainerError, RunOutcome};
use crate::signal::{forward_signal, is_valid_signal, known_signal, ExitEvent, SignalOrder, ESRCH, SIGTERM};
use crate::status::Status;
use crate::timestamp::{now_utc, Timestamp};

verus! {

/// The status code an error is reported with over the wire.
#[derive(Clone, Copy, Debug, PartialEq, Eq, Structural)]
pub enum Code {
    NotFound,
    AlreadyExists,
    InvalidArgument,
    Internal,
    Aborted,
}

/// Why a request to the task service failed.
#[derive(Clone, Copy, Debug, PartialEq, Eq, Structural)]
pub enum ServiceError {
    /// No container with the requested id is registered.
    NotFound,
    /// A container with the requested id is already registered.
    AlreadyExists,
    /// The request names no known signal.
    InvalidArgument,
    /// A container operation failed.
    Internal(ContainerError),
    /// A wait ended without the container having stopped.
    Aborted,
}

impl ServiceError {
    pub open spec fn code_of(self) -> Code {
        match self {
            ServiceError::NotFound => Code::NotFound,
            ServiceError::AlreadyExists => Code::AlreadyExists,
            ServiceError::InvalidArgument => Code::InvalidArgument,
            ServiceError::Internal(_) => Code::Internal,
            ServiceError::Aborted => Code::Aborted,
        }
    }

    /// The status code this error is reported with.
    pub fn code(&self) -> (r: Code)
        ensures
            r == self.code_of(),
    {
        match self {
            ServiceError::NotFound => Code::NotFound,
            ServiceError::AlreadyExists => Code::AlreadyExists,
            ServiceError::InvalidArgument => Code::InvalidArgument,
            ServiceError::Internal(_) => Code::Internal,
            ServiceError::Aborted => Code::Aborted,
        }
    }
}

/// A request to create a task.
pub struct CreateTaskRequest {
    pub id: String,
    pub bundle: String,
    pub stdout: String,
    pub stderr: String,
}

/// An invocation of the OCI runtime binary: its arguments, and the files its
/// stdout and stderr go to (`None`: discarded). Its stdin is always empty.
#[derive(Debug)]
pub struct RuntimeCall {
    pub program: String,
    pub args: Vec<String>,
    pub stdout: Option<String>,
    pub stderr: Option<String>,
}

pub struct RuntimeCallView {
    pub program: Seq<char>,
    pub args: Seq<Seq<char>>,
    pub stdout: Option<Seq<char>>,
    pub stderr: Option<Seq<char>>,
}

pub open spec fn opt_string_view(s: Option<String>) -> Option<Seq<char>> {
    match s {
        Some(t) => Some(t@),
        None => None,
    }
}

impl View for RuntimeCall {
    type V = RuntimeCallView;

    open spec fn view(&self) -> RuntimeCallView {
        RuntimeCallView {
            program: self.program@,
            args: views(self.args@),
            stdout: opt_string_view(self.stdout),
            stderr: opt_string_view(self.stderr),
        }
    }
}

/// What a container's exit means for its waiters: the exit record they get,
/// and the subscribers to hand it to.
#[derive(Debug)]
pub struct ExitNotice {
    pub record: ExitStatus,
    pub waiters: Vec<u64>,
}

/// A container removed from the registry: its pid, and the subscribers whose
/// waits now end without an exit.
#[derive(Debug)]
pub struct Deleted {
    pub pid: u32,
    pub waiters: Vec<u64>,
}

/// The teardown of one container at shutdown: the signal to stop it, and the
/// runtime call that deletes it; a container the runtime never created gets neither.
#[derive(Debug)]
pub struct ShutdownStep {
    pub kill: Option<SignalOrder>,
    pub delete: Option<RuntimeCall>,
}

/// How one shutdown step went: the result of delivering the signal (an `errno`
/// on failure) and how the runtime's delete ended; `None` for a part not run.
#[derive(Clone, Copy, Debug)]
pub struct StepOutcome {
    pub kill: Option<Result<(), i32>>,
    pub delete: Option<RunOutcome>,
}

impl StepOutcome {
    /// Neither the signal nor the delete failed; a target that is already gone is no failure.
    pub open spec fn ok(self) -> bool {
        &&& (self.kill is Some ==> (self.kill->0 is Ok || self.kill->0 == Err::<(), i32>(ESRCH)))
        &&& (self.delete is Some ==> self.delete->0.succeeded())
    }
}

/// Abstract state of the task service.
pub struct ServiceView {
    pub runtime: Seq<char>,
    pub containers: Seq<ContainerView>,
    pub exit_requested: bool,
}

impl ServiceView {
    /// Container ids are unique and every container is well formed.
    pub open spec fn wf(self) -> bool {
        &&& forall|i: int, j: int|
            0 <= i < self.containers.len() && 0 <= j < self.containers.len() && i != j
                ==> #[trigger] self.containers[i].id != #[trigger] self.containers[j].id
        &&& forall|i: int| 0 <= i < self.containers.len() ==> #[trigger] self.containers[i].wf()
    }

    pub open spec fn has(self, id: Seq<char>) -> bool {
        exists|i: int| 0 <= i < self.containers.len() && #[trigger] self.containers[i].id == id
    }

    /// Position of the container registered under `id`.
    pub open spec fn index_of(self, id: Seq<char>) -> int {
        choose|i: int| 0 <= i < self.containers.len() && #[trigger] self.containers[i].id == id
    }

    /// The container registered under `id`.
    pub open spec fn get(self, id: Seq<char>) -> ContainerView {
        self.containers[self.index_of(id)]
    }

    /// The registry with the container under `id` replaced by `c`.
    pub open spec fn set(self, id: Seq<char>, c: ContainerView) -> ServiceView {
        ServiceView { containers: self.containers.update(self.index_of(id), c), ..self }
    }

    /// The registry without the container under `id`.
    pub open spec fn without(self, id: Seq<char>) -> ServiceView {
        ServiceView { containers: self.containers.remove(self.index_of(id)), ..self }
    }

    /// A container is registered under `id` and the runtime has created it; a
    /// container whose creation is still in progress is not visible to the
    /// other verbs.
    pub open spec fn visible(self, id: Seq<char>) -> bool {
        self.has(id) && self.get(id).status != Status::UNKNOWN
    }

    /// The service after shutdown: no containers, exit requested.
    pub open spec fn shut_down(self) -> ServiceView {
        ServiceView { containers: Seq::empty(), exit_requested: true, ..self }
    }

    /// `plan` has one shutdown step per registered container, in registry order.
    pub open spec fn shutdown_plan_ok(self, plan: Seq<ShutdownStep>) -> bool {
        &&& plan.len() == self.containers.len()
        &&& forall|i: int| 0 <= i < plan.len() ==> shutdown_step_ok(#[trigger] plan[i], self.runtime, self.containers[i])
    }

    /// The call that runs the runtime with `args` and no output files.
    pub open spec fn plain_call(self, args: Seq<Seq<char>>) -> RuntimeCallView {
        RuntimeCallView { program: self.runtime, args, stdout: None, stderr: None }
    }
}

/// Facts about the position of a registered id.
pub proof fn lemma_index_of(s: ServiceView, id: Seq<char>)
    requires
        s.wf(),
        s.has(id),
    ensures
        0 <= s.index_of(id) < s.containers.len(),
        s.get(id).id == id,
        forall|i: int| 0 <= i < s.containers.len() && #[trigger] s.containers[i].id == id ==> i == s.index_of(id),
{
    let k = s.index_of(id);
    assert forall|i: int| 0 <= i < s.containers.len() && #[trigger] s.containers[i].id == id implies i == k by {
        if i != k {
            assert(s.containers[i].id != s.containers[k].id);
        }
    }
}

/// Replacing a container by a well-formed one with the same id keeps the registry well formed.
pub proof fn lemma_set(s: ServiceView, id: Seq<char>, c: ContainerView)
    requires
        s.wf(),
        s.has(id),
        c.id == id,
        c.wf(),
    ensures
        s.set(id, c).wf(),
        s.set(id, c).has(id),
        s.set(id, c).index_of(id) == s.index_of(id),
        s.set(id, c).get(id) == c,
        s.set(id, c).runtime == s.runtime,
        s.set(id, c).exit_requested == s.exit_requested,
{
    lemma_index_of(s, id);
    let k = s.index_of(id);
    let t = s.set(id, c);
    assert(t.containers[k].id == id);
    assert forall|i: int, j: int|
        0 <= i < t.containers.len() && 0 <= j < t.containers.len() && i != j
            implies #[trigger] t.containers[i].id != #[trigger] t.containers[j].id by {
        assert(t.containers[i].id == s.containers[i].id);
        assert(t.containers[j].id == s.containers[j].id);
        assert(s.containers[i].id != s.containers[j].id);
    }
    assert forall|i: int| 0 <= i < t.containers.len() implies #[trigger] t.containers[i].wf() by {
        if i != k {
            assert(s.containers[i].wf());
        }
    }
    lemma_index_of(t, id);
}

/// Removing a registered container keeps the registry well formed.
pub proof fn lemma_without(s: ServiceView, id: Seq<char>)
    requires
        s.wf(),
        s.has(id),
    ensures
        s.without(id).wf(),
        !s.without(id).has(id),
{
    lemma_index_of(s, id);
    let k = s.index_of(id);
    let t = s.without(id);
    assert forall|i: int, j: int|
        0 <= i < t.containers.len() && 0 <= j < t.containers.len() && i != j
            implies #[trigger] t.containers[i].id != #[trigger] t.containers[j].id by {
        let i2 = if i < k { i } else { i + 1 };
        let j2 = if j < k { j } else { j + 1 };
        assert(t.containers[i] == s.containers[i2]);
        assert(t.containers[j] == s.containers[j2]);
        assert(s.containers[i2].id != s.containers[j2].id);
    }
    assert forall|i: int| 0 <= i < t.containers.len() implies #[trigger] t.containers[i].wf() by {
        let i2 = if i < k { i } else { i + 1 };
        assert(t.containers[i] == s.containers[i2]);
    }
    if t.has(id) {
        let i = choose|i: int| 0 <= i < t.containers.len() && #[trigger] t.containers[i].id == id;
        let i2 = if i < k { i } else { i + 1 };
        assert(t.containers[i] == s.containers[i2]);
    }
}


/// Position of the first created or running container whose pid is `pid`, at or
/// after `from`; -1 if there is none.
pub open spec fn live_pid_index(cs: Seq<ContainerView>, pid: i32, from: int) -> int
    decreases cs.len() - from,
{
    if from < 0 || from >= cs.len() {
        -1
    } else if cs[from].status.is_live() && cs[from].pid == pid {
        from
    } else {
        live_pid_index(cs, pid, from + 1)
    }
}

/// Orders that pass `signal` on to every created or running container, in registry order.
pub open spec fn signal_targets_of(cs: Seq<ContainerView>, signal: i32) -> Seq<SignalOrder>
    decreases cs.len(),
{
    if cs.len() == 0 {
        Seq::empty()
    } else {
        let rest = signal_targets_of(cs.drop_last(), signal);
        if cs.last().status.is_live() {
            rest.push(SignalOrder { pid: cs.last().pid, signal })
        } else {
            rest
        }
    }
}

/// The shutdown step for one container: a live one is sent `SIGTERM`, and any
/// one the runtime has created is deleted.
pub open spec fn shutdown_step_ok(step: ShutdownStep, runtime: Seq<char>, c: ContainerView) -> bool {
    &&& step.kill == (if c.status.is_live() {
        Some(SignalOrder { pid: c.pid, signal: SIGTERM })
    } else {
        None
    })
    &&& (c.status == Status::UNKNOWN <==> step.delete is None)
    &&& (step.delete is Some ==> step.delete->0@ == (RuntimeCallView {
        program: runtime,
        args: seq!["delete"@, c.id],
        stdout: None,
        stderr: None,
    }))
}

impl StepOutcome {
    /// The error a failed step is reported with: the signal's failure first.
    pub open spec fn error(self) -> ContainerError {
        if self.kill is Some && !(self.kill->0 is Ok || self.kill->0 == Err::<(), i32>(ESRCH)) {
            ContainerError::SignalFailed(self.kill->0->Err_0)
        } else {
            self.delete->0.error()
        }
    }
}

/// The error of the first failed step, if any.
pub open spec fn first_failure(os: Seq<StepOutcome>) -> Option<ContainerError>
    decreases os.len(),
{
    if os.len() == 0 {
        None
    } else {
        match first_failure(os.drop_last()) {
            Some(e) => Some(e),
            None => if os.last().ok() {
                None
            } else {
                Some(os.last().error())
            },
        }
    }
}


/// What completing shutdown reports: the first failed step, if any.
pub open spec fn shutdown_result(os: Seq<StepOutcome>) -> Result<(), ServiceError> {
    match first_failure(os) {
        Some(e) => Err(ServiceError::Internal(e)),
        None => Ok(()),
    }
}

/// A failure within a prefix is the first failure of the whole run.
pub proof fn lemma_first_failure_prefix(os: Seq<StepOutcome>, n: int)
    requires
        0 <= n <= os.len(),
        first_failure(os.subrange(0, n)) is Some,
    ensures
        first_failure(os) == first_failure(os.subrange(0, n)),
    decreases os.len() - n,
{
    if n == os.len() {
        assert(os.subrange(0, n) =~= os);
    } else {
        let d = os.drop_last();
        assert(d.subrange(0, n) =~= os.subrange(0, n));
        lemma_first_failure_prefix(d, n);
    }
}


/// The index found by `live_pid_index` holds a created or running container with that pid.
pub proof fn lemma_live_pid_index(cs: Seq<ContainerView>, pid: i32, from: int)
    requires
        0 <= from,
        live_pid_index(cs, pid, from) != -1,
    ensures
        from <= live_pid_index(cs, pid, from) < cs.len(),
        cs[live_pid_index(cs, pid, from)].status.is_live(),
        cs[live_pid_index(cs, pid, from)].pid == pid,
    decreases cs.len() - from,
{
    if from < cs.len() && !(cs[from].status.is_live() && cs[from].pid == pid) {
        lemma_live_pid_index(cs, pid, from + 1);
    }
}

/// The exit code the dispatcher reaped for a container's pid is what a later
/// Wait on that container returns, with the instant at which the exit was recorded.
pub proof fn lemma_wait_reports_reaped_code(s: ServiceView, event: ExitEvent, at: Timestamp)
    requires
        s.wf(),
        at.wf(),
        live_pid_index(s.containers, event.pid, 0) != -1,
    ensures
        ({
            let c = s.containers[live_pid_index(s.containers, event.pid, 0)];
            let after = s.set(c.id, c.exited(event.exit_code, at));
            &&& after.visible(c.id)
            &&& after.get(c.id).wait_handle() == WaitHandle::Ready(
                ExitStatus { exit_status: event.exit_code as u32, exited_at: Some(at) },
            )
        }),
{
    let k = live_pid_index(s.containers, event.pid, 0);
    lemma_live_pid_index(s.containers, event.pid, 0);
    let c = s.containers[k];
    assert(s.has(c.id));
    assert(c.wf());
    lemma_set(s, c.id, c.exited(event.exit_code, at));
}

/// Once a Create has registered an id, a second Create with that id is refused
/// without side effects, whether or not the first has completed, until the
/// container leaves the registry.
pub proof fn lemma_second_create_conflicts(s: ServiceView, id: Seq<char>, bundle: Seq<char>, stdout: Seq<char>, stderr: Seq<char>, run: RunOutcome, contents: Option<Seq<char>>)
    requires
        s.wf(),
        !s.has(id),
    ensures
        ({
            let reserved = ServiceView { containers: s.containers.push(fresh(id, bundle, stdout, stderr)), ..s };
            &&& reserved.has(id)
            &&& (reserved.get(id).create_result(run, contents) is Ok ==> reserved.set(
                id,
                reserved.get(id).create_result(run, contents)->Ok_0,
            ).has(id))
        }),
{
    let reserved = ServiceView { containers: s.containers.push(fresh(id, bundle, stdout, stderr)), ..s };
    let n = s.containers.len() as int;
    assert(reserved.containers[n].id == id);
    assert(reserved.wf()) by {
        assert forall|i: int, j: int|
            0 <= i < reserved.containers.len() && 0 <= j < reserved.containers.len() && i != j
                implies #[trigger] reserved.containers[i].id != #[trigger] reserved.containers[j].id by {
            if i < n && j < n {
                assert(s.containers[i].id != s.containers[j].id);
            } else if i < n {
                assert(s.containers[i].id == reserved.containers[i].id);
            } else {
                assert(s.containers[j].id == reserved.containers[j].id);
            }
        }
        assert forall|i: int| 0 <= i < reserved.containers.len() implies #[trigger] reserved.containers[i].wf() by {
            if i < n {
                assert(s.containers[i].wf());
            }
        }
    }
    lemma_index_of(reserved, id);
    if reserved.get(id).create_result(run, contents) is Ok {
        lemma_set(reserved, id, reserved.get(id).create_result(run, contents)->Ok_0);
    }
}

/// Shutdown is idempotent: after one shutdown, whatever its steps reported,
/// the second shutdown's plan is empty, so its completion (on the outcomes of
/// that empty plan) reports no error, changes nothing, and leaves the exit
/// requested.
pub proof fn lemma_shutdown_idempotent(s: ServiceView, plan: Seq<ShutdownStep>, outcomes: Seq<StepOutcome>)
    requires
        s.wf(),
        s.shut_down().shutdown_plan_ok(plan),
        outcomes.len() == plan.len(),
    ensures
        s.shut_down().wf(),
        plan.len() == 0,
        shutdown_result(outcomes) == Ok::<(), ServiceError>(()),
        s.shut_down().shut_down() == s.shut_down(),
        s.shut_down().shut_down().exit_requested,
{
    assert(outcomes =~= Seq::<StepOutcome>::empty());
}

/// The task service: the lifecycle verbs over a registry of containers keyed by id.
/// Each verb that runs the runtime is split in two: the first half checks the
/// request and says which runtime call to make; the second half takes how the
/// call ended and updates the registry.
pub struct TaskService {
    /// Path to the OCI runtime executable.
    pub runtime: String,
    containers: Vec<Container>,
    exit_requested: bool,
}

impl View for TaskService {
    type V = ServiceView;

    closed spec fn view(&self) -> ServiceView {
        ServiceView {
            runtime: self.runtime@,
            containers: self.containers@.map_values(|c: Container| c@),
            exit_requested: self.exit_requested,
        }
    }
}

impl TaskService {
    /// A service with no containers whose exit has not been requested.
    pub fn new(runtime: &str) -> (s: TaskService)
        ensures
            s@.wf(),
            s@.runtime == runtime@,
            s@.containers.len() == 0,
            !s@.exit_requested,
    {
        let s = TaskService { runtime: String::from_str(runtime), containers: Vec::new(), exit_requested: false };
        assert(s@.containers =~= Seq::<ContainerView>::empty());
        s
    }

    /// Whether the service has been asked to exit.
    pub fn exit_requested(&self) -> (r: bool)
        ensures
            r == self@.exit_requested,
    {
        self.exit_requested
    }

    /// Number of registered containers.
    pub fn len(&self) -> (r: usize)
        ensures
            r == self@.containers.len(),
    {
        self.containers.len()
    }

    /// Position of the container registered under `id`, if any.
    fn find(&self, id: &str) -> (r: Option<usize>)
        requires
            self@.wf(),
        ensures
            r is Some <==> self@.has(id@),
            r is Some ==> r->0 == self@.index_of(id@) && r->0 < self@.containers.len(),
    {
        let key = String::from_str(id);
        let mut i: usize = 0;
        while i < self.containers.len()
            invariant
                i <= self.containers.len(),
                self@.wf(),
                key@ == id@,
                forall|k: int| 0 <= k < i ==> self.containers@[k]@.id != id@,
            decreases self.containers.len() - i,
        {
            if self.containers[i].has_id(&key) {
                proof {
                    assert(self@.containers[i as int] == self.containers@[i as int]@);
                    assert(self@.containers[i as int].id == id@);
                    assert(self@.has(id@));
                    let j = self@.index_of(id@);
                    assert(0 <= j < self@.containers.len() && self@.containers[j].id == id@);
                    if j != i as int {
                        assert(self@.containers[i as int].id != self@.containers[j].id);
                    }
                }
                return Some(i);
            }
            i = i + 1;
        }
        proof {
            if self@.has(id@) {
                let j = choose|j: int| 0 <= j < self@.containers.len() && #[trigger] self@.containers[j].id == id@;
                assert(self.containers@[j]@.id == id@);
            }
        }
        None
    }

    /// Removes and returns the container at `i`.
    fn take(&mut self, i: usize) -> (c: Container)
        requires
            i < old(self)@.containers.len(),
        ensures
            c@ == old(self)@.containers[i as int],
            final(self)@ == (ServiceView { containers: old(self)@.containers.remove(i as int), ..old(self)@ }),
    {
        let c = self.containers.remove(i);
        assert(self@.containers =~= old(self)@.containers.remove(i as int));
        c
    }

    /// Puts `c` back at `i`.
    fn put(&mut self, i: usize, c: Container)
        requires
            i <= old(self)@.containers.len(),
        ensures
            final(self)@ == (ServiceView { containers: old(self)@.containers.insert(i as int, c@), ..old(self)@ }),
    {
        let ghost cv = c@;
        self.containers.insert(i, c);
        assert(self@.containers =~= old(self)@.containers.insert(i as int, cv));
    }

    /// Registers a new container for `req`, not yet created, and says how to run
    /// `runtime create` for it: its stdout and stderr go to the requested files.
    /// An id already registered is refused and nothing changes.
    pub fn create(&mut self, req: &CreateTaskRequest) -> (r: Result<RuntimeCall, ServiceError>)
        requires
            old(self)@.wf(),
        ensures
            final(self)@.wf(),
            r is Err <==> old(self)@.has(req.id@),
            r is Err ==> r->Err_0 == ServiceError::AlreadyExists && final(self)@ == old(self)@,
            r is Ok ==> final(self)@ == (ServiceView {
                containers: old(self)@.containers.push(fresh(req.id@, req.bundle@, req.stdout@, req.stderr@)),
                ..old(self)@
            }),
            r is Ok ==> r->Ok_0@ == (RuntimeCallView {
                program: old(self)@.runtime,
                args: create_args_of(fresh(req.id@, req.bundle@, req.stdout@, req.stderr@)),
                stdout: Some(req.stdout@),
                stderr: Some(req.stderr@),
            }),
    {
        if self.find(req.id.as_str()).is_some() {
            return Err(ServiceError::AlreadyExists);
        }
        let c = Container::new(req.id.as_str(), req.bundle.as_str(), req.stdout.as_str(), req.stderr.as_str());
        let args = match c.create_args() {
            Ok(a) => a,
            // a new container is never created yet
            Err(_) => return Err(ServiceError::AlreadyExists),
        };
        let ghost cv = c@;
        self.containers.push(c);
        assert(self@.containers =~= old(self)@.containers.push(cv));
        proof {
            assert forall|i: int, j: int|
                0 <= i < self@.containers.len() && 0 <= j < self@.containers.len() && i != j
                    implies #[trigger] self@.containers[i].id != #[trigger] self@.containers[j].id by {
                if i < old(self)@.containers.len() && j < old(self)@.containers.len() {
                    assert(old(self)@.containers[i].id != old(self)@.containers[j].id);
                } else if i < old(self)@.containers.len() {
                    assert(old(self)@.containers[i].id == self@.containers[i].id);
                } else {
                    assert(old(self)@.containers[j].id == self@.containers[j].id);
                }
            }
            assert forall|i: int| 0 <= i < self@.containers.len() implies #[trigger] self@.containers[i].wf() by {
                if i < old(self)@.containers.len() {
                    assert(old(self)@.containers[i].wf());
                }
            }
        }
        Ok(RuntimeCall {
            program: self.runtime.clone(),
            args,
            stdout: Some(req.stdout.clone()),
            stderr: Some(req.stderr.clone()),
        })
    }

    /// Position of the container registered under `id`, if the runtime has created it.
    fn find_visible(&self, id: &str) -> (r: Option<usize>)
        requires
            self@.wf(),
        ensures
            r is Some <==> self@.visible(id@),
            r is Some ==> r->0 == self@.index_of(id@) && r->0 < self@.containers.len(),
    {
        match self.find(id) {
            Some(i) => {
                if self.containers[i].status().is_created() {
                    Some(i)
                } else {
                    None
                }
            },
            None => None,
        }
    }

    /// Writes back `c`, taken from `i`, which holds the container under `id`.
    fn restore(&mut self, i: usize, c: Container, Ghost(id): Ghost<Seq<char>>, Ghost(before): Ghost<ServiceView>)
        requires
            before.wf(),
            before.has(id),
            i == before.index_of(id),
            old(self)@ == (ServiceView { containers: before.containers.remove(i as int), ..before }),
            c@.id == id,
            c@.wf(),
        ensures
            final(self)@ == before.set(id, c@),
            final(self)@.wf(),
    {
        proof {
            lemma_index_of(before, id);
        }
        self.put(i, c);
        assert(self@.containers =~= before.containers.update(i as int, c@));
        proof {
            lemma_set(before, id, c@);
        }
    }

    /// Records how `runtime create` ended for the container reserved under
    /// `id`, with the pid file's contents (`None`: unreadable). On success the
    /// container is `CREATED` and its pid is returned; on failure of a container
    /// still being created the reservation is released, so the id is free again.
    pub fn create_done(&mut self, id: &str, run: RunOutcome, pid_contents: Option<&str>) -> (r: Result<u32, ServiceError>)
        requires
            old(self)@.wf(),
        ensures
            final(self)@.wf(),
            !old(self)@.has(id@) ==> r == Err::<u32, ServiceError>(ServiceError::NotFound) && final(self)@ == old(self)@,
            old(self)@.has(id@) ==> match old(self)@.get(id@).create_result(run, str_view(pid_contents)) {
                Ok(v) => r == Ok::<u32, ServiceError>(v.pid as u32) && final(self)@ == old(self)@.set(id@, v),
                Err(e) => r == Err::<u32, ServiceError>(ServiceError::Internal(e)) && final(self)@ == (if old(self)@.get(
                    id@,
                ).status == Status::UNKNOWN {
                    old(self)@.without(id@)
                } else {
                    old(self)@
                }),
            },
    {
        let i = match self.find(id) {
            Some(i) => i,
            None => return Err(ServiceError::NotFound),
        };
        let ghost before = self@;
        proof {
            lemma_index_of(before, id@);
        }
        let mut c = self.take(i);
        match c.create(run, pid_contents) {
            Ok(()) => {
                let pid = c.pid();
                self.restore(i, c, Ghost(id@), Ghost(before));
                Ok(pid as u32)
            },
            Err(e) => {
                if c.status().is_created() {
                    self.restore(i, c, Ghost(id@), Ghost(before));
                    assert(self@.containers =~= before.containers);
                } else {
                    proof {
                        lemma_without(before, id@);
                    }
                }
                Err(ServiceError::Internal(e))
            },
        }
    }

    /// Says how to run `runtime start` for the container under `id`, which must
    /// be `CREATED`.
    pub fn start(&self, id: &str) -> (r: Result<RuntimeCall, ServiceError>)
        requires
            self@.wf(),
        ensures
            !self@.visible(id@) ==> r == Err::<RuntimeCall, ServiceError>(ServiceError::NotFound),
            self@.visible(id@) && self@.get(id@).status != Status::CREATED ==> r == Err::<RuntimeCall, ServiceError>(
                ServiceError::Internal(ContainerError::InvalidState),
            ),
            self@.visible(id@) && self@.get(id@).status == Status::CREATED ==> r is Ok && r->Ok_0@ == self@.plain_call(
                seq!["start"@, id@],
            ),
    {
        let i = match self.find_visible(id) {
            Some(i) => i,
            None => return Err(ServiceError::NotFound),
        };
        proof {
            lemma_index_of(self@, id@);
        }
        match self.containers[i].start_args() {
            Ok(args) => Ok(RuntimeCall { program: self.runtime.clone(), args, stdout: None, stderr: None }),
            Err(e) => Err(ServiceError::Internal(e)),
        }
    }

    /// Records how `runtime start` ended for the container under `id`, and
    /// returns its pid on success.
    pub fn start_done(&mut self, id: &str, run: RunOutcome) -> (r: Result<u32, ServiceError>)
        requires
            old(self)@.wf(),
        ensures
            final(self)@.wf(),
            !old(self)@.visible(id@) ==> r == Err::<u32, ServiceError>(ServiceError::NotFound) && final(self)@ == old(self)@,
            old(self)@.visible(id@) ==> match old(self)@.get(id@).start_result(run) {
                Ok(v) => r == Ok::<u32, ServiceError>(v.pid as u32) && final(self)@ == old(self)@.set(id@, v),
                Err(e) => r == Err::<u32, ServiceError>(ServiceError::Internal(e)) && final(self)@ == old(self)@,
            },
    {
        let i = match self.find_visible(id) {
            Some(i) => i,
            None => return Err(ServiceError::NotFound),
        };
        let ghost before = self@;
        proof {
            lemma_index_of(before, id@);
        }
        let mut c = self.take(i);
        let res = c.start(run);
        let pid = c.pid();
        self.restore(i, c, Ghost(id@), Ghost(before));
        match res {
            Ok(()) => Ok(pid as u32),
            Err(e) => {
                assert(self@.containers =~= before.containers);
                Err(ServiceError::Internal(e))
            },
        }
    }

    /// Says how to run `runtime delete` for the container under `id`.
    pub fn delete(&self, id: &str) -> (r: Result<RuntimeCall, ServiceError>)
        requires
            self@.wf(),
        ensures
            r is Err <==> !self@.visible(id@),
            r is Err ==> r->Err_0 == ServiceError::NotFound,
            r is Ok ==> r->Ok_0@ == self@.plain_call(seq!["delete"@, id@]),
    {
        let i = match self.find_visible(id) {
            Some(i) => i,
            None => return Err(ServiceError::NotFound),
        };
        proof {
            lemma_index_of(self@, id@);
        }
        match self.containers[i].delete_args() {
            Ok(args) => Ok(RuntimeCall { program: self.runtime.clone(), args, stdout: None, stderr: None }),
            // a visible container has been created
            Err(_) => Err(ServiceError::NotFound),
        }
    }

    /// Records how `runtime delete` ended for the container under `id`. On
    /// success the container leaves the registry; its pid and its pending
    /// subscribers, whose waits end without an exit, are returned.
    pub fn delete_done(&mut self, id: &str, run: RunOutcome) -> (r: Result<Deleted, ServiceError>)
        requires
            old(self)@.wf(),
        ensures
            final(self)@.wf(),
            !old(self)@.visible(id@) ==> r is Err && r->Err_0 == ServiceError::NotFound && final(self)@ == old(self)@,
            old(self)@.visible(id@) && !run.succeeded() ==> r is Err && r->Err_0 == ServiceError::Internal(run.error())
                && final(self)@ == old(self)@,
            old(self)@.visible(id@) && run.succeeded() ==> r is Ok && final(self)@ == old(self)@.without(id@)
                && r->Ok_0.pid == old(self)@.get(id@).pid as u32 && r->Ok_0.waiters@ == old(self)@.get(id@).waiters,
    {
        let i = match self.find_visible(id) {
            Some(i) => i,
            None => return Err(ServiceError::NotFound),
        };
        proof {
            lemma_index_of(self@, id@);
        }
        if let Err(e) = self.containers[i].delete(run) {
            return Err(ServiceError::Internal(e));
        }
        let ghost before = self@;
        let c = self.take(i);
        proof {
            lemma_without(before, id@);
        }
        let pid = c.pid();
        Ok(Deleted { pid: pid as u32, waiters: c.into_waiters() })
    }

    /// Says where to deliver `signal` for the container under `id`. A number
    /// that names no known signal is refused.
    pub fn kill(&self, id: &str, signal: u32) -> (r: Result<SignalOrder, ServiceError>)
        requires
            self@.wf(),
        ensures
            !self@.visible(id@) ==> r == Err::<SignalOrder, ServiceError>(ServiceError::NotFound),
            self@.visible(id@) && !known_signal(signal as int) ==> r == Err::<SignalOrder, ServiceError>(
                ServiceError::InvalidArgument,
            ),
            self@.visible(id@) && known_signal(signal as int) ==> r == Ok::<SignalOrder, ServiceError>(
                SignalOrder { pid: self@.get(id@).pid, signal: signal as i32 },
            ),
    {
        let i = match self.find_visible(id) {
            Some(i) => i,
            None => return Err(ServiceError::NotFound),
        };
        proof {
            lemma_index_of(self@, id@);
        }
        if !is_valid_signal(signal) {
            return Err(ServiceError::InvalidArgument);
        }
        match self.containers[i].kill(signal as i32) {
            Ok(order) => Ok(order),
            // a visible container has been created
            Err(e) => Err(ServiceError::Internal(e)),
        }
    }

    /// Interprets how delivering a kill went: delivered, or a process that is
    /// already gone, is success; any other failure is internal.
    pub fn kill_done(delivery: Result<(), i32>) -> (r: Result<(), ServiceError>)
        ensures
            r is Ok <==> (delivery is Ok || delivery == Err::<(), i32>(ESRCH)),
            r is Err ==> r->Err_0 == ServiceError::Internal(ContainerError::SignalFailed(delivery->Err_0)),
    {
        match forward_signal(delivery) {
            Ok(()) => Ok(()),
            Err(e) => Err(ServiceError::Internal(ContainerError::SignalFailed(e))),
        }
    }

    /// Waits on the container under `id` with subscription `token`: a stopped
    /// container answers at once with its exit record; otherwise the token is
    /// enqueued, under the same exclusive access as the status check.
    pub fn wait(&mut self, id: &str, token: u64) -> (r: Result<WaitHandle, ServiceError>)
        requires
            old(self)@.wf(),
        ensures
            final(self)@.wf(),
            !old(self)@.visible(id@) ==> r == Err::<WaitHandle, ServiceError>(ServiceError::NotFound) && final(self)@ == old(self)@,
            old(self)@.visible(id@) ==> r == Ok::<WaitHandle, ServiceError>(old(self)@.get(id@).wait_handle())
                && final(self)@ == old(self)@.set(id@, old(self)@.get(id@).subscribed(token)),
    {
        let i = match self.find_visible(id) {
            Some(i) => i,
            None => return Err(ServiceError::NotFound),
        };
        let ghost before = self@;
        proof {
            lemma_index_of(before, id@);
        }
        let mut c = self.take(i);
        let h = c.wait_channel(token);
        self.restore(i, c, Ghost(id@), Ghost(before));
        Ok(h)
    }

    /// Binds a reaped exit to a container: the first created or running
    /// container with the event's pid stops with its exit code at instant `at`,
    /// and its exit record and pending subscribers are returned. An exit that
    /// matches no such container is discarded.
    pub fn set_exited_at(&mut self, event: ExitEvent, at: Timestamp) -> (r: Option<ExitNotice>)
        requires
            old(self)@.wf(),
            at.wf(),
        ensures
            final(self)@.wf(),
            live_pid_index(old(self)@.containers, event.pid, 0) == -1 ==> r is None && final(self)@ == old(self)@,
            live_pid_index(old(self)@.containers, event.pid, 0) != -1 ==> {
                let k = live_pid_index(old(self)@.containers, event.pid, 0);
                let c = old(self)@.containers[k];
                &&& r is Some
                &&& r->0.record == c.exited(event.exit_code, at).exit_record()
                &&& r->0.waiters@ == c.waiters
                &&& final(self)@ == old(self)@.set(c.id, c.exited(event.exit_code, at))
            },
    {
        let mut i: usize = 0;
        while i < self.containers.len() && !(self.containers[i].status().is_running_or_created()
            && self.containers[i].pid() == event.pid)
            invariant
                i <= self.containers.len(),
                self@ == old(self)@,
                live_pid_index(self@.containers, event.pid, 0) == live_pid_index(self@.containers, event.pid, i as int),
            decreases self.containers.len() - i,
        {
            assert(live_pid_index(self@.containers, event.pid, i as int) == live_pid_index(
                self@.containers,
                event.pid,
                i as int + 1,
            ));
            i = i + 1;
        }
        if i == self.containers.len() {
            return None;
        }
        let ghost before = self@;
        let ghost id = before.containers[i as int].id;
        proof {
            assert(before.has(id));
            lemma_index_of(before, id);
        }
        let mut c = self.take(i);
        let waiters = match c.set_exited_at(event.exit_code, at) {
            Ok(w) => w,
            // the container found is created or running
            Err(_) => Vec::new(),
        };
        let record = ExitStatus { exit_status: c.exit_code() as u32, exited_at: c.exited_at() };
        self.restore(i, c, Ghost(id), Ghost(before));
        Some(ExitNotice { record, waiters })
    }

    /// `set_exited_at` at the current instant.
    pub fn set_exited(&mut self, event: ExitEvent) -> (r: Option<ExitNotice>)
        requires
            old(self)@.wf(),
        ensures
            final(self)@.wf(),
            live_pid_index(old(self)@.containers, event.pid, 0) == -1 ==> r is None && final(self)@ == old(self)@,
            live_pid_index(old(self)@.containers, event.pid, 0) != -1 ==> exists|at: Timestamp| {
                let k = live_pid_index(old(self)@.containers, event.pid, 0);
                let c = old(self)@.containers[k];
                &&& #[trigger] at.wf()
                &&& r is Some
                &&& r->0.record == c.exited(event.exit_code, at).exit_record()
                &&& r->0.waiters@ == c.waiters
                &&& final(self)@ == old(self)@.set(c.id, c.exited(event.exit_code, at))
            },
    {
        let at = now_utc();
        self.set_exited_at(event, at)
    }

    /// Where to pass on a terminal signal the shim received: every created or
    /// running container.
    pub fn signal_targets(&self, signal: i32) -> (r: Vec<SignalOrder>)
        ensures
            r@ == signal_targets_of(self@.containers, signal),
    {
        let mut r: Vec<SignalOrder> = Vec::new();
        let mut i: usize = 0;
        while i < self.containers.len()
            invariant
                i <= self.containers.len(),
                r@ == signal_targets_of(self@.containers.subrange(0, i as int), signal),
            decreases self.containers.len() - i,
        {
            assert(self@.containers.subrange(0, i as int + 1).drop_last() =~= self@.containers.subrange(0, i as int));
            if self.containers[i].status().is_running_or_created() {
                r.push(SignalOrder { pid: self.containers[i].pid(), signal });
            }
            i = i + 1;
        }
        assert(self@.containers.subrange(0, i as int) =~= self@.containers);
        r
    }

    /// The teardown plan for shutdown: one step per registered container, in
    /// registry order.
    pub fn shutdown(&self) -> (r: Vec<ShutdownStep>)
        ensures
            self@.shutdown_plan_ok(r@),
    {
        let mut r: Vec<ShutdownStep> = Vec::new();
        let mut i: usize = 0;
        while i < self.containers.len()
            invariant
                i <= self.containers.len(),
                r@.len() == i,
                forall|k: int| 0 <= k < i ==> shutdown_step_ok(#[trigger] r@[k], self@.runtime, self@.containers[k]),
            decreases self.containers.len() - i,
        {
            let c = &self.containers[i];
            let kill = if c.status().is_running_or_created() {
                Some(SignalOrder { pid: c.pid(), signal: SIGTERM })
            } else {
                None
            };
            let delete = match c.delete_args() {
                Ok(args) => Some(RuntimeCall { program: self.runtime.clone(), args, stdout: None, stderr: None }),
                Err(_) => None,
            };
            r.push(ShutdownStep { kill, delete });
            i = i + 1;
        }
        r
    }

    /// Completes shutdown with how each step went: the registry is emptied and
    /// the service's exit is requested whatever happened; the first failed step,
    /// if any, is reported.
    pub fn shutdown_done(&mut self, outcomes: &Vec<StepOutcome>) -> (r: Result<(), ServiceError>)
        requires
            old(self)@.wf(),
        ensures
            final(self)@.wf(),
            final(self)@ == old(self)@.shut_down(),
            r == shutdown_result(outcomes@),
    {
        self.containers = Vec::new();
        self.exit_requested = true;
        assert(self@.containers =~= Seq::<ContainerView>::empty());
        let mut i: usize = 0;
        while i < outcomes.len()
            invariant
                i <= outcomes.len(),
                self@ == (ServiceView { containers: Seq::empty(), exit_requested: true, ..old(self)@ }),
                first_failure(outcomes@.subrange(0, i as int)) is None,
            decreases outcomes.len() - i,
        {
            let o = outcomes[i];
            let ghost upto = outcomes@.subrange(0, i as int + 1);
            assert(upto.drop_last() =~= outcomes@.subrange(0, i as int));
            if let Some(k) = o.kill {
                if let Err(e) = forward_signal(k) {
                    proof {
                        lemma_first_failure_prefix(outcomes@, i as int + 1);
                    }
                    return Err(ServiceError::Internal(ContainerError::SignalFailed(e)));
                }
            }
            if let Some(d) = o.delete {
                if let Err(e) = d.check() {
                    proof {
                        lemma_first_failure_prefix(outcomes@, i as int + 1);
                    }
                    return Err(ServiceError::Internal(e));
                }
            }
            i = i + 1;
        }
        assert(outcomes@.subrange(0, i as int) =~= outcomes@);
        Ok(())
    }
}

} // verus!
