use vstd::prelude::*;
use crate::runtime::{join, join_path, parse_pid, pid_value, ContainerError, RunOutcome, PID_FILE};
use crate::signal::SignalOrder;
use crate::status::Status;
use crate::timestamp::{now_utc, Timestamp};

verus! {

/// What a waiter learns once the container has stopped.
#[derive(Clone, Copy, Debug, PartialEq, Eq, Structural)]
pub struct ExitStatus {
    pub exit_status: u32,
    pub exited_at: Option<Timestamp>,
}

/// Result of subscribing to a container's exit.
#[derive(Clone, Copy, Debug, PartialEq, Eq, Structural)]
pub enum WaitHandle {
    /// The container had already stopped: nothing was enqueued.
    Ready(ExitStatus),
    /// The subscription was enqueued and is satisfied when the container stops.
    Pending,
}

/// Abstract state of a container.
pub struct ContainerView {
    pub id: Seq<char>,
    pub bundle: Seq<char>,
    pub stdout: Seq<char>,
    pub stderr: Seq<char>,
    pub status: Status,
    pub pid: i32,
    pub exit_code: i32,
    pub exited_at: Option<Timestamp>,
    pub waiters: Seq<u64>,
}

impl ContainerView {
    /// The container's invariant: a created container has a pid; the exit
    /// record is present exactly when it has stopped; a stopped container has
    /// no pending subscribers.
    pub open spec fn wf(self) -> bool {
        &&& (self.status.rank() >= 1 ==> self.pid > 0)
        &&& (self.status == Status::STOPPED <==> self.exited_at is Some)
        &&& (self.exited_at is Some ==> self.exited_at->0.wf())
        &&& (self.status == Status::STOPPED ==> self.waiters.len() == 0)
    }

    /// `later` is a state this container may reach from `self`: its identity is
    /// fixed, its status never goes back, its pid never changes once known, and
    /// once stopped its exit record never changes.
    pub open spec fn evolves_to(self, later: ContainerView) -> bool {
        &&& later.id == self.id
        &&& later.bundle == self.bundle
        &&& later.stdout == self.stdout
        &&& later.stderr == self.stderr
        &&& self.status.rank() <= later.status.rank()
        &&& (self.status.rank() >= 1 ==> later.pid == self.pid)
        &&& (self.status == Status::STOPPED ==> {
            &&& later.status == Status::STOPPED
            &&& later.exit_code == self.exit_code
            &&& later.exited_at == self.exited_at
        })
    }

    /// The exit record a waiter receives.
    pub open spec fn exit_record(self) -> ExitStatus {
        ExitStatus { exit_status: self.exit_code as u32, exited_at: self.exited_at }
    }

    /// What subscribing returns in this state.
    pub open spec fn wait_handle(self) -> WaitHandle {
        if self.status == Status::STOPPED {
            WaitHandle::Ready(self.exit_record())
        } else {
            WaitHandle::Pending
        }
    }

    /// The state after subscribing with `token`.
    pub open spec fn subscribed(self, token: u64) -> ContainerView {
        if self.status == Status::STOPPED {
            self
        } else {
            ContainerView { waiters: self.waiters.push(token), ..self }
        }
    }

    /// The state after the container's process exited with `code` at `at`.
    pub open spec fn exited(self, code: i32, at: Timestamp) -> ContainerView {
        ContainerView {
            status: Status::STOPPED,
            exit_code: code,
            exited_at: Some(at),
            waiters: Seq::empty(),
            ..self
        }
    }

    /// Outcome of `runtime create` given how the run ended and what the pid
    /// file held (`None`: it could not be read): the created state, or the
    /// first of these that applies: a container already created, the runtime's
    /// failure, an unreadable pid file, one without a valid pid.
    pub open spec fn create_result(self, run: RunOutcome, contents: Option<Seq<char>>) -> Result<ContainerView, ContainerError> {
        if self.status != Status::UNKNOWN {
            Err(ContainerError::InvalidState)
        } else if !run.succeeded() {
            Err(run.error())
        } else if contents is None {
            Err(ContainerError::PidFileUnreadable)
        } else if pid_value(contents->0) is None {
            Err(ContainerError::BadPidFile)
        } else {
            Ok(ContainerView { status: Status::CREATED, pid: pid_value(contents->0)->0 as i32, ..self })
        }
    }

    /// Outcome of `runtime start`: only a `CREATED` container may be started,
    /// any other state is refused; then a failed run is reported, and a
    /// successful one moves the container to `RUNNING`.
    pub open spec fn start_result(self, run: RunOutcome) -> Result<ContainerView, ContainerError> {
        if self.status != Status::CREATED {
            Err(ContainerError::InvalidState)
        } else if !run.succeeded() {
            Err(run.error())
        } else {
            Ok(ContainerView { status: Status::RUNNING, ..self })
        }
    }

    /// The pid file the runtime is told to write.
    pub open spec fn pid_file(self) -> Seq<char> {
        join_path(self.bundle, PID_FILE@)
    }
}

/// A container that the runtime has not created yet.
pub open spec fn fresh(id: Seq<char>, bundle: Seq<char>, stdout: Seq<char>, stderr: Seq<char>) -> ContainerView {
    ContainerView {
        id,
        bundle,
        stdout,
        stderr,
        status: Status::UNKNOWN,
        pid: 0,
        exit_code: 0,
        exited_at: None,
        waiters: Seq::empty(),
    }
}

/// Arguments of `runtime create` for a container.
pub open spec fn create_args_of(v: ContainerView) -> Seq<Seq<char>> {
    seq!["create"@, "--bundle"@, v.bundle, "--pid-file"@, v.pid_file(), v.id]
}

/// View of an optional string.
pub open spec fn str_view(s: Option<&str>) -> Option<Seq<char>> {
    match s {
        Some(t) => Some(t@),
        None => None,
    }
}

/// Views of a list of strings.
pub open spec fn views(v: Seq<String>) -> Seq<Seq<char>> {
    v.map_values(|s: String| s@)
}

/// State after subscribing each of `tokens` in turn.
pub open spec fn subscribe_all(c: ContainerView, tokens: Seq<u64>) -> ContainerView
    decreases tokens.len(),
{
    if tokens.len() == 0 {
        c
    } else {
        subscribe_all(c, tokens.drop_last()).subscribed(tokens.last())
    }
}

/// Once a container is `STOPPED` it stays `STOPPED`, with the same exit code
/// and exit time, along any run of states each reachable from the one before.
pub proof fn lemma_stopped_stays_stopped(states: Seq<ContainerView>, i: int, j: int)
    requires
        forall|k: int| 0 <= k < states.len() - 1 ==> #[trigger] states[k].evolves_to(states[k + 1]),
        0 <= i <= j < states.len(),
        states[i].status == Status::STOPPED,
    ensures
        states[j].status == Status::STOPPED,
        states[j].exit_code == states[i].exit_code,
        states[j].exited_at == states[i].exited_at,
    decreases j - i,
{
    if i < j {
        let k = j - 1;
        assert(states[k].evolves_to(states[k + 1]));
        lemma_stopped_stays_stopped(states, i, j - 1);
    }
}

/// Subscribers enqueued on a container that has not stopped are handed back,
/// each once and in order, when it exits; after the exit the queue is empty and
/// a new subscriber is answered at once without being enqueued.
pub proof fn lemma_exit_notifies_each_once(c: ContainerView, tokens: Seq<u64>, code: i32, at: Timestamp, late: u64)
    requires
        c.wf(),
        c.status.is_live(),
        at.wf(),
    ensures
        subscribe_all(c, tokens).status == c.status,
        subscribe_all(c, tokens).waiters == c.waiters + tokens,
        subscribe_all(c, tokens).exited(code, at).waiters.len() == 0,
        subscribe_all(c, tokens).exited(code, at).wait_handle() is Ready,
        subscribe_all(c, tokens).exited(code, at).subscribed(late) == subscribe_all(c, tokens).exited(code, at),
    decreases tokens.len(),
{
    if tokens.len() > 0 {
        lemma_exit_notifies_each_once(c, tokens.drop_last(), code, at, late);
        assert(c.waiters + tokens =~= (c.waiters + tokens.drop_last()).push(tokens.last()));
    } else {
        assert(c.waiters + tokens =~= c.waiters);
    }
}

/// Subscribing at any time after the exit answers with the same exit record as
/// subscribing at the instant of the exit.
pub proof fn lemma_wait_after_exit(c: ContainerView, code: i32, at: Timestamp, later: ContainerView)
    requires
        c.status.is_live(),
        c.exited(code, at).evolves_to(later),
    ensures
        later.wait_handle() == c.exited(code, at).wait_handle(),
        later.wait_handle() == WaitHandle::Ready(ExitStatus { exit_status: code as u32, exited_at: Some(at) }),
{
}

/// Wait racing an exit loses no wakeup: in whichever order a subscription and
/// the exit take effect, the waiter gets the exit code and instant of the exit,
/// either handed back among the subscribers the exit notifies or at once.
pub proof fn lemma_wait_races_exit(c: ContainerView, token: u64, code: i32, at: Timestamp)
    requires
        c.wf(),
        c.status.is_live(),
    ensures
        c.wait_handle() is Pending,
        c.subscribed(token).status.is_live(),
        c.subscribed(token).waiters.last() == token,
        c.subscribed(token).exited(code, at).exit_record() == (ExitStatus { exit_status: code as u32, exited_at: Some(at) }),
        c.exited(code, at).wait_handle() == WaitHandle::Ready(ExitStatus { exit_status: code as u32, exited_at: Some(at) }),
        c.exited(code, at).subscribed(token) == c.exited(code, at),
{
}

/// One container supervised by the shim.
pub struct Container {
    /// The container ID.
    pub id: String,
    /// The bundle directory.
    pub bundle: String,
    /// Where the runtime writes the container's stdout.
    pub stdout: String,
    /// Where the runtime writes the container's stderr.
    pub stderr: String,
    status: Status,
    pid: i32,
    exit_code: i32,
    exited_at: Option<Timestamp>,
    waiters: Vec<u64>,
}

impl View for Container {
    type V = ContainerView;

    closed spec fn view(&self) -> ContainerView {
        ContainerView {
            id: self.id@,
            bundle: self.bundle@,
            stdout: self.stdout@,
            stderr: self.stderr@,
            status: self.status,
            pid: self.pid,
            exit_code: self.exit_code,
            exited_at: self.exited_at,
            waiters: self.waiters@,
        }
    }
}

impl Container {
    /// A container that the runtime has not created yet.
    pub fn new(id: &str, bundle: &str, stdout: &str, stderr: &str) -> (c: Container)
        ensures
            c@.wf(),
            c@ == fresh(id@, bundle@, stdout@, stderr@),
    {
        let c = Container {
            id: String::from_str(id),
            bundle: String::from_str(bundle),
            stdout: String::from_str(stdout),
            stderr: String::from_str(stderr),
            status: Status::UNKNOWN,
            pid: 0,
            exit_code: 0,
            exited_at: None,
            waiters: Vec::new(),
        };
        assert(c@.waiters =~= Seq::<u64>::empty());
        c
    }

    /// Whether the container's id is `key`.
    pub fn has_id(&self, key: &String) -> (r: bool)
        ensures
            r == (self@.id == key@),
    {
        self.id == *key
    }

    /// The path of the pid file inside the bundle.
    pub fn pid_file(&self) -> (r: String)
        ensures
            r@ == self@.pid_file(),
    {
        proof {
            reveal_strlit("container.pid");
        }
        join(self.bundle.as_str(), PID_FILE)
    }

    /// Arguments for `runtime create`; only a container not yet created may be created.
    pub fn create_args(&self) -> (r: Result<Vec<String>, ContainerError>)
        ensures
            r is Ok <==> self@.status == Status::UNKNOWN,
            r is Ok ==> views(r->Ok_0@) == create_args_of(self@),
            r is Err ==> r->Err_0 == ContainerError::InvalidState,
    {
        if self.status != Status::UNKNOWN {
            return Err(ContainerError::InvalidState);
        }
        let mut args: Vec<String> = Vec::new();
        args.push(String::from_str("create"));
        args.push(String::from_str("--bundle"));
        args.push(self.bundle.clone());
        args.push(String::from_str("--pid-file"));
        args.push(self.pid_file());
        args.push(self.id.clone());
        assert(views(args@) =~= create_args_of(self@));
        Ok(args)
    }

    /// Records the outcome of `runtime create`: on a successful run whose pid
    /// file holds a positive pid, the container takes that pid and becomes
    /// `CREATED`. Otherwise it is left unchanged and the error says why: a
    /// container already created, the runtime's failure, a pid file that could
    /// not be read (`None`), or one that holds no valid pid.
    pub fn create(&mut self, run: RunOutcome, pid_contents: Option<&str>) -> (r: Result<(), ContainerError>)
        requires
            old(self)@.wf(),
        ensures
            final(self)@.wf(),
            old(self)@.evolves_to(final(self)@),
            match old(self)@.create_result(run, str_view(pid_contents)) {
                Ok(v) => r is Ok && final(self)@ == v,
                Err(e) => r == Err::<(), ContainerError>(e) && final(self)@ == old(self)@,
            },
    {
        if self.status != Status::UNKNOWN {
            return Err(ContainerError::InvalidState);
        }
        run.check()?;
        let contents = match pid_contents {
            Some(c) => c,
            None => return Err(ContainerError::PidFileUnreadable),
        };
        let pid = parse_pid(contents)?;
        self.pid = pid;
        self.status = Status::CREATED;
        Ok(())
    }

    /// Arguments for `runtime start`; only a `CREATED` container may be started.
    pub fn start_args(&self) -> (r: Result<Vec<String>, ContainerError>)
        ensures
            r is Ok <==> self@.status == Status::CREATED,
            r is Ok ==> views(r->Ok_0@) == seq!["start"@, self@.id],
            r is Err ==> r->Err_0 == ContainerError::InvalidState,
    {
        if self.status != Status::CREATED {
            return Err(ContainerError::InvalidState);
        }
        let mut args: Vec<String> = Vec::new();
        args.push(String::from_str("start"));
        args.push(self.id.clone());
        assert(views(args@) =~= seq!["start"@, self@.id]);
        Ok(args)
    }

    /// Records the outcome of `runtime start`. A successful run moves a
    /// `CREATED` container to `RUNNING`. A container in any other state
    /// (including one that stopped meanwhile) is refused, and so is a failed
    /// run; neither changes anything.
    pub fn start(&mut self, run: RunOutcome) -> (r: Result<(), ContainerError>)
        requires
            old(self)@.wf(),
        ensures
            final(self)@.wf(),
            old(self)@.evolves_to(final(self)@),
            match old(self)@.start_result(run) {
                Ok(v) => r is Ok && final(self)@ == v,
                Err(e) => r == Err::<(), ContainerError>(e) && final(self)@ == old(self)@,
            },
    {
        if self.status != Status::CREATED {
            return Err(ContainerError::InvalidState);
        }
        run.check()?;
        self.status = Status::RUNNING;
        Ok(())
    }

    /// Arguments for `runtime delete`; any container the runtime has created may be deleted.
    pub fn delete_args(&self) -> (r: Result<Vec<String>, ContainerError>)
        ensures
            r is Ok <==> self@.status != Status::UNKNOWN,
            r is Ok ==> views(r->Ok_0@) == seq!["delete"@, self@.id],
            r is Err ==> r->Err_0 == ContainerError::InvalidState,
    {
        if self.status == Status::UNKNOWN {
            return Err(ContainerError::InvalidState);
        }
        let mut args: Vec<String> = Vec::new();
        args.push(String::from_str("delete"));
        args.push(self.id.clone());
        assert(views(args@) =~= seq!["delete"@, self@.id]);
        Ok(args)
    }

    /// Records the outcome of `runtime delete`: success exactly when the run succeeded.
    pub fn delete(&self, run: RunOutcome) -> (r: Result<(), ContainerError>)
        ensures
            r is Ok <==> run.succeeded(),
            r is Err ==> r->Err_0 == run.error(),
    {
        run.check()
    }

    /// The order that delivers `signal` to the container's process; a container
    /// the runtime has not created has no process to signal.
    pub fn kill(&self, signal: i32) -> (r: Result<SignalOrder, ContainerError>)
        ensures
            r is Ok <==> self@.status != Status::UNKNOWN,
            r is Ok ==> r->Ok_0 == (SignalOrder { pid: self@.pid, signal }),
            r is Err ==> r->Err_0 == ContainerError::InvalidState,
    {
        if self.status == Status::UNKNOWN {
            return Err(ContainerError::InvalidState);
        }
        Ok(SignalOrder { pid: self.pid, signal })
    }

    /// Subscribes `token` to the container's exit. A stopped container answers
    /// at once with its exit record and enqueues nothing; otherwise the token is
    /// enqueued, in the same step as the status check.
    pub fn wait_channel(&mut self, token: u64) -> (r: WaitHandle)
        requires
            old(self)@.wf(),
        ensures
            final(self)@.wf(),
            old(self)@.evolves_to(final(self)@),
            r == old(self)@.wait_handle(),
            final(self)@ == old(self)@.subscribed(token),
    {
        if self.status == Status::STOPPED {
            WaitHandle::Ready(ExitStatus { exit_status: self.exit_code as u32, exited_at: self.exited_at })
        } else {
            self.waiters.push(token);
            WaitHandle::Pending
        }
    }

    /// Marks a created or running container as stopped with `exit_code` at
    /// instant `at`, and hands back every pending subscriber, in the order they
    /// subscribed, clearing the queue. Any other container is left unchanged.
    pub fn set_exited_at(&mut self, exit_code: i32, at: Timestamp) -> (r: Result<Vec<u64>, ContainerError>)
        requires
            old(self)@.wf(),
            at.wf(),
        ensures
            final(self)@.wf(),
            old(self)@.evolves_to(final(self)@),
            r is Ok <==> old(self)@.status.is_live(),
            r is Ok ==> r->Ok_0@ == old(self)@.waiters,
            r is Ok ==> final(self)@ == old(self)@.exited(exit_code, at),
            r is Err ==> r->Err_0 == ContainerError::InvalidState && final(self)@ == old(self)@,
    {
        if !self.status.is_running_or_created() {
            return Err(ContainerError::InvalidState);
        }
        let mut waiters: Vec<u64> = Vec::new();
        std::mem::swap(&mut waiters, &mut self.waiters);
        self.status = Status::STOPPED;
        self.exit_code = exit_code;
        self.exited_at = Some(at);
        assert(self@ == old(self)@.exited(exit_code, at)) by {
            assert(self@.waiters =~= Seq::<u64>::empty());
        }
        Ok(waiters)
    }

    /// `set_exited_at` at the current instant.
    pub fn set_exited(&mut self, exit_code: i32) -> (r: Result<Vec<u64>, ContainerError>)
        requires
            old(self)@.wf(),
        ensures
            final(self)@.wf(),
            old(self)@.evolves_to(final(self)@),
            r is Ok <==> old(self)@.status.is_live(),
            r is Ok ==> r->Ok_0@ == old(self)@.waiters,
            r is Ok ==> exists|at: Timestamp| at.wf() && final(self)@ == old(self)@.exited(exit_code, at),
            r is Err ==> r->Err_0 == ContainerError::InvalidState && final(self)@ == old(self)@,
    {
        let at = now_utc();
        self.set_exited_at(exit_code, at)
    }

    /// When the container stopped, if it has.
    pub fn exited_at(&self) -> (r: Option<Timestamp>)
        ensures
            r == self@.exited_at,
    {
        self.exited_at
    }

    /// The runtime-reported pid; 0 before creation.
    pub fn pid(&self) -> (r: i32)
        ensures
            r == self@.pid,
    {
        self.pid
    }

    pub fn status(&self) -> (r: Status)
        ensures
            r == self@.status,
    {
        self.status
    }

    /// The exit code; 0 until the container stops.
    pub fn exit_code(&self) -> (r: i32)
        ensures
            r == self@.exit_code,
    {
        self.exit_code
    }

    /// Consumes the container, handing back its pending subscribers.
    pub fn into_waiters(self) -> (r: Vec<u64>)
        ensures
            r@ == self@.waiters,
    {
        self.waiters
    }
}

} // verus!
