use vstd::prelude::*;

verus! {

/// Name of the file, inside the bundle, where the runtime writes the container's pid.
pub const PID_FILE: &'static str = "container.pid";

/// How an invocation of the OCI runtime binary ended.
#[derive(Clone, Copy, Debug, PartialEq, Eq, Structural)]
pub enum RunOutcome {
    /// The runtime exited with this status code.
    Exited(i32),
    /// The runtime was killed by this signal.
    Signaled(i32),
    /// The runtime could not be spawned, or waiting for it failed.
    NotRun,
}

/// Why a container operation failed.
#[derive(Clone, Copy, Debug, PartialEq, Eq, Structural)]
pub enum ContainerError {
    /// The container is not in a state that allows the operation.
    InvalidState,
    /// The runtime exited with a non-zero status.
    RuntimeExited(i32),
    /// The runtime was killed by a signal.
    RuntimeSignaled(i32),
    /// The runtime could not be spawned or waited for.
    RuntimeNotRun,
    /// The pid file could not be read.
    PidFileUnreadable,
    /// The pid file does not hold a positive decimal pid.
    BadPidFile,
    /// Delivering a signal failed with this `errno`.
    SignalFailed(i32),
}

impl RunOutcome {
    pub open spec fn succeeded(self) -> bool {
        self == RunOutcome::Exited(0)
    }

    /// The error a failed invocation is reported as.
    pub open spec fn error(self) -> ContainerError {
        match self {
            RunOutcome::Exited(c) => ContainerError::RuntimeExited(c),
            RunOutcome::Signaled(s) => ContainerError::RuntimeSignaled(s),
            RunOutcome::NotRun => ContainerError::RuntimeNotRun,
        }
    }

    /// `Ok` exactly when the runtime exited with status 0.
    pub fn check(&self) -> (r: Result<(), ContainerError>)
        ensures
            r is Ok <==> self.succeeded(),
            r is Err ==> r->Err_0 == self.error(),
    {
        match self {
            RunOutcome::Exited(c) => {
                if *c == 0 {
                    Ok(())
                } else {
                    Err(ContainerError::RuntimeExited(*c))
                }
            },
            RunOutcome::Signaled(s) => Err(ContainerError::RuntimeSignaled(*s)),
            RunOutcome::NotRun => Err(ContainerError::RuntimeNotRun),
        }
    }
}

/// `dir` joined with the relative name `name`: a `/` is put between them
/// unless `dir` is empty or already ends with one.
pub open spec fn join_path(dir: Seq<char>, name: Seq<char>) -> Seq<char> {
    if dir.len() == 0 {
        name
    } else if dir.last() == '/' {
        dir + name
    } else {
        dir + seq!['/'] + name
    }
}

/// Joins a directory path and a relative file name.
pub fn join(dir: &str, name: &str) -> (r: String)
    ensures
        r@ == join_path(dir@, name@),
{
    let n = dir.unicode_len();
    if n == 0 {
        String::from_str(name)
    } else if dir.get_char(n - 1) == '/' {
        let mut r = String::from_str(dir);
        r.append(name);
        r
    } else {
        let mut r = String::from_str(dir);
        r.append("/");
        r.append(name);
        proof {
            reveal_strlit("/");
            assert(r@ =~= dir@ + seq!['/'] + name@);
        }
        r
    }
}

pub open spec fn is_digit(c: char) -> bool {
    '0' <= c <= '9'
}

pub open spec fn all_digits(s: Seq<char>) -> bool {
    forall|i: int| 0 <= i < s.len() ==> #[trigger] is_digit(s[i])
}

/// Value of a string of decimal digits, most significant first.
pub open spec fn digits_value(s: Seq<char>) -> nat
    decreases s.len(),
{
    if s.len() == 0 {
        0
    } else {
        digits_value(s.drop_last()) * 10 + (s.last() as nat - '0' as nat) as nat
    }
}

/// `s` without its leading `+`, if it has one.
pub open spec fn unsigned_part(s: Seq<char>) -> Seq<char> {
    if s.len() > 0 && s[0] == '+' {
        s.skip(1)
    } else {
        s
    }
}

/// The pid a pid file's contents denote: one or more decimal digits, with an
/// optional leading `+`, whose value is a positive 32-bit signed integer.
/// Nothing else is accepted, not even surrounding whitespace.
pub open spec fn pid_value(s: Seq<char>) -> Option<int> {
    let digits = unsigned_part(s);
    if digits.len() > 0 && all_digits(digits) && 0 < digits_value(digits) <= i32::MAX {
        Some(digits_value(digits) as int)
    } else {
        None
    }
}

proof fn lemma_digits_value_grows(a: Seq<char>, b: Seq<char>)
    requires
        all_digits(b),
    ensures
        digits_value(a) <= digits_value(a + b),
    decreases b.len(),
{
    if b.len() > 0 {
        let a2 = a + b.drop_last();
        lemma_digits_value_grows(a, b.drop_last());
        assert((a + b).drop_last() =~= a2);
        assert(is_digit(b[b.len() - 1]));
    }
}

/// Parses the contents of a pid file.
pub fn parse_pid(s: &str) -> (r: Result<i32, ContainerError>)
    ensures
        r is Ok <==> pid_value(s@) is Some,
        r is Ok ==> r->Ok_0 as int == pid_value(s@)->0,
        r is Err ==> r->Err_0 == ContainerError::BadPidFile,
{
    let n = s.unicode_len();
    let start: usize = if n > 0 && s.get_char(0) == '+' {
        1
    } else {
        0
    };
    let ghost digits = unsigned_part(s@);
    assert(digits =~= s@.subrange(start as int, n as int));
    if start == n {
        return Err(ContainerError::BadPidFile);
    }
    let mut acc: i64 = 0;
    let mut i: usize = start;
    while i < n
        invariant
            start <= i <= n,
            n == s@.len(),
            digits == unsigned_part(s@),
            digits =~= s@.subrange(start as int, n as int),
            all_digits(s@.subrange(start as int, i as int)),
            acc as int == digits_value(s@.subrange(start as int, i as int)),
            acc <= i32::MAX,
        decreases n - i,
    {
        let c = s.get_char(i);
        let ghost prefix = s@.subrange(start as int, i as int);
        let ghost next = s@.subrange(start as int, i as int + 1);
        assert(next.drop_last() =~= prefix);
        assert(next.last() == c);
        assert(digits[i - start] == c);
        if !('0' <= c && c <= '9') {
            assert(!is_digit(digits[i - start]));
            assert(!all_digits(digits));
            return Err(ContainerError::BadPidFile);
        }
        let d = (c as u32 - '0' as u32) as i64;
        acc = acc * 10 + d;
        assert(digits_value(next) == acc);
        assert(all_digits(next)) by {
            assert forall|k: int| 0 <= k < next.len() implies #[trigger] is_digit(next[k]) by {
                if k < prefix.len() {
                    assert(next[k] == prefix[k]);
                }
            }
        }
        if acc > i32::MAX as i64 {
            proof {
                let rest = s@.subrange(i as int + 1, n as int);
                assert(digits =~= next + rest);
                if all_digits(digits) {
                    assert forall|k: int| 0 <= k < rest.len() implies #[trigger] is_digit(rest[k]) by {
                        assert(rest[k] == digits[k + next.len()]);
                    }
                    lemma_digits_value_grows(next, rest);
                    assert(digits_value(digits) > i32::MAX);
                }

            }
            return Err(ContainerError::BadPidFile);
        }
        i = i + 1;
    }
    if acc == 0 {
        return Err(ContainerError::BadPidFile);
    }
    Ok(acc as i32)
}

} // verus!
