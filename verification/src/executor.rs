//! The per-candidate execution lifecycle, as decisions over plain values.
//!
//! One target process runs per candidate: the invocation plan fixes the
//! program, the flags that make it read the candidate from standard input,
//! the preloaded shim, the serialized channel descriptor in the environment,
//! and the wall-clock timeout. After the run, the outcome is classified:
//! a fired watchdog is a timeout, a signalled termination is a crash, and
//! everything else — a plain exit, whatever its code — is a pass, since a
//! compiler target rejects most inputs with a non-zero exit in the normal
//! course of fuzzing. Spawning, piping and killing the process is the
//! surrounding program's job.

use vstd::prelude::*;
use vstd::string::StringSliceAdditionalSpecFns;

use libafl_bolts::shmem::ShMemDescription;

use crate::channel::{descriptor_json, descriptor_to_string};
use crate::discovery::{all_digits, dec_value};

verus! {

/// The fixed path of the target binary.
pub const TARGET_BINARY: &'static str = "./llvm/build/bin/clang";

/// The shim preloaded into every target run.
pub const SHIM_LIBRARY: &'static str = "./target/release/libsetup_guard_redirection.so";

/// The diagnostic library preloaded for guard-count discovery.
pub const GUARD_NUM_LIBRARY: &'static str = "./target/release/libget_guard_num.so";

/// How one execution ended. First-class data, never an error: every outcome
/// flows to the objective feedback, none aborts the loop.
#[derive(Clone, Copy, Debug, PartialEq, Eq, Structural)]
pub enum Outcome {
    /// The target exited on its own, whatever its exit code.
    Pass,
    /// The target was terminated by a signal.
    Crash,
    /// The watchdog fired and the target was forcibly killed.
    Timeout,
}

/// The transient result of one execution, consumed immediately.
pub struct ExecutionResult {
    /// How the run ended.
    pub outcome: Outcome,
    /// Captured standard output, bounded by the capture buffer.
    pub stdout: Vec<u8>,
    /// Captured standard error, bounded by the capture buffer.
    pub stderr: Vec<u8>,
    /// Wall-clock time of the run, in milliseconds.
    pub elapsed_millis: u64,
}

impl ExecutionResult {
    /// Assembles one execution's result: the outcome classified from how
    /// the process ended, with the captured streams and the elapsed time.
    pub fn new(
        watchdog_fired: bool,
        terminated_by_signal: bool,
        stdout: Vec<u8>,
        stderr: Vec<u8>,
        elapsed_millis: u64,
    ) -> (r: Self)
        ensures
            r.outcome == outcome_spec(watchdog_fired, terminated_by_signal),
            r.stdout == stdout,
            r.stderr == stderr,
            r.elapsed_millis == elapsed_millis,
    {
        ExecutionResult {
            outcome: classify_outcome(watchdog_fired, terminated_by_signal),
            stdout,
            stderr,
            elapsed_millis,
        }
    }
}

/// How a finished run is classified: the watchdog wins, then a signalled
/// termination, then a pass. A plain non-zero exit code is a pass: the
/// target rejecting an input is its normal behaviour, not a finding.
pub open spec fn outcome_spec(watchdog_fired: bool, terminated_by_signal: bool) -> Outcome {
    if watchdog_fired {
        Outcome::Timeout
    } else if terminated_by_signal {
        Outcome::Crash
    } else {
        Outcome::Pass
    }
}

/// Classifies one finished execution. `Timeout` exactly when the watchdog
/// fired (the process was then forcibly killed); otherwise `Crash` exactly
/// when the target was terminated by a signal; otherwise a pass, whatever
/// the exit code.
pub fn classify_outcome(watchdog_fired: bool, terminated_by_signal: bool) -> (r: Outcome)
    ensures
        r == outcome_spec(watchdog_fired, terminated_by_signal),
{
    if watchdog_fired {
        Outcome::Timeout
    } else if terminated_by_signal {
        Outcome::Crash
    } else {
        Outcome::Pass
    }
}

/// Everything the surrounding program needs to spawn one target run.
pub struct InvocationPlan {
    /// The program to execute.
    pub program: String,
    /// Its command-line arguments.
    pub args: Vec<String>,
    /// Environment entries set for the child.
    pub env: Vec<(String, String)>,
    /// The wall-clock timeout the watchdog enforces, in milliseconds.
    pub timeout_millis: u64,
}

/// Builds the plan for one target run: the fixed invocation convention that
/// makes the target read the candidate from standard input and discard its
/// output, the preloaded shim, and the channel descriptor in the
/// environment.
pub fn build_invocation_plan(descriptor: &ShMemDescription, timeout_millis: u64) -> (r:
    InvocationPlan)
    ensures
        r.program@ == TARGET_BINARY@,
        r.args@.len() == 5,
        r.args@[0]@ == "-o"@,
        r.args@[1]@ == "/dev/null"@,
        r.args@[2]@ == "-xc++"@,
        r.args@[3]@ == "-fintegrated-cc1"@,
        r.args@[4]@ == "-"@,
        r.env@.len() == 2,
        r.env@[0].0@ == "LD_PRELOAD"@,
        r.env@[0].1@ == SHIM_LIBRARY@,
        r.env@[1].0@ == "SHMEM_DESCRIPTION"@,
        r.env@[1].1@ == descriptor_json(*descriptor),
        r.timeout_millis == timeout_millis,
{
    let program = TARGET_BINARY.to_owned();
    let mut args: Vec<String> = Vec::new();
    args.push("-o".to_owned());
    args.push("/dev/null".to_owned());
    args.push("-xc++".to_owned());
    args.push("-fintegrated-cc1".to_owned());
    args.push("-".to_owned());
    let mut env: Vec<(String, String)> = Vec::new();
    env.push(("LD_PRELOAD".to_owned(), SHIM_LIBRARY.to_owned()));
    env.push(("SHMEM_DESCRIPTION".to_owned(), descriptor_to_string(descriptor)));
    InvocationPlan { program, args, env, timeout_millis }
}

/// What a millisecond string means: its decimal value, when it is one.
pub open spec fn millis_spec(s: Seq<u8>) -> Option<u64> {
    if all_digits(s) && dec_value(s) <= u64::MAX {
        Some(dec_value(s) as u64)
    } else {
        None
    }
}

/// Parses a milliseconds string, as handed over from command-line parsing:
/// the timeout exactly when the string is a decimal number that fits,
/// nothing otherwise.
pub fn timeout_from_millis_str(time: &str) -> (r: Option<u64>)
    ensures
        r == millis_spec(time.spec_bytes()),
{
    let bytes = time.as_bytes();
    let n = bytes.len();
    if n == 0 {
        return None;
    }
    let mut acc: u64 = 0;
    let mut i: usize = 0;
    proof {
        assert(time.spec_bytes().take(0) =~= Seq::<u8>::empty());
    }
    while i < n
        invariant
            i <= n,
            n == time.spec_bytes().len(),
            bytes@ == time.spec_bytes(),
            n > 0,
            forall|j: int| 0 <= j < i ==> 48 <= #[trigger] time.spec_bytes()[j] <= 57,
            acc == dec_value(time.spec_bytes().take(i as int)),
        decreases n - i,
    {
        let b = bytes[i];
        if b < 48 || b > 57 {
            proof {
                assert(!all_digits(time.spec_bytes()));
            }
            return None;
        }
        let d = (b - 48) as u64;
        if acc > (u64::MAX - d) / 10 {
            proof {
                let m = (u64::MAX - d) as int;
                assert(acc >= m / 10 + 1);
                assert(10 * acc >= 10 * (m / 10) + 10);
                assert(10 * (m / 10) + 10 > m);
                assert(10 * acc + d > u64::MAX);
                assert(time.spec_bytes().take(i + 1).drop_last() =~= time.spec_bytes().take(
                    i as int,
                ));
                assert(time.spec_bytes().take(i + 1).last() == time.spec_bytes()[i as int]);
                assert(dec_value(time.spec_bytes().take(i + 1)) > u64::MAX);
                if all_digits(time.spec_bytes()) {
                    crate::discovery::lemma_dec_value_prefix(time.spec_bytes(), i + 1);
                }
            }
            return None;
        }
        proof {
            assert(time.spec_bytes().take(i + 1).drop_last() =~= time.spec_bytes().take(i as int));
            assert(time.spec_bytes().take(i + 1).last() == time.spec_bytes()[i as int]);
        }
        acc = acc * 10 + d;
        i = i + 1;
    }
    proof {
        assert(time.spec_bytes().take(n as int) =~= time.spec_bytes());
        assert(all_digits(time.spec_bytes()));
    }
    Some(acc)
}

} // verus!
