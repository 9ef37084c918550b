//! The engine's command line, and what its outcome means.
use crate::error::EngineError;
use crate::resolver::ENGINE_DIR_NAME;
use crate::text::{decode_lossy, decode_strict, describe_decode_error, lossy_text};
use vstd::prelude::*;
use vstd::utf8::{decode_utf8, valid_utf8};

verus! {

/// The executable that runs the engine.
pub const ENGINE_PROGRAM: &'static str = "python3";

/// The flag that makes the executable run a module by name.
pub const MODULE_FLAG: &'static str = "-m";

pub const LAUNCH_FAILURE_PREFIX: &'static str = "Failed to execute Python engine: ";

pub const DECODE_FAILURE_PREFIX: &'static str = "Failed to parse stdout: ";

pub const EXECUTION_FAILURE_PREFIX: &'static str = "Engine command failed: ";

/// Sets the standard output apart from the standard error in an
/// execution failure's message.
pub const OUTPUT_SEPARATOR: &'static str = "\nOutput: ";

/// The executable to spawn.
pub fn engine_program() -> (r: String)
    ensures
        r@ == ENGINE_PROGRAM@,
{
    String::from_str(ENGINE_PROGRAM)
}

/// The arguments to spawn it with: the module flag, the engine module's
/// name, then the caller's arguments as they are.
pub fn engine_arguments(args: &Vec<String>) -> (r: Vec<String>)
    ensures
        r.deep_view() == seq![MODULE_FLAG@, ENGINE_DIR_NAME@] + args.deep_view(),
{
    let mut r: Vec<String> = Vec::new();
    r.push(String::from_str(MODULE_FLAG));
    r.push(String::from_str(ENGINE_DIR_NAME));
    let mut i: usize = 0;
    while i < args.len()
        invariant
            i <= args.len(),
            r.deep_view() == seq![MODULE_FLAG@, ENGINE_DIR_NAME@] + args.deep_view().take(i as int),
        decreases args.len() - i,
    {
        let ghost before = r.deep_view();
        r.push(args[i].clone());
        assert(r.deep_view() =~= before.push(args[i as int]@));
        assert(args.deep_view().take(i + 1) =~= args.deep_view().take(i as int).push(args[i as int]@));
        assert(r.deep_view() =~= seq![MODULE_FLAG@, ENGINE_DIR_NAME@] + args.deep_view().take(i + 1));
        i = i + 1;
    }
    assert(args.deep_view().take(i as int) =~= args.deep_view());
    r
}

/// How one run of the engine process ended.
pub enum ProcessOutcome {
    /// The process could not be started; the operating system's description.
    SpawnFailed(String),
    /// The process ran and exited; `success` where its status was zero.
    Exited { success: bool, stdout: Vec<u8>, stderr: Vec<u8> },
}

/// The message of an execution failure: the standard error, then the
/// standard output where there is any.
pub open spec fn execution_failure_text(stderr: Seq<char>, stdout: Seq<char>) -> Seq<char> {
    EXECUTION_FAILURE_PREFIX@ + stderr + if stdout.len() == 0 {
        Seq::<char>::empty()
    } else {
        OUTPUT_SEPARATOR@ + stdout
    }
}

/// Whether `p` is the start of `s`.
pub open spec fn starts_with(s: Seq<char>, p: Seq<char>) -> bool {
    p.len() <= s.len() && s.subrange(0, p.len() as int) == p
}

/// The result of one invocation, given how the process ended: the decoded
/// standard output on a zero exit, else the failure that fits.
pub fn classify_outcome(outcome: ProcessOutcome) -> (r: Result<String, EngineError>)
    ensures
        match outcome {
            ProcessOutcome::SpawnFailed(os) => r matches Err(EngineError::LaunchFailure(m)) && m@
                == LAUNCH_FAILURE_PREFIX@ + os@,
            ProcessOutcome::Exited { success: true, stdout, .. } => if valid_utf8(stdout@) {
                r matches Ok(s) && s@ == decode_utf8(stdout@)
            } else {
                r matches Err(EngineError::OutputDecodeFailure(m)) && starts_with(
                    m@,
                    DECODE_FAILURE_PREFIX@,
                )
            },
            ProcessOutcome::Exited { success: false, stdout, stderr } => r matches Err(
                EngineError::ExecutionFailure(m),
            ) && m@ == execution_failure_text(lossy_text(stderr@), lossy_text(stdout@)),
        },
{
    match outcome {
        ProcessOutcome::SpawnFailed(os) => {
            let mut m = String::from_str(LAUNCH_FAILURE_PREFIX);
            m.append(os.as_str());
            Err(EngineError::LaunchFailure(m))
        },
        ProcessOutcome::Exited { success, stdout, stderr } => {
            if success {
                match decode_strict(stdout) {
                    Ok(s) => Ok(s),
                    Err(e) => {
                        let mut m = String::from_str(DECODE_FAILURE_PREFIX);
                        let ghost head = m@;
                        let detail = describe_decode_error(&e);
                        m.append(detail.as_str());
                        assert(m@.subrange(0, head.len() as int) =~= head);
                        Err(EngineError::OutputDecodeFailure(m))
                    },
                }
            } else {
                let err_text = decode_lossy(&stderr);
                let out_text = decode_lossy(&stdout);
                let mut m = String::from_str(EXECUTION_FAILURE_PREFIX);
                m.append(err_text.as_str());
                if !out_text.as_str().is_empty() {
                    m.append(OUTPUT_SEPARATOR);
                    m.append(out_text.as_str());
                }
                assert(m@ =~= execution_failure_text(err_text@, out_text@));
                Err(EngineError::ExecutionFailure(m))
            }
        },
    }
}

} // verus!
