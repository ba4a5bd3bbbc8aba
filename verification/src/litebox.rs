//! LiteBox: the process-level sandbox, applied at most once, failing closed.

use vstd::prelude::*;

verus! {

/// The operating system the process runs on.
#[derive(Clone, Copy, Debug, PartialEq, Eq, Structural)]
pub enum TargetOs {
    Linux,
    Windows,
    MacOs,
    /// Any other platform.
    Other,
}

/// The process-level sandbox: applied at most once per process.
pub struct LiteBox {
    initialized: bool,
}

/// The error number with which `unshare` reports a missing privilege (`EPERM`).
pub const EPERM: i32 = 1;

/// The message with which namespace isolation fails closed, given the OS error text.
pub open spec fn isolation_failure_message(os_error_text: Seq<char>) -> Seq<char> {
    "LiteBox: CRITICAL: Failed to unshare namespaces (might lack CAP_SYS_ADMIN or user namespaces restricted): "@
        + os_error_text + ". Security boundary was NOT established."@
}

/// Decides the outcome of the namespace isolation step from the status that
/// `unshare` returned and the OS error that followed. Success, and a refusal for
/// lack of privilege (`EPERM`, where the process falls back to basic hardening),
/// let the sandbox go on; any other failure stops it with an error (fail closed).
pub fn isolation_outcome(unshare_status: i32, os_error_code: Option<i32>, os_error_text: &str) -> (r:
    Result<(), String>)
    ensures
        r is Ok <==> (unshare_status == 0 || os_error_code == Some(EPERM)),
        r matches Err(m) ==> m@ == isolation_failure_message(os_error_text@),
{
    if unshare_status != 0 {
        let permission_denied = match os_error_code {
            Some(code) => code == EPERM,
            None => false,
        };
        if !permission_denied {
            let mut m = "LiteBox: CRITICAL: Failed to unshare namespaces (might lack CAP_SYS_ADMIN or user namespaces restricted): ".to_owned();
            m.append(os_error_text);
            m.append(". Security boundary was NOT established.");
            return Err(m);
        }
    }
    Ok(())
}

/// The Windows sandbox step: no restriction is applied yet, so it always succeeds.
pub fn apply_windows_sandbox() -> (r: Result<(), String>)
    ensures
        r is Ok,
{
    Ok(())
}

/// The step for platforms without an OS-level sandbox: it always succeeds.
pub fn apply_fallback_sandbox() -> (r: Result<(), String>)
    ensures
        r is Ok,
{
    Ok(())
}

impl LiteBox {
    /// Whether the platform sandbox has been applied successfully.
    pub closed spec fn is_applied(&self) -> bool {
        self.initialized
    }

    /// A sandbox that has not been applied yet.
    pub fn new() -> (lb: LiteBox)
        ensures
            !lb.is_applied(),
    {
        LiteBox { initialized: false }
    }

    /// Whether the platform sandbox has been applied successfully.
    pub fn is_initialized(&self) -> (b: bool)
        ensures
            b == self.is_applied(),
    {
        self.initialized
    }

    /// Applies the sandbox for `target` once. When it is already applied nothing
    /// runs, the sandbox is left as it is, and the result is `Ok`. On Linux the platform step is `apply_linux`,
    /// whose error is returned as is and leaves the sandbox unapplied (so a later
    /// call tries again); on Windows the Windows step runs; elsewhere there is no
    /// platform step. The sandbox counts as applied exactly when the result is `Ok`.
    pub fn apply_sandbox<F: FnOnce() -> Result<(), String>>(
        &mut self,
        target: TargetOs,
        apply_linux: F,
    ) -> (r: Result<(), String>)
        requires
            !old(self).is_applied() && target == TargetOs::Linux ==> call_requires(
                apply_linux,
                (),
            ),
        ensures
            old(self).is_applied() ==> r is Ok && *final(self) == *old(self),
            !old(self).is_applied() && target == TargetOs::Linux ==> call_ensures(
                apply_linux,
                (),
                r,
            ),
            !old(self).is_applied() && target != TargetOs::Linux ==> r is Ok,
            final(self).is_applied() <==> r is Ok,
    {
        if self.initialized {
            return Ok(());
        }
        match target {
            TargetOs::Linux => {
                let outcome = apply_linux();
                if outcome.is_ok() {
                    self.initialized = true;
                }
                return outcome;
            },
            TargetOs::Windows => {
                let outcome = apply_windows_sandbox();
                match outcome {
                    Ok(()) => {},
                    Err(e) => {
                        return Err(e);
                    },
                }
            },
            TargetOs::MacOs | TargetOs::Other => {},
        }
        self.initialized = true;
        Ok(())
    }
}

impl Default for LiteBox {
    fn default() -> (lb: LiteBox)
        ensures
            !lb.is_applied(),
    {
        LiteBox::new()
    }
}

} // verus!
