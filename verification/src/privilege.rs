//! Whether the process runs elevated, and the outcome of asking Windows to
//! restart it elevated.

use vstd::prelude::*;

use crate::text::{decimal, digits_value, lemma_decimal_reads_back, push_decimal};

verus! {

#[derive(Debug, Clone, PartialEq, Eq)]
pub struct PrivilegeStatus {
    pub is_elevated: bool,
    pub can_relaunch_as_admin: bool,
}

/// The privilege status of a process that is (or is not) elevated, on a
/// platform that can (or cannot) restart it elevated: a restart is offered
/// only where the platform allows it and the process is not yet elevated.
pub fn status(is_elevated: bool, platform_can_relaunch: bool) -> (r: PrivilegeStatus)
    ensures
        r.is_elevated == is_elevated,
        r.can_relaunch_as_admin == (platform_can_relaunch && !is_elevated),
{
    PrivilegeStatus {
        is_elevated,
        can_relaunch_as_admin: platform_can_relaunch && !is_elevated,
    }
}

pub open spec fn unsupported_message() -> Seq<char> {
    "관리자 권한 재시작은 Windows에서만 지원됩니다."@
}

pub open spec fn failure_message(last_error: u32) -> Seq<char> {
    "관리자 권한 재시작 요청에 실패했습니다. Windows error code: "@ + decimal(last_error as nat)
}

/// The outcome of a request to restart elevated. `shell_outcome` is `None`
/// where the platform has no such request, and otherwise the value that the
/// shell returned with the last OS error code: above 32 the request was
/// accepted (`Ok`); otherwise it failed, with the error code in the message.
pub fn relaunch_as_admin(shell_outcome: Option<(isize, u32)>) -> (r: Result<(), String>)
    ensures
        match shell_outcome {
            None => r matches Err(m) && m@ == unsupported_message(),
            Some((result, last_error)) => if result > 32 {
                r is Ok
            } else {
                r matches Err(m) && m@ == failure_message(last_error)
            },
        },
{
    match shell_outcome {
        None => Err(String::from_str("관리자 권한 재시작은 Windows에서만 지원됩니다.")),
        Some((result, last_error)) => {
            if result <= 32 {
                let mut m = String::from_str("관리자 권한 재시작 요청에 실패했습니다. Windows error code: ");
                push_decimal(&mut m, last_error as u64);
                Err(m)
            } else {
                Ok(())
            }
        },
    }
}

/// A failed request is reported with the fixed failure text followed by the
/// OS error code in decimal digits that read back as that code; a platform
/// without the request is reported with the fixed text that says so.
pub proof fn lemma_relaunch_messages(last_error: u32)
    ensures
        unsupported_message() == "관리자 권한 재시작은 Windows에서만 지원됩니다."@,
        failure_message(last_error).subrange(0, "관리자 권한 재시작 요청에 실패했습니다. Windows error code: "@.len() as int)
            == "관리자 권한 재시작 요청에 실패했습니다. Windows error code: "@,
        ({
            let digits = failure_message(last_error).subrange(
                "관리자 권한 재시작 요청에 실패했습니다. Windows error code: "@.len() as int,
                failure_message(last_error).len() as int,
            );
            &&& digits.len() >= 1
            &&& forall|i: int| 0 <= i < digits.len() ==> '0' <= #[trigger] digits[i] <= '9'
            &&& digits_value(digits) == last_error
        }),
{
    let prefix = "관리자 권한 재시작 요청에 실패했습니다. Windows error code: "@;
    let m = failure_message(last_error);
    lemma_decimal_reads_back(last_error as nat);
    assert(m.subrange(0, prefix.len() as int) =~= prefix);
    assert(m.subrange(prefix.len() as int, m.len() as int) =~= decimal(last_error as nat));
}

} // verus!
