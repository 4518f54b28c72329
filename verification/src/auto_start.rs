//! macOS login-item status decisions: what is reported as enabled and when
//! a registration change is needed.
use vstd::prelude::*;

verus! {

pub open spec fn approval_message() -> Seq<char> {
    "Allow H-OpenTypeless in System Settings → General → Login Items to enable launch at startup"@
}

pub open spec fn unknown_status_message() -> Seq<char> {
    "Unknown macOS login item status"@
}

/// Service-management status: 0 not registered, 1 enabled, 2 awaiting
/// approval, 3 not found. Only 1 counts as registered; awaiting approval is
/// an error that tells the user what to do.
pub fn registered(status: isize) -> (r: Result<bool, String>)
    ensures
        (status == 0 || status == 3) ==> r == Ok::<bool, String>(false),
        status == 1 ==> r == Ok::<bool, String>(true),
        status == 2 ==> (r matches Err(m) && m@ == approval_message()),
        !(0 <= status <= 3) ==> (r matches Err(m) && m@ == unknown_status_message()),
{
    if status == 0 || status == 3 {
        Ok(false)
    } else if status == 1 {
        Ok(true)
    } else if status == 2 {
        Err(
            String::from_str(
                "Allow H-OpenTypeless in System Settings → General → Login Items to enable launch at startup",
            ),
        )
    } else {
        Err(String::from_str("Unknown macOS login item status"))
    }
}

/// Whether registering (`enabled`) or unregistering must act: enabling acts
/// unless already registered (awaiting approval is an error); disabling
/// acts for a registered or pending item.
pub fn needs_change(status: isize, enabled: bool) -> (r: Result<bool, String>)
    ensures
        enabled && (status == 0 || status == 3) ==> r == Ok::<bool, String>(true),
        enabled && status == 1 ==> r == Ok::<bool, String>(false),
        enabled && status == 2 ==> (r matches Err(m) && m@ == approval_message()),
        !enabled && (status == 0 || status == 3) ==> r == Ok::<bool, String>(false),
        !enabled && (status == 1 || status == 2) ==> r == Ok::<bool, String>(true),
        !(0 <= status <= 3) ==> (r matches Err(m) && m@ == unknown_status_message()),
{
    if enabled {
        match registered(status) {
            Ok(current) => Ok(!current),
            Err(e) => Err(e),
        }
    } else if status == 0 || status == 3 {
        Ok(false)
    } else if status == 1 || status == 2 {
        Ok(true)
    } else {
        Err(String::from_str("Unknown macOS login item status"))
    }
}

/// What the login-item service says of launch at startup: `Some(true)`
/// when the app is registered; `None` when the older launch agent decides
/// (no service, not registered, or awaiting approval, since an older agent
/// may still be active); an error when the service fails or reports an
/// unknown status.
pub fn login_item_state(status: Option<Result<isize, String>>) -> (r: Result<Option<bool>, String>)
    ensures
        status is None ==> r == Ok::<Option<bool>, String>(None),
        status matches Some(Err(e)) ==> r == Err::<Option<bool>, String>(e),
        status matches Some(Ok(s)) ==> if s == 1 {
            r == Ok::<Option<bool>, String>(Some(true))
        } else if 0 <= s <= 3 {
            r == Ok::<Option<bool>, String>(None)
        } else {
            r matches Err(m) && m@ == unknown_status_message()
        },
{
    match status {
        None => Ok(None),
        Some(Err(e)) => Err(e),
        Some(Ok(s)) => {
            if s == 2 {
                return Ok(None);
            }
            match registered(s) {
                Ok(true) => Ok(Some(true)),
                Ok(false) => Ok(None),
                Err(e) => Err(e),
            }
        },
    }
}

} // verus!
