//! The messages with which injecting the payload into the game fails.

use vstd::prelude::*;

verus! {

/// The error when no process of the game's name is running.
pub fn process_not_running(proc_name: &str) -> (res: String)
    ensures
        res@ == proc_name@ + " is not running"@,
{
    let mut msg = String::from_str(proc_name);
    msg.append(" is not running");
    msg
}

/// The error when the injection itself fails, with the injector's error text.
pub fn injection_failed(err_text: &str) -> (res: String)
    ensures
        res@ == "Failed to inject payload. err: "@ + err_text@,
{
    let mut msg = String::from_str("Failed to inject payload. err: ");
    msg.append(err_text);
    msg
}

} // verus!
