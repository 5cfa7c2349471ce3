use vstd::prelude::*;

use crate::text::{decimal, has_subseq, i64_to_decimal, contains_str};

verus! {

/// The lower-case form of a string, as `str::to_lowercase` gives it.
pub uninterp spec fn lowercase(s: Seq<char>) -> Seq<char>;

/// `str::to_lowercase`. Claimed: the result is the lower-case form named
/// by `lowercase` (a function of the text alone, fixed by Unicode's
/// lower-case mappings).
#[verifier::external_body]
fn to_lowercase(s: &str) -> (r: String)
    ensures
        r@ == lowercase(s@),
{
    s.to_lowercase()
}

/// Audio sessions that are never ducked: the application's own, the idle
/// and system processes, system sounds, the audio engine and service
/// hosts, and processes whose name could not be read.
pub open spec fn skipped_session(pid: u32, my_pid: u32, is_system_sounds: bool, process_name: Seq<char>) -> bool {
    ||| pid == my_pid
    ||| pid == 0
    ||| pid == 4
    ||| is_system_sounds
    ||| has_subseq(lowercase(process_name), "audiodg"@)
    ||| has_subseq(lowercase(process_name), "svchost"@)
    ||| has_subseq(process_name, "System/Protected"@)
}

/// Whether the audio session of process `pid` is left alone.
pub fn should_skip_session(pid: u32, my_pid: u32, is_system_sounds: bool, process_name: &str) -> (r: bool)
    ensures
        r == skipped_session(pid, my_pid, is_system_sounds, process_name@),
{
    if pid == my_pid || pid == 0 || pid == 4 || is_system_sounds {
        return true;
    }
    let lower = to_lowercase(process_name);
    contains_str(lower.as_str(), "audiodg") || contains_str(lower.as_str(), "svchost") || contains_str(
        process_name,
        "System/Protected",
    )
}

/// The names given to the idle and system processes.
pub fn special_process_name(pid: u32) -> (r: Option<&'static str>)
    ensures
        pid == 0 ==> (r matches Some(n) && n@ == "System Idle Process"@),
        pid == 4 ==> (r matches Some(n) && n@ == "System"@),
        pid != 0 && pid != 4 ==> r is None,
{
    if pid == 0 {
        Some("System Idle Process")
    } else if pid == 4 {
        Some("System")
    } else {
        None
    }
}

/// The name of a process whose executable could not be read.
pub fn protected_process_name(pid: u32) -> (r: String)
    ensures
        r@ == "PID: "@ + decimal(pid as int) + " (System/Protected)"@,
{
    let mut r = String::from_str("PID: ");
    let n = i64_to_decimal(pid as i64);
    r.append(n.as_str());
    r.append(" (System/Protected)");
    r
}

/// The name of a process whose path has no file name.
pub fn unnamed_process_name(pid: u32) -> (r: String)
    ensures
        r@ == "PID: "@ + decimal(pid as int),
{
    let mut r = String::from_str("PID: ");
    let n = i64_to_decimal(pid as i64);
    r.append(n.as_str());
    r
}

/// The key under which a session's previous volume is kept while ducked:
/// process id and session index.
pub fn session_key(pid: u32, index: i32) -> (k: String)
    ensures
        k@ == decimal(pid as int) + "_"@ + decimal(index as int),
{
    let mut k = i64_to_decimal(pid as i64);
    k.append("_");
    let i = i64_to_decimal(index as i64);
    k.append(i.as_str());
    k
}

/// The key under which a session's previous volume is written to disk, to
/// be restored after a crash: process name and id.
pub fn snapshot_key(process_name: &str, pid: u32) -> (k: String)
    ensures
        k@ == process_name@ + "_"@ + decimal(pid as int),
{
    let mut k = process_name.to_owned();
    k.append("_");
    let n = i64_to_decimal(pid as i64);
    k.append(n.as_str());
    k
}

/// Whether ducking other applications goes ahead: only when they are not
/// ducked already; they count as ducked from then on.
pub fn begin_duck(is_ducked: &mut bool) -> (proceed: bool)
    ensures
        proceed == !*old(is_ducked),
        *final(is_ducked),
{
    if *is_ducked {
        false
    } else {
        *is_ducked = true;
        true
    }
}

/// Whether restoring volumes goes ahead: not when nothing is ducked and no
/// volume is saved; otherwise the ducked flag is cleared, and volumes are
/// restored when some are saved.
pub fn begin_restore(is_ducked: &mut bool, has_saved_volumes: bool) -> (proceed: bool)
    ensures
        !*old(is_ducked) && !has_saved_volumes ==> *final(is_ducked) == *old(is_ducked) && !proceed,
        (*old(is_ducked) || has_saved_volumes) ==> !*final(is_ducked) && proceed == has_saved_volumes,
{
    if !*is_ducked && !has_saved_volumes {
        return false;
    }
    *is_ducked = false;
    has_saved_volumes
}

} // verus!
