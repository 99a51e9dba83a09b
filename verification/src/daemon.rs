//! The background process of a mount: its files and how it is stopped.
use crate::number::{
    decimal, is_digit, lemma_decimal, number_is_read_back, parse_i32, parsed_i32, signed_decimal,
    to_signed_decimal,
};
use crate::paths::{join_text, joined_text};
use crate::split::{replace_char, replaced, trim, trim_end, trim_start, trimmed};
use crate::text::is_space;
use crate::tools::external::opt_str;
use vstd::prelude::*;

verus! {

/// The directory that holds the files of background processes.
pub open spec fn data_directory(home: Option<Seq<char>>) -> Seq<char> {
    join_text(
        match home {
            None => "/tmp"@,
            Some(h) => h,
        },
        ".local/share/livefolders"@,
    )
}

/// The directory that holds the files of background processes.
pub fn data_dir(home: Option<&str>) -> (r: String)
    ensures
        r@ == data_directory(opt_str(home)),
{
    joined_text(
        match home {
            None => "/tmp",
            Some(h) => h,
        },
        ".local/share/livefolders",
    )
}

/// The file that holds the process id for a mountpoint.
pub open spec fn pid_file(mountpoint: Seq<char>, home: Option<Seq<char>>) -> Seq<char> {
    join_text(data_directory(home), replace_char(mountpoint, '/', '_') + ".pid"@)
}

/// The file that holds the process id for a mountpoint.
pub fn pid_file_for(mountpoint: &str, home: Option<&str>) -> (r: String)
    ensures
        r@ == pid_file(mountpoint@, opt_str(home)),
{
    let mut name = replaced(mountpoint, '/', '_');
    name.push_str(".pid");
    joined_text(&data_dir(home), &name)
}

/// The log of background processes.
pub fn log_file(home: Option<&str>) -> (r: String)
    ensures
        r@ == join_text(data_directory(opt_str(home)), "livefolders.log"@),
{
    joined_text(&data_dir(home), "livefolders.log")
}

/// What is printed when a mount goes to the background.
pub fn background_notice(mountpoint: &str, log: &str) -> (r: String)
    ensures
        r@ == "Mounting at "@ + mountpoint@ + " in background.\nLogs: "@ + log@
            + "\nStop with: livefolders stop"@,
{
    let mut s = "Mounting at ".to_string();
    s.push_str(mountpoint);
    s.push_str(" in background.\nLogs: ");
    s.push_str(log);
    s.push_str("\nStop with: livefolders stop");
    s
}

/// What a file with a process id holds.
pub fn pid_line(pid: i32) -> (r: String)
    ensures
        r@ == signed_decimal(pid as int) + "\n"@,
{
    let mut s = to_signed_decimal(pid);
    s.push_str("\n");
    s
}

/// The process to stop for a mountpoint. `content` is what its file with the process
/// id holds, where there is one.
pub fn stop(mountpoint: &str, pid_path: &str, content: Option<&str>) -> (r: Result<i32, String>)
    ensures
        match opt_str(content) {
            None => r matches Err(m) && m@ == "no PID file found for "@ + mountpoint@
                + ".\nIs livefolders running for that mountpoint?"@,
            Some(c) => match parsed_i32(trim(c)) {
                None => r matches Err(m) && m@ == "invalid PID in "@ + pid_path@,
                Some(pid) => r == Ok::<i32, String>(pid),
            },
        },
{
    match content {
        None => {
            let mut m = "no PID file found for ".to_string();
            m.push_str(mountpoint);
            m.push_str(".\nIs livefolders running for that mountpoint?");
            Err(m)
        },
        Some(c) => match parse_i32(&trimmed(c)) {
            None => {
                let mut m = "invalid PID in ".to_string();
                m.push_str(pid_path);
                Err(m)
            },
            Some(pid) => Ok(pid),
        },
    }
}

/// How the attempt to signal a process ended.
#[derive(Debug)]
pub enum SignalOutcome {
    Sent,
    /// There is no such process.
    Gone,
    Failed(String),
}

/// What follows from the attempt to stop a process: what is printed once its file is
/// removed. A process that is gone already counts as stopped.
pub fn stopped(pid: i32, outcome: SignalOutcome) -> (r: Result<String, String>)
    ensures
        match outcome {
            SignalOutcome::Failed(e) => r matches Err(m) && m@ == "failed to send SIGTERM to PID "@
                + signed_decimal(pid as int) + ": "@ + e@,
            _ => r matches Ok(m) && m@ == "Stopped livefolders (PID "@ + signed_decimal(pid as int)
                + ")."@,
        },
{
    match outcome {
        SignalOutcome::Failed(e) => {
            let mut m = "failed to send SIGTERM to PID ".to_string();
            m.push_str(&to_signed_decimal(pid));
            m.push_str(": ");
            m.push_str(&e);
            Err(m)
        },
        _ => {
            let mut m = "Stopped livefolders (PID ".to_string();
            m.push_str(&to_signed_decimal(pid));
            m.push_str(").");
            Ok(m)
        },
    }
}

/// The process that is stopped for a mountpoint is the one that its file names.
pub proof fn stop_finds_what_was_written(pid: i32)
    ensures
        parsed_i32(trim(signed_decimal(pid as int) + "\n"@)) == Some(pid),
{
    reveal_strlit("\n");
    reveal_strlit("-");
    let digits = signed_decimal(pid as int);
    let text = digits + "\n"@;
    number_is_read_back(pid);
    lemma_decimal(
        if pid < 0 {
            (-pid) as nat
        } else {
            pid as nat
        },
    );
    assert(digits[0] == '-' || is_digit(digits[0]));
    assert(is_digit(digits.last())) by {
        if pid < 0 {
            assert(digits.last() == decimal((-pid) as nat).last());
        }
    }
    assert(text[0] == digits[0]);
    assert(trim_start(text) == text);
    assert(text.drop_last() =~= digits);
    assert(is_space('\n'));
    assert(trim_end(text) == trim_end(digits));
}

} // verus!
