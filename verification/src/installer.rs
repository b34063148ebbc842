//! Installing on a UZ801 modem stick: checking that a file arrived whole,
//! deciding when to try again, and rewriting the startup script.

use crate::text::{
    append_hex_byte, chars_of, contains, hex_byte, lines, range_contains, split_lines, string_of,
    trim, trim_range,
};
use vstd::prelude::*;
use vstd::string::*;

verus! {

/// The startup scripts that are looked for, in this order.
pub const STARTUP_SCRIPTS: [&'static str; 2] = [
    "/system/bin/initmifiservice.sh",
    "/system/etc/init.qcom.post_boot.sh",
];

/// The service that competes for the diagnostic device and is taken out of
/// the startup script.
pub const DIAG_COMPETITOR: &'static str = "startRIDL";

/// The path of the daemon on the device.
pub const DAEMON_PATH: &'static str = "/data/rayhunter/rayhunter-daemon";

/// The line that starts the daemon.
pub const DAEMON_LINE: &'static str =
    "/data/rayhunter/rayhunter-daemon /data/rayhunter/config.toml &";

/// How many times a file is sent before the installation gives up.
pub const MAX_RETRIES: u32 = 3;

/// How many times a connection is tried before the installation gives up.
pub const MAX_ATTEMPTS: u32 = 30;

/// The MD5 digest of `data`.
pub uninterp spec fn md5_of(data: Seq<u8>) -> Seq<u8>;

/// The MD5 digest of a payload. Calls `md5::compute`; the contract only
/// gives the digest a name, as a function of the payload.
#[verifier::external_body]
fn md5_digest(payload: &[u8]) -> (digest: Vec<u8>)
    ensures
        digest@ == md5_of(payload@),
{
    md5::compute(payload).0.to_vec()
}

/// Bytes in hexadecimal: two digits in lower case for each.
pub open spec fn hex_text(bytes: Seq<u8>) -> Seq<char>
    decreases bytes.len(),
{
    if bytes.len() == 0 {
        Seq::empty()
    } else {
        hex_text(bytes.drop_last()) + hex_byte(bytes.last())
    }
}

/// Writes bytes in hexadecimal.
pub fn to_hex(bytes: &[u8]) -> (text: String)
    ensures
        text@ == hex_text(bytes@),
{
    let mut text = String::new();
    let mut i: usize = 0;
    assert(bytes@.take(0) == Seq::<u8>::empty());
    while i < bytes.len()
        invariant
            i <= bytes@.len(),
            text@ == hex_text(bytes@.take(i as int)),
        decreases bytes@.len() - i,
    {
        append_hex_byte(&mut text, bytes[i]);
        proof {
            assert(bytes@.take(i + 1).drop_last() == bytes@.take(i as int));
            assert(bytes@.take(i + 1).last() == bytes@[i as int]);
        }
        i = i + 1;
    }
    assert(bytes@.take(bytes@.len() as int) == bytes@);
    text
}

/// Says whether the output of `md5sum` names the given digest.
pub fn output_names_digest(md5sum_output: &str, digest: &[u8]) -> (named: bool)
    ensures
        named == contains(md5sum_output@, hex_text(digest@)),
{
    let hex = to_hex(digest);
    let v = chars_of(md5sum_output);
    assert(v@.subrange(0, v@.len() as int) == v@);
    range_contains(&v, 0, v.len(), hex.as_str())
}

/// Says whether a payload arrived whole on the device, given what `md5sum`
/// on the device says of the file: its output names the digest of the
/// payload.
pub fn payload_arrived(payload: &[u8], md5sum_output: &str) -> (arrived: bool)
    ensures
        arrived == contains(md5sum_output@, hex_text(md5_of(payload@))),
{
    let digest = md5_digest(payload);
    output_names_digest(md5sum_output, digest.as_slice())
}

/// What to do after an attempt to send a file.
#[derive(Clone, Copy, Debug, PartialEq, Eq, Structural)]
pub enum InstallStep {
    /// The file arrived whole: move it to its place.
    MoveIntoPlace,
    /// Send it again, after removing what arrived if `clean_up` says so.
    Retry { clean_up: bool },
    /// Give up: the transfer failed on the last attempt.
    FailWithTransferError,
    /// Give up: the file never arrived whole.
    FailVerification,
}

/// How an attempt to send a file ended.
#[derive(Clone, Copy, Debug, PartialEq, Eq, Structural)]
pub enum SendOutcome {
    /// The transfer itself failed.
    TransferFailed,
    /// The transfer went through and the file arrived whole.
    Verified,
    /// The transfer went through and the file did not arrive whole, or could
    /// not be checked.
    NotVerified,
}

/// What to do after the `attempt`-th attempt to send a file, counted from 1.
pub open spec fn install_step(attempt: u32, outcome: SendOutcome) -> InstallStep {
    match outcome {
        SendOutcome::Verified => InstallStep::MoveIntoPlace,
        SendOutcome::TransferFailed => if attempt >= MAX_RETRIES {
            InstallStep::FailWithTransferError
        } else {
            InstallStep::Retry { clean_up: false }
        },
        SendOutcome::NotVerified => if attempt >= MAX_RETRIES {
            InstallStep::FailVerification
        } else {
            InstallStep::Retry { clean_up: true }
        },
    }
}

/// Says what to do after the `attempt`-th attempt to send a file.
pub fn after_send(attempt: u32, outcome: SendOutcome) -> (step: InstallStep)
    ensures
        step == install_step(attempt, outcome),
{
    match outcome {
        SendOutcome::Verified => InstallStep::MoveIntoPlace,
        SendOutcome::TransferFailed => {
            if attempt >= MAX_RETRIES {
                InstallStep::FailWithTransferError
            } else {
                InstallStep::Retry { clean_up: false }
            }
        },
        SendOutcome::NotVerified => {
            if attempt >= MAX_RETRIES {
                InstallStep::FailVerification
            } else {
                InstallStep::Retry { clean_up: true }
            }
        },
    }
}

/// How an attempt to connect over ADB ended.
#[derive(Clone, Copy, Debug, PartialEq, Eq, Structural)]
pub enum ConnectOutcome {
    /// A device answered the test command.
    Answered,
    /// A device connected and did not answer the test command.
    Silent,
    /// No device was found.
    NotFound,
    /// A device was found and is held by another program.
    Busy,
    /// The connection failed for another reason.
    Failed,
}

/// What to do after an attempt to connect.
#[derive(Clone, Copy, Debug, PartialEq, Eq, Structural)]
pub enum ConnectStep {
    Connected,
    /// Wait a second and try again.
    TryAgain,
    FailBusy,
    FailWithError,
}

/// What to do after an attempt to connect: go on with a device that
/// answers, try again when none is found or it stays silent, and give up on
/// any error.
pub open spec fn connect_step(outcome: ConnectOutcome) -> ConnectStep {
    match outcome {
        ConnectOutcome::Answered => ConnectStep::Connected,
        ConnectOutcome::Silent | ConnectOutcome::NotFound => ConnectStep::TryAgain,
        ConnectOutcome::Busy => ConnectStep::FailBusy,
        ConnectOutcome::Failed => ConnectStep::FailWithError,
    }
}

/// Says what to do after an attempt to connect.
pub fn after_connect(outcome: ConnectOutcome) -> (step: ConnectStep)
    ensures
        step == connect_step(outcome),
{
    match outcome {
        ConnectOutcome::Answered => ConnectStep::Connected,
        ConnectOutcome::Silent | ConnectOutcome::NotFound => ConnectStep::TryAgain,
        ConnectOutcome::Busy => ConnectStep::FailBusy,
        ConnectOutcome::Failed => ConnectStep::FailWithError,
    }
}

/// Says whether the time to connect has run out: `attempts` were made.
pub fn connect_timed_out(attempts: u32) -> (timed_out: bool)
    ensures
        timed_out == (attempts >= MAX_ATTEMPTS),
{
    attempts >= MAX_ATTEMPTS
}

/// Whether a line of the startup script starts a competitor for the
/// diagnostic device.
pub open spec fn starts_competitor(line: Seq<char>) -> bool {
    contains(trim(line), DIAG_COMPETITOR@)
}

/// The lines that stay in the startup script: those that start no
/// competitor.
pub open spec fn kept_lines(ls: Seq<Seq<char>>) -> Seq<Seq<char>>
    decreases ls.len(),
{
    if ls.len() == 0 {
        Seq::empty()
    } else if starts_competitor(ls.last()) {
        kept_lines(ls.drop_last())
    } else {
        kept_lines(ls.drop_last()).push(ls.last())
    }
}

/// Whether one of the lines names the daemon.
pub open spec fn names_daemon(ls: Seq<Seq<char>>) -> bool {
    exists|i: int| 0 <= i < ls.len() && contains(#[trigger] ls[i], DAEMON_PATH@)
}

/// The lines of the new startup script: those that stay, and the line that
/// starts the daemon unless one of them names it already.
pub open spec fn new_lines(ls: Seq<Seq<char>>) -> Seq<Seq<char>> {
    let kept = kept_lines(ls);
    if names_daemon(kept) {
        kept
    } else {
        kept.push(DAEMON_LINE@)
    }
}

/// Lines joined by line feeds.
pub open spec fn joined_lines(ls: Seq<Seq<char>>) -> Seq<char>
    decreases ls.len(),
{
    if ls.len() == 0 {
        Seq::empty()
    } else if ls.len() == 1 {
        ls[0]
    } else {
        joined_lines(ls.drop_last()) + seq!['\n'] + ls.last()
    }
}

/// The new startup script: its lines joined by line feeds, with a line feed
/// at the end.
pub open spec fn new_script(content: Seq<char>) -> Seq<char> {
    let joined = joined_lines(new_lines(lines(content)));
    if joined.len() > 0 && joined.last() == '\n' {
        joined
    } else {
        joined + seq!['\n']
    }
}

/// Whether the rewrite takes lines out of the script.
pub open spec fn removes_lines(content: Seq<char>) -> bool {
    kept_lines(lines(content)).len() < lines(content).len()
}

/// Rewrites the startup script: lines that start a competitor for the
/// diagnostic device are taken out, and the line that starts the daemon is
/// added unless a line names the daemon already. Says also whether lines
/// were taken out.
pub fn rewrite_startup_script(content: &str) -> (r: (String, bool))
    ensures
        r.0@ == new_script(content@),
        r.1 == removes_lines(content@),
{
    let v = chars_of(content);
    let bounds = split_lines(&v);
    let ghost ls = lines(v@);
    let mut out: Vec<char> = Vec::new();
    let mut kept: usize = 0;
    let mut has_daemon = false;
    let mut i: usize = 0;
    assert(ls.take(0) == Seq::<Seq<char>>::empty());
    while i < bounds.len()
        invariant
            i <= bounds@.len(),
            v@ == content@,
            ls == lines(v@),
            bounds@.len() == ls.len(),
            forall|k: int|
                0 <= k < bounds@.len() ==> (#[trigger] bounds@[k]).0 <= bounds@[k].1 <= v@.len()
                    && v@.subrange(bounds@[k].0 as int, bounds@[k].1 as int) == ls[k],
            kept == kept_lines(ls.take(i as int)).len(),
            kept <= i,
            out@ == joined_lines(kept_lines(ls.take(i as int))),
            has_daemon == names_daemon(kept_lines(ls.take(i as int))),
        decreases bounds@.len() - i,
    {
        let (from, to) = bounds[i];
        let ghost before = kept_lines(ls.take(i as int));
        proof {
            assert(ls.take(i + 1).drop_last() == ls.take(i as int));
            assert(ls.take(i + 1).last() == ls[i as int]);
        }
        let (a, b) = trim_range(&v, from, to);
        if !range_contains(&v, a, b, DIAG_COMPETITOR) {
            let ghost after = before.push(ls[i as int]);
            if kept > 0 {
                out.push('\n');
            }
            let mut j: usize = from;
            let ghost head = out@;
            while j < to
                invariant
                    from <= j <= to <= v@.len(),
                    out@ == head + v@.subrange(from as int, j as int),
                decreases to - j,
            {
                out.push(v[j]);
                j = j + 1;
            }
            let names = range_contains(&v, from, to, DAEMON_PATH);
            proof {
                assert(after.drop_last() == before);
                assert(after.last() == ls[i as int]);
                if kept > 0 {
                    assert(out@ == joined_lines(before) + seq!['\n'] + ls[i as int]);
                } else {
                    assert(before.len() == 0);
                    assert(joined_lines(before) == Seq::<char>::empty());
                    assert(out@ == ls[i as int]);
                }
                if has_daemon {
                    let w = choose|w: int|
                        0 <= w < before.len() && contains(#[trigger] before[w], DAEMON_PATH@);
                    assert(after[w] == before[w]);
                }
                if names {
                    assert(contains(after[after.len() - 1], DAEMON_PATH@));
                }
                if names_daemon(after) && !has_daemon && !names {
                    let w = choose|w: int|
                        0 <= w < after.len() && contains(#[trigger] after[w], DAEMON_PATH@);
                    if w < before.len() {
                        assert(after[w] == before[w]);
                    }
                }
            }
            has_daemon = has_daemon || names;
            kept = kept + 1;
        }
        i = i + 1;
    }
    assert(ls.take(ls.len() as int) == ls);
    let removed = kept < bounds.len();
    let ghost kept_all = kept_lines(ls);
    if !has_daemon {
        if kept > 0 {
            out.push('\n');
        }
        let daemon_line = chars_of(DAEMON_LINE);
        let mut j: usize = 0;
        let ghost head = out@;
        while j < daemon_line.len()
            invariant
                j <= daemon_line@.len(),
                out@ == head + daemon_line@.take(j as int),
            decreases daemon_line@.len() - j,
        {
            out.push(daemon_line[j]);
            assert(daemon_line@.take(j + 1) == daemon_line@.take(j as int).push(
                daemon_line@[j as int],
            ));
            j = j + 1;
        }
        proof {
            assert(daemon_line@.take(daemon_line@.len() as int) == daemon_line@);
            let after = kept_all.push(DAEMON_LINE@);
            assert(after.drop_last() == kept_all);
            if kept == 0 {
                assert(joined_lines(kept_all) == Seq::<char>::empty());
                assert(out@ == DAEMON_LINE@);
            } else {
                assert(out@ == joined_lines(kept_all) + seq!['\n'] + DAEMON_LINE@);
            }
        }
    }
    let n = out.len();
    if n == 0 || out[n - 1] != '\n' {
        out.push('\n');
    }
    assert(out@.subrange(0, out@.len() as int) == out@);
    (string_of(&out, 0, out.len()), removed)
}

} // verus!
