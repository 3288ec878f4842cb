//! The lock that keeps two builds out of one project folder.
//!
//! The lock is a file that holds the process ID of the build that took it.
//! The file is never removed: a build that finds it looks whether the
//! process it names is still alive, and takes the lock over if it is not.
//! This module reads and writes the content of the file and judges what was
//! found; it touches neither the disk nor the process table.

use crate::paths::{join, path_join};
use vstd::prelude::*;

verus! {

/// The name of the lock file, which lies in the `lib` folder of the project.
pub const LOCKFILE: &'static str = "rescript.lock";

/// Why the content of a lock file is no process ID.
#[derive(Debug, Clone, Copy, PartialEq, Eq, Structural)]
pub enum PidParseError {
    /// The file is empty.
    Empty,
    /// The file holds something that is no decimal digit.
    InvalidDigit,
    /// The number is too large for a process ID.
    PosOverflow,
}

impl PidParseError {
    /// The error in words.
    pub open spec fn text(self) -> Seq<char> {
        match self {
            PidParseError::Empty => "cannot parse integer from empty string"@,
            PidParseError::InvalidDigit => "invalid digit found in string"@,
            PidParseError::PosOverflow => "number too large to fit in target type"@,
        }
    }

    /// The error in words.
    pub fn to_string(self) -> (text: String)
        ensures
            text@ == self.text(),
    {
        match self {
            PidParseError::Empty => "cannot parse integer from empty string".to_owned(),
            PidParseError::InvalidDigit => "invalid digit found in string".to_owned(),
            PidParseError::PosOverflow => "number too large to fit in target type".to_owned(),
        }
    }
}

/// Why the lock could not be taken.
#[derive(Debug, Clone)]
pub enum Error {
    /// The lock is held by the process with this ID.
    Locked(u32),
    ParsingLockfile(PidParseError),
    /// The lock file could not be read; the text tells why.
    ReadingLockfile(String),
    /// The lock file could not be written; the text tells why.
    WritingLockfile(String),
    /// The project folder does not exist.
    ProjectFolderMissing(String),
}

/// How the attempt to take the lock ended.
#[derive(Debug, Clone)]
pub enum Lock {
    /// The lock was taken by this process, whose ID is given.
    Aquired(u32),
    Error(Error),
}

/// Whether a character is a decimal digit.
pub open spec fn is_digit(c: char) -> bool {
    '0' <= c <= '9'
}

/// The value of a decimal digit.
pub open spec fn digit_value(c: char) -> nat {
    (c as u32 - '0' as u32) as nat
}

/// The decimal digit for a value below ten.
pub open spec fn digit_char(value: nat) -> char {
    if value == 0 {
        '0'
    } else if value == 1 {
        '1'
    } else if value == 2 {
        '2'
    } else if value == 3 {
        '3'
    } else if value == 4 {
        '4'
    } else if value == 5 {
        '5'
    } else if value == 6 {
        '6'
    } else if value == 7 {
        '7'
    } else if value == 8 {
        '8'
    } else {
        '9'
    }
}

/// A number in decimal, without sign or leading zeros.
pub open spec fn decimal_text(value: nat) -> Seq<char>
    decreases value,
{
    if value < 10 {
        seq![digit_char(value)]
    } else {
        decimal_text(value / 10).push(digit_char(value % 10))
    }
}

/// What reading a sequence of characters as decimal digits gives, going
/// from left to right: the number, or the first thing that goes wrong. A
/// character that is no digit is an error, and so is a number that exceeds
/// what a process ID can hold.
pub open spec fn scan_digits(digits: Seq<char>) -> Result<nat, PidParseError>
    decreases digits.len(),
{
    if digits.len() == 0 {
        Ok(0)
    } else {
        match scan_digits(digits.drop_last()) {
            Err(error) => Err(error),
            Ok(value) => if !is_digit(digits.last()) {
                Err(PidParseError::InvalidDigit)
            } else if 10 * value + digit_value(digits.last()) > u32::MAX {
                Err(PidParseError::PosOverflow)
            } else {
                Ok(10 * value + digit_value(digits.last()))
            },
        }
    }
}

/// What the content of a lock file gives as a process ID. The content is a
/// decimal number, which a plus sign may precede.
pub open spec fn parsed_pid(text: Seq<char>) -> Result<u32, PidParseError> {
    if text.len() == 0 {
        Err(PidParseError::Empty)
    } else if text == seq!['+'] {
        Err(PidParseError::InvalidDigit)
    } else {
        match scan_digits(
            if text[0] == '+' {
                text.skip(1)
            } else {
                text
            },
        ) {
            Ok(value) => Ok(value as u32),
            Err(error) => Err(error),
        }
    }
}

/// Reads the content of a lock file as a process ID.
pub fn parse_pid(text: &str) -> (pid: Result<u32, PidParseError>)
    ensures
        pid == parsed_pid(text@),
{
    let len = text.unicode_len();
    if len == 0 {
        return Err(PidParseError::Empty);
    }
    let start: usize = if text.get_char(0) == '+' {
        1
    } else {
        0
    };
    if start == 1 && len == 1 {
        assert(text@ =~= seq!['+']);
        return Err(PidParseError::InvalidDigit);
    }
    assert(text@ != seq!['+']) by {
        if text@ == seq!['+'] {
            assert(text@.len() == 1);
            assert(text@[0] == '+');
        }
    }
    let ghost digits = if text@[0] == '+' {
        text@.skip(1)
    } else {
        text@
    };
    let mut value: u32 = 0;
    let mut i: usize = start;
    assert(digits.take(0) =~= Seq::<char>::empty());
    assert(text@.skip(0) =~= text@);
    while i < len
        invariant
            start <= i <= len,
            len == text@.len(),
            len > 0,
            text@ != seq!['+'],
            digits == if text@[0] == '+' {
                text@.skip(1)
            } else {
                text@
            },
            start == if text@[0] == '+' {
                1usize
            } else {
                0usize
            },
            digits == text@.skip(start as int),
            scan_digits(digits.take(i - start)) == Ok::<nat, PidParseError>(value as nat),
        decreases len - i,
    {
        let ghost upto = digits.take(i - start + 1);
        assert(upto.drop_last() =~= digits.take(i - start));
        assert(upto.last() == text@[i as int]);
        let c = text.get_char(i);
        if !(c >= '0' && c <= '9') {
            proof {
                lemma_scan_error_stays(digits, i - start + 1);
            }
            return Err(PidParseError::InvalidDigit);
        }
        let digit: u32 = c as u32 - '0' as u32;
        if value > (u32::MAX - digit) / 10 {
            proof {
                lemma_scan_error_stays(digits, i - start + 1);
            }
            return Err(PidParseError::PosOverflow);
        }
        value = 10 * value + digit;
        i += 1;
    }
    assert(digits.take(i - start) =~= digits);
    Ok(value)
}

/// Once reading digits has gone wrong, reading on does not mend it.
pub proof fn lemma_scan_error_stays(digits: Seq<char>, k: int)
    requires
        0 <= k <= digits.len(),
        scan_digits(digits.take(k)) is Err,
    ensures
        scan_digits(digits) == scan_digits(digits.take(k)),
    decreases digits.len() - k,
{
    if k == digits.len() {
        assert(digits.take(k) =~= digits);
    } else {
        assert(digits.take(k + 1).drop_last() =~= digits.take(k));
        lemma_scan_error_stays(digits, k + 1);
    }
}

/// The content of the lock file for a process ID: the ID in decimal.
pub fn lock_contents(pid: u32) -> (text: String)
    ensures
        text@ == decimal_text(pid as nat),
{
    let mut text = digit_str(pid % 10).to_owned();
    let mut rest = pid / 10;
    let ghost mut shown: Seq<char> = seq![digit_char((pid % 10) as nat)];
    assert(text@ =~= shown);
    assert(pid >= 10 ==> decimal_text(pid as nat) =~= decimal_text(rest as nat) + shown);
    while rest > 0
        invariant
            text@ == shown,
            decimal_text(pid as nat) == if rest == 0 {
                shown
            } else {
                decimal_text(rest as nat) + shown
            },
        decreases rest,
    {
        let digit = rest % 10;
        let ghost before = shown;
        let ghost old_rest = rest;
        text = digit_str(digit).to_owned().concat(text.as_str());
        rest = rest / 10;
        proof {
            shown = seq![digit_char(digit as nat)] + before;
            if old_rest < 10 {
                assert(decimal_text(old_rest as nat) =~= seq![digit_char(digit as nat)]);
                assert(decimal_text(old_rest as nat) + before =~= shown);
            } else {
                assert(decimal_text(old_rest as nat) == decimal_text(rest as nat).push(
                    digit_char(digit as nat),
                ));
                assert(decimal_text(rest as nat).push(digit_char(digit as nat)) + before
                    =~= decimal_text(rest as nat) + shown);
            }
        }
    }
    text
}

/// Reading back what was written for a number gives the number.
pub proof fn lemma_scan_decimal_text(value: nat)
    requires
        value <= u32::MAX,
    ensures
        scan_digits(decimal_text(value)) == Ok::<nat, PidParseError>(value),
        decimal_text(value).len() > 0,
        is_digit(decimal_text(value)[0]),
    decreases value,
{
    let text = decimal_text(value);
    if value < 10 {
        assert(text.drop_last() =~= Seq::<char>::empty());
        assert(scan_digits(text.drop_last()) == Ok::<nat, PidParseError>(0));
        assert(text.last() == digit_char(value));
        assert(is_digit(digit_char(value)));
        assert(digit_value(digit_char(value)) == value);
    } else {
        lemma_scan_decimal_text(value / 10);
        assert(text.drop_last() =~= decimal_text(value / 10));
        assert(text.last() == digit_char(value % 10));
        assert(is_digit(digit_char(value % 10)));
        assert(digit_value(digit_char(value % 10)) == value % 10);
        assert(text[0] == decimal_text(value / 10)[0]);
    }
}

/// The lock file round trip: the content that is written for a process ID
/// reads back as that ID.
pub proof fn lemma_pid_round_trip(pid: u32)
    ensures
        parsed_pid(decimal_text(pid as nat)) == Ok::<u32, PidParseError>(pid),
{
    lemma_scan_decimal_text(pid as nat);
    let text = decimal_text(pid as nat);
    assert(text[0] != '+');
    if text == seq!['+'] {
        assert(seq!['+'][0] == '+');
    }
}

/// The decimal digit for a value below ten, as text.
fn digit_str(value: u32) -> (text: &'static str)
    requires
        value < 10,
    ensures
        text@ == seq![digit_char(value as nat)],
{
    proof {
        reveal_strlit("0");
        reveal_strlit("1");
        reveal_strlit("2");
        reveal_strlit("3");
        reveal_strlit("4");
        reveal_strlit("5");
        reveal_strlit("6");
        reveal_strlit("7");
        reveal_strlit("8");
        reveal_strlit("9");
    }
    let text = if value == 0 {
        "0"
    } else if value == 1 {
        "1"
    } else if value == 2 {
        "2"
    } else if value == 3 {
        "3"
    } else if value == 4 {
        "4"
    } else if value == 5 {
        "5"
    } else if value == 6 {
        "6"
    } else if value == 7 {
        "7"
    } else if value == 8 {
        "8"
    } else {
        "9"
    };
    assert(text@ =~= seq![digit_char(value as nat)]);
    text
}

impl Error {
    /// The error in words.
    pub open spec fn text(self) -> Seq<char> {
        match self {
            Error::Locked(pid) => "A ReScript build is already running. The process ID (PID) is "@
                + decimal_text(pid as nat),
            Error::ParsingLockfile(error) => "Could not parse lockfile: \n "@ + error.text()
                + " \n  (try removing it and running the command again)"@,
            Error::ReadingLockfile(reason) => "Could not read lockfile: \n "@ + reason@
                + " \n  (try removing it and running the command again)"@,
            Error::WritingLockfile(reason) => "Could not write lockfile: \n "@ + reason@,
            Error::ProjectFolderMissing(path) =>
                "Could not write lockfile because the specified project folder does not exist: "@
                    + path@,
        }
    }

    /// The error in words, as it is shown to the user.
    pub fn to_string(&self) -> (text: String)
        ensures
            text@ == self.text(),
    {
        match self {
            Error::Locked(pid) => {
                "A ReScript build is already running. The process ID (PID) is ".to_owned().concat(
                    lock_contents(*pid).as_str(),
                )
            },
            Error::ParsingLockfile(error) => {
                "Could not parse lockfile: \n ".to_owned().concat(
                    error.to_string().as_str(),
                ).concat(" \n  (try removing it and running the command again)")
            },
            Error::ReadingLockfile(reason) => {
                "Could not read lockfile: \n ".to_owned().concat(reason.as_str()).concat(
                    " \n  (try removing it and running the command again)",
                )
            },
            Error::WritingLockfile(reason) => {
                "Could not write lockfile: \n ".to_owned().concat(reason.as_str())
            },
            Error::ProjectFolderMissing(path) => {
                "Could not write lockfile because the specified project folder does not exist: ".to_owned().concat(
                    path.as_str(),
                )
            },
        }
    }
}

/// The directory that the lock file of a project lies in.
pub fn lock_folder(folder: &str) -> (dir: String)
    ensures
        dir@ == path_join(folder@, "lib"@),
{
    join(folder, "lib")
}

/// Where the lock file of a project lies.
pub fn lock_location(folder: &str) -> (location: String)
    ensures
        location@ == path_join(path_join(folder@, "lib"@), LOCKFILE@),
{
    join(lock_folder(folder).as_str(), LOCKFILE)
}

/// What was found where the lock file lies.
#[derive(Debug, Clone)]
pub enum LockfileRead {
    /// There is no lock file.
    Missing,
    /// There is one, but it could not be read; the text tells why.
    Unreadable(String),
    /// The content of the lock file.
    Contents(String),
}

/// The process that a lock file names as the holder of the lock, if there
/// is a lock file; an error where the file cannot be read or names no
/// process.
pub fn recorded_holder(read: LockfileRead) -> (holder: Result<Option<u32>, Error>)
    ensures
        holder == match read {
            LockfileRead::Missing => Ok::<Option<u32>, Error>(None),
            LockfileRead::Unreadable(reason) => Err(Error::ReadingLockfile(reason)),
            LockfileRead::Contents(contents) => match parsed_pid(contents@) {
                Ok(pid) => Ok(Some(pid)),
                Err(error) => Err(Error::ParsingLockfile(error)),
            },
        },
{
    match read {
        LockfileRead::Missing => Ok(None),
        LockfileRead::Unreadable(reason) => Err(Error::ReadingLockfile(reason)),
        LockfileRead::Contents(contents) => match parse_pid(contents.as_str()) {
            Ok(pid) => Ok(Some(pid)),
            Err(error) => Err(Error::ParsingLockfile(error)),
        },
    }
}

/// Whether the lock can be taken, given the process that the lock file
/// names and whether that process is alive. A lock whose holder is gone is
/// stale and can be taken over.
pub fn refusal(holder: Option<u32>, holder_alive: bool) -> (error: Option<Error>)
    ensures
        error == match holder {
            Some(pid) if holder_alive => Some(Error::Locked(pid)),
            _ => None::<Error>,
        },
{
    match holder {
        Some(pid) => if holder_alive {
            Some(Error::Locked(pid))
        } else {
            None
        },
        None => None,
    }
}

/// The lock after the attempt to write the lock file for this process.
/// `failure` tells why the file could not be written, if it could not.
pub fn conclude(pid: u32, failure: Option<String>) -> (lock: Lock)
    ensures
        lock == match failure {
            Some(reason) => Lock::Error(Error::WritingLockfile(reason)),
            None => Lock::Aquired(pid),
        },
{
    match failure {
        Some(reason) => Lock::Error(Error::WritingLockfile(reason)),
        None => Lock::Aquired(pid),
    }
}

/// What has to be found out or done next on the way to the lock.
#[derive(Debug, Clone)]
pub enum LockStep {
    /// Find out whether the project folder exists.
    CheckFolder,
    /// Read the lock file.
    ReadLockfile,
    /// Find out whether the process with this ID is alive.
    ProbeHolder(u32),
    /// Create the directory of the lock file and write the file, with the
    /// ID of this process as its content.
    WriteLockfile,
    /// The lock was taken, or it cannot be.
    Finished(Lock),
}

/// What was found out or done.
#[derive(Debug, Clone)]
pub enum LockEvent {
    /// Whether the project folder exists.
    FolderExists(bool),
    /// What was found where the lock file lies.
    Read(LockfileRead),
    /// Whether the process that the lock file names is alive.
    HolderAlive(bool),
    /// Why the lock file could not be written, if it could not.
    Written(Option<String>),
}

/// Whether `next` is the step that follows a step, given what the step
/// brought.
///
/// A project folder that is missing ends the attempt, and so do a lock file
/// that cannot be read or names no process, and a holder that is alive.
/// Without a lock file, or with one whose holder is gone, the file is
/// written; the lock is taken when that succeeded. An answer that does not
/// belong to the step changes nothing.
pub open spec fn follows(
    folder: Seq<char>,
    pid: u32,
    step: LockStep,
    event: LockEvent,
    next: LockStep,
) -> bool {
    match (step, event) {
        (LockStep::CheckFolder, LockEvent::FolderExists(exists)) => if exists {
            next == LockStep::ReadLockfile
        } else {
            next matches LockStep::Finished(Lock::Error(Error::ProjectFolderMissing(path)))
                && path@ == folder
        },
        (LockStep::ReadLockfile, LockEvent::Read(read)) => next == match read {
            LockfileRead::Missing => LockStep::WriteLockfile,
            LockfileRead::Unreadable(reason) => LockStep::Finished(
                Lock::Error(Error::ReadingLockfile(reason)),
            ),
            LockfileRead::Contents(contents) => match parsed_pid(contents@) {
                Ok(holder) => LockStep::ProbeHolder(holder),
                Err(error) => LockStep::Finished(Lock::Error(Error::ParsingLockfile(error))),
            },
        },
        (LockStep::ProbeHolder(holder), LockEvent::HolderAlive(alive)) => next == if alive {
            LockStep::Finished(Lock::Error(Error::Locked(holder)))
        } else {
            LockStep::WriteLockfile
        },
        (LockStep::WriteLockfile, LockEvent::Written(failure)) => next == match failure {
            Some(reason) => LockStep::Finished(Lock::Error(Error::WritingLockfile(reason))),
            None => LockStep::Finished(Lock::Aquired(pid)),
        },
        (step, _) => next == step,
    }
}

/// The next step on the way to the lock of the project in `folder` for the
/// process `pid`.
pub fn next_lock_step(folder: &str, pid: u32, step: LockStep, event: LockEvent) -> (next: LockStep)
    ensures
        follows(folder@, pid, step, event, next),
{
    match (step, event) {
        (LockStep::CheckFolder, LockEvent::FolderExists(exists)) => {
            if exists {
                LockStep::ReadLockfile
            } else {
                LockStep::Finished(Lock::Error(Error::ProjectFolderMissing(folder.to_owned())))
            }
        },
        (LockStep::ReadLockfile, LockEvent::Read(read)) => match recorded_holder(read) {
            Ok(Some(holder)) => LockStep::ProbeHolder(holder),
            Ok(None) => LockStep::WriteLockfile,
            Err(error) => LockStep::Finished(Lock::Error(error)),
        },
        (LockStep::ProbeHolder(holder), LockEvent::HolderAlive(alive)) => match refusal(
            Some(holder),
            alive,
        ) {
            Some(error) => LockStep::Finished(Lock::Error(error)),
            None => LockStep::WriteLockfile,
        },
        (LockStep::WriteLockfile, LockEvent::Written(failure)) => LockStep::Finished(
            conclude(pid, failure),
        ),
        (step, _) => step,
    }
}

} // verus!
