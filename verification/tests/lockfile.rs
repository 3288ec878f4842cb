use rewatch::lock::{
    conclude, lock_contents, lock_folder, lock_location, next_lock_step, parse_pid,
    recorded_holder, refusal, Error, Lock, LockEvent, LockStep, LockfileRead, PidParseError,
    LOCKFILE,
};

#[test]
fn pid_is_read_as_decimal() {
    assert_eq!(parse_pid("0"), Ok(0));
    assert_eq!(parse_pid("4242"), Ok(4242));
    assert_eq!(parse_pid("+17"), Ok(17));
    assert_eq!(parse_pid("007"), Ok(7));
    assert_eq!(parse_pid("4294967295"), Ok(u32::MAX));
}

#[test]
fn pid_errors_are_those_of_u32_parsing() {
    let cases = ["", "+", "-", "-5", "12a", " 12", "12\n", "4294967296", "99999999999x", "1x99999999999", "١٢"];
    for text in cases {
        let expected = match text.parse::<u32>() {
            Ok(_) => panic!("{text:?} should not parse"),
            Err(error) => error.to_string(),
        };
        match parse_pid(text) {
            Ok(pid) => panic!("{text:?} gave {pid}"),
            Err(error) => assert_eq!(error.to_string(), expected, "for {text:?}"),
        }
    }
    assert_eq!(parse_pid(""), Err(PidParseError::Empty));
    assert_eq!(parse_pid("+"), Err(PidParseError::InvalidDigit));
    assert_eq!(parse_pid("4294967296"), Err(PidParseError::PosOverflow));
    assert_eq!(parse_pid("99999999999x"), Err(PidParseError::PosOverflow));
    assert_eq!(parse_pid("1x99999999999"), Err(PidParseError::InvalidDigit));
}

#[test]
fn pid_is_written_as_decimal() {
    for pid in [0u32, 7, 10, 99, 100, 4242, 1_000_000, u32::MAX] {
        assert_eq!(lock_contents(pid), pid.to_string());
        assert_eq!(parse_pid(&lock_contents(pid)), Ok(pid));
    }
}

#[test]
fn lock_file_lies_in_lib() {
    assert_eq!(LOCKFILE, "rescript.lock");
    assert_eq!(lock_folder("/work/app"), "/work/app/lib");
    assert_eq!(lock_location("/work/app"), "/work/app/lib/rescript.lock");
    assert_eq!(lock_location("."), "./lib/rescript.lock");
}

#[test]
fn holder_is_taken_from_the_lock_file() {
    assert!(matches!(recorded_holder(LockfileRead::Missing), Ok(None)));
    assert!(matches!(recorded_holder(LockfileRead::Contents("314".to_string())), Ok(Some(314))));
    assert!(matches!(
        recorded_holder(LockfileRead::Contents("pid".to_string())),
        Err(Error::ParsingLockfile(PidParseError::InvalidDigit))
    ));
    match recorded_holder(LockfileRead::Unreadable("permission denied".to_string())) {
        Err(Error::ReadingLockfile(reason)) => assert_eq!(reason, "permission denied"),
        _ => panic!("expected a reading error"),
    }
}

#[test]
fn live_holder_keeps_the_lock() {
    assert!(matches!(refusal(Some(314), true), Some(Error::Locked(314))));
    assert!(refusal(Some(314), false).is_none());
    assert!(refusal(None, false).is_none());
    assert!(refusal(None, true).is_none());
}

#[test]
fn lock_is_acquired_when_the_file_was_written() {
    assert!(matches!(conclude(77, None), Lock::Aquired(77)));
    match conclude(77, Some("disk full".to_string())) {
        Lock::Error(Error::WritingLockfile(reason)) => assert_eq!(reason, "disk full"),
        _ => panic!("expected a writing error"),
    }
}

#[test]
fn errors_in_words() {
    assert_eq!(
        Error::Locked(4242).to_string(),
        "A ReScript build is already running. The process ID (PID) is 4242"
    );
    assert_eq!(
        Error::ParsingLockfile(PidParseError::InvalidDigit).to_string(),
        "Could not parse lockfile: \n invalid digit found in string \n  (try removing it and running the command again)"
    );
    assert_eq!(
        Error::ReadingLockfile("permission denied".to_string()).to_string(),
        "Could not read lockfile: \n permission denied \n  (try removing it and running the command again)"
    );
    assert_eq!(
        Error::WritingLockfile("disk full".to_string()).to_string(),
        "Could not write lockfile: \n disk full"
    );
    assert_eq!(
        Error::ProjectFolderMissing("/work/missing_project".to_string()).to_string(),
        "Could not write lockfile because the specified project folder does not exist: /work/missing_project"
    );
}

fn step(step: LockStep, event: LockEvent) -> LockStep {
    next_lock_step("/work/project", 77, step, event)
}

#[test]
fn returns_error_when_project_folder_missing() {
    match next_lock_step(
        "/work/missing_project",
        77,
        LockStep::CheckFolder,
        LockEvent::FolderExists(false),
    ) {
        LockStep::Finished(Lock::Error(Error::ProjectFolderMissing(path))) => {
            assert_eq!(path, "/work/missing_project");
        }
        _ => panic!("expected ProjectFolderMissing error"),
    }
}

#[test]
fn creates_lock_when_project_folder_exists() {
    let after_folder = step(LockStep::CheckFolder, LockEvent::FolderExists(true));
    assert!(matches!(after_folder, LockStep::ReadLockfile));
    let after_read = step(after_folder, LockEvent::Read(LockfileRead::Missing));
    assert!(matches!(after_read, LockStep::WriteLockfile));
    match step(after_read, LockEvent::Written(None)) {
        LockStep::Finished(Lock::Aquired(pid)) => assert_eq!(pid, 77),
        _ => panic!("expected lock to be acquired"),
    }
}

#[test]
fn stale_lock_is_taken_over() {
    let read = LockEvent::Read(LockfileRead::Contents("314".to_string()));
    let after_read = step(LockStep::ReadLockfile, read);
    assert!(matches!(after_read, LockStep::ProbeHolder(314)));
    let after_probe = step(after_read, LockEvent::HolderAlive(false));
    assert!(matches!(after_probe, LockStep::WriteLockfile));
    assert!(matches!(
        step(after_probe, LockEvent::Written(Some("read-only".to_string()))),
        LockStep::Finished(Lock::Error(Error::WritingLockfile(_)))
    ));
}

#[test]
fn held_or_broken_lock_ends_the_attempt() {
    assert!(matches!(
        step(LockStep::ProbeHolder(314), LockEvent::HolderAlive(true)),
        LockStep::Finished(Lock::Error(Error::Locked(314)))
    ));
    assert!(matches!(
        step(LockStep::ReadLockfile, LockEvent::Read(LockfileRead::Contents("".to_string()))),
        LockStep::Finished(Lock::Error(Error::ParsingLockfile(PidParseError::Empty)))
    ));
    assert!(matches!(
        step(LockStep::ReadLockfile, LockEvent::Read(LockfileRead::Unreadable("denied".to_string()))),
        LockStep::Finished(Lock::Error(Error::ReadingLockfile(_)))
    ));
}

#[test]
fn answers_that_do_not_belong_change_nothing() {
    assert!(matches!(step(LockStep::CheckFolder, LockEvent::Written(None)), LockStep::CheckFolder));
    assert!(matches!(
        step(LockStep::WriteLockfile, LockEvent::FolderExists(false)),
        LockStep::WriteLockfile
    ));
    assert!(matches!(
        step(LockStep::Finished(Lock::Aquired(1)), LockEvent::HolderAlive(true)),
        LockStep::Finished(Lock::Aquired(1))
    ));
}
