use rewatch::build::build_types::CompilerInfo;
use rewatch::build::compiler_info::{
    compiler_info_file, failure_is_reported, first_write_step, get_rescript_config_hash,
    next_write_step, package_mismatch, should_write, verify_compiler_info, CompilerCheckResult,
    CompilerInfoFile, PackageProbe, StoredInfo, WriteStep,
};

fn compiler() -> CompilerInfo {
    CompilerInfo {
        bsc_path: "/toolchain/bsc".to_string(),
        bsc_hash: [0xab; 32],
        runtime_path: "/toolchain/runtime".to_string(),
    }
}

const CONFIG: &[u8] = b"{ \"name\": \"app\" }";

fn written(compiler: &CompilerInfo, config: &[u8]) -> CompilerInfoFile {
    let hash = get_rescript_config_hash(&Some(config.to_vec())).unwrap();
    compiler_info_file(compiler, hash, "12.0.0".to_string(), "1700000000".to_string())
}

fn probe(name: &str, stored: StoredInfo, config: Option<&[u8]>) -> PackageProbe {
    PackageProbe { name: name.to_string(), stored, config: config.map(|bytes| bytes.to_vec()) }
}

fn same(result: &CompilerCheckResult) -> bool {
    matches!(result, CompilerCheckResult::SameCompilerAsLastRun)
}

#[test]
fn config_hash_is_blake3_in_hex() {
    let expected = blake3::hash(CONFIG).to_hex().to_string();
    assert_eq!(get_rescript_config_hash(&Some(CONFIG.to_vec())), Some(expected));
    assert_eq!(
        get_rescript_config_hash(&Some(Vec::new())),
        Some("af1349b9f5f9a1a6a0404dea36dcc9499bcb25c9adc112b7cc9a93cae41f3262".to_string())
    );
    assert_eq!(get_rescript_config_hash(&None), None);
}

#[test]
fn record_tells_of_the_toolchain() {
    let file = written(&compiler(), CONFIG);
    assert_eq!(file.version, "12.0.0");
    assert_eq!(file.bsc_path, "/toolchain/bsc");
    assert_eq!(file.bsc_hash, "ab".repeat(32));
    assert_eq!(file.runtime_path, "/toolchain/runtime");
    assert_eq!(file.rescript_config_hash, blake3::hash(CONFIG).to_hex().to_string());
    assert_eq!(file.generated_at, "1700000000");
    let mut other = compiler();
    other.bsc_hash = [0x0f; 32];
    other.bsc_hash[0] = 0xf0;
    let expected = format!("f0{}", "0f".repeat(31));
    assert_eq!(written(&other, CONFIG).bsc_hash, expected);
}

#[test]
fn fingerprint_round_trip() {
    let compiler = compiler();
    let stored = StoredInfo::Parsed(written(&compiler, CONFIG));
    let probe = probe("app", stored, Some(CONFIG));
    assert!(!package_mismatch(&probe, &compiler));
    let check = verify_compiler_info(&vec![probe], &compiler);
    assert!(same(&check.result));
    assert!(check.to_clean.is_empty());
}

#[test]
fn fingerprint_sensitivity() {
    let before = compiler();
    let stored = || StoredInfo::Parsed(written(&before, CONFIG));

    let mut path = compiler();
    path.bsc_path = "/other/bsc".to_string();
    assert!(package_mismatch(&probe("app", stored(), Some(CONFIG)), &path));

    let mut hash = compiler();
    hash.bsc_hash[31] = 0xac;
    assert!(package_mismatch(&probe("app", stored(), Some(CONFIG)), &hash));

    let mut runtime = compiler();
    runtime.runtime_path = "/other/runtime".to_string();
    assert!(package_mismatch(&probe("app", stored(), Some(CONFIG)), &runtime));

    assert!(package_mismatch(&probe("app", stored(), Some(b"{ \"name\": \"other\" }")), &before));

    assert!(!package_mismatch(&probe("app", stored(), Some(CONFIG)), &before));
}

#[test]
fn only_the_drifted_package_is_flagged() {
    let compiler = compiler();
    let good = || StoredInfo::Parsed(written(&compiler, CONFIG));
    let changed_config: &[u8] = b"{ \"name\": \"lib\", \"sources\": \"src\" }";
    let probes = vec![
        probe("app", good(), Some(CONFIG)),
        probe("lib", good(), Some(changed_config)),
        probe("util", good(), Some(CONFIG)),
    ];
    let check = verify_compiler_info(&probes, &compiler);
    assert!(matches!(check.result, CompilerCheckResult::CleanedPackagesDueToCompiler));
    assert_eq!(check.to_clean, vec!["lib".to_string()]);
}

#[test]
fn compiler_drift_cleans_the_package() {
    let compiler = compiler();
    let mut file = written(&compiler, CONFIG);
    file.bsc_hash = "abc".to_string();
    let check = verify_compiler_info(
        &vec![probe("P", StoredInfo::Parsed(file), Some(CONFIG))],
        &compiler,
    );
    assert!(matches!(check.result, CompilerCheckResult::CleanedPackagesDueToCompiler));
    assert_eq!(check.to_clean, vec!["P".to_string()]);
}

#[test]
fn unreadable_record_counts_only_after_a_build() {
    let compiler = compiler();
    let fresh = probe("app", StoredInfo::Unreadable { build_log_exists: false }, Some(CONFIG));
    let built = probe("lib", StoredInfo::Unreadable { build_log_exists: true }, Some(CONFIG));
    assert!(!package_mismatch(&fresh, &compiler));
    assert!(package_mismatch(&built, &compiler));
    let check = verify_compiler_info(&vec![fresh, built], &compiler);
    assert_eq!(check.to_clean, vec!["lib".to_string()]);
}

#[test]
fn doubt_is_a_mismatch() {
    let compiler = compiler();
    assert!(package_mismatch(&probe("app", StoredInfo::Invalid, Some(CONFIG)), &compiler));
    let stored = StoredInfo::Parsed(written(&compiler, CONFIG));
    assert!(package_mismatch(&probe("app", stored, None), &compiler));
}

#[test]
fn no_packages_is_the_same_compiler() {
    let check = verify_compiler_info(&Vec::new(), &compiler());
    assert!(same(&check.result));
    assert!(check.to_clean.is_empty());
}

#[test]
fn identical_content_is_not_written_again() {
    assert!(!should_write(&Some("{}".to_string()), "{}"));
    assert!(should_write(&Some("{ }".to_string()), "{}"));
    assert!(should_write(&None, "{}"));
    assert_eq!(first_write_step(&Some("{}".to_string()), "{}"), WriteStep::Done);
    assert_eq!(first_write_step(&None, "{}"), WriteStep::CreateDirs);
}

#[test]
fn write_goes_through_temp_sync_rename() {
    let mut step = first_write_step(&Some("old".to_string()), "new");
    let mut seen = vec![step];
    while step != WriteStep::Done {
        step = next_write_step(step, true);
        seen.push(step);
    }
    assert_eq!(
        seen,
        vec![
            WriteStep::CreateDirs,
            WriteStep::CreateTemp,
            WriteStep::WriteTemp,
            WriteStep::SyncTemp,
            WriteStep::Rename,
            WriteStep::Done
        ]
    );
}

#[test]
fn failed_write_is_given_up() {
    assert_eq!(next_write_step(WriteStep::CreateDirs, false), WriteStep::CreateTemp);
    assert_eq!(next_write_step(WriteStep::CreateTemp, false), WriteStep::Done);
    assert_eq!(next_write_step(WriteStep::WriteTemp, false), WriteStep::RemoveTemp);
    assert_eq!(next_write_step(WriteStep::SyncTemp, false), WriteStep::RemoveTemp);
    assert_eq!(next_write_step(WriteStep::Rename, false), WriteStep::RemoveTemp);
    assert_eq!(next_write_step(WriteStep::RemoveTemp, false), WriteStep::Done);
    assert_eq!(next_write_step(WriteStep::RemoveTemp, true), WriteStep::Done);
    assert_eq!(next_write_step(WriteStep::Done, true), WriteStep::Done);
    assert!(!failure_is_reported(WriteStep::CreateDirs));
    assert!(!failure_is_reported(WriteStep::CreateTemp));
    assert!(failure_is_reported(WriteStep::WriteTemp));
    assert!(failure_is_reported(WriteStep::SyncTemp));
    assert!(failure_is_reported(WriteStep::Rename));
}
