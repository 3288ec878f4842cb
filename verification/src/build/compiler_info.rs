//! The toolchain fingerprint of a package.
//!
//! After a build, each package gets a record of the toolchain and of the
//! configuration that it was built with. Before the next build the record is
//! held against the current toolchain and configuration; where they differ,
//! the artifacts of the package are not to be trusted and the package is
//! cleaned.

use crate::build::build_types::CompilerInfo;
use crate::paths::option_view;
use crate::text::views;
use vstd::prelude::*;

verus! {

/// The BLAKE3 hash of a sequence of bytes: 32 bytes.
pub uninterp spec fn blake3_digest(input: Seq<u8>) -> Seq<u8>;

/// `blake3::hash`: the hash of the input.
#[verifier::external_body]
fn content_hash(input: &[u8]) -> (digest: [u8; 32])
    ensures
        digest@ == blake3_digest(input@),
{
    *blake3::hash(input).as_bytes()
}

/// The lowercase hexadecimal digit for a value below sixteen.
pub open spec fn hex_digit(nibble: int) -> char {
    if nibble == 0 {
        '0'
    } else if nibble == 1 {
        '1'
    } else if nibble == 2 {
        '2'
    } else if nibble == 3 {
        '3'
    } else if nibble == 4 {
        '4'
    } else if nibble == 5 {
        '5'
    } else if nibble == 6 {
        '6'
    } else if nibble == 7 {
        '7'
    } else if nibble == 8 {
        '8'
    } else if nibble == 9 {
        '9'
    } else if nibble == 10 {
        'a'
    } else if nibble == 11 {
        'b'
    } else if nibble == 12 {
        'c'
    } else if nibble == 13 {
        'd'
    } else if nibble == 14 {
        'e'
    } else {
        'f'
    }
}

/// Bytes in lowercase hexadecimal: two digits for each byte, the high half
/// of the byte first.
pub open spec fn hex_lower(bytes: Seq<u8>) -> Seq<char> {
    Seq::new(2 * bytes.len(), |i: int| hex_char_at(bytes, i))
}

/// The hexadecimal digit at place `i` of the hexadecimal form of `bytes`.
pub open spec fn hex_char_at(bytes: Seq<u8>, i: int) -> char {
    hex_digit(
        if i % 2 == 0 {
            bytes[i / 2] as int / 16
        } else {
            bytes[i / 2] as int % 16
        },
    )
}

/// `Hash::to_hex`: the hash in lowercase hexadecimal.
#[verifier::external_body]
fn hash_hex(digest: &[u8; 32]) -> (hex: String)
    ensures
        hex@ == hex_lower(digest@),
{
    blake3::Hash::from_bytes(*digest).to_hex().to_string()
}

/// Different bytes have different hexadecimal forms.
pub proof fn lemma_hex_lower_injective(a: Seq<u8>, b: Seq<u8>)
    requires
        hex_lower(a) == hex_lower(b),
    ensures
        a == b,
{
    assert(hex_lower(a).len() == 2 * a.len());
    assert(hex_lower(b).len() == 2 * b.len());
    assert(a.len() == b.len());
    assert forall|i: int| 0 <= i < a.len() implies a[i] == b[i] by {
        assert((2 * i) % 2 == 0 && (2 * i) / 2 == i);
        assert((2 * i + 1) % 2 == 1 && (2 * i + 1) / 2 == i);
        assert(hex_lower(a)[2 * i] == hex_char_at(a, 2 * i));
        assert(hex_lower(b)[2 * i] == hex_char_at(b, 2 * i));
        assert(hex_lower(a)[2 * i + 1] == hex_char_at(a, 2 * i + 1));
        assert(hex_lower(b)[2 * i + 1] == hex_char_at(b, 2 * i + 1));
        assert(hex_digit(a[i] as int / 16) == hex_digit(b[i] as int / 16));
        assert(hex_digit(a[i] as int % 16) == hex_digit(b[i] as int % 16));
        assert(a[i] as int / 16 == b[i] as int / 16);
        assert(a[i] as int % 16 == b[i] as int % 16);
    }
    assert(a =~= b);
}

/// The record that is kept of a build: the toolchain and the configuration
/// that a package was built with.
#[derive(Debug, Clone)]
pub struct CompilerInfoFile {
    /// The version of the build tool that wrote the record.
    pub version: String,
    pub bsc_path: String,
    /// The content hash of the compiler executable, in hexadecimal.
    pub bsc_hash: String,
    /// The content hash of the package's configuration file, in hexadecimal.
    pub rescript_config_hash: String,
    pub runtime_path: String,
    /// When the record was written. This is for the reader's information
    /// and is never compared.
    pub generated_at: String,
}

/// Whether the artifacts of the last build can be trusted.
pub enum CompilerCheckResult {
    SameCompilerAsLastRun,
    CleanedPackagesDueToCompiler,
}

/// What was found where the record of a package is kept.
#[derive(Debug, Clone)]
pub enum StoredInfo {
    /// The record could not be read. `build_log_exists` tells whether the
    /// log of an earlier build lies in the package's build folder.
    Unreadable { build_log_exists: bool },
    /// What was read is no record.
    Invalid,
    Parsed(CompilerInfoFile),
}

/// What was read of a package before its record is judged.
#[derive(Debug, Clone)]
pub struct PackageProbe {
    pub name: String,
    pub stored: StoredInfo,
    /// The content of the package's configuration file, where it could be
    /// read.
    pub config: Option<Vec<u8>>,
}

/// The hash of a configuration file in hexadecimal, where the file could be
/// read.
pub open spec fn config_hash(config: Option<Vec<u8>>) -> Option<Seq<char>> {
    match config {
        Some(content) => Some(hex_lower(blake3_digest(content@))),
        None => None,
    }
}

/// The hash of a configuration file in hexadecimal, where the file could be
/// read.
pub fn get_rescript_config_hash(config: &Option<Vec<u8>>) -> (hash: Option<String>)
    ensures
        option_view(hash) == config_hash(*config),
{
    match config {
        Some(content) => {
            let digest = content_hash(content.as_slice());
            Some(hash_hex(&digest))
        },
        None => None,
    }
}

/// Whether a record tells of this toolchain and of a configuration file with
/// this hash.
pub open spec fn describes(file: CompilerInfoFile, compiler: CompilerInfo, config_hash: Seq<char>) -> bool {
    &&& file.bsc_path@ == compiler.bsc_path@
    &&& file.bsc_hash@ == hex_lower(compiler.bsc_hash@)
    &&& file.runtime_path@ == compiler.runtime_path@
    &&& file.rescript_config_hash@ == config_hash
}

/// Whether the artifacts of a package are not to be trusted.
///
/// Without a readable record, they are not if an earlier build left its
/// log: something was built, and it is not known with what. With something
/// to read that is no record they are not. With a record they are not if the
/// hash of the configuration file cannot be had, or if the record does not
/// tell of the current toolchain and configuration.
pub open spec fn is_mismatch(
    stored: StoredInfo,
    compiler: CompilerInfo,
    config_hash: Option<Seq<char>>,
) -> bool {
    match stored {
        StoredInfo::Unreadable { build_log_exists } => build_log_exists,
        StoredInfo::Invalid => true,
        StoredInfo::Parsed(file) => match config_hash {
            Some(hash) => !describes(file, compiler, hash),
            None => true,
        },
    }
}

/// Whether the artifacts of a package are not to be trusted, going by what
/// was read of it.
pub fn package_mismatch(probe: &PackageProbe, compiler: &CompilerInfo) -> (mismatch: bool)
    ensures
        mismatch == is_mismatch(probe.stored, *compiler, config_hash(probe.config)),
{
    match &probe.stored {
        StoredInfo::Unreadable { build_log_exists } => *build_log_exists,
        StoredInfo::Invalid => true,
        StoredInfo::Parsed(file) => {
            let current_config_hash = match get_rescript_config_hash(&probe.config) {
                Some(hash) => hash,
                None => {
                    return true;
                },
            };
            let current_bsc_hash = hash_hex(&compiler.bsc_hash);
            let mut mismatch = false;
            if file.bsc_path != compiler.bsc_path {
                mismatch = true;
            }
            if file.bsc_hash != current_bsc_hash {
                mismatch = true;
            }
            if file.runtime_path != compiler.runtime_path {
                mismatch = true;
            }
            if file.rescript_config_hash != current_config_hash {
                mismatch = true;
            }
            mismatch
        },
    }
}

/// The names of the packages whose artifacts are not to be trusted, in the
/// order of the probes.
pub open spec fn mismatched_names(probes: Seq<PackageProbe>, compiler: CompilerInfo) -> Seq<Seq<char>>
    decreases probes.len(),
{
    if probes.len() == 0 {
        Seq::empty()
    } else {
        let before = mismatched_names(probes.drop_last(), compiler);
        if is_mismatch(probes.last().stored, compiler, config_hash(probes.last().config)) {
            before.push(probes.last().name@)
        } else {
            before
        }
    }
}

/// The judgement on the packages of a project.
pub struct CompilerCheck {
    pub result: CompilerCheckResult,
    /// The names of the packages that have to be cleaned.
    pub to_clean: Vec<String>,
}

/// Judges the records of the packages of a project against the current
/// toolchain. Each package is judged by itself. The packages that are named
/// in the result have to be cleaned before anything is built.
pub fn verify_compiler_info(probes: &Vec<PackageProbe>, compiler: &CompilerInfo) -> (check:
    CompilerCheck)
    ensures
        views(check.to_clean@) == mismatched_names(probes@, *compiler),
        check.result is SameCompilerAsLastRun <==> check.to_clean.len() == 0,
        check.result is SameCompilerAsLastRun <==> forall|i: int|
            0 <= i < probes.len() ==> !is_mismatch(
                (#[trigger] probes[i]).stored,
                *compiler,
                config_hash(probes[i].config),
            ),
{
    let mut to_clean: Vec<String> = Vec::new();
    let mut i: usize = 0;
    assert(probes@.take(0) =~= Seq::<PackageProbe>::empty());
    assert(views(to_clean@) =~= Seq::<Seq<char>>::empty());
    while i < probes.len()
        invariant
            i <= probes.len(),
            views(to_clean@) == mismatched_names(probes@.take(i as int), *compiler),
            to_clean.len() == 0 <==> forall|j: int|
                0 <= j < i ==> !is_mismatch(
                    (#[trigger] probes[j]).stored,
                    *compiler,
                    config_hash(probes[j].config),
                ),
        decreases probes.len() - i,
    {
        let ghost upto = probes@.take(i + 1);
        assert(upto.drop_last() =~= probes@.take(i as int));
        assert(upto.last() == probes@[i as int]);
        let ghost before = views(to_clean@);
        if package_mismatch(&probes[i], compiler) {
            to_clean.push(probes[i].name.clone());
            assert(views(to_clean@) =~= before.push(probes@[i as int].name@));
        }
        i += 1;
    }
    assert(probes@.take(i as int) =~= probes@);
    let result = if to_clean.len() == 0 {
        CompilerCheckResult::SameCompilerAsLastRun
    } else {
        CompilerCheckResult::CleanedPackagesDueToCompiler
    };
    CompilerCheck { result, to_clean }
}

/// The record of a build with the given toolchain of a package whose
/// configuration file has the given hash.
pub fn compiler_info_file(
    compiler: &CompilerInfo,
    config_hash: String,
    version: String,
    generated_at: String,
) -> (file: CompilerInfoFile)
    ensures
        describes(file, *compiler, config_hash@),
        file.version == version,
        file.generated_at == generated_at,
{
    CompilerInfoFile {
        version,
        bsc_path: compiler.bsc_path.clone(),
        bsc_hash: hash_hex(&compiler.bsc_hash),
        rescript_config_hash: config_hash,
        runtime_path: compiler.runtime_path.clone(),
        generated_at,
    }
}

/// Round trip: a record that was written for a toolchain and a
/// configuration is no mismatch when it is read back and held against the
/// same toolchain and configuration.
pub proof fn lemma_fingerprint_round_trip(
    file: CompilerInfoFile,
    compiler: CompilerInfo,
    config: Vec<u8>,
)
    requires
        describes(file, compiler, hex_lower(blake3_digest(config@))),
    ensures
        !is_mismatch(StoredInfo::Parsed(file), compiler, config_hash(Some(config))),
{
}

/// Sensitivity: a record that was written for one toolchain and
/// configuration is a mismatch against another exactly when the two differ
/// in the compiler path, the compiler hash, the runtime path or the hash of
/// the configuration file.
pub proof fn lemma_fingerprint_sensitivity(
    file: CompilerInfoFile,
    written_for: CompilerInfo,
    written_hash: Seq<char>,
    current: CompilerInfo,
    current_hash: Seq<char>,
)
    requires
        describes(file, written_for, written_hash),
    ensures
        is_mismatch(StoredInfo::Parsed(file), current, Some(current_hash)) <==> (
        written_for.bsc_path@ != current.bsc_path@ || written_for.bsc_hash@ != current.bsc_hash@
            || written_for.runtime_path@ != current.runtime_path@ || written_hash != current_hash),
{
    if hex_lower(written_for.bsc_hash@) == hex_lower(current.bsc_hash@) {
        lemma_hex_lower_injective(written_for.bsc_hash@, current.bsc_hash@);
    }
}

/// A package is named for cleaning exactly when its own record is a
/// mismatch: what is found of one package has no bearing on another.
pub proof fn lemma_flags_exactly_the_mismatched(
    probes: Seq<PackageProbe>,
    compiler: CompilerInfo,
    name: Seq<char>,
)
    ensures
        mismatched_names(probes, compiler).contains(name) <==> exists|i: int|
            0 <= i < probes.len() && (#[trigger] probes[i]).name@ == name && is_mismatch(
                probes[i].stored,
                compiler,
                config_hash(probes[i].config),
            ),
    decreases probes.len(),
{
    if probes.len() > 0 {
        let front = probes.drop_last();
        let last = probes.last();
        lemma_flags_exactly_the_mismatched(front, compiler, name);
        let before = mismatched_names(front, compiler);
        let flagged = is_mismatch(last.stored, compiler, config_hash(last.config));
        let named = exists|i: int|
            0 <= i < probes.len() && (#[trigger] probes[i]).name@ == name && is_mismatch(
                probes[i].stored,
                compiler,
                config_hash(probes[i].config),
            );
        if mismatched_names(probes, compiler).contains(name) {
            if before.contains(name) {
                let i = choose|i: int|
                    0 <= i < front.len() && (#[trigger] front[i]).name@ == name && is_mismatch(
                        front[i].stored,
                        compiler,
                        config_hash(front[i].config),
                    );
                assert(probes[i] == front[i]);
            } else {
                assert(flagged);
                let at = before.push(last.name@);
                let k = choose|k: int| 0 <= k < at.len() && at[k] == name;
                if k < before.len() {
                    assert(before[k] == name);
                }
                assert(probes[probes.len() - 1] == last);
            }
        }
        if named {
            let i = choose|i: int|
                0 <= i < probes.len() && (#[trigger] probes[i]).name@ == name && is_mismatch(
                    probes[i].stored,
                    compiler,
                    config_hash(probes[i].config),
                );
            if i < front.len() {
                assert(front[i] == probes[i]);
                assert(before.contains(name));
                if flagged {
                    let k = choose|k: int| 0 <= k < before.len() && before[k] == name;
                    assert(before.push(last.name@)[k] == name);
                }
            } else {
                assert(before.push(last.name@)[before.len() as int] == name);
            }
        }
    }
}

/// Whether a record has to be written: nothing is written where what lies
/// on disk is the record already, byte for byte.
pub fn should_write(existing: &Option<String>, contents: &str) -> (write: bool)
    ensures
        write == (option_view(*existing) != Some(contents@)),
{
    match existing {
        Some(existing) => !existing.as_str().eq(contents),
        None => true,
    }
}

/// A step in writing a record to disk.
///
/// The record is written to a temporary file beside its place, the file is
/// synced, and then renamed onto the place of the record, so that no reader
/// ever finds half a record.
#[derive(Debug, Clone, Copy, PartialEq, Eq, Structural)]
pub enum WriteStep {
    /// Create the directory that the record lies in.
    CreateDirs,
    /// Create the temporary file.
    CreateTemp,
    /// Write the record to the temporary file.
    WriteTemp,
    /// Sync the temporary file to disk.
    SyncTemp,
    /// Rename the temporary file onto the place of the record.
    Rename,
    /// Remove the temporary file: the write is given up.
    RemoveTemp,
    /// Nothing is left to do.
    Done,
}

/// The step that follows a step, given whether that step succeeded.
///
/// A failure to create the directory is passed over: creating the file
/// will tell. Where the temporary file cannot be created there is nothing
/// to remove. Any later failure gives the write up, and what was on disk
/// before stays.
pub open spec fn step_after(step: WriteStep, succeeded: bool) -> WriteStep {
    match step {
        WriteStep::CreateDirs => WriteStep::CreateTemp,
        WriteStep::CreateTemp => if succeeded {
            WriteStep::WriteTemp
        } else {
            WriteStep::Done
        },
        WriteStep::WriteTemp => if succeeded {
            WriteStep::SyncTemp
        } else {
            WriteStep::RemoveTemp
        },
        WriteStep::SyncTemp => if succeeded {
            WriteStep::Rename
        } else {
            WriteStep::RemoveTemp
        },
        WriteStep::Rename => if succeeded {
            WriteStep::Done
        } else {
            WriteStep::RemoveTemp
        },
        WriteStep::RemoveTemp => WriteStep::Done,
        WriteStep::Done => WriteStep::Done,
    }
}

/// The first step in writing a record, given what lies on disk.
pub fn first_write_step(existing: &Option<String>, contents: &str) -> (step: WriteStep)
    ensures
        step == if option_view(*existing) == Some(contents@) {
            WriteStep::Done
        } else {
            WriteStep::CreateDirs
        },
{
    if should_write(existing, contents) {
        WriteStep::CreateDirs
    } else {
        WriteStep::Done
    }
}

/// The step that follows a step, given whether that step succeeded.
pub fn next_write_step(step: WriteStep, succeeded: bool) -> (next: WriteStep)
    ensures
        next == step_after(step, succeeded),
{
    match step {
        WriteStep::CreateDirs => WriteStep::CreateTemp,
        WriteStep::CreateTemp => if succeeded {
            WriteStep::WriteTemp
        } else {
            WriteStep::Done
        },
        WriteStep::WriteTemp => if succeeded {
            WriteStep::SyncTemp
        } else {
            WriteStep::RemoveTemp
        },
        WriteStep::SyncTemp => if succeeded {
            WriteStep::Rename
        } else {
            WriteStep::RemoveTemp
        },
        WriteStep::Rename => if succeeded {
            WriteStep::Done
        } else {
            WriteStep::RemoveTemp
        },
        WriteStep::RemoveTemp => WriteStep::Done,
        WriteStep::Done => WriteStep::Done,
    }
}

/// Whether the failure of a step is reported to the user. That the
/// directory or the temporary file cannot be created is not.
pub fn failure_is_reported(step: WriteStep) -> (reported: bool)
    ensures
        reported == (step is WriteTemp || step is SyncTemp || step is Rename),
{
    matches!(step, WriteStep::WriteTemp | WriteStep::SyncTemp | WriteStep::Rename)
}

/// The step that a write has come to after its steps so far ended as
/// `results` tells.
pub open spec fn step_reached(results: Seq<bool>) -> WriteStep
    decreases results.len(),
{
    if results.len() == 0 {
        WriteStep::CreateDirs
    } else {
        step_after(step_reached(results.drop_last()), results.last())
    }
}

/// No half-written record becomes visible: the temporary file is renamed
/// onto the place of the record only directly after it was created, written
/// in full and synced, each with success.
pub proof fn lemma_rename_only_after_sync(results: Seq<bool>)
    requires
        step_reached(results) is Rename,
    ensures
        results.len() == 4,
        results[1] && results[2] && results[3],
{
    let r3 = results.drop_last();
    assert(step_reached(r3) is SyncTemp && results.last());
    let r2 = r3.drop_last();
    assert(r3.len() > 0);
    assert(step_reached(r2) is WriteTemp && r3.last());
    let r1 = r2.drop_last();
    assert(r2.len() > 0);
    assert(step_reached(r1) is CreateTemp && r2.last());
    let r0 = r1.drop_last();
    assert(r1.len() > 0);
    assert(step_reached(r0) is CreateDirs);
    if r0.len() > 0 {
        lemma_never_back_to_start(r0);
    }
}

/// Once a write has taken its first step it does not come back to it.
proof fn lemma_never_back_to_start(results: Seq<bool>)
    requires
        results.len() > 0,
    ensures
        !(step_reached(results) is CreateDirs),
{
}

} // verus!
