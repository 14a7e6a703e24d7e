use matepkg::checksum::{checksum_record, sidecar_line, to_hex};
use matepkg::error::PkgError;
use matepkg::listing::{parse_manifest, render_manifest};
use matepkg::manifest::{derive_manifest, obsolete_paths};
use matepkg::package::{archive_file_name, is_valid_compression_level, sidecar_file_name, Metadata};
use matepkg::plan::{deregister_steps, empty_dir_plan, prune_plan, record_writes, removal_plan, OnFailure, Step, StepKind};
use matepkg::registry::{entry_status, lookup_by_prefix, require_installed, Layout};
use matepkg::text::str_less;
use matepkg::upgrade::{analyze_entries, parent_dir, touched_dirs, upgrade_gate};
use matepkg::version::is_upgrade;

fn strings(v: &[&str]) -> Vec<String> {
    v.iter().map(|s| s.to_string()).collect()
}

fn identity(name: &str, version: &str, build: &str) -> Metadata {
    Metadata {
        maintainer: "someone".to_string(),
        pkgname: name.to_string(),
        version: version.to_string(),
        build: build.to_string(),
        license: "MIT".to_string(),
        desc: "a package".to_string(),
        url: "https://example.org".to_string(),
        deps: Vec::new(),
    }
}

fn step_is(s: &Step, kind: StepKind, path: &str, on_failure: OnFailure) -> bool {
    s.kind == kind && s.path == path && s.on_failure == on_failure
}

#[test]
fn upgrade_rule_examples() {
    assert_eq!(is_upgrade("2.0", "1", "1.9", "5"), Ok(true));
    assert_eq!(is_upgrade("1.0", "1", "1.0", "1"), Ok(false));
    assert_eq!(is_upgrade("1.0", "9", "1.0", "10"), Ok(true));
}

#[test]
fn lower_version_never_wins() {
    assert_eq!(is_upgrade("1.0", "9", "1.1", "1"), Ok(false));
    assert_eq!(is_upgrade("1.10", "1", "1.9", "1"), Ok(true));
}

#[test]
fn unparsable_version_is_an_error() {
    assert_eq!(is_upgrade("beta", "1", "1.0", "1"), Err(PkgError::InvalidVersion));
}

#[test]
fn build_tags_compare_as_text() {
    assert!(str_less("10", "9"));
    assert!(!str_less("9", "10"));
    assert!(!str_less("abc", "abc"));
    assert!(str_less("ab", "abc"));
}

#[test]
fn canonical_name_joins_fields() {
    let m = identity("demo", "1.0", "1");
    assert_eq!(m.canonical_name(), "demo-1.0-1");
    assert_eq!(m.check_package_name("demo-1.0-1"), Ok(()));
    assert_eq!(m.check_package_name("demo-1.0-2"), Err(PkgError::Validation));
}

#[test]
fn archive_and_sidecar_names() {
    let a = archive_file_name("demo-1.0-1");
    assert_eq!(a, "demo-1.0-1.mtz");
    assert_eq!(sidecar_file_name(&a), "demo-1.0-1.mtz.sha256");
}

#[test]
fn compression_levels() {
    assert!(is_valid_compression_level(0));
    assert!(is_valid_compression_level(21));
    assert!(!is_valid_compression_level(22));
    assert!(!is_valid_compression_level(-1));
}

#[test]
fn sidecar_of_known_bytes() {
    assert_eq!(
        checksum_record(b"abc", "x.mtz"),
        "ba7816bf8f01cfea414140de5dae2223b00361a396177a9cb410ff61f20015ad x.mtz\n"
    );
    assert_eq!(to_hex(&[0x00, 0x0f, 0xa5, 0xff]), "000fa5ff");
    assert_eq!(sidecar_line(&[0xab], "p.mtz"), "ab p.mtz\n");
}

#[test]
fn manifest_skips_root_marker_and_identity() {
    let entries = strings(&[".", "./", "desc.toml", "bin/", "bin/demo", "bin/demo"]);
    assert_eq!(derive_manifest(&entries), strings(&["bin/", "bin/demo"]));
}

#[test]
fn archive_without_identity_is_invalid() {
    let entries = strings(&[".", "bin/demo"]);
    assert_eq!(analyze_entries(&entries), Err(PkgError::InvalidPackage));
}

#[test]
fn obsolete_files_of_an_upgrade() {
    let old = strings(&["a", "b", "c"]);
    let new = strings(&["b", "c", "d"]);
    assert_eq!(obsolete_paths(&old, &new), strings(&["a"]));
    let steps = prune_plan(&Layout::system(), &obsolete_paths(&old, &new));
    assert_eq!(steps.len(), 1);
    assert!(step_is(&steps[0], StepKind::RemoveFile, "/a", OnFailure::Abort));
}

#[test]
fn deregister_targets_old_name_only() {
    let steps = deregister_steps(&Layout::system(), "foo-1.0-1");
    assert_eq!(steps.len(), 2);
    assert!(step_is(&steps[0], StepKind::DeleteRecord, "/var/lib/matepkg/list/foo-1.0-1.list", OnFailure::Abort));
    assert!(step_is(&steps[1], StepKind::DeleteRecord, "/var/lib/matepkg/desc/foo-1.0-1.toml", OnFailure::Abort));
}

#[test]
fn removal_deletes_files_then_empty_dirs() {
    let m = strings(&["usr/bin/foo", "usr/bin"]);
    let steps = removal_plan(&Layout::system(), "foo-1.0-1", &m);
    assert_eq!(steps.len(), 6);
    assert!(step_is(&steps[0], StepKind::RemoveFile, "/usr/bin/foo", OnFailure::Warn));
    assert!(step_is(&steps[1], StepKind::RemoveFile, "/usr/bin", OnFailure::Warn));
    assert!(step_is(&steps[2], StepKind::RemoveDirIfEmpty, "/usr/bin", OnFailure::Ignore));
    assert!(step_is(&steps[3], StepKind::RemoveDirIfEmpty, "/usr/bin/foo", OnFailure::Ignore));
    assert!(step_is(&steps[4], StepKind::DeleteRecord, "/var/lib/matepkg/list/foo-1.0-1.list", OnFailure::Abort));
    assert!(step_is(&steps[5], StepKind::DeleteRecord, "/var/lib/matepkg/desc/foo-1.0-1.toml", OnFailure::Abort));
}

#[test]
fn removal_of_empty_manifest() {
    let steps = removal_plan(&Layout::system(), "e-1-1", &Vec::new());
    assert_eq!(steps.len(), 2);
}

#[test]
fn lookup_with_two_versions_is_ambiguous() {
    let names = strings(&["foo-1.0-1.toml", "foo-2.0-1.toml"]);
    assert_eq!(lookup_by_prefix(&names, "foo"), Err(PkgError::AmbiguousInstall));
}

#[test]
fn lookup_single_and_missing() {
    let names = strings(&["bar-1.0-1.toml", "foo-2.0-1.toml"]);
    assert_eq!(lookup_by_prefix(&names, "foo"), Ok(1));
    assert_eq!(lookup_by_prefix(&names, "baz"), Err(PkgError::NotInstalled));
    assert_eq!(lookup_by_prefix(&Vec::new(), "foo"), Err(PkgError::NotInstalled));
}

#[test]
fn record_halves() {
    assert_eq!(entry_status(true, true), Ok(()));
    assert_eq!(entry_status(false, false), Err(PkgError::NotInstalled));
    assert_eq!(entry_status(true, false), Err(PkgError::CorruptEntry));
    assert_eq!(entry_status(false, true), Err(PkgError::CorruptEntry));
    assert_eq!(require_installed(true, false), Err(PkgError::NotInstalled));
    assert_eq!(require_installed(true, true), Ok(()));
}

#[test]
fn version_gate() {
    let inst = identity("foo", "1.0", "1");
    assert_eq!(upgrade_gate(&identity("foo", "1.1", "1"), &inst), Ok(()));
    assert_eq!(upgrade_gate(&identity("foo", "1.0", "1"), &inst), Err(PkgError::NotNewer));
    assert_eq!(upgrade_gate(&identity("foo", "0.9", "9"), &inst), Err(PkgError::NotNewer));
    assert_eq!(upgrade_gate(&identity("foo", "rc", "2"), &inst), Err(PkgError::InvalidVersion));
}

#[test]
fn manifest_text_round_trip() {
    let m = strings(&["b", "c", "d"]);
    let text = render_manifest(&m);
    assert_eq!(text, "b\nc\nd\n");
    assert_eq!(parse_manifest(&text), m);
    assert_eq!(parse_manifest("x\n\ny"), strings(&["x", "", "y"]));
    assert_eq!(parse_manifest(""), Vec::<String>::new());
}

#[test]
fn parents_of_deleted_files() {
    assert_eq!(parent_dir("/usr/bin/foo"), Some("/usr/bin".to_string()));
    assert_eq!(parent_dir("/foo"), Some("/".to_string()));
    assert_eq!(parent_dir("/"), None);
    assert_eq!(parent_dir("foo"), None);
    let deleted = strings(&["/usr/bin/a", "/usr/bin/b", "/etc/c"]);
    assert_eq!(touched_dirs(&deleted), strings(&["/usr/bin", "/etc"]));
}

#[test]
fn packaged_demo_lifecycle() {
    let m = identity("demo", "1.0", "1");
    let name = m.canonical_name();
    assert_eq!(name, "demo-1.0-1");
    assert_eq!(archive_file_name(&name), "demo-1.0-1.mtz");
    let entries = strings(&["./", "desc.toml", "bin/", "bin/demo"]);
    let manifest = analyze_entries(&entries).unwrap();
    assert_eq!(manifest, strings(&["bin/", "bin/demo"]));
    let layout = Layout::system();
    assert_eq!(layout.list_path(&name), "/var/lib/matepkg/list/demo-1.0-1.list");
    assert_eq!(layout.desc_path(&name), "/var/lib/matepkg/desc/demo-1.0-1.toml");
    let steps = removal_plan(&layout, &name, &manifest);
    assert!(step_is(&steps[1], StepKind::RemoveFile, "/bin/demo", OnFailure::Warn));
    assert!(step_is(&steps[2], StepKind::RemoveDirIfEmpty, "/bin/demo", OnFailure::Ignore));
    assert!(step_is(&steps[3], StepKind::RemoveDirIfEmpty, "/bin/", OnFailure::Ignore));
}

#[test]
fn upgrade_registers_new_record() {
    let layout = Layout::system();
    let writes = record_writes(&layout, "foo-2.0-1", "pkgname = \"foo\"\n", &strings(&["b", "c", "d"]));
    assert_eq!(writes.len(), 2);
    assert_eq!(writes[0].path, "/var/lib/matepkg/list/foo-2.0-1.list");
    assert_eq!(writes[0].content, "b\nc\nd\n");
    assert_eq!(writes[1].path, "/var/lib/matepkg/desc/foo-2.0-1.toml");
    assert_eq!(writes[1].content, "pkgname = \"foo\"\n");
    let old = deregister_steps(&layout, "foo-1.0-1");
    assert!(old.iter().all(|s| s.path != writes[0].path && s.path != writes[1].path));
}

#[test]
fn empty_dir_steps_are_best_effort() {
    let steps = empty_dir_plan(&strings(&["/usr/bin", "/etc"]));
    assert_eq!(steps.len(), 2);
    assert!(step_is(&steps[0], StepKind::RemoveDirIfEmpty, "/usr/bin", OnFailure::Ignore));
    assert!(step_is(&steps[1], StepKind::RemoveDirIfEmpty, "/etc", OnFailure::Ignore));
}
