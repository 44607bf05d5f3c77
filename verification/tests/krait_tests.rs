use krait::digest::digest_bytes;
use krait::error::KraitError;
use krait::generate::{ScannedFile, ScannedPackage};
use krait::manifest::{Manifest, ManifestPackage, ManifestPackageContent};

/// Manifest equality as the round-trip contract states it: field for field,
/// order-insensitive for the package and version maps (the script form's
/// tables carry no key order), order-sensitive for entry and content lists.
fn manifests_equivalent(a: &Manifest, b: &Manifest) -> bool {
    if a.repo != b.repo || a.latest_commit != b.latest_commit || a.last_update != b.last_update {
        return false;
    }
    if a.packages.len() != b.packages.len() {
        return false;
    }
    a.packages.iter().all(|pa| {
        match b.packages.iter().find(|pb| pb.name == pa.name) {
            None => false,
            Some(pb) => {
                pa.versions.len() == pb.versions.len()
                    && pa.versions.iter().all(|va| {
                        pb.versions
                            .iter()
                            .find(|vb| vb.version == va.version)
                            .is_some_and(|vb| vb.entries == va.entries)
                    })
            }
        }
    })
}

fn entry(commit: &str, path: &str) -> ManifestPackage {
    ManifestPackage {
        commit: commit.to_string(),
        path: path.to_string(),
        contents: vec![ManifestPackageContent {
            name: "a.txt".to_string(),
            path: format!("{}/a.txt", path),
            sha1: "c22b5f9178342609428d6f51b2c5af4c0bde6a42".to_string(),
            url: format!("https://raw.githubusercontent.com/u/r/main/{}/a.txt", path),
        }],
    }
}

fn sample_manifest() -> Manifest {
    let m = Manifest::default();
    let m = m.merge(
        "a".to_string(),
        "1.0.0".to_string(),
        entry("c1", "packages/a"),
    );
    let mut m = m.merge(
        "b".to_string(),
        "2.0.0".to_string(),
        entry("c2", "packages/b"),
    );
    m.repo = "u/r".to_string();
    m.latest_commit = "deadbeef".to_string();
    m.last_update = 1700000000;
    m
}

#[test]
fn merge_inserts_new_package() {
    let m = Manifest::default().merge(
        "a".to_string(),
        "1.0.0".to_string(),
        entry("c1", "packages/a"),
    );
    assert_eq!(m.packages.len(), 1);
    assert_eq!(m.packages[0].name, "a");
    assert_eq!(m.packages[0].versions.len(), 1);
    assert_eq!(m.packages[0].versions[0].version, "1.0.0");
    assert_eq!(m.packages[0].versions[0].entries.len(), 1);
    assert_eq!(m.packages[0].versions[0].entries[0], entry("c1", "packages/a"));
}

#[test]
fn merge_same_key_twice_keeps_both_entries() {
    let e = entry("c1", "packages/a");
    let m = Manifest::default()
        .merge("a".to_string(), "1.0.0".to_string(), e.clone())
        .merge("a".to_string(), "1.0.0".to_string(), e.clone());
    assert_eq!(m.packages.len(), 1);
    assert_eq!(m.packages[0].versions.len(), 1);
    let entries = &m.packages[0].versions[0].entries;
    assert_eq!(entries.len(), 2);
    assert_eq!(entries[0], e);
    assert_eq!(entries[1], e);
}

#[test]
fn merge_new_version_appends_record() {
    let m = Manifest::default()
        .merge("a".to_string(), "1.0.0".to_string(), entry("c1", "packages/a"))
        .merge("a".to_string(), "2.0.0".to_string(), entry("c2", "packages/a"));
    assert_eq!(m.packages.len(), 1);
    assert_eq!(m.packages[0].versions.len(), 2);
    assert_eq!(m.packages[0].versions[0].version, "1.0.0");
    assert_eq!(m.packages[0].versions[1].version, "2.0.0");
}

#[test]
fn merge_isolation_leaves_other_package_identical() {
    let m = sample_manifest();
    let b_before = m.packages.iter().find(|p| p.name == "b").unwrap().clone();
    let merged = m.merge(
        "a".to_string(),
        "1.0.0".to_string(),
        entry("c9", "packages/a"),
    );
    let b_after = merged.packages.iter().find(|p| p.name == "b").unwrap();
    assert_eq!(&b_before, b_after);
}

#[test]
fn digest_is_stable_and_sensitive() {
    let hi = vec![b'h', b'i'];
    let first = digest_bytes(&hi);
    let second = digest_bytes(&hi);
    assert_eq!(first, second);
    assert_eq!(first, "c22b5f9178342609428d6f51b2c5af4c0bde6a42");
    let hj = vec![b'h', b'j'];
    assert_eq!(digest_bytes(&hj), "623b04843afe5638c5ccdd0ac3350b3c653e9b83");
    assert_ne!(first, digest_bytes(&hj));
}

#[test]
fn digest_of_empty_input() {
    let empty: Vec<u8> = Vec::new();
    assert_eq!(digest_bytes(&empty), "da39a3ee5e6b4b0d3255bfef95601890afd80709");
}

fn scan_foo() -> Vec<ScannedPackage> {
    vec![ScannedPackage {
        name: "foo".to_string(),
        version: Some("1.0.0".to_string()),
        commit: "c1".to_string(),
        files: vec![ScannedFile {
            name: "a.txt".to_string(),
            is_dir: false,
            data: vec![b'h', b'i'],
        }],
    }]
}

#[test]
fn generate_end_to_end() {
    let m = Manifest::default()
        .gen_manifest(
            &"main".to_string(),
            "headcommit".to_string(),
            1700000000,
            &vec!["https://github.com/u/r".to_string()],
            Some(scan_foo()),
        )
        .unwrap();
    assert_eq!(m.repo, "https://github.com/u/r");
    assert_eq!(m.latest_commit, "headcommit");
    assert_eq!(m.last_update, 1700000000);
    assert_eq!(m.packages.len(), 1);
    assert_eq!(m.packages[0].name, "foo");
    let vr = &m.packages[0].versions[0];
    assert_eq!(vr.version, "1.0.0");
    assert_eq!(vr.entries.len(), 1);
    let e = &vr.entries[0];
    assert_eq!(e.path, "packages/foo");
    assert_eq!(e.commit, "c1");
    assert_eq!(e.contents.len(), 1);
    let c = &e.contents[0];
    assert_eq!(c.name, "a.txt");
    assert_eq!(c.path, "packages/foo/a.txt");
    assert_eq!(c.sha1, "c22b5f9178342609428d6f51b2c5af4c0bde6a42");
    assert!(c.url.ends_with("packages/foo/a.txt"));
}

#[test]
fn generate_without_packages_directory_fails() {
    let r = Manifest::default().gen_manifest(
        &"main".to_string(),
        "h".to_string(),
        0,
        &vec!["https://github.com/u/r".to_string()],
        None,
    );
    assert!(matches!(r, Err(KraitError::NoPackagesDirectory)));
}

#[test]
fn generate_rejects_nested_directory() {
    let mut scan = scan_foo();
    scan[0].files.push(ScannedFile {
        name: "sub".to_string(),
        is_dir: true,
        data: Vec::new(),
    });
    let r = Manifest::default().gen_manifest(
        &"main".to_string(),
        "h".to_string(),
        0,
        &vec!["https://github.com/u/r".to_string()],
        Some(scan),
    );
    assert!(matches!(r, Err(KraitError::UnsupportedNestedContent(_))));
}

#[test]
fn generate_requires_descriptor_version() {
    let mut scan = scan_foo();
    scan[0].version = None;
    let r = Manifest::default().gen_manifest(
        &"main".to_string(),
        "h".to_string(),
        0,
        &vec!["https://github.com/u/r".to_string()],
        Some(scan),
    );
    assert!(matches!(r, Err(KraitError::MissingPackageDescriptor(_))));
}

#[test]
fn generate_requires_supported_remote() {
    let r = Manifest::default().gen_manifest(
        &"main".to_string(),
        "h".to_string(),
        0,
        &vec!["https://gitlab.com/u/r".to_string()],
        Some(scan_foo()),
    );
    assert!(matches!(r, Err(KraitError::NoValidRemote)));
}

#[test]
fn generate_keeps_existing_repo_url() {
    let mut m = Manifest::default();
    m.repo = "already/set".to_string();
    let out = m
        .gen_manifest(
            &"main".to_string(),
            "h".to_string(),
            0,
            &vec!["https://gitlab.com/other".to_string()],
            Some(scan_foo()),
        )
        .unwrap();
    assert_eq!(out.repo, "already/set");
}

#[test]
fn generate_picks_first_supported_remote() {
    let m = Manifest::default()
        .gen_manifest(
            &"main".to_string(),
            "h".to_string(),
            0,
            &vec![
                "https://gitlab.com/u/r".to_string(),
                "https://github.com/u/first".to_string(),
                "https://github.com/u/second".to_string(),
            ],
            Some(scan_foo()),
        )
        .unwrap();
    assert_eq!(m.repo, "https://github.com/u/first");
}

#[test]
fn parse_rejects_wrong_timestamp_type() {
    let r = Manifest::parse("krait.manifest.last_update = \"soon\"".to_string());
    assert!(matches!(r, Err(KraitError::ManifestParseError(_))));
}

#[test]
fn serialize_sorts_package_and_version_keys() {
    let m = Manifest::default()
        .merge("zeta".to_string(), "2.0".to_string(), entry("c1", "packages/zeta"))
        .merge("alpha".to_string(), "9.0".to_string(), entry("c2", "packages/alpha"))
        .merge("alpha".to_string(), "1.0".to_string(), entry("c3", "packages/alpha"));
    let text = m.serialize();
    let alpha = text.find("m.packages[\"alpha\"] = {}").unwrap();
    let zeta = text.find("m.packages[\"zeta\"] = {}").unwrap();
    assert!(alpha < zeta);
    let v1 = text.find("m.packages[\"alpha\"][\"1.0\"] = {}").unwrap();
    let v9 = text.find("m.packages[\"alpha\"][\"9.0\"] = {}").unwrap();
    assert!(v1 < v9);
}

#[test]
fn serialize_is_insertion_order_independent() {
    let one = Manifest::default()
        .merge("a".to_string(), "1.0.0".to_string(), entry("c1", "packages/a"))
        .merge("b".to_string(), "2.0.0".to_string(), entry("c2", "packages/b"));
    let other = Manifest::default()
        .merge("b".to_string(), "2.0.0".to_string(), entry("c2", "packages/b"))
        .merge("a".to_string(), "1.0.0".to_string(), entry("c1", "packages/a"));
    assert_eq!(one.serialize(), other.serialize());
}

#[test]
fn parse_orders_entries_by_integer_key() {
    let script = "\
local m = krait.manifest
m.packages = {}
m.packages[\"a\"] = {}
m.packages[\"a\"][\"1.0\"] = {}
m.packages[\"a\"][\"1.0\"][2] = { path = \"p2\", commit = \"c2\" }
m.packages[\"a\"][\"1.0\"][1] = { path = \"p1\", commit = \"c1\" }
";
    let m = Manifest::parse(script.to_string()).unwrap();
    let entries = &m.packages[0].versions[0].entries;
    assert_eq!(entries.len(), 2);
    assert_eq!(entries[0].path, "p1");
    assert_eq!(entries[1].path, "p2");
}

#[test]
fn serialize_starts_with_generated_header() {
    let text = sample_manifest().serialize();
    let mut lines = text.lines();
    assert!(lines.next().unwrap().starts_with("--"));
    assert!(lines.next().unwrap().starts_with("--"));
    assert!(text.contains("local m = krait.manifest"));
    assert!(text.contains("m.repo = \"u/r\""));
    assert!(text.contains("m.last_update = 1700000000"));
    assert!(text.contains("m.packages[\"a\"][\"1.0.0\"][1][\"contents\"][1][\"name\"] = \"a.txt\""));
}

#[test]
fn serialize_is_deterministic() {
    let a = sample_manifest().serialize();
    let b = sample_manifest().serialize();
    assert_eq!(a, b);
}

#[test]
fn serialize_escapes_quotes_and_controls() {
    let mut m = sample_manifest();
    m.repo = "quote\" back\\slash\nline\ttab".to_string();
    let text = m.serialize();
    assert!(text.contains("m.repo = \"quote\\\" back\\\\slash\\nline\\ttab\""));
}

#[test]
fn parse_reads_plain_fields() {
    let script = "\
local m = krait.manifest
m.repo = \"https://github.com/u/r\"
m.latest_commit = \"abc\"
m.last_update = 42
";
    let m = Manifest::parse(script.to_string()).unwrap();
    assert_eq!(m.repo, "https://github.com/u/r");
    assert_eq!(m.latest_commit, "abc");
    assert_eq!(m.last_update, 42);
    assert!(m.packages.is_empty());
}

#[test]
fn parse_rejects_broken_script() {
    let r = Manifest::parse("this is not a script".to_string());
    assert!(matches!(r, Err(KraitError::ManifestParseError(_))));
}

#[test]
fn parse_rejects_wrong_field_type() {
    let r = Manifest::parse("krait.manifest.repo = 5".to_string());
    assert!(matches!(r, Err(KraitError::ManifestParseError(_))));
}

#[test]
fn parse_tolerates_unknown_fields_and_types() {
    let script = "\
local m = krait.manifest
m.repo = \"r\"
m.extra = true
m.other = {1, 2, {3}}
";
    let m = Manifest::parse(script.to_string()).unwrap();
    assert_eq!(m.repo, "r");
    assert_eq!(m.latest_commit, "");
    assert_eq!(m.last_update, 0);
}

#[test]
fn parse_runs_in_a_sandbox() {
    let r = Manifest::parse("print(\"hello\")".to_string());
    assert!(matches!(r, Err(KraitError::ManifestParseError(_))));
    let r = Manifest::parse("os.exit(1)".to_string());
    assert!(matches!(r, Err(KraitError::ManifestParseError(_))));
}

#[test]
fn parse_tolerates_deep_nesting() {
    let script = "\
local t = {}
for i = 1, 1000 do
    t = { x = t }
end
krait.manifest.deep = t
krait.manifest.repo = \"r\"
";
    let m = Manifest::parse(script.to_string()).unwrap();
    assert_eq!(m.repo, "r");
}

#[test]
fn round_trip_reproduces_the_manifest() {
    let m = sample_manifest();
    let text = m.serialize();
    let back = Manifest::parse(text).unwrap();
    assert!(manifests_equivalent(&m, &back));
}

#[test]
fn round_trip_with_escaped_strings() {
    let mut m = sample_manifest();
    m.repo = "has \"quotes\" and \\slashes\\ and\nnewlines\u{1}".to_string();
    m.latest_commit = "commit\twith\ttabs".to_string();
    let back = Manifest::parse(m.serialize()).unwrap();
    assert!(manifests_equivalent(&m, &back));
}

#[test]
fn round_trip_with_negative_timestamp() {
    let mut m = sample_manifest();
    m.last_update = -12345;
    let back = Manifest::parse(m.serialize()).unwrap();
    assert!(manifests_equivalent(&m, &back));
}

#[test]
fn round_trip_after_generation() {
    let m = Manifest::default()
        .gen_manifest(
            &"main".to_string(),
            "headcommit".to_string(),
            1700000000,
            &vec!["https://github.com/u/r".to_string()],
            Some(scan_foo()),
        )
        .unwrap();
    let back = Manifest::parse(m.serialize()).unwrap();
    assert_eq!(m, back);
}

#[test]
fn inspector_rejects_a_directory_without_version_control() {
    let r = krait::gitrepo::discover_repository("/definitely/not/a/repository/path");
    assert!(matches!(r, Err(KraitError::NotARepository(_))));
}

#[test]
fn inspector_reads_a_real_repository() {
    let dir = "/tmp/krait_inspector_test_repo";
    let repo = git2::Repository::init(dir).unwrap();
    repo.remote_delete("origin").ok();
    repo.remote("origin", "https://github.com/u/r.git").unwrap();
    let sig = git2::Signature::new("t", "t@example.com", &git2::Time::new(1700000000, 0)).unwrap();
    let tree_id = repo.index().unwrap().write_tree().unwrap();
    let tree = repo.find_tree(tree_id).unwrap();
    if repo.head().is_err() {
        repo.commit(Some("HEAD"), &sig, &sig, "start", &tree, &[]).unwrap();
    }

    let opened = krait::gitrepo::discover_repository(dir).unwrap();
    let branch = krait::gitrepo::current_branch(&opened).unwrap();
    assert!(!branch.is_empty());
    let (id, time) = krait::gitrepo::head_commit(&opened).unwrap();
    assert_eq!(id.len(), 40);
    assert_eq!(time, 1700000000);
    let url = krait::gitrepo::primary_remote_url(&opened).unwrap();
    assert_eq!(url, "https://github.com/u/r.git");
    let r = krait::gitrepo::last_commit_touching(&opened, "packages/none");
    assert!(matches!(r, Err(KraitError::NoSuchRevision(_))));
}

#[test]
fn last_commit_touching_finds_the_touching_commit() {
    let dir = "/tmp/krait_walk_test_repo";
    let repo = git2::Repository::init(dir).unwrap();
    let now = std::time::SystemTime::now()
        .duration_since(std::time::UNIX_EPOCH)
        .unwrap();
    let sig =
        git2::Signature::new("t", "t@example.com", &git2::Time::new(now.as_secs() as i64, 0))
            .unwrap();
    let stamp = now.as_nanos().to_string();
    let parent0 = repo.head().ok().and_then(|h| h.peel_to_commit().ok());

    // One commit adds packages/foo/a.txt with fresh content.
    let blob = repo.blob(stamp.as_bytes()).unwrap();
    let mut foo_tb = repo.treebuilder(None).unwrap();
    foo_tb.insert("a.txt", blob, 0o100644).unwrap();
    let foo = foo_tb.write().unwrap();
    let mut pkgs_tb = repo.treebuilder(None).unwrap();
    pkgs_tb.insert("foo", foo, 0o040000).unwrap();
    let pkgs = pkgs_tb.write().unwrap();
    let mut root_tb = repo.treebuilder(None).unwrap();
    root_tb.insert("packages", pkgs, 0o040000).unwrap();
    let tree1 = repo.find_tree(root_tb.write().unwrap()).unwrap();
    let c1 = match &parent0 {
        Some(p) => repo.commit(Some("HEAD"), &sig, &sig, "add package", &tree1, &[p]).unwrap(),
        None => repo.commit(Some("HEAD"), &sig, &sig, "add package", &tree1, &[]).unwrap(),
    };
    let c1_commit = repo.find_commit(c1).unwrap();

    // A later commit leaves the packages tree untouched.
    let readme = repo.blob(format!("readme {}", stamp).as_bytes()).unwrap();
    let mut root_tb2 = repo.treebuilder(Some(&tree1)).unwrap();
    root_tb2.insert("README", readme, 0o100644).unwrap();
    let tree2 = repo.find_tree(root_tb2.write().unwrap()).unwrap();
    repo.commit(Some("HEAD"), &sig, &sig, "add readme", &tree2, &[&c1_commit]).unwrap();

    let opened = krait::gitrepo::discover_repository(dir).unwrap();
    let touched = krait::gitrepo::last_commit_touching(&opened, "packages/foo").unwrap();
    assert_eq!(touched, c1.to_string());
    let missing = krait::gitrepo::last_commit_touching(&opened, "packages/missing");
    assert!(matches!(missing, Err(KraitError::NoSuchRevision(_))));
}

#[test]
fn error_kind_names_are_stable() {
    assert_eq!(KraitError::NoValidRemote.kind_name(), "no valid remote");
    assert_eq!(KraitError::NoPackagesDirectory.kind_name(), "no packages directory");
}
