//! The in-memory manifest model and the merge engine.
//!
//! A manifest records, for one repository, which packages exist, which
//! versions each has, and what files each version's scanned directories
//! contain. Package names and, within a package, version strings are unique;
//! both keep their insertion order, so a manifest serializes to the same
//! bytes whenever its value is the same.

use vstd::prelude::*;

verus! {

/// One file inside a scanned package directory.
#[derive(Clone, PartialEq, Eq, Debug)]
pub struct ManifestPackageContent {
    /// Filename only.
    pub name: String,
    /// Path relative to the repository root.
    pub path: String,
    /// Content fingerprint of the file's bytes, as lower-case hex.
    pub sha1: String,
    /// Fully qualified fetch URL for the file.
    pub url: String,
}

/// One scanned package directory for one declared name and version.
#[derive(Clone, PartialEq, Eq, Debug)]
pub struct ManifestPackage {
    /// Commit id that last modified the package's subpath.
    pub commit: String,
    /// Path of the package directory relative to the repository root.
    pub path: String,
    /// The files directly inside the package directory.
    pub contents: Vec<ManifestPackageContent>,
}

/// The entry lists of one version of one package.
#[derive(Clone, PartialEq, Eq, Debug)]
pub struct VersionRecord {
    pub version: String,
    pub entries: Vec<ManifestPackage>,
}

/// All versions of one package.
#[derive(Clone, PartialEq, Eq, Debug)]
pub struct PackageRecord {
    pub name: String,
    pub versions: Vec<VersionRecord>,
}

/// The root record describing all packages published by a repository.
#[derive(Clone, PartialEq, Eq, Debug)]
pub struct Manifest {
    /// Canonical remote location; empty until resolved.
    pub repo: String,
    /// Commit identifier of the repository head at last generation.
    pub latest_commit: String,
    /// Commit timestamp (seconds since epoch) of `latest_commit`.
    pub last_update: i64,
    /// Package name -> version -> scanned entries, insertion-ordered.
    pub packages: Vec<PackageRecord>,
}

/// Mathematical shape of a content file.
#[verifier::ext_equal]
pub struct ContentV {
    pub name: Seq<char>,
    pub path: Seq<char>,
    pub sha1: Seq<char>,
    pub url: Seq<char>,
}

/// Mathematical shape of a package entry.
#[verifier::ext_equal]
pub struct PackageV {
    pub commit: Seq<char>,
    pub path: Seq<char>,
    pub contents: Seq<ContentV>,
}

/// Mathematical shape of a version record.
#[verifier::ext_equal]
pub struct VersionRecordV {
    pub version: Seq<char>,
    pub entries: Seq<PackageV>,
}

/// Mathematical shape of a package record.
#[verifier::ext_equal]
pub struct PackageRecordV {
    pub name: Seq<char>,
    pub versions: Seq<VersionRecordV>,
}

/// Mathematical shape of a manifest.
#[verifier::ext_equal]
pub struct ManifestV {
    pub repo: Seq<char>,
    pub latest_commit: Seq<char>,
    pub last_update: int,
    pub packages: Seq<PackageRecordV>,
}

impl View for ManifestPackageContent {
    type V = ContentV;

    open spec fn view(&self) -> ContentV {
        ContentV { name: self.name@, path: self.path@, sha1: self.sha1@, url: self.url@ }
    }
}

impl DeepView for ManifestPackageContent {
    type V = ContentV;

    open spec fn deep_view(&self) -> ContentV {
        self.view()
    }
}

impl View for ManifestPackage {
    type V = PackageV;

    open spec fn view(&self) -> PackageV {
        PackageV { commit: self.commit@, path: self.path@, contents: self.contents.deep_view() }
    }
}

impl DeepView for ManifestPackage {
    type V = PackageV;

    open spec fn deep_view(&self) -> PackageV {
        self.view()
    }
}

impl View for VersionRecord {
    type V = VersionRecordV;

    open spec fn view(&self) -> VersionRecordV {
        VersionRecordV { version: self.version@, entries: self.entries.deep_view() }
    }
}

impl DeepView for VersionRecord {
    type V = VersionRecordV;

    open spec fn deep_view(&self) -> VersionRecordV {
        self.view()
    }
}

impl View for PackageRecord {
    type V = PackageRecordV;

    open spec fn view(&self) -> PackageRecordV {
        PackageRecordV { name: self.name@, versions: self.versions.deep_view() }
    }
}

impl DeepView for PackageRecord {
    type V = PackageRecordV;

    open spec fn deep_view(&self) -> PackageRecordV {
        self.view()
    }
}

impl View for Manifest {
    type V = ManifestV;

    open spec fn view(&self) -> ManifestV {
        ManifestV {
            repo: self.repo@,
            latest_commit: self.latest_commit@,
            last_update: self.last_update as int,
            packages: self.packages.deep_view(),
        }
    }
}

/// Version strings within one package are unique.
pub open spec fn versions_wf(vs: Seq<VersionRecordV>) -> bool {
    forall|i: int, j: int| 0 <= i < j < vs.len() ==> vs[i].version != vs[j].version
}

/// Package names are unique and every package's versions are well formed.
pub open spec fn packages_wf(pkgs: Seq<PackageRecordV>) -> bool {
    &&& forall|i: int, j: int| 0 <= i < j < pkgs.len() ==> pkgs[i].name != pkgs[j].name
    &&& forall|i: int| 0 <= i < pkgs.len() ==> versions_wf(#[trigger] pkgs[i].versions)
}

impl ManifestV {
    /// The manifest's internal invariant: its key maps are really maps.
    pub open spec fn wf(self) -> bool {
        packages_wf(self.packages)
    }
}

impl Manifest {
    pub open spec fn wf(self) -> bool {
        self@.wf()
    }
}

/// The versions stored under a package name: first match, by name.
pub open spec fn versions_of(pkgs: Seq<PackageRecordV>, name: Seq<char>) -> Option<
    Seq<VersionRecordV>,
>
    decreases pkgs.len(),
{
    if pkgs.len() == 0 {
        None
    } else if pkgs[0].name == name {
        Some(pkgs[0].versions)
    } else {
        versions_of(pkgs.skip(1), name)
    }
}

/// The entries stored under a version string: first match, by version.
pub open spec fn entries_of_versions(vs: Seq<VersionRecordV>, version: Seq<char>) -> Option<
    Seq<PackageV>,
>
    decreases vs.len(),
{
    if vs.len() == 0 {
        None
    } else if vs[0].version == version {
        Some(vs[0].entries)
    } else {
        entries_of_versions(vs.skip(1), version)
    }
}

/// The entries a manifest stores under a package name and version.
pub open spec fn entries_of(m: ManifestV, name: Seq<char>, version: Seq<char>) -> Option<
    Seq<PackageV>,
> {
    match versions_of(m.packages, name) {
        Some(vs) => entries_of_versions(vs, version),
        None => None,
    }
}

/// Merging one entry into a version list: append to the matched version's
/// entries, or add a new version record at the end.
pub open spec fn merge_versions_v(
    vs: Seq<VersionRecordV>,
    version: Seq<char>,
    entry: PackageV,
) -> Seq<VersionRecordV>
    decreases vs.len(),
{
    if vs.len() == 0 {
        seq![VersionRecordV { version: version, entries: seq![entry] }]
    } else if vs[0].version == version {
        seq![
            VersionRecordV { version: vs[0].version, entries: vs[0].entries.push(entry) },
        ] + vs.skip(1)
    } else {
        seq![vs[0]] + merge_versions_v(vs.skip(1), version, entry)
    }
}

/// Merging one entry into a package list: merge into the matched package's
/// versions, or add a new package record at the end.
pub open spec fn merge_packages_v(
    pkgs: Seq<PackageRecordV>,
    name: Seq<char>,
    version: Seq<char>,
    entry: PackageV,
) -> Seq<PackageRecordV>
    decreases pkgs.len(),
{
    if pkgs.len() == 0 {
        seq![
            PackageRecordV {
                name: name,
                versions: seq![VersionRecordV { version: version, entries: seq![entry] }],
            },
        ]
    } else if pkgs[0].name == name {
        seq![
            PackageRecordV {
                name: pkgs[0].name,
                versions: merge_versions_v(pkgs[0].versions, version, entry),
            },
        ] + pkgs.skip(1)
    } else {
        seq![pkgs[0]] + merge_packages_v(pkgs.skip(1), name, version, entry)
    }
}

/// What `Manifest::merge` computes, as a value.
pub open spec fn merge_v(
    m: ManifestV,
    name: Seq<char>,
    version: Seq<char>,
    entry: PackageV,
) -> ManifestV {
    ManifestV { packages: merge_packages_v(m.packages, name, version, entry), ..m }
}

fn merge_versions(vs: Vec<VersionRecord>, version: String, entry: ManifestPackage) -> (r: Vec<
    VersionRecord,
>)
    ensures
        r.deep_view() == merge_versions_v(vs.deep_view(), version@, entry@),
    decreases vs.len(),
{
    let mut rest = vs;
    if rest.len() == 0 {
        let mut entries: Vec<ManifestPackage> = Vec::new();
        entries.push(entry);
        let mut r: Vec<VersionRecord> = Vec::new();
        r.push(VersionRecord { version, entries });
        assert(r.deep_view() =~~= merge_versions_v(vs.deep_view(), version@, entry@));
        r
    } else {
        let mut first = rest.remove(0);
        if first.version == version {
            first.entries.push(entry);
            rest.insert(0, first);
            assert(rest.deep_view() =~~= merge_versions_v(vs.deep_view(), version@, entry@));
            rest
        } else {
            assert(rest.deep_view() =~~= vs.deep_view().skip(1));
            let mut r = merge_versions(rest, version, entry);
            r.insert(0, first);
            assert(r.deep_view() =~~= merge_versions_v(vs.deep_view(), version@, entry@));
            r
        }
    }
}

fn merge_packages(
    pkgs: Vec<PackageRecord>,
    name: String,
    version: String,
    entry: ManifestPackage,
) -> (r: Vec<PackageRecord>)
    ensures
        r.deep_view() == merge_packages_v(pkgs.deep_view(), name@, version@, entry@),
    decreases pkgs.len(),
{
    let mut rest = pkgs;
    if rest.len() == 0 {
        let mut entries: Vec<ManifestPackage> = Vec::new();
        entries.push(entry);
        let mut versions: Vec<VersionRecord> = Vec::new();
        versions.push(VersionRecord { version, entries });
        let mut r: Vec<PackageRecord> = Vec::new();
        r.push(PackageRecord { name, versions });
        assert(r.deep_view() =~~= merge_packages_v(pkgs.deep_view(), name@, version@, entry@));
        r
    } else {
        let first = rest.remove(0);
        if first.name == name {
            let PackageRecord { name: first_name, versions } = first;
            let versions = merge_versions(versions, version, entry);
            rest.insert(0, PackageRecord { name: first_name, versions });
            assert(rest.deep_view() =~~= merge_packages_v(
                pkgs.deep_view(),
                name@,
                version@,
                entry@,
            ));
            rest
        } else {
            assert(rest.deep_view() =~~= pkgs.deep_view().skip(1));
            let mut r = merge_packages(rest, name, version, entry);
            r.insert(0, first);
            assert(r.deep_view() =~~= merge_packages_v(pkgs.deep_view(), name@, version@, entry@));
            r
        }
    }
}

impl Manifest {
    /// Merge one freshly scanned entry into the manifest under the given
    /// package name and version, never discarding unrelated entries: a new
    /// package or version record is added at the end, an existing entry list
    /// is appended to.
    pub fn merge(self, name: String, version: String, entry: ManifestPackage) -> (r: Manifest)
        ensures
            r@ == merge_v(self@, name@, version@, entry@),
    {
        let Manifest { repo, latest_commit, last_update, packages } = self;
        let packages = merge_packages(packages, name, version, entry);
        let r = Manifest { repo, latest_commit, last_update, packages };
        assert(r@ =~~= merge_v(self@, name@, version@, entry@));
        r
    }
}

/// A version list without a match holds no record of that version.
pub proof fn lemma_eov_none(vs: Seq<VersionRecordV>, ver: Seq<char>)
    ensures
        (entries_of_versions(vs, ver) is None) <==> (forall|j: int|
            0 <= j < vs.len() ==> vs[j].version != ver),
    decreases vs.len(),
{
    if vs.len() > 0 {
        lemma_eov_none(vs.skip(1), ver);
        if entries_of_versions(vs, ver) is None {
            assert forall|j: int| 0 <= j < vs.len() implies vs[j].version != ver by {
                if j > 0 {
                    assert(vs.skip(1)[j - 1] == vs[j]);
                }
            }
        } else {
            if vs[0].version != ver {
                let j = choose|j: int|
                    0 <= j < vs.skip(1).len() && vs.skip(1)[j].version == ver;
                assert(vs[j + 1].version == ver);
            }
        }
    }
}

/// A package list without a match holds no record of that name.
pub proof fn lemma_vof_none(ps: Seq<PackageRecordV>, name: Seq<char>)
    ensures
        (versions_of(ps, name) is None) <==> (forall|j: int|
            0 <= j < ps.len() ==> ps[j].name != name),
    decreases ps.len(),
{
    if ps.len() > 0 {
        lemma_vof_none(ps.skip(1), name);
        if versions_of(ps, name) is None {
            assert forall|j: int| 0 <= j < ps.len() implies ps[j].name != name by {
                if j > 0 {
                    assert(ps.skip(1)[j - 1] == ps[j]);
                }
            }
        } else {
            if ps[0].name != name {
                let j = choose|j: int| 0 <= j < ps.skip(1).len() && ps.skip(1)[j].name == name;
                assert(ps[j + 1].name == name);
            }
        }
    }
}

/// Merging preserves version uniqueness within the merged list.
pub proof fn lemma_merge_versions_wf(vs: Seq<VersionRecordV>, version: Seq<char>, entry: PackageV)
    requires
        versions_wf(vs),
    ensures
        versions_wf(merge_versions_v(vs, version, entry)),
    decreases vs.len(),
{
    let merged = merge_versions_v(vs, version, entry);
    if vs.len() == 0 {
        assert(versions_wf(merged));
    } else if vs[0].version == version {
        assert forall|i: int, j: int|
            0 <= i < j < merged.len() implies merged[i].version != merged[j].version by {
            assert(merged[i].version == vs[i].version);
            assert(merged[j].version == vs[j].version);
        }
    } else {
        assert(versions_wf(vs.skip(1))) by {
            assert(forall|i: int| 0 <= i < vs.skip(1).len() ==> vs.skip(1)[i] == vs[i + 1]);
        }
        lemma_merge_versions_wf(vs.skip(1), version, entry);
        let tail = merge_versions_v(vs.skip(1), version, entry);
        assert(merged[0] == vs[0]);
        assert(merged.skip(1) =~= tail);
        assert forall|i: int, j: int|
            0 <= i < j < merged.len() implies merged[i].version != merged[j].version by {
            if i == 0 {
                assert(merged[j] == tail[j - 1]);
                if tail[j - 1].version == vs[0].version {
                    lemma_eov_none(tail, vs[0].version);
                    lemma_merge_version_isolation(vs.skip(1), version, entry, vs[0].version);
                    lemma_eov_none(vs.skip(1), vs[0].version);
                    assert(forall|k: int|
                        0 <= k < vs.skip(1).len() ==> vs.skip(1)[k].version != vs[0].version);
                    assert(entries_of_versions(tail, vs[0].version) is None);
                    assert(false);
                }
            } else {
                assert(merged[i] == tail[i - 1]);
                assert(merged[j] == tail[j - 1]);
            }
        }
    }
}

/// Merging preserves the whole key-uniqueness invariant.
pub proof fn lemma_merge_packages_wf(
    pkgs: Seq<PackageRecordV>,
    name: Seq<char>,
    version: Seq<char>,
    entry: PackageV,
)
    requires
        packages_wf(pkgs),
    ensures
        packages_wf(merge_packages_v(pkgs, name, version, entry)),
    decreases pkgs.len(),
{
    let merged = merge_packages_v(pkgs, name, version, entry);
    if pkgs.len() == 0 {
        assert(versions_wf(Seq::<VersionRecordV>::empty()));
        lemma_merge_versions_wf(Seq::<VersionRecordV>::empty(), version, entry);
        assert(merged[0].versions == merge_versions_v(
            Seq::<VersionRecordV>::empty(),
            version,
            entry,
        ));
        assert(packages_wf(merged));
    } else if pkgs[0].name == name {
        lemma_merge_versions_wf(pkgs[0].versions, version, entry);
        assert(merged[0].name == pkgs[0].name);
        assert(merged.skip(1) =~= pkgs.skip(1));
        assert forall|i: int, j: int|
            0 <= i < j < merged.len() implies merged[i].name != merged[j].name by {
            assert(merged[i].name == pkgs[i].name);
            assert(merged[j].name == pkgs[j].name);
        }
        assert forall|i: int| 0 <= i < merged.len() implies versions_wf(
            #[trigger] merged[i].versions,
        ) by {
            if i > 0 {
                assert(merged[i] == pkgs[i]);
            }
        }
    } else {
        assert(packages_wf(pkgs.skip(1))) by {
            assert(forall|i: int| 0 <= i < pkgs.skip(1).len() ==> pkgs.skip(1)[i] == pkgs[i + 1]);
        }
        lemma_merge_packages_wf(pkgs.skip(1), name, version, entry);
        let tail = merge_packages_v(pkgs.skip(1), name, version, entry);
        assert(merged[0] == pkgs[0]);
        assert(merged.skip(1) =~= tail);
        assert forall|i: int, j: int|
            0 <= i < j < merged.len() implies merged[i].name != merged[j].name by {
            if i == 0 {
                assert(merged[j] == tail[j - 1]);
                if tail[j - 1].name == pkgs[0].name {
                    lemma_vof_none(tail, pkgs[0].name);
                    lemma_merge_isolation(pkgs.skip(1), name, version, entry, pkgs[0].name);
                    lemma_vof_none(pkgs.skip(1), pkgs[0].name);
                    assert(forall|k: int|
                        0 <= k < pkgs.skip(1).len() ==> pkgs.skip(1)[k].name != pkgs[0].name);
                    assert(versions_of(tail, pkgs[0].name) is None);
                    assert(false);
                }
            } else {
                assert(merged[i] == tail[i - 1]);
                assert(merged[j] == tail[j - 1]);
            }
        }
        assert forall|i: int| 0 <= i < merged.len() implies versions_wf(
            #[trigger] merged[i].versions,
        ) by {
            if i > 0 {
                assert(merged[i] == tail[i - 1]);
            }
        }
    }
}

/// A merged manifest keeps the key-uniqueness invariant.
pub proof fn lemma_merge_wf(m: ManifestV, name: Seq<char>, version: Seq<char>, entry: PackageV)
    requires
        m.wf(),
    ensures
        merge_v(m, name, version, entry).wf(),
{
    lemma_merge_packages_wf(m.packages, name, version, entry);
}

/// Merging appends exactly the one entry under its own name and version.
pub proof fn lemma_merge_entries(
    vs: Seq<VersionRecordV>,
    version: Seq<char>,
    entry: PackageV,
)
    ensures
        entries_of_versions(merge_versions_v(vs, version, entry), version) == Some(
            match entries_of_versions(vs, version) {
                Some(es) => es.push(entry),
                None => seq![entry],
            },
        ),
    decreases vs.len(),
{
    let merged = merge_versions_v(vs, version, entry);
    if vs.len() == 0 {
        assert(merged[0].version == version);
        assert(entries_of_versions(merged, version) == Some(seq![entry]));
    } else if vs[0].version == version {
        assert(merged[0].version == version);
    } else {
        lemma_merge_entries(vs.skip(1), version, entry);
        assert(merged[0] == vs[0]);
        assert(merged.skip(1) =~= merge_versions_v(vs.skip(1), version, entry));
    }
}

/// Merging under one version leaves every other version's entries unchanged.
pub proof fn lemma_merge_version_isolation(
    vs: Seq<VersionRecordV>,
    version: Seq<char>,
    entry: PackageV,
    other: Seq<char>,
)
    requires
        other != version,
    ensures
        entries_of_versions(merge_versions_v(vs, version, entry), other) == entries_of_versions(
            vs,
            other,
        ),
    decreases vs.len(),
{
    let merged = merge_versions_v(vs, version, entry);
    if vs.len() == 0 {
        assert(merged[0].version == version);
        assert(merged.skip(1) =~= Seq::<VersionRecordV>::empty());
        assert(entries_of_versions(merged.skip(1), other) is None);
        assert(entries_of_versions(merged, other) == entries_of_versions(merged.skip(1), other));
    } else if vs[0].version == version {
        assert(merged[0].version == version);
        assert(merged.skip(1) =~= vs.skip(1));
        assert(entries_of_versions(merged, other) == entries_of_versions(vs.skip(1), other));
        assert(entries_of_versions(vs, other) == entries_of_versions(vs.skip(1), other));
    } else {
        lemma_merge_version_isolation(vs.skip(1), version, entry, other);
        assert(merged[0] == vs[0]);
        assert(merged.skip(1) =~= merge_versions_v(vs.skip(1), version, entry));
        if vs[0].version == other {
            assert(entries_of_versions(merged, other) == Some(merged[0].entries));
            assert(entries_of_versions(vs, other) == Some(vs[0].entries));
        } else {
            assert(entries_of_versions(merged, other) == entries_of_versions(
                merged.skip(1),
                other,
            ));
            assert(entries_of_versions(vs, other) == entries_of_versions(vs.skip(1), other));
        }
    }
}

/// Merging into one package leaves every other package's stored value
/// identical.
pub proof fn lemma_merge_isolation(
    pkgs: Seq<PackageRecordV>,
    name: Seq<char>,
    version: Seq<char>,
    entry: PackageV,
    other: Seq<char>,
)
    requires
        other != name,
    ensures
        versions_of(merge_packages_v(pkgs, name, version, entry), other) == versions_of(
            pkgs,
            other,
        ),
    decreases pkgs.len(),
{
    let merged = merge_packages_v(pkgs, name, version, entry);
    if pkgs.len() == 0 {
        assert(merged[0].name == name);
        assert(merged.skip(1) =~= Seq::<PackageRecordV>::empty());
        assert(versions_of(merged.skip(1), other) is None);
        assert(versions_of(merged, other) == versions_of(merged.skip(1), other));
    } else if pkgs[0].name == name {
        assert(merged[0].name == name);
        assert(merged.skip(1) =~= pkgs.skip(1));
        assert(versions_of(merged, other) == versions_of(pkgs.skip(1), other));
        assert(versions_of(pkgs, other) == versions_of(pkgs.skip(1), other));
    } else {
        lemma_merge_isolation(pkgs.skip(1), name, version, entry, other);
        assert(merged[0] == pkgs[0]);
        assert(merged.skip(1) =~= merge_packages_v(pkgs.skip(1), name, version, entry));
        if pkgs[0].name == other {
            assert(versions_of(merged, other) == Some(merged[0].versions));
            assert(versions_of(pkgs, other) == Some(pkgs[0].versions));
        } else {
            assert(versions_of(merged, other) == versions_of(merged.skip(1), other));
            assert(versions_of(pkgs, other) == versions_of(pkgs.skip(1), other));
        }
    }
}

/// Merging finds the merged version list under the package's own name.
pub proof fn lemma_merge_versions_of(
    pkgs: Seq<PackageRecordV>,
    name: Seq<char>,
    version: Seq<char>,
    entry: PackageV,
)
    ensures
        versions_of(merge_packages_v(pkgs, name, version, entry), name) == Some(
            merge_versions_v(
                match versions_of(pkgs, name) {
                    Some(vs) => vs,
                    None => Seq::<VersionRecordV>::empty(),
                },
                version,
                entry,
            ),
        ),
    decreases pkgs.len(),
{
    let merged = merge_packages_v(pkgs, name, version, entry);
    if pkgs.len() == 0 {
        assert(merged[0].name == name);
        assert(merge_versions_v(Seq::<VersionRecordV>::empty(), version, entry) =~= seq![
            VersionRecordV { version: version, entries: seq![entry] },
        ]);
    } else if pkgs[0].name == name {
        assert(merged[0].name == name);
    } else {
        lemma_merge_versions_of(pkgs.skip(1), name, version, entry);
        assert(merged.skip(1) =~= merge_packages_v(pkgs.skip(1), name, version, entry));
    }
}

/// The entries a merged manifest stores under the merged name and version:
/// exactly the old entries with the new one appended.
pub proof fn lemma_merge_entries_of(
    m: ManifestV,
    name: Seq<char>,
    version: Seq<char>,
    entry: PackageV,
)
    ensures
        entries_of(merge_v(m, name, version, entry), name, version) == Some(
            match entries_of(m, name, version) {
                Some(es) => es.push(entry),
                None => seq![entry],
            },
        ),
{
    lemma_merge_versions_of(m.packages, name, version, entry);
    match versions_of(m.packages, name) {
        Some(vs) => {
            lemma_merge_entries(vs, version, entry);
        },
        None => {
            lemma_merge_entries(Seq::<VersionRecordV>::empty(), version, entry);
        },
    }
}

/// Idempotent merge, as the behaviour is documented today: merging the same
/// name, version and entry twice appends the entry twice, so the stored list
/// ends with the entry duplicated.
pub proof fn lemma_merge_twice_duplicates(
    m: ManifestV,
    name: Seq<char>,
    version: Seq<char>,
    entry: PackageV,
)
    ensures
        entries_of(
            merge_v(merge_v(m, name, version, entry), name, version, entry),
            name,
            version,
        ) == Some(
            match entries_of(m, name, version) {
                Some(es) => es.push(entry).push(entry),
                None => seq![entry, entry],
            },
        ),
{
    lemma_merge_entries_of(m, name, version, entry);
    lemma_merge_entries_of(merge_v(m, name, version, entry), name, version, entry);
    match entries_of(m, name, version) {
        Some(es) => {
        },
        None => {
            assert(seq![entry].push(entry) =~= seq![entry, entry]);
        },
    }
}

impl Default for Manifest {
    /// A fresh manifest: every field at its default, no packages.
    fn default() -> (r: Manifest)
        ensures
            r@.repo == Seq::<char>::empty(),
            r@.latest_commit == Seq::<char>::empty(),
            r@.last_update == 0,
            r@.packages == Seq::<PackageRecordV>::empty(),
            r.wf(),
    {
        let r = Manifest {
            repo: String::new(),
            latest_commit: String::new(),
            last_update: 0,
            packages: Vec::new(),
        };
        assert(r@.packages =~= Seq::<PackageRecordV>::empty());
        r
    }
}

} // verus!
