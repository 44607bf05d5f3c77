//! The generation engine: fold freshly scanned package directories into a
//! manifest.
//!
//! The caller (an outer layer doing the filesystem walking) hands in plain
//! scanned data: one record per package directory, with the declared version
//! read from the package's descriptor, the commit that last touched the
//! package's subpath, and each directly contained file's name and bytes.
//! Everything else — fingerprinting, path and fetch-URL building, validation
//! and the merge — happens here and is verified.

use crate::digest::{digest_bytes, sha1_hex_of};
use crate::error::{KraitError, KraitErrorV};
use crate::manifest::{
    merge_v, ContentV, Manifest, ManifestPackage, ManifestPackageContent, ManifestV, PackageV,
};
use vstd::prelude::*;

verus! {

/// One file found directly inside a package directory.
pub struct ScannedFile {
    /// Filename only.
    pub name: String,
    /// Whether the directory entry is itself a directory.
    pub is_dir: bool,
    /// The file's exact bytes on disk at scan time.
    pub data: Vec<u8>,
}

/// One scanned package directory.
pub struct ScannedPackage {
    /// The directory's name, which is the package name.
    pub name: String,
    /// The version its descriptor declares, if the descriptor was found.
    pub version: Option<String>,
    /// The commit id that last modified the package's subpath.
    pub commit: String,
    /// The directory's immediate entries.
    pub files: Vec<ScannedFile>,
}

/// Mathematical shape of a scanned file.
#[verifier::ext_equal]
pub struct ScannedFileV {
    pub name: Seq<char>,
    pub is_dir: bool,
    pub data: Seq<u8>,
}

/// Mathematical shape of a scanned package.
#[verifier::ext_equal]
pub struct ScannedPackageV {
    pub name: Seq<char>,
    pub version: Option<Seq<char>>,
    pub commit: Seq<char>,
    pub files: Seq<ScannedFileV>,
}

impl View for ScannedFile {
    type V = ScannedFileV;

    open spec fn view(&self) -> ScannedFileV {
        ScannedFileV { name: self.name@, is_dir: self.is_dir, data: self.data@ }
    }
}

impl DeepView for ScannedFile {
    type V = ScannedFileV;

    open spec fn deep_view(&self) -> ScannedFileV {
        self.view()
    }
}

impl View for ScannedPackage {
    type V = ScannedPackageV;

    open spec fn view(&self) -> ScannedPackageV {
        ScannedPackageV {
            name: self.name@,
            version: match self.version {
                Some(v) => Some(v@),
                None => None,
            },
            commit: self.commit@,
            files: self.files.deep_view(),
        }
    }
}

impl DeepView for ScannedPackage {
    type V = ScannedPackageV;

    open spec fn deep_view(&self) -> ScannedPackageV {
        self.view()
    }
}

/// A needle occurs in a haystack at position `i`.
pub open spec fn contains_at(hay: Seq<char>, needle: Seq<char>, i: int) -> bool {
    0 <= i && i + needle.len() <= hay.len() && hay.subrange(i, i + needle.len()) == needle
}

/// A needle occurs somewhere in a haystack.
pub open spec fn has_substr(hay: Seq<char>, needle: Seq<char>) -> bool {
    exists|i: int| contains_at(hay, needle, i)
}

/// A remote URL counts as supported when it names the one supported hosting
/// provider.
pub open spec fn is_supported_remote(url: Seq<char>) -> bool {
    has_substr(url, "github"@)
}

/// The first supported remote URL, in configured order.
pub open spec fn select_remote(urls: Seq<Seq<char>>) -> Option<Seq<char>>
    decreases urls.len(),
{
    if urls.len() == 0 {
        None
    } else if is_supported_remote(urls[0]) {
        Some(urls[0])
    } else {
        select_remote(urls.skip(1))
    }
}

/// The path of a package directory relative to the repository root.
pub open spec fn pkg_path_of(name: Seq<char>) -> Seq<char> {
    "packages/"@ + name
}

/// The repository-relative path of one file of a package.
pub open spec fn file_path_of(pkg: Seq<char>, file: Seq<char>) -> Seq<char> {
    pkg_path_of(pkg) + "/"@ + file
}

/// The fetch URL for a repository-relative path.
pub open spec fn url_of(repo: Seq<char>, branch: Seq<char>, path: Seq<char>) -> Seq<char> {
    "https://raw.githubusercontent.com/"@ + repo + "/"@ + branch + "/"@ + path
}

/// The content record generation builds for one scanned file.
pub open spec fn content_of(
    repo: Seq<char>,
    branch: Seq<char>,
    pkg: Seq<char>,
    f: ScannedFileV,
) -> ContentV {
    ContentV {
        name: f.name,
        path: file_path_of(pkg, f.name),
        sha1: sha1_hex_of(f.data),
        url: url_of(repo, branch, file_path_of(pkg, f.name)),
    }
}

/// The content records for all of a package's files, in scanned order.
pub open spec fn contents_of(
    repo: Seq<char>,
    branch: Seq<char>,
    pkg: Seq<char>,
    files: Seq<ScannedFileV>,
) -> Seq<ContentV> {
    Seq::new(files.len(), |i: int| content_of(repo, branch, pkg, files[i]))
}

/// Whether a scanned package holds a nested directory.
pub open spec fn has_nested_dir(files: Seq<ScannedFileV>) -> bool {
    exists|i: int| 0 <= i < files.len() && files[i].is_dir
}

/// The package entry generation builds for one scanned package.
pub open spec fn entry_of(repo: Seq<char>, branch: Seq<char>, p: ScannedPackageV) -> PackageV {
    PackageV {
        commit: p.commit,
        path: pkg_path_of(p.name),
        contents: contents_of(repo, branch, p.name, p.files),
    }
}

/// Folding scanned packages into the manifest, in scanned order: a missing
/// descriptor or a nested directory stops the run with its error; otherwise
/// each package's entry is merged under its name and declared version.
pub open spec fn gen_fold(
    m: ManifestV,
    branch: Seq<char>,
    scan: Seq<ScannedPackageV>,
) -> Result<ManifestV, KraitErrorV>
    decreases scan.len(),
{
    if scan.len() == 0 {
        Ok(m)
    } else {
        let p = scan[0];
        match p.version {
            None => Err(KraitErrorV::MissingPackageDescriptor(p.name)),
            Some(ver) => if has_nested_dir(p.files) {
                Err(KraitErrorV::UnsupportedNestedContent(p.name))
            } else {
                gen_fold(
                    merge_v(m, p.name, ver, entry_of(m.repo, branch, p)),
                    branch,
                    scan.skip(1),
                )
            },
        }
    }
}

/// What generation computes from its inputs: resolve the repository URL if
/// empty (the first supported remote, else fail), take the head commit and
/// its time, fail when there is no packages directory, then fold every
/// scanned package in.
pub open spec fn gen_spec(
    m: ManifestV,
    branch: Seq<char>,
    latest_commit: Seq<char>,
    last_update: int,
    remote_urls: Seq<Seq<char>>,
    scan: Option<Seq<ScannedPackageV>>,
) -> Result<ManifestV, KraitErrorV> {
    let repo = if m.repo.len() == 0 {
        select_remote(remote_urls)
    } else {
        Some(m.repo)
    };
    match repo {
        None => Err(KraitErrorV::NoValidRemote),
        Some(repo) => match scan {
            None => Err(KraitErrorV::NoPackagesDirectory),
            Some(scan) => gen_fold(
                ManifestV { repo, latest_commit, last_update, packages: m.packages },
                branch,
                scan,
            ),
        },
    }
}

/// Generation's fold keeps the key-uniqueness invariant.
pub proof fn lemma_gen_fold_wf(m: ManifestV, branch: Seq<char>, scan: Seq<ScannedPackageV>)
    requires
        m.wf(),
    ensures
        gen_fold(m, branch, scan) matches Ok(m2) ==> m2.wf(),
    decreases scan.len(),
{
    if scan.len() > 0 {
        let p = scan[0];
        match p.version {
            None => {
            },
            Some(ver) => {
                if !has_nested_dir(p.files) {
                    let merged = merge_v(m, p.name, ver, entry_of(m.repo, branch, p));
                    crate::manifest::lemma_merge_wf(m, p.name, ver, entry_of(m.repo, branch, p));
                    lemma_gen_fold_wf(merged, branch, scan.skip(1));
                }
            },
        }
    }
}

/// Whether the needle matches the haystack at position `i`.
fn matches_at(hay: &str, needle: &str, i: usize) -> (r: bool)
    requires
        i + needle@.len() <= hay@.len(),
    ensures
        r == contains_at(hay@, needle@, i as int),
{
    let hn = hay.unicode_len();
    let n = needle.unicode_len();
    let mut j: usize = 0;
    while j < n
        invariant
            hn == hay@.len(),
            n == needle@.len(),
            j <= n,
            i + n <= hay@.len(),
            forall|j2: int| 0 <= j2 < j ==> hay@[i + j2] == needle@[j2],
        decreases n - j,
    {
        if hay.get_char(i + j) != needle.get_char(j) {
            assert(hay@.subrange(i as int, i + n) != needle@) by {
                assert(hay@.subrange(i as int, i + n)[j as int] != needle@[j as int]);
            }
            return false;
        }
        j = j + 1;
    }
    assert(hay@.subrange(i as int, i + n) =~= needle@);
    true
}

/// Whether a string holds a needle anywhere.
fn contains_sub(hay: &str, needle: &str) -> (r: bool)
    ensures
        r == has_substr(hay@, needle@),
{
    let hn = hay.unicode_len();
    let nn = needle.unicode_len();
    if nn > hn {
        assert(!has_substr(hay@, needle@)) by {
            assert(forall|i: int| !contains_at(hay@, needle@, i));
        }
        return false;
    }
    if nn == 0 {
        assert(hay@.subrange(0, 0) =~= needle@);
        assert(contains_at(hay@, needle@, 0));
        return true;
    }
    let mut i: usize = 0;
    while i <= hn - nn
        invariant
            hn == hay@.len(),
            nn == needle@.len(),
            0 < nn <= hn,
            i <= hn - nn + 1,
            forall|i2: int| 0 <= i2 < i ==> !contains_at(hay@, needle@, i2),
        decreases hn - nn - i + 1,
    {
        if matches_at(hay, needle, i) {
            assert(has_substr(hay@, needle@));
            return true;
        }
        i = i + 1;
    }
    assert(!has_substr(hay@, needle@)) by {
        assert(forall|i2: int| i2 > hn - nn ==> !contains_at(hay@, needle@, i2));
    }
    false
}

/// The first configured remote whose URL names the supported provider.
pub fn select_remote_url(urls: &Vec<String>) -> (r: Option<String>)
    ensures
        match r {
            Some(u) => select_remote(urls.deep_view()) == Some(u@),
            None => select_remote(urls.deep_view()) is None,
        },
{
    proof {
        assert(urls.deep_view().skip(0) =~= urls.deep_view());
    }
    let mut i: usize = 0;
    while i < urls.len()
        invariant
            i <= urls.len(),
            select_remote(urls.deep_view()) == select_remote(urls.deep_view().skip(i as int)),
        decreases urls.len() - i,
    {
        proof {
            assert(urls.deep_view().skip(i as int)[0] == urls.deep_view()[i as int]);
            assert(urls.deep_view().skip(i as int).skip(1) =~= urls.deep_view().skip(i as int + 1));
        }
        if contains_sub(urls[i].as_str(), "github") {
            return Some(urls[i].clone());
        }
        i = i + 1;
    }
    proof {
        assert(urls.deep_view().skip(urls.len() as int) =~= Seq::<Seq<char>>::empty());
    }
    None
}

/// Whether any scanned entry is a nested directory.
fn files_have_dir(files: &Vec<ScannedFile>) -> (r: bool)
    ensures
        r == has_nested_dir(files.deep_view()),
{
    let mut i: usize = 0;
    while i < files.len()
        invariant
            i <= files.len(),
            forall|j: int| 0 <= j < i ==> !files.deep_view()[j].is_dir,
        decreases files.len() - i,
    {
        if files[i].is_dir {
            assert(files.deep_view()[i as int].is_dir);
            return true;
        }
        i = i + 1;
    }
    false
}

/// The package directory path for a package name.
fn make_pkg_path(name: &String) -> (r: String)
    ensures
        r@ == pkg_path_of(name@),
{
    let mut r = String::from_str("packages/");
    r.append(name.as_str());
    r
}

/// The fetch URL for a repository-relative path.
fn make_url(repo: &String, branch: &String, path: &String) -> (r: String)
    ensures
        r@ == url_of(repo@, branch@, path@),
{
    let mut r = String::from_str("https://raw.githubusercontent.com/");
    r.append(repo.as_str());
    r.append("/");
    r.append(branch.as_str());
    r.append("/");
    r.append(path.as_str());
    assert(r@ =~= url_of(repo@, branch@, path@));
    r
}

/// Build the content records for one package's files, from position `k` on.
fn build_contents(repo: &String, branch: &String, pkg: &String, files: &Vec<ScannedFile>, k: usize) -> (r:
    Vec<ManifestPackageContent>)
    requires
        k <= files.len(),
    ensures
        r.deep_view() == contents_of(repo@, branch@, pkg@, files.deep_view().skip(k as int)),
    decreases files.len() - k,
{
    let ghost dvf = files.deep_view();
    if k == files.len() {
        let r: Vec<ManifestPackageContent> = Vec::new();
        proof {
            assert(dvf.skip(k as int) =~= Seq::<ScannedFileV>::empty());
            assert(r.deep_view() =~= contents_of(repo@, branch@, pkg@, dvf.skip(k as int)));
        }
        r
    } else {
        let f = &files[k];
        let mut path = make_pkg_path(pkg);
        path.append("/");
        path.append(f.name.as_str());
        assert(path@ =~= file_path_of(pkg@, f.name@));
        let url = make_url(repo, branch, &path);
        let sha1 = digest_bytes(&f.data);
        let c = ManifestPackageContent { name: f.name.clone(), path, sha1, url };
        proof {
            assert(c@ =~= content_of(repo@, branch@, pkg@, dvf[k as int]));
        }
        let mut rest = build_contents(repo, branch, pkg, files, k + 1);
        let ghost rest_dv = rest.deep_view();
        rest.insert(0, c);
        proof {
            assert(dvf.skip(k as int)[0] == dvf[k as int]);
            assert(dvf.skip(k as int).skip(1) =~= dvf.skip(k as int + 1));
            assert(rest.deep_view() =~= seq![c@] + rest_dv);
            let full = contents_of(repo@, branch@, pkg@, dvf.skip(k as int));
            assert forall|j: int| 0 <= j < full.len() implies (seq![c@] + rest_dv)[j] == full[j] by {
                if j > 0 {
                    assert(rest_dv[j - 1] == content_of(
                        repo@,
                        branch@,
                        pkg@,
                        dvf.skip(k as int + 1)[j - 1],
                    ));
                }
            }
            assert(rest.deep_view() =~= full);
        }
        rest
    }
}

/// Fold the scanned packages from position `k` on into the manifest.
fn gen_fold_exec(m: Manifest, branch: &String, scan: &Vec<ScannedPackage>, k: usize) -> (r: Result<
    Manifest,
    KraitError,
>)
    requires
        k <= scan.len(),
    ensures
        match r {
            Ok(m2) => gen_fold(m@, branch@, scan.deep_view().skip(k as int)) == Ok::<
                ManifestV,
                KraitErrorV,
            >(m2@),
            Err(e) => gen_fold(m@, branch@, scan.deep_view().skip(k as int)) == Err::<
                ManifestV,
                KraitErrorV,
            >(e@),
        },
    decreases scan.len() - k,
{
    let ghost dv = scan.deep_view();
    if k == scan.len() {
        proof {
            assert(dv.skip(k as int) =~= Seq::<ScannedPackageV>::empty());
        }
        Ok(m)
    } else {
        proof {
            assert(dv.skip(k as int)[0] == dv[k as int]);
            assert(dv.skip(k as int).skip(1) =~= dv.skip(k as int + 1));
        }
        let p = &scan[k];
        match &p.version {
            None => Err(KraitError::MissingPackageDescriptor(p.name.clone())),
            Some(ver) => {
                if files_have_dir(&p.files) {
                    Err(KraitError::UnsupportedNestedContent(p.name.clone()))
                } else {
                    proof {
                        assert(p.files.deep_view().skip(0) =~= p.files.deep_view());
                    }
                    let contents = build_contents(&m.repo, branch, &p.name, &p.files, 0);
                    let entry = ManifestPackage {
                        commit: p.commit.clone(),
                        path: make_pkg_path(&p.name),
                        contents,
                    };
                    assert(entry@ =~= entry_of(m@.repo, branch@, dv[k as int]));
                    let ghost m_v = m@;
                    let merged = m.merge(p.name.clone(), ver.clone(), entry);
                    proof {
                        assert(merged@.repo == m_v.repo);
                    }
                    gen_fold_exec(merged, branch, scan, k + 1)
                }
            },
        }
    }
}

impl Manifest {
    /// Generate: resolve the repository URL if still empty (the first
    /// supported remote, else fail), record the head commit and its
    /// timestamp, and fold every scanned package directory in. `scan` is
    /// `None` when the repository has no packages directory; a package
    /// without a descriptor version or with a nested directory fails the
    /// whole run, and nothing is written anywhere: the caller only gets the
    /// error. The result is exactly `gen_spec` of the inputs.
    pub fn gen_manifest(
        self,
        branch: &String,
        latest_commit: String,
        last_update: i64,
        remote_urls: &Vec<String>,
        scan: Option<Vec<ScannedPackage>>,
    ) -> (r: Result<Manifest, KraitError>)
        ensures
            match r {
                Ok(m2) => gen_spec(
                    self@,
                    branch@,
                    latest_commit@,
                    last_update as int,
                    remote_urls.deep_view(),
                    scan.deep_view(),
                ) == Ok::<ManifestV, KraitErrorV>(m2@),
                Err(e) => gen_spec(
                    self@,
                    branch@,
                    latest_commit@,
                    last_update as int,
                    remote_urls.deep_view(),
                    scan.deep_view(),
                ) == Err::<ManifestV, KraitErrorV>(e@),
            },
            (self.wf() && r is Ok) ==> r->Ok_0.wf(),
    {
        let mut m = self;
        if m.repo.as_str().is_empty() {
            match select_remote_url(remote_urls) {
                Some(u) => {
                    m.repo = u;
                },
                None => {
                    return Err(KraitError::NoValidRemote);
                },
            }
        }
        m.latest_commit = latest_commit;
        m.last_update = last_update;
        match scan {
            None => Err(KraitError::NoPackagesDirectory),
            Some(scan_vec) => {
                proof {
                    assert(scan_vec.deep_view().skip(0) =~= scan_vec.deep_view());
                    if self.wf() {
                        assert(m@.wf());
                        lemma_gen_fold_wf(m@, branch@, scan_vec.deep_view());
                    }
                }
                gen_fold_exec(m, branch, &scan_vec, 0)
            },
        }
    }
}

} // verus!
