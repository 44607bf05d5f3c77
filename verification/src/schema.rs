//! Coercing a script value into the typed manifest schema.
//!
//! The rules are lenient where the schema allows it and strict where it does
//! not: a missing field falls back to its default; a key of an unexpected
//! type is skipped; but a present field of the wrong type, a package or
//! version value that is not a table, and a key that repeats, cannot be
//! coerced and fail the whole decode. Entry and content lists are taken in
//! ascending order of their integer keys, an earlier-stored pair before a
//! later one with the same key.

use crate::error::KraitError;
use crate::luaval::{lemma_lua_table_view, LuaValue, LuaValueV};
use crate::manifest::{
    entries_of_versions, lemma_eov_none, lemma_vof_none, versions_of, ContentV, Manifest, ManifestPackage, ManifestPackageContent,
    ManifestV, PackageRecord, PackageRecordV, PackageV, VersionRecord, VersionRecordV,
};
use vstd::prelude::*;

verus! {

/// Look a string key up in a table's pair list: first match wins.
pub open spec fn tbl_get_v(kvs: Seq<(LuaValueV, LuaValueV)>, key: Seq<char>) -> Option<LuaValueV>
    decreases kvs.len(),
{
    if kvs.len() == 0 {
        None
    } else if kvs[0].0 == LuaValueV::Str(key) {
        Some(kvs[0].1)
    } else {
        tbl_get_v(kvs.skip(1), key)
    }
}

/// A string field: absent means empty, a non-string value cannot be coerced.
pub open spec fn fld_str(kvs: Seq<(LuaValueV, LuaValueV)>, key: Seq<char>) -> Option<Seq<char>> {
    match tbl_get_v(kvs, key) {
        None => Some(Seq::<char>::empty()),
        Some(LuaValueV::Str(s)) => Some(s),
        Some(_) => None,
    }
}

/// An integer field: absent means zero, a non-integer value cannot be
/// coerced.
pub open spec fn fld_int(kvs: Seq<(LuaValueV, LuaValueV)>, key: Seq<char>) -> Option<int> {
    match tbl_get_v(kvs, key) {
        None => Some(0int),
        Some(LuaValueV::Int(n)) => Some(n),
        Some(_) => None,
    }
}

/// One content file from its field table.
pub open spec fn dec_content(kvs: Seq<(LuaValueV, LuaValueV)>) -> Option<ContentV> {
    match (fld_str(kvs, "name"@), fld_str(kvs, "path"@), fld_str(kvs, "sha1"@), fld_str(
        kvs,
        "url"@,
    )) {
        (Some(name), Some(path), Some(sha1), Some(url)) => Some(
            ContentV { name, path, sha1, url },
        ),
        _ => None,
    }
}

/// Insert a keyed content file in front of the first stored pair whose key
/// is not below its own: keys ascending, an earlier-seen pair before a
/// later one with the same key.
pub open spec fn insert_keyed_content(k: int, x: ContentV, s: Seq<(int, ContentV)>) -> Seq<
    (int, ContentV),
>
    decreases s.len(),
{
    if s.len() == 0 {
        seq![(k, x)]
    } else if k <= s[0].0 {
        seq![(k, x)] + s
    } else {
        seq![s[0]] + insert_keyed_content(k, x, s.skip(1))
    }
}

/// A content list as keyed pairs, sorted by the integer keys; a non-integer
/// key is skipped, an integer key without a table cannot be coerced.
pub open spec fn dec_content_pairs(kvs: Seq<(LuaValueV, LuaValueV)>) -> Option<
    Seq<(int, ContentV)>,
>
    decreases kvs.len(),
{
    if kvs.len() == 0 {
        Some(Seq::<(int, ContentV)>::empty())
    } else {
        match kvs[0].0 {
            LuaValueV::Int(k) => match kvs[0].1 {
                LuaValueV::Table(ct) => match (dec_content(ct), dec_content_pairs(kvs.skip(1))) {
                    (Some(c), Some(cs)) => Some(insert_keyed_content(k, c, cs)),
                    _ => None,
                },
                _ => None,
            },
            _ => dec_content_pairs(kvs.skip(1)),
        }
    }
}

/// The content files of a keyed list, keys dropped.
pub open spec fn strip_content_keys(s: Seq<(int, ContentV)>) -> Seq<ContentV>
    decreases s.len(),
{
    if s.len() == 0 {
        Seq::<ContentV>::empty()
    } else {
        seq![s[0].1] + strip_content_keys(s.skip(1))
    }
}

/// A content list: integer-keyed tables, taken in key order.
pub open spec fn dec_contents(kvs: Seq<(LuaValueV, LuaValueV)>) -> Option<Seq<ContentV>> {
    match dec_content_pairs(kvs) {
        Some(ps) => Some(strip_content_keys(ps)),
        None => None,
    }
}

/// One package entry from its field table.
pub open spec fn dec_entry(kvs: Seq<(LuaValueV, LuaValueV)>) -> Option<PackageV> {
    match (fld_str(kvs, "path"@), fld_str(kvs, "commit"@)) {
        (Some(path), Some(commit)) => match tbl_get_v(kvs, "contents"@) {
            None => Some(PackageV { commit, path, contents: Seq::<ContentV>::empty() }),
            Some(LuaValueV::Table(ct)) => match dec_contents(ct) {
                Some(contents) => Some(PackageV { commit, path, contents }),
                None => None,
            },
            Some(_) => None,
        },
        _ => None,
    }
}

/// Insert a keyed entry in front of the first stored pair whose key is not
/// below its own.
pub open spec fn insert_keyed_entry(k: int, x: PackageV, s: Seq<(int, PackageV)>) -> Seq<
    (int, PackageV),
>
    decreases s.len(),
{
    if s.len() == 0 {
        seq![(k, x)]
    } else if k <= s[0].0 {
        seq![(k, x)] + s
    } else {
        seq![s[0]] + insert_keyed_entry(k, x, s.skip(1))
    }
}

/// An entry list as keyed pairs, sorted by the integer keys.
pub open spec fn dec_entry_pairs(kvs: Seq<(LuaValueV, LuaValueV)>) -> Option<Seq<(int, PackageV)>>
    decreases kvs.len(),
{
    if kvs.len() == 0 {
        Some(Seq::<(int, PackageV)>::empty())
    } else {
        match kvs[0].0 {
            LuaValueV::Int(k) => match kvs[0].1 {
                LuaValueV::Table(et) => match (dec_entry(et), dec_entry_pairs(kvs.skip(1))) {
                    (Some(e), Some(es)) => Some(insert_keyed_entry(k, e, es)),
                    _ => None,
                },
                _ => None,
            },
            _ => dec_entry_pairs(kvs.skip(1)),
        }
    }
}

/// The entries of a keyed list, keys dropped.
pub open spec fn strip_entry_keys(s: Seq<(int, PackageV)>) -> Seq<PackageV>
    decreases s.len(),
{
    if s.len() == 0 {
        Seq::<PackageV>::empty()
    } else {
        seq![s[0].1] + strip_entry_keys(s.skip(1))
    }
}

/// An entry list: integer-keyed tables, taken in key order.
pub open spec fn dec_entries(kvs: Seq<(LuaValueV, LuaValueV)>) -> Option<Seq<PackageV>> {
    match dec_entry_pairs(kvs) {
        Some(ps) => Some(strip_entry_keys(ps)),
        None => None,
    }
}

/// A version map: string keys to entry-list tables, in stored order; a
/// repeated version cannot be coerced.
pub open spec fn dec_versions(kvs: Seq<(LuaValueV, LuaValueV)>) -> Option<Seq<VersionRecordV>>
    decreases kvs.len(),
{
    if kvs.len() == 0 {
        Some(Seq::<VersionRecordV>::empty())
    } else {
        match kvs[0].0 {
            LuaValueV::Str(ver) => match kvs[0].1 {
                LuaValueV::Table(et) => match (dec_entries(et), dec_versions(kvs.skip(1))) {
                    (Some(es), Some(vs)) => if entries_of_versions(vs, ver) is Some {
                        None
                    } else {
                        Some(seq![VersionRecordV { version: ver, entries: es }] + vs)
                    },
                    _ => None,
                },
                _ => None,
            },
            _ => dec_versions(kvs.skip(1)),
        }
    }
}

/// A package map: string keys to version-map tables, in stored order; a
/// repeated package name cannot be coerced.
pub open spec fn dec_packages(kvs: Seq<(LuaValueV, LuaValueV)>) -> Option<Seq<PackageRecordV>>
    decreases kvs.len(),
{
    if kvs.len() == 0 {
        Some(Seq::<PackageRecordV>::empty())
    } else {
        match kvs[0].0 {
            LuaValueV::Str(name) => match kvs[0].1 {
                LuaValueV::Table(vt) => match (dec_versions(vt), dec_packages(kvs.skip(1))) {
                    (Some(vs), Some(ps)) => if versions_of(ps, name) is Some {
                        None
                    } else {
                        Some(seq![PackageRecordV { name: name, versions: vs }] + ps)
                    },
                    _ => None,
                },
                _ => None,
            },
            _ => dec_packages(kvs.skip(1)),
        }
    }
}

/// The whole manifest from the root table value.
pub open spec fn decode_spec(v: LuaValueV) -> Option<ManifestV> {
    match v {
        LuaValueV::Table(t) => {
            let pkgs = match tbl_get_v(t, "packages"@) {
                None => Some(Seq::<PackageRecordV>::empty()),
                Some(LuaValueV::Table(pt)) => dec_packages(pt),
                Some(_) => None,
            };
            match (fld_str(t, "repo"@), fld_str(t, "latest_commit"@), fld_int(
                t,
                "last_update"@,
            ), pkgs) {
                (Some(repo), Some(latest_commit), Some(last_update), Some(packages)) => Some(
                    ManifestV { repo, latest_commit, last_update, packages },
                ),
                _ => None,
            }
        },
        _ => None,
    }
}

/// A decoded version map has pairwise distinct version strings.
pub proof fn lemma_dec_versions_wf(kvs: Seq<(LuaValueV, LuaValueV)>)
    ensures
        dec_versions(kvs) matches Some(vs) ==> crate::manifest::versions_wf(vs),
    decreases kvs.len(),
{
    if kvs.len() > 0 {
        lemma_dec_versions_wf(kvs.skip(1));
        match kvs[0].0 {
            LuaValueV::Str(ver) => match kvs[0].1 {
                LuaValueV::Table(et) => match (dec_entries(et), dec_versions(kvs.skip(1))) {
                    (Some(es), Some(vs)) => {
                        if entries_of_versions(vs, ver) is None {
                            lemma_eov_none(vs, ver);
                            let merged = seq![VersionRecordV { version: ver, entries: es }] + vs;
                            assert forall|i: int, j: int|
                                0 <= i < j < merged.len() implies merged[i].version
                                != merged[j].version by {
                                if i == 0 {
                                    assert(merged[j] == vs[j - 1]);
                                } else {
                                    assert(merged[i] == vs[i - 1]);
                                    assert(merged[j] == vs[j - 1]);
                                }
                            }
                        }
                    },
                    _ => {
                    },
                },
                _ => {
                },
            },
            _ => {
            },
        }
    }
}

/// A decoded package map is well formed: names pairwise distinct, every
/// version map well formed.
pub proof fn lemma_dec_packages_wf(kvs: Seq<(LuaValueV, LuaValueV)>)
    ensures
        dec_packages(kvs) matches Some(ps) ==> crate::manifest::packages_wf(ps),
    decreases kvs.len(),
{
    if kvs.len() > 0 {
        lemma_dec_packages_wf(kvs.skip(1));
        match kvs[0].0 {
            LuaValueV::Str(name) => match kvs[0].1 {
                LuaValueV::Table(vt) => match (dec_versions(vt), dec_packages(kvs.skip(1))) {
                    (Some(vs), Some(ps)) => {
                        if versions_of(ps, name) is None {
                            lemma_vof_none(ps, name);
                            lemma_dec_versions_wf(vt);
                            let merged = seq![PackageRecordV { name: name, versions: vs }] + ps;
                            assert forall|i: int, j: int|
                                0 <= i < j < merged.len() implies merged[i].name
                                != merged[j].name by {
                                if i == 0 {
                                    assert(merged[j] == ps[j - 1]);
                                } else {
                                    assert(merged[i] == ps[i - 1]);
                                    assert(merged[j] == ps[j - 1]);
                                }
                            }
                            assert forall|i: int|
                                0 <= i < merged.len() implies crate::manifest::versions_wf(
                                #[trigger] merged[i].versions,
                            ) by {
                                if i > 0 {
                                    assert(merged[i] == ps[i - 1]);
                                }
                            }
                        }
                    },
                    _ => {
                    },
                },
                _ => {
                },
            },
            _ => {
            },
        }
    }
}

/// Whatever decodes, decodes to a well-formed manifest.
pub proof fn lemma_decode_wf(v: LuaValueV)
    ensures
        decode_spec(v) matches Some(mv) ==> mv.wf(),
{
    match v {
        LuaValueV::Table(t) => match tbl_get_v(t, "packages"@) {
            Some(LuaValueV::Table(pt)) => {
                lemma_dec_packages_wf(pt);
            },
            _ => {
                assert(crate::manifest::packages_wf(Seq::<PackageRecordV>::empty()));
            },
        },
        _ => {
        },
    }
}

/// Whether a string value equals a literal key.
fn string_eq_str(s: &String, lit: &str) -> (r: bool)
    ensures
        r == (s@ == lit@),
{
    let tmp = String::from_str(lit);
    *s == tmp
}

/// Find a string key in a table's pair list, from position `k` on.
fn get_field<'a>(kvs: &'a Vec<(LuaValue, LuaValue)>, k: usize, key: &str) -> (r: Option<
    &'a LuaValue,
>)
    requires
        k <= kvs.len(),
    ensures
        match r {
            Some(v) => tbl_get_v(kvs.deep_view().skip(k as int), key@) == Some(v.lua_view()),
            None => tbl_get_v(kvs.deep_view().skip(k as int), key@) is None,
        },
    decreases kvs.len() - k,
{
    let ghost dv = kvs.deep_view();
    if k == kvs.len() {
        proof {
            assert(dv.skip(k as int) =~= Seq::<(LuaValueV, LuaValueV)>::empty());
        }
        None
    } else {
        proof {
            assert(dv.skip(k as int)[0] == dv[k as int]);
            assert(dv.skip(k as int).skip(1) =~= dv.skip(k as int + 1));
        }
        let hit = match &kvs[k].0 {
            LuaValue::Str(s) => string_eq_str(s, key),
            _ => false,
        };
        if hit {
            Some(&kvs[k].1)
        } else {
            get_field(kvs, k + 1, key)
        }
    }
}

/// A string field with its default.
fn field_string(kvs: &Vec<(LuaValue, LuaValue)>, key: &str) -> (r: Option<String>)
    ensures
        match r {
            Some(s) => fld_str(kvs.deep_view(), key@) == Some(s@),
            None => fld_str(kvs.deep_view(), key@) is None,
        },
{
    proof {
        assert(kvs.deep_view().skip(0) =~= kvs.deep_view());
    }
    match get_field(kvs, 0, key) {
        None => Some(String::new()),
        Some(LuaValue::Str(s)) => Some(s.clone()),
        Some(_) => None,
    }
}

/// An integer field with its default.
fn field_int(kvs: &Vec<(LuaValue, LuaValue)>, key: &str) -> (r: Option<i64>)
    ensures
        match r {
            Some(n) => fld_int(kvs.deep_view(), key@) == Some(n as int),
            None => fld_int(kvs.deep_view(), key@) is None,
        },
{
    proof {
        assert(kvs.deep_view().skip(0) =~= kvs.deep_view());
    }
    match get_field(kvs, 0, key) {
        None => Some(0),
        Some(LuaValue::Int(n)) => Some(*n),
        Some(_) => None,
    }
}

/// One content file from its field table.
fn content_of_table(kvs: &Vec<(LuaValue, LuaValue)>) -> (r: Option<ManifestPackageContent>)
    ensures
        match r {
            Some(c) => dec_content(kvs.deep_view()) == Some(c@),
            None => dec_content(kvs.deep_view()) is None,
        },
{
    match (field_string(kvs, "name"), field_string(kvs, "path"), field_string(
        kvs,
        "sha1",
    ), field_string(kvs, "url")) {
        (Some(name), Some(path), Some(sha1), Some(url)) => {
            let c = ManifestPackageContent { name, path, sha1, url };
            assert(dec_content(kvs.deep_view()) == Some(c@));
            Some(c)
        },
        _ => None,
    }
}

/// The keyed-pair view of an executable content pair list.
pub open spec fn content_pairs_view(s: Seq<(i64, ManifestPackageContent)>) -> Seq<
    (int, ContentV),
> {
    Seq::new(s.len(), |i: int| (s[i].0 as int, s[i].1@))
}

/// Insert a keyed content file at its sorted place.
fn insert_content_pair(
    k: i64,
    c: ManifestPackageContent,
    s: Vec<(i64, ManifestPackageContent)>,
) -> (r: Vec<(i64, ManifestPackageContent)>)
    ensures
        content_pairs_view(r@) == insert_keyed_content(k as int, c@, content_pairs_view(s@)),
    decreases s.len(),
{
    let mut rest = s;
    if rest.len() == 0 {
        rest.push((k, c));
        assert(content_pairs_view(rest@) =~~= insert_keyed_content(
            k as int,
            c@,
            content_pairs_view(s@),
        ));
        rest
    } else if k <= rest[0].0 {
        rest.insert(0, (k, c));
        assert(content_pairs_view(rest@) =~~= insert_keyed_content(
            k as int,
            c@,
            content_pairs_view(s@),
        ));
        rest
    } else {
        let first = rest.remove(0);
        assert(content_pairs_view(rest@) =~= content_pairs_view(s@).skip(1));
        let mut r = insert_content_pair(k, c, rest);
        r.insert(0, first);
        assert(content_pairs_view(r@) =~~= insert_keyed_content(
            k as int,
            c@,
            content_pairs_view(s@),
        ));
        r
    }
}

/// The keyed content pairs of an entry, from position `k` on.
fn content_pairs_from(kvs: &Vec<(LuaValue, LuaValue)>, k: usize) -> (r: Option<
    Vec<(i64, ManifestPackageContent)>,
>)
    requires
        k <= kvs.len(),
    ensures
        match r {
            Some(ps) => dec_content_pairs(kvs.deep_view().skip(k as int)) == Some(
                content_pairs_view(ps@),
            ),
            None => dec_content_pairs(kvs.deep_view().skip(k as int)) is None,
        },
    decreases kvs.len() - k,
{
    let ghost dv = kvs.deep_view();
    if k == kvs.len() {
        let r: Vec<(i64, ManifestPackageContent)> = Vec::new();
        proof {
            assert(dv.skip(k as int) =~= Seq::<(LuaValueV, LuaValueV)>::empty());
            assert(content_pairs_view(r@) =~= Seq::<(int, ContentV)>::empty());
        }
        Some(r)
    } else {
        proof {
            assert(dv.skip(k as int)[0] == dv[k as int]);
            assert(dv.skip(k as int).skip(1) =~= dv.skip(k as int + 1));
        }
        match &kvs[k].0 {
            LuaValue::Int(key) => match &kvs[k].1 {
                LuaValue::Table(ct) => {
                    proof {
                        lemma_lua_table_view(*ct);
                    }
                    match (content_of_table(ct), content_pairs_from(kvs, k + 1)) {
                        (Some(c), Some(rest)) => Some(insert_content_pair(*key, c, rest)),
                        _ => None,
                    }
                },
                _ => None,
            },
            _ => content_pairs_from(kvs, k + 1),
        }
    }
}

/// Drop the keys of a sorted content pair list.
fn strip_content_pairs(ps: Vec<(i64, ManifestPackageContent)>) -> (r: Vec<ManifestPackageContent>)
    ensures
        r.deep_view() == strip_content_keys(content_pairs_view(ps@)),
    decreases ps.len(),
{
    let mut rest = ps;
    if rest.len() == 0 {
        let r: Vec<ManifestPackageContent> = Vec::new();
        assert(r.deep_view() =~~= strip_content_keys(content_pairs_view(rest@)));
        r
    } else {
        let first = rest.remove(0);
        assert(content_pairs_view(rest@) =~= content_pairs_view(ps@).skip(1));
        let mut r = strip_content_pairs(rest);
        r.insert(0, first.1);
        assert(r.deep_view() =~~= strip_content_keys(content_pairs_view(ps@)));
        r
    }
}

/// The content list of an entry, from position `k` on, in key order.
fn contents_from(kvs: &Vec<(LuaValue, LuaValue)>, k: usize) -> (r: Option<
    Vec<ManifestPackageContent>,
>)
    requires
        k <= kvs.len(),
    ensures
        match r {
            Some(cs) => dec_contents(kvs.deep_view().skip(k as int)) == Some(cs.deep_view()),
            None => dec_contents(kvs.deep_view().skip(k as int)) is None,
        },
    decreases kvs.len() - k,
{
    match content_pairs_from(kvs, k) {
        Some(ps) => Some(strip_content_pairs(ps)),
        None => None,
    }
}

/// One package entry from its field table.
fn entry_of_table(kvs: &Vec<(LuaValue, LuaValue)>) -> (r: Option<ManifestPackage>)
    ensures
        match r {
            Some(e) => dec_entry(kvs.deep_view()) == Some(e@),
            None => dec_entry(kvs.deep_view()) is None,
        },
{
    proof {
        assert(kvs.deep_view().skip(0) =~= kvs.deep_view());
    }
    match (field_string(kvs, "path"), field_string(kvs, "commit")) {
        (Some(path), Some(commit)) => match get_field(kvs, 0, "contents") {
            None => {
                let e = ManifestPackage { commit, path, contents: Vec::new() };
                assert(e@.contents =~= Seq::<ContentV>::empty());
                assert(dec_entry(kvs.deep_view()) == Some(e@));
                Some(e)
            },
            Some(LuaValue::Table(ct)) => {
                proof {
                    lemma_lua_table_view(*ct);
                    assert(ct.deep_view().skip(0) =~= ct.deep_view());
                }
                match contents_from(ct, 0) {
                    Some(contents) => {
                        let e = ManifestPackage { commit, path, contents };
                        assert(dec_entry(kvs.deep_view()) == Some(e@));
                        Some(e)
                    },
                    None => None,
                }
            },
            Some(_) => None,
        },
        _ => None,
    }
}

/// The keyed-pair view of an executable entry pair list.
pub open spec fn entry_pairs_view(s: Seq<(i64, ManifestPackage)>) -> Seq<(int, PackageV)> {
    Seq::new(s.len(), |i: int| (s[i].0 as int, s[i].1@))
}

/// Insert a keyed entry at its sorted place.
fn insert_entry_pair(k: i64, e: ManifestPackage, s: Vec<(i64, ManifestPackage)>) -> (r: Vec<
    (i64, ManifestPackage),
>)
    ensures
        entry_pairs_view(r@) == insert_keyed_entry(k as int, e@, entry_pairs_view(s@)),
    decreases s.len(),
{
    let mut rest = s;
    if rest.len() == 0 {
        rest.push((k, e));
        assert(entry_pairs_view(rest@) =~~= insert_keyed_entry(
            k as int,
            e@,
            entry_pairs_view(s@),
        ));
        rest
    } else if k <= rest[0].0 {
        rest.insert(0, (k, e));
        assert(entry_pairs_view(rest@) =~~= insert_keyed_entry(
            k as int,
            e@,
            entry_pairs_view(s@),
        ));
        rest
    } else {
        let first = rest.remove(0);
        assert(entry_pairs_view(rest@) =~= entry_pairs_view(s@).skip(1));
        let mut r = insert_entry_pair(k, e, rest);
        r.insert(0, first);
        assert(entry_pairs_view(r@) =~~= insert_keyed_entry(k as int, e@, entry_pairs_view(s@)));
        r
    }
}

/// The keyed entry pairs of a version, from position `k` on.
fn entry_pairs_from(kvs: &Vec<(LuaValue, LuaValue)>, k: usize) -> (r: Option<
    Vec<(i64, ManifestPackage)>,
>)
    requires
        k <= kvs.len(),
    ensures
        match r {
            Some(ps) => dec_entry_pairs(kvs.deep_view().skip(k as int)) == Some(
                entry_pairs_view(ps@),
            ),
            None => dec_entry_pairs(kvs.deep_view().skip(k as int)) is None,
        },
    decreases kvs.len() - k,
{
    let ghost dv = kvs.deep_view();
    if k == kvs.len() {
        let r: Vec<(i64, ManifestPackage)> = Vec::new();
        proof {
            assert(dv.skip(k as int) =~= Seq::<(LuaValueV, LuaValueV)>::empty());
            assert(entry_pairs_view(r@) =~= Seq::<(int, PackageV)>::empty());
        }
        Some(r)
    } else {
        proof {
            assert(dv.skip(k as int)[0] == dv[k as int]);
            assert(dv.skip(k as int).skip(1) =~= dv.skip(k as int + 1));
        }
        match &kvs[k].0 {
            LuaValue::Int(key) => match &kvs[k].1 {
                LuaValue::Table(et) => {
                    proof {
                        lemma_lua_table_view(*et);
                    }
                    match (entry_of_table(et), entry_pairs_from(kvs, k + 1)) {
                        (Some(e), Some(rest)) => Some(insert_entry_pair(*key, e, rest)),
                        _ => None,
                    }
                },
                _ => None,
            },
            _ => entry_pairs_from(kvs, k + 1),
        }
    }
}

/// Drop the keys of a sorted entry pair list.
fn strip_entry_pairs(ps: Vec<(i64, ManifestPackage)>) -> (r: Vec<ManifestPackage>)
    ensures
        r.deep_view() == strip_entry_keys(entry_pairs_view(ps@)),
    decreases ps.len(),
{
    let mut rest = ps;
    if rest.len() == 0 {
        let r: Vec<ManifestPackage> = Vec::new();
        assert(r.deep_view() =~~= strip_entry_keys(entry_pairs_view(rest@)));
        r
    } else {
        let first = rest.remove(0);
        assert(entry_pairs_view(rest@) =~= entry_pairs_view(ps@).skip(1));
        let mut r = strip_entry_pairs(rest);
        r.insert(0, first.1);
        assert(r.deep_view() =~~= strip_entry_keys(entry_pairs_view(ps@)));
        r
    }
}

/// The entry list of a version, from position `k` on, in key order.
fn entries_from(kvs: &Vec<(LuaValue, LuaValue)>, k: usize) -> (r: Option<Vec<ManifestPackage>>)
    requires
        k <= kvs.len(),
    ensures
        match r {
            Some(es) => dec_entries(kvs.deep_view().skip(k as int)) == Some(es.deep_view()),
            None => dec_entries(kvs.deep_view().skip(k as int)) is None,
        },
    decreases kvs.len() - k,
{
    match entry_pairs_from(kvs, k) {
        Some(ps) => Some(strip_entry_pairs(ps)),
        None => None,
    }
}

/// Whether an entry list is already stored under a version string.
fn has_version(vs: &Vec<VersionRecord>, ver: &String) -> (r: bool)
    ensures
        r == (entries_of_versions(vs.deep_view(), ver@) is Some),
{
    proof {
        assert(vs.deep_view().skip(0) =~= vs.deep_view());
    }
    let mut i: usize = 0;
    while i < vs.len()
        invariant
            i <= vs.len(),
            entries_of_versions(vs.deep_view(), ver@) == entries_of_versions(
                vs.deep_view().skip(i as int),
                ver@,
            ),
        decreases vs.len() - i,
    {
        proof {
            assert(vs.deep_view().skip(i as int)[0] == vs.deep_view()[i as int]);
            assert(vs.deep_view().skip(i as int).skip(1) =~= vs.deep_view().skip(i as int + 1));
        }
        if string_eq_str(&vs[i].version, ver.as_str()) {
            return true;
        }
        i = i + 1;
    }
    proof {
        assert(vs.deep_view().skip(vs.len() as int) =~= Seq::<VersionRecordV>::empty());
    }
    false
}

/// Whether a version map is already stored under a package name.
fn has_package(ps: &Vec<PackageRecord>, name: &String) -> (r: bool)
    ensures
        r == (versions_of(ps.deep_view(), name@) is Some),
{
    proof {
        assert(ps.deep_view().skip(0) =~= ps.deep_view());
    }
    let mut i: usize = 0;
    while i < ps.len()
        invariant
            i <= ps.len(),
            versions_of(ps.deep_view(), name@) == versions_of(
                ps.deep_view().skip(i as int),
                name@,
            ),
        decreases ps.len() - i,
    {
        proof {
            assert(ps.deep_view().skip(i as int)[0] == ps.deep_view()[i as int]);
            assert(ps.deep_view().skip(i as int).skip(1) =~= ps.deep_view().skip(i as int + 1));
        }
        if string_eq_str(&ps[i].name, name.as_str()) {
            return true;
        }
        i = i + 1;
    }
    proof {
        assert(ps.deep_view().skip(ps.len() as int) =~= Seq::<PackageRecordV>::empty());
    }
    false
}

/// The version map of a package, from position `k` on.
fn versions_from(kvs: &Vec<(LuaValue, LuaValue)>, k: usize) -> (r: Option<Vec<VersionRecord>>)
    requires
        k <= kvs.len(),
    ensures
        match r {
            Some(vs) => dec_versions(kvs.deep_view().skip(k as int)) == Some(vs.deep_view()),
            None => dec_versions(kvs.deep_view().skip(k as int)) is None,
        },
    decreases kvs.len() - k,
{
    let ghost dv = kvs.deep_view();
    if k == kvs.len() {
        let r: Vec<VersionRecord> = Vec::new();
        proof {
            assert(dv.skip(k as int) =~= Seq::<(LuaValueV, LuaValueV)>::empty());
            assert(r.deep_view() =~= Seq::<VersionRecordV>::empty());
        }
        Some(r)
    } else {
        proof {
            assert(dv.skip(k as int)[0] == dv[k as int]);
            assert(dv.skip(k as int).skip(1) =~= dv.skip(k as int + 1));
        }
        match &kvs[k].0 {
            LuaValue::Str(ver) => match &kvs[k].1 {
                LuaValue::Table(et) => {
                    proof {
                        lemma_lua_table_view(*et);
                        assert(et.deep_view().skip(0) =~= et.deep_view());
                    }
                    match (entries_from(et, 0), versions_from(kvs, k + 1)) {
                        (Some(entries), Some(rest0)) => {
                            if has_version(&rest0, ver) {
                                None
                            } else {
                                let ghost rest_dv = rest0.deep_view();
                                let rec = VersionRecord { version: ver.clone(), entries };
                                let ghost rec_v = rec@;
                                let mut rest = rest0;
                                rest.insert(0, rec);
                                proof {
                                    assert(rest.deep_view() =~= seq![rec_v] + rest_dv);
                                }
                                Some(rest)
                            }
                        },
                        _ => None,
                    }
                },
                _ => None,
            },
            _ => versions_from(kvs, k + 1),
        }
    }
}

/// The package map, from position `k` on.
fn packages_from(kvs: &Vec<(LuaValue, LuaValue)>, k: usize) -> (r: Option<Vec<PackageRecord>>)
    requires
        k <= kvs.len(),
    ensures
        match r {
            Some(ps) => dec_packages(kvs.deep_view().skip(k as int)) == Some(ps.deep_view()),
            None => dec_packages(kvs.deep_view().skip(k as int)) is None,
        },
    decreases kvs.len() - k,
{
    let ghost dv = kvs.deep_view();
    if k == kvs.len() {
        let r: Vec<PackageRecord> = Vec::new();
        proof {
            assert(dv.skip(k as int) =~= Seq::<(LuaValueV, LuaValueV)>::empty());
            assert(r.deep_view() =~= Seq::<PackageRecordV>::empty());
        }
        Some(r)
    } else {
        proof {
            assert(dv.skip(k as int)[0] == dv[k as int]);
            assert(dv.skip(k as int).skip(1) =~= dv.skip(k as int + 1));
        }
        match &kvs[k].0 {
            LuaValue::Str(name) => match &kvs[k].1 {
                LuaValue::Table(vt) => {
                    proof {
                        lemma_lua_table_view(*vt);
                        assert(vt.deep_view().skip(0) =~= vt.deep_view());
                    }
                    match (versions_from(vt, 0), packages_from(kvs, k + 1)) {
                        (Some(versions), Some(rest0)) => {
                            if has_package(&rest0, name) {
                                None
                            } else {
                                let ghost rest_dv = rest0.deep_view();
                                let rec = PackageRecord { name: name.clone(), versions };
                                let ghost rec_v = rec@;
                                let mut rest = rest0;
                                rest.insert(0, rec);
                                proof {
                                    assert(rest.deep_view() =~= seq![rec_v] + rest_dv);
                                }
                                Some(rest)
                            }
                        },
                        _ => None,
                    }
                },
                _ => None,
            },
            _ => packages_from(kvs, k + 1),
        }
    }
}

impl Manifest {
    /// Coerce a script value into the manifest schema. The result is exactly
    /// `decode_spec` of the value: the one error is a coercion failure.
    pub fn from_value(v: &LuaValue) -> (r: Result<Manifest, KraitError>)
        ensures
            match r {
                Ok(m) => decode_spec(v.lua_view()) == Some(m@),
                Err(e) => decode_spec(v.lua_view()) is None && e@ is ManifestParseError,
            },
    {
        let fail: &str = "the manifest table cannot be coerced into the schema";
        match v {
            LuaValue::Table(t) => {
                proof {
                    lemma_lua_table_view(*t);
                    assert(t.deep_view().skip(0) =~= t.deep_view());
                }
                let pkgs = match get_field(t, 0, "packages") {
                    None => {
                        let r: Vec<PackageRecord> = Vec::new();
                        assert(r.deep_view() =~= Seq::<PackageRecordV>::empty());
                        Some(r)
                    },
                    Some(LuaValue::Table(pt)) => {
                        proof {
                            lemma_lua_table_view(*pt);
                            assert(pt.deep_view().skip(0) =~= pt.deep_view());
                        }
                        packages_from(pt, 0)
                    },
                    Some(_) => None,
                };
                match (field_string(t, "repo"), field_string(t, "latest_commit"), field_int(
                    t,
                    "last_update",
                ), pkgs) {
                    (Some(repo), Some(latest_commit), Some(last_update), Some(packages)) => {
                        let m = Manifest { repo, latest_commit, last_update, packages };
                        assert(decode_spec(v.lua_view()) == Some(m@));
                        Ok(m)
                    },
                    _ => Err(KraitError::ManifestParseError(String::from_str(fail))),
                }
            },
            _ => Err(KraitError::ManifestParseError(String::from_str(fail))),
        }
    }
}

} // verus!
