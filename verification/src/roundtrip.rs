//! The round-trip law: the codec's value-level leg.
//!
//! Serialization renders a manifest as statements that, run by the
//! interpreter, populate the root table with the shape `encode_spec`
//! describes — one pair per field, package, version, entry and content file
//! — taken at the manifest with its package and version keys in the sorted
//! order the text emits. This module proves that decoding that shape gives
//! back the manifest, field for field, for every well-formed manifest. The
//! remaining leg — that the interpreter turns the rendered text into the
//! encoded shape — is the interpreter's own table semantics, exercised by
//! the test suite over the real interpreter.

use crate::luaval::LuaValueV;
use crate::manifest::{
    entries_of_versions, lemma_eov_none, lemma_vof_none, versions_of, ContentV, ManifestV,
    PackageRecordV, PackageV, VersionRecordV,
};
use crate::schema::{
    dec_content, dec_content_pairs, dec_contents, dec_entries, dec_entry, dec_entry_pairs,
    dec_packages, dec_versions, decode_spec, insert_keyed_content, insert_keyed_entry,
    strip_content_keys, strip_entry_keys, tbl_get_v,
};
use vstd::prelude::*;

verus! {

/// The table shape of one content file.
pub open spec fn enc_content(c: ContentV) -> LuaValueV {
    LuaValueV::Table(
        seq![
            (LuaValueV::Str("name"@), LuaValueV::Str(c.name)),
            (LuaValueV::Str("path"@), LuaValueV::Str(c.path)),
            (LuaValueV::Str("sha1"@), LuaValueV::Str(c.sha1)),
            (LuaValueV::Str("url"@), LuaValueV::Str(c.url)),
        ],
    )
}

/// The table shape of a content list, indexed from a base.
pub open spec fn enc_contents_from(cs: Seq<ContentV>, b: int) -> Seq<(LuaValueV, LuaValueV)> {
    Seq::new(cs.len(), |i: int| (LuaValueV::Int(b + i), enc_content(cs[i])))
}

/// The table shape of a content list: indexed from one.
pub open spec fn enc_contents(cs: Seq<ContentV>) -> Seq<(LuaValueV, LuaValueV)> {
    enc_contents_from(cs, 1)
}

/// The table shape of one package entry.
pub open spec fn enc_entry(e: PackageV) -> LuaValueV {
    LuaValueV::Table(
        seq![
            (LuaValueV::Str("path"@), LuaValueV::Str(e.path)),
            (LuaValueV::Str("commit"@), LuaValueV::Str(e.commit)),
            (LuaValueV::Str("contents"@), LuaValueV::Table(enc_contents(e.contents))),
        ],
    )
}

/// The table shape of an entry list, indexed from a base.
pub open spec fn enc_entries_from(es: Seq<PackageV>, b: int) -> Seq<(LuaValueV, LuaValueV)> {
    Seq::new(es.len(), |i: int| (LuaValueV::Int(b + i), enc_entry(es[i])))
}

/// The table shape of an entry list: indexed from one.
pub open spec fn enc_entries(es: Seq<PackageV>) -> Seq<(LuaValueV, LuaValueV)> {
    enc_entries_from(es, 1)
}

/// The table shape of a version map, in stored order.
pub open spec fn enc_versions(vs: Seq<VersionRecordV>) -> Seq<(LuaValueV, LuaValueV)> {
    Seq::new(
        vs.len(),
        |i: int| (LuaValueV::Str(vs[i].version), LuaValueV::Table(enc_entries(vs[i].entries))),
    )
}

/// The table shape of a package map, in stored order.
pub open spec fn enc_packages(ps: Seq<PackageRecordV>) -> Seq<(LuaValueV, LuaValueV)> {
    Seq::new(
        ps.len(),
        |i: int| (LuaValueV::Str(ps[i].name), LuaValueV::Table(enc_versions(ps[i].versions))),
    )
}

/// The root table shape of a whole manifest.
pub open spec fn encode_spec(m: ManifestV) -> LuaValueV {
    LuaValueV::Table(
        seq![
            (LuaValueV::Str("repo"@), LuaValueV::Str(m.repo)),
            (LuaValueV::Str("latest_commit"@), LuaValueV::Str(m.latest_commit)),
            (LuaValueV::Str("last_update"@), LuaValueV::Int(m.last_update)),
            (LuaValueV::Str("packages"@), LuaValueV::Table(enc_packages(m.packages))),
        ],
    )
}

/// The schema's field names are pairwise distinct strings.
proof fn lemma_keys_distinct()
    ensures
        "name"@ != "path"@,
        "name"@ != "sha1"@,
        "name"@ != "url"@,
        "path"@ != "sha1"@,
        "path"@ != "url"@,
        "sha1"@ != "url"@,
        "path"@ != "commit"@,
        "path"@ != "contents"@,
        "commit"@ != "contents"@,
        "repo"@ != "latest_commit"@,
        "repo"@ != "last_update"@,
        "repo"@ != "packages"@,
        "latest_commit"@ != "last_update"@,
        "latest_commit"@ != "packages"@,
        "last_update"@ != "packages"@,
{
    broadcast use vstd::string::group_string_axioms;

    reveal_strlit("name");
    reveal_strlit("path");
    reveal_strlit("sha1");
    reveal_strlit("url");
    reveal_strlit("commit");
    reveal_strlit("contents");
    reveal_strlit("repo");
    reveal_strlit("latest_commit");
    reveal_strlit("last_update");
    reveal_strlit("packages");
    assert("name"@.len() == 4);
    assert("path"@.len() == 4);
    assert("sha1"@.len() == 4);
    assert("url"@.len() == 3);
    assert("commit"@.len() == 6);
    assert("contents"@.len() == 8);
    assert("repo"@.len() == 4);
    assert("latest_commit"@.len() == 13);
    assert("last_update"@.len() == 11);
    assert("packages"@.len() == 8);
    assert("name"@[0] == 'n' && "path"@[0] == 'p' && "sha1"@[0] == 's' && "repo"@[0] == 'r');
}

/// Decoding an encoded content file gives the file back.
proof fn lemma_content_round_trip(c: ContentV)
    ensures
        dec_content(enc_content(c)->Table_0) == Some(c),
{
    lemma_keys_distinct();
    let t = enc_content(c)->Table_0;
    let t1 = t.skip(1);
    let t2 = t1.skip(1);
    let t3 = t2.skip(1);
    let t4 = t3.skip(1);
    assert(t4 =~= Seq::<(LuaValueV, LuaValueV)>::empty());
    assert(t1[0] == t[1] && t2[0] == t[2] && t3[0] == t[3]);
    assert(tbl_get_v(t, "name"@) == Some(LuaValueV::Str(c.name)));
    assert(tbl_get_v(t1, "path"@) == Some(LuaValueV::Str(c.path)));
    assert(tbl_get_v(t, "path"@) == Some(LuaValueV::Str(c.path)));
    assert(tbl_get_v(t2, "sha1"@) == Some(LuaValueV::Str(c.sha1)));
    assert(tbl_get_v(t1, "sha1"@) == Some(LuaValueV::Str(c.sha1)));
    assert(tbl_get_v(t, "sha1"@) == Some(LuaValueV::Str(c.sha1)));
    assert(tbl_get_v(t3, "url"@) == Some(LuaValueV::Str(c.url)));
    assert(tbl_get_v(t2, "url"@) == Some(LuaValueV::Str(c.url)));
    assert(tbl_get_v(t1, "url"@) == Some(LuaValueV::Str(c.url)));
    assert(tbl_get_v(t, "url"@) == Some(LuaValueV::Str(c.url)));
    assert(dec_content(t) == Some(ContentV { name: c.name, path: c.path, sha1: c.sha1, url: c.url }));
    assert(ContentV { name: c.name, path: c.path, sha1: c.sha1, url: c.url } =~= c);
}

/// The keyed pairs a content list encodes to, with ascending keys.
spec fn content_pairs_of(cs: Seq<ContentV>, b: int) -> Seq<(int, ContentV)> {
    Seq::new(cs.len(), |i: int| (b + i, cs[i]))
}

/// Decoding an encoded content list yields its pairs, already in key order.
proof fn lemma_content_pairs_round_trip(cs: Seq<ContentV>, b: int)
    ensures
        dec_content_pairs(enc_contents_from(cs, b)) == Some(content_pairs_of(cs, b)),
    decreases cs.len(),
{
    let t = enc_contents_from(cs, b);
    if cs.len() == 0 {
        assert(dec_content_pairs(t) == Some(Seq::<(int, ContentV)>::empty()));
        assert(Seq::<(int, ContentV)>::empty() =~= content_pairs_of(cs, b));
    } else {
        lemma_content_pairs_round_trip(cs.skip(1), b + 1);
        lemma_content_round_trip(cs[0]);
        assert(t.skip(1) =~= enc_contents_from(cs.skip(1), b + 1));
        assert(t[0].0 == LuaValueV::Int(b));
        assert(t[0].1 == enc_content(cs[0]));
        let rest = content_pairs_of(cs.skip(1), b + 1);
        if rest.len() > 0 {
            assert(rest[0].0 == b + 1);
        }
        assert(insert_keyed_content(b, cs[0], rest) =~= seq![(b, cs[0])] + rest);
        assert(seq![(b, cs[0])] + rest =~= content_pairs_of(cs, b));
    }
}

/// Dropping the keys of a content list's pairs gives the list back.
proof fn lemma_strip_content_pairs_of(cs: Seq<ContentV>, b: int)
    ensures
        strip_content_keys(content_pairs_of(cs, b)) == cs,
    decreases cs.len(),
{
    let p = content_pairs_of(cs, b);
    if cs.len() == 0 {
        assert(strip_content_keys(p) =~= cs);
    } else {
        lemma_strip_content_pairs_of(cs.skip(1), b + 1);
        assert(p.skip(1) =~= content_pairs_of(cs.skip(1), b + 1));
        assert(p[0].1 == cs[0]);
        assert(seq![cs[0]] + cs.skip(1) =~= cs);
    }
}

/// Decoding an encoded content list gives the list back, whatever the base.
proof fn lemma_contents_round_trip(cs: Seq<ContentV>, b: int)
    ensures
        dec_contents(enc_contents_from(cs, b)) == Some(cs),
{
    lemma_content_pairs_round_trip(cs, b);
    lemma_strip_content_pairs_of(cs, b);
}

/// Decoding an encoded entry gives the entry back.
proof fn lemma_entry_round_trip(e: PackageV)
    ensures
        dec_entry(enc_entry(e)->Table_0) == Some(e),
{
    lemma_keys_distinct();
    let t = enc_entry(e)->Table_0;
    let t1 = t.skip(1);
    let t2 = t1.skip(1);
    let t3 = t2.skip(1);
    assert(t3 =~= Seq::<(LuaValueV, LuaValueV)>::empty());
    assert(t1[0] == t[1] && t2[0] == t[2]);
    assert(tbl_get_v(t, "path"@) == Some(LuaValueV::Str(e.path)));
    assert(tbl_get_v(t1, "commit"@) == Some(LuaValueV::Str(e.commit)));
    assert(tbl_get_v(t, "commit"@) == Some(LuaValueV::Str(e.commit)));
    assert(tbl_get_v(t2, "contents"@) == Some(LuaValueV::Table(enc_contents(e.contents))));
    assert(tbl_get_v(t1, "contents"@) == Some(LuaValueV::Table(enc_contents(e.contents))));
    assert(tbl_get_v(t, "contents"@) == Some(LuaValueV::Table(enc_contents(e.contents))));
    lemma_contents_round_trip(e.contents, 1);
    assert(dec_entry(t) == Some(
        PackageV { commit: e.commit, path: e.path, contents: e.contents },
    ));
    assert(PackageV { commit: e.commit, path: e.path, contents: e.contents } =~= e);
}

/// The keyed pairs an entry list encodes to, with ascending keys.
spec fn entry_pairs_of(es: Seq<PackageV>, b: int) -> Seq<(int, PackageV)> {
    Seq::new(es.len(), |i: int| (b + i, es[i]))
}

/// Decoding an encoded entry list yields its pairs, already in key order.
proof fn lemma_entry_pairs_round_trip(es: Seq<PackageV>, b: int)
    ensures
        dec_entry_pairs(enc_entries_from(es, b)) == Some(entry_pairs_of(es, b)),
    decreases es.len(),
{
    let t = enc_entries_from(es, b);
    if es.len() == 0 {
        assert(dec_entry_pairs(t) == Some(Seq::<(int, PackageV)>::empty()));
        assert(Seq::<(int, PackageV)>::empty() =~= entry_pairs_of(es, b));
    } else {
        lemma_entry_pairs_round_trip(es.skip(1), b + 1);
        lemma_entry_round_trip(es[0]);
        assert(t.skip(1) =~= enc_entries_from(es.skip(1), b + 1));
        assert(t[0].0 == LuaValueV::Int(b));
        assert(t[0].1 == enc_entry(es[0]));
        let rest = entry_pairs_of(es.skip(1), b + 1);
        if rest.len() > 0 {
            assert(rest[0].0 == b + 1);
        }
        assert(insert_keyed_entry(b, es[0], rest) =~= seq![(b, es[0])] + rest);
        assert(seq![(b, es[0])] + rest =~= entry_pairs_of(es, b));
    }
}

/// Dropping the keys of an entry list's pairs gives the list back.
proof fn lemma_strip_entry_pairs_of(es: Seq<PackageV>, b: int)
    ensures
        strip_entry_keys(entry_pairs_of(es, b)) == es,
    decreases es.len(),
{
    let p = entry_pairs_of(es, b);
    if es.len() == 0 {
        assert(strip_entry_keys(p) =~= es);
    } else {
        lemma_strip_entry_pairs_of(es.skip(1), b + 1);
        assert(p.skip(1) =~= entry_pairs_of(es.skip(1), b + 1));
        assert(p[0].1 == es[0]);
        assert(seq![es[0]] + es.skip(1) =~= es);
    }
}

/// Decoding an encoded entry list gives the list back, whatever the base.
proof fn lemma_entries_round_trip(es: Seq<PackageV>, b: int)
    ensures
        dec_entries(enc_entries_from(es, b)) == Some(es),
{
    lemma_entry_pairs_round_trip(es, b);
    lemma_strip_entry_pairs_of(es, b);
}

/// Decoding an encoded version map of a well-formed package gives it back.
proof fn lemma_versions_round_trip(vs: Seq<VersionRecordV>)
    requires
        crate::manifest::versions_wf(vs),
    ensures
        dec_versions(enc_versions(vs)) == Some(vs),
    decreases vs.len(),
{
    let t = enc_versions(vs);
    if vs.len() == 0 {
        assert(dec_versions(t) == Some(Seq::<VersionRecordV>::empty()));
        assert(Seq::<VersionRecordV>::empty() =~= vs);
    } else {
        assert(crate::manifest::versions_wf(vs.skip(1)));
        lemma_versions_round_trip(vs.skip(1));
        lemma_entries_round_trip(vs[0].entries, 1);
        assert(t.skip(1) =~= enc_versions(vs.skip(1)));
        assert(t[0].0 == LuaValueV::Str(vs[0].version));
        assert(t[0].1 == LuaValueV::Table(enc_entries(vs[0].entries)));
        lemma_eov_none(vs.skip(1), vs[0].version);
        assert forall|j: int| 0 <= j < vs.skip(1).len() implies vs.skip(1)[j].version != vs[0].version by {
            assert(vs.skip(1)[j] == vs[j + 1]);
        }
        assert(entries_of_versions(vs.skip(1), vs[0].version) is None);
        assert(dec_versions(t) == Some(
            seq![VersionRecordV { version: vs[0].version, entries: vs[0].entries }] + vs.skip(1),
        ));
        assert(VersionRecordV { version: vs[0].version, entries: vs[0].entries } =~= vs[0]);
        assert(seq![vs[0]] + vs.skip(1) =~= vs);
        assert(seq![VersionRecordV { version: vs[0].version, entries: vs[0].entries }] + vs.skip(1)
            =~= vs);
    }
}

/// Decoding an encoded package map of a well-formed manifest gives it back.
proof fn lemma_packages_round_trip(ps: Seq<PackageRecordV>)
    requires
        crate::manifest::packages_wf(ps),
    ensures
        dec_packages(enc_packages(ps)) == Some(ps),
    decreases ps.len(),
{
    let t = enc_packages(ps);
    if ps.len() == 0 {
        assert(dec_packages(t) == Some(Seq::<PackageRecordV>::empty()));
        assert(Seq::<PackageRecordV>::empty() =~= ps);
    } else {
        assert(crate::manifest::packages_wf(ps.skip(1))) by {
            assert(forall|i: int|
                0 <= i < ps.skip(1).len() ==> ps.skip(1)[i] == ps[i + 1]);
        }
        lemma_packages_round_trip(ps.skip(1));
        assert(crate::manifest::versions_wf(ps[0].versions));
        lemma_versions_round_trip(ps[0].versions);
        assert(t.skip(1) =~= enc_packages(ps.skip(1)));
        assert(t[0].0 == LuaValueV::Str(ps[0].name));
        assert(t[0].1 == LuaValueV::Table(enc_versions(ps[0].versions)));
        lemma_vof_none(ps.skip(1), ps[0].name);
        assert forall|j: int| 0 <= j < ps.skip(1).len() implies ps.skip(1)[j].name != ps[0].name by {
            assert(ps.skip(1)[j] == ps[j + 1]);
        }
        assert(versions_of(ps.skip(1), ps[0].name) is None);
        assert(dec_packages(t) == Some(
            seq![PackageRecordV { name: ps[0].name, versions: ps[0].versions }] + ps.skip(1),
        ));
        assert(PackageRecordV { name: ps[0].name, versions: ps[0].versions } =~= ps[0]);
        assert(seq![PackageRecordV { name: ps[0].name, versions: ps[0].versions }] + ps.skip(1)
            =~= ps);
    }
}

/// Round trip: for every well-formed manifest value, decoding the table
/// shape its serialized text populates gives back exactly the manifest,
/// field for field, order-sensitive for entry and content lists.
pub proof fn lemma_round_trip(m: ManifestV)
    requires
        m.wf(),
    ensures
        decode_spec(encode_spec(m)) == Some(m),
{
    lemma_keys_distinct();
    let t = encode_spec(m)->Table_0;
    let t1 = t.skip(1);
    let t2 = t1.skip(1);
    let t3 = t2.skip(1);
    let t4 = t3.skip(1);
    assert(t4 =~= Seq::<(LuaValueV, LuaValueV)>::empty());
    assert(t1[0] == t[1] && t2[0] == t[2] && t3[0] == t[3]);
    assert(tbl_get_v(t, "repo"@) == Some(LuaValueV::Str(m.repo)));
    assert(tbl_get_v(t1, "latest_commit"@) == Some(LuaValueV::Str(m.latest_commit)));
    assert(tbl_get_v(t, "latest_commit"@) == Some(LuaValueV::Str(m.latest_commit)));
    assert(tbl_get_v(t2, "last_update"@) == Some(LuaValueV::Int(m.last_update)));
    assert(tbl_get_v(t1, "last_update"@) == Some(LuaValueV::Int(m.last_update)));
    assert(tbl_get_v(t, "last_update"@) == Some(LuaValueV::Int(m.last_update)));
    assert(tbl_get_v(t3, "packages"@) == Some(LuaValueV::Table(enc_packages(m.packages))));
    assert(tbl_get_v(t2, "packages"@) == Some(LuaValueV::Table(enc_packages(m.packages))));
    assert(tbl_get_v(t1, "packages"@) == Some(LuaValueV::Table(enc_packages(m.packages))));
    assert(tbl_get_v(t, "packages"@) == Some(LuaValueV::Table(enc_packages(m.packages))));
    lemma_packages_round_trip(m.packages);
    assert(decode_spec(encode_spec(m)) == Some(
        ManifestV {
            repo: m.repo,
            latest_commit: m.latest_commit,
            last_update: m.last_update,
            packages: m.packages,
        },
    ));
    assert(ManifestV {
        repo: m.repo,
        latest_commit: m.latest_commit,
        last_update: m.last_update,
        packages: m.packages,
    } =~= m);
}

} // verus!
