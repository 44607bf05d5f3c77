//! The manifest codec, serializing side: render a manifest as script-syntax
//! text, a sequence of assignment statements against the root table schema.
//!
//! The output starts with a two-line generated-file header, then assigns the
//! scalar fields, then every package, version, entry and content file:
//! package names and version strings in sorted key order, so the bytes are
//! reproducible however the key maps were built up, entry and content lists
//! in stored order as integer-indexed tables counted from one. Every string
//! value and every dynamic key is embedded as a quoted literal with quotes,
//! backslashes and control characters escaped, so the text re-reads to the
//! same value.

use crate::digest::hex_digit;
use crate::manifest::{
    ContentV, Manifest, ManifestPackage, ManifestPackageContent, ManifestV, PackageRecord,
    PackageRecordV, VersionRecord, VersionRecordV,
};
use vstd::prelude::*;

verus! {

/// Relies on std's `String::push`: appends the given character to the end.
pub assume_specification[ String::push ](s: &mut String, c: char)
    ensures
        final(s)@ == old(s)@.push(c),
;

/// Three decimal digits for a value below a thousand, high digit first.
pub open spec fn dec3(n: int) -> Seq<char> {
    seq![hex_digit(n / 100), hex_digit(n / 10 % 10), hex_digit(n % 10)]
}

/// The decimal rendering of a nonnegative integer, no sign, no leading zero.
pub open spec fn dec_str_nat(n: int) -> Seq<char>
    decreases n,
{
    if n < 10 {
        seq![hex_digit(n)]
    } else {
        dec_str_nat(n / 10) + seq![hex_digit(n % 10)]
    }
}

/// The decimal rendering of an integer, with a leading minus when negative.
pub open spec fn dec_str_int(n: int) -> Seq<char> {
    if n < 0 {
        seq!['-'] + dec_str_nat(-n)
    } else {
        dec_str_nat(n)
    }
}

/// How one character is embedded inside a quoted script literal.
pub open spec fn esc_char(c: char) -> Seq<char> {
    if c == '"' {
        seq!['\\', '"']
    } else if c == '\\' {
        seq!['\\', '\\']
    } else if c == '\n' {
        seq!['\\', 'n']
    } else if c == '\r' {
        seq!['\\', 'r']
    } else if c == '\t' {
        seq!['\\', 't']
    } else if (c as u32) < 32 || (c as u32) == 127 {
        seq!['\\'] + dec3(c as u32 as int)
    } else {
        seq![c]
    }
}

/// A whole string escaped for embedding.
pub open spec fn esc_seq(s: Seq<char>) -> Seq<char>
    decreases s.len(),
{
    if s.len() == 0 {
        Seq::<char>::empty()
    } else {
        esc_char(s[0]) + esc_seq(s.skip(1))
    }
}

/// A string as a quoted script literal.
pub open spec fn quoted(s: Seq<char>) -> Seq<char> {
    seq!['"'] + esc_seq(s) + seq!['"']
}

/// An index expression: the target followed by a quoted-key subscript.
pub open spec fn sub_key(target: Seq<char>, key: Seq<char>) -> Seq<char> {
    target + "["@ + quoted(key) + "]"@
}

/// An index expression: the target followed by an integer subscript.
pub open spec fn sub_idx(target: Seq<char>, i: int) -> Seq<char> {
    target + "["@ + dec_str_nat(i) + "]"@
}

/// A statement assigning a fresh empty table.
pub open spec fn stmt_table(target: Seq<char>) -> Seq<char> {
    target + " = {}\n"@
}

/// A statement assigning a quoted string literal.
pub open spec fn stmt_str(target: Seq<char>, value: Seq<char>) -> Seq<char> {
    target + " = "@ + quoted(value) + "\n"@
}

/// The statements for one content file, under index `j` of the entry's
/// content list.
pub open spec fn render_content(epre: Seq<char>, j: int, c: ContentV) -> Seq<char> {
    let ct = sub_idx(sub_key(epre, "contents"@), j);
    stmt_table(ct) + stmt_str(sub_key(ct, "name"@), c.name) + stmt_str(sub_key(ct, "path"@), c.path)
        + stmt_str(sub_key(ct, "sha1"@), c.sha1) + stmt_str(sub_key(ct, "url"@), c.url)
}

/// The statements for the content files from index `j` on.
pub open spec fn render_contents_from(epre: Seq<char>, cs: Seq<ContentV>, j: int) -> Seq<char>
    decreases cs.len(),
{
    if cs.len() == 0 {
        Seq::<char>::empty()
    } else {
        render_content(epre, j, cs[0]) + render_contents_from(epre, cs.skip(1), j + 1)
    }
}

/// The statements for one package entry, under index `i` of the version's
/// entry list.
pub open spec fn render_entry(vpre: Seq<char>, i: int, e: crate::manifest::PackageV) -> Seq<char> {
    let ep = sub_idx(vpre, i);
    stmt_table(ep) + stmt_str(sub_key(ep, "path"@), e.path) + stmt_str(
        sub_key(ep, "commit"@),
        e.commit,
    ) + stmt_table(sub_key(ep, "contents"@)) + render_contents_from(ep, e.contents, 1)
}

/// The statements for the package entries from index `i` on.
pub open spec fn render_entries_from(
    vpre: Seq<char>,
    es: Seq<crate::manifest::PackageV>,
    i: int,
) -> Seq<char>
    decreases es.len(),
{
    if es.len() == 0 {
        Seq::<char>::empty()
    } else {
        render_entry(vpre, i, es[0]) + render_entries_from(vpre, es.skip(1), i + 1)
    }
}

/// The statements for one version of a package.
pub open spec fn render_version(ppre: Seq<char>, v: VersionRecordV) -> Seq<char> {
    let vp = sub_key(ppre, v.version);
    stmt_table(vp) + render_entries_from(vp, v.entries, 1)
}

/// The statements for all versions of a package, in stored order.
pub open spec fn render_versions(ppre: Seq<char>, vs: Seq<VersionRecordV>) -> Seq<char>
    decreases vs.len(),
{
    if vs.len() == 0 {
        Seq::<char>::empty()
    } else {
        render_version(ppre, vs[0]) + render_versions(ppre, vs.skip(1))
    }
}

/// Lexicographic order on strings, by unicode scalar value.
pub open spec fn str_le(a: Seq<char>, b: Seq<char>) -> bool
    decreases a.len(),
{
    if a.len() == 0 {
        true
    } else if b.len() == 0 {
        false
    } else if a[0] == b[0] {
        str_le(a.skip(1), b.skip(1))
    } else {
        (a[0] as u32) < (b[0] as u32)
    }
}

/// Insert a version record in front of the first stored record it is not
/// above.
pub open spec fn insert_version_sorted(
    v: VersionRecordV,
    vs: Seq<VersionRecordV>,
) -> Seq<VersionRecordV>
    decreases vs.len(),
{
    if vs.len() == 0 {
        seq![v]
    } else if str_le(v.version, vs[0].version) {
        seq![v] + vs
    } else {
        seq![vs[0]] + insert_version_sorted(v, vs.skip(1))
    }
}

/// A version list sorted by version string.
pub open spec fn sort_versions(vs: Seq<VersionRecordV>) -> Seq<VersionRecordV>
    decreases vs.len(),
{
    if vs.len() == 0 {
        Seq::<VersionRecordV>::empty()
    } else {
        insert_version_sorted(vs[0], sort_versions(vs.skip(1)))
    }
}

/// Insert a package record in front of the first stored record it is not
/// above.
pub open spec fn insert_package_sorted(
    p: PackageRecordV,
    ps: Seq<PackageRecordV>,
) -> Seq<PackageRecordV>
    decreases ps.len(),
{
    if ps.len() == 0 {
        seq![p]
    } else if str_le(p.name, ps[0].name) {
        seq![p] + ps
    } else {
        seq![ps[0]] + insert_package_sorted(p, ps.skip(1))
    }
}

/// A package list sorted by package name.
pub open spec fn sort_packages(ps: Seq<PackageRecordV>) -> Seq<PackageRecordV>
    decreases ps.len(),
{
    if ps.len() == 0 {
        Seq::<PackageRecordV>::empty()
    } else {
        insert_package_sorted(ps[0], sort_packages(ps.skip(1)))
    }
}

/// The statements for one package, its versions in sorted key order.
pub open spec fn render_package(p: PackageRecordV) -> Seq<char> {
    let pp = sub_key("m.packages"@, p.name);
    stmt_table(pp) + render_versions(pp, sort_versions(p.versions))
}

/// The statements for all packages, in stored order.
pub open spec fn render_packages(ps: Seq<PackageRecordV>) -> Seq<char>
    decreases ps.len(),
{
    if ps.len() == 0 {
        Seq::<char>::empty()
    } else {
        render_package(ps[0]) + render_packages(ps.skip(1))
    }
}

/// The serialized text of a manifest: header, scalar fields, packages.
/// Package names and version strings are emitted in sorted key order, entry
/// and content lists in stored order, so the bytes are reproducible however
/// the key maps were built up.
pub open spec fn serialize_spec(m: ManifestV) -> Seq<char> {
    "-- Generated package manifest; written by the manifest generator. --\n"@
        + "-- Do not edit this file by hand: the next generation run rewrites it. --\n"@ + "\n"@
        + "local m = krait.manifest\n"@ + stmt_str("m.repo"@, m.repo) + stmt_str(
        "m.latest_commit"@,
        m.latest_commit,
    ) + "m.last_update = "@ + dec_str_int(m.last_update) + "\n"@ + stmt_table("m.packages"@)
        + render_packages(sort_packages(m.packages))
}

/// The character for a decimal or hex digit value.
fn digit_char(d: u8) -> (c: char)
    requires
        d < 16,
    ensures
        c == hex_digit(d as int),
{
    match d {
        0 => '0',
        1 => '1',
        2 => '2',
        3 => '3',
        4 => '4',
        5 => '5',
        6 => '6',
        7 => '7',
        8 => '8',
        9 => '9',
        10 => 'a',
        11 => 'b',
        12 => 'c',
        13 => 'd',
        14 => 'e',
        _ => 'f',
    }
}

/// Append the decimal rendering of a nonnegative integer.
fn push_dec_u64(out: &mut String, n: u64)
    ensures
        final(out)@ == old(out)@ + dec_str_nat(n as int),
    decreases n,
{
    if n < 10 {
        out.push(digit_char(n as u8));
        assert(final(out)@ =~= old(out)@ + dec_str_nat(n as int));
    } else {
        push_dec_u64(out, n / 10);
        out.push(digit_char((n % 10) as u8));
        assert(final(out)@ =~= old(out)@ + dec_str_nat(n as int));
    }
}

/// Append the decimal rendering of a signed integer.
fn push_dec_i64(out: &mut String, n: i64)
    ensures
        final(out)@ == old(out)@ + dec_str_int(n as int),
{
    if n < 0 {
        out.push('-');
        let mag: u64 = ((-(n + 1)) as u64) + 1;
        assert(mag as int == -(n as int));
        push_dec_u64(out, mag);
        assert(final(out)@ =~= old(out)@ + dec_str_int(n as int));
    } else {
        push_dec_u64(out, n as u64);
    }
}

/// Append one character in its embedded, escaped form.
fn push_esc_char(out: &mut String, c: char)
    ensures
        final(out)@ == old(out)@ + esc_char(c),
{
    if c == '"' {
        out.push('\\');
        out.push('"');
        assert(final(out)@ =~= old(out)@ + esc_char(c));
    } else if c == '\\' {
        out.push('\\');
        out.push('\\');
        assert(final(out)@ =~= old(out)@ + esc_char(c));
    } else if c == '\n' {
        out.push('\\');
        out.push('n');
        assert(final(out)@ =~= old(out)@ + esc_char(c));
    } else if c == '\r' {
        out.push('\\');
        out.push('r');
        assert(final(out)@ =~= old(out)@ + esc_char(c));
    } else if c == '\t' {
        out.push('\\');
        out.push('t');
        assert(final(out)@ =~= old(out)@ + esc_char(c));
    } else {
        let u = c as u32;
        if u < 32 || u == 127 {
            out.push('\\');
            out.push(digit_char((u / 100) as u8));
            out.push(digit_char((u / 10 % 10) as u8));
            out.push(digit_char((u % 10) as u8));
            assert(final(out)@ =~= old(out)@ + esc_char(c));
        } else {
            out.push(c);
            assert(final(out)@ =~= old(out)@ + esc_char(c));
        }
    }
}

/// Append a string as a quoted, escaped script literal.
fn push_quoted(out: &mut String, s: &str)
    ensures
        final(out)@ == old(out)@ + quoted(s@),
{
    out.push('"');
    let n = s.unicode_len();
    let mut i: usize = 0;
    while i < n
        invariant
            n == s@.len(),
            i <= n,
            out@ == old(out)@ + seq!['"'] + esc_seq(s@.take(i as int)),
        decreases n - i,
    {
        let c = s.get_char(i);
        push_esc_char(out, c);
        proof {
            lemma_esc_seq_snoc(s@, i as int);
        }
        i = i + 1;
    }
    out.push('"');
    assert(s@.take(n as int) =~= s@);
    assert(final(out)@ =~= old(out)@ + quoted(s@));
}

/// Escaping one more character appends that character's escape.
proof fn lemma_esc_seq_snoc(s: Seq<char>, i: int)
    requires
        0 <= i < s.len(),
    ensures
        esc_seq(s.take(i + 1)) == esc_seq(s.take(i)) + esc_char(s[i]),
    decreases i,
{
    if i == 0 {
        assert(s.take(1)[0] == s[0]);
        assert(s.take(1).skip(1) =~= Seq::<char>::empty());
        assert(esc_seq(Seq::<char>::empty()) =~= Seq::<char>::empty());
        assert(esc_seq(s.take(1)) == esc_char(s.take(1)[0]) + esc_seq(s.take(1).skip(1)));
        assert(esc_seq(s.take(1)) =~= esc_char(s[0]));
        assert(esc_seq(s.take(0)) =~= Seq::<char>::empty());
        assert(esc_seq(s.take(0)) + esc_char(s[0]) =~= esc_char(s[0]));
    } else {
        lemma_esc_seq_snoc(s.skip(1), i - 1);
        assert(s.take(i + 1).skip(1) =~= s.skip(1).take(i));
        assert(s.take(i).skip(1) =~= s.skip(1).take(i - 1));
        assert(s.take(i + 1)[0] == s[0]);
        assert(s.take(i)[0] == s[0]);
        assert(s.skip(1)[i - 1] == s[i]);
        assert(esc_seq(s.take(i + 1)) == esc_char(s[0]) + esc_seq(s.skip(1).take(i)));
        assert(esc_seq(s.take(i)) == esc_char(s[0]) + esc_seq(s.skip(1).take(i - 1)));
        assert(esc_char(s[0]) + (esc_seq(s.skip(1).take(i - 1)) + esc_char(s[i])) =~= (esc_char(
            s[0],
        ) + esc_seq(s.skip(1).take(i - 1))) + esc_char(s[i]));
    }
}

/// Append `target = "value"` as one statement line.
fn push_stmt_str(out: &mut String, target: &String, value: &str)
    ensures
        final(out)@ == old(out)@ + stmt_str(target@, value@),
{
    out.append(target.as_str());
    out.append(" = ");
    push_quoted(out, value);
    out.append("\n");
    assert(final(out)@ =~= old(out)@ + stmt_str(target@, value@));
}

/// Append `target = {}` as one statement line.
fn push_stmt_table(out: &mut String, target: &String)
    ensures
        final(out)@ == old(out)@ + stmt_table(target@),
{
    out.append(target.as_str());
    out.append(" = {}\n");
    assert(final(out)@ =~= old(out)@ + stmt_table(target@));
}

/// The expression `target["key"]`, with the key escaped.
fn make_sub_key(target: &String, key: &str) -> (r: String)
    ensures
        r@ == sub_key(target@, key@),
{
    let mut r = target.clone();
    r.append("[");
    push_quoted(&mut r, key);
    r.append("]");
    assert(r@ =~= sub_key(target@, key@));
    r
}

/// The expression `target[i]`.
fn make_sub_idx(target: &String, i: usize) -> (r: String)
    ensures
        r@ == sub_idx(target@, i as int),
{
    let mut r = target.clone();
    r.append("[");
    push_dec_u64(&mut r, i as u64);
    r.append("]");
    assert(r@ =~= sub_idx(target@, i as int));
    r
}

/// Whether one string orders at or before another.
fn str_le_exec(a: &str, b: &str) -> (r: bool)
    ensures
        r == str_le(a@, b@),
{
    let an = a.unicode_len();
    let bn = b.unicode_len();
    proof {
        assert(a@.skip(0) =~= a@);
        assert(b@.skip(0) =~= b@);
    }
    let mut i: usize = 0;
    loop
        invariant
            an == a@.len(),
            bn == b@.len(),
            i <= an,
            i <= bn,
            str_le(a@, b@) == str_le(a@.skip(i as int), b@.skip(i as int)),
        decreases an - i,
    {
        proof {
            if i < an {
                assert(a@.skip(i as int)[0] == a@[i as int]);
                assert(a@.skip(i as int).skip(1) =~= a@.skip(i as int + 1));
            }
            if i < bn {
                assert(b@.skip(i as int)[0] == b@[i as int]);
                assert(b@.skip(i as int).skip(1) =~= b@.skip(i as int + 1));
            }
        }
        if i == an {
            return true;
        }
        if i == bn {
            return false;
        }
        let ca = a.get_char(i);
        let cb = b.get_char(i);
        if ca != cb {
            return (ca as u32) < (cb as u32);
        }
        i = i + 1;
    }
}

/// Insert a version record reference at its sorted place.
fn insert_version_ref<'a>(v: &'a VersionRecord, vs: Vec<&'a VersionRecord>) -> (r: Vec<
    &'a VersionRecord,
>)
    ensures
        r.deep_view() == insert_version_sorted(v@, vs.deep_view()),
    decreases vs.len(),
{
    let mut rest = vs;
    if rest.len() == 0 {
        rest.push(v);
        assert(rest.deep_view() =~~= insert_version_sorted(v@, vs.deep_view()));
        rest
    } else if str_le_exec(v.version.as_str(), rest[0].version.as_str()) {
        rest.insert(0, v);
        assert(rest.deep_view() =~~= insert_version_sorted(v@, vs.deep_view()));
        rest
    } else {
        let first = rest.remove(0);
        assert(rest.deep_view() =~= vs.deep_view().skip(1));
        let mut r = insert_version_ref(v, rest);
        r.insert(0, first);
        assert(r.deep_view() =~~= insert_version_sorted(v@, vs.deep_view()));
        r
    }
}

/// The version records of a package, from position `k` on, in sorted order.
fn sort_version_refs<'a>(vs: &'a Vec<VersionRecord>, k: usize) -> (r: Vec<&'a VersionRecord>)
    requires
        k <= vs.len(),
    ensures
        r.deep_view() == sort_versions(vs.deep_view().skip(k as int)),
    decreases vs.len() - k,
{
    let ghost dv = vs.deep_view();
    if k == vs.len() {
        let r: Vec<&'a VersionRecord> = Vec::new();
        proof {
            assert(dv.skip(k as int) =~= Seq::<VersionRecordV>::empty());
            assert(r.deep_view() =~= Seq::<VersionRecordV>::empty());
        }
        r
    } else {
        proof {
            assert(dv.skip(k as int)[0] == dv[k as int]);
            assert(dv.skip(k as int).skip(1) =~= dv.skip(k as int + 1));
        }
        let rest = sort_version_refs(vs, k + 1);
        insert_version_ref(&vs[k], rest)
    }
}

/// Insert a package record reference at its sorted place.
fn insert_package_ref<'a>(p: &'a PackageRecord, ps: Vec<&'a PackageRecord>) -> (r: Vec<
    &'a PackageRecord,
>)
    ensures
        r.deep_view() == insert_package_sorted(p@, ps.deep_view()),
    decreases ps.len(),
{
    let mut rest = ps;
    if rest.len() == 0 {
        rest.push(p);
        assert(rest.deep_view() =~~= insert_package_sorted(p@, ps.deep_view()));
        rest
    } else if str_le_exec(p.name.as_str(), rest[0].name.as_str()) {
        rest.insert(0, p);
        assert(rest.deep_view() =~~= insert_package_sorted(p@, ps.deep_view()));
        rest
    } else {
        let first = rest.remove(0);
        assert(rest.deep_view() =~= ps.deep_view().skip(1));
        let mut r = insert_package_ref(p, rest);
        r.insert(0, first);
        assert(r.deep_view() =~~= insert_package_sorted(p@, ps.deep_view()));
        r
    }
}

/// The package records of a manifest, from position `k` on, in sorted order.
fn sort_package_refs<'a>(ps: &'a Vec<PackageRecord>, k: usize) -> (r: Vec<&'a PackageRecord>)
    requires
        k <= ps.len(),
    ensures
        r.deep_view() == sort_packages(ps.deep_view().skip(k as int)),
    decreases ps.len() - k,
{
    let ghost dv = ps.deep_view();
    if k == ps.len() {
        let r: Vec<&'a PackageRecord> = Vec::new();
        proof {
            assert(dv.skip(k as int) =~= Seq::<PackageRecordV>::empty());
            assert(r.deep_view() =~= Seq::<PackageRecordV>::empty());
        }
        r
    } else {
        proof {
            assert(dv.skip(k as int)[0] == dv[k as int]);
            assert(dv.skip(k as int).skip(1) =~= dv.skip(k as int + 1));
        }
        let rest = sort_package_refs(ps, k + 1);
        insert_package_ref(&ps[k], rest)
    }
}

/// Append the statements for the content files from index `k` on.
#[verifier::rlimit(100)]
fn push_contents_from(out: &mut String, epre: &String, cs: &Vec<ManifestPackageContent>, k: usize)
    requires
        k <= cs.len(),
    ensures
        final(out)@ == old(out)@ + render_contents_from(epre@, cs.deep_view().skip(k as int), k + 1),
    decreases cs.len() - k,
{
    if k == cs.len() {
        assert(cs.deep_view().skip(k as int) =~= Seq::<ContentV>::empty());
        assert(final(out)@ =~= old(out)@ + render_contents_from(
            epre@,
            cs.deep_view().skip(k as int),
            k + 1,
        ));
    } else {
        let c = &cs[k];
        let ct = make_sub_idx(&make_sub_key(epre, "contents"), k + 1);
        push_stmt_table(out, &ct);
        push_stmt_str(out, &make_sub_key(&ct, "name"), c.name.as_str());
        push_stmt_str(out, &make_sub_key(&ct, "path"), c.path.as_str());
        push_stmt_str(out, &make_sub_key(&ct, "sha1"), c.sha1.as_str());
        push_stmt_str(out, &make_sub_key(&ct, "url"), c.url.as_str());
        push_contents_from(out, epre, cs, k + 1);
        proof {
            let dv = cs.deep_view();
            assert(dv.skip(k as int)[0] == dv[k as int]);
            assert(dv.skip(k as int).skip(1) =~= dv.skip(k as int + 1));
            let o = old(out)@;
            let ctv = ct@;
            let sa = stmt_table(ctv);
            let sb = stmt_str(sub_key(ctv, "name"@), dv[k as int].name);
            let sc = stmt_str(sub_key(ctv, "path"@), dv[k as int].path);
            let sd = stmt_str(sub_key(ctv, "sha1"@), dv[k as int].sha1);
            let se = stmt_str(sub_key(ctv, "url"@), dv[k as int].url);
            let sf = render_contents_from(epre@, dv.skip(k as int + 1), k + 2);
            let g = render_content(epre@, k + 1, dv[k as int]);
            assert(g == (((sa + sb) + sc) + sd) + se);
            assert(render_contents_from(epre@, dv.skip(k as int), k + 1) == g + sf);
            assert(final(out)@ == (((((o + sa) + sb) + sc) + sd) + se) + sf);
            vstd::seq_lib::lemma_concat_associative(o, sa, sb);
            vstd::seq_lib::lemma_concat_associative(o, sa + sb, sc);
            vstd::seq_lib::lemma_concat_associative(o, (sa + sb) + sc, sd);
            vstd::seq_lib::lemma_concat_associative(o, ((sa + sb) + sc) + sd, se);
            vstd::seq_lib::lemma_concat_associative(o, g, sf);
            assert(final(out)@ == o + (g + sf));
        }
    }
}

/// Append the statements for the package entries from index `k` on.
#[verifier::rlimit(100)]
fn push_entries_from(out: &mut String, vpre: &String, es: &Vec<ManifestPackage>, k: usize)
    requires
        k <= es.len(),
    ensures
        final(out)@ == old(out)@ + render_entries_from(vpre@, es.deep_view().skip(k as int), k + 1),
    decreases es.len() - k,
{
    if k == es.len() {
        assert(es.deep_view().skip(k as int) =~= Seq::<crate::manifest::PackageV>::empty());
        assert(final(out)@ =~= old(out)@ + render_entries_from(
            vpre@,
            es.deep_view().skip(k as int),
            k + 1,
        ));
    } else {
        let e = &es[k];
        let ep = make_sub_idx(vpre, k + 1);
        push_stmt_table(out, &ep);
        push_stmt_str(out, &make_sub_key(&ep, "path"), e.path.as_str());
        push_stmt_str(out, &make_sub_key(&ep, "commit"), e.commit.as_str());
        push_stmt_table(out, &make_sub_key(&ep, "contents"));
        push_contents_from(out, &ep, &e.contents, 0);
        push_entries_from(out, vpre, es, k + 1);
        proof {
            let dv = es.deep_view();
            assert(dv.skip(k as int)[0] == dv[k as int]);
            assert(dv.skip(k as int).skip(1) =~= dv.skip(k as int + 1));
            assert(e.contents.deep_view().skip(0) =~= e.contents.deep_view());
            let o = old(out)@;
            let epv = ep@;
            let sa = stmt_table(epv);
            let sb = stmt_str(sub_key(epv, "path"@), dv[k as int].path);
            let sc = stmt_str(sub_key(epv, "commit"@), dv[k as int].commit);
            let sd = stmt_table(sub_key(epv, "contents"@));
            let se = render_contents_from(epv, dv[k as int].contents, 1);
            let sf = render_entries_from(vpre@, dv.skip(k as int + 1), k + 2);
            let g = render_entry(vpre@, k + 1, dv[k as int]);
            assert(g == (((sa + sb) + sc) + sd) + se);
            assert(render_entries_from(vpre@, dv.skip(k as int), k + 1) == g + sf);
            assert(final(out)@ == (((((o + sa) + sb) + sc) + sd) + se) + sf);
            vstd::seq_lib::lemma_concat_associative(o, sa, sb);
            vstd::seq_lib::lemma_concat_associative(o, sa + sb, sc);
            vstd::seq_lib::lemma_concat_associative(o, (sa + sb) + sc, sd);
            vstd::seq_lib::lemma_concat_associative(o, ((sa + sb) + sc) + sd, se);
            vstd::seq_lib::lemma_concat_associative(o, g, sf);
            assert(final(out)@ == o + (g + sf));
        }
    }
}

/// Append the statements for the versions from index `k` on.
#[verifier::rlimit(100)]
fn push_versions_from(out: &mut String, ppre: &String, vs: &Vec<&VersionRecord>, k: usize)
    requires
        k <= vs.len(),
    ensures
        final(out)@ == old(out)@ + render_versions(ppre@, vs.deep_view().skip(k as int)),
    decreases vs.len() - k,
{
    if k == vs.len() {
        assert(vs.deep_view().skip(k as int) =~= Seq::<VersionRecordV>::empty());
        assert(final(out)@ =~= old(out)@ + render_versions(ppre@, vs.deep_view().skip(k as int)));
    } else {
        let v = vs[k];
        let vp = make_sub_key(ppre, v.version.as_str());
        push_stmt_table(out, &vp);
        push_entries_from(out, &vp, &v.entries, 0);
        push_versions_from(out, ppre, vs, k + 1);
        proof {
            let dv = vs.deep_view();
            assert(dv.skip(k as int)[0] == dv[k as int]);
            assert(dv.skip(k as int).skip(1) =~= dv.skip(k as int + 1));
            assert(v.entries.deep_view().skip(0) =~= v.entries.deep_view());
            let o = old(out)@;
            let vpv = vp@;
            let sa = stmt_table(vpv);
            let sb = render_entries_from(vpv, dv[k as int].entries, 1);
            let sf = render_versions(ppre@, dv.skip(k as int + 1));
            let g = render_version(ppre@, dv[k as int]);
            assert(g == sa + sb);
            assert(render_versions(ppre@, dv.skip(k as int)) == g + sf);
            assert(final(out)@ == ((o + sa) + sb) + sf);
            vstd::seq_lib::lemma_concat_associative(o, sa, sb);
            vstd::seq_lib::lemma_concat_associative(o, g, sf);
            assert(final(out)@ == o + (g + sf));
        }
    }
}

/// Append the statements for the packages from index `k` on, each package's
/// versions in sorted order.
#[verifier::rlimit(100)]
fn push_packages_from(out: &mut String, ps: &Vec<&PackageRecord>, k: usize)
    requires
        k <= ps.len(),
    ensures
        final(out)@ == old(out)@ + render_packages(ps.deep_view().skip(k as int)),
    decreases ps.len() - k,
{
    if k == ps.len() {
        assert(ps.deep_view().skip(k as int) =~= Seq::<PackageRecordV>::empty());
        assert(final(out)@ =~= old(out)@ + render_packages(ps.deep_view().skip(k as int)));
    } else {
        let p = ps[k];
        let root = String::from_str("m.packages");
        let pp = make_sub_key(&root, p.name.as_str());
        push_stmt_table(out, &pp);
        let sorted = sort_version_refs(&p.versions, 0);
        proof {
            assert(p.versions.deep_view().skip(0) =~= p.versions.deep_view());
        }
        push_versions_from(out, &pp, &sorted, 0);
        push_packages_from(out, ps, k + 1);
        proof {
            let dv = ps.deep_view();
            assert(dv.skip(k as int)[0] == dv[k as int]);
            assert(dv.skip(k as int).skip(1) =~= dv.skip(k as int + 1));
            assert(sorted.deep_view().skip(0) =~= sorted.deep_view());
            let o = old(out)@;
            let ppv = pp@;
            let sa = stmt_table(ppv);
            let sb = render_versions(ppv, sort_versions(dv[k as int].versions));
            let sf = render_packages(dv.skip(k as int + 1));
            let g = render_package(dv[k as int]);
            assert(g == sa + sb);
            assert(render_packages(dv.skip(k as int)) == g + sf);
            assert(final(out)@ == ((o + sa) + sb) + sf);
            vstd::seq_lib::lemma_concat_associative(o, sa, sb);
            vstd::seq_lib::lemma_concat_associative(o, g, sf);
            assert(final(out)@ == o + (g + sf));
        }
    }
}

impl Manifest {
    /// Serialize the manifest as script-syntax text. The result is exactly
    /// `serialize_spec` of the manifest's value: escaped, preceded by the
    /// generated-file header, and with package and version keys emitted in
    /// sorted order, so equal key maps give byte-identical text however
    /// their records are stored.
    pub fn serialize(&self) -> (r: String)
        ensures
            r@ == serialize_spec(self@),
    {
        let mut out = String::new();
        out.append("-- Generated package manifest; written by the manifest generator. --\n");
        out.append("-- Do not edit this file by hand: the next generation run rewrites it. --\n");
        out.append("\n");
        out.append("local m = krait.manifest\n");
        let repo_t = String::from_str("m.repo");
        push_stmt_str(&mut out, &repo_t, self.repo.as_str());
        let lc_t = String::from_str("m.latest_commit");
        push_stmt_str(&mut out, &lc_t, self.latest_commit.as_str());
        out.append("m.last_update = ");
        push_dec_i64(&mut out, self.last_update);
        out.append("\n");
        let pk_t = String::from_str("m.packages");
        push_stmt_table(&mut out, &pk_t);
        proof {
            assert(self.packages.deep_view().skip(0) =~= self.packages.deep_view());
        }
        let sorted = sort_package_refs(&self.packages, 0);
        push_packages_from(&mut out, &sorted, 0);
        proof {
            assert(sorted.deep_view().skip(0) =~= sorted.deep_view());
            assert(out@ =~= serialize_spec(self@));
        }
        out
    }
}

} // verus!
