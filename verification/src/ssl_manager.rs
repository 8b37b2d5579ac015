//! Self-signed certificates for Apache: which files are certificates, what
//! OpenSSL is asked, and how its report is read.

use vstd::prelude::*;
use crate::paths::{extension_of, extension_range, external_path, join_all, join_path, join_path_exec, path_for_external_command, ssl_crt_dir, ssl_key_dir};
use crate::sorting::{key_views, sort_by_keys, stable_sorted};
use crate::text::{
    byte_len, byte_len_exceeds, chars_eq, chars_of, decimal, decimal_string, in_set, is_ascii_alnum,
    is_ascii_alphanumeric, line_spans, line_spans_exec, lines, push_range, split, split_spans,
    split_spans_exec, starts_with, starts_with_exec, string_of, string_of_range, strip_prefix, trim,
    trim_by, trim_range, trim_set_bounds,
};

verus! {

/// What OpenSSL reports of a certificate.
pub struct CertificateInfo {
    pub name: String,
    pub cert_path: String,
    pub key_path: Option<String>,
    pub subject: String,
    pub issuer: String,
    pub valid_from: String,
    pub valid_to: String,
    pub san: Vec<String>,
}

/// A certificate or key file.
pub struct CertFile {
    pub name: String,
    pub path: String,
    pub is_key: bool,
}

/// The fields of a `CertFile`.
pub open spec fn cert_file_view(c: CertFile) -> (Seq<char>, Seq<char>, bool) {
    (c.name@, c.path@, c.is_key)
}

/// A key file ends in `.key` or `.pem`; a certificate in `.crt`, `.cer` or
/// `.pem`.
pub open spec fn cert_name_allowed(name: Seq<char>, is_key: bool) -> bool {
    let e = match extension_of(name) {
        Some(e) => e,
        None => Seq::empty(),
    };
    if is_key {
        e == "key"@ || e == "pem"@
    } else {
        e == "crt"@ || e == "cer"@ || e == "pem"@
    }
}

/// Whether a file named `name` is listed (see `cert_name_allowed`).
pub fn cert_file_allowed(name: &str, is_key: bool) -> (r: bool)
    ensures
        r == cert_name_allowed(name@, is_key),
{
    let v = chars_of(name);
    let e: &[char] = match extension_range(&v) {
        Some((a, b)) => &v[a..b],
        None => &[],
    };
    proof {
        if extension_of(name@) is None {
            assert(e@ =~= Seq::<char>::empty());
        }
    }
    let key = chars_of("key");
    let pem = chars_of("pem");
    let crt = chars_of("crt");
    let cer = chars_of("cer");
    if is_key {
        chars_eq(e, &key) || chars_eq(e, &pem)
    } else {
        chars_eq(e, &crt) || chars_eq(e, &cer) || chars_eq(e, &pem)
    }
}

/// The listed files among the entries `(file name, path)` of one directory,
/// in order.
pub open spec fn listed_files(entries: Seq<(Seq<char>, Seq<char>)>, is_key: bool) -> Seq<
    (Seq<char>, Seq<char>, bool),
>
    decreases entries.len(),
{
    if entries.len() == 0 {
        Seq::empty()
    } else {
        let prev = listed_files(entries.drop_last(), is_key);
        let e = entries.last();
        if cert_name_allowed(e.0, is_key) {
            prev.push((e.0, e.1, is_key))
        } else {
            prev
        }
    }
}

pub open spec fn entry_views(entries: Seq<(String, String)>) -> Seq<(Seq<char>, Seq<char>)> {
    entries.map_values(|e: (String, String)| (e.0@, e.1@))
}

/// The certificate or key files among the entries `(file name, path)` of a
/// directory (see `listed_files`).
pub fn collect_cert_files(entries: &Vec<(String, String)>, is_key: bool) -> (r: Vec<CertFile>)
    ensures
        r@.map_values(|c: CertFile| cert_file_view(c)) == listed_files(entry_views(entries@), is_key),
{
    let mut r: Vec<CertFile> = Vec::new();
    let mut i: usize = 0;
    while i < entries.len()
        invariant
            i <= entries@.len(),
            r@.map_values(|c: CertFile| cert_file_view(c)) == listed_files(
                entry_views(entries@).take(i as int),
                is_key,
            ),
        decreases entries@.len() - i,
    {
        let (name, path) = (&entries[i].0, &entries[i].1);
        proof {
            let ev = entry_views(entries@);
            assert(ev.take(i + 1).drop_last() =~= ev.take(i as int));
            assert(ev.take(i + 1).last() == (name@, path@));
        }
        if cert_file_allowed(name.as_str(), is_key) {
            let ghost before = r@;
            r.push(CertFile { name: name.clone(), path: path.clone(), is_key });
            assert(r@.map_values(|c: CertFile| cert_file_view(c)) =~= before.map_values(
                |c: CertFile| cert_file_view(c),
            ).push((name@, path@, is_key)));
        }
        i = i + 1;
    }
    assert(entry_views(entries@).take(entries@.len() as int) =~= entry_views(entries@));
    r
}

/// The certificate files and then the key files, sorted by path.
pub open spec fn listed_certificates(
    crt_entries: Seq<(Seq<char>, Seq<char>)>,
    key_entries: Seq<(Seq<char>, Seq<char>)>,
) -> Seq<(Seq<char>, Seq<char>, bool)> {
    let all = listed_files(crt_entries, false) + listed_files(key_entries, true);
    stable_sorted(all, all.map_values(|c: (Seq<char>, Seq<char>, bool)| c.1), false).0
}

/// The certificates and keys of the installation, from the entries
/// `(file name, path)` of the certificate and key directories (a missing
/// directory has none), sorted by path.
pub fn list_certificates(crt_entries: &Vec<(String, String)>, key_entries: &Vec<(String, String)>) -> (r: Vec<CertFile>)
    ensures
        r@.map_values(|c: CertFile| cert_file_view(c)) == listed_certificates(
            entry_views(crt_entries@),
            entry_views(key_entries@),
        ),
{
    let mut all = collect_cert_files(crt_entries, false);
    let mut keys_files = collect_cert_files(key_entries, true);
    all.append(&mut keys_files);
    let ghost av = all@.map_values(|c: CertFile| cert_file_view(c));
    let mut keys: Vec<Vec<char>> = Vec::new();
    let mut i: usize = 0;
    while i < all.len()
        invariant
            i <= all@.len(),
            keys@.len() == i,
            forall|j: int| 0 <= j < i ==> (#[trigger] keys@[j])@ == all@[j].path@,
        decreases all@.len() - i,
    {
        keys.push(chars_of(all[i].path.as_str()));
        i = i + 1;
    }
    let ghost kv = key_views(keys@);
    let ghost items = all@;
    let r = sort_by_keys(all, keys, false);
    proof {
        let lv = listed_files(entry_views(crt_entries@), false) + listed_files(
            entry_views(key_entries@),
            true,
        );
        assert(av =~= lv);
        assert(kv =~= lv.map_values(|c: (Seq<char>, Seq<char>, bool)| c.1));
        crate::sorting::lemma_sorted_map(items, kv, false, |c: CertFile| cert_file_view(c));
    }
    r
}

// ---------------------------------------------------------------------------
// Reading OpenSSL's report
// ---------------------------------------------------------------------------

/// Index of the first line of `ls` from `k` on whose trimmed text starts with
/// `p`, or `ls.len()`.
pub open spec fn first_prefixed(ls: Seq<Seq<char>>, p: Seq<char>, k: int) -> int
    decreases ls.len() - k,
{
    if k < 0 || k >= ls.len() {
        ls.len() as int
    } else if starts_with(trim(ls[k]), p) {
        k
    } else {
        first_prefixed(ls, p, k + 1)
    }
}

/// The value after `prefix` on the first line that starts with it, trimmed.
pub open spec fn prefixed_value_of(content: Seq<char>, prefix: Seq<char>) -> Option<Seq<char>> {
    let ls = lines(content);
    let k = first_prefixed(ls, prefix, 0);
    if k < ls.len() {
        let t = trim(ls[k]);
        Some(trim(t.subrange(prefix.len() as int, t.len() as int)))
    } else {
        None
    }
}

/// The value of a `prefix` line of OpenSSL's report (see `prefixed_value_of`).
pub fn prefixed_value(content: &str, prefix: &str) -> (r: Option<String>)
    ensures
        r matches Some(x) ==> prefixed_value_of(content@, prefix@) == Some(x@),
        r is None ==> prefixed_value_of(content@, prefix@) is None,
{
    let v = chars_of(content);
    let p = chars_of(prefix);
    let spans = line_spans_exec(&v);
    let ghost ls = lines(v@);
    let mut k: usize = 0;
    while k < spans.len()
        invariant
            k <= spans@.len(),
            spans@.len() == line_spans(v@).len(),
            ls == lines(v@),
            ls.len() == spans@.len(),
            forall|j: int|
                0 <= j < spans@.len() ==> (#[trigger] spans@[j]).0 == line_spans(v@)[j].0
                    && spans@[j].1 == line_spans(v@)[j].1,
            forall|j: int| 0 <= j < spans@.len() ==> (#[trigger] spans@[j]).0 <= spans@[j].1 <= v@.len(),
            first_prefixed(ls, p@, 0) == first_prefixed(ls, p@, k as int),
            v@ == content@,
            p@ == prefix@,
        decreases spans@.len() - k,
    {
        let (s0, s1) = spans[k];
        let (a, b) = trim_range(&v, s0, s1);
        assert(ls[k as int] == v@.subrange(s0 as int, s1 as int));
        let t = &v[a..b];
        assert(t@ == v@.subrange(a as int, b as int));
        if starts_with_exec(t, &p) {
            let (x, y) = trim_range(&v, a + p.len(), b);
            let out = string_of_range(&v, x, y);
            proof {
                let tt = trim(ls[k as int]);
                assert(tt == v@.subrange(a as int, b as int));
                assert(first_prefixed(ls, p@, k as int) == k);
                assert(tt.subrange(p@.len() as int, tt.len() as int) =~= v@.subrange(
                    a + p@.len(),
                    b as int,
                ));
                assert(out@ == trim(tt.subrange(p@.len() as int, tt.len() as int)));
                assert(prefixed_value_of(v@, p@) == Some(out@));
            }
            return Some(out);
        }
        k = k + 1;
    }
    assert(first_prefixed(ls, p@, k as int) == ls.len());
    assert(prefixed_value_of(v@, p@) is None);
    None
}

/// The name in one `,`-separated piece of a subjectAltName line: what follows
/// `DNS:` or `IP Address:`, trimmed.
pub open spec fn san_value(piece: Seq<char>) -> Option<Seq<char>> {
    let v = trim(piece);
    match strip_prefix(v, "DNS:"@) {
        Some(rest) => Some(trim(rest)),
        None => match strip_prefix(v, "IP Address:"@) {
            Some(rest) => Some(trim(rest)),
            None => None,
        },
    }
}

/// The names in a sequence of pieces, in order.
pub open spec fn sans_of_pieces(ps: Seq<Seq<char>>) -> Seq<Seq<char>>
    decreases ps.len(),
{
    if ps.len() == 0 {
        Seq::empty()
    } else {
        let prev = sans_of_pieces(ps.drop_last());
        match san_value(ps.last()) {
            Some(x) => prev.push(x),
            None => prev,
        }
    }
}

/// The names on the lines of OpenSSL's report, line after line.
pub open spec fn sans_of_lines(ls: Seq<Seq<char>>) -> Seq<Seq<char>>
    decreases ls.len(),
{
    if ls.len() == 0 {
        Seq::empty()
    } else {
        sans_of_lines(ls.drop_last()) + sans_of_pieces(split(ls.last(), ','))
    }
}

/// The subject alternative names in OpenSSL's report.
pub open spec fn sans_of(content: Seq<char>) -> Seq<Seq<char>> {
    sans_of_lines(lines(content))
}

/// The name in the piece `v[from..to]` (see `san_value`).
fn san_in(v: &[char], from: usize, to: usize) -> (r: Option<String>)
    requires
        from <= to <= v@.len(),
    ensures
        r matches Some(x) ==> san_value(v@.subrange(from as int, to as int)) == Some(x@),
        r is None ==> san_value(v@.subrange(from as int, to as int)) is None,
{
    let (a, b) = trim_range(v, from, to);
    let t = &v[a..b];
    assert(t@ == v@.subrange(a as int, b as int));
    let dns = chars_of("DNS:");
    let ip = chars_of("IP Address:");
    if starts_with_exec(t, &dns) {
        let (x, y) = trim_range(v, a + dns.len(), b);
        assert(t@.subrange(dns@.len() as int, t@.len() as int) =~= v@.subrange(
            a + dns@.len(),
            b as int,
        ));
        Some(string_of_range(v, x, y))
    } else if starts_with_exec(t, &ip) {
        let (x, y) = trim_range(v, a + ip.len(), b);
        assert(t@.subrange(ip@.len() as int, t@.len() as int) =~= v@.subrange(
            a + ip@.len(),
            b as int,
        ));
        Some(string_of_range(v, x, y))
    } else {
        None
    }
}

pub open spec fn string_views(v: Seq<String>) -> Seq<Seq<char>> {
    v.map_values(|s: String| s@)
}

/// The subject alternative names (DNS names and IP addresses) that OpenSSL's
/// report lists, in order (see `sans_of`).
pub fn parse_sans(content: &str) -> (r: Vec<String>)
    ensures
        string_views(r@) == sans_of(content@),
{
    let v = chars_of(content);
    let spans = line_spans_exec(&v);
    let ghost ls = lines(v@);
    let mut r: Vec<String> = Vec::new();
    let mut k: usize = 0;
    while k < spans.len()
        invariant
            k <= spans@.len(),
            spans@.len() == line_spans(v@).len(),
            ls == lines(v@),
            ls.len() == spans@.len(),
            forall|j: int|
                0 <= j < spans@.len() ==> (#[trigger] spans@[j]).0 == line_spans(v@)[j].0
                    && spans@[j].1 == line_spans(v@)[j].1,
            forall|j: int| 0 <= j < spans@.len() ==> (#[trigger] spans@[j]).0 <= spans@[j].1 <= v@.len(),
            string_views(r@) == sans_of_lines(ls.take(k as int)),
        decreases spans@.len() - k,
    {
        let (s0, s1) = spans[k];
        let ghost l = ls[k as int];
        assert(l == v@.subrange(s0 as int, s1 as int));
        let pieces = split_spans_exec(&v, s0, s1, ',');
        let ghost ps = split(l, ',');
        let ghost base = string_views(r@);
        let mut j: usize = 0;
        while j < pieces.len()
            invariant
                j <= pieces@.len(),
                s0 <= s1 <= v@.len(),
                l == v@.subrange(s0 as int, s1 as int),
                ps == split(l, ','),
                pieces@.len() == split_spans(l, ',').len(),
                ps.len() == pieces@.len(),
                forall|q: int|
                    0 <= q < pieces@.len() ==> (#[trigger] pieces@[q]).0 - s0 == split_spans(
                        l,
                        ',',
                    )[q].0 && pieces@[q].1 - s0 == split_spans(l, ',')[q].1,
                forall|q: int| 0 <= q < pieces@.len() ==> s0 <= (#[trigger] pieces@[q]).0 <= pieces@[q].1 <= s1,
                string_views(r@) == base + sans_of_pieces(ps.take(j as int)),
            decreases pieces@.len() - j,
        {
            let (p0, p1) = pieces[j];
            proof {
                let sp = split_spans(l, ',')[j as int];
                assert(ps[j as int] == l.subrange(sp.0, sp.1));
                assert(ps[j as int] =~= v@.subrange(p0 as int, p1 as int));
                assert(ps.take(j + 1).drop_last() =~= ps.take(j as int));
                assert(ps.take(j + 1).last() == ps[j as int]);
            }
            let ghost before = r@;
            match san_in(&v, p0, p1) {
                Some(x) => {
                    r.push(x);
                    assert(string_views(r@) =~= string_views(before).push(r@.last()@));
                },
                None => {},
            }
            j = j + 1;
        }
        proof {
            assert(ps.take(pieces@.len() as int) =~= ps);
            assert(ls.take(k + 1).drop_last() =~= ls.take(k as int));
            assert(ls.take(k + 1).last() == l);
        }
        k = k + 1;
    }
    assert(ls.take(spans@.len() as int) =~= ls);
    r
}

/// What OpenSSL's report tells of the certificate `name` at `cert_path`, with
/// its key when one was found; missing fields are empty.
pub fn certificate_info(name: String, cert_path: String, key_path: Option<String>, details: &str) -> (r: CertificateInfo)
    ensures
        r.name == name,
        r.cert_path == cert_path,
        r.key_path == key_path,
        r.subject@ == or_empty(prefixed_value_of(details@, "subject="@)),
        r.issuer@ == or_empty(prefixed_value_of(details@, "issuer="@)),
        r.valid_from@ == or_empty(prefixed_value_of(details@, "notBefore="@)),
        r.valid_to@ == or_empty(prefixed_value_of(details@, "notAfter="@)),
        string_views(r.san@) == sans_of(details@),
{
    CertificateInfo {
        name,
        cert_path,
        key_path,
        subject: value_or_empty(prefixed_value(details, "subject=")),
        issuer: value_or_empty(prefixed_value(details, "issuer=")),
        valid_from: value_or_empty(prefixed_value(details, "notBefore=")),
        valid_to: value_or_empty(prefixed_value(details, "notAfter=")),
        san: parse_sans(details),
    }
}

pub open spec fn or_empty(o: Option<Seq<char>>) -> Seq<char> {
    match o {
        Some(x) => x,
        None => Seq::empty(),
    }
}

fn value_or_empty(o: Option<String>) -> (r: String)
    ensures
        r@ == (match o {
            Some(x) => x@,
            None => Seq::empty(),
        }),
{
    match o {
        Some(x) => x,
        None => String::new(),
    }
}

// ---------------------------------------------------------------------------
// Creating a certificate
// ---------------------------------------------------------------------------

/// A character kept in a certificate's file name; others become `_`.
pub open spec fn filename_char(c: char) -> char {
    if is_ascii_alnum(c) || c == '.' || c == '-' || c == '_' {
        c
    } else {
        '_'
    }
}

/// The file name (without extension) for a certificate of `cn`: unsafe
/// characters replaced by `_`, `_` trimmed from both ends, at most 96
/// characters, and `certificate` where that is not greater than `certificate`
/// in `str`'s order.
pub open spec fn safe_filename_of(cn: Seq<char>) -> Seq<char> {
    let mapped = cn.map_values(|c: char| filename_char(c));
    let trimmed = trim_by(mapped, in_set(seq!['_']));
    let cut = if trimmed.len() > 96 {
        trimmed.take(96)
    } else {
        trimmed
    };
    if crate::sorting::seq_lt("certificate"@, cut) {
        cut
    } else {
        "certificate"@
    }
}

/// A character allowed in a certificate's file name.
pub open spec fn filename_safe(c: char) -> bool {
    is_ascii_alnum(c) || c == '.' || c == '-' || c == '_'
}

/// Law: a certificate's file name is never empty, has at most 96 characters,
/// and only letters, digits, `.`, `-` and `_`, so it cannot leave the
/// certificate directory.
pub proof fn law_safe_filename_is_safe(cn: Seq<char>)
    ensures
        1 <= safe_filename_of(cn).len() <= 96,
        forall|i: int|
            0 <= i < safe_filename_of(cn).len() ==> filename_safe(#[trigger] safe_filename_of(cn)[i]),
{
    let mapped = cn.map_values(|c: char| filename_char(c));
    let p = in_set(seq!['_']);
    let start = crate::text::trim_start_by(mapped, p);
    crate::text::lemma_lead_count(mapped, p);
    crate::text::lemma_trail_count(start, p);
    let trimmed = trim_by(mapped, p);
    assert forall|i: int| 0 <= i < trimmed.len() implies filename_safe(#[trigger] trimmed[i]) by {
        assert(trimmed[i] == start[i]);
        assert(start[i] == mapped[i + crate::text::lead_count(mapped, p)]);
    }
    let cut = if trimmed.len() > 96 {
        trimmed.take(96)
    } else {
        trimmed
    };
    assert forall|i: int| 0 <= i < cut.len() implies filename_safe(#[trigger] cut[i]) by {
        assert(cut[i] == trimmed[i]);
    }
    reveal_strlit("certificate");
    let f = safe_filename_of(cn);
    if crate::sorting::seq_lt("certificate"@, cut) {
        assert(f == cut);
    } else {
        assert(f == "certificate"@);
    }
}

/// The last `c` before position `i` is at `k` when `s[k]` is `c` and none of
/// `s[k + 1..i]` is.
pub(crate) proof fn lemma_rfind_before_at(s: Seq<char>, c: char, i: int, k: int)
    requires
        0 <= k < i <= s.len(),
        s[k] == c,
        forall|j: int| k < j < i ==> s[j] != c,
    ensures
        crate::text::rfind_before(s, c, i) == k,
    decreases i - k,
{
    if i - 1 > k {
        lemma_rfind_before_at(s, c, i - 1, k);
    }
}

/// A file name made of a non-empty stem, `.` and an extension without a dot
/// has that extension.
pub(crate) proof fn lemma_named_extension(stem: Seq<char>, ext: Seq<char>)
    requires
        stem.len() > 0,
        ext.len() > 0,
        forall|j: int| 0 <= j < ext.len() ==> ext[j] != '.',
    ensures
        extension_of(stem + "."@ + ext) == Some(ext),
{
    reveal_strlit(".");
    reveal_strlit("..");
    let s = stem + "."@ + ext;
    let k = stem.len() as int;
    assert(s[k] == '.');
    assert forall|j: int| k < j < s.len() implies s[j] != '.' by {
        assert(s[j] == ext[j - k - 1]);
    }
    lemma_rfind_before_at(s, '.', s.len() as int, k);
    assert(s.len() != 2);
    assert(s.subrange(k + 1, s.len() as int) =~= ext);
}

/// A listed entry of a directory is among its listed files.
proof fn lemma_listed_files_has(entries: Seq<(Seq<char>, Seq<char>)>, is_key: bool, i: int)
    requires
        0 <= i < entries.len(),
        cert_name_allowed(entries[i].0, is_key),
    ensures
        listed_files(entries, is_key).contains((entries[i].0, entries[i].1, is_key)),
    decreases entries.len(),
{
    let prev = listed_files(entries.drop_last(), is_key);
    if i == entries.len() - 1 {
        let l = listed_files(entries, is_key);
        assert(l == prev.push((entries[i].0, entries[i].1, is_key)));
        assert(l[l.len() - 1] == (entries[i].0, entries[i].1, is_key));
    } else {
        assert(entries.drop_last()[i] == entries[i]);
        lemma_listed_files_has(entries.drop_last(), is_key, i);
        let w = choose|w: int| 0 <= w < prev.len() && prev[w] == (entries[i].0, entries[i].1, is_key);
        let l = listed_files(entries, is_key);
        assert(l[w] == prev[w]);
    }
}

/// Law: a file of the certificate directory is listed exactly when its
/// extension is `crt`, `cer` or `pem`, and a file of the key directory
/// exactly when it is `key` or `pem`; in particular `<stem>.pem` is listed
/// in both, `<stem>.crt` and `<stem>.cer` only as certificates and
/// `<stem>.key` only as a key.
pub proof fn law_listed_extensions(name: Seq<char>, stem: Seq<char>)
    ensures
        cert_name_allowed(name, false) <==> (extension_of(name) == Some("crt"@) || extension_of(name)
            == Some("cer"@) || extension_of(name) == Some("pem"@)),
        cert_name_allowed(name, true) <==> (extension_of(name) == Some("key"@) || extension_of(name)
            == Some("pem"@)),
        stem.len() > 0 ==> cert_name_allowed(stem + ".pem"@, false) && cert_name_allowed(
            stem + ".pem"@,
            true,
        ),
        stem.len() > 0 ==> cert_name_allowed(stem + ".crt"@, false) && !cert_name_allowed(
            stem + ".crt"@,
            true,
        ),
        stem.len() > 0 ==> cert_name_allowed(stem + ".cer"@, false) && !cert_name_allowed(
            stem + ".cer"@,
            true,
        ),
        stem.len() > 0 ==> !cert_name_allowed(stem + ".key"@, false) && cert_name_allowed(
            stem + ".key"@,
            true,
        ),
{
    reveal_strlit("crt");
    reveal_strlit("cer");
    reveal_strlit("pem");
    reveal_strlit("key");
    reveal_strlit(".");
    reveal_strlit(".pem");
    reveal_strlit(".crt");
    reveal_strlit(".cer");
    reveal_strlit(".key");
    assert("crt"@.len() == 3 && "cer"@.len() == 3 && "pem"@.len() == 3 && "key"@.len() == 3);
    if stem.len() > 0 {
        assert(".pem"@ =~= "."@ + "pem"@);
        assert(".crt"@ =~= "."@ + "crt"@);
        assert(".cer"@ =~= "."@ + "cer"@);
        assert(".key"@ =~= "."@ + "key"@);
        assert(stem + ".pem"@ =~= stem + "."@ + "pem"@);
        assert(stem + ".crt"@ =~= stem + "."@ + "crt"@);
        assert(stem + ".cer"@ =~= stem + "."@ + "cer"@);
        assert(stem + ".key"@ =~= stem + "."@ + "key"@);
        lemma_named_extension(stem, "pem"@);
        lemma_named_extension(stem, "crt"@);
        lemma_named_extension(stem, "cer"@);
        lemma_named_extension(stem, "key"@);
        assert("crt"@[0] != "key"@[0] && "crt"@[0] != "pem"@[0]);
        assert("cer"@[0] != "key"@[0] && "cer"@[0] != "pem"@[0]);
        assert("key"@[0] != "crt"@[0] && "key"@[0] != "cer"@[0] && "key"@[0] != "pem"@[0]);
    }
}

/// Law: the files made for a self-signed certificate of `cn` are listed once
/// their directories hold them: an entry of the certificate directory named
/// `<safe name>.crt`, or of the key directory named `<safe name>.key`, is in
/// the listing.
pub proof fn law_generated_certificate_listed(
    cn: Seq<char>,
    crt_entries: Seq<(Seq<char>, Seq<char>)>,
    key_entries: Seq<(Seq<char>, Seq<char>)>,
)
    ensures
        forall|i: int|
            0 <= i < crt_entries.len() && #[trigger] crt_entries[i].0 == safe_filename_of(cn) + ".crt"@
                ==> listed_certificates(crt_entries, key_entries).contains(
                (crt_entries[i].0, crt_entries[i].1, false),
            ),
        forall|j: int|
            0 <= j < key_entries.len() && #[trigger] key_entries[j].0 == safe_filename_of(cn) + ".key"@
                ==> listed_certificates(crt_entries, key_entries).contains(
                (key_entries[j].0, key_entries[j].1, true),
            ),
{
    reveal_strlit(".crt");
    reveal_strlit(".key");
    reveal_strlit("crt");
    reveal_strlit("key");
    reveal_strlit(".");
    law_safe_filename_is_safe(cn);
    let stem = safe_filename_of(cn);
    assert(".crt"@ =~= "."@ + "crt"@);
    assert(".key"@ =~= "."@ + "key"@);
    lemma_named_extension(stem, "crt"@);
    lemma_named_extension(stem, "key"@);
    assert(stem + ".crt"@ =~= stem + "."@ + "crt"@);
    assert(stem + ".key"@ =~= stem + "."@ + "key"@);
    let cf = listed_files(crt_entries, false);
    let kf = listed_files(key_entries, true);
    let all = cf + kf;
    let keys = all.map_values(|c: (Seq<char>, Seq<char>, bool)| c.1);
    crate::sorting::law_stable_sort_ordered(all, keys, false);
    let sorted = stable_sorted(all, keys, false).0;
    assert forall|i: int|
        0 <= i < crt_entries.len() && #[trigger] crt_entries[i].0 == stem + ".crt"@ implies sorted.contains(
        (crt_entries[i].0, crt_entries[i].1, false),
    ) by {
        let x = (crt_entries[i].0, crt_entries[i].1, false);
        lemma_listed_files_has(crt_entries, false, i);
        let w = choose|w: int| 0 <= w < cf.len() && cf[w] == x;
        assert(all[w] == x);
        vstd::seq_lib::to_multiset_contains(all, x);
        vstd::seq_lib::to_multiset_contains(sorted, x);
    }
    assert forall|j: int|
        0 <= j < key_entries.len() && #[trigger] key_entries[j].0 == stem + ".key"@ implies sorted.contains(
        (key_entries[j].0, key_entries[j].1, true),
    ) by {
        let x = (key_entries[j].0, key_entries[j].1, true);
        lemma_listed_files_has(key_entries, true, j);
        let w = choose|w: int| 0 <= w < kf.len() && kf[w] == x;
        assert(all[cf.len() + w] == x);
        vstd::seq_lib::to_multiset_contains(all, x);
        vstd::seq_lib::to_multiset_contains(sorted, x);
    }
}

/// The file name for a certificate of `common_name` (see `safe_filename_of`).
pub fn safe_filename(common_name: &str) -> (r: String)
    ensures
        r@ == safe_filename_of(common_name@),
{
    let v = chars_of(common_name);
    let mut m: Vec<char> = Vec::new();
    let mut i: usize = 0;
    while i < v.len()
        invariant
            i <= v@.len(),
            m@ == v@.take(i as int).map_values(|c: char| filename_char(c)),
        decreases v@.len() - i,
    {
        let c = v[i];
        let d = if is_ascii_alphanumeric(c) || c == '.' || c == '-' || c == '_' {
            c
        } else {
            '_'
        };
        m.push(d);
        i = i + 1;
        assert(m@ =~= v@.take(i as int).map_values(|c: char| filename_char(c)));
    }
    assert(v@.take(v@.len() as int) =~= v@);
    let underscore = vec!['_'];
    assert(underscore@ =~= seq!['_']);
    let (a, b) = trim_set_bounds(&m, 0, m.len(), &underscore);
    assert(m@.subrange(0, m@.len() as int) =~= m@);
    let end = if b - a > 96 {
        a + 96
    } else {
        b
    };
    let cut = string_of_range(&m, a, end);
    proof {
        let trimmed = m@.subrange(a as int, b as int);
        if b - a > 96 {
            assert(trimmed.take(96) =~= m@.subrange(a as int, end as int));
        }
    }
    let certificate = chars_of("certificate");
    let cv = chars_of(cut.as_str());
    if crate::sorting::str_lt(&certificate, &cv) {
        cut
    } else {
        String::from_str("certificate")
    }
}

/// A control character (`char::is_control`: the general category Cc).
pub open spec fn is_control(c: char) -> bool {
    (c as u32) <= 0x1f || (0x7f <= (c as u32) && (c as u32) <= 0x9f)
}

pub open spec fn common_name_message() -> Seq<char> {
    "Common name must be between 1 and 253 printable characters"@
}

pub open spec fn lifetime_message() -> Seq<char> {
    "Certificate lifetime must be between 1 and 3650 days"@
}

/// The checked request: the trimmed common name when it has 1 to 253 bytes
/// and no control character, and a lifetime of 1 to 3650 days.
pub open spec fn checked_request(cn: Seq<char>, days: u32) -> Result<Seq<char>, Seq<char>> {
    let t = trim(cn);
    if t.len() == 0 || byte_len(t) > 253 || exists|i: int| 0 <= i < t.len() && is_control(#[trigger] t[i]) {
        Err(common_name_message())
    } else if !(1 <= days && days <= 3650) {
        Err(lifetime_message())
    } else {
        Ok(t)
    }
}

/// Checks a request for a self-signed certificate (see `checked_request`);
/// the accepted common name is trimmed.
pub fn check_certificate_request(common_name: &str, days: u32) -> (r: Result<String, String>)
    ensures
        r matches Ok(cn) ==> checked_request(common_name@, days) == Ok::<Seq<char>, Seq<char>>(cn@),
        r matches Err(e) ==> checked_request(common_name@, days) == Err::<Seq<char>, Seq<char>>(e@),
{
    let v = chars_of(common_name);
    let (a, b) = trim_range(&v, 0, v.len());
    assert(v@.subrange(0, v@.len() as int) =~= v@);
    let t = &v[a..b];
    assert(t@ == trim(common_name@));
    let mut control = false;
    let mut i: usize = 0;
    while i < t.len()
        invariant
            i <= t@.len(),
            control <==> exists|j: int| 0 <= j < i && is_control(#[trigger] t@[j]),
        decreases t@.len() - i,
    {
        let c = t[i] as u32;
        if c <= 0x1f || (0x7f <= c && c <= 0x9f) {
            control = true;
        }
        i = i + 1;
    }
    if t.len() == 0 || byte_len_exceeds(t, 253) || control {
        return Err(String::from_str("Common name must be between 1 and 253 printable characters"));
    }
    if !(1 <= days && days <= 3650) {
        return Err(String::from_str("Certificate lifetime must be between 1 and 3650 days"));
    }
    Ok(string_of(t))
}

/// The subjectAltName extension for `cn`: an IP entry for an IP address, a
/// DNS entry otherwise.
pub open spec fn san_extension(cn: Seq<char>, is_ip: bool) -> Seq<char> {
    if is_ip {
        "subjectAltName=IP:"@ + cn
    } else {
        "subjectAltName=DNS:"@ + cn
    }
}

/// What creating a self-signed certificate writes, and the arguments of
/// OpenSSL that do it.
pub struct SelfSignedPlan {
    pub filename: String,
    pub key_path: String,
    pub cert_path: String,
    pub args: Vec<String>,
}

/// The arguments of `openssl req` that create a key and a self-signed
/// certificate valid for `days`, for `cn` with the extension `san`.
pub open spec fn self_signed_args(
    days: u32,
    key_path: Seq<char>,
    cert_path: Seq<char>,
    cn: Seq<char>,
    san: Seq<char>,
    windows: bool,
) -> Seq<Seq<char>> {
    seq![
        "req"@,
        "-x509"@,
        "-nodes"@,
        "-days"@,
        decimal(days as nat),
        "-newkey"@,
        "rsa:2048"@,
        "-keyout"@,
        external_path(key_path, windows),
        "-out"@,
        external_path(cert_path, windows),
        "-subj"@,
        "/CN="@ + cn,
        "-addext"@,
        san,
    ]
}

/// The key and certificate files for `filename` in the installation `root`.
pub open spec fn key_file_of(root: Seq<char>, filename: Seq<char>) -> Seq<char> {
    join_path(join_all(root, seq!["apache"@, "conf"@, "ssl.key"@]), filename + ".key"@)
}

pub open spec fn cert_file_of(root: Seq<char>, filename: Seq<char>) -> Seq<char> {
    join_path(join_all(root, seq!["apache"@, "conf"@, "ssl.crt"@]), filename + ".crt"@)
}

/// The files and OpenSSL arguments for a self-signed certificate of the
/// checked common name `cn`, valid for `days`, in the installation `root`;
/// `is_ip` tells whether `cn` is an IP address, `windows` whether paths are
/// handed to OpenSSL on Windows (see `external_path`).
pub fn plan_self_signed(cn: &str, days: u32, is_ip: bool, root: &str, windows: bool) -> (r: SelfSignedPlan)
    ensures
        r.filename@ == safe_filename_of(cn@),
        r.key_path@ == key_file_of(root@, r.filename@),
        r.cert_path@ == cert_file_of(root@, r.filename@),
        string_views(r.args@) == self_signed_args(
            days,
            r.key_path@,
            r.cert_path@,
            cn@,
            san_extension(cn@, is_ip),
            windows,
        ),
{
    let filename = safe_filename(cn);
    let mut key_name = filename.clone();
    key_name.append(".key");
    let mut cert_name = filename.clone();
    cert_name.append(".crt");
    let key_dir = ssl_key_dir(root);
    let crt_dir = ssl_crt_dir(root);
    let key_path = join_path_exec(key_dir.as_str(), key_name.as_str());
    let cert_path = join_path_exec(crt_dir.as_str(), cert_name.as_str());
    let mut san = if is_ip {
        String::from_str("subjectAltName=IP:")
    } else {
        String::from_str("subjectAltName=DNS:")
    };
    san.append(cn);
    let mut subj = String::from_str("/CN=");
    subj.append(cn);
    let args = vec![
        String::from_str("req"),
        String::from_str("-x509"),
        String::from_str("-nodes"),
        String::from_str("-days"),
        decimal_string(days as u64),
        String::from_str("-newkey"),
        String::from_str("rsa:2048"),
        String::from_str("-keyout"),
        path_for_external_command(key_path.as_str(), windows),
        String::from_str("-out"),
        path_for_external_command(cert_path.as_str(), windows),
        String::from_str("-subj"),
        subj,
        String::from_str("-addext"),
        san,
    ];
    let r = SelfSignedPlan { filename, key_path, cert_path, args };
    assert(string_views(r.args@) =~= self_signed_args(
        days,
        r.key_path@,
        r.cert_path@,
        cn@,
        san_extension(cn@, is_ip),
        windows,
    ));
    r
}

/// The refusal when a certificate of that name exists already.
pub fn existing_certificate_message(filename: &str) -> (r: String)
    ensures
        r@ == "A certificate named '"@ + filename@ + "' already exists; refusing to overwrite it"@,
{
    let mut r = String::from_str("A certificate named '");
    r.append(filename);
    r.append("' already exists; refusing to overwrite it");
    r
}

/// OpenSSL's error output, trimmed, after `prefix`.
pub fn openssl_error(prefix: &str, stderr: &str) -> (r: String)
    ensures
        r@ == prefix@ + trim(stderr@),
{
    let v = chars_of(stderr);
    let (a, b) = trim_range(&v, 0, v.len());
    assert(v@.subrange(0, v@.len() as int) =~= v@);
    let mut r = String::from_str(prefix);
    push_range(&mut r, &v, a, b);
    r
}

/// The arguments of `openssl x509` that print a certificate's subject,
/// issuer, dates and subject alternative names; `windows` as for
/// `external_path`.
pub fn read_certificate_args(path: &str, windows: bool) -> (r: Vec<String>)
    ensures
        string_views(r@) == seq![
            "x509"@,
            "-in"@,
            external_path(path@, windows),
            "-noout"@,
            "-subject"@,
            "-issuer"@,
            "-dates"@,
            "-ext"@,
            "subjectAltName"@,
        ],
{
    let r = vec![
        String::from_str("x509"),
        String::from_str("-in"),
        path_for_external_command(path, windows),
        String::from_str("-noout"),
        String::from_str("-subject"),
        String::from_str("-issuer"),
        String::from_str("-dates"),
        String::from_str("-ext"),
        String::from_str("subjectAltName"),
    ];
    assert(string_views(r@) =~= seq![
        "x509"@,
        "-in"@,
        external_path(path@, windows),
        "-noout"@,
        "-subject"@,
        "-issuer"@,
        "-dates"@,
        "-ext"@,
        "subjectAltName"@,
    ]);
    r
}

/// `Path::file_stem` of a file name: what precedes its last `.`, or the whole
/// name when the only dot opens it, it has none, or it is `..`.
pub open spec fn file_stem_of(name: Seq<char>) -> Seq<char> {
    let k = crate::text::rfind_before(name, '.', name.len() as int);
    if name == ".."@ || k <= 0 {
        name
    } else {
        name.take(k)
    }
}

/// Where the key of the certificate file `cert_name` would be: a `.key` file
/// of the same stem in the key directory of `root`.
pub fn matching_key_path(root: &str, cert_name: &str) -> (r: String)
    ensures
        r@ == key_file_of(root@, file_stem_of(cert_name@)),
{
    let v = chars_of(cert_name);
    let dots = chars_of("..");
    let stem_end = if chars_eq(&v, &dots) {
        v.len()
    } else {
        match crate::text::rfind_exec(&v, 0, v.len(), '.') {
            Some(k) => if k == 0 {
                v.len()
            } else {
                k
            },
            None => v.len(),
        }
    };
    assert(v@.subrange(0, v@.len() as int) =~= v@);
    let mut name = string_of_range(&v, 0, stem_end);
    name.append(".key");
    let dir = ssl_key_dir(root);
    join_path_exec(dir.as_str(), name.as_str())
}

} // verus!
