//! Apache virtual hosts (`httpd-vhosts.conf`) and hosts-file entries for
//! deployments.

use vstd::prelude::*;
use crate::text::{
    all_ascii, ascii_lower, byte_len, byte_len_exceeds, chars_eq, chars_of, find_exec,
    find_from, has_char, has_char_exec, in_set, is_ascii_alnum, is_ascii_alphanumeric,
    line_spans, line_spans_exec, lines, parse_u16, parse_u16_exec, rfind_before, rfind_exec,
    skip_set_back, starts_with, starts_with_exec, string_of_range, strip_prefix,
    strip_prefix_all, strip_prefix_all_exec, trim, trim_bounds, trim_by, trim_end_by,
    trim_range, trim_set_bounds, contains, contains_exec, decimal, decimal_string, ends_with,
    is_whitespace, is_ws, join_lines, lemma_trail_count_unique, push_range, string_of,
    trim_end, trim_start, ws_pred, eq_ignore_ascii_case,
};
use crate::paths::{join_path, join_path_exec};
use crate::unicode::to_lowercase;

verus! {

/// A virtual host found in `httpd-vhosts.conf`.
pub struct VhostEntry {
    pub domain: String,
    pub root: String,
    pub port: u16,
    pub ssl: bool,
}

pub open spec fn vhost_view(e: VhostEntry) -> (Seq<char>, Seq<char>, u16, bool) {
    (e.domain@, e.root@, e.port, e.ssl)
}

/// The domain text that is checked: trimmed, without leading `http://` and
/// then `https://` prefixes, and without trailing `/`.
pub open spec fn domain_core(d: Seq<char>) -> Seq<char> {
    trim_end_by(
        strip_prefix_all(strip_prefix_all(trim(d), "http://"@), "https://"@),
        in_set(seq!['/']),
    )
}

pub open spec fn domain_char_ok(c: char) -> bool {
    is_ascii_alnum(c) || c == '-' || c == '.' || c == ':'
}

pub open spec fn domain_invalid_message() -> Seq<char> {
    "Enter a valid domain such as myapp.test"@
}

pub open spec fn domain_chars_message() -> Seq<char> {
    "Domains may contain letters, numbers, hyphens, dots, and colons"@
}

/// The checked domain: the domain text of `d` (see `domain_core`), lower-cased,
/// when it is 1 to 253 bytes of letters, digits, `-`, `.` and `:`.
pub open spec fn sanitized_domain(d: Seq<char>) -> Result<Seq<char>, Seq<char>> {
    let c = domain_core(d);
    if c.len() == 0 || byte_len(c) > 253 || has_char(c, ' ') || has_char(c, '\t') || has_char(
        c,
        '\n',
    ) {
        Err(domain_invalid_message())
    } else if exists|i: int| 0 <= i < c.len() && !domain_char_ok(#[trigger] c[i]) {
        Err(domain_chars_message())
    } else {
        Ok(ascii_lower(c))
    }
}

/// A domain character stays a domain character of width 1 when lower-cased,
/// and lower-casing it again changes nothing.
pub(crate) proof fn lemma_lower_domain_char(c: char)
    requires
        domain_char_ok(c),
    ensures
        domain_char_ok(crate::text::lower_char(c)),
        crate::text::lower_char(crate::text::lower_char(c)) == crate::text::lower_char(c),
        crate::text::utf8_width(c) == 1,
        crate::text::utf8_width(crate::text::lower_char(c)) == 1,
        !is_ws(crate::text::lower_char(c)),
{
}

/// A string of one-byte characters takes one byte per character.
proof fn lemma_byte_len_narrow(s: Seq<char>)
    requires
        forall|i: int| 0 <= i < s.len() ==> crate::text::utf8_width(#[trigger] s[i]) == 1,
    ensures
        byte_len(s) == s.len(),
    decreases s.len(),
{
    if s.len() > 0 {
        assert forall|i: int| 0 <= i < s.drop_last().len() implies crate::text::utf8_width(
            #[trigger] s.drop_last()[i],
        ) == 1 by {
            assert(s.drop_last()[i] == s[i]);
        }
        lemma_byte_len_narrow(s.drop_last());
    }
}

/// A string of domain characters is its own domain part.
proof fn lemma_domain_core_of_clean(x: Seq<char>)
    requires
        x.len() > 0,
        forall|i: int| 0 <= i < x.len() ==> domain_char_ok(#[trigger] x[i]),
    ensures
        domain_core(x) == x,
{
    assert forall|i: int| 0 <= i < x.len() implies !is_ws(#[trigger] x[i]) by {
        assert(domain_char_ok(x[i]));
    }
    crate::text::lemma_lead_count_unique(x, ws_pred(), 0);
    let t1 = crate::text::trim_start_by(x, ws_pred());
    assert(t1 =~= x);
    lemma_trail_count_unique(x, ws_pred(), 0);
    assert(trim(x) =~= x);
    reveal_strlit("http://");
    reveal_strlit("https://");
    if starts_with(x, "http://"@) {
        assert(x.subrange(0, 7)[5] == '/');
        assert(domain_char_ok(x[5]));
    }
    assert(strip_prefix_all(x, "http://"@) == x);
    if starts_with(x, "https://"@) {
        assert(x.subrange(0, 8)[6] == '/');
        assert(domain_char_ok(x[6]));
    }
    assert(strip_prefix_all(x, "https://"@) == x);
    assert(!seq!['/'].contains(x[x.len() - 1])) by {
        if seq!['/'].contains(x[x.len() - 1]) {
            let k = choose|k: int| 0 <= k < 1 && seq!['/'][k] == x[x.len() - 1];
            assert(domain_char_ok(x[x.len() - 1]));
        }
    }
    lemma_trail_count_unique(x, in_set(seq!['/']), 0);
    assert(trim_end_by(x, in_set(seq!['/'])) =~= x);
}

/// Law: a sanitized domain is sanitized already: checking it again accepts it
/// unchanged.
pub proof fn law_sanitize_domain_idempotent(d: Seq<char>)
    requires
        sanitized_domain(d) is Ok,
    ensures
        sanitized_domain(sanitized_domain(d)->Ok_0) == sanitized_domain(d),
{
    let c = domain_core(d);
    let x = ascii_lower(c);
    assert(forall|i: int| 0 <= i < c.len() ==> domain_char_ok(#[trigger] c[i]));
    assert forall|i: int| 0 <= i < x.len() implies domain_char_ok(#[trigger] x[i])
        && crate::text::utf8_width(x[i]) == 1 && crate::text::lower_char(x[i]) == x[i] by {
        lemma_lower_domain_char(c[i]);
    }
    assert forall|i: int| 0 <= i < c.len() implies crate::text::utf8_width(#[trigger] c[i]) == 1 by {
        lemma_lower_domain_char(c[i]);
    }
    lemma_byte_len_narrow(x);
    lemma_byte_len_narrow(c);
    lemma_domain_core_of_clean(x);
    assert forall|i: int| 0 <= i < x.len() implies x[i] != ' ' && x[i] != '\t' && x[i] != '\n' by {
        assert(domain_char_ok(x[i]));
    }
    assert(!has_char(x, ' ') && !has_char(x, '\t') && !has_char(x, '\n'));
    assert(!(exists|i: int| 0 <= i < x.len() && !domain_char_ok(#[trigger] x[i])));
    assert(ascii_lower(x) =~= x);
}

/// Checks a domain for a virtual host (see `sanitized_domain`).
pub fn sanitize_domain(domain: &str) -> (r: Result<String, String>)
    ensures
        r matches Ok(d) ==> sanitized_domain(domain@) == Ok::<Seq<char>, Seq<char>>(d@),
        r matches Err(e) ==> sanitized_domain(domain@) == Err::<Seq<char>, Seq<char>>(e@),
{
    let v = chars_of(domain);
    let (a, b) = trim_bounds(&v);
    let a1 = strip_prefix_all_exec(&v, a, b, &chars_of("http://"));
    let a2 = strip_prefix_all_exec(&v, a1, b, &chars_of("https://"));
    let slash = ['/'];
    assert(slash@ =~= seq!['/']);
    let e = skip_set_back(&v, a2, b, &slash);
    let c = &v[a2..e];
    proof {
        assert(v@.subrange(a2 as int, e as int) =~= domain_core(domain@));
    }
    assert(c@ == domain_core(domain@));
    if a2 == e || byte_len_exceeds(c, 253) || has_char_exec(c, ' ') || has_char_exec(c, '\t')
        || has_char_exec(c, '\n') {
        return Err(String::from_str("Enter a valid domain such as myapp.test"));
    }
    let mut i: usize = 0;
    while i < c.len()
        invariant
            i <= c@.len(),
            forall|j: int| 0 <= j < i ==> domain_char_ok(#[trigger] c@[j]),
            c@ == domain_core(domain@),
            !(c@.len() == 0 || byte_len(c@) > 253 || has_char(c@, ' ') || has_char(c@, '\t')
                || has_char(c@, '\n')),
        decreases c@.len() - i,
    {
        let ch = c[i];
        if !(is_ascii_alphanumeric(ch) || ch == '-' || ch == '.' || ch == ':') {
            assert(!domain_char_ok(c@[i as int]));
            return Err(
                String::from_str("Domains may contain letters, numbers, hyphens, dots, and colons"),
            );
        }
        i = i + 1;
    }
    let s = string_of_range(&v, a2, e);
    assert(all_ascii(s@));
    Ok(to_lowercase(s.as_str()))
}

} // verus!

verus! {

/// The port text of a `<VirtualHost ...>` line: after the `<VirtualHost `
/// prefixes, up to the first `>`, after the last `:`, with `*`, space, `:`,
/// `]` and `[` trimmed from both ends.
pub open spec fn bind_port_text(t: Seq<char>) -> Seq<char> {
    let after = strip_prefix_all(t, "<VirtualHost "@);
    let bind = after.take(find_from(after, '>', 0));
    let part = bind.skip(rfind_before(bind, ':', bind.len() as int) + 1);
    trim_by(part, in_set(seq!['*', ' ', ':', ']', '[']))
}

/// The reading state while going through `httpd-vhosts.conf` line by line.
pub struct VhostScan {
    pub in_block: bool,
    pub domain: Seq<char>,
    pub root: Seq<char>,
    pub port: u16,
    pub ssl: bool,
    pub entries: Seq<(Seq<char>, Seq<char>, u16, bool)>,
}

pub open spec fn scan_start() -> VhostScan {
    VhostScan {
        in_block: false,
        domain: Seq::empty(),
        root: Seq::empty(),
        port: 80,
        ssl: false,
        entries: Seq::empty(),
    }
}

/// One line of `httpd-vhosts.conf`: an opening `<VirtualHost` starts a block
/// (port from the bind address, default 80; SSL when it is 443); inside a
/// block, `ServerName` and `DocumentRoot` are taken, and the closing
/// `</VirtualHost>` records the block when both are present.
pub open spec fn scan_step(st: VhostScan, line: Seq<char>) -> VhostScan {
    let t = trim(line);
    if starts_with(t, "<VirtualHost"@) {
        let p = match parse_u16(bind_port_text(t)) {
            Some(p) => p,
            None => 80u16,
        };
        VhostScan {
            in_block: true,
            domain: Seq::empty(),
            root: Seq::empty(),
            port: p,
            ssl: p == 443,
            entries: st.entries,
        }
    } else if st.in_block {
        let d = match strip_prefix(t, "ServerName "@) {
            Some(x) => trim(x),
            None => st.domain,
        };
        let r = match strip_prefix(t, "DocumentRoot "@) {
            Some(x) => trim_by(trim(x), in_set(seq!['"'])),
            None => st.root,
        };
        if t == "</VirtualHost>"@ {
            VhostScan {
                in_block: false,
                domain: d,
                root: r,
                port: st.port,
                ssl: st.ssl,
                entries: if d.len() > 0 && r.len() > 0 {
                    st.entries.push((d, r, st.port, st.ssl))
                } else {
                    st.entries
                },
            }
        } else {
            VhostScan { in_block: true, domain: d, root: r, ..st }
        }
    } else {
        st
    }
}

pub open spec fn scan_upto(ls: Seq<Seq<char>>, n: int) -> VhostScan
    decreases n,
{
    if n <= 0 {
        scan_start()
    } else {
        scan_step(scan_upto(ls, n - 1), ls[n - 1])
    }
}

/// The virtual hosts of an `httpd-vhosts.conf` text, in file order.
pub open spec fn vhosts_of(content: Seq<char>) -> Seq<(Seq<char>, Seq<char>, u16, bool)> {
    scan_upto(lines(content), lines(content).len() as int).entries
}

fn bind_port(v: &[char], a: usize, b: usize) -> (p: u16)
    requires
        a <= b <= v@.len(),
    ensures
        p == match parse_u16(bind_port_text(v@.subrange(a as int, b as int))) {
            Some(p) => p,
            None => 80u16,
        },
{
    let ghost t = v@.subrange(a as int, b as int);
    let s1 = strip_prefix_all_exec(v, a, b, &chars_of("<VirtualHost "));
    let gt = find_exec(v, s1, b, '>');
    let start = match rfind_exec(v, s1, gt, ':') {
        Some(k) => k + 1,
        None => s1,
    };
    let set = ['*', ' ', ':', ']', '['];
    assert(set@ =~= seq!['*', ' ', ':', ']', '[']);
    let (pa, pb) = trim_set_bounds(v, start, gt, &set);
    proof {
        let after = strip_prefix_all(t, "<VirtualHost "@);
        assert(after == v@.subrange(s1 as int, b as int));
        let bind = after.take(find_from(after, '>', 0));
        assert(bind =~= v@.subrange(s1 as int, gt as int));
        let part = bind.skip(rfind_before(bind, ':', bind.len() as int) + 1);
        assert(part =~= v@.subrange(start as int, gt as int));
    }
    match parse_u16_exec(v, pa, pb) {
        Some(p) => p,
        None => 80,
    }
}

/// Lists the virtual hosts of an `httpd-vhosts.conf` text (see `vhosts_of`).
pub fn list_vhosts(content: &str) -> (r: Vec<VhostEntry>)
    ensures
        r@.len() == vhosts_of(content@).len(),
        forall|i: int| 0 <= i < r@.len() ==> vhost_view(#[trigger] r@[i]) == vhosts_of(content@)[i],
{
    let v = chars_of(content);
    let spans = line_spans_exec(&v);
    let ghost ls = lines(v@);
    let mut in_block = false;
    let mut dom: (usize, usize) = (0, 0);
    let mut root: (usize, usize) = (0, 0);
    let mut port: u16 = 80;
    let mut ssl = false;
    let mut out: Vec<VhostEntry> = Vec::new();
    let mut i: usize = 0;
    let quote = ['"'];
    assert(quote@ =~= seq!['"']);
    proof {
        reveal_strlit("ServerName ");
        reveal_strlit("DocumentRoot ");
    }
    let open_tag = chars_of("<VirtualHost");
    let close_tag = chars_of("</VirtualHost>");
    let server_name = chars_of("ServerName ");
    let document_root = chars_of("DocumentRoot ");
    while i < spans.len()
        invariant
            i <= spans@.len(),
            v@ == content@,
            ls == lines(v@),
            quote@ == seq!['"'],
            open_tag@ == "<VirtualHost"@,
            close_tag@ == "</VirtualHost>"@,
            server_name@ == "ServerName "@,
            document_root@ == "DocumentRoot "@,
            server_name@.len() == 11,
            document_root@.len() == 13,
            spans@.len() == line_spans(v@).len(),
            forall|k: int|
                0 <= k < spans@.len() ==> (#[trigger] spans@[k]).0 == line_spans(v@)[k].0
                    && spans@[k].1 == line_spans(v@)[k].1,
            forall|k: int|
                0 <= k < spans@.len() ==> (#[trigger] spans@[k]).0 <= spans@[k].1 <= v@.len(),
            dom.0 <= dom.1 <= v@.len(),
            root.0 <= root.1 <= v@.len(),
            scan_upto(ls, i as int).in_block == in_block,
            scan_upto(ls, i as int).domain == v@.subrange(dom.0 as int, dom.1 as int),
            scan_upto(ls, i as int).root == v@.subrange(root.0 as int, root.1 as int),
            scan_upto(ls, i as int).port == port,
            scan_upto(ls, i as int).ssl == ssl,
            out@.len() == scan_upto(ls, i as int).entries.len(),
            forall|k: int|
                0 <= k < out@.len() ==> vhost_view(#[trigger] out@[k]) == scan_upto(
                    ls,
                    i as int,
                ).entries[k],
        decreases spans@.len() - i,
    {
        let (a, b) = spans[i];
        let ghost line = v@.subrange(a as int, b as int);
        assert(ls[i as int] == line);
        let (ta, tb) = trim_range(&v, a, b);
        let ghost t = v@.subrange(ta as int, tb as int);
        let ghost st = scan_upto(ls, i as int);
        assert(scan_upto(ls, i + 1) == scan_step(st, line));
        let t_slice = &v[ta..tb];
        assert(t_slice@ == t);
        if starts_with_exec(t_slice, &open_tag) {
            in_block = true;
            dom = (0, 0);
            root = (0, 0);
            port = bind_port(&v, ta, tb);
            ssl = port == 443;
            assert(v@.subrange(0, 0) =~= Seq::<char>::empty());
        } else if in_block {
            if starts_with_exec(t_slice, &server_name) {
                let (da, db) = trim_range(&v, ta + 11, tb);
                assert(t.subrange(11, t.len() as int) =~= v@.subrange(ta + 11, tb as int));
                dom = (da, db);
            }
            if starts_with_exec(t_slice, &document_root) {
                let (ra, rb) = trim_range(&v, ta + 13, tb);
                assert(t.subrange(13, t.len() as int) =~= v@.subrange(ta + 13, tb as int));
                let (qa, qb) = trim_set_bounds(&v, ra, rb, &quote);
                root = (qa, qb);
            }
            if chars_eq(t_slice, &close_tag) {
                if dom.0 < dom.1 && root.0 < root.1 {
                    out.push(
                        VhostEntry {
                            domain: string_of_range(&v, dom.0, dom.1),
                            root: string_of_range(&v, root.0, root.1),
                            port,
                            ssl,
                        },
                    );
                }
                in_block = false;
            }
        }
        i = i + 1;
    }
    assert(ls.len() == spans@.len());
    out
}

} // verus!

verus! {

// ---------------------------------------------------------------------------
// Virtual host records for one deployment
// ---------------------------------------------------------------------------

/// A virtual host line that opens a block.
pub open spec fn is_open_line(l: Seq<char>) -> bool {
    starts_with(trim_start(l), "<VirtualHost"@)
}

/// A virtual host line that closes a block.
pub open spec fn is_close_line(l: Seq<char>) -> bool {
    trim(l) == "</VirtualHost>"@
}

/// The first closing line at or after `i`, or `ls.len()`.
pub open spec fn block_end(ls: Seq<Seq<char>>, i: int) -> int
    decreases ls.len() - i,
{
    if i < 0 || i >= ls.len() {
        ls.len() as int
    } else if is_close_line(ls[i]) {
        i
    } else {
        block_end(ls, i + 1)
    }
}

pub proof fn lemma_block_end(ls: Seq<Seq<char>>, i: int)
    requires
        0 <= i <= ls.len(),
    ensures
        i <= block_end(ls, i) <= ls.len(),
        block_end(ls, i) < ls.len() ==> is_close_line(ls[block_end(ls, i)]),
    decreases ls.len() - i,
{
    if i < ls.len() && !is_close_line(ls[i]) {
        lemma_block_end(ls, i + 1);
    }
}

/// Every block that opens is closed further on, which the rewriting needs.
pub open spec fn blocks_closed(content: Seq<char>) -> bool {
    forall|i: int|
        0 <= i < lines(content).len() && is_open_line(#[trigger] lines(content)[i])
            ==> block_end(lines(content), i) < lines(content).len()
}

/// The `DocumentRoot` value of a line, when it sets one: what follows the
/// keyword, trimmed, without surrounding quotes.
pub open spec fn doc_root_value(l: Seq<char>) -> Option<Seq<char>> {
    match strip_prefix(trim(l), "DocumentRoot "@) {
        Some(x) => Some(trim_by(trim(x), in_set(seq!['"']))),
        None => None,
    }
}

/// A folder as compared: `\` read as `/`, trailing `/` left out.
pub open spec fn folder_key(p: Seq<char>) -> Seq<char> {
    trim_end_by(forward_slashes(p), in_set(seq!['/']))
}

/// Whether a line sets `DocumentRoot` to the folder `root`.
pub open spec fn line_points_at(l: Seq<char>, root: Seq<char>) -> bool {
    match doc_root_value(l) {
        Some(v) => folder_key(v) == folder_key(root),
        None => false,
    }
}

/// Whether one of the lines of a block sets `DocumentRoot` to `root`.
pub open spec fn block_points_at(block: Seq<Seq<char>>, root: Seq<char>) -> bool {
    exists|j: int| 0 <= j < block.len() && line_points_at(#[trigger] block[j], root)
}

/// The lines that stay from position `i` on: each block (from an opening line
/// to the next closing line) whose `DocumentRoot` is the folder `root` is
/// dropped.
pub open spec fn kept_lines_from(ls: Seq<Seq<char>>, root: Seq<char>, i: int) -> Seq<Seq<char>>
    decreases ls.len() - i,
{
    if i < 0 || i >= ls.len() {
        Seq::empty()
    } else if is_open_line(ls[i]) && block_end(ls, i) < ls.len() && block_points_at(
        ls.subrange(i, block_end(ls, i) + 1),
        root,
    ) {
        proof {
            lemma_block_end(ls, i);
        }
        kept_lines_from(ls, root, block_end(ls, i) + 1)
    } else {
        seq![ls[i]] + kept_lines_from(ls, root, i + 1)
    }
}

/// The root of a deployment's folder, with `/` separators.
pub open spec fn forward_slashes(s: Seq<char>) -> Seq<char> {
    s.map_values(|c: char| if c == '\\' { '/' } else { c })
}

/// The folder of deployment `name`, with `/` separators, as blocks name it.
pub open spec fn deployment_root_forward(xampp_root: Seq<char>, name: Seq<char>) -> Seq<char> {
    forward_slashes(join_path(join_path(xampp_root, "htdocs"@), name))
}

/// The lines of `content` that stay when the blocks of deployment `name` go:
/// those whose `DocumentRoot` is the deployment's folder.
pub open spec fn kept_vhost_lines(content: Seq<char>, name: Seq<char>, xampp_root: Seq<char>) -> Seq<
    Seq<char>,
> {
    kept_lines_from(lines(content), deployment_root_forward(xampp_root, name), 0)
}

/// The domain asked for: none when `domain` is absent or blank, else the
/// checked domain or its refusal.
pub open spec fn requested_domain(domain: Option<Seq<char>>) -> Option<Result<Seq<char>, Seq<char>>> {
    match domain {
        Some(d) => if trim(d).len() == 0 {
            None
        } else {
            Some(sanitized_domain(d))
        },
        None => None,
    }
}

/// The text and entry that `set_vhost` produces, or its error. Without a
/// domain the deployment's blocks are only removed, and there is no entry.
pub open spec fn vhost_update(
    content: Seq<char>,
    name: Seq<char>,
    domain: Option<Seq<char>>,
    ssl: bool,
    apache_port: u16,
    xampp_root: Seq<char>,
) -> Result<(Seq<char>, Option<(Seq<char>, Seq<char>, u16, bool)>), Seq<char>> {
    let kept = join_lines(kept_vhost_lines(content, name, xampp_root));
    match requested_domain(domain) {
        None => Ok((kept, None)),
        Some(Err(e)) => Err(e),
        Some(Ok(d)) => {
            let root_forward = deployment_root_forward(xampp_root, name);
            let listen_ssl = if ssl {
                ssl_block_text(d, root_forward, name)
            } else {
                Seq::empty()
            };
            let block = vhost_block_text(decimal(apache_port as nat), d, root_forward, listen_ssl);
            let base = if !ends_with(trim_end(kept), seq!['\n']) {
                kept.push('\n')
            } else {
                kept
            };
            Ok(
                (
                    base + block,
                    Some(
                        (d, root_forward, if ssl {
                            443u16
                        } else {
                            apache_port
                        }, ssl),
                    ),
                ),
            )
        },
    }
}

pub open spec fn ssl_block_text(domain: Seq<char>, root_forward: Seq<char>, name: Seq<char>) -> Seq<char> {
    "\n<IfModule ssl_module>\n<VirtualHost *:443>\n    ServerName "@ + domain + "\n    DocumentRoot \""@ + root_forward + "\"\n    SSLEngine on\n    SSLCertificateFile \"C:/xampp/apache/conf/ssl.crt/"@ + name + ".crt\"\n    SSLCertificateKeyFile \"C:/xampp/apache/conf/ssl.key/"@ + name + ".key\"\n    <Directory \""@ + root_forward + "\">\n        Options Indexes FollowSymLinks\n        AllowOverride All\n        Require all granted\n    </Directory>\n</VirtualHost>\n</IfModule>\n"@
}
fn ssl_block(domain: &str, root_forward: &str, name: &str) -> (r: String)
    ensures
        r@ == ssl_block_text(domain@, root_forward@, name@),
{
    let mut s = String::from_str("\n<IfModule ssl_module>\n<VirtualHost *:443>\n    ServerName ");
    s.append(domain);
    s.append("\n    DocumentRoot \"");
    s.append(root_forward);
    s.append("\"\n    SSLEngine on\n    SSLCertificateFile \"C:/xampp/apache/conf/ssl.crt/");
    s.append(name);
    s.append(".crt\"\n    SSLCertificateKeyFile \"C:/xampp/apache/conf/ssl.key/");
    s.append(name);
    s.append(".key\"\n    <Directory \"");
    s.append(root_forward);
    s.append("\">\n        Options Indexes FollowSymLinks\n        AllowOverride All\n        Require all granted\n    </Directory>\n</VirtualHost>\n</IfModule>\n");
    s
}
pub open spec fn vhost_block_text(port: Seq<char>, domain: Seq<char>, root_forward: Seq<char>, listen_ssl: Seq<char>) -> Seq<char> {
    "\n<VirtualHost *:"@ + port + ">\n    ServerName "@ + domain + "\n    DocumentRoot \""@ + root_forward + "\"\n    <Directory \""@ + root_forward + "\">\n        Options Indexes FollowSymLinks\n        AllowOverride All\n        Require all granted\n    </Directory>\n</VirtualHost>"@ + listen_ssl + "\n"@
}
fn vhost_block(port: &str, domain: &str, root_forward: &str, listen_ssl: &str) -> (r: String)
    ensures
        r@ == vhost_block_text(port@, domain@, root_forward@, listen_ssl@),
{
    let mut s = String::from_str("\n<VirtualHost *:");
    s.append(port);
    s.append(">\n    ServerName ");
    s.append(domain);
    s.append("\n    DocumentRoot \"");
    s.append(root_forward);
    s.append("\"\n    <Directory \"");
    s.append(root_forward);
    s.append("\">\n        Options Indexes FollowSymLinks\n        AllowOverride All\n        Require all granted\n    </Directory>\n</VirtualHost>");
    s.append(listen_ssl);
    s.append("\n");
    s
}

/// `s` with every `\\` replaced by `/`.
pub fn to_forward_slashes(s: &str) -> (r: String)
    ensures
        r@ == forward_slashes(s@),
{
    let v = chars_of(s);
    let mut w: Vec<char> = Vec::new();
    let mut i: usize = 0;
    while i < v.len()
        invariant
            i <= v@.len(),
            w@ == forward_slashes(v@).take(i as int),
        decreases v@.len() - i,
    {
        w.push(if v[i] == '\\' { '/' } else { v[i] });
        assert(w@ =~= forward_slashes(v@).take(i + 1));
        i = i + 1;
    }
    assert(w@ =~= forward_slashes(s@));
    string_of(&w)
}

/// Appends to `out` the line `v[span]`, after a newline unless `out` holds no
/// line yet.
fn push_line(out: &mut String, first: bool, v: &[char], a: usize, b: usize)
    requires
        a <= b <= v@.len(),
    ensures
        final(out)@ == if first {
            old(out)@ + v@.subrange(a as int, b as int)
        } else {
            old(out)@ + seq!['\n'] + v@.subrange(a as int, b as int)
        },
{
    if !first {
        crate::text::push(out, '\n');
    }
    push_range(out, v, a, b);
}

pub proof fn lemma_join_lines_push(ls: Seq<Seq<char>>, x: Seq<char>)
    ensures
        join_lines(ls.push(x)) == if ls.len() == 0 {
            x
        } else {
            join_lines(ls) + seq!['\n'] + x
        },
{
    assert(ls.push(x).drop_last() =~= ls);
    if ls.len() == 0 {
        assert(ls.push(x).len() == 1);
    }
}

/// Whether every virtual host block that opens in `content` is closed
/// further on; `set_vhost` requires it.
pub fn vhost_blocks_closed(content: &str) -> (b: bool)
    ensures
        b == blocks_closed(content@),
{
    let v = chars_of(content);
    let spans = line_spans_exec(&v);
    let ghost ls = lines(v@);
    let open_tag = chars_of("<VirtualHost");
    let close_tag = chars_of("</VirtualHost>");
    // Scan from the end, remembering whether a closing line has been seen.
    let mut closed_after = false;
    let mut i = spans.len();
    while i > 0
        invariant
            i <= spans@.len(),
            v@ == content@,
            ls == lines(v@),
            open_tag@ == "<VirtualHost"@,
            close_tag@ == "</VirtualHost>"@,
            spans@.len() == line_spans(v@).len(),
            forall|k: int|
                0 <= k < spans@.len() ==> (#[trigger] spans@[k]).0 == line_spans(v@)[k].0
                    && spans@[k].1 == line_spans(v@)[k].1,
            forall|k: int|
                0 <= k < spans@.len() ==> (#[trigger] spans@[k]).0 <= spans@[k].1 <= v@.len(),
            closed_after == (block_end(ls, i as int) < ls.len()),
            forall|k: int|
                i <= k < ls.len() && is_open_line(#[trigger] ls[k]) ==> block_end(ls, k)
                    < ls.len(),
        decreases i,
    {
        i = i - 1;
        let (a, b) = spans[i];
        assert(ls[i as int] == v@.subrange(a as int, b as int));
        let (ta, tb) = trim_range(&v, a, b);
        let is_close = chars_eq(&v[ta..tb], &close_tag);
        let (sa, _) = trim_bounds(&v[a..b]);
        proof {
            let l = v@.subrange(a as int, b as int);
            assert(v@.subrange(a as int, b as int).subrange(sa as int, l.len() as int) =~= v@.subrange(
                a + sa,
                b as int,
            ));
        }
        let is_open = starts_with_exec(&v[a + sa..b], &open_tag);
        if is_close {
            closed_after = true;
        }
        if is_open && !closed_after {
            return false;
        }
    }
    true
}

/// Replaces the virtual host of deployment `name` in the `httpd-vhosts.conf`
/// text `content`: the deployment's blocks (those whose `DocumentRoot` is its
/// folder `<xampp_root>\htdocs\<name>`, with `\` read as `/` and trailing
/// separators left out; see `folder_key`) are dropped, every other line
/// stays, and for a non-blank `domain` a new block is appended on
/// `apache_port`, with an SSL block on 443 when `ssl` is set.
/// Without a domain, or with a blank one, the blocks are only removed.
/// Returns the new text and the new entry, if any (see `vhost_update`).
pub fn set_vhost(
    content: &str,
    name: &str,
    domain: Option<&str>,
    ssl: bool,
    apache_port: u16,
    xampp_root: &str,
) -> (r: Result<(String, Option<VhostEntry>), String>)
    requires
        blocks_closed(content@),
    ensures
        r matches Ok((c, e)) ==> vhost_update(
            content@,
            name@,
            match domain {
                Some(d) => Some(d@),
                None => None,
            },
            ssl,
            apache_port,
            xampp_root@,
        ) == Ok::<(Seq<char>, Option<(Seq<char>, Seq<char>, u16, bool)>), Seq<char>>((
            c@,
            match e {
                Some(e) => Some(vhost_view(e)),
                None => None,
            },
        )),
        r matches Err(m) ==> vhost_update(
            content@,
            name@,
            match domain {
                Some(d) => Some(d@),
                None => None,
            },
            ssl,
            apache_port,
            xampp_root@,
        ) == Err::<(Seq<char>, Option<(Seq<char>, Seq<char>, u16, bool)>), Seq<char>>(m@),
{
    let root = join_path_exec(join_path_exec(xampp_root, "htdocs").as_str(), name);
    let root_forward = to_forward_slashes(root.as_str());
    let kept = remove_deployment_blocks(content, root_forward.as_str());
    let d = match domain {
        None => {
            return Ok((kept, None));
        },
        Some(d) => {
            let dv = chars_of(d);
            let (ta, tb) = trim_bounds(&dv);
            if ta == tb {
                return Ok((kept, None));
            }
            match sanitize_domain(d) {
                Ok(d) => d,
                Err(e) => {
                    return Err(e);
                },
            }
        },
    };
    let listen_ssl = if ssl {
        ssl_block(d.as_str(), root_forward.as_str(), name)
    } else {
        String::new()
    };
    let port_text = decimal_string(apache_port as u64);
    let block = vhost_block(port_text.as_str(), d.as_str(), root_forward.as_str(), listen_ssl.as_str());
    let kv = chars_of(kept.as_str());
    let mut new_content = kept;
    // `trim_end` never leaves a trailing newline, so a newline always goes here.
    let ends_nl = ends_with_newline_after_trim_end(&kv);
    if !ends_nl {
        crate::text::push(&mut new_content, '\n');
    }
    new_content.append(block.as_str());
    let entry = VhostEntry {
        domain: d,
        root: root_forward,
        port: if ssl {
            443
        } else {
            apache_port
        },
        ssl,
    };
    Ok((new_content, Some(entry)))
}

fn ends_with_newline_after_trim_end(v: &[char]) -> (b: bool)
    ensures
        b == ends_with(trim_end(v@), seq!['\n']),
{
    let mut e = v.len();
    while e > 0 && is_whitespace(v[e - 1])
        invariant
            e <= v@.len(),
            forall|j: int| e <= j < v@.len() ==> is_ws(#[trigger] v@[j]),
        decreases e,
    {
        e = e - 1;
    }
    proof {
        if v@.len() - e < v@.len() {
            assert(v@[v@.len() - (v@.len() - e) - 1] == v@[e - 1]);
        }
        lemma_trail_count_unique(v@, ws_pred(), v@.len() - e);
        assert(trim_end(v@) =~= v@.subrange(0, e as int));
        if e > 0 {
            assert(trim_end(v@).subrange(e - 1, e as int) =~= seq![v@[e - 1]]);
            if ends_with(trim_end(v@), seq!['\n']) {
                assert(trim_end(v@).subrange(e - 1, e as int)[0] == '\n');
            }
        }
    }
    e > 0 && v[e - 1] == '\n'
}

/// The folder key (see `folder_key`) of `s`.
fn folder_key_exec(s: &[char]) -> (r: Vec<char>)
    ensures
        r@ == folder_key(s@),
{
    let mut w: Vec<char> = Vec::new();
    let mut i: usize = 0;
    while i < s.len()
        invariant
            i <= s@.len(),
            w@ == forward_slashes(s@).take(i as int),
        decreases s@.len() - i,
    {
        w.push(if s[i] == '\\' { '/' } else { s[i] });
        assert(w@ =~= forward_slashes(s@).take(i + 1));
        i = i + 1;
    }
    assert(w@ =~= forward_slashes(s@));
    let slash = ['/'];
    assert(slash@ =~= seq!['/']);
    let e = skip_set_back(&w, 0, w.len(), &slash);
    assert(w@.subrange(0, w@.len() as int) =~= w@);
    w.truncate(e);
    assert(w@ =~= folder_key(s@));
    w
}

/// Whether the line `v[a..b]` sets `DocumentRoot` to a folder whose key is
/// `key`.
fn line_points_at_exec(v: &[char], a: usize, b: usize, key: &[char]) -> (r: bool)
    requires
        a <= b <= v@.len(),
    ensures
        r == (doc_root_value(v@.subrange(a as int, b as int)) matches Some(x) && folder_key(x)
            == key@),
{
    let ghost l = v@.subrange(a as int, b as int);
    let (ta, tb) = trim_range(v, a, b);
    let p = chars_of("DocumentRoot ");
    proof {
        reveal_strlit("DocumentRoot ");
    }
    if !starts_with_exec(&v[ta..tb], &p) {
        assert(strip_prefix(trim(l), "DocumentRoot "@) is None);
        return false;
    }
    let xs = ta + 13;
    assert(v@.subrange(xs as int, tb as int) =~= trim(l).subrange(13, trim(l).len() as int));
    let (xa, xb) = trim_range(v, xs, tb);
    let quote = ['"'];
    assert(quote@ =~= seq!['"']);
    let (qa, qb) = trim_set_bounds(v, xa, xb, &quote);
    let k = folder_key_exec(&v[qa..qb]);
    chars_eq(&k, key)
}

proof fn lemma_points_push(block: Seq<Seq<char>>, x: Seq<char>, root: Seq<char>)
    ensures
        block_points_at(block.push(x), root) == (block_points_at(block, root) || line_points_at(
            x,
            root,
        )),
{
    if block_points_at(block, root) {
        let j = choose|j: int| 0 <= j < block.len() && line_points_at(#[trigger] block[j], root);
        assert(block.push(x)[j] == block[j]);
    }
    if line_points_at(x, root) {
        assert(block.push(x)[block.len() as int] == x);
    }
    if block_points_at(block.push(x), root) {
        let j = choose|j: int|
            0 <= j < block.push(x).len() && line_points_at(#[trigger] block.push(x)[j], root);
        if j < block.len() {
            assert(block.push(x)[j] == block[j]);
        }
    }
}

/// The lines of `content` without the blocks whose `DocumentRoot` is the
/// folder `root_forward`, joined by newlines.
fn remove_deployment_blocks(content: &str, root_forward: &str) -> (r: String)
    requires
        blocks_closed(content@),
    ensures
        r@ == join_lines(kept_lines_from(lines(content@), root_forward@, 0)),
{
    let v = chars_of(content);
    let spans = line_spans_exec(&v);
    let ghost ls = lines(v@);
    let ghost rf = root_forward@;
    let key = folder_key_exec(chars_of(root_forward).as_slice());
    let open_tag = chars_of("<VirtualHost");
    let close_tag = chars_of("</VirtualHost>");
    let mut out = String::new();
    let mut first = true;
    let ghost mut done: Seq<Seq<char>> = Seq::empty();
    let mut i: usize = 0;
    while i < spans.len()
        invariant
            i <= spans@.len(),
            v@ == content@,
            ls == lines(v@),
            rf == root_forward@,
            key@ == folder_key(rf),
            open_tag@ == "<VirtualHost"@,
            close_tag@ == "</VirtualHost>"@,
            blocks_closed(content@),
            spans@.len() == line_spans(v@).len(),
            forall|k: int|
                0 <= k < spans@.len() ==> (#[trigger] spans@[k]).0 == line_spans(v@)[k].0
                    && spans@[k].1 == line_spans(v@)[k].1,
            forall|k: int|
                0 <= k < spans@.len() ==> (#[trigger] spans@[k]).0 <= spans@[k].1 <= v@.len(),
            kept_lines_from(ls, rf, 0) == done + kept_lines_from(ls, rf, i as int),
            out@ == join_lines(done),
            first == (done.len() == 0),
        decreases spans@.len() - i,
    {
        let (a, b) = spans[i];
        assert(ls[i as int] == v@.subrange(a as int, b as int));
        let (sa, _) = trim_bounds(&v[a..b]);
        proof {
            let l = v@.subrange(a as int, b as int);
            assert(l.subrange(sa as int, l.len() as int) =~= v@.subrange(a + sa, b as int));
        }
        let is_open = starts_with_exec(&v[a + sa..b], &open_tag);
        let mut skip_to: Option<usize> = None;
        if is_open {
            // Find the closing line, noting whether a line of the block sets
            // `DocumentRoot` to the folder.
            let mut j = i;
            let mut owned = false;
            proof {
                lemma_block_end(ls, i as int);
                assert(ls.subrange(i as int, i as int) =~= Seq::<Seq<char>>::empty());
            }
            let n_spans = spans.len();
            loop
                invariant_except_break
                    owned == block_points_at(ls.subrange(i as int, j as int), rf),
                invariant
                    i <= j < spans@.len(),
                    n_spans == spans@.len(),
                    v@ == content@,
                    ls == lines(v@),
                    key@ == folder_key(rf),
                    close_tag@ == "</VirtualHost>"@,
                    spans@.len() == line_spans(v@).len(),
                    forall|k: int|
                        0 <= k < spans@.len() ==> (#[trigger] spans@[k]).0 == line_spans(v@)[k].0
                            && spans@[k].1 == line_spans(v@)[k].1,
                    forall|k: int|
                        0 <= k < spans@.len() ==> (#[trigger] spans@[k]).0 <= spans@[k].1
                            <= v@.len(),
                    block_end(ls, i as int) == block_end(ls, j as int),
                    block_end(ls, i as int) < ls.len(),
                ensures
                    i <= j < spans@.len(),
                    block_end(ls, i as int) == j,
                    owned == block_points_at(ls.subrange(i as int, j + 1), rf),
                decreases ls.len() - j,
            {
                let (ja, jb) = spans[j];
                assert(ls[j as int] == v@.subrange(ja as int, jb as int));
                let here = line_points_at_exec(&v, ja, jb, &key);
                proof {
                    lemma_points_push(ls.subrange(i as int, j as int), ls[j as int], rf);
                    assert(ls.subrange(i as int, j as int).push(ls[j as int]) =~= ls.subrange(
                        i as int,
                        j + 1,
                    ));
                }
                owned = owned || here;
                let (ta, tb) = trim_range(&v, ja, jb);
                if chars_eq(&v[ta..tb], &close_tag) {
                    assert(is_close_line(ls[j as int]));
                    break;
                }
                assert(!is_close_line(ls[j as int]));
                proof {
                    lemma_block_end(ls, j + 1);
                }
                assert(j + 1 < spans@.len());
                j = j + 1;
            }
            if owned {
                skip_to = Some(j + 1);
            }
        }
        match skip_to {
            Some(next) => {
                i = next;
            },
            None => {
                let ghost old_done = done;
                push_line(&mut out, first, &v, a, b);
                proof {
                    lemma_join_lines_push(old_done, ls[i as int]);
                    done = done.push(ls[i as int]);
                    assert(old_done + (seq![ls[i as int]] + kept_lines_from(ls, rf, i + 1))
                        =~= done + kept_lines_from(ls, rf, i + 1));
                }
                first = false;
                i = i + 1;
            },
        }
    }
    proof {
        assert(done + kept_lines_from(ls, rf, i as int) =~= done);
    }
    out
}

} // verus!

verus! {

// ---------------------------------------------------------------------------
// Finding the virtual host of a deployment
// ---------------------------------------------------------------------------

pub open spec fn back_slashes(s: Seq<char>) -> Seq<char> {
    s.map_values(|c: char| if c == '/' { '\\' } else { c })
}

/// Whether a virtual host belongs to deployment `name`: its domain is
/// `<name>.test`, its root (with `\` separators, trailing separators ignored)
/// is `<xampp_root>\htdocs\<name>` up to ASCII case, or its root mentions
/// `name`.
pub open spec fn vhost_matches(
    e: (Seq<char>, Seq<char>, u16, bool),
    name: Seq<char>,
    xampp_root: Seq<char>,
) -> bool {
    let root = back_slashes(e.1);
    let expected = xampp_root + "\\htdocs\\"@ + name;
    let seps = in_set(seq!['/', '\\']);
    e.0 == name + ".test"@ || ascii_lower(trim_end_by(root, seps)) == ascii_lower(
        trim_end_by(expected, seps),
    ) || contains(root, name)
}

/// The first virtual host from position `i` on that belongs to `name`.
pub open spec fn first_vhost_from(
    es: Seq<(Seq<char>, Seq<char>, u16, bool)>,
    name: Seq<char>,
    xampp_root: Seq<char>,
    i: int,
) -> Option<(Seq<char>, Seq<char>, u16, bool)>
    decreases es.len() - i,
{
    if i < 0 || i >= es.len() {
        None
    } else if vhost_matches(es[i], name, xampp_root) {
        Some(es[i])
    } else {
        first_vhost_from(es, name, xampp_root, i + 1)
    }
}

fn copy_entry(e: &VhostEntry) -> (r: VhostEntry)
    ensures
        vhost_view(r) == vhost_view(*e),
{
    VhostEntry { domain: e.domain.clone(), root: e.root.clone(), port: e.port, ssl: e.ssl }
}

fn to_back_slashes(s: &str) -> (r: Vec<char>)
    ensures
        r@ == back_slashes(s@),
{
    let v = chars_of(s);
    let mut w: Vec<char> = Vec::new();
    let mut i: usize = 0;
    while i < v.len()
        invariant
            i <= v@.len(),
            w@ == back_slashes(v@).take(i as int),
        decreases v@.len() - i,
    {
        w.push(if v[i] == '/' { '\\' } else { v[i] });
        assert(w@ =~= back_slashes(v@).take(i + 1));
        i = i + 1;
    }
    assert(w@ =~= back_slashes(s@));
    w
}

/// The virtual host of deployment `name` among those of the
/// `httpd-vhosts.conf` text `content` (see `vhost_matches`).
pub fn vhost_for_deployment(content: &str, name: &str, xampp_root: &str) -> (r: Option<VhostEntry>)
    ensures
        match r {
            Some(e) => first_vhost_from(vhosts_of(content@), name@, xampp_root@, 0) == Some(
                vhost_view(e),
            ),
            None => first_vhost_from(vhosts_of(content@), name@, xampp_root@, 0) is None,
        },
{
    let entries = list_vhosts(content);
    let ghost es = vhosts_of(content@);
    let name_v = chars_of(name);
    let mut test_domain = String::from_str(name);
    test_domain.append(".test");
    let test_v = chars_of(test_domain.as_str());
    let mut expected = String::from_str(xampp_root);
    expected.append("\\htdocs\\");
    expected.append(name);
    let ev = chars_of(expected.as_str());
    let seps = ['/', '\\'];
    assert(seps@ =~= seq!['/', '\\']);
    let ee = skip_set_back(&ev, 0, ev.len(), &seps);
    assert(ev@.subrange(0, ev@.len() as int) =~= ev@);
    let mut i: usize = 0;
    while i < entries.len()
        invariant
            i <= entries@.len(),
            es == vhosts_of(content@),
            entries@.len() == es.len(),
            forall|k: int| 0 <= k < entries@.len() ==> vhost_view(#[trigger] entries@[k]) == es[k],
            first_vhost_from(es, name@, xampp_root@, 0) == first_vhost_from(
                es,
                name@,
                xampp_root@,
                i as int,
            ),
            name_v@ == name@,
            test_v@ == name@ + ".test"@,
            ev@ == xampp_root@ + "\\htdocs\\"@ + name@,
            seps@ == seq!['/', '\\'],
            ee <= ev@.len(),
            ev@.subrange(0, ee as int) == trim_end_by(ev@, in_set(seps@)),
        decreases entries@.len() - i,
    {
        let e = &entries[i];
        let root = to_back_slashes(e.root.as_str());
        let re = skip_set_back(&root, 0, root.len(), &seps);
        assert(root@.subrange(0, root@.len() as int) =~= root@);
        let is_match = chars_eq(&chars_of(e.domain.as_str()), &test_v) || eq_ignore_ascii_case(
            &root[0..re],
            &ev[0..ee],
        ) || contains_exec(&root, &name_v);
        assert(is_match == vhost_matches(es[i as int], name@, xampp_root@));
        if is_match {
            return Some(copy_entry(e));
        }
        i = i + 1;
    }
    None
}

// ---------------------------------------------------------------------------
// Hosts file
// ---------------------------------------------------------------------------

/// The lines among the first `n` of `ls` that do not mention `xamppify:`.
pub open spec fn unmarked_lines(ls: Seq<Seq<char>>, n: int) -> Seq<Seq<char>>
    decreases n,
{
    if n <= 0 {
        Seq::empty()
    } else if contains(ls[n - 1], "xamppify:"@) {
        unmarked_lines(ls, n - 1)
    } else {
        unmarked_lines(ls, n - 1).push(ls[n - 1])
    }
}

/// The hosts-file text without the lines this application added.
pub open spec fn hosts_without_marks(content: Seq<char>) -> Seq<char> {
    join_lines(unmarked_lines(lines(content), lines(content).len() as int))
}

/// The new hosts-file text: the lines this application added are dropped and,
/// for a domain, one line `127.0.0.1 <domain> # xamppify:<domain>` is added.
pub open spec fn hosts_update(content: Seq<char>, domain: Option<Seq<char>>) -> Result<
    Seq<char>,
    Seq<char>,
> {
    match domain {
        Some(d) => match sanitized_domain(d) {
            Ok(d) => Ok(
                hosts_without_marks(content) + seq!['\n'] + "127.0.0.1 "@ + d + " # "@
                    + "xamppify:"@ + d + seq!['\n'],
            ),
            Err(e) => Err(e),
        },
        None => Ok(hosts_without_marks(content)),
    }
}

/// The kept lines carry no mark.
proof fn lemma_unmarked_lines(ls: Seq<Seq<char>>, n: int)
    ensures
        forall|i: int|
            0 <= i < unmarked_lines(ls, n).len() ==> !contains(
                #[trigger] unmarked_lines(ls, n)[i],
                "xamppify:"@,
            ),
    decreases n,
{
    if n > 0 {
        lemma_unmarked_lines(ls, n - 1);
        let prev = unmarked_lines(ls, n - 1);
        if !contains(ls[n - 1], "xamppify:"@) {
            assert forall|i: int|
                0 <= i < unmarked_lines(ls, n).len() implies !contains(
                #[trigger] unmarked_lines(ls, n)[i],
                "xamppify:"@,
            ) by {
                if i < prev.len() {
                    assert(unmarked_lines(ls, n)[i] == prev[i]);
                }
            }
        }
    }
}

/// Updating the hosts file keeps none of the lines this application added
/// before: what remains of the old text carries no `xamppify:` mark anywhere,
/// removing returns just that text, and adding puts the one new marked entry
/// after it.
pub proof fn law_hosts_marks_replaced(content: Seq<char>, domain: Option<Seq<char>>)
    ensures
        !contains(hosts_without_marks(content), "xamppify:"@),
        hosts_update(content, None) == Ok::<Seq<char>, Seq<char>>(hosts_without_marks(content)),
        hosts_update(content, domain) matches Ok(c) ==> c.len() >= hosts_without_marks(content).len()
            && c.subrange(0, hosts_without_marks(content).len() as int) == hosts_without_marks(
            content,
        ),
{
    reveal_strlit("xamppify:");
    let ls = lines(content);
    lemma_unmarked_lines(ls, ls.len() as int);
    let m = "xamppify:"@;
    assert(!has_char(m, '\n'));
    crate::text::lemma_join_lines_avoids(unmarked_lines(ls, ls.len() as int), m);
    let h = hosts_without_marks(content);
    if let Ok(c) = hosts_update(content, domain) {
        assert(c.subrange(0, h.len() as int) =~= h);
    }
}

fn strip_marked_lines(content: &str) -> (r: String)
    ensures
        r@ == hosts_without_marks(content@),
{
    let v = chars_of(content);
    let spans = line_spans_exec(&v);
    let ghost ls = lines(v@);
    let mark = chars_of("xamppify:");
    let mut out = String::new();
    let mut first = true;
    let mut i: usize = 0;
    while i < spans.len()
        invariant
            i <= spans@.len(),
            v@ == content@,
            ls == lines(v@),
            mark@ == "xamppify:"@,
            spans@.len() == line_spans(v@).len(),
            forall|k: int|
                0 <= k < spans@.len() ==> (#[trigger] spans@[k]).0 == line_spans(v@)[k].0
                    && spans@[k].1 == line_spans(v@)[k].1,
            forall|k: int|
                0 <= k < spans@.len() ==> (#[trigger] spans@[k]).0 <= spans@[k].1 <= v@.len(),
            out@ == join_lines(unmarked_lines(ls, i as int)),
            first == (unmarked_lines(ls, i as int).len() == 0),
        decreases spans@.len() - i,
    {
        let (a, b) = spans[i];
        assert(ls[i as int] == v@.subrange(a as int, b as int));
        if !contains_exec(&v[a..b], &mark) {
            push_line(&mut out, first, &v, a, b);
            proof {
                lemma_join_lines_push(unmarked_lines(ls, i as int), ls[i as int]);
            }
            first = false;
        }
        i = i + 1;
    }
    out
}

/// Updates the hosts-file text `content` (see `hosts_update`).
pub fn set_hosts_entry(content: &str, domain: Option<&str>) -> (r: Result<String, String>)
    ensures
        r matches Ok(c) ==> hosts_update(
            content@,
            match domain {
                Some(d) => Some(d@),
                None => None,
            },
        ) == Ok::<Seq<char>, Seq<char>>(c@),
        r matches Err(e) ==> hosts_update(
            content@,
            match domain {
                Some(d) => Some(d@),
                None => None,
            },
        ) == Err::<Seq<char>, Seq<char>>(e@),
{
    match domain {
        Some(d) => {
            let d = sanitize_domain(d)?;
            let mut c = strip_marked_lines(content);
            let ghost base = c@;
            crate::text::push(&mut c, '\n');
            assert(c@ =~= base + seq!['\n']);
            c.append("127.0.0.1 ");
            c.append(d.as_str());
            c.append(" # ");
            c.append("xamppify:");
            c.append(d.as_str());
            let ghost before = c@;
            crate::text::push(&mut c, '\n');
            assert(c@ =~= before + seq!['\n']);
            Ok(c)
        },
        None => Ok(strip_marked_lines(content)),
    }
}

/// Drops this application's lines from the hosts-file text; the domain is not
/// looked at.
pub fn remove_hosts_entry(content: &str, domain: &str) -> (r: Result<String, String>)
    ensures
        r matches Ok(c) ==> hosts_update(content@, None) == Ok::<Seq<char>, Seq<char>>(c@),
        r is Ok,
{
    let _ = domain;
    set_hosts_entry(content, None)
}

} // verus!

verus! {

/// Apache's virtual host configuration:
/// `apache\conf\extra\httpd-vhosts.conf` in the installation.
pub fn vhosts_conf_path(xampp_root: &str) -> (r: String)
    ensures
        r@ == crate::paths::join_path(
            crate::paths::join_path(
                crate::paths::join_path(crate::paths::join_path(xampp_root@, "apache"@), "conf"@),
                "extra"@,
            ),
            "httpd-vhosts.conf"@,
        ),
{
    let a = join_path_exec(xampp_root, "apache");
    let b = join_path_exec(a.as_str(), "conf");
    let c = join_path_exec(b.as_str(), "extra");
    join_path_exec(c.as_str(), "httpd-vhosts.conf")
}

/// The Windows hosts file.
pub fn hosts_file_path() -> (r: &'static str)
    ensures
        r@ == "C:\\Windows\\System32\\drivers\\etc\\hosts"@,
{
    "C:\\Windows\\System32\\drivers\\etc\\hosts"
}

/// The refusal when the installation has no virtual host configuration.
pub fn missing_vhosts_conf() -> (r: &'static str)
    ensures
        r@ == "httpd-vhosts.conf not found; XAMPP may not be installed here"@,
{
    "httpd-vhosts.conf not found; XAMPP may not be installed here"
}

} // verus!
