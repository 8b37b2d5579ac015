//! What reading `httpd-vhosts.conf` gives back after a virtual host was set.

use vstd::prelude::*;
use crate::text::{
    ascii_lower, contains, decimal, digit_char, ends_with, has_char, in_set, is_ws, lines,
    matches_at, parse_u16, starts_with, trim, trim_by, trim_end, ws_pred,
};
use crate::text_lines::{lemma_lines_append, lemma_lines_cons};
use crate::paths::join_path;
use super::{name_char_ok, validated_name};
use crate::text::join_lines;
use super::vhosts::{
    block_end, block_points_at, blocks_closed, deployment_root_forward, is_close_line, is_open_line,
    lemma_block_end, kept_lines_from, kept_vhost_lines,
    back_slashes, bind_port_text, domain_char_ok, first_vhost_from, forward_slashes,
    sanitized_domain, scan_step, scan_upto, ssl_block_text, vhost_block_text,
    vhost_matches, vhost_update, vhosts_of, VhostScan,
};

verus! {

/// The opening line of a new block.
pub open spec fn open_line(port: Seq<char>) -> Seq<char> {
    "<VirtualHost *:"@ + port + ">"@
}

/// The `ServerName` line of a new block.
pub open spec fn server_line(domain: Seq<char>) -> Seq<char> {
    "    ServerName "@ + domain
}

/// The `DocumentRoot` line of a new block.
pub open spec fn root_line(root: Seq<char>) -> Seq<char> {
    "    DocumentRoot \""@ + root + "\""@
}

/// The `<Directory>` line of a new block.
pub open spec fn directory_line(root: Seq<char>) -> Seq<char> {
    "    <Directory \""@ + root + "\">"@
}

/// The first ten lines of a new block, from the empty line before it to its
/// closing line.
pub open spec fn block_lines(port: Seq<char>, domain: Seq<char>, root: Seq<char>) -> Seq<Seq<char>> {
    seq![
        Seq::empty(),
        open_line(port),
        server_line(domain),
        root_line(root),
        directory_line(root),
        "        Options Indexes FollowSymLinks"@,
        "        AllowOverride All"@,
        "        Require all granted"@,
        "    </Directory>"@,
        "</VirtualHost>"@,
    ]
}

/// Concatenation is associative.
proof fn lemma_cat_assoc(a: Seq<char>, b: Seq<char>, c: Seq<char>)
    ensures
        (a + b) + c == a + (b + c),
{
    assert((a + b) + c =~= a + (b + c));
}

/// Regrouping the first pieces of a new block line by line.
proof fn lemma_regroup_head(nl: Seq<char>, o1: Seq<char>, port: Seq<char>, o2: Seq<char>, s1: Seq<char>, d: Seq<char>)
    ensures
        (((nl + o1) + port) + ((o2 + nl) + s1)) + d == nl + (((o1 + port) + o2) + nl + (s1 + d)),
{
    assert((((nl + o1) + port) + ((o2 + nl) + s1)) + d =~= nl + (((o1 + port) + o2) + nl + (s1
        + d)));
}

/// Regrouping the last pieces of a new block line by line.
proof fn lemma_regroup_body(
    nl: Seq<char>,
    r1: Seq<char>,
    rf: Seq<char>,
    q: Seq<char>,
    dr1: Seq<char>,
    dr2: Seq<char>,
    fixed: Seq<char>,
    r: Seq<char>,
)
    ensures
        ((((nl + r1) + rf) + ((q + nl) + dr1)) + rf) + ((dr2 + nl) + fixed) + (nl + r) == nl + (((
        r1 + rf) + q) + nl + (((dr1 + rf) + dr2) + nl + ((fixed + nl) + r))),
{
    assert(((((nl + r1) + rf) + ((q + nl) + dr1)) + rf) + ((dr2 + nl) + fixed) + (nl + r) =~= nl
        + (((r1 + rf) + q) + nl + (((dr1 + rf) + dr2) + nl + ((fixed + nl) + r))));
}

/// Moving the first piece out of a left-grouped sum.
proof fn lemma_regroup_tail(
    h: Seq<char>,
    a1: Seq<char>,
    a2: Seq<char>,
    a3: Seq<char>,
    a4: Seq<char>,
    a5: Seq<char>,
    b: Seq<char>,
    c: Seq<char>,
)
    ensures
        ((((((h + a1) + a2) + a3) + a4) + a5) + b) + c == h + (((((a1 + a2) + a3) + a4) + a5) + (b
            + c)),
{
    assert(((((((h + a1) + a2) + a3) + a4) + a5) + b) + c =~= h + (((((a1 + a2) + a3) + a4) + a5)
        + (b + c)));
}

/// Joining two parts that each start with a line break.
proof fn lemma_regroup_join(nl: Seq<char>, x1: Seq<char>, x2: Seq<char>, t: Seq<char>)
    ensures
        (nl + ((x1 + nl) + x2)) + (nl + t) == (Seq::<char>::empty() + nl) + ((x1 + nl) + ((x2 + nl)
            + t)),
{
    assert((nl + ((x1 + nl) + x2)) + (nl + t) =~= (Seq::<char>::empty() + nl) + ((x1 + nl) + ((x2
        + nl) + t)));
}

/// Regrouping the pieces of a new block line by line.
proof fn lemma_block_regroup(
    nl: Seq<char>,
    o1: Seq<char>,
    port: Seq<char>,
    o2: Seq<char>,
    s1: Seq<char>,
    d: Seq<char>,
    r1: Seq<char>,
    rf: Seq<char>,
    q: Seq<char>,
    dr1: Seq<char>,
    dr2: Seq<char>,
    fixed: Seq<char>,
    ls: Seq<char>,
    r: Seq<char>,
)
    requires
        ls + nl == nl + r,
    ensures
        (nl + o1) + port + (o2 + nl + s1) + d + (nl + r1) + rf + (q + nl + dr1) + rf + (dr2 + nl
            + fixed) + ls + nl == Seq::<char>::empty() + nl + ((o1 + port + o2) + nl + ((s1 + d)
            + nl + ((r1 + rf + q) + nl + ((dr1 + rf + dr2) + nl + (fixed + nl + r))))),
{
    let head = (nl + o1) + port + (o2 + nl + s1) + d;
    lemma_regroup_head(nl, o1, port, o2, s1, d);
    lemma_regroup_tail(head, nl + r1, rf, q + nl + dr1, rf, dr2 + nl + fixed, ls, nl);
    lemma_regroup_body(nl, r1, rf, q, dr1, dr2, fixed, r);
    let tail = (r1 + rf + q) + nl + ((dr1 + rf + dr2) + nl + (fixed + nl + r));
    lemma_regroup_join(nl, o1 + port + o2, s1 + d, tail);
}

/// The closing part of a new block, split at its line breaks.
proof fn lemma_block_fixed_lines(fixed: Seq<char>, r: Seq<char>)
    requires
        fixed == "        Options Indexes FollowSymLinks"@ + seq!['\n']
            + "        AllowOverride All"@ + seq!['\n'] + "        Require all granted"@ + seq![
            '\n',
        ] + "    </Directory>"@ + seq!['\n'] + "</VirtualHost>"@,
    ensures
        lines(fixed + seq!['\n'] + r) == seq![
            "        Options Indexes FollowSymLinks"@,
            "        AllowOverride All"@,
            "        Require all granted"@,
            "    </Directory>"@,
            "</VirtualHost>"@,
        ] + lines(r),
{
    reveal_strlit("        Options Indexes FollowSymLinks");
    reveal_strlit("        AllowOverride All");
    reveal_strlit("        Require all granted");
    reveal_strlit("    </Directory>");
    reveal_strlit("</VirtualHost>");
    let nl = seq!['\n'];
    let l5 = "        Options Indexes FollowSymLinks"@;
    let l6 = "        AllowOverride All"@;
    let l7 = "        Require all granted"@;
    let l8 = "    </Directory>"@;
    let l9 = "</VirtualHost>"@;
    let y9 = l9 + nl + r;
    let y8 = l8 + nl + y9;
    let y7 = l7 + nl + y8;
    let y6 = l6 + nl + y7;
    assert(fixed + nl + r =~= l5 + nl + y6);
    lemma_lines_cons(l9, r);
    lemma_lines_cons(l8, y9);
    lemma_lines_cons(l7, y8);
    lemma_lines_cons(l6, y7);
    lemma_lines_cons(l5, y6);
    assert(lines(fixed + nl + r) =~= seq![l5, l6, l7, l8, l9] + lines(r));
}

/// The literal pieces of a new block, split at their line breaks.
proof fn lemma_block_literals()
    ensures
        "\n<VirtualHost *:"@ == seq!['\n'] + "<VirtualHost *:"@,
        ">\n    ServerName "@ == ">"@ + seq!['\n'] + "    ServerName "@,
        "\n    DocumentRoot \""@ == seq!['\n'] + "    DocumentRoot \""@,
        "\"\n    <Directory \""@ == "\""@ + seq!['\n'] + "    <Directory \""@,
        "\">\n        Options Indexes FollowSymLinks\n        AllowOverride All\n        Require all granted\n    </Directory>\n</VirtualHost>"@
            == "\">"@ + seq!['\n'] + ("        Options Indexes FollowSymLinks"@ + seq!['\n']
            + "        AllowOverride All"@ + seq!['\n'] + "        Require all granted"@ + seq![
            '\n',
        ] + "    </Directory>"@ + seq!['\n'] + "</VirtualHost>"@),
        "\n"@ == seq!['\n'],
{
    reveal_strlit("\n<VirtualHost *:");
    reveal_strlit(">\n    ServerName ");
    reveal_strlit("\n    DocumentRoot \"");
    reveal_strlit("\"\n    <Directory \"");
    reveal_strlit(
        "\">\n        Options Indexes FollowSymLinks\n        AllowOverride All\n        Require all granted\n    </Directory>\n</VirtualHost>",
    );
    reveal_strlit("\n");
    reveal_strlit("<VirtualHost *:");
    reveal_strlit(">");
    reveal_strlit("    ServerName ");
    reveal_strlit("    DocumentRoot \"");
    reveal_strlit("\"");
    reveal_strlit("    <Directory \"");
    reveal_strlit("\">");
    reveal_strlit("        Options Indexes FollowSymLinks");
    reveal_strlit("        AllowOverride All");
    reveal_strlit("        Require all granted");
    reveal_strlit("    </Directory>");
    reveal_strlit("</VirtualHost>");
    assert("\n<VirtualHost *:"@ =~= seq!['\n'] + "<VirtualHost *:"@);
    assert(">\n    ServerName "@ =~= ">"@ + seq!['\n'] + "    ServerName "@);
    assert("\n    DocumentRoot \""@ =~= seq!['\n'] + "    DocumentRoot \""@);
    assert("\"\n    <Directory \""@ =~= "\""@ + seq!['\n'] + "    <Directory \""@);
    assert("\">\n        Options Indexes FollowSymLinks\n        AllowOverride All\n        Require all granted\n    </Directory>\n</VirtualHost>"@
        =~= "\">"@ + seq!['\n'] + ("        Options Indexes FollowSymLinks"@ + seq!['\n']
        + "        AllowOverride All"@ + seq!['\n'] + "        Require all granted"@ + seq![
        '\n',
    ] + "    </Directory>"@ + seq!['\n'] + "</VirtualHost>"@));
    assert("\n"@ =~= seq!['\n']);
}

/// The short lines of a new block hold no line break and do not end in `'\r'`.
proof fn lemma_block_line_ends(port: Seq<char>, domain: Seq<char>, root: Seq<char>)
    requires
        !has_char(port, '\n'),
        !has_char(domain, '\n'),
        !has_char(root, '\n'),
        domain.len() > 0 && domain.last() != '\r',
    ensures
        !has_char(open_line(port), '\n') && open_line(port).last() == '>',
        !has_char(server_line(domain), '\n') && server_line(domain).last() == domain.last(),
        !has_char(root_line(root), '\n') && root_line(root).last() == '"',
        !has_char(directory_line(root), '\n') && directory_line(root).last() == '>',
{
    reveal_strlit("<VirtualHost *:");
    reveal_strlit(">");
    reveal_strlit("    ServerName ");
    reveal_strlit("    DocumentRoot \"");
    reveal_strlit("\"");
    reveal_strlit("    <Directory \"");
    reveal_strlit("\">");
    let a = open_line(port);
    assert forall|i: int| 0 <= i < a.len() implies a[i] != '\n' by {
        if 15 <= i < 15 + port.len() {
            assert(a[i] == port[i - 15]);
        }
    }
    let b = server_line(domain);
    assert forall|i: int| 0 <= i < b.len() implies b[i] != '\n' by {
        if 15 <= i {
            assert(b[i] == domain[i - 15]);
        }
    }
    let c = root_line(root);
    assert forall|i: int| 0 <= i < c.len() implies c[i] != '\n' by {
        if 18 <= i < 18 + root.len() {
            assert(c[i] == root[i - 18]);
        }
    }
    let e = directory_line(root);
    assert forall|i: int| 0 <= i < e.len() implies e[i] != '\n' by {
        if 16 <= i < 16 + root.len() {
            assert(e[i] == root[i - 16]);
        }
    }
}

/// The lines of a new block: the ten lines of `block_lines`, then the lines
/// of what follows its closing line.
pub proof fn lemma_block_lines(port: Seq<char>, domain: Seq<char>, root: Seq<char>, listen_ssl: Seq<char>)
    requires
        !has_char(port, '\n'),
        !has_char(domain, '\n'),
        !has_char(root, '\n'),
        domain.len() > 0 && domain.last() != '\r',
        listen_ssl.len() == 0 || listen_ssl[0] == '\n',
    ensures
        lines(vhost_block_text(port, domain, root, listen_ssl)) == block_lines(port, domain, root)
            + lines((listen_ssl + "\n"@).subrange(1, listen_ssl.len() + 1int)),
{
    lemma_block_literals();
    lemma_block_line_ends(port, domain, root);
    let nl = seq!['\n'];
    let tail = listen_ssl + "\n"@;
    let r = tail.subrange(1, listen_ssl.len() + 1int);
    assert(listen_ssl + nl =~= nl + r);
    let fixed = "        Options Indexes FollowSymLinks"@ + seq!['\n'] + "        AllowOverride All"@
        + seq!['\n'] + "        Require all granted"@ + seq!['\n'] + "    </Directory>"@ + seq![
        '\n',
    ] + "</VirtualHost>"@;
    lemma_block_regroup(
        nl,
        "<VirtualHost *:"@,
        port,
        ">"@,
        "    ServerName "@,
        domain,
        "    DocumentRoot \""@,
        root,
        "\""@,
        "    <Directory \""@,
        "\">"@,
        fixed,
        listen_ssl,
        r,
    );
    let y5 = fixed + nl + r;
    let y4 = directory_line(root) + nl + y5;
    let y3 = root_line(root) + nl + y4;
    let y2 = server_line(domain) + nl + y3;
    let y1 = open_line(port) + nl + y2;
    let y0 = Seq::<char>::empty() + nl + y1;
    assert(vhost_block_text(port, domain, root, listen_ssl) == y0);
    lemma_block_fixed_lines(fixed, r);
    lemma_lines_cons(directory_line(root), y5);
    lemma_lines_cons(root_line(root), y4);
    lemma_lines_cons(server_line(domain), y3);
    lemma_lines_cons(open_line(port), y2);
    assert(!has_char(Seq::<char>::empty(), '\n'));
    lemma_lines_cons(Seq::<char>::empty(), y1);
    assert(lines(y0) =~= block_lines(port, domain, root) + lines(r));
}

// ---------------------------------------------------------------------------
// Reading lines one after another
// ---------------------------------------------------------------------------

/// The reading state after the lines `ls`, read in order from `st`.
pub open spec fn scan_lines(st: VhostScan, ls: Seq<Seq<char>>) -> VhostScan
    decreases ls.len(),
{
    if ls.len() == 0 {
        st
    } else {
        scan_lines(scan_step(st, ls[0]), ls.subrange(1, ls.len() as int))
    }
}

proof fn lemma_scan_lines_push(st: VhostScan, xs: Seq<Seq<char>>, x: Seq<char>)
    ensures
        scan_lines(st, xs.push(x)) == scan_step(scan_lines(st, xs), x),
    decreases xs.len(),
{
    if xs.len() > 0 {
        assert(xs.push(x).subrange(1, xs.len() + 1int) =~= xs.subrange(1, xs.len() as int).push(x));
        assert(xs.push(x)[0] == xs[0]);
        lemma_scan_lines_push(scan_step(st, xs[0]), xs.subrange(1, xs.len() as int), x);
    } else {
        assert(xs.push(x).subrange(1, 1) =~= Seq::<Seq<char>>::empty());
        assert(xs.push(x)[0] == x);
        assert(scan_lines(scan_step(st, x), Seq::<Seq<char>>::empty()) == scan_step(st, x));
        assert(xs =~= Seq::<Seq<char>>::empty());
    }
}

/// Reading the first `k + m` lines is reading the first `k`, then the next `m`.
proof fn lemma_scan_upto_split(ls: Seq<Seq<char>>, k: int, m: int)
    requires
        0 <= k,
        0 <= m,
        k + m <= ls.len(),
    ensures
        scan_upto(ls, k + m) == scan_lines(scan_upto(ls, k), ls.subrange(k, k + m)),
    decreases m,
{
    if m == 0 {
        assert(ls.subrange(k, k) =~= Seq::<Seq<char>>::empty());
    } else {
        lemma_scan_upto_split(ls, k, m - 1);
        assert(ls.subrange(k, k + m) =~= ls.subrange(k, k + m - 1).push(ls[k + m - 1]));
        lemma_scan_lines_push(scan_upto(ls, k), ls.subrange(k, k + m - 1), ls[k + m - 1]);
    }
}

proof fn lemma_scan_lines_concat(st: VhostScan, a: Seq<Seq<char>>, b: Seq<Seq<char>>)
    ensures
        scan_lines(st, a + b) == scan_lines(scan_lines(st, a), b),
    decreases a.len(),
{
    if a.len() > 0 {
        assert((a + b).subrange(1, (a + b).len() as int) =~= a.subrange(1, a.len() as int) + b);
        assert((a + b)[0] == a[0]);
        lemma_scan_lines_concat(scan_step(st, a[0]), a.subrange(1, a.len() as int), b);
    } else {
        assert(a + b =~= b);
    }
}

/// Reading lines only ever adds entries after those found before.
proof fn lemma_scan_lines_grows(st: VhostScan, ls: Seq<Seq<char>>)
    ensures
        st.entries.len() <= scan_lines(st, ls).entries.len(),
        forall|i: int|
            0 <= i < st.entries.len() ==> #[trigger] scan_lines(st, ls).entries[i] == st.entries[i],
    decreases ls.len(),
{
    if ls.len() > 0 {
        let st1 = scan_step(st, ls[0]);
        assert(st.entries.len() <= st1.entries.len());
        assert(forall|i: int| 0 <= i < st.entries.len() ==> #[trigger] st1.entries[i] == st.entries[i]);
        lemma_scan_lines_grows(st1, ls.subrange(1, ls.len() as int));
    }
}

/// One step of `scan_lines` at position `i`.
proof fn lemma_scan_lines_from(st: VhostScan, ls: Seq<Seq<char>>, i: int)
    requires
        0 <= i < ls.len(),
    ensures
        scan_lines(st, ls.subrange(i, ls.len() as int)) == scan_lines(
            scan_step(st, ls[i]),
            ls.subrange(i + 1, ls.len() as int),
        ),
{
    let t = ls.subrange(i, ls.len() as int);
    assert(t.subrange(1, t.len() as int) =~= ls.subrange(i + 1, ls.len() as int));
    assert(t[0] == ls[i]);
}

// ---------------------------------------------------------------------------
// The lines of a new block, one by one
// ---------------------------------------------------------------------------

/// Trimming a line that is `pad` (whitespace) and then `t`, which starts and
/// ends with other characters, gives `t`.
proof fn lemma_trim_padded(pad: Seq<char>, t: Seq<char>)
    requires
        t.len() > 0,
        !is_ws(t[0]),
        !is_ws(t.last()),
        forall|i: int| 0 <= i < pad.len() ==> is_ws(#[trigger] pad[i]),
    ensures
        trim(pad + t) == t,
{
    let s = pad + t;
    assert forall|j: int| 0 <= j < pad.len() implies #[trigger] ws_pred()(s[j]) by {
        assert(s[j] == pad[j]);
    }
    assert(s[pad.len() as int] == t[0]);
    crate::text::lemma_lead_count_unique(s, ws_pred(), pad.len() as int);
    let u = crate::text::trim_start_by(s, ws_pred());
    assert(u =~= t);
    crate::text::lemma_trail_count_unique(t, ws_pred(), 0);
    assert(crate::text::trim_end_by(t, ws_pred()) =~= t);
}

/// A line that is none of the lines the reading looks at leaves an open block
/// as it is.
proof fn lemma_step_other(st: VhostScan, l: Seq<char>)
    requires
        st.in_block,
        trim(l).len() > 1,
        trim(l)[0] != 'S',
        trim(l)[0] != 'D',
        trim(l)[0] != '<' || trim(l)[1] != 'V',
        trim(l)[0] != '<' || trim(l)[1] != '/' || trim(l).len() != 14,
    ensures
        scan_step(st, l) == st,
{
    reveal_strlit("<VirtualHost");
    reveal_strlit("ServerName ");
    reveal_strlit("DocumentRoot ");
    reveal_strlit("</VirtualHost>");
    let t = trim(l);
    if starts_with(t, "<VirtualHost"@) {
        assert(t.subrange(0, 12)[0] == t[0]);
        assert(t.subrange(0, 12)[1] == t[1]);
    }
    if starts_with(t, "ServerName "@) {
        assert(t.subrange(0, 11)[0] == t[0]);
    }
    if starts_with(t, "DocumentRoot "@) {
        assert(t.subrange(0, 13)[0] == t[0]);
    }
    if t == "</VirtualHost>"@ {
        assert(t[0] == '<' && t[1] == '/');
    }
}

/// The port that the reading takes from an opening line.
pub open spec fn open_port(port: Seq<char>) -> u16 {
    match parse_u16(bind_port_text(open_line(port))) {
        Some(p) => p,
        None => 80u16,
    }
}

/// The root that the reading takes from a `DocumentRoot` line.
pub open spec fn read_root(root: Seq<char>) -> Seq<char> {
    trim_by("\""@ + root + "\""@, in_set(seq!['"']))
}

/// An empty line adds no virtual host.
proof fn lemma_step_blank(st: VhostScan)
    ensures
        scan_step(st, Seq::empty()).entries == st.entries,
{
    reveal_strlit("</VirtualHost>");
    let t = trim(Seq::<char>::empty());
    assert(t.len() == 0);
}

/// An opening line starts a block.
proof fn lemma_step_open(st: VhostScan, port: Seq<char>)
    ensures
        scan_step(st, open_line(port)) == (VhostScan {
            in_block: true,
            domain: Seq::empty(),
            root: Seq::empty(),
            port: open_port(port),
            ssl: open_port(port) == 443,
            entries: st.entries,
        }),
{
    reveal_strlit("<VirtualHost *:");
    reveal_strlit(">");
    reveal_strlit("<VirtualHost");
    let l = open_line(port);
    assert(l[0] == '<');
    assert(l.last() == '>');
    assert(Seq::<char>::empty() + l =~= l);
    lemma_trim_padded(Seq::<char>::empty(), l);
    assert(l.subrange(0, 12) =~= "<VirtualHost"@);
}

/// A `ServerName` line inside a block sets the block's domain.
proof fn lemma_step_server(st: VhostScan, domain: Seq<char>)
    requires
        st.in_block,
        domain.len() > 0,
        !is_ws(domain[0]),
        !is_ws(domain.last()),
    ensures
        scan_step(st, server_line(domain)) == (VhostScan {
            in_block: true,
            domain: domain,
            ..st
        }),
{
    reveal_strlit("    ServerName ");
    reveal_strlit("ServerName ");
    reveal_strlit("<VirtualHost");
    reveal_strlit("DocumentRoot ");
    reveal_strlit("</VirtualHost>");
    let t = "ServerName "@ + domain;
    assert(server_line(domain) =~= "    "@ + t) by {
        reveal_strlit("    ");
    }
    reveal_strlit("    ");
    lemma_trim_padded("    "@, t);
    assert(t.subrange(0, 11) =~= "ServerName "@);
    assert(t.subrange(11, t.len() as int) =~= domain);
    assert(Seq::<char>::empty() + domain =~= domain);
    lemma_trim_padded(Seq::<char>::empty(), domain);
    if starts_with(t, "<VirtualHost"@) {
        assert(t.subrange(0, 12)[0] == t[0]);
    }
    if starts_with(t, "DocumentRoot "@) {
        assert(t.subrange(0, 13)[0] == t[0]);
    }
    if t == "</VirtualHost>"@ {
        assert(t[0] == '<');
    }
}

/// A `DocumentRoot` line inside a block sets the block's root.
proof fn lemma_step_root(st: VhostScan, root: Seq<char>)
    requires
        st.in_block,
    ensures
        scan_step(st, root_line(root)) == (VhostScan {
            in_block: true,
            root: read_root(root),
            ..st
        }),
{
    reveal_strlit("    DocumentRoot \"");
    reveal_strlit("DocumentRoot ");
    reveal_strlit("ServerName ");
    reveal_strlit("<VirtualHost");
    reveal_strlit("</VirtualHost>");
    reveal_strlit("\"");
    reveal_strlit("    ");
    let q = "\""@ + root + "\""@;
    let t = "DocumentRoot "@ + q;
    assert(root_line(root) =~= "    "@ + t);
    lemma_trim_padded("    "@, t);
    assert(t.subrange(0, 13) =~= "DocumentRoot "@);
    assert(t.subrange(13, t.len() as int) =~= q);
    assert(Seq::<char>::empty() + q =~= q);
    lemma_trim_padded(Seq::<char>::empty(), q);
    if starts_with(t, "<VirtualHost"@) {
        assert(t.subrange(0, 12)[0] == t[0]);
    }
    if starts_with(t, "ServerName "@) {
        assert(t.subrange(0, 11)[0] == t[0]);
    }
    if t == "</VirtualHost>"@ {
        assert(t[0] == '<');
    }
}

/// The closing line of a block with a domain and a root records it.
proof fn lemma_step_close(st: VhostScan)
    requires
        st.in_block,
        st.domain.len() > 0,
        st.root.len() > 0,
    ensures
        scan_step(st, "</VirtualHost>"@).entries == st.entries.push(
            (st.domain, st.root, st.port, st.ssl),
        ),
{
    reveal_strlit("</VirtualHost>");
    reveal_strlit("<VirtualHost");
    reveal_strlit("ServerName ");
    reveal_strlit("DocumentRoot ");
    let t = "</VirtualHost>"@;
    assert(Seq::<char>::empty() + t =~= t);
    lemma_trim_padded(Seq::<char>::empty(), t);
    if starts_with(t, "<VirtualHost"@) {
        assert(t.subrange(0, 12)[1] == t[1]);
    }
    if starts_with(t, "ServerName "@) {
        assert(t.subrange(0, 11)[0] == t[0]);
    }
    if starts_with(t, "DocumentRoot "@) {
        assert(t.subrange(0, 13)[0] == t[0]);
    }
}

/// The lines inside a block that the reading passes over.
proof fn lemma_step_passed(st: VhostScan, root: Seq<char>)
    requires
        st.in_block,
    ensures
        scan_step(st, directory_line(root)) == st,
        scan_step(st, "        Options Indexes FollowSymLinks"@) == st,
        scan_step(st, "        AllowOverride All"@) == st,
        scan_step(st, "        Require all granted"@) == st,
        scan_step(st, "    </Directory>"@) == st,
{
    reveal_strlit("    <Directory \"");
    reveal_strlit("<Directory \"");
    reveal_strlit("\">");
    reveal_strlit("    ");
    reveal_strlit("        ");
    reveal_strlit("        Options Indexes FollowSymLinks");
    reveal_strlit("Options Indexes FollowSymLinks");
    reveal_strlit("        AllowOverride All");
    reveal_strlit("AllowOverride All");
    reveal_strlit("        Require all granted");
    reveal_strlit("Require all granted");
    reveal_strlit("    </Directory>");
    reveal_strlit("</Directory>");
    let t4 = "<Directory \""@ + root + "\">"@;
    assert(directory_line(root) =~= "    "@ + t4);
    lemma_trim_padded("    "@, t4);
    lemma_step_other(st, directory_line(root));
    assert("        Options Indexes FollowSymLinks"@ =~= "        "@ + "Options Indexes FollowSymLinks"@);
    lemma_trim_padded("        "@, "Options Indexes FollowSymLinks"@);
    lemma_step_other(st, "        Options Indexes FollowSymLinks"@);
    assert("        AllowOverride All"@ =~= "        "@ + "AllowOverride All"@);
    lemma_trim_padded("        "@, "AllowOverride All"@);
    lemma_step_other(st, "        AllowOverride All"@);
    assert("        Require all granted"@ =~= "        "@ + "Require all granted"@);
    lemma_trim_padded("        "@, "Require all granted"@);
    lemma_step_other(st, "        Require all granted"@);
    assert("    </Directory>"@ =~= "    "@ + "</Directory>"@);
    lemma_trim_padded("    "@, "</Directory>"@);
    lemma_step_other(st, "    </Directory>"@);
}

/// Reading the ten lines of a new block records its virtual host.
proof fn lemma_scan_block(st: VhostScan, port: Seq<char>, domain: Seq<char>, root: Seq<char>)
    requires
        domain.len() > 0,
        !is_ws(domain[0]),
        !is_ws(domain.last()),
        read_root(root).len() > 0,
    ensures
        scan_lines(st, block_lines(port, domain, root)).entries == st.entries.push(
            (domain, read_root(root), open_port(port), open_port(port) == 443),
        ),
{
    let bl = block_lines(port, domain, root);
    let n = bl.len() as int;
    assert(bl.subrange(0, n) =~= bl);
    assert(bl[0] == Seq::<char>::empty());
    assert(bl[1] == open_line(port));
    assert(bl[2] == server_line(domain));
    assert(bl[3] == root_line(root));
    assert(bl[4] == directory_line(root));
    assert(bl[5] == "        Options Indexes FollowSymLinks"@);
    assert(bl[6] == "        AllowOverride All"@);
    assert(bl[7] == "        Require all granted"@);
    assert(bl[8] == "    </Directory>"@);
    assert(bl[9] == "</VirtualHost>"@);
    let s1 = scan_step(st, bl[0]);
    lemma_scan_lines_from(st, bl, 0);
    lemma_step_blank(st);
    let s2 = scan_step(s1, bl[1]);
    lemma_scan_lines_from(s1, bl, 1);
    lemma_step_open(s1, port);
    assert(s2.in_block);
    let s3 = scan_step(s2, bl[2]);
    lemma_scan_lines_from(s2, bl, 2);
    lemma_step_server(s2, domain);
    assert(s3.in_block && s3.domain == domain && s3.entries == st.entries);
    let s4 = scan_step(s3, bl[3]);
    lemma_scan_lines_from(s3, bl, 3);
    lemma_step_root(s3, root);
    assert(s4.in_block && s4.domain == domain && s4.root == read_root(root));
    assert(s4.entries == st.entries && s4.port == open_port(port) && s4.ssl == (open_port(port) == 443));
    assert(scan_lines(st, bl) == scan_lines(s4, bl.subrange(4, n)));
    lemma_step_passed(s4, root);
    lemma_scan_lines_from(s4, bl, 4);
    lemma_scan_lines_from(s4, bl, 5);
    lemma_scan_lines_from(s4, bl, 6);
    lemma_scan_lines_from(s4, bl, 7);
    lemma_scan_lines_from(s4, bl, 8);
    assert(scan_lines(st, bl) == scan_lines(s4, bl.subrange(9, n)));
    lemma_scan_lines_from(s4, bl, 9);
    lemma_step_close(s4);
    let s10 = scan_step(s4, bl[9]);
    assert(bl.subrange(10, 10) =~= Seq::<Seq<char>>::empty());
    assert(scan_lines(s10, bl.subrange(10, 10)) == s10);
    assert(scan_lines(st, bl) == s10);
}

// ---------------------------------------------------------------------------
// The pieces that a new block is made of
// ---------------------------------------------------------------------------

/// A checked domain is one word: no line break, no whitespace at its ends.
proof fn lemma_checked_domain(dd: Seq<char>)
    requires
        sanitized_domain(dd) is Ok,
    ensures
        ({
            let d = sanitized_domain(dd)->Ok_0;
            &&& d.len() > 0
            &&& !is_ws(d[0])
            &&& !is_ws(d.last())
            &&& d.last() != '\r'
            &&& !has_char(d, '\n')
        }),
{
    let d = sanitized_domain(dd)->Ok_0;
    let c = super::vhosts::domain_core(dd);
    assert(forall|i: int| 0 <= i < c.len() ==> domain_char_ok(#[trigger] c[i]));
    assert(d == ascii_lower(c));
    assert forall|i: int| 0 <= i < d.len() implies !is_ws(#[trigger] d[i]) && d[i] != '\n' && d[i]
        != '\r' by {
        super::vhosts::lemma_lower_domain_char(c[i]);
    }
    assert(d[d.len() - 1] == d.last());
}

/// A character that a Windows folder name may hold and that the virtual host
/// text passes through unchanged: no line break, quote or separator.
pub open spec fn plain_name_char(c: char) -> bool {
    c != '\n' && c != '"' && c != '/' && c != '\\'
}

/// A deployment folder name: not empty, of such characters.
pub open spec fn folder_name_ok(name: Seq<char>) -> bool {
    name.len() > 0 && forall|i: int| 0 <= i < name.len() ==> plain_name_char(#[trigger] name[i])
}

/// Every accepted deployment name is such a folder name.
pub proof fn lemma_validated_folder_name(name: Seq<char>)
    requires
        validated_name(name) == Ok::<Seq<char>, Seq<char>>(name),
    ensures
        folder_name_ok(name),
{
    assert forall|i: int| 0 <= i < name.len() implies plain_name_char(#[trigger] name[i]) by {
        assert(name_char_ok(name[i]));
    }
}

/// A decimal number holds no line break.
proof fn lemma_decimal_one_line(n: nat)
    ensures
        !has_char(decimal(n), '\n'),
    decreases n,
{
    assert(digit_char(n % 10) != '\n');
    if n >= 10 {
        lemma_decimal_one_line(n / 10);
        let a = decimal(n / 10);
        assert forall|i: int| 0 <= i < decimal(n).len() implies decimal(n)[i] != '\n' by {
            if i < a.len() {
                assert(decimal(n)[i] == a[i]);
            }
        }
    } else {
        assert(digit_char(n) != '\n');
    }
}

/// The folder of a deployment, with `/` separators: one line that ends with
/// the deployment's name.
proof fn lemma_new_root(xampp_root: Seq<char>, name: Seq<char>)
    requires
        folder_name_ok(name),
        !has_char(xampp_root, '\n'),
    ensures
        ({
            let rf = forward_slashes(join_path(join_path(xampp_root, "htdocs"@), name));
            &&& !has_char(rf, '\n')
            &&& rf.len() >= name.len()
            &&& rf.subrange(rf.len() - name.len(), rf.len() as int) == name
        }),
{
    reveal_strlit("htdocs");
    assert(forall|i: int| 0 <= i < name.len() ==> plain_name_char(#[trigger] name[i]));
    let a = join_path(xampp_root, "htdocs"@);
    assert forall|i: int| 0 <= i < a.len() implies a[i] != '\n' by {
        if i < xampp_root.len() {
            assert(a[i] == xampp_root[i]);
        }
    }
    let j = join_path(a, name);
    assert forall|i: int| 0 <= i < j.len() implies j[i] != '\n' by {
        if i < a.len() {
            assert(j[i] == a[i]);
        } else if j.len() - name.len() <= i {
            assert(j[i] == name[i - (j.len() - name.len())]);
            assert(plain_name_char(name[i - (j.len() - name.len())]));
        }
    }
    assert(j.subrange(j.len() - name.len(), j.len() as int) =~= name);
    let rf = forward_slashes(j);
    assert forall|i: int| 0 <= i < rf.len() implies rf[i] != '\n' by {
        assert(j[i] != '\n');
    }
    assert forall|i: int| 0 <= i < name.len() implies #[trigger] rf.subrange(
        rf.len() - name.len(),
        rf.len() as int,
    )[i] == name[i] by {
        assert(j[j.len() - name.len() + i] == name[i]);
        assert(plain_name_char(name[i]));
    }
    assert(rf.subrange(rf.len() - name.len(), rf.len() as int) =~= name);
}

/// The root read back from a new block holds the deployment's name.
proof fn lemma_read_root_names(rf: Seq<char>, name: Seq<char>)
    requires
        name.len() > 0,
        forall|i: int| 0 <= i < name.len() ==> plain_name_char(#[trigger] name[i]),
        rf.len() >= name.len(),
        rf.subrange(rf.len() - name.len(), rf.len() as int) == name,
    ensures
        read_root(rf).len() > 0,
        contains(back_slashes(read_root(rf)), name),
{
    reveal_strlit("\"");
    let p = in_set(seq!['"']);
    let s = "\""@ + rf + "\""@;
    let k = rf.len() - name.len();
    crate::text::lemma_lead_count(s, p);
    let lc = crate::text::lead_count(s, p);
    assert(s[1 + k] == name[0]);
    assert(plain_name_char(name[0]));
    if lc > 1 + k {
        assert(p(s[1 + k]));
        assert(seq!['"'].contains(name[0]));
        let w = choose|w: int| 0 <= w < 1 && seq!['"'][w] == name[0];
    }
    let u = crate::text::trim_start_by(s, p);
    assert(u.len() == s.len() - lc);
    assert(u.last() == '"');
    assert(u[u.len() - 2] == name.last()) by {
        assert(u[u.len() - 2] == s[s.len() - 2]);
        assert(s[s.len() - 2] == rf.last());
        assert(rf.last() == rf.subrange(k, rf.len() as int)[name.len() - 1]);
    }
    assert(plain_name_char(name[name.len() - 1]));
    if p(u[u.len() - 2]) {
        let w = choose|w: int| 0 <= w < 1 && seq!['"'][w] == u[u.len() - 2];
    }
    assert(seq!['"'][0] == '"');
    assert(p(u[u.len() - 1]));
    crate::text::lemma_trail_count_unique(u, p, 1);
    let rr = read_root(rf);
    assert(rr =~= u.subrange(0, u.len() - 1));
    let b = back_slashes(rr);
    let at = rr.len() - name.len();
    assert(b.subrange(at, at + name.len()) =~= name) by {
        assert forall|i: int| 0 <= i < name.len() implies #[trigger] b.subrange(
            at,
            at + name.len(),
        )[i] == name[i] by {
            assert(rr[at + i] == s[lc + at + i]);
            assert(lc + at + i == 1 + k + i);
            assert(s[1 + k + i] == rf[k + i]);
            assert(rf[k + i] == rf.subrange(k, rf.len() as int)[i]);
            assert(plain_name_char(name[i]));
        }
    }
    assert(matches_at(b, name, at));
}

/// A non-empty text whose trailing whitespace is removed ends in no line break.
proof fn lemma_trim_end_no_newline(s: Seq<char>)
    ensures
        !ends_with(trim_end(s), seq!['\n']),
{
    crate::text::lemma_trail_count(s, ws_pred());
    let t = trim_end(s);
    if ends_with(t, seq!['\n']) {
        assert(t.subrange(t.len() - 1, t.len() as int)[0] == t[t.len() - 1]);
        assert(t[t.len() - 1] == s[s.len() - crate::text::trail_count(s, ws_pred()) - 1]);
    }
}

/// A deployment's virtual host is found among entries once one of them from
/// position `i` on belongs to it.
proof fn lemma_first_vhost_found(
    es: Seq<(Seq<char>, Seq<char>, u16, bool)>,
    name: Seq<char>,
    xampp_root: Seq<char>,
    i: int,
    j: int,
)
    requires
        0 <= i <= j < es.len(),
        vhost_matches(es[j], name, xampp_root),
    ensures
        first_vhost_from(es, name, xampp_root, i) is Some,
    decreases j - i,
{
    if !vhost_matches(es[i], name, xampp_root) {
        lemma_first_vhost_found(es, name, xampp_root, i + 1, j);
    }
}

/// A decimal number is a non-empty string of digits whose value is the
/// number.
proof fn lemma_decimal_value(n: nat)
    ensures
        decimal(n).len() > 0,
        forall|i: int| 0 <= i < decimal(n).len() ==> crate::text::is_digit(#[trigger] decimal(n)[i]),
        crate::text::digits_value(decimal(n)) == n,
    decreases n,
{
    let c = digit_char(n % 10);
    assert(c as u32 == n % 10 + 48);
    if n < 10 {
        let s = decimal(n);
        assert(n % 10 == n);
        assert(s[0] == c);
        assert(s.drop_last() =~= Seq::<char>::empty());
        assert(crate::text::digits_value(s.drop_last()) == 0);
        assert(crate::text::digits_value(s) == crate::text::digits_value(s.drop_last()) * 10 + ((
        s.last() as u32) - 48) as nat);
    } else {
        lemma_decimal_value(n / 10);
        let s = decimal(n);
        let a = decimal(n / 10);
        assert(s.drop_last() =~= a);
        assert(s.last() == c);
        assert forall|i: int| 0 <= i < s.len() implies crate::text::is_digit(#[trigger] s[i]) by {
            if i < a.len() {
                assert(s[i] == a[i]);
            }
        }
        assert(crate::text::digits_value(s) == crate::text::digits_value(a) * 10 + ((c as u32) - 48) as nat);
        assert((n / 10) * 10 + n % 10 == n) by (nonlinear_arith);
    }
}

/// The bind text after the tag of an opening line.
proof fn lemma_open_after(p: Seq<char>)
    ensures
        crate::text::strip_prefix_all(open_line(p), "<VirtualHost "@) == seq!['*', ':'] + p + seq![
            '>',
        ],
{
    reveal_strlit("<VirtualHost *:");
    reveal_strlit(">");
    reveal_strlit("<VirtualHost ");
    let t = open_line(p);
    let after = seq!['*', ':'] + p + seq!['>'];
    assert(t.subrange(0, 13) =~= "<VirtualHost "@);
    assert(t.subrange(13, t.len() as int) =~= after);
    assert(!starts_with(after, "<VirtualHost "@)) by {
        if starts_with(after, "<VirtualHost "@) {
            assert(after.subrange(0, 13)[0] == after[0]);
        }
    }
    reveal_with_fuel(crate::text::strip_prefix_all, 2);
}

/// The bind address of `*:<digits>>` ends before the `>`.
proof fn lemma_open_bind(p: Seq<char>)
    requires
        forall|i: int| 0 <= i < p.len() ==> crate::text::is_digit(#[trigger] p[i]),
    ensures
        ({
            let after = seq!['*', ':'] + p + seq!['>'];
            after.take(crate::text::find_from(after, '>', 0)) == seq!['*', ':'] + p
        }),
{
    let after = seq!['*', ':'] + p + seq!['>'];
    crate::text::lemma_find_from(after, '>', 0);
    let g = crate::text::find_from(after, '>', 0);
    assert(after[0] == '*' && after[1] == ':');
    assert(after[after.len() - 1] == '>');
    if g < after.len() - 1 {
        if g >= 2 {
            assert(after[g] == p[g - 2]);
            assert(crate::text::is_digit(p[g - 2]));
        }
    }
    assert(g == after.len() - 1);
    assert(after.take(g) =~= seq!['*', ':'] + p);
}

/// The port text after the last `:` of `*:<digits>` is the digits, with
/// nothing to trim.
proof fn lemma_open_part(p: Seq<char>)
    requires
        forall|i: int| 0 <= i < p.len() ==> crate::text::is_digit(#[trigger] p[i]),
    ensures
        ({
            let bind = seq!['*', ':'] + p;
            let part = bind.skip(crate::text::rfind_before(bind, ':', bind.len() as int) + 1);
            trim_by(part, in_set(seq!['*', ' ', ':', ']', '['])) == p
        }),
{
    let bind = seq!['*', ':'] + p;
    assert(bind[1] == ':');
    assert forall|j: int| 1 < j < bind.len() implies bind[j] != ':' by {
        assert(bind[j] == p[j - 2]);
        assert(crate::text::is_digit(p[j - 2]));
    }
    crate::ssl_manager::lemma_rfind_before_at(bind, ':', bind.len() as int, 1);
    let part = bind.skip(2);
    assert(part =~= p);
    let set = in_set(seq!['*', ' ', ':', ']', '[']);
    assert forall|j: int| 0 <= j < p.len() implies !set(#[trigger] p[j]) by {
        assert(crate::text::is_digit(p[j]));
        if set(p[j]) {
            let w = choose|w: int| 0 <= w < 5 && seq!['*', ' ', ':', ']', '['][w] == p[j];
        }
    }
    crate::text::lemma_lead_count_unique(p, set, 0);
    assert(crate::text::trim_start_by(p, set) =~= p);
    crate::text::lemma_trail_count_unique(p, set, 0);
    assert(trim_by(p, set) =~= p);
}

/// The port read back from an opening line is the port written in it.
proof fn lemma_open_port(port: u16)
    ensures
        open_port(decimal(port as nat)) == port,
{
    let p = decimal(port as nat);
    lemma_decimal_value(port as nat);
    lemma_open_after(p);
    lemma_open_bind(p);
    lemma_open_part(p);
    assert(bind_port_text(open_line(p)) == p);
}

/// A deployment's folder neither starts nor ends with a quote when the
/// installation path does not start with one.
proof fn lemma_root_ends(xampp_root: Seq<char>, name: Seq<char>)
    requires
        folder_name_ok(name),
        xampp_root.len() == 0 || xampp_root[0] != '"',
    ensures
        ({
            let rf = forward_slashes(join_path(join_path(xampp_root, "htdocs"@), name));
            rf.len() > 0 && rf[0] != '"' && rf.last() != '"'
        }),
{
    reveal_strlit("htdocs");
    assert(forall|i: int| 0 <= i < name.len() ==> plain_name_char(#[trigger] name[i]));
    let a = join_path(xampp_root, "htdocs"@);
    let j = join_path(a, name);
    assert(a.len() > 0);
    if xampp_root.len() > 0 {
        assert(a[0] == xampp_root[0]);
    } else {
        assert(a[0] == 'h');
    }
    assert(j[0] == a[0]);
    assert(j.last() == name.last());
    assert(plain_name_char(name[name.len() - 1]));
    let rf = forward_slashes(j);
    assert(rf[0] == (if j[0] == '\\' { '/' } else { j[0] }));
    assert(rf.last() == (if j.last() == '\\' { '/' } else { j.last() }));
}

/// A root that neither starts nor ends with a quote is read back as it is.
proof fn lemma_read_root_plain(rf: Seq<char>)
    requires
        rf.len() > 0,
        rf[0] != '"',
        rf.last() != '"',
    ensures
        read_root(rf) == rf,
{
    reveal_strlit("\"");
    let p = in_set(seq!['"']);
    let s = "\""@ + rf + "\""@;
    assert(seq!['"'][0] == '"');
    assert(p(s[0]));
    assert(s[1] == rf[0]);
    if p(s[1]) {
        let w = choose|w: int| 0 <= w < 1 && seq!['"'][w] == s[1];
    }
    crate::text::lemma_lead_count_unique(s, p, 1);
    let u = crate::text::trim_start_by(s, p);
    assert(u =~= rf + "\""@);
    assert(u[u.len() - 2] == rf.last());
    if p(u[u.len() - 2]) {
        let w = choose|w: int| 0 <= w < 1 && seq!['"'][w] == u[u.len() - 2];
    }
    assert(p(u[u.len() - 1]));
    crate::text::lemma_trail_count_unique(u, p, 1);
    assert(read_root(rf) =~= rf);
}

// ---------------------------------------------------------------------------
// The law
// ---------------------------------------------------------------------------

/// Law: once the virtual host of a deployment is set for a domain, reading the
/// virtual hosts of the text that was written finds one for that deployment;
/// and for a plain (non-SSL) block on a port other than 443, the entry read
/// back is the entry returned. This holds for every folder name Windows
/// allows and every installation path without a line break; a path that
/// starts with a quote is read back without it.
pub proof fn law_set_vhost_then_found(
    content: Seq<char>,
    name: Seq<char>,
    domain: Option<Seq<char>>,
    ssl: bool,
    apache_port: u16,
    xampp_root: Seq<char>,
)
    requires
        folder_name_ok(name),
        !has_char(xampp_root, '\n'),
    ensures
        vhost_update(content, name, domain, ssl, apache_port, xampp_root) matches Ok((c, Some(e)))
            ==> first_vhost_from(vhosts_of(c), name, xampp_root, 0) is Some,
        vhost_update(content, name, domain, ssl, apache_port, xampp_root) matches Ok((c, Some(e)))
            ==> (!ssl && apache_port != 443 && (xampp_root.len() == 0 || xampp_root[0] != '"')
            ==> vhosts_of(c).contains(e)),
{
    if let Ok((c, Some(_))) = vhost_update(content, name, domain, ssl, apache_port, xampp_root) {
        assert(forall|i: int| 0 <= i < name.len() ==> plain_name_char(#[trigger] name[i]));
        assert(name.len() > 0);
        let dd = domain->Some_0;
        lemma_checked_domain(dd);
        let d = sanitized_domain(dd)->Ok_0;
        lemma_new_root(xampp_root, name);
        let rf = forward_slashes(join_path(join_path(xampp_root, "htdocs"@), name));
        lemma_read_root_names(rf, name);
        let port = decimal(apache_port as nat);
        lemma_decimal_one_line(apache_port as nat);
        let listen_ssl = if ssl {
            ssl_block_text(d, rf, name)
        } else {
            Seq::empty()
        };
        if ssl {
            reveal_strlit("\n<IfModule ssl_module>\n<VirtualHost *:443>\n    ServerName ");
            assert(listen_ssl[0] == '\n');
        }
        let block = vhost_block_text(port, d, rf, listen_ssl);
        lemma_block_lines(port, d, rf, listen_ssl);
        let r = (listen_ssl + "\n"@).subrange(1, listen_ssl.len() + 1int);
        let kept = crate::text::join_lines(super::vhosts::kept_vhost_lines(content, name, xampp_root));
        lemma_trim_end_no_newline(kept);
        let base = kept.push('\n');
        assert(c == base + block);
        let k = lemma_lines_append(base, block);
        let lc = lines(c);
        let n = lc.len() as int;
        lemma_scan_upto_split(lc, k, n - k);
        let stk = scan_upto(lc, k);
        assert(lc.subrange(k, n) == block_lines(port, d, rf) + lines(r));
        lemma_scan_lines_concat(stk, block_lines(port, d, rf), lines(r));
        lemma_scan_block(stk, port, d, rf);
        let st1 = scan_lines(stk, block_lines(port, d, rf));
        lemma_scan_lines_grows(st1, lines(r));
        let es = vhosts_of(c);
        let at = stk.entries.len() as int;
        assert(es == scan_lines(st1, lines(r)).entries);
        assert(es[at] == st1.entries[at]);
        assert(st1.entries[at] == (d, read_root(rf), open_port(port), open_port(port) == 443));
        assert(vhost_matches(es[at], name, xampp_root));
        lemma_first_vhost_found(es, name, xampp_root, 0, at);
        if !ssl && apache_port != 443 && (xampp_root.len() == 0 || xampp_root[0] != '"') {
            lemma_open_port(apache_port);
            lemma_root_ends(xampp_root, name);
            lemma_read_root_plain(rf);
            let e = vhost_update(content, name, domain, ssl, apache_port, xampp_root)->Ok_0.1->Some_0;
            assert(es[at] == e);
        }
    }
}

// ---------------------------------------------------------------------------
// Removing a deployment's blocks
// ---------------------------------------------------------------------------

/// No block of `ls`, from an opening line to its closing line, sets
/// `DocumentRoot` to the folder `root`.
pub open spec fn no_owned_block(ls: Seq<Seq<char>>, root: Seq<char>) -> bool {
    forall|p: int|
        0 <= p < ls.len() && is_open_line(#[trigger] ls[p]) && block_end(ls, p) < ls.len()
            ==> !block_points_at(ls.subrange(p, block_end(ls, p) + 1), root)
}

/// Every block that opens at `i` or later is closed.
pub open spec fn closed_from(ls: Seq<Seq<char>>, i: int) -> bool {
    forall|j: int| i <= j < ls.len() && is_open_line(#[trigger] ls[j]) ==> block_end(ls, j) < ls.len()
}

/// Before the end of a block no line closes, and each of its lines has the
/// same end.
proof fn lemma_block_end_inside(ls: Seq<Seq<char>>, i: int, j: int)
    requires
        0 <= i <= j <= block_end(ls, i),
        block_end(ls, i) < ls.len(),
    ensures
        block_end(ls, j) == block_end(ls, i),
        j < block_end(ls, i) ==> !is_close_line(ls[j]),
    decreases j - i,
{
    lemma_block_end(ls, i);
    if j > i {
        lemma_block_end_inside(ls, i, j - 1);
        assert(!is_close_line(ls[j - 1]));
        assert(block_end(ls, j - 1) == block_end(ls, j));
    }
}

/// Looking for a block's end past a prefix looks in the rest.
proof fn lemma_block_end_shift(a: Seq<Seq<char>>, s: Seq<Seq<char>>, p: int)
    requires
        0 <= p,
    ensures
        block_end(a + s, a.len() + p) == a.len() + block_end(s, p),
    decreases s.len() - p,
{
    if p < s.len() {
        assert((a + s)[a.len() + p] == s[p]);
        if !is_close_line(s[p]) {
            lemma_block_end_shift(a, s, p + 1);
        }
    }
}

/// Inside a leading block `b`, whose only closing line is its last, every
/// line's block ends with `b`.
proof fn lemma_block_end_lead(b: Seq<Seq<char>>, k: Seq<Seq<char>>, p: int)
    requires
        0 <= p < b.len(),
        is_close_line(b.last()),
        forall|j: int| 0 <= j < b.len() - 1 ==> !is_close_line(#[trigger] b[j]),
    ensures
        block_end(b + k, p) == b.len() - 1,
    decreases b.len() - p,
{
    assert((b + k)[p] == b[p]);
    if p < b.len() - 1 {
        lemma_block_end_lead(b, k, p + 1);
    }
}

/// The lines from `j` to `e` of a block from `i` to `e` point at `root`
/// only if the whole block does.
proof fn lemma_points_tail(ls: Seq<Seq<char>>, i: int, j: int, e: int, root: Seq<char>)
    requires
        0 <= i <= j <= e < ls.len(),
        block_points_at(ls.subrange(j, e + 1), root),
    ensures
        block_points_at(ls.subrange(i, e + 1), root),
{
    let t = ls.subrange(j, e + 1);
    let w = choose|w: int| 0 <= w < t.len() && super::vhosts::line_points_at(#[trigger] t[w], root);
    assert(ls.subrange(i, e + 1)[w + j - i] == t[w]);
}

/// A block that does not point at the folder stays whole: from its opening line `j` on
/// (with `i <= j <= e`), the kept lines are the rest of the block, then the
/// lines kept after it.
proof fn lemma_kept_block(ls: Seq<Seq<char>>, root: Seq<char>, i: int, j: int)
    requires
        0 <= i <= j <= block_end(ls, i),
        block_end(ls, i) < ls.len(),
        !block_points_at(ls.subrange(i, block_end(ls, i) + 1), root),
    ensures
        kept_lines_from(ls, root, j) == ls.subrange(j, block_end(ls, i) + 1) + kept_lines_from(
            ls,
            root,
            block_end(ls, i) + 1,
        ),
    decreases block_end(ls, i) - j,
{
    let e = block_end(ls, i);
    lemma_block_end_inside(ls, i, j);
    if is_open_line(ls[j]) && block_points_at(ls.subrange(j, e + 1), root) {
        lemma_points_tail(ls, i, j, e, root);
    }
    if j < e {
        lemma_kept_block(ls, root, i, j + 1);
        assert(seq![ls[j]] + (ls.subrange(j + 1, e + 1) + kept_lines_from(ls, root, e + 1))
            =~= ls.subrange(j, e + 1) + kept_lines_from(ls, root, e + 1));
    } else {
        assert(seq![ls[j]] =~= ls.subrange(j, e + 1));
    }
}

/// Putting a line that opens no block before lines without a block of the
/// folder adds no such block.
proof fn lemma_no_owned_cons(x: Seq<char>, k: Seq<Seq<char>>, root: Seq<char>)
    requires
        !is_open_line(x),
        no_owned_block(k, root),
    ensures
        no_owned_block(seq![x] + k, root),
{
    let l = seq![x] + k;
    assert forall|p: int|
        0 <= p < l.len() && is_open_line(#[trigger] l[p]) && block_end(l, p) < l.len() implies !block_points_at(l.subrange(p, block_end(l, p) + 1), root) by {
        assert(p > 0);
        assert(l[p] == k[p - 1]);
        lemma_block_end_shift(seq![x], k, p - 1);
        lemma_block_end(k, p - 1);
        let be = block_end(k, p - 1);
        assert(l.subrange(p, block_end(l, p) + 1) =~= k.subrange(p - 1, be + 1));
    }
}

/// Putting a closed block of another folder before lines without a block of
/// the folder adds no such block.
proof fn lemma_no_owned_block_then(
    b: Seq<Seq<char>>,
    k: Seq<Seq<char>>,
    root: Seq<char>,
)
    requires
        b.len() > 0,
        is_close_line(b.last()),
        forall|j: int| 0 <= j < b.len() - 1 ==> !is_close_line(#[trigger] b[j]),
        !block_points_at(b, root),
        no_owned_block(k, root),
    ensures
        no_owned_block(b + k, root),
{
    let l = b + k;
    assert forall|p: int|
        0 <= p < l.len() && is_open_line(#[trigger] l[p]) && block_end(l, p) < l.len() implies !block_points_at(l.subrange(p, block_end(l, p) + 1), root) by {
        if p < b.len() {
            lemma_block_end_lead(b, k, p);
            assert(l.subrange(p, b.len() as int) =~= b.subrange(p, b.len() as int));
            if block_points_at(b.subrange(p, b.len() as int), root) {
                lemma_points_tail(b, 0, p, b.len() - 1, root);
                assert(b.subrange(0, b.len() as int) =~= b);
            }
        } else {
            assert(l[p] == k[p - b.len()]);
            lemma_block_end_shift(b, k, p - b.len());
            lemma_block_end(k, p - b.len());
            let be = block_end(k, p - b.len());
            assert(l.subrange(p, block_end(l, p) + 1) =~= k.subrange(p - b.len(), be + 1));
        }
    }
}

/// The kept lines from `i` on hold no block of the folder.
proof fn lemma_kept_no_owned(ls: Seq<Seq<char>>, root: Seq<char>, i: int)
    requires
        0 <= i,
        closed_from(ls, i),
    ensures
        no_owned_block(kept_lines_from(ls, root, i), root),
    decreases ls.len() - i,
{
    if i < ls.len() {
        if is_open_line(ls[i]) {
            let e = block_end(ls, i);
            lemma_block_end(ls, i);
            assert(closed_from(ls, e + 1));
            lemma_kept_no_owned(ls, root, e + 1);
            if !block_points_at(ls.subrange(i, e + 1), root) {
                lemma_kept_block(ls, root, i, i);
                let b = ls.subrange(i, e + 1);
                assert forall|j: int| 0 <= j < b.len() - 1 implies !is_close_line(#[trigger] b[j]) by {
                    lemma_block_end_inside(ls, i, i + j);
                }
                lemma_no_owned_block_then(b, kept_lines_from(ls, root, e + 1), root);
            }
        } else {
            assert(closed_from(ls, i + 1));
            lemma_kept_no_owned(ls, root, i + 1);
            lemma_no_owned_cons(ls[i], kept_lines_from(ls, root, i + 1), root);
        }
    } else {
        assert(kept_lines_from(ls, root, i).len() == 0);
    }
}

/// Law: removing a deployment's virtual hosts leaves none of its blocks:
/// among the lines that stay (the lines outside the removed blocks, in
/// order), no block from an opening line to its closing line sets
/// `DocumentRoot` to the deployment's folder. `set_vhost` writes these lines,
/// and with a domain appends the one new block after them.
pub proof fn law_removed_vhosts_gone(content: Seq<char>, name: Seq<char>, xampp_root: Seq<char>)
    requires
        blocks_closed(content),
    ensures
        no_owned_block(
            kept_vhost_lines(content, name, xampp_root),
            deployment_root_forward(xampp_root, name),
        ),
{
    lemma_kept_no_owned(lines(content), deployment_root_forward(xampp_root, name), 0);
}

proof fn lemma_nothing_removed(ls: Seq<Seq<char>>, root: Seq<char>, i: int)
    requires
        0 <= i <= ls.len(),
        no_owned_block(ls, root),
    ensures
        kept_lines_from(ls, root, i) == ls.subrange(i, ls.len() as int),
    decreases ls.len() - i,
{
    if i < ls.len() {
        lemma_nothing_removed(ls, root, i + 1);
        assert(seq![ls[i]] + ls.subrange(i + 1, ls.len() as int) =~= ls.subrange(i, ls.len() as int));
    } else {
        assert(ls.subrange(i, ls.len() as int) =~= Seq::<Seq<char>>::empty());
    }
}

/// Law: the blocks of other folders stay: when no block of the text sets
/// `DocumentRoot` to the deployment's folder, removing the deployment's
/// virtual hosts keeps every line.
pub proof fn law_other_vhosts_kept(content: Seq<char>, name: Seq<char>, xampp_root: Seq<char>)
    requires
        no_owned_block(lines(content), deployment_root_forward(xampp_root, name)),
    ensures
        kept_vhost_lines(content, name, xampp_root) == lines(content),
{
    lemma_nothing_removed(lines(content), deployment_root_forward(xampp_root, name), 0);
    assert(lines(content).subrange(0, lines(content).len() as int) =~= lines(content));
}

/// What holds of every reading state: SSL exactly on port 443, and every
/// recorded virtual host with a domain, a root, and SSL exactly on port 443.
pub open spec fn scan_sound(st: VhostScan) -> bool {
    &&& st.ssl == (st.port == 443)
    &&& forall|k: int|
        0 <= k < st.entries.len() ==> (#[trigger] st.entries[k]).0.len() > 0 && st.entries[k].1.len()
            > 0 && st.entries[k].3 == (st.entries[k].2 == 443)
}

proof fn lemma_scan_upto_sound(ls: Seq<Seq<char>>, n: int)
    requires
        0 <= n <= ls.len(),
    ensures
        scan_sound(scan_upto(ls, n)),
    decreases n,
{
    if n > 0 {
        lemma_scan_upto_sound(ls, n - 1);
        let st = scan_upto(ls, n - 1);
        let st2 = scan_step(st, ls[n - 1]);
        assert forall|k: int| 0 <= k < st2.entries.len() implies (#[trigger] st2.entries[k]).0.len()
            > 0 && st2.entries[k].1.len() > 0 && st2.entries[k].3 == (st2.entries[k].2 == 443) by {
            if k < st.entries.len() {
                assert(st2.entries[k] == st.entries[k]);
            }
        }
    }
}

/// Law: every virtual host read from `httpd-vhosts.conf` has a domain and a
/// root, and is SSL exactly when its port is 443.
pub proof fn law_listed_vhosts_complete(content: Seq<char>)
    ensures
        forall|k: int|
            0 <= k < vhosts_of(content).len() ==> (#[trigger] vhosts_of(content)[k]).0.len() > 0
                && vhosts_of(content)[k].1.len() > 0 && vhosts_of(content)[k].3 == (
            vhosts_of(content)[k].2 == 443),
{
    lemma_scan_upto_sound(lines(content), lines(content).len() as int);
}

} // verus!
