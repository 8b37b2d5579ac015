//! Copying a local folder to a remote machine's share with `robocopy`.

pub mod history;

use vstd::prelude::*;
use crate::text::{
    chars_of, contains, contains_exec, decimal, decimal_string, in_set, line_spans,
    line_spans_exec, lines, push_range, skip_set, starts_with, string_of, string_of_range,
    trim, trim_range, trim_start_by, is_ws, has_char,
};

verus! {

/// The outcome of a sync.
pub struct SyncResult {
    pub success: bool,
    pub output: String,
    pub files_copied: u64,
}

/// The outcome of checking that a remote share can be reached.
pub struct ConnectionTestResult {
    pub ping_ok: bool,
    pub smb_port_ok: bool,
    pub share_accessible: bool,
    pub unc_path: String,
    pub message: String,
    pub suggestions: Vec<String>,
}

// ---------------------------------------------------------------------------
// UNC paths
// ---------------------------------------------------------------------------

pub open spec fn slashes_to_backslashes(s: Seq<char>) -> Seq<char> {
    s.map_values(|c: char| if c == '/' { '\\' } else { c })
}

/// Whether a destination starts with a drive letter such as `C:`: its second
/// byte is `:`, which in UTF-8 means a one-byte first character and `:` second.
pub open spec fn has_drive(d: Seq<char>) -> bool {
    d.len() >= 2 && (d[0] as u32) < 128 && d[1] == ':'
}

/// The UNC path of `destination` on `remote_host` (both trimmed, `/` read as
/// `\`): a UNC path is kept; `X:\rest` becomes the administrative share
/// `\\host\X$\rest`; any other path is taken relative to the host's shares.
pub open spec fn unc_path(remote_host: Seq<char>, destination: Seq<char>) -> Seq<char> {
    let host = trim(remote_host);
    let dest = slashes_to_backslashes(trim(destination));
    let bs = in_set(seq!['\\']);
    if starts_with(dest, "\\\\"@) {
        dest
    } else if has_drive(dest) {
        "\\\\"@ + host + "\\"@ + dest.subrange(0, 1) + "$\\"@ + trim_start_by(
            dest.subrange(2, dest.len() as int),
            bs,
        )
    } else {
        "\\\\"@ + host + "\\"@ + trim_start_by(dest, bs)
    }
}

/// The last character of a trimmed, non-empty string is not whitespace, and
/// neither is its first.
proof fn lemma_trim_ends(s: Seq<char>)
    requires
        trim(s).len() > 0,
    ensures
        !is_ws(trim(s)[0]),
        !is_ws(trim(s).last()),
{
    let p = crate::text::ws_pred();
    let t1 = trim_start_by(s, p);
    crate::text::lemma_lead_count(s, p);
    crate::text::lemma_trail_count(t1, p);
    assert(trim(s)[0] == t1[0]);
    assert(t1[0] == s[crate::text::lead_count(s, p)]);
    assert(trim(s).last() == t1[t1.len() - crate::text::trail_count(t1, p) - 1]);
}

/// A string that neither starts nor ends with whitespace is its own trim.
proof fn lemma_trim_clean(u: Seq<char>)
    requires
        u.len() > 0,
        !is_ws(u[0]),
        !is_ws(u.last()),
    ensures
        trim(u) == u,
{
    let p = crate::text::ws_pred();
    crate::text::lemma_lead_count_unique(u, p, 0);
    assert(trim_start_by(u, p) =~= u);
    crate::text::lemma_trail_count_unique(u, p, 0);
    assert(trim(u) =~= u);
}

/// Law: a UNC path is kept as it is, so building the UNC path of a built one
/// changes nothing (for a host name without `/`).
pub proof fn law_unc_path_idempotent(remote_host: Seq<char>, destination: Seq<char>)
    requires
        !has_char(trim(remote_host), '/'),
    ensures
        unc_path(remote_host, unc_path(remote_host, destination)) == unc_path(
            remote_host,
            destination,
        ),
{
    let host = trim(remote_host);
    let td = trim(destination);
    let dest = slashes_to_backslashes(td);
    let u = unc_path(remote_host, destination);
    let bs = in_set(seq!['\\']);
    reveal_strlit("\\\\");
    reveal_strlit("\\");
    reveal_strlit("$\\");
    assert(!is_ws('\\'));
    if td.len() > 0 {
        lemma_trim_ends(destination);
        assert(dest.last() == (if td.last() == '/' { '\\' } else { td.last() }));
    }
    // `u` starts with two backslashes and does not end with whitespace.
    if starts_with(dest, "\\\\"@) {
        assert(u == dest);
        assert(u.subrange(0, 2)[0] == u[0]);
        assert(u.subrange(0, 2)[1] == u[1]);
        assert(!is_ws(u.last()));
    } else if has_drive(dest) {
        let rest = trim_start_by(dest.subrange(2, dest.len() as int), bs);
        crate::text::lemma_lead_count(dest.subrange(2, dest.len() as int), bs);
        let head = "\\\\"@ + host + "\\"@ + dest.subrange(0, 1) + "$\\"@;
        assert(u == head + rest);
        if rest.len() > 0 {
            assert(rest.last() == dest.last());
            assert(u.last() == rest.last());
        } else {
            assert(u.last() == head.last());
        }
        assert(!is_ws(u.last()));
        assert(u[0] == '\\' && u[1] == '\\');
    } else {
        let rest = trim_start_by(dest, bs);
        crate::text::lemma_lead_count(dest, bs);
        let head = "\\\\"@ + host + "\\"@;
        assert(u == head + rest);
        if rest.len() > 0 {
            assert(rest.last() == dest.last());
            assert(u.last() == rest.last());
        } else {
            assert(u.last() == head.last());
        }
        assert(!is_ws(u.last()));
        assert(u[0] == '\\' && u[1] == '\\');
    }
    assert(u.len() >= 2 && u[0] == '\\' && u[1] == '\\');
    assert(!is_ws(u.last()));
    lemma_trim_clean(u);
    // `u` holds no `/`: the destination's were turned into `\`, and the
    // host has none.
    assert forall|i: int| 0 <= i < u.len() implies u[i] != '/' by {
        if u[i] == '/' {
            assert(!has_char(host, '/'));
        }
    }
    assert(slashes_to_backslashes(u) =~= u);
    assert(starts_with(u, "\\\\"@)) by {
        assert(u.subrange(0, 2) =~= "\\\\"@);
    }
}

/// The UNC path of `destination` on `remote_host` (see `unc_path`).
pub fn build_unc_path(remote_host: &str, destination: &str) -> (r: String)
    ensures
        r@ == unc_path(remote_host@, destination@),
{
    let h = chars_of(remote_host);
    let (ha, hb) = trim_range(&h, 0, h.len());
    assert(h@.subrange(0, h@.len() as int) =~= h@);
    let dv = chars_of(destination);
    let (da, db) = trim_range(&dv, 0, dv.len());
    assert(dv@.subrange(0, dv@.len() as int) =~= dv@);
    let mut d: Vec<char> = Vec::new();
    let mut i = da;
    while i < db
        invariant
            da <= i <= db <= dv@.len(),
            d@ == slashes_to_backslashes(dv@.subrange(da as int, db as int)).take(i - da),
        decreases db - i,
    {
        d.push(if dv[i] == '/' { '\\' } else { dv[i] });
        assert(d@ =~= slashes_to_backslashes(dv@.subrange(da as int, db as int)).take(i - da + 1));
        i = i + 1;
    }
    assert(d@ =~= slashes_to_backslashes(trim(destination@)));
    let bs = ['\\'];
    assert(bs@ =~= seq!['\\']);
    if d.len() >= 2 && d[0] == '\\' && d[1] == '\\' {
        assert(d@.subrange(0, 2) =~= "\\\\"@) by {
            reveal_strlit("\\\\");
        }
        return string_of(&d);
    }
    proof {
        reveal_strlit("\\\\");
        if starts_with(d@, "\\\\"@) {
            assert(d@.subrange(0, 2)[0] == d@[0]);
            assert(d@.subrange(0, 2)[1] == d@[1]);
        }
    }
    let mut r = String::from_str("\\\\");
    push_range(&mut r, &h, ha, hb);
    r.append("\\");
    if d.len() >= 2 && (d[0] as u32) < 128 && d[1] == ':' {
        push_range(&mut r, &d, 0, 1);
        r.append("$\\");
        let s = skip_set(&d, 2, d.len(), &bs);
        push_range(&mut r, &d, s, d.len());
        assert(d@.subrange(s as int, d@.len() as int) =~= trim_start_by(
            d@.subrange(2, d@.len() as int),
            in_set(seq!['\\']),
        ));
    } else {
        let s = skip_set(&d, 0, d.len(), &bs);
        push_range(&mut r, &d, s, d.len());
        assert(d@.subrange(0, d@.len() as int) =~= d@);
    }
    r
}

// ---------------------------------------------------------------------------
// Robocopy results
// ---------------------------------------------------------------------------

/// Robocopy's per-file status words for items that were copied or removed.
pub open spec fn copied_statuses() -> Seq<Seq<char>> {
    seq!["New File"@, "New Dir"@, "Newer"@, "Changed"@, "Tweaked"@, "Extra"@]
}

pub open spec fn is_copied_line(l: Seq<char>) -> bool {
    exists|k: int| 0 <= k < 6 && contains(l, #[trigger] copied_statuses()[k])
}

/// Whether a robocopy line reports one of the statuses of a copied item.
pub open spec fn names_copied_status(l: Seq<char>) -> bool {
    contains(l, "New File"@) || contains(l, "New Dir"@) || contains(l, "Newer"@) || contains(
        l,
        "Changed"@,
    ) || contains(l, "Tweaked"@) || contains(l, "Extra"@)
}

/// Law: a line of robocopy's output counts as a copied item exactly when it
/// mentions `New File`, `New Dir`, `Newer`, `Changed`, `Tweaked` or `Extra`.
pub proof fn law_copied_line_statuses(l: Seq<char>)
    ensures
        is_copied_line(l) <==> names_copied_status(l),
        contains(l, "New File"@) ==> is_copied_line(l),
        contains(l, "New Dir"@) ==> is_copied_line(l),
        contains(l, "Newer"@) ==> is_copied_line(l),
        contains(l, "Changed"@) ==> is_copied_line(l),
        contains(l, "Tweaked"@) ==> is_copied_line(l),
        contains(l, "Extra"@) ==> is_copied_line(l),
{
    let s = copied_statuses();
    if names_copied_status(l) {
        if contains(l, "New File"@) {
            assert(contains(l, s[0]));
        } else if contains(l, "New Dir"@) {
            assert(contains(l, s[1]));
        } else if contains(l, "Newer"@) {
            assert(contains(l, s[2]));
        } else if contains(l, "Changed"@) {
            assert(contains(l, s[3]));
        } else if contains(l, "Tweaked"@) {
            assert(contains(l, s[4]));
        } else {
            assert(contains(l, s[5]));
        }
    }
    if is_copied_line(l) {
        let k = choose|k: int| 0 <= k < 6 && contains(l, #[trigger] s[k]);
        assert(contains(l, s[k]));
    }
}

/// The number of lines among the first `n` of `ls` that report a copied item.
pub open spec fn copied_count(ls: Seq<Seq<char>>, n: int) -> nat
    decreases n,
{
    if n <= 0 {
        0
    } else {
        copied_count(ls, n - 1) + if is_copied_line(ls[n - 1]) {
            1nat
        } else {
            0nat
        }
    }
}

pub open spec fn hint_path_not_found_text(dest_unc: Seq<char>, remote_host: Seq<char>) -> Seq<char> {
    "\n===================================================================\nDIAGNOSTIC HINT: ERROR 53 (0x00000035) - Network Path Not Found\n-------------------------------------------------------------------\nWindows could not reach UNC share '"@ + dest_unc + "'.\n\nTroubleshooting Checklist:\n1. PING: Ensure host '"@ + remote_host + "' is powered on & reachable.\n2. FIREWALL: Allow 'File and Printer Sharing (SMB-In)' on remote host.\n3. NETWORK PROFILE: Set remote network profile to 'Private'.\n4. ADMIN SHARE (C$): Run this command in Admin PowerShell on target host:\nreg add \"HKLM\\SOFTWARE\\Microsoft\\Windows\\CurrentVersion\\Policies\\System\" /v LocalAccountTokenFilterPolicy /t REG_DWORD /d 1 /f\n5. CREDENTIALS: Fill in Remote Username & Password if auth is required.\n===================================================================\n"@
}

fn hint_path_not_found(dest_unc: &str, remote_host: &str) -> (r: String)
    ensures
        r@ == hint_path_not_found_text(dest_unc@, remote_host@),
{
    let mut s = String::from_str("\n===================================================================\nDIAGNOSTIC HINT: ERROR 53 (0x00000035) - Network Path Not Found\n-------------------------------------------------------------------\nWindows could not reach UNC share '");
    s.append(dest_unc);
    s.append("'.\n\nTroubleshooting Checklist:\n1. PING: Ensure host '");
    s.append(remote_host);
    s.append("' is powered on & reachable.\n2. FIREWALL: Allow 'File and Printer Sharing (SMB-In)' on remote host.\n3. NETWORK PROFILE: Set remote network profile to 'Private'.\n4. ADMIN SHARE (C$): Run this command in Admin PowerShell on target host:\nreg add \"HKLM\\SOFTWARE\\Microsoft\\Windows\\CurrentVersion\\Policies\\System\" /v LocalAccountTokenFilterPolicy /t REG_DWORD /d 1 /f\n5. CREDENTIALS: Fill in Remote Username & Password if auth is required.\n===================================================================\n");
    s
}

pub open spec fn hint_access_denied_text(dest_unc: Seq<char>) -> Seq<char> {
    "\n===================================================================\nDIAGNOSTIC HINT: ERROR 5 (0x00000005) - Access Denied\n-------------------------------------------------------------------\nPermission denied accessing '"@ + dest_unc + "'.\n\nTroubleshooting Checklist:\n1. Fill in valid remote Administrator Username & Password.\n2. Ensure your remote account has read/write permissions to destination.\n===================================================================\n"@
}

fn hint_access_denied(dest_unc: &str) -> (r: String)
    ensures
        r@ == hint_access_denied_text(dest_unc@),
{
    let mut s = String::from_str("\n===================================================================\nDIAGNOSTIC HINT: ERROR 5 (0x00000005) - Access Denied\n-------------------------------------------------------------------\nPermission denied accessing '");
    s.append(dest_unc);
    s.append("'.\n\nTroubleshooting Checklist:\n1. Fill in valid remote Administrator Username & Password.\n2. Ensure your remote account has read/write permissions to destination.\n===================================================================\n");
    s
}

pub open spec fn hint_name_not_found_text(dest_unc: Seq<char>, remote_host: Seq<char>) -> Seq<char> {
    "\n===================================================================\nDIAGNOSTIC HINT: ERROR 67 (0x00000043) - Network Name Not Found\n-------------------------------------------------------------------\nThe share name in '"@ + dest_unc + "' does not exist on '"@ + remote_host + "'.\nCheck the folder name or administrative share (e.g. C$).\n===================================================================\n"@
}

fn hint_name_not_found(dest_unc: &str, remote_host: &str) -> (r: String)
    ensures
        r@ == hint_name_not_found_text(dest_unc@, remote_host@),
{
    let mut s = String::from_str("\n===================================================================\nDIAGNOSTIC HINT: ERROR 67 (0x00000043) - Network Name Not Found\n-------------------------------------------------------------------\nThe share name in '");
    s.append(dest_unc);
    s.append("' does not exist on '");
    s.append(remote_host);
    s.append("'.\nCheck the folder name or administrative share (e.g. C$).\n===================================================================\n");
    s
}

/// Robocopy's output with a hint for the first known error it shows, when the
/// sync failed.
pub open spec fn sync_output(
    success: bool,
    stdout: Seq<char>,
    dest_unc: Seq<char>,
    remote_host: Seq<char>,
) -> Seq<char> {
    if success {
        stdout
    } else if contains(stdout, "ERROR 53"@) || contains(stdout, "0x00000035"@) || contains(
        stdout,
        "network path was not found"@,
    ) {
        stdout + hint_path_not_found_text(dest_unc, remote_host)
    } else if contains(stdout, "ERROR 5 "@) || contains(stdout, "0x00000005"@) || contains(
        stdout,
        "Access is denied"@,
    ) {
        stdout + hint_access_denied_text(dest_unc)
    } else if contains(stdout, "ERROR 67"@) || contains(stdout, "0x00000043"@) {
        stdout + hint_name_not_found_text(dest_unc, remote_host)
    } else {
        stdout
    }
}

fn line_is_copied(v: &[char], a: usize, b: usize) -> (r: bool)
    requires
        a <= b <= v@.len(),
    ensures
        r == is_copied_line(v@.subrange(a as int, b as int)),
{
    let l = &v[a..b];
    let r = contains_exec(l, &chars_of("New File")) || contains_exec(l, &chars_of("New Dir"))
        || contains_exec(l, &chars_of("Newer")) || contains_exec(l, &chars_of("Changed"))
        || contains_exec(l, &chars_of("Tweaked")) || contains_exec(l, &chars_of("Extra"));
    proof {
        let s = copied_statuses();
        if r {
            if contains(l@, "New File"@) {
                assert(contains(l@, s[0]));
            } else if contains(l@, "New Dir"@) {
                assert(contains(l@, s[1]));
            } else if contains(l@, "Newer"@) {
                assert(contains(l@, s[2]));
            } else if contains(l@, "Changed"@) {
                assert(contains(l@, s[3]));
            } else if contains(l@, "Tweaked"@) {
                assert(contains(l@, s[4]));
            } else {
                assert(contains(l@, s[5]));
            }
        }
        if is_copied_line(l@) {
            let k = choose|k: int| 0 <= k < 6 && contains(l@, #[trigger] s[k]);
            assert(contains(l@, s[k]));
        }
    }
    r
}

/// The number of lines of robocopy's output that report a copied item.
pub fn count_copied(stdout: &str) -> (n: u64)
    ensures
        n == copied_count(lines(stdout@), lines(stdout@).len() as int),
{
    let v = chars_of(stdout);
    let spans = line_spans_exec(&v);
    let ghost ls = lines(v@);
    let mut n: u64 = 0;
    let mut i: usize = 0;
    while i < spans.len()
        invariant
            i <= spans@.len(),
            v@ == stdout@,
            ls == lines(v@),
            spans@.len() == line_spans(v@).len(),
            forall|k: int|
                0 <= k < spans@.len() ==> (#[trigger] spans@[k]).0 == line_spans(v@)[k].0
                    && spans@[k].1 == line_spans(v@)[k].1,
            forall|k: int|
                0 <= k < spans@.len() ==> (#[trigger] spans@[k]).0 <= spans@[k].1 <= v@.len(),
            n == copied_count(ls, i as int),
            n <= i,
        decreases spans@.len() - i,
    {
        let (a, b) = spans[i];
        assert(ls[i as int] == v@.subrange(a as int, b as int));
        if line_is_copied(&v, a, b) {
            n = n + 1;
        }
        i = i + 1;
    }
    n
}

/// Law: the items counted are the lines that report a copied status: the
/// count over lines is the number of lines that mention one of the six
/// statuses (see `law_copied_line_statuses`).
pub proof fn law_copied_count_is_lines_with_status(ls: Seq<Seq<char>>)
    ensures
        copied_count(ls, ls.len() as int) == ls.filter(|l: Seq<char>| names_copied_status(l)).len(),
    decreases ls.len(),
{
    reveal(Seq::filter);
    let f = |l: Seq<char>| names_copied_status(l);
    if ls.len() > 0 {
        let init = ls.drop_last();
        law_copied_count_is_lines_with_status(init);
        lemma_copied_count_prefix(ls, init, ls.len() - 1);
        law_copied_line_statuses(ls.last());
    }
}

/// The count over the first `n` lines depends only on those lines.
proof fn lemma_copied_count_prefix(ls: Seq<Seq<char>>, other: Seq<Seq<char>>, n: int)
    requires
        0 <= n <= ls.len(),
        n <= other.len(),
        forall|i: int| 0 <= i < n ==> ls[i] == other[i],
    ensures
        copied_count(ls, n) == copied_count(other, n),
    decreases n,
{
    if n > 0 {
        lemma_copied_count_prefix(ls, other, n - 1);
    }
}

/// What a sync reports, from robocopy's exit code and output: exit codes
/// below 8 are success; on success the copied items are counted, and on
/// failure the output gets a hint for the first known error.
pub fn sync_outcome(exit_code: i32, stdout: &str, dest_unc: &str, remote_host: &str) -> (r: SyncResult)
    ensures
        r.success == (exit_code < 8),
        r.files_copied == if exit_code < 8 {
            copied_count(lines(stdout@), lines(stdout@).len() as int)
        } else {
            0
        },
        r.output@ == sync_output(exit_code < 8, stdout@, dest_unc@, remote_host@),
{
    let success = exit_code < 8;
    let files_copied = if success {
        count_copied(stdout)
    } else {
        0
    };
    let mut output = String::from_str(stdout);
    if !success {
        let v = chars_of(stdout);
        if contains_exec(&v, &chars_of("ERROR 53")) || contains_exec(&v, &chars_of("0x00000035"))
            || contains_exec(&v, &chars_of("network path was not found")) {
            output.append(hint_path_not_found(dest_unc, remote_host).as_str());
        } else if contains_exec(&v, &chars_of("ERROR 5 ")) || contains_exec(
            &v,
            &chars_of("0x00000005"),
        ) || contains_exec(&v, &chars_of("Access is denied")) {
            output.append(hint_access_denied(dest_unc).as_str());
        } else if contains_exec(&v, &chars_of("ERROR 67")) || contains_exec(
            &v,
            &chars_of("0x00000043"),
        ) {
            output.append(hint_name_not_found(dest_unc, remote_host).as_str());
        }
    }
    SyncResult { success, output, files_copied }
}

// ---------------------------------------------------------------------------
// Connection test report
// ---------------------------------------------------------------------------

pub open spec fn ping_suggestion(host: Seq<char>) -> Seq<char> {
    "Host '"@ + host + "' is not responding to ping. Check if target computer is powered on and connected to the network."@
}

pub open spec fn smb_suggestion(host: Seq<char>) -> Seq<char> {
    "Port 445 (SMB) on '"@ + host + "' is closed or blocked. Ensure Windows Firewall allows 'File and Printer Sharing' and Network Profile is set to Private."@
}

pub open spec fn share_suggestion(unc: Seq<char>) -> Seq<char> {
    "SMB port 445 is open, but share '"@ + unc + "' is inaccessible. If targeting C$, run 'reg add \"HKLM\\SOFTWARE\\Microsoft\\Windows\\CurrentVersion\\Policies\\System\" /v LocalAccountTokenFilterPolicy /t REG_DWORD /d 1 /f' on target host in Admin PowerShell."@
}

/// The suggestions of a connection test, in order.
pub open spec fn connection_suggestions(
    host: Seq<char>,
    unc: Seq<char>,
    ping_ok: bool,
    smb_ok: bool,
    share_ok: bool,
) -> Seq<Seq<char>> {
    let a = if !ping_ok {
        seq![ping_suggestion(host)]
    } else {
        Seq::empty()
    };
    let b = if !smb_ok {
        seq![smb_suggestion(host)]
    } else {
        Seq::empty()
    };
    let c = if !share_ok && smb_ok {
        seq![share_suggestion(unc)]
    } else {
        Seq::empty()
    };
    a + b + c
}

/// The summary message of a connection test.
pub open spec fn connection_message(
    host: Seq<char>,
    unc: Seq<char>,
    ping_ok: bool,
    smb_ok: bool,
    share_ok: bool,
) -> Seq<char> {
    if ping_ok && smb_ok && share_ok {
        "Successfully reached UNC share "@ + unc
    } else if !ping_ok {
        "Host "@ + host + " is unreachable (Ping failed)"@
    } else if !smb_ok {
        "Host "@ + host + " reached, but SMB port 445 is blocked"@
    } else {
        "Host "@ + host + " reached, but share "@ + unc + " is inaccessible"@
    }
}

/// The report of a connection test from its three probes: the host answers
/// ping, its SMB port 445 accepts connections, the share exists.
pub fn connection_report(
    remote_host: &str,
    destination: &str,
    ping_ok: bool,
    smb_port_ok: bool,
    share_accessible: bool,
) -> (r: ConnectionTestResult)
    ensures
        r.ping_ok == ping_ok,
        r.smb_port_ok == smb_port_ok,
        r.share_accessible == share_accessible,
        r.unc_path@ == unc_path(remote_host@, destination@),
        r.message@ == connection_message(
            remote_host@,
            unc_path(remote_host@, destination@),
            ping_ok,
            smb_port_ok,
            share_accessible,
        ),
        r.suggestions@.map_values(|s: String| s@) == connection_suggestions(
            remote_host@,
            unc_path(remote_host@, destination@),
            ping_ok,
            smb_port_ok,
            share_accessible,
        ),
{
    let unc = build_unc_path(remote_host, destination);
    let mut suggestions: Vec<String> = Vec::new();
    if !ping_ok {
        let mut s = String::from_str("Host '");
        s.append(remote_host);
        s.append("' is not responding to ping. Check if target computer is powered on and connected to the network.");
        suggestions.push(s);
    }
    if !smb_port_ok {
        let mut s = String::from_str("Port 445 (SMB) on '");
        s.append(remote_host);
        s.append("' is closed or blocked. Ensure Windows Firewall allows 'File and Printer Sharing' and Network Profile is set to Private.");
        suggestions.push(s);
    }
    if !share_accessible && smb_port_ok {
        let mut s = String::from_str("SMB port 445 is open, but share '");
        s.append(unc.as_str());
        s.append("' is inaccessible. If targeting C$, run 'reg add \"HKLM\\SOFTWARE\\Microsoft\\Windows\\CurrentVersion\\Policies\\System\" /v LocalAccountTokenFilterPolicy /t REG_DWORD /d 1 /f' on target host in Admin PowerShell.");
        suggestions.push(s);
    }
    assert(suggestions@.map_values(|s: String| s@) =~= connection_suggestions(
        remote_host@,
        unc@,
        ping_ok,
        smb_port_ok,
        share_accessible,
    ));
    let message = if ping_ok && smb_port_ok && share_accessible {
        let mut m = String::from_str("Successfully reached UNC share ");
        m.append(unc.as_str());
        m
    } else if !ping_ok {
        let mut m = String::from_str("Host ");
        m.append(remote_host);
        m.append(" is unreachable (Ping failed)");
        m
    } else if !smb_port_ok {
        let mut m = String::from_str("Host ");
        m.append(remote_host);
        m.append(" reached, but SMB port 445 is blocked");
        m
    } else {
        let mut m = String::from_str("Host ");
        m.append(remote_host);
        m.append(" reached, but share ");
        m.append(unc.as_str());
        m.append(" is inaccessible");
        m
    };
    ConnectionTestResult {
        ping_ok,
        smb_port_ok,
        share_accessible,
        unc_path: unc,
        message,
        suggestions,
    }
}

} // verus!

verus! {

/// The arguments of `robocopy` that mirror `source` to the share `dest_unc`.
pub open spec fn robocopy_args_of(source: Seq<char>, dest_unc: Seq<char>) -> Seq<Seq<char>> {
    seq![source, dest_unc, "/MIR"@, "/R:2"@, "/W:2"@, "/NP"@, "/NJH"@, "/NJS"@, "/NDL"@]
}

/// The arguments of `robocopy` for a sync (see `robocopy_args_of`).
pub fn robocopy_args(source: &str, dest_unc: &str) -> (r: Vec<String>)
    ensures
        r@.map_values(|s: String| s@) == robocopy_args_of(source@, dest_unc@),
{
    let r = vec![
        String::from_str(source),
        String::from_str(dest_unc),
        String::from_str("/MIR"),
        String::from_str("/R:2"),
        String::from_str("/W:2"),
        String::from_str("/NP"),
        String::from_str("/NJH"),
        String::from_str("/NJS"),
        String::from_str("/NDL"),
    ];
    assert(r@.map_values(|s: String| s@) =~= robocopy_args_of(source@, dest_unc@));
    r
}

/// The refusal to sync a source that does not exist.
pub fn missing_source_message(source: &str) -> (r: String)
    ensures
        r@ == "Source path does not exist: "@ + source@,
{
    let mut r = String::from_str("Source path does not exist: ");
    r.append(source);
    r
}

/// The login for an SMB session, when one is opened: only when a user name
/// that is not blank is given; the host and user are trimmed, and a missing
/// password is empty.
pub fn share_login(host: &str, username: Option<&str>, password: Option<&str>) -> (r: Option<(String, String, String)>)
    ensures
        match username {
            Some(u) => if trim(u@).len() == 0 {
                r is None
            } else {
                r matches Some(l) && l.0@ == trim(host@) && l.1@ == trim(u@) && l.2@ == (match password {
                    Some(p) => p@,
                    None => Seq::<char>::empty(),
                })
            },
            None => r is None,
        },
{
    match username {
        None => None,
        Some(u) => {
            let user = crate::deployment::trimmed(u);
            if user.as_str().is_empty() {
                None
            } else {
                let h = crate::deployment::trimmed(host);
                let p = match password {
                    Some(p) => String::from_str(p),
                    None => String::new(),
                };
                Some((h, user, p))
            }
        },
    }
}

/// The arguments of `ping` that probe `host` once, waiting 1.5 s.
pub fn ping_args(host: &str) -> (r: Vec<String>)
    ensures
        r@.map_values(|s: String| s@) == seq!["-n"@, "1"@, "-w"@, "1500"@, trim(host@)],
{
    let r = vec![
        String::from_str("-n"),
        String::from_str("1"),
        String::from_str("-w"),
        String::from_str("1500"),
        crate::deployment::trimmed(host),
    ];
    assert(r@.map_values(|s: String| s@) =~= seq!["-n"@, "1"@, "-w"@, "1500"@, trim(host@)]);
    r
}

/// The address of the SMB port of `host`.
pub fn smb_address(host: &str) -> (r: String)
    ensures
        r@ == trim(host@) + ":445"@,
{
    let mut r = crate::deployment::trimmed(host);
    r.append(":445");
    r
}

/// The error of a failed Windows networking call.
pub fn wnet_error(action: &str, code: u32) -> (r: String)
    ensures
        r@ == "SMB "@ + action@ + " failed with Windows error code "@ + crate::text::decimal(code as nat)
            + " (0x"@ + crate::text::hex8(code) + ")"@,
{
    let mut r = String::from_str("SMB ");
    r.append(action);
    r.append(" failed with Windows error code ");
    let d = crate::text::decimal_string(code as u64);
    r.append(d.as_str());
    r.append(" (0x");
    let h = crate::text::hex8_string(code);
    r.append(h.as_str());
    r.append(")");
    r
}

} // verus!
