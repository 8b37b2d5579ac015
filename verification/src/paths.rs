//! Locations inside the XAMPP installation, as Windows path strings.

use vstd::prelude::*;
use crate::text::{
    chars_of, eq_ignore_ascii_case, ascii_lower, push_str, rfind_before, rfind_exec, starts_with,
    starts_with_exec, string_of, string_of_range, strip_prefix,
};

verus! {

/// Whether `c` separates path components on Windows.
pub open spec fn is_sep(c: char) -> bool {
    c == '\\' || c == '/'
}

/// `Path::join` on Windows for a relative `segment`: a `\` goes between the two
/// unless `base` is empty or already ends with a separator.
pub open spec fn join_path(base: Seq<char>, segment: Seq<char>) -> Seq<char> {
    if base.len() == 0 || is_sep(base.last()) {
        base + segment
    } else {
        base + seq!['\\'] + segment
    }
}

/// `base` joined with the relative `segment` (see `join_path`).
pub fn join_path_exec(base: &str, segment: &str) -> (r: String)
    ensures
        r@ == join_path(base@, segment@),
{
    let b = chars_of(base);
    let mut r = string_of(&b);
    if b.len() > 0 && !(b[b.len() - 1] == '\\' || b[b.len() - 1] == '/') {
        crate::text::push(&mut r, '\\');
    }
    push_str(&mut r, segment);
    r
}

/// The XAMPP installation: the value of `XAMPP_HOME` when it is set, else
/// `C:\xampp`.
pub open spec fn root_of(home: Option<Seq<char>>) -> Seq<char> {
    match home {
        Some(h) => h,
        None => "C:\\xampp"@,
    }
}

/// The XAMPP installation directory, from the value of `XAMPP_HOME` if any.
pub fn xampp_root(home: Option<&str>) -> (r: String)
    ensures
        r@ == root_of(match home {
            Some(h) => Some(h@),
            None => None,
        }),
{
    match home {
        Some(h) => String::from_str(h),
        None => String::from_str("C:\\xampp"),
    }
}

/// `root` joined with each of `parts` in turn.
pub open spec fn join_all(root: Seq<char>, parts: Seq<Seq<char>>) -> Seq<char>
    decreases parts.len(),
{
    if parts.len() == 0 {
        root
    } else {
        join_path(join_all(root, parts.drop_last()), parts.last())
    }
}

/// `root` joined with three components.
fn join3(root: &str, a: &str, b: &str, c: &str) -> (r: String)
    ensures
        r@ == join_all(root@, seq![a@, b@, c@]),
{
    let x = join_path_exec(root, a);
    let y = join_path_exec(x.as_str(), b);
    let z = join_path_exec(y.as_str(), c);
    proof {
        let ps = seq![a@, b@, c@];
        assert(ps.drop_last() =~= seq![a@, b@]);
        assert(ps.drop_last().drop_last() =~= seq![a@]);
        assert(ps.drop_last().drop_last().drop_last() =~= Seq::<Seq<char>>::empty());
        reveal_with_fuel(join_all, 4);
    }
    z
}

/// Apache's error log: `apache\logs\error.log` in the installation.
pub fn apache_log_path(root: &str) -> (r: String)
    ensures
        r@ == join_all(root@, seq!["apache"@, "logs"@, "error.log"@]),
{
    join3(root, "apache", "logs", "error.log")
}

/// MySQL's error log under its usual name: `mysql\data\mysql.err`.
pub fn mysql_log_path(root: &str) -> (r: String)
    ensures
        r@ == join_all(root@, seq!["mysql"@, "data"@, "mysql.err"@]),
{
    join3(root, "mysql", "data", "mysql.err")
}

/// The directory of certificates: `apache\conf\ssl.crt`.
pub fn ssl_crt_dir(root: &str) -> (r: String)
    ensures
        r@ == join_all(root@, seq!["apache"@, "conf"@, "ssl.crt"@]),
{
    join3(root, "apache", "conf", "ssl.crt")
}

/// The directory of private keys: `apache\conf\ssl.key`.
pub fn ssl_key_dir(root: &str) -> (r: String)
    ensures
        r@ == join_all(root@, seq!["apache"@, "conf"@, "ssl.key"@]),
{
    join3(root, "apache", "conf", "ssl.key")
}

/// The OpenSSL executable bundled with Apache: `apache\bin\openssl.exe`.
pub fn openssl_path(root: &str) -> (r: String)
    ensures
        r@ == join_all(root@, seq!["apache"@, "bin"@, "openssl.exe"@]),
{
    join3(root, "apache", "bin", "openssl.exe")
}

/// The places where XAMPP's MySQL or MariaDB may keep its error log, in the
/// order they are tried.
pub open spec fn mysql_log_candidates_of(root: Seq<char>) -> Seq<Seq<char>> {
    let mysql = join_path(root, "mysql"@);
    let data = join_path(mysql, "data"@);
    seq![
        join_path(data, "mysql.err"@),
        join_path(data, "mysql_error.log"@),
        join_path(data, "mariadb.err"@),
        join_path(mysql, "mysql.err"@),
        join_path(mysql, "mysql_error.log"@),
    ]
}

/// The preferred locations of the MySQL error log (see `mysql_log_candidates_of`).
pub fn mysql_log_candidates(root: &str) -> (r: Vec<String>)
    ensures
        r@.map_values(|s: String| s@) == mysql_log_candidates_of(root@),
{
    let mysql = join_path_exec(root, "mysql");
    let data = join_path_exec(mysql.as_str(), "data");
    let r = vec![
        join_path_exec(data.as_str(), "mysql.err"),
        join_path_exec(data.as_str(), "mysql_error.log"),
        join_path_exec(data.as_str(), "mariadb.err"),
        join_path_exec(mysql.as_str(), "mysql.err"),
        join_path_exec(mysql.as_str(), "mysql_error.log"),
    ];
    assert(r@.map_values(|s: String| s@) =~= mysql_log_candidates_of(root@));
    r
}

/// The directories searched, in order, when no preferred log exists: MySQL's
/// data directory, then MySQL's own directory.
pub fn mysql_log_dirs(root: &str) -> (r: (String, String))
    ensures
        r.0@ == join_path(join_path(root@, "mysql"@), "data"@),
        r.1@ == join_path(root@, "mysql"@),
{
    let mysql = join_path_exec(root, "mysql");
    let data = join_path_exec(mysql.as_str(), "data");
    (data, mysql)
}

/// `Path::extension` of a file name: what follows its last `.`, unless that
/// dot opens the name, and never for `..`.
pub open spec fn extension_of(name: Seq<char>) -> Option<Seq<char>> {
    let k = rfind_before(name, '.', name.len() as int);
    if name == ".."@ || k <= 0 {
        None
    } else {
        Some(name.subrange(k + 1, name.len() as int))
    }
}

/// The extension of the file name `name` (see `extension_of`), as a range.
pub fn extension_range(name: &[char]) -> (r: Option<(usize, usize)>)
    ensures
        r matches Some(p) ==> p.0 <= p.1 == name@.len() && extension_of(name@) == Some(
            name@.subrange(p.0 as int, p.1 as int),
        ),
        r is None ==> extension_of(name@) is None,
{
    assert(name@.subrange(0, name@.len() as int) =~= name@);
    let dots = chars_of("..");
    if crate::text::chars_eq(name, &dots) {
        return None;
    }
    match rfind_exec(name, 0, name.len(), '.') {
        None => None,
        Some(k) => {
            if k == 0 {
                None
            } else {
                Some((k + 1, name.len()))
            }
        },
    }
}

/// A file name whose extension is `err` or `log`, in any case.
pub open spec fn is_log_name(name: Seq<char>) -> bool {
    match extension_of(name) {
        Some(e) => ascii_lower(e) == "err"@ || ascii_lower(e) == "log"@,
        None => false,
    }
}

/// Law: a file is taken for a MySQL error log exactly when its extension,
/// in lower case, is `err` or `log`; so `<stem>.err`, `<stem>.log` and
/// `<stem>.LOG` are, and a name without an extension is not.
pub proof fn law_log_names(name: Seq<char>, stem: Seq<char>)
    ensures
        is_log_name(name) <==> (match extension_of(name) {
            Some(e) => ascii_lower(e) == "err"@ || ascii_lower(e) == "log"@,
            None => false,
        }),
        stem.len() > 0 ==> is_log_name(stem + ".err"@) && is_log_name(stem + ".log"@)
            && is_log_name(stem + ".LOG"@),
        extension_of(name) is None ==> !is_log_name(name),
{
    reveal_strlit(".err");
    reveal_strlit(".log");
    reveal_strlit(".LOG");
    reveal_strlit("err");
    reveal_strlit("log");
    reveal_strlit("LOG");
    reveal_strlit(".");
    if stem.len() > 0 {
        assert(stem + ".err"@ =~= stem + "."@ + "err"@);
        assert(stem + ".log"@ =~= stem + "."@ + "log"@);
        assert(stem + ".LOG"@ =~= stem + "."@ + "LOG"@);
        crate::ssl_manager::lemma_named_extension(stem, "err"@);
        crate::ssl_manager::lemma_named_extension(stem, "log"@);
        crate::ssl_manager::lemma_named_extension(stem, "LOG"@);
        assert(ascii_lower("err"@) =~= "err"@);
        assert(ascii_lower("log"@) =~= "log"@);
        assert(ascii_lower("LOG"@) =~= "log"@);
    }
}

/// Whether a file name looks like a MySQL error log (see `is_log_name`).
pub fn is_log_file_name(name: &str) -> (r: bool)
    ensures
        r == is_log_name(name@),
{
    let v = chars_of(name);
    match extension_range(&v) {
        None => false,
        Some((a, b)) => {
            let e = &v[a..b];
            let err = chars_of("err");
            let log = chars_of("log");
            proof {
                assert(ascii_lower("err"@) =~= "err"@) by {
                    reveal_strlit("err");
                }
                assert(ascii_lower("log"@) =~= "log"@) by {
                    reveal_strlit("log");
                }
            }
            eq_ignore_ascii_case(e, &err) || eq_ignore_ascii_case(e, &log)
        },
    }
}

/// Windows' extended-length prefix `\\?\`.
pub open spec fn verbatim_prefix() -> Seq<char> {
    "\\\\?\\"@
}

/// A path as handed to an outside program: on Windows without the
/// extended-length prefix; elsewhere unchanged.
pub open spec fn external_path(path: Seq<char>, windows: bool) -> Seq<char> {
    if !windows {
        path
    } else {
        match strip_prefix(path, verbatim_prefix()) {
            Some(rest) => rest,
            None => path,
        }
    }
}

/// On Windows (`windows`), removes the extended-length prefix, which some
/// OpenSSL builds read as a relative path; on other systems the path is
/// returned as it is (see `external_path`).
pub fn path_for_external_command(path: &str, windows: bool) -> (r: String)
    ensures
        r@ == external_path(path@, windows),
{
    let v = chars_of(path);
    let p = chars_of("\\\\?\\");
    if windows && starts_with_exec(&v, &p) {
        string_of_range(&v, p.len(), v.len())
    } else {
        String::from_str(path)
    }
}

/// The refusal of a path that resolves outside the installation.
pub open spec fn outside_root_message() -> Seq<char> {
    "Path must be inside the configured XAMPP directory"@
}

/// The characters of each component.
pub open spec fn component_views(v: Seq<String>) -> Seq<Seq<char>> {
    v.map_values(|c: String| c@)
}

/// Whether `root`'s components are the first components of `path`
/// (`Path::starts_with`, on components).
pub open spec fn under_root(path: Seq<Seq<char>>, root: Seq<Seq<char>>) -> bool {
    root.len() <= path.len() && forall|i: int| 0 <= i < root.len() ==> path[i] == root[i]
}

/// Whether `prefix`'s components are the first components of `path`
/// (`Path::starts_with`, both given as their components).
pub fn is_under(path: &Vec<String>, prefix: &Vec<String>) -> (b: bool)
    ensures
        b == under_root(component_views(path@), component_views(prefix@)),
{
    let ghost pv = component_views(path@);
    let ghost rv = component_views(prefix@);
    if prefix.len() > path.len() {
        return false;
    }
    let mut i: usize = 0;
    while i < prefix.len()
        invariant
            i <= prefix@.len(),
            prefix@.len() <= path@.len(),
            pv == component_views(path@),
            rv == component_views(prefix@),
            forall|k: int| 0 <= k < i ==> pv[k] == rv[k],
        decreases prefix@.len() - i,
    {
        let a = chars_of(path[i].as_str());
        let b = chars_of(prefix[i].as_str());
        if !crate::text::chars_eq(&a, &b) {
            assert(pv[i as int] != rv[i as int]);
            return false;
        }
        i = i + 1;
    }
    true
}

/// Whether `path` is an entry directly inside `dir`: `dir`'s components and
/// one more.
pub fn is_direct_child(path: &Vec<String>, dir: &Vec<String>) -> (b: bool)
    ensures
        b == (path@.len() == dir@.len() + 1 && under_root(
            component_views(path@),
            component_views(dir@),
        )),
{
    path.len() > dir.len() && path.len() - dir.len() == 1 && is_under(path, dir)
}

/// Accepts a resolved path only when it lies in the resolved installation
/// directory, both given as their components: the installation's components
/// must be the path's first components. Anything else, a path that climbs out
/// with `..` before it was resolved, or one on another drive, is refused.
pub fn check_inside_root(path: &Vec<String>, root: &Vec<String>) -> (r: Result<(), String>)
    ensures
        r is Ok <==> under_root(component_views(path@), component_views(root@)),
        r matches Err(e) ==> e@ == outside_root_message(),
{
    if is_under(path, root) {
        Ok(())
    } else {
        Err(String::from_str("Path must be inside the configured XAMPP directory"))
    }
}

} // verus!
