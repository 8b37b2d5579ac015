//! Known XAMPP configuration files and INI section outlines.

use vstd::prelude::*;
use crate::paths::{join_path, join_path_exec};
use crate::text::{
    chars_of, in_set, lemma_line_spans_bounds, line_spans, line_spans_exec, lines,
    push_range, push_str, skip_set, skip_set_back, starts_with, string_of_range, trim,
    trim_bounds, trim_by, ends_with, trim_range, trim_set_bounds,
};

verus! {

/// A configuration file that the editor knows about.
pub struct ConfigFile {
    pub name: String,
    pub path: String,
    pub category: String,
}

/// A `[section]` header of an INI file, with its zero-based line number.
pub struct IniSection {
    pub name: String,
    pub line: usize,
}

/// The outcome of `httpd -t`.
pub struct ConfigTestResult {
    pub ok: bool,
    pub output: String,
}

/// The relative location, name and category of each known configuration file.
pub open spec fn known_config_table() -> Seq<(Seq<char>, Seq<char>, Seq<char>)> {
    seq![
        ("apache\\conf\\httpd.conf"@, "httpd.conf"@, "Apache"@),
        ("php\\php.ini"@, "php.ini"@, "PHP"@),
        ("mysql\\bin\\my.ini"@, "my.ini"@, "MySQL"@),
        ("apache\\conf\\extra\\httpd-vhosts.conf"@, "httpd-vhosts.conf"@, "Apache"@),
        ("apache\\conf\\extra\\httpd-ssl.conf"@, "httpd-ssl.conf"@, "Apache"@),
        ("phpMyAdmin\\config.inc.php"@, "phpmyadmin.conf"@, "phpMyAdmin"@),
    ]
}

pub open spec fn config_view(c: ConfigFile) -> (Seq<char>, Seq<char>, Seq<char>) {
    (c.name@, c.path@, c.category@)
}

/// The known configuration files below the XAMPP root `root`, whether or not
/// they exist, in the order the editor lists them.
pub fn config_candidates(root: &str) -> (r: Vec<ConfigFile>)
    ensures
        r@.len() == known_config_table().len(),
        forall|i: int|
            0 <= i < r@.len() ==> config_view(#[trigger] r@[i]) == (
                known_config_table()[i].1,
                join_path(root@, known_config_table()[i].0),
                known_config_table()[i].2,
            ),
{
    let mut r: Vec<ConfigFile> = Vec::new();
    r.push(candidate(root, "apache\\conf\\httpd.conf", "httpd.conf", "Apache"));
    r.push(candidate(root, "php\\php.ini", "php.ini", "PHP"));
    r.push(candidate(root, "mysql\\bin\\my.ini", "my.ini", "MySQL"));
    r.push(
        candidate(root, "apache\\conf\\extra\\httpd-vhosts.conf", "httpd-vhosts.conf", "Apache"),
    );
    r.push(candidate(root, "apache\\conf\\extra\\httpd-ssl.conf", "httpd-ssl.conf", "Apache"));
    r.push(candidate(root, "phpMyAdmin\\config.inc.php", "phpmyadmin.conf", "phpMyAdmin"));
    r
}

fn candidate(root: &str, relative: &str, name: &str, category: &str) -> (c: ConfigFile)
    ensures
        config_view(c) == (name@, join_path(root@, relative@), category@),
{
    let mut n = String::new();
    push_str(&mut n, name);
    let mut k = String::new();
    push_str(&mut k, category);
    ConfigFile { name: n, path: join_path_exec(root, relative), category: k }
}

/// The indices `i < n` with `present[i]`, in increasing order.
pub open spec fn present_indices(present: Seq<bool>, n: int) -> Seq<int>
    decreases n,
{
    if n <= 0 {
        Seq::empty()
    } else if present[n - 1] {
        present_indices(present, n - 1).push(n - 1)
    } else {
        present_indices(present, n - 1)
    }
}

fn candidate_at(root: &str, i: usize) -> (c: ConfigFile)
    requires
        i < known_config_table().len(),
    ensures
        config_view(c) == (
            known_config_table()[i as int].1,
            join_path(root@, known_config_table()[i as int].0),
            known_config_table()[i as int].2,
        ),
{
    if i == 0 {
        candidate(root, "apache\\conf\\httpd.conf", "httpd.conf", "Apache")
    } else if i == 1 {
        candidate(root, "php\\php.ini", "php.ini", "PHP")
    } else if i == 2 {
        candidate(root, "mysql\\bin\\my.ini", "my.ini", "MySQL")
    } else if i == 3 {
        candidate(root, "apache\\conf\\extra\\httpd-vhosts.conf", "httpd-vhosts.conf", "Apache")
    } else if i == 4 {
        candidate(root, "apache\\conf\\extra\\httpd-ssl.conf", "httpd-ssl.conf", "Apache")
    } else {
        candidate(root, "phpMyAdmin\\config.inc.php", "phpmyadmin.conf", "phpMyAdmin")
    }
}

/// The known configuration files that exist, in listing order: `present[i]`
/// says whether the `i`-th of `config_candidates(root)` is a file.
pub fn known_configs(root: &str, present: &[bool]) -> (r: Vec<ConfigFile>)
    requires
        present@.len() == known_config_table().len(),
    ensures
        r@.len() == present_indices(present@, 6).len(),
        forall|i: int|
            0 <= i < r@.len() ==> config_view(#[trigger] r@[i]) == (
                known_config_table()[present_indices(present@, 6)[i]].1,
                join_path(root@, known_config_table()[present_indices(present@, 6)[i]].0),
                known_config_table()[present_indices(present@, 6)[i]].2,
            ),
{
    let mut r: Vec<ConfigFile> = Vec::new();
    let mut i: usize = 0;
    while i < 6
        invariant
            i <= 6,
            present@.len() == 6,
            r@.len() == present_indices(present@, i as int).len(),
            forall|k: int|
                0 <= k < r@.len() ==> config_view(#[trigger] r@[k]) == (
                    known_config_table()[present_indices(present@, i as int)[k]].1,
                    join_path(root@, known_config_table()[present_indices(present@, i as int)[k]].0),
                    known_config_table()[present_indices(present@, i as int)[k]].2,
                ),
        decreases 6 - i,
    {
        if present[i] {
            r.push(candidate_at(root, i));
        }
        i = i + 1;
    }
    r
}

} // verus!

verus! {

/// A line is a section header when, trimmed, it starts with `[` and ends with `]`.
pub open spec fn is_section_line(l: Seq<char>) -> bool {
    starts_with(trim(l), seq!['[']) && ends_with(trim(l), seq![']'])
}

/// The name of a section header: trimmed, then `[` and then `]` removed from
/// both ends.
pub open spec fn section_name(l: Seq<char>) -> Seq<char> {
    trim_by(trim_by(trim(l), in_set(seq!['['])), in_set(seq![']']))
}

/// The section headers among the first `n` lines of `ls`, with their indices.
pub open spec fn sections_upto(ls: Seq<Seq<char>>, n: int) -> Seq<(Seq<char>, int)>
    decreases n,
{
    if n <= 0 {
        Seq::empty()
    } else if is_section_line(ls[n - 1]) {
        sections_upto(ls, n - 1).push((section_name(ls[n - 1]), n - 1))
    } else {
        sections_upto(ls, n - 1)
    }
}

/// The section headers of an INI file, with their zero-based line numbers.
pub open spec fn ini_sections(content: Seq<char>) -> Seq<(Seq<char>, int)> {
    sections_upto(lines(content), lines(content).len() as int)
}

/// Lists the `[section]` headers of `content` with their zero-based line numbers.
pub fn parse_ini_sections(content: &str) -> (r: Vec<IniSection>)
    ensures
        r@.len() == ini_sections(content@).len(),
        forall|i: int|
            0 <= i < r@.len() ==> ((#[trigger] r@[i]).name@, r@[i].line as int) == ini_sections(
                content@,
            )[i],
{
    let v = chars_of(content);
    let spans = line_spans_exec(&v);
    let ghost ls = lines(v@);
    let open_set = ['['];
    let close_set = [']'];
    assert(open_set@ =~= seq!['[']);
    assert(close_set@ =~= seq![']']);
    let mut out: Vec<IniSection> = Vec::new();
    let mut i: usize = 0;
    while i < spans.len()
        invariant
            i <= spans@.len(),
            v@ == content@,
            ls == lines(v@),
            open_set@ == seq!['['],
            close_set@ == seq![']'],
            spans@.len() == line_spans(v@).len(),
            forall|k: int|
                0 <= k < spans@.len() ==> (#[trigger] spans@[k]).0 == line_spans(v@)[k].0
                    && spans@[k].1 == line_spans(v@)[k].1,
            forall|k: int|
                0 <= k < spans@.len() ==> (#[trigger] spans@[k]).0 <= spans@[k].1 <= v@.len(),
            out@.len() == sections_upto(ls, i as int).len(),
            forall|k: int|
                0 <= k < out@.len() ==> ((#[trigger] out@[k]).name@, out@[k].line as int)
                    == sections_upto(ls, i as int)[k],
        decreases spans@.len() - i,
    {
        let (a, b) = spans[i];
        let ghost line = v@.subrange(a as int, b as int);
        assert(ls[i as int] == line);
        let (ta, tb) = trim_range(&v, a, b);
        let is_header = ta < tb && v[ta] == '[' && v[tb - 1] == ']';
        proof {
            let t = v@.subrange(ta as int, tb as int);
            assert(t == trim(line));
            if ta < tb {
                assert(t.subrange(0, 1) =~= seq![v@[ta as int]]);
                assert(t.subrange(t.len() - 1, t.len() as int) =~= seq![v@[tb - 1]]);
                if t.subrange(0, 1) == seq!['['] {
                    assert(t.subrange(0, 1)[0] == '[');
                }
                if t.subrange(t.len() - 1, t.len() as int) == seq![']'] {
                    assert(t.subrange(t.len() - 1, t.len() as int)[0] == ']');
                }
                if v@[ta as int] == '[' {
                    assert(t.subrange(0, 1) =~= seq!['[']);
                }
                if v@[tb - 1] == ']' {
                    assert(t.subrange(t.len() - 1, t.len() as int) =~= seq![']']);
                }
            }
            assert(is_header == is_section_line(line));
        }
        if is_header {
            let (s1, e1) = trim_set_bounds(&v, ta, tb, &open_set);
            let (s2, e2) = trim_set_bounds(&v, s1, e1, &close_set);
            let name = string_of_range(&v, s2, e2);
            out.push(IniSection { name, line: i });
        }
        i = i + 1;
    }
    proof {
        assert(ls.len() == spans@.len());
    }
    out
}

} // verus!

verus! {

/// The text shown for `httpd -t`: the trimmed standard output, then a newline
/// and the trimmed standard error when there is any.
pub open spec fn test_output(stdout: Seq<char>, stderr: Seq<char>) -> Seq<char> {
    let out = trim(stdout);
    let err = trim(stderr);
    if err.len() == 0 {
        out
    } else if out.len() == 0 {
        err
    } else {
        out + seq!['\n'] + err
    }
}

/// The result of `httpd -t` from its exit status and its decoded output.
pub fn config_test_result(success: bool, stdout: &str, stderr: &str) -> (r: ConfigTestResult)
    ensures
        r.ok == success,
        r.output@ == test_output(stdout@, stderr@),
{
    let o = chars_of(stdout);
    let e = chars_of(stderr);
    let (oa, ob) = trim_range(&o, 0, o.len());
    let (ea, eb) = trim_range(&e, 0, e.len());
    assert(o@.subrange(0, o@.len() as int) =~= o@);
    assert(e@.subrange(0, e@.len() as int) =~= e@);
    let mut text = string_of_range(&o, oa, ob);
    if ea < eb {
        if oa < ob {
            crate::text::push(&mut text, '\n');
        }
        push_range(&mut text, &e, ea, eb);
    }
    ConfigTestResult { ok: success, output: text }
}

} // verus!

verus! {

/// The folder of Apache's executables: `apache\bin` in the installation.
pub fn apache_bin(xampp_root: &str) -> (r: String)
    ensures
        r@ == crate::paths::join_path(xampp_root@, "apache\\bin"@),
{
    crate::paths::join_path_exec(xampp_root, "apache\\bin")
}

/// Apache's executable, run to test the configuration.
pub fn httpd_path(xampp_root: &str) -> (r: String)
    ensures
        r@ == crate::paths::join_path(
            crate::paths::join_path(xampp_root@, "apache\\bin"@),
            "httpd.exe"@,
        ),
{
    let bin = apache_bin(xampp_root);
    crate::paths::join_path_exec(bin.as_str(), "httpd.exe")
}

/// Where the current contents of configuration file `name` are kept before
/// it is saved: `config-backups\<name>-<timestamp>` in the application data.
pub fn config_backup_path_at(app_data_dir: &str, name: &str, timestamp: &str) -> (r: String)
    ensures
        r@ == crate::paths::join_path(
            crate::paths::join_path(app_data_dir@, "config-backups"@),
            name@ + "-"@ + timestamp@,
        ),
{
    let dir = crate::paths::join_path_exec(app_data_dir, "config-backups");
    let mut file = String::from_str(name);
    file.append("-");
    file.append(timestamp);
    crate::paths::join_path_exec(dir.as_str(), file.as_str())
}

/// Where the contents of configuration file `name` are kept before a save
/// made now.
pub fn config_backup_path(app_data_dir: &str, name: &str) -> (r: String)
    ensures
        exists|t: Seq<char>|
            r@ == crate::paths::join_path(
                crate::paths::join_path(app_data_dir@, "config-backups"@),
                name@ + "-"@ + t,
            ),
{
    let t = crate::deployment::backup_timestamp();
    config_backup_path_at(app_data_dir, name, t.as_str())
}

} // verus!
