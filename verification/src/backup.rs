//! Zip backups of `htdocs` and MySQL dumps in the installation's `backups`
//! folder.

use vstd::prelude::*;
use crate::clock::{file_time, file_time_text, local_stamp};
use crate::paths::{extension_of, extension_range, external_path, join_all, join_path, join_path_exec, path_for_external_command};
use crate::sorting::{key_views, sort_by_keys, stable_sorted};
use crate::text::{chars_of, is_ascii_alnum, is_ascii_alphanumeric};

verus! {

/// A backup file.
pub struct BackupInfo {
    pub name: String,
    pub path: String,
    pub size: u64,
    pub created: String,
}

/// The contents of a `BackupInfo`.
pub open spec fn backup_view(b: BackupInfo) -> (Seq<char>, Seq<char>, u64, Seq<char>) {
    (b.name@, b.path@, b.size, b.created@)
}

/// The folder of backups: `backups` in the installation.
pub fn backup_root(xampp_root: &str) -> (r: String)
    ensures
        r@ == join_path(xampp_root@, "backups"@),
{
    join_path_exec(xampp_root, "backups")
}

/// A character kept in a backup's name; others become `_`.
pub open spec fn backup_char(c: char) -> char {
    if is_ascii_alnum(c) || c == '_' || c == '-' {
        c
    } else {
        '_'
    }
}

/// The name of a backup: the one asked for, or `backup_<stamp>`, with unsafe
/// characters replaced.
pub open spec fn backup_name_of(name: Option<Seq<char>>, stamp: Seq<char>) -> Seq<char> {
    let n = match name {
        Some(n) => n,
        None => "backup_"@ + stamp,
    };
    n.map_values(|c: char| backup_char(c))
}

/// The name of a backup made at `stamp` (see `backup_name_of`).
pub fn backup_name(name: Option<&str>, stamp: &str) -> (r: String)
    ensures
        r@ == backup_name_of(
            match name {
                Some(n) => Some(n@),
                None => None,
            },
            stamp@,
        ),
{
    let n = match name {
        Some(n) => String::from_str(n),
        None => {
            let mut s = String::from_str("backup_");
            s.append(stamp);
            s
        },
    };
    let v = chars_of(n.as_str());
    let mut r = String::new();
    let mut i: usize = 0;
    while i < v.len()
        invariant
            i <= v@.len(),
            r@ == v@.take(i as int).map_values(|c: char| backup_char(c)),
        decreases v@.len() - i,
    {
        let c = v[i];
        crate::text::push(
            &mut r,
            if is_ascii_alphanumeric(c) || c == '_' || c == '-' {
                c
            } else {
                '_'
            },
        );
        i = i + 1;
        assert(r@ =~= v@.take(i as int).map_values(|c: char| backup_char(c)));
    }
    assert(v@.take(v@.len() as int) =~= v@);
    r
}

/// What creating a backup of `htdocs` does: the backup's name and file, the
/// folder archived and the PowerShell command that archives it.
pub struct BackupPlan {
    pub name: String,
    pub zip_path: String,
    pub htdocs: String,
    pub command: String,
    pub stamp: String,
}

/// The PowerShell command that archives `source` into `destination`.
pub open spec fn compress_command_of(source: Seq<char>, destination: Seq<char>) -> Seq<char> {
    "Compress-Archive -Path '"@ + source + "' -DestinationPath '"@ + destination + "' -Force"@
}

/// The plan for a backup named `name` (or after `stamp`) of the installation
/// `root`.
pub fn backup_plan_at(root: &str, name: Option<&str>, stamp: String) -> (r: BackupPlan)
    ensures
        r.name@ == backup_name_of(
            match name {
                Some(n) => Some(n@),
                None => None,
            },
            stamp@,
        ),
        r.zip_path@ == join_path(join_path(root@, "backups"@), r.name@ + ".zip"@),
        r.htdocs@ == join_path(root@, "htdocs"@),
        r.command@ == compress_command_of(r.htdocs@, r.zip_path@),
        r.stamp == stamp,
{
    let safe = backup_name(name, stamp.as_str());
    let dir = backup_root(root);
    let mut file = safe.clone();
    file.append(".zip");
    let zip_path = join_path_exec(dir.as_str(), file.as_str());
    let htdocs = join_path_exec(root, "htdocs");
    let mut command = String::from_str("Compress-Archive -Path '");
    command.append(htdocs.as_str());
    command.append("' -DestinationPath '");
    command.append(zip_path.as_str());
    command.append("' -Force");
    BackupPlan { name: safe, zip_path, htdocs, command, stamp }
}

/// The plan for a backup made now.
pub fn backup_plan(root: &str, name: Option<&str>) -> (r: BackupPlan)
    ensures
        r.name@ == backup_name_of(
            match name {
                Some(n) => Some(n@),
                None => None,
            },
            r.stamp@,
        ),
        r.zip_path@ == join_path(join_path(root@, "backups"@), r.name@ + ".zip"@),
        r.htdocs@ == join_path(root@, "htdocs"@),
        r.command@ == compress_command_of(r.htdocs@, r.zip_path@),
{
    let stamp = local_stamp();
    backup_plan_at(root, name, stamp)
}

/// The record of a finished backup; a size that could not be read is 0.
pub fn backup_record(plan: BackupPlan, size: Option<u64>) -> (r: BackupInfo)
    ensures
        r.name == plan.name,
        r.path == plan.zip_path,
        r.size == (match size {
            Some(s) => s,
            None => 0,
        }),
        r.created == plan.stamp,
{
    BackupInfo {
        name: plan.name,
        path: plan.zip_path,
        size: match size {
            Some(s) => s,
            None => 0,
        },
        created: plan.stamp,
    }
}

/// The error of a failed tool: `prefix` and its error output.
pub fn tool_failure(prefix: &str, stderr: &str) -> (r: String)
    ensures
        r@ == prefix@ + stderr@,
{
    let mut r = String::from_str(prefix);
    r.append(stderr);
    r
}

/// A file in the backups folder: its name and path, and its size and
/// modification time when its metadata could be read.
pub struct BackupFileFacts {
    pub name: String,
    pub path: String,
    pub size: Option<u64>,
    pub modified_secs: Option<u64>,
}

/// The backup a file is, if it is a `.zip`.
pub open spec fn backup_file_of(f: BackupFileFacts) -> Option<(Seq<char>, Seq<char>, u64, Seq<char>)> {
    if extension_of(f.name@) == Some("zip"@) {
        Some(
            (
                f.name@,
                f.path@,
                match f.size {
                    Some(s) => s,
                    None => 0,
                },
                file_time_text(f.modified_secs),
            ),
        )
    } else {
        None
    }
}

/// The backups among `files`, in folder order.
pub open spec fn found_backups(files: Seq<BackupFileFacts>) -> Seq<(Seq<char>, Seq<char>, u64, Seq<char>)>
    decreases files.len(),
{
    if files.len() == 0 {
        Seq::empty()
    } else {
        match backup_file_of(files.last()) {
            Some(b) => found_backups(files.drop_last()).push(b),
            None => found_backups(files.drop_last()),
        }
    }
}

/// The backups of the backups folder, newest first by their time text, equal
/// ones in folder order; a missing folder has none.
pub fn list_backups(files: Vec<BackupFileFacts>) -> (r: Vec<BackupInfo>)
    ensures
        r@.map_values(|b: BackupInfo| backup_view(b)) == ({
            let found = found_backups(files@);
            stable_sorted(found, found.map_values(|b: (Seq<char>, Seq<char>, u64, Seq<char>)| b.3), true).0
        }),
{
    let mut out: Vec<BackupInfo> = Vec::new();
    let mut keys: Vec<Vec<char>> = Vec::new();
    let ghost all = files@;
    let mut files = files;
    let len0 = files.len();
    let ghost n = files@.len();
    let mut i: usize = 0;
    while files.len() > 0
        invariant
            i <= n,
            n == len0,
            n == all.len(),
            files@ == all.subrange(i as int, n as int),
            keys@.len() == out@.len(),
            forall|k: int| 0 <= k < keys@.len() ==> (#[trigger] keys@[k])@ == out@[k].created@,
            out@.map_values(|b: BackupInfo| backup_view(b)) == found_backups(all.take(i as int)),
        decreases files@.len(),
    {
        assert(i < n);
        let next_i = i + 1;
        let f = files.remove(0);
        assert(f == all[i as int]);
        proof {
            assert(all.take(i + 1).drop_last() =~= all.take(i as int));
            assert(all.take(i + 1).last() == f);
        }
        let v = chars_of(f.name.as_str());
        let is_zip = match extension_range(&v) {
            Some((a, b)) => crate::text::chars_eq(&v[a..b], &chars_of("zip")),
            None => false,
        };
        if is_zip {
            let created = file_time(f.modified_secs);
            keys.push(chars_of(created.as_str()));
            let ghost before = out@;
            out.push(
                BackupInfo {
                    name: f.name,
                    path: f.path,
                    size: match f.size {
                        Some(s) => s,
                        None => 0,
                    },
                    created,
                },
            );
            assert(out@.map_values(|b: BackupInfo| backup_view(b)) =~= before.map_values(
                |b: BackupInfo| backup_view(b),
            ).push(backup_view(out@.last())));
        }
        i = next_i;
        assert(files@ =~= all.subrange(i as int, n as int));
    }
    assert(all.take(n as int) =~= all);
    let ghost ov = out@;
    proof {
        assert(key_views(keys@) =~= ov.map_values(|b: BackupInfo| backup_view(b)).map_values(
            |b: (Seq<char>, Seq<char>, u64, Seq<char>)| b.3,
        ));
        crate::sorting::lemma_sorted_map(ov, key_views(keys@), true, |b: BackupInfo| backup_view(b));
    }
    sort_by_keys(out, keys, true)
}

/// A name that stays a single file inside the folder it is joined to: not
/// empty, not `.` or `..`, and without a separator or a drive colon.
pub open spec fn plain_file_name(name: Seq<char>) -> bool {
    &&& name.len() > 0
    &&& name != "."@
    &&& name != ".."@
    &&& forall|i: int| 0 <= i < name.len() ==> #[trigger] name[i] != '/' && name[i] != '\\' && name[i] != ':'
}

/// The refusal of a backup name that could point outside the backups folder.
pub open spec fn invalid_backup_name_message() -> Seq<char> {
    "Invalid backup name"@
}

/// The backup file `name` in the backups folder, when `name` is a plain file
/// name (see `plain_file_name`); any other name, which could reach outside
/// the folder, is refused.
pub fn backup_file_path(xampp_root: &str, name: &str) -> (r: Result<String, String>)
    ensures
        r is Ok <==> plain_file_name(name@),
        r matches Ok(p) ==> p@ == join_path(join_path(xampp_root@, "backups"@), name@),
        r matches Err(e) ==> e@ == invalid_backup_name_message(),
{
    let v = chars_of(name);
    let mut ok = v.len() > 0 && !crate::text::chars_eq(&v, &chars_of(".")) && !crate::text::chars_eq(
        &v,
        &chars_of(".."),
    );
    let mut i: usize = 0;
    while i < v.len()
        invariant
            i <= v@.len(),
            v@ == name@,
            ok == (v@.len() > 0 && v@ != "."@ && v@ != ".."@ && forall|j: int|
                0 <= j < i ==> #[trigger] v@[j] != '/' && v@[j] != '\\' && v@[j] != ':'),
        decreases v@.len() - i,
    {
        if v[i] == '/' || v[i] == '\\' || v[i] == ':' {
            ok = false;
        }
        i = i + 1;
    }
    if !ok {
        return Err(String::from_str("Invalid backup name"));
    }
    let dir = backup_root(xampp_root);
    Ok(join_path_exec(dir.as_str(), name))
}

/// What dumping every MySQL database does: the `mysqldump` executable, the
/// dump file named after `stamp`, and the arguments.
pub struct DumpPlan {
    pub mysqldump: String,
    pub out_path: String,
    pub args: Vec<String>,
}

/// The plan for a dump of every database made at `stamp`.
pub fn dump_plan_at(xampp_root: &str, stamp: &str, windows: bool) -> (r: DumpPlan)
    ensures
        r.mysqldump@ == join_all(xampp_root@, seq!["mysql"@, "bin"@, "mysqldump.exe"@]),
        r.out_path@ == join_path(join_path(xampp_root@, "backups"@), "mysql_dump_"@ + stamp@ + ".sql"@),
        r.args@.map_values(|s: String| s@) == seq![
            "--all-databases"@,
            "-u"@,
            "root"@,
            "-r"@,
            external_path(r.out_path@, windows),
        ],
{
    let a = join_path_exec(xampp_root, "mysql");
    let b = join_path_exec(a.as_str(), "bin");
    let mysqldump = join_path_exec(b.as_str(), "mysqldump.exe");
    proof {
        let ps = seq!["mysql"@, "bin"@, "mysqldump.exe"@];
        assert(ps.drop_last() =~= seq!["mysql"@, "bin"@]);
        assert(ps.drop_last().drop_last() =~= seq!["mysql"@]);
        assert(ps.drop_last().drop_last().drop_last() =~= Seq::<Seq<char>>::empty());
        reveal_with_fuel(join_all, 4);
    }
    let dir = backup_root(xampp_root);
    let mut file = String::from_str("mysql_dump_");
    file.append(stamp);
    file.append(".sql");
    let out_path = join_path_exec(dir.as_str(), file.as_str());
    let args = vec![
        String::from_str("--all-databases"),
        String::from_str("-u"),
        String::from_str("root"),
        String::from_str("-r"),
        path_for_external_command(out_path.as_str(), windows),
    ];
    assert(args@.map_values(|s: String| s@) =~= seq![
        "--all-databases"@,
        "-u"@,
        "root"@,
        "-r"@,
        external_path(out_path@, windows),
    ]);
    DumpPlan { mysqldump, out_path, args }
}

/// The plan for a dump of every database made now.
pub fn dump_plan(xampp_root: &str, windows: bool) -> (r: DumpPlan)
    ensures
        r.mysqldump@ == join_all(xampp_root@, seq!["mysql"@, "bin"@, "mysqldump.exe"@]),
        exists|stamp: Seq<char>|
            r.out_path@ == join_path(join_path(xampp_root@, "backups"@), "mysql_dump_"@ + stamp + ".sql"@),
        r.args@.map_values(|s: String| s@) == seq![
            "--all-databases"@,
            "-u"@,
            "root"@,
            "-r"@,
            external_path(r.out_path@, windows),
        ],
{
    let stamp = local_stamp();
    dump_plan_at(xampp_root, stamp.as_str(), windows)
}

} // verus!
