//! Browsing and changing files inside the XAMPP installation.

use vstd::prelude::*;
pub use crate::FileEntry;
use crate::clock::{file_time, file_time_text};
use crate::paths::{join_path, join_path_exec};
use crate::sorting::{key_views, sort_by_keys, stable_sorted};
use crate::text::{chars_eq, chars_of, has_char, has_char_exec, trim};

verus! {

/// A directory entry as read from the file system.
pub struct DirEntryFacts {
    pub name: String,
    pub path: String,
    pub is_dir: bool,
    pub size: u64,
    /// The modification time in seconds since the epoch, when known.
    pub modified_secs: Option<u64>,
}

/// The contents of a `FileEntry`.
pub open spec fn file_entry_view(e: FileEntry) -> (Seq<char>, Seq<char>, bool, u64, Seq<char>) {
    (e.name@, e.path@, e.is_dir, e.size, e.modified@)
}

/// The entry shown for what the file system says of a directory entry.
pub open spec fn entry_of(f: DirEntryFacts) -> (Seq<char>, Seq<char>, bool, u64, Seq<char>) {
    (f.name@, f.path@, f.is_dir, f.size, file_time_text(f.modified_secs))
}

/// The key that orders a listing: folders first, then by name.
pub open spec fn listing_key(is_dir: bool, name: Seq<char>) -> Seq<char> {
    (if is_dir {
        "0"@
    } else {
        "1"@
    }) + name
}

/// The listing of a directory: folders first, then by name in `str`'s order,
/// equal ones in the order the directory gave them.
pub fn list_directory(entries: Vec<DirEntryFacts>) -> (r: Vec<FileEntry>)
    ensures
        r@.map_values(|e: FileEntry| file_entry_view(e)) == ({
            let es = entries@.map_values(|f: DirEntryFacts| entry_of(f));
            stable_sorted(
                es,
                es.map_values(
                    |e: (Seq<char>, Seq<char>, bool, u64, Seq<char>)| listing_key(e.2, e.0),
                ),
                false,
            ).0
        }),
{
    let mut out: Vec<FileEntry> = Vec::new();
    let mut keys: Vec<Vec<char>> = Vec::new();
    let ghost all = entries@;
    let mut entries = entries;
    let len0 = entries.len();
    let ghost n = entries@.len();
    let mut i: usize = 0;
    while entries.len() > 0
        invariant
            i <= n,
            n == len0,
            n == all.len(),
            entries@ == all.subrange(i as int, n as int),
            out@.len() == i,
            keys@.len() == i,
            forall|k: int|
                0 <= k < i ==> file_entry_view(#[trigger] out@[k]) == entry_of(all[k]),
            forall|k: int|
                0 <= k < i ==> (#[trigger] keys@[k])@ == listing_key(all[k].is_dir, all[k].name@),
        decreases entries@.len(),
    {
        assert(i < n);
        let next_i = i + 1;
        let f = entries.remove(0);
        assert(f == all[i as int]);
        let mut key = if f.is_dir {
            chars_of("0")
        } else {
            chars_of("1")
        };
        let nv = chars_of(f.name.as_str());
        let ghost k0 = key@;
        let mut j: usize = 0;
        while j < nv.len()
            invariant
                j <= nv@.len(),
                key@ == k0 + nv@.take(j as int),
            decreases nv@.len() - j,
        {
            key.push(nv[j]);
            j = j + 1;
            assert(key@ =~= k0 + nv@.take(j as int));
        }
        assert(nv@.take(nv@.len() as int) =~= nv@);
        keys.push(key);
        out.push(
            FileEntry {
                name: f.name,
                path: f.path,
                size: f.size,
                modified: file_time(f.modified_secs),
                is_dir: f.is_dir,
            },
        );
        i = next_i;
        assert(entries@ =~= all.subrange(i as int, n as int));
    }
    let ghost ov = out@;
    proof {
        let es = all.map_values(|f: DirEntryFacts| entry_of(f));
        assert(ov.map_values(|e: FileEntry| file_entry_view(e)) =~= es);
        assert(key_views(keys@) =~= es.map_values(
            |e: (Seq<char>, Seq<char>, bool, u64, Seq<char>)| listing_key(e.2, e.0),
        ));
        crate::sorting::lemma_sorted_map(ov, key_views(keys@), false, |e: FileEntry| file_entry_view(e));
    }
    sort_by_keys(out, keys, false)
}

pub open spec fn child_name_message() -> Seq<char> {
    "Enter a valid file or folder name"@
}

/// A name for a new or renamed item: trimmed, not empty, `.` or `..`, and
/// without `/` or `\`.
pub open spec fn child_name_of(name: Seq<char>) -> Result<Seq<char>, Seq<char>> {
    let t = trim(name);
    if t.len() == 0 || t == "."@ || t == ".."@ || has_char(t, '/') || has_char(t, '\\') {
        Err(child_name_message())
    } else {
        Ok(t)
    }
}

/// Checks the name of a new or renamed item (see `child_name_of`).
pub fn valid_child_name(name: &str) -> (r: Result<String, String>)
    ensures
        match r {
            Ok(n) => child_name_of(name@) == Ok::<Seq<char>, Seq<char>>(n@),
            Err(e) => child_name_of(name@) == Err::<Seq<char>, Seq<char>>(e@),
        },
{
    let t = crate::deployment::trimmed(name);
    let v = chars_of(t.as_str());
    if v.len() == 0 || chars_eq(&v, &chars_of(".")) || chars_eq(&v, &chars_of("..")) || has_char_exec(
        &v,
        '/',
    ) || has_char_exec(&v, '\\') {
        return Err(String::from_str("Enter a valid file or folder name"));
    }
    Ok(t)
}

/// What the file system says of a file chosen for upload.
pub enum UploadFacts {
    /// Its metadata could not be read, for this reason.
    Unreadable(String),
    /// A link, a folder, or something else that is not a normal file.
    NotAFile,
    /// A normal file of this size; its name, when the path has one, and
    /// whether the destination already has an item of that name.
    File { size: u64, name: Option<String>, target_exists: bool },
}

/// Uploads are limited to this many bytes at a time (500 MB).
pub const MAX_UPLOAD_BYTES: u64 = 524_288_000;

/// The plan for uploading the files described by `facts` into `destination`:
/// each source with its target, or the first reason to refuse. `names` holds
/// the targets planned so far.
pub open spec fn upload_plan_from(
    destination: Seq<char>,
    facts: Seq<UploadFacts>,
    k: int,
    total: int,
    names: Seq<Seq<char>>,
) -> Result<Seq<Seq<char>>, Seq<char>>
    decreases facts.len() - k,
{
    if k < 0 || k >= facts.len() {
        Ok(names)
    } else {
        match facts[k] {
            UploadFacts::Unreadable(e) => Err("Failed to read upload: "@ + e@),
            UploadFacts::NotAFile => Err("Only normal files can be uploaded"@),
            UploadFacts::File { size, name, target_exists } => {
                let t = total + size;
                if t > MAX_UPLOAD_BYTES {
                    Err("Uploads are limited to 500 MB at a time"@)
                } else {
                    match name {
                        None => Err("Invalid upload filename"@),
                        Some(n) => {
                            let target = join_path(destination, n@);
                            if target_exists {
                                Err(n@ + " already exists in this folder"@)
                            } else if names.contains(target) {
                                Err("Multiple selected files are named "@ + n@)
                            } else {
                                upload_plan_from(destination, facts, k + 1, t, names.push(target))
                            }
                        },
                    }
                }
            },
        }
    }
}

proof fn lemma_upload_plan_distinct(
    destination: Seq<char>,
    facts: Seq<UploadFacts>,
    k: int,
    total: int,
    names: Seq<Seq<char>>,
)
    requires
        0 <= k <= facts.len(),
        names.no_duplicates(),
        upload_plan_from(destination, facts, k, total, names) is Ok,
    ensures
        ({
            let ts = upload_plan_from(destination, facts, k, total, names)->Ok_0;
            &&& ts.no_duplicates()
            &&& ts.len() == names.len() + facts.len() - k
        }),
    decreases facts.len() - k,
{
    if k < facts.len() {
        match facts[k] {
            UploadFacts::File { size, name, target_exists } => {
                match name {
                    Some(n) => {
                        let target = join_path(destination, n@);
                        assert(names.push(target).no_duplicates()) by {
                            assert forall|a: int, b: int|
                                0 <= a < b < names.push(target).len() implies names.push(target)[a]
                                != names.push(target)[b] by {
                                if b == names.len() {
                                    assert(names.push(target)[a] == names[a]);
                                    assert(names.contains(names[a]));
                                }
                            }
                        }
                        lemma_upload_plan_distinct(
                            destination,
                            facts,
                            k + 1,
                            total + size,
                            names.push(target),
                        );
                    },
                    None => {},
                }
            },
            _ => {},
        }
    }
}

/// Law: an accepted upload gives one target per chosen file, and no two
/// files go to the same target.
pub proof fn law_upload_targets_distinct(destination: Seq<char>, facts: Seq<UploadFacts>)
    requires
        upload_plan_from(destination, facts, 0, 0, Seq::empty()) is Ok,
    ensures
        upload_plan_from(destination, facts, 0, 0, Seq::empty())->Ok_0.no_duplicates(),
        upload_plan_from(destination, facts, 0, 0, Seq::empty())->Ok_0.len() == facts.len(),
{
    lemma_upload_plan_distinct(destination, facts, 0, 0, Seq::empty());
}

/// The targets for uploading files into `destination`, in order, or why the
/// upload is refused (see `upload_plan_from`); nothing is refused for an
/// empty selection only when there is one.
pub fn plan_uploads(destination: &str, facts: &Vec<UploadFacts>) -> (r: Result<Vec<String>, String>)
    ensures
        facts@.len() == 0 ==> (r matches Err(e) && e@ == "Select one or more files to upload"@),
        facts@.len() > 0 ==> match upload_plan_from(destination@, facts@, 0, 0, Seq::empty()) {
            Ok(ts) => r matches Ok(v) && v@.map_values(|s: String| s@) == ts,
            Err(m) => r matches Err(e) && e@ == m,
        },
{
    if facts.len() == 0 {
        return Err(String::from_str("Select one or more files to upload"));
    }
    let mut targets: Vec<String> = Vec::new();
    let mut total: u64 = 0;
    let mut k: usize = 0;
    assert(targets@.map_values(|s: String| s@) =~= Seq::<Seq<char>>::empty());
    while k < facts.len()
        invariant
            k <= facts@.len(),
            total <= MAX_UPLOAD_BYTES,
            upload_plan_from(destination@, facts@, 0, 0, Seq::empty()) == upload_plan_from(
                destination@,
                facts@,
                k as int,
                total as int,
                targets@.map_values(|s: String| s@),
            ),
        decreases facts@.len() - k,
    {
        let ghost tv = targets@.map_values(|s: String| s@);
        match &facts[k] {
            UploadFacts::Unreadable(e) => {
                let mut m = String::from_str("Failed to read upload: ");
                m.append(e.as_str());
                return Err(m);
            },
            UploadFacts::NotAFile => {
                return Err(String::from_str("Only normal files can be uploaded"));
            },
            UploadFacts::File { size, name, target_exists } => {
                if *size > MAX_UPLOAD_BYTES - total {
                    return Err(String::from_str("Uploads are limited to 500 MB at a time"));
                }
                total = total + *size;
                match name {
                    None => {
                        return Err(String::from_str("Invalid upload filename"));
                    },
                    Some(n) => {
                        let target = join_path_exec(destination, n.as_str());
                        if *target_exists {
                            let mut m = String::from_str(n.as_str());
                            m.append(" already exists in this folder");
                            return Err(m);
                        }
                        let tc = chars_of(target.as_str());
                        let mut dup = false;
                        let mut j: usize = 0;
                        while j < targets.len()
                            invariant
                                j <= targets@.len(),
                                tv == targets@.map_values(|s: String| s@),
                                dup <==> exists|q: int| 0 <= q < j && tv[q] == tc@,
                            decreases targets@.len() - j,
                        {
                            assert(tv[j as int] == targets@[j as int]@);
                            if chars_eq(&chars_of(targets[j].as_str()), &tc) {
                                dup = true;
                            }
                            j = j + 1;
                        }
                        proof {
                            if dup {
                                let q = choose|q: int| 0 <= q < targets@.len() && tv[q] == tc@;
                                assert(tv.contains(tc@));
                            } else {
                                assert(!tv.contains(tc@));
                            }
                        }
                        if dup {
                            let mut m = String::from_str("Multiple selected files are named ");
                            m.append(n.as_str());
                            return Err(m);
                        }
                        targets.push(target);
                        assert(targets@.map_values(|s: String| s@) =~= tv.push(tc@));
                    },
                }
            },
        }
        k = k + 1;
    }
    Ok(targets)
}

} // verus!
