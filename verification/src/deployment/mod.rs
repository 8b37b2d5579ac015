//! Deployments: project folders inside `htdocs`.

pub mod templates;
pub mod meta;
pub mod vhosts;
pub mod vhost_laws;

use vstd::prelude::*;
use crate::text::{
    byte_len, byte_len_exceeds, chars_eq, chars_of, is_ascii_alnum, is_ascii_alphanumeric,
    trim, trim_bounds,
};

verus! {

/// A character allowed in a deployment name.
pub open spec fn name_char_ok(c: char) -> bool {
    is_ascii_alnum(c) || c == '-' || c == '_'
}

pub open spec fn name_length_message() -> Seq<char> {
    "Deployment name must be between 1 and 80 characters"@
}

pub open spec fn name_chars_message() -> Seq<char> {
    "Deployment names may contain only letters, numbers, hyphens, and underscores"@
}

/// The checked deployment name: the trimmed input when it is 1 to 80 bytes of
/// letters, digits, `-` and `_`, and not `.` or `..`.
pub open spec fn validated_name(name: Seq<char>) -> Result<Seq<char>, Seq<char>> {
    let t = trim(name);
    if t.len() == 0 || byte_len(t) > 80 {
        Err(name_length_message())
    } else if t == "."@ || t == ".."@ || !(forall|i: int| 0 <= i < t.len() ==> name_char_ok(
        #[trigger] t[i],
    )) {
        Err(name_chars_message())
    } else {
        Ok(t)
    }
}

/// Law: an accepted deployment name is a plain folder name: its trimmed
/// input, of 1 to 80 bytes, only letters, digits, `-` and `_`, so without a
/// path separator or a dot.
pub proof fn law_accepted_names_are_plain(name: Seq<char>)
    requires
        validated_name(name) is Ok,
    ensures
        ({
            let t = validated_name(name)->Ok_0;
            &&& t == trim(name)
            &&& 1 <= t.len() <= byte_len(t) <= 80
            &&& forall|i: int|
                0 <= i < t.len() ==> name_char_ok(#[trigger] t[i]) && t[i] != '/' && t[i] != '\\'
                    && t[i] != '.'
        }),
{
    crate::text::lemma_byte_len_ge_len(trim(name));
}

/// Checks a deployment name (see `validated_name`); the accepted name is the
/// trimmed input.
pub fn validate_name(name: &str) -> (r: Result<&str, String>)
    ensures
        r matches Ok(n) ==> validated_name(name@) == Ok::<Seq<char>, Seq<char>>(n@),
        r matches Err(e) ==> validated_name(name@) == Err::<Seq<char>, Seq<char>>(e@),
{
    let v = chars_of(name);
    let (a, b) = trim_bounds(&v);
    let t = &v[a..b];
    assert(t@ == trim(name@));
    if a == b || byte_len_exceeds(t, 80) {
        return Err(String::from_str("Deployment name must be between 1 and 80 characters"));
    }
    let mut ok = !(chars_eq(t, &chars_of(".")) || chars_eq(t, &chars_of("..")));
    let mut i: usize = 0;
    while i < t.len()
        invariant
            i <= t@.len(),
            ok ==> forall|j: int| 0 <= j < i ==> name_char_ok(#[trigger] t@[j]),
            ok ==> t@ != "."@ && t@ != ".."@,
            !ok ==> (t@ == "."@ || t@ == ".."@ || exists|j: int|
                0 <= j < t@.len() && !name_char_ok(#[trigger] t@[j])),
        decreases t@.len() - i,
    {
        let c = t[i];
        if !(is_ascii_alphanumeric(c) || c == '-' || c == '_') {
            ok = false;
        }
        i = i + 1;
    }
    if !ok {
        return Err(
            String::from_str(
                "Deployment names may contain only letters, numbers, hyphens, and underscores",
            ),
        );
    }
    Ok(name.substring_char(a, b))
}

} // verus!

verus! {

use crate::deployment::meta::{copy_opt, copy_strings, opt_view, strings_view, DeploymentMeta, MetaView};

/// A deployment as the interface shows it.
pub struct Deployment {
    pub name: String,
    pub path: String,
    pub url: String,
    pub network_url: String,
    pub modified: String,
    pub framework: String,
    pub tags: Vec<String>,
    pub pinned: bool,
    pub custom_domain: Option<String>,
    pub linked_db: Option<String>,
    pub vhost_enabled: bool,
    pub ssl_enabled: bool,
    pub last_opened: Option<String>,
    pub has_env: bool,
    pub has_composer: bool,
    pub has_package_json: bool,
    pub vhost_domain: Option<String>,
}

/// A virtual host as the interface shows it.
pub struct VhostInfo {
    pub domain: String,
    pub root: String,
    pub port: u16,
    pub ssl: bool,
}

/// The output of a dependency tool.
pub struct RunOutput {
    pub success: bool,
    pub output: String,
}

/// The state of a deployment's Git checkout.
pub struct GitInfo {
    pub is_git: bool,
    pub branch: Option<String>,
    pub last_commit: Option<String>,
    pub dirty: bool,
}

/// A zip backup of a deployment.
pub struct BackupInfo {
    pub deployment: String,
    pub timestamp: String,
    pub path: String,
    pub size: u64,
}

/// Changes to a deployment's metadata; absent fields stay as they are.
pub struct DeploymentUpdate {
    pub framework: Option<String>,
    pub tags: Option<Vec<String>>,
    pub pinned: Option<bool>,
    pub linked_db: Option<String>,
    pub last_opened: bool,
}

/// The text of a time given in seconds since the Unix epoch, in UTC, as
/// `%Y-%m-%d %H:%M`, when chrono can represent it.
pub uninterp spec fn minute_text(secs: i64) -> Option<Seq<char>>;

/// `chrono::DateTime::from_timestamp` formatted with `%Y-%m-%d %H:%M`.
/// Claimed: the result is named by `minute_text`.
#[verifier::external_body]
fn format_minute(secs: i64) -> (r: Option<String>)
    ensures
        opt_view(r) == minute_text(secs),
{
    match chrono::DateTime::from_timestamp(secs, 0) {
        Some(t) => Some(t.format("%Y-%m-%d %H:%M").to_string()),
        None => None,
    }
}

/// The current local time as `%Y-%m-%d %H:%M:%S` (`chrono::Local::now`).
/// Nothing is claimed of it.
#[verifier::external_body]
pub(crate) fn now_string() -> (r: String) {
    chrono::Local::now().format("%Y-%m-%d %H:%M:%S").to_string()
}

/// The modification time shown for a deployment: the minute of `secs` (the
/// seconds since the epoch, read as `i64`), or `Unknown`.
pub open spec fn modified_text(secs: Option<u64>) -> Seq<char> {
    match secs {
        Some(s) => match minute_text(s as i64) {
            Some(t) => t,
            None => "Unknown"@,
        },
        None => "Unknown"@,
    }
}

/// What the interface shows as a deployment's modification time (see
/// `modified_text`).
pub fn modified_string(secs: Option<u64>) -> (r: String)
    ensures
        r@ == modified_text(secs),
{
    match secs {
        Some(s) => match format_minute(s as i64) {
            Some(t) => t,
            None => String::from_str("Unknown"),
        },
        None => String::from_str("Unknown"),
    }
}

/// The port part of a local URL: nothing for port 80.
pub open spec fn port_suffix(port: u16) -> Seq<char> {
    if port == 80 {
        Seq::empty()
    } else {
        ":"@ + crate::text::decimal(port as nat)
    }
}

/// The local URL, the network URL and the virtual host domain of deployment
/// `name`: its custom domain when it has one, else its folder under
/// `localhost` and under the machine's address `ip`.
pub open spec fn urls_of(name: Seq<char>, custom_domain: Option<Seq<char>>, port: u16, ip: Seq<char>) -> (
    Seq<char>,
    Seq<char>,
    Option<Seq<char>>,
) {
    match custom_domain {
        Some(d) => ("http://"@ + d + "/"@, "http://"@ + d + "/"@, Some(d)),
        None => (
            "http://localhost"@ + port_suffix(port) + "/"@ + name + "/"@,
            "http://"@ + ip + port_suffix(port) + "/"@ + name + "/"@,
            None,
        ),
    }
}

/// What the file system shows of a deployment folder.
pub struct FolderFacts {
    /// The folder's path.
    pub path: String,
    /// Its modification time in seconds since the epoch, when known.
    pub modified_secs: Option<u64>,
    /// The framework detected from its files.
    pub detected_framework: String,
    /// Whether `httpd-vhosts.conf` has a virtual host for it.
    pub vhost_configured: bool,
    /// Whether a certificate `<name>.crt` exists.
    pub certificate_exists: bool,
    pub has_env: bool,
    pub has_composer: bool,
    pub has_package_json: bool,
}

/// The record of deployment `name` from its folder, its metadata, Apache's
/// port and the machine's address.
pub fn deployment_record(
    name: &str,
    folder: FolderFacts,
    meta: &DeploymentMeta,
    apache_port: u16,
    ip: &str,
) -> (r: Deployment)
    ensures
        r.name@ == name@,
        r.path == folder.path,
        (r.url@, r.network_url@, opt_view(r.vhost_domain)) == urls_of(
            name@,
            meta@.custom_domain,
            apache_port,
            ip@,
        ),
        r.modified@ == modified_text(folder.modified_secs),
        r.framework@ == (match meta@.framework {
            Some(f) => f,
            None => folder.detected_framework@,
        }),
        strings_view(r.tags@) == meta@.tags,
        r.pinned == meta.pinned,
        opt_view(r.custom_domain) == meta@.custom_domain,
        opt_view(r.linked_db) == meta@.linked_db,
        r.vhost_enabled == (meta.vhost_enabled || folder.vhost_configured),
        r.ssl_enabled == (meta.ssl_enabled || folder.certificate_exists),
        opt_view(r.last_opened) == meta@.last_opened,
        r.has_env == folder.has_env,
        r.has_composer == folder.has_composer,
        r.has_package_json == folder.has_package_json,
{
    let suffix = if apache_port == 80 {
        String::new()
    } else {
        let mut s = String::from_str(":");
        let d = crate::text::decimal_string(apache_port as u64);
        s.append(d.as_str());
        s
    };
    let (url, network_url, vhost_domain) = match &meta.custom_domain {
        Some(domain) => {
            let mut u = String::from_str("http://");
            u.append(domain.as_str());
            u.append("/");
            let n = u.clone();
            (u, n, Some(domain.clone()))
        },
        None => {
            let mut u = String::from_str("http://localhost");
            u.append(suffix.as_str());
            u.append("/");
            u.append(name);
            u.append("/");
            let mut n = String::from_str("http://");
            n.append(ip);
            n.append(suffix.as_str());
            n.append("/");
            n.append(name);
            n.append("/");
            (u, n, None)
        },
    };
    let framework = match &meta.framework {
        Some(f) => f.clone(),
        None => folder.detected_framework,
    };
    Deployment {
        name: String::from_str(name),
        path: folder.path,
        url,
        network_url,
        modified: modified_string(folder.modified_secs),
        framework,
        tags: copy_strings(&meta.tags),
        pinned: meta.pinned,
        custom_domain: copy_opt(&meta.custom_domain),
        linked_db: copy_opt(&meta.linked_db),
        vhost_enabled: meta.vhost_enabled || folder.vhost_configured,
        ssl_enabled: meta.ssl_enabled || folder.certificate_exists,
        last_opened: copy_opt(&meta.last_opened),
        has_env: folder.has_env,
        has_composer: folder.has_composer,
        has_package_json: folder.has_package_json,
        vhost_domain,
    }
}

/// The key that orders deployments: pinned ones first, then by lower-cased
/// name.
pub open spec fn deployment_key(pinned: bool, name: Seq<char>) -> Seq<char> {
    (if pinned {
        "0"@
    } else {
        "1"@
    }) + crate::unicode::lowercase(name)
}

/// The deployments in the order the interface lists them: pinned first, then
/// by lower-cased name, equal ones in their given order.
pub fn sort_deployments(deployments: Vec<Deployment>) -> (r: Vec<Deployment>)
    ensures
        r@ == crate::sorting::stable_sorted(
            deployments@,
            deployments@.map_values(|d: Deployment| deployment_key(d.pinned, d.name@)),
            false,
        ).0,
{
    let mut keys: Vec<Vec<char>> = Vec::new();
    let mut i: usize = 0;
    while i < deployments.len()
        invariant
            i <= deployments@.len(),
            keys@.len() == i,
            forall|j: int|
                0 <= j < i ==> (#[trigger] keys@[j])@ == deployment_key(
                    deployments@[j].pinned,
                    deployments@[j].name@,
                ),
        decreases deployments@.len() - i,
    {
        let lower = crate::unicode::to_lowercase(deployments[i].name.as_str());
        let mut k = if deployments[i].pinned {
            chars_of("0")
        } else {
            chars_of("1")
        };
        let lv = chars_of(lower.as_str());
        let mut j: usize = 0;
        let ghost k0 = k@;
        while j < lv.len()
            invariant
                j <= lv@.len(),
                k@ == k0 + lv@.take(j as int),
            decreases lv@.len() - j,
        {
            k.push(lv[j]);
            j = j + 1;
            assert(k@ =~= k0 + lv@.take(j as int));
        }
        assert(lv@.take(lv@.len() as int) =~= lv@);
        keys.push(k);
        i = i + 1;
    }
    proof {
        assert(crate::sorting::key_views(keys@) =~= deployments@.map_values(
            |d: Deployment| deployment_key(d.pinned, d.name@),
        ));
    }
    crate::sorting::sort_by_keys(deployments, keys, false)
}

/// The metadata after applying `updates`, with `now` as the time of opening
/// when the update asks for it.
pub open spec fn updated_meta(m: MetaView, u: DeploymentUpdate, now: Seq<char>) -> MetaView {
    MetaView {
        framework: match u.framework {
            Some(f) => Some(f@),
            None => m.framework,
        },
        tags: match u.tags {
            Some(t) => strings_view(t@),
            None => m.tags,
        },
        pinned: match u.pinned {
            Some(p) => p,
            None => m.pinned,
        },
        linked_db: match u.linked_db {
            Some(d) => Some(d@),
            None => m.linked_db,
        },
        last_opened: if u.last_opened {
            Some(now)
        } else {
            m.last_opened
        },
        ..m
    }
}

/// Applies `updates` to `meta`, opening it at `now` when asked (see
/// `updated_meta`).
pub fn apply_update_at(meta: DeploymentMeta, updates: &DeploymentUpdate, now: String) -> (r:
    DeploymentMeta)
    ensures
        r@ == updated_meta(meta@, *updates, now@),
{
    let mut meta = meta;
    if let Some(framework) = &updates.framework {
        meta.framework = Some(framework.clone());
    }
    if let Some(tags) = &updates.tags {
        meta.tags = copy_strings(tags);
    }
    if let Some(pinned) = updates.pinned {
        meta.pinned = pinned;
    }
    if let Some(linked_db) = &updates.linked_db {
        meta.linked_db = Some(linked_db.clone());
    }
    if updates.last_opened {
        meta.last_opened = Some(now);
    }
    meta
}

/// Applies `updates` to `meta`, with the current time as the time of opening
/// (see `updated_meta`).
pub fn apply_update(meta: DeploymentMeta, updates: &DeploymentUpdate) -> (r: DeploymentMeta)
    ensures
        exists|now: Seq<char>| r@ == updated_meta(meta@, *updates, now),
{
    let now = now_string();
    let r = apply_update_at(meta, updates, now);
    r
}

/// The metadata of a copy of a deployment: the original's, without its
/// domain, virtual host and certificate, opened at `now`.
pub open spec fn duplicated_meta(m: MetaView, now: Seq<char>) -> MetaView {
    MetaView { custom_domain: None, vhost_enabled: false, ssl_enabled: false, last_opened: Some(now), ..m }
}

/// The metadata for a copy of a deployment (see `duplicated_meta`).
pub fn duplicate_meta_at(meta: DeploymentMeta, now: String) -> (r: DeploymentMeta)
    ensures
        r@ == duplicated_meta(meta@, now@),
{
    let mut m = meta;
    m.custom_domain = None;
    m.vhost_enabled = false;
    m.ssl_enabled = false;
    m.last_opened = Some(now);
    m
}

/// The metadata recorded for a new, imported, cloned or restored deployment:
/// only its framework and the time it was opened.
pub open spec fn fresh_meta(framework: Seq<char>, now: Seq<char>) -> MetaView {
    MetaView {
        framework: Some(framework),
        last_opened: Some(now),
        ..crate::deployment::meta::default_meta()
    }
}

/// Metadata for a deployment that was just created (see `fresh_meta`).
pub fn fresh_meta_at(framework: String, now: String) -> (r: DeploymentMeta)
    ensures
        r@ == fresh_meta(framework@, now@),
{
    let mut m = DeploymentMeta::default();
    m.framework = Some(framework);
    m.last_opened = Some(now);
    m
}

/// The output shown for a dependency command: its standard output, or its
/// error output when the standard output is empty.
pub fn run_output(success: bool, stdout: String, stderr: String) -> (r: RunOutput)
    ensures
        r.success == success,
        r.output@ == (if stdout@.len() == 0 {
            stderr@
        } else {
            stdout@
        }),
{
    let output = if stdout.as_str().is_empty() {
        stderr
    } else {
        stdout
    };
    RunOutput { success, output }
}

/// The program and arguments for a dependency `tool` and `action`.
pub open spec fn dependency_command_of(tool: Seq<char>, action: Seq<char>) -> Option<(Seq<char>, Seq<Seq<char>>)> {
    if tool == "composer"@ && action == "install"@ {
        Some(("composer"@, seq!["install"@, "--no-interaction"@]))
    } else if tool == "composer"@ && action == "update"@ {
        Some(("composer"@, seq!["update"@, "--no-interaction"@]))
    } else if tool == "composer"@ && action == "outdated"@ {
        Some(("composer"@, seq!["outdated"@, "--direct"@]))
    } else if tool == "npm"@ && action == "install"@ {
        Some(("npm"@, seq!["install"@]))
    } else if tool == "npm"@ && action == "build"@ {
        Some(("npm"@, seq!["run"@, "build"@]))
    } else if tool == "npm"@ && action == "outdated"@ {
        Some(("npm"@, seq!["outdated"@]))
    } else if tool == "npm"@ && action == "dev"@ {
        Some(("npm"@, seq!["run"@, "dev"@]))
    } else {
        None
    }
}

/// The command that runs `action` of `tool` in a deployment, or the refusal
/// of an unknown pair (see `dependency_command_of`).
pub fn dependency_command(tool: &str, action: &str) -> (r: Result<(String, Vec<String>), String>)
    ensures
        match r {
            Ok((p, args)) => dependency_command_of(tool@, action@) == Some(
                (p@, args@.map_values(|s: String| s@)),
            ),
            Err(e) => dependency_command_of(tool@, action@) is None && e@
                == "Unsupported tool/action: "@ + tool@ + "/"@ + action@,
        },
{
    let t = chars_of(tool);
    let a = chars_of(action);
    let composer = chars_eq(&t, &chars_of("composer"));
    let npm = chars_eq(&t, &chars_of("npm"));
    let install = chars_eq(&a, &chars_of("install"));
    let update = chars_eq(&a, &chars_of("update"));
    let outdated = chars_eq(&a, &chars_of("outdated"));
    let build = chars_eq(&a, &chars_of("build"));
    let dev = chars_eq(&a, &chars_of("dev"));
    let (program, args): (&str, Vec<String>) = if composer && install {
        ("composer", vec![String::from_str("install"), String::from_str("--no-interaction")])
    } else if composer && update {
        ("composer", vec![String::from_str("update"), String::from_str("--no-interaction")])
    } else if composer && outdated {
        ("composer", vec![String::from_str("outdated"), String::from_str("--direct")])
    } else if npm && install {
        ("npm", vec![String::from_str("install")])
    } else if npm && build {
        ("npm", vec![String::from_str("run"), String::from_str("build")])
    } else if npm && outdated {
        ("npm", vec![String::from_str("outdated")])
    } else if npm && dev {
        ("npm", vec![String::from_str("run"), String::from_str("dev")])
    } else {
        let mut e = String::from_str("Unsupported tool/action: ");
        e.append(tool);
        e.append("/");
        e.append(action);
        return Err(e);
    };
    let ghost expect = dependency_command_of(tool@, action@);
    assert(expect matches Some(x) && x.1 =~= args@.map_values(|s: String| s@));
    Ok((String::from_str(program), args))
}

/// What Git tells of a deployment: whether it is a checkout (it has a `.git`
/// folder and Git answered something), its branch and last commit when
/// known, and whether it has uncommitted changes. Git's answers are trimmed.
pub fn git_info(has_git_dir: bool, branch: &str, last_commit: &str, status: &str) -> (r: GitInfo)
    ensures
        !has_git_dir ==> !r.is_git && r.branch is None && r.last_commit is None && !r.dirty,
        has_git_dir ==> {
            &&& r.is_git == !(trim(branch@).len() == 0 && trim(last_commit@).len() == 0
                && trim(status@).len() == 0)
            &&& opt_view(r.branch) == (if trim(branch@).len() == 0 {
                None
            } else {
                Some(trim(branch@))
            })
            &&& opt_view(r.last_commit) == (if trim(last_commit@).len() == 0 {
                None
            } else {
                Some(trim(last_commit@))
            })
            &&& r.dirty == (trim(status@).len() != 0)
        },
{
    if !has_git_dir {
        return GitInfo { is_git: false, branch: None, last_commit: None, dirty: false };
    }
    let b = trimmed(branch);
    let c = trimmed(last_commit);
    let s = trimmed(status);
    let has_git = !(b.as_str().is_empty() && c.as_str().is_empty() && s.as_str().is_empty());
    let dirty = !s.as_str().is_empty();
    GitInfo {
        is_git: has_git,
        branch: if b.as_str().is_empty() {
            None
        } else {
            Some(b)
        },
        last_commit: if c.as_str().is_empty() {
            None
        } else {
            Some(c)
        },
        dirty,
    }
}

/// `s` trimmed (`str::trim`).
pub fn trimmed(s: &str) -> (r: String)
    ensures
        r@ == trim(s@),
{
    let v = chars_of(s);
    let (a, b) = trim_bounds(&v);
    crate::text::string_of_range(&v, a, b)
}

} // verus!

verus! {

use crate::paths::{extension_of, extension_range, join_path, join_path_exec};
use crate::ssl_manager::file_stem_of;

/// Where deployments live: `htdocs` in the installation.
pub fn deployment_root(xampp_root: &str) -> (r: String)
    ensures
        r@ == join_path(xampp_root@, "htdocs"@),
{
    join_path_exec(xampp_root, "htdocs")
}

/// The certificate that marks deployment `name` as served over HTTPS:
/// `<name>.crt` in the certificate directory.
pub fn deployment_cert_path(xampp_root: &str, name: &str) -> (r: String)
    ensures
        r@ == join_path(
            crate::paths::join_all(xampp_root@, seq!["apache"@, "conf"@, "ssl.crt"@]),
            name@ + ".crt"@,
        ),
{
    let dir = crate::paths::ssl_crt_dir(xampp_root);
    let mut file = String::from_str(name);
    file.append(".crt");
    join_path_exec(dir.as_str(), file.as_str())
}

/// The refusal to create over an existing deployment.
pub fn already_exists_message(name: &str) -> (r: String)
    ensures
        r@ == "A deployment named '"@ + name@ + "' already exists"@,
{
    let mut r = String::from_str("A deployment named '");
    r.append(name);
    r.append("' already exists");
    r
}

/// The error for a deployment that is not there.
pub fn not_found_message(name: &str) -> (r: String)
    ensures
        r@ == "Deployment '"@ + name@ + "' not found"@,
{
    let mut r = String::from_str("Deployment '");
    r.append(name);
    r.append("' not found");
    r
}

/// Text for a deployment's `.env` file is refused when it holds a NUL.
pub fn check_env_content(content: &str) -> (r: Result<(), String>)
    ensures
        r is Ok <==> !crate::text::has_char(content@, '\0'),
        r matches Err(e) ==> e@ == "Invalid content"@,
{
    let v = chars_of(content);
    if crate::text::has_char_exec(&v, '\0') {
        Err(String::from_str("Invalid content"))
    } else {
        Ok(())
    }
}

/// Which files a project folder has, and what its manifests say, when they
/// could be read.
pub struct ProjectProbe {
    pub wp_config: bool,
    pub wp_config_sample: bool,
    pub artisan: bool,
    /// `composer.json`: absent, present but unreadable, or its text.
    pub composer_json: Option<Option<String>>,
    pub vite_config_js: bool,
    pub vite_config_ts: bool,
    /// `package.json`: absent, present but unreadable, or its text.
    pub package_json: Option<Option<String>>,
    pub index_php: bool,
    pub index_html: bool,
}

/// The framework a project folder looks like, in this order: WordPress by its
/// configuration, Laravel by `artisan` and `composer.json` or by a composer
/// manifest requiring it, plain PHP by another composer manifest, React by a
/// Vite configuration or a package manifest naming it, Node by another package
/// manifest, then PHP, HTML, or `custom`.
pub open spec fn detected_framework(p: ProjectProbe) -> Seq<char> {
    if p.wp_config || p.wp_config_sample {
        "wordpress"@
    } else if p.artisan && p.composer_json is Some {
        "laravel"@
    } else if p.composer_json is Some {
        match p.composer_json {
            Some(Some(c)) => if crate::text::contains(c@, "\"laravel/framework\""@) {
                "laravel"@
            } else {
                "php"@
            },
            _ => "php"@,
        }
    } else if p.vite_config_js || p.vite_config_ts {
        "react"@
    } else if p.package_json is Some {
        match p.package_json {
            Some(Some(c)) => if crate::text::contains(c@, "\"react\""@) {
                "react"@
            } else {
                "node"@
            },
            _ => "node"@,
        }
    } else if p.index_php {
        "php"@
    } else if p.index_html {
        "html"@
    } else {
        "custom"@
    }
}

/// The framework of a project folder (see `detected_framework`).
pub fn detect_framework(p: &ProjectProbe) -> (r: String)
    ensures
        r@ == detected_framework(*p),
{
    if p.wp_config || p.wp_config_sample {
        return String::from_str("wordpress");
    }
    if p.artisan && p.composer_json.is_some() {
        return String::from_str("laravel");
    }
    match &p.composer_json {
        Some(c) => {
            if let Some(text) = c {
                let t = chars_of(text.as_str());
                if crate::text::contains_exec(&t, &chars_of("\"laravel/framework\"")) {
                    return String::from_str("laravel");
                }
            }
            return String::from_str("php");
        },
        None => {},
    }
    if p.vite_config_js || p.vite_config_ts {
        return String::from_str("react");
    }
    match &p.package_json {
        Some(c) => {
            if let Some(text) = c {
                let t = chars_of(text.as_str());
                if crate::text::contains_exec(&t, &chars_of("\"react\"")) {
                    return String::from_str("react");
                }
            }
            return String::from_str("node");
        },
        None => {},
    }
    if p.index_php {
        return String::from_str("php");
    }
    if p.index_html {
        return String::from_str("html");
    }
    String::from_str("custom")
}

// ---------------------------------------------------------------------------
// Domains and virtual hosts
// ---------------------------------------------------------------------------

/// The domain a deployment is served under once it gets a virtual host: its
/// custom domain, or `<name>.test`.
pub fn vhost_domain_for(custom_domain: &Option<String>, name: &str) -> (r: String)
    ensures
        r@ == (match opt_view(*custom_domain) {
            Some(d) => d,
            None => name@ + ".test"@,
        }),
{
    match custom_domain {
        Some(d) => d.clone(),
        None => {
            let mut r = String::from_str(name);
            r.append(".test");
            r
        },
    }
}

/// A requested custom domain, trimmed; a blank one is refused.
pub fn custom_domain_input(domain: Option<&str>) -> (r: Result<Option<String>, String>)
    ensures
        match domain {
            None => r matches Ok(None),
            Some(d) => if trim(d@).len() == 0 {
                r matches Err(e) && e@ == "Enter a domain such as myapp.test"@
            } else {
                r matches Ok(Some(x)) && x@ == trim(d@)
            },
        },
{
    match domain {
        None => Ok(None),
        Some(d) => {
            let t = trimmed(d);
            if t.as_str().is_empty() {
                Err(String::from_str("Enter a domain such as myapp.test"))
            } else {
                Ok(Some(t))
            }
        },
    }
}

/// The metadata with a virtual host under `domain`, or without one.
pub open spec fn with_domain(m: MetaView, domain: Option<Seq<char>>) -> MetaView {
    MetaView { custom_domain: domain, vhost_enabled: domain is Some, ..m }
}

/// Gives a deployment a virtual host under `domain`, or takes it away (see
/// `with_domain`).
pub fn set_domain(meta: DeploymentMeta, domain: Option<String>) -> (r: DeploymentMeta)
    ensures
        r@ == with_domain(meta@, opt_view(domain)),
{
    let mut m = meta;
    m.vhost_enabled = domain.is_some();
    m.custom_domain = domain;
    m
}

/// The metadata once a deployment is served over HTTPS under `domain`.
pub open spec fn with_ssl(m: MetaView, domain: Seq<char>) -> MetaView {
    MetaView { ssl_enabled: true, vhost_enabled: true, custom_domain: Some(domain), ..m }
}

/// Marks a deployment as served over HTTPS under `domain` (see `with_ssl`).
pub fn set_ssl(meta: DeploymentMeta, domain: String) -> (r: DeploymentMeta)
    ensures
        r@ == with_ssl(meta@, domain@),
{
    let mut m = meta;
    m.ssl_enabled = true;
    m.vhost_enabled = true;
    m.custom_domain = Some(domain);
    m
}

/// The hosts entry to drop when a deployment's domain changes: the old domain,
/// unless the new one is the same.
pub fn stale_domain(old_domain: &Option<String>, new_domain: &str) -> (r: Option<String>)
    ensures
        opt_view(r) == (match opt_view(*old_domain) {
            Some(o) => if o != new_domain@ {
                Some(o)
            } else {
                None
            },
            None => None,
        }),
{
    match old_domain {
        Some(o) => {
            let a = chars_of(o.as_str());
            let b = chars_of(new_domain);
            if crate::text::chars_eq(&a, &b) {
                None
            } else {
                Some(o.clone())
            }
        },
        None => None,
    }
}

/// The lifetime of the certificate made for a deployment, in days.
pub const DEPLOYMENT_CERT_DAYS: u32 = 825;

// ---------------------------------------------------------------------------
// Copies and backups
// ---------------------------------------------------------------------------

/// At most this many files go into a copy or a backup.
pub const MAX_TREE_FILES: usize = 10_000;

/// At most this many bytes go into a copy or a backup (500 MB).
pub const MAX_TREE_BYTES: u64 = 524_288_000;

/// What a copy or backup has taken in so far.
#[derive(Clone, Copy, Debug)]
pub struct TreeBudget {
    pub files: usize,
    pub bytes: u64,
}

/// Counts one more file of `size` bytes; the copy or backup stops once more
/// than 10,000 files or 500 MB are counted.
pub fn admit_file(budget: TreeBudget, size: u64) -> (r: Option<TreeBudget>)
    ensures
        match r {
            Some(b) => b.files == budget.files + 1 && b.bytes == budget.bytes + size
                && b.files <= MAX_TREE_FILES && b.bytes <= MAX_TREE_BYTES,
            None => budget.files + 1 > MAX_TREE_FILES || budget.bytes + size > MAX_TREE_BYTES,
        },
{
    if budget.files >= MAX_TREE_FILES {
        return None;
    }
    let files = budget.files + 1;
    if size > MAX_TREE_BYTES || budget.bytes > MAX_TREE_BYTES - size {
        return None;
    }
    Some(TreeBudget { files, bytes: budget.bytes + size })
}

/// The name of an entry inside a backup archive: `name` under the folder
/// `base`, separated by `/`.
pub fn archive_entry_name(base: &str, name: &str) -> (r: String)
    ensures
        r@ == (if base@.len() == 0 {
            name@
        } else {
            base@ + "/"@ + name@
        }),
{
    if base.is_empty() {
        String::from_str(name)
    } else {
        let mut r = String::from_str(base);
        r.append("/");
        r.append(name);
        r
    }
}

/// A character of an archive entry's name with `/` turned into `\`.
pub open spec fn to_backslash(c: char) -> char {
    if c == '/' {
        '\\'
    } else {
        c
    }
}

/// Where an archive entry goes inside the deployment: its name with Windows
/// separators and without leading separators.
pub open spec fn entry_path_of(name: Seq<char>) -> Seq<char> {
    crate::text::trim_start_by(name.map_values(|c: char| to_backslash(c)), crate::text::in_set(seq!['\\']))
}

/// The relative path of an archive entry (see `entry_path_of`).
pub fn archive_entry_path(name: &str) -> (r: String)
    ensures
        r@ == entry_path_of(name@),
{
    let v = chars_of(name);
    let mut m: Vec<char> = Vec::new();
    let mut i: usize = 0;
    while i < v.len()
        invariant
            i <= v@.len(),
            m@ == v@.take(i as int).map_values(|c: char| to_backslash(c)),
        decreases v@.len() - i,
    {
        m.push(if v[i] == '/' {
            '\\'
        } else {
            v[i]
        });
        i = i + 1;
        assert(m@ =~= v@.take(i as int).map_values(|c: char| to_backslash(c)));
    }
    assert(v@.take(v@.len() as int) =~= v@);
    let sep = vec!['\\'];
    assert(sep@ =~= seq!['\\']);
    let a = crate::text::skip_set(&m, 0, m.len(), &sep);
    proof {
        assert(m@.subrange(0, m@.len() as int) =~= m@);
    }
    crate::text::string_of_range(&m, a, m.len())
}

/// The refusal of a file to restore that is not a deployment backup.
pub open spec fn invalid_backup_message() -> Seq<char> {
    "Invalid backup file"@
}

/// Whether a resolved file, given as its components, may be restored: it
/// lies in the backups folder and its name has the extension `zip`.
pub open spec fn restorable(backup: Seq<Seq<char>>, backups_dir: Seq<Seq<char>>) -> bool {
    &&& crate::paths::under_root(backup, backups_dir)
    &&& backup.len() > 0
    &&& crate::paths::extension_of(backup.last()) == Some("zip"@)
}

/// Checks a file picked for restoring (see `restorable`).
pub fn check_restorable_backup(backup: &Vec<String>, backups_dir: &Vec<String>) -> (r: Result<
    (),
    String,
>)
    ensures
        r is Ok <==> restorable(
            crate::paths::component_views(backup@),
            crate::paths::component_views(backups_dir@),
        ),
        r matches Err(e) ==> e@ == invalid_backup_message(),
{
    let ghost bv = crate::paths::component_views(backup@);
    if !crate::paths::is_under(backup, backups_dir) || backup.len() == 0 {
        return Err(String::from_str("Invalid backup file"));
    }
    let last = chars_of(backup[backup.len() - 1].as_str());
    assert(last@ == bv.last());
    match crate::paths::extension_range(&last) {
        Some((a, b)) => {
            let zip = chars_of("zip");
            if chars_eq(&last[a..b], &zip) {
                Ok(())
            } else {
                Err(String::from_str("Invalid backup file"))
            }
        },
        None => Err(String::from_str("Invalid backup file")),
    }
}

/// The backup file of deployment `name` made at `timestamp`.
pub fn backup_file_name(name: &str, timestamp: &str) -> (r: String)
    ensures
        r@ == name@ + "-"@ + timestamp@ + ".zip"@,
{
    let mut r = String::from_str(name);
    r.append("-");
    r.append(timestamp);
    r.append(".zip");
    r
}

/// The local time as `%Y%m%d-%H%M%S` (`chrono::Local::now`), for naming a
/// backup. Nothing is claimed of it.
#[verifier::external_body]
pub(crate) fn backup_timestamp() -> (r: String) {
    chrono::Local::now().format("%Y%m%d-%H%M%S").to_string()
}

/// The backup file for deployment `name`, named after the current time.
pub fn new_backup_file_name(name: &str) -> (r: String)
    ensures
        exists|t: Seq<char>| r@ == name@ + "-"@ + t + ".zip"@,
{
    let t = backup_timestamp();
    backup_file_name(name, t.as_str())
}

/// The backup a file stands for: a `.zip` named `<deployment>-<timestamp>`
/// (split at the last `-`), when it belongs to the deployment asked for.
pub open spec fn backup_of(file_name: Seq<char>, filter: Option<Seq<char>>) -> Option<(Seq<char>, Seq<char>)> {
    let stem = file_stem_of(file_name);
    let k = crate::text::rfind_before(stem, '-', stem.len() as int);
    if extension_of(file_name) != Some("zip"@) || k < 0 {
        None
    } else {
        let dep = stem.take(k);
        let ts = stem.subrange(k + 1, stem.len() as int);
        match filter {
            Some(f) => if f == dep {
                Some((dep, ts))
            } else {
                None
            },
            None => Some((dep, ts)),
        }
    }
}

/// The backup in the file `file_name` at `path`, of `size` bytes (see
/// `backup_of`).
pub fn backup_entry(file_name: &str, path: &str, size: u64, filter: Option<&str>) -> (r: Option<BackupInfo>)
    ensures
        match backup_of(file_name@, match filter { Some(f) => Some(f@), None => None }) {
            Some((d, t)) => r matches Some(b) && b.deployment@ == d && b.timestamp@ == t
                && b.path@ == path@ && b.size == size,
            None => r is None,
        },
{
    let v = chars_of(file_name);
    let zip = chars_of("zip");
    let is_zip = match extension_range(&v) {
        Some((a, b)) => crate::text::chars_eq(&v[a..b], &zip),
        None => false,
    };
    if !is_zip {
        return None;
    }
    let dots = chars_of("..");
    let stem_end = if crate::text::chars_eq(&v, &dots) {
        v.len()
    } else {
        match crate::text::rfind_exec(&v, 0, v.len(), '.') {
            Some(k) => if k == 0 {
                v.len()
            } else {
                k
            },
            None => v.len(),
        }
    };
    assert(v@.subrange(0, v@.len() as int) =~= v@);
    let ghost stem = file_stem_of(v@);
    assert(stem =~= v@.subrange(0, stem_end as int));
    match crate::text::rfind_exec(&v, 0, stem_end, '-') {
        None => None,
        Some(k) => {
            let dep = crate::text::string_of_range(&v, 0, k);
            let ts = crate::text::string_of_range(&v, k + 1, stem_end);
            assert(stem.take(k as int) =~= dep@);
            assert(stem.subrange(k + 1, stem.len() as int) =~= ts@);
            let keep = match filter {
                Some(f) => {
                    let fv = chars_of(f);
                    let dv = chars_of(dep.as_str());
                    crate::text::chars_eq(&fv, &dv)
                },
                None => true,
            };
            if keep {
                Some(BackupInfo { deployment: dep, timestamp: ts, path: String::from_str(path), size })
            } else {
                None
            }
        },
    }
}

/// A file in the backups folder: its name, path and size.
pub struct BackupFile {
    pub file_name: String,
    pub path: String,
    pub size: u64,
}

/// The contents of a `BackupInfo`: deployment, timestamp, path and size.
pub open spec fn backup_view(b: BackupInfo) -> (Seq<char>, Seq<char>, Seq<char>, u64) {
    (b.deployment@, b.timestamp@, b.path@, b.size)
}

/// The backups among `files`, in folder order.
pub open spec fn found_backups(files: Seq<BackupFile>, filter: Option<Seq<char>>) -> Seq<
    (Seq<char>, Seq<char>, Seq<char>, u64),
>
    decreases files.len(),
{
    if files.len() == 0 {
        Seq::empty()
    } else {
        let prev = found_backups(files.drop_last(), filter);
        let f = files.last();
        match backup_of(f.file_name@, filter) {
            Some((d, t)) => prev.push((d, t, f.path@, f.size)),
            None => prev,
        }
    }
}

/// The backups among the files of the backups folder, for one deployment or
/// all, newest first (by timestamp text, equal ones in folder order).
pub fn list_backups(files: &Vec<BackupFile>, filter: Option<&str>) -> (r: Vec<BackupInfo>)
    ensures
        r@.map_values(|b: BackupInfo| backup_view(b)) == ({
            let found = found_backups(
                files@,
                match filter {
                    Some(f) => Some(f@),
                    None => None,
                },
            );
            crate::sorting::stable_sorted(
                found,
                found.map_values(|x: (Seq<char>, Seq<char>, Seq<char>, u64)| x.1),
                true,
            ).0
        }),
{
    let ghost fl = match filter {
        Some(f) => Some(f@),
        None => None,
    };
    let mut found: Vec<BackupInfo> = Vec::new();
    let mut keys: Vec<Vec<char>> = Vec::new();
    let mut i: usize = 0;
    while i < files.len()
        invariant
            i <= files@.len(),
            fl == (match filter {
                Some(f) => Some(f@),
                None => None::<Seq<char>>,
            }),
            keys@.len() == found@.len(),
            forall|k: int| 0 <= k < keys@.len() ==> (#[trigger] keys@[k])@ == found@[k].timestamp@,
            found@.map_values(|b: BackupInfo| backup_view(b)) == found_backups(
                files@.take(i as int),
                fl,
            ),
        decreases files@.len() - i,
    {
        let f = &files[i];
        proof {
            assert(files@.take(i + 1).drop_last() =~= files@.take(i as int));
            assert(files@.take(i + 1).last() == *f);
        }
        let ghost before = found@;
        match backup_entry(f.file_name.as_str(), f.path.as_str(), f.size, filter) {
            Some(b) => {
                keys.push(chars_of(b.timestamp.as_str()));
                found.push(b);
                assert(found@.map_values(|b: BackupInfo| backup_view(b)) =~= before.map_values(
                    |b: BackupInfo| backup_view(b),
                ).push(backup_view(found@.last())));
            },
            None => {},
        }
        i = i + 1;
    }
    assert(files@.take(files@.len() as int) =~= files@);
    let ghost fs = found@;
    let ghost kv = crate::sorting::key_views(keys@);
    proof {
        assert(kv =~= fs.map_values(|b: BackupInfo| backup_view(b)).map_values(
            |x: (Seq<char>, Seq<char>, Seq<char>, u64)| x.1,
        ));
        crate::sorting::lemma_sorted_map(fs, kv, true, |b: BackupInfo| backup_view(b));
    }
    crate::sorting::sort_by_keys(found, keys, true)
}

} // verus!
