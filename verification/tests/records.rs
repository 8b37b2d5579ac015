use xamppify::backup::{backup_file_path, backup_name, backup_plan_at, backup_record, dump_plan_at, list_backups as list_zip_backups, BackupFileFacts};
use xamppify::config_editor::{config_backup_path_at, httpd_path};
use xamppify::deployment::meta::DeploymentMeta;
use xamppify::deployment::{
    admit_file, already_exists_message, apply_update_at, archive_entry_name, archive_entry_path,
    backup_entry, backup_file_name, check_env_content, custom_domain_input, dependency_command,
    deployment_record, detect_framework, duplicate_meta_at, fresh_meta_at, git_info, list_backups,
    modified_string, run_output, set_domain, set_ssl, sort_deployments, stale_domain,
    vhost_domain_for, BackupFile, DeploymentUpdate, FolderFacts, ProjectProbe, TreeBudget,
};

fn folder(path: &str) -> FolderFacts {
    FolderFacts {
        path: path.to_string(),
        modified_secs: Some(0),
        detected_framework: "php".to_string(),
        vhost_configured: false,
        certificate_exists: false,
        has_env: true,
        has_composer: false,
        has_package_json: false,
    }
}

#[test]
fn deployment_urls_follow_port_and_domain() {
    let meta = DeploymentMeta::default();
    let d = deployment_record("shop", folder("C:\\xampp\\htdocs\\shop"), &meta, 8080, "192.168.1.2");
    assert_eq!(d.url, "http://localhost:8080/shop/");
    assert_eq!(d.network_url, "http://192.168.1.2:8080/shop/");
    assert_eq!(d.framework, "php");
    assert_eq!(d.modified, "1970-01-01 00:00");
    assert!(d.vhost_domain.is_none());
    let mut meta = DeploymentMeta::default();
    meta.custom_domain = Some("shop.test".to_string());
    meta.framework = Some("laravel".to_string());
    meta.ssl_enabled = true;
    let d = deployment_record("shop", folder("p"), &meta, 80, "10.0.0.1");
    assert_eq!(d.url, "http://shop.test/");
    assert_eq!(d.network_url, "http://shop.test/");
    assert_eq!(d.vhost_domain, Some("shop.test".to_string()));
    assert_eq!(d.framework, "laravel");
    assert!(d.ssl_enabled);
    let d = deployment_record("a", folder("p"), &DeploymentMeta::default(), 80, "ip");
    assert_eq!(d.url, "http://localhost/a/");
    assert_eq!(modified_string(None), "Unknown");
}

#[test]
fn deployments_sort_pinned_then_name() {
    let meta = DeploymentMeta::default();
    let mut pinned = DeploymentMeta::default();
    pinned.pinned = true;
    let list = vec![
        deployment_record("beta", folder("b"), &meta, 80, "ip"),
        deployment_record("Alpha", folder("a"), &meta, 80, "ip"),
        deployment_record("zed", folder("z"), &pinned, 80, "ip"),
    ];
    let names: Vec<String> = sort_deployments(list).into_iter().map(|d| d.name).collect();
    assert_eq!(names, ["zed", "Alpha", "beta"]);
}

#[test]
fn metadata_updates() {
    let mut meta = DeploymentMeta::default();
    meta.tags = vec!["x".to_string()];
    let upd = DeploymentUpdate {
        framework: Some("node".to_string()),
        tags: None,
        pinned: Some(true),
        linked_db: None,
        last_opened: true,
    };
    let m = apply_update_at(meta, &upd, "now".to_string());
    assert_eq!(m.framework, Some("node".to_string()));
    assert_eq!(m.tags, ["x"]);
    assert!(m.pinned);
    assert_eq!(m.last_opened, Some("now".to_string()));
    let mut meta = DeploymentMeta::default();
    meta.custom_domain = Some("a.test".to_string());
    meta.vhost_enabled = true;
    meta.ssl_enabled = true;
    let copy = duplicate_meta_at(meta, "t".to_string());
    assert!(copy.custom_domain.is_none() && !copy.vhost_enabled && !copy.ssl_enabled);
    let fresh = fresh_meta_at("html".to_string(), "t".to_string());
    assert_eq!(fresh.framework, Some("html".to_string()));
    assert!(!fresh.pinned);
    let with = set_domain(DeploymentMeta::default(), Some("x.test".to_string()));
    assert!(with.vhost_enabled);
    let without = set_domain(with, None);
    assert!(!without.vhost_enabled && without.custom_domain.is_none());
    let ssl = set_ssl(DeploymentMeta::default(), "x.test".to_string());
    assert!(ssl.ssl_enabled && ssl.vhost_enabled);
}

#[test]
fn domains() {
    assert_eq!(vhost_domain_for(&None, "shop"), "shop.test");
    assert_eq!(vhost_domain_for(&Some("a.b".to_string()), "shop"), "a.b");
    assert_eq!(custom_domain_input(Some("  my.test ")), Ok(Some("my.test".to_string())));
    assert_eq!(
        custom_domain_input(Some("   ")),
        Err("Enter a domain such as myapp.test".to_string())
    );
    assert_eq!(custom_domain_input(None), Ok(None));
    assert_eq!(stale_domain(&Some("a.test".to_string()), "b.test"), Some("a.test".to_string()));
    assert_eq!(stale_domain(&Some("a.test".to_string()), "a.test"), None);
}

#[test]
fn dependency_commands() {
    assert_eq!(
        dependency_command("composer", "install"),
        Ok(("composer".to_string(), vec!["install".to_string(), "--no-interaction".to_string()]))
    );
    assert_eq!(
        dependency_command("npm", "dev"),
        Ok(("npm".to_string(), vec!["run".to_string(), "dev".to_string()]))
    );
    assert_eq!(
        dependency_command("pip", "install"),
        Err("Unsupported tool/action: pip/install".to_string())
    );
    let out = run_output(true, String::new(), "warn".to_string());
    assert_eq!(out.output, "warn");
    assert!(out.success);
}

#[test]
fn git_states() {
    let none = git_info(false, "main", "", "");
    assert!(!none.is_git && none.branch.is_none());
    let g = git_info(true, "main\n", " abc fix \n", "");
    assert!(g.is_git && !g.dirty);
    assert_eq!(g.branch, Some("main".to_string()));
    assert_eq!(g.last_commit, Some("abc fix".to_string()));
    let empty = git_info(true, "", "", "");
    assert!(!empty.is_git);
    assert!(git_info(true, "", "", " M a").dirty);
}

#[test]
fn frameworks_are_detected() {
    let base = ProjectProbe {
        wp_config: false,
        wp_config_sample: false,
        artisan: false,
        composer_json: None,
        vite_config_js: false,
        vite_config_ts: false,
        package_json: None,
        index_php: false,
        index_html: false,
    };
    assert_eq!(detect_framework(&base), "custom");
    let p = ProjectProbe { composer_json: Some(Some("{\"require\":{\"laravel/framework\":\"^11\"}}".to_string())), ..base };
    assert_eq!(detect_framework(&p), "laravel");
    let p = ProjectProbe { composer_json: Some(None), ..p };
    assert_eq!(detect_framework(&p), "php");
    let p = ProjectProbe { composer_json: None, package_json: Some(Some("{\"react\": 1}".to_string())), ..p };
    assert_eq!(detect_framework(&p), "react");
    let p = ProjectProbe { package_json: Some(Some("{}".to_string())), ..p };
    assert_eq!(detect_framework(&p), "node");
    let p = ProjectProbe { wp_config_sample: true, ..p };
    assert_eq!(detect_framework(&p), "wordpress");
}

#[test]
fn copies_and_backups_are_limited() {
    let b = admit_file(TreeBudget { files: 0, bytes: 0 }, 10).unwrap();
    assert_eq!((b.files, b.bytes), (1, 10));
    assert!(admit_file(TreeBudget { files: 10_000, bytes: 0 }, 1).is_none());
    assert!(admit_file(TreeBudget { files: 1, bytes: 524_288_000 }, 1).is_none());
    assert!(admit_file(TreeBudget { files: 1, bytes: 0 }, u64::MAX).is_none());
    assert_eq!(archive_entry_name("", "a.txt"), "a.txt");
    assert_eq!(archive_entry_name("src", "a.txt"), "src/a.txt");
    assert_eq!(archive_entry_path("/src/a/b.txt"), "src\\a\\b.txt");
    assert_eq!(backup_file_name("shop", "20240101-101010"), "shop-20240101-101010.zip");
    assert_eq!(check_env_content("A=1"), Ok(()));
    assert_eq!(check_env_content("A=\0"), Err("Invalid content".to_string()));
    assert_eq!(already_exists_message("x"), "A deployment named 'x' already exists");
}

#[test]
fn deployment_backups_newest_first() {
    let e = backup_entry("my-app-20240102-000000.zip", "p", 5, None).unwrap();
    assert_eq!(e.deployment, "my-app-20240102");
    assert_eq!(e.timestamp, "000000");
    assert!(backup_entry("notes.txt", "p", 1, None).is_none());
    assert!(backup_entry("plain.zip", "p", 1, None).is_none());
    let files = vec![
        BackupFile { file_name: "a-1.zip".to_string(), path: "p1".to_string(), size: 1 },
        BackupFile { file_name: "b-3.zip".to_string(), path: "p2".to_string(), size: 2 },
        BackupFile { file_name: "a-2.zip".to_string(), path: "p3".to_string(), size: 3 },
    ];
    let all: Vec<String> = list_backups(&files, None).into_iter().map(|b| b.path).collect();
    assert_eq!(all, ["p2", "p3", "p1"]);
    let only_a: Vec<String> = list_backups(&files, Some("a")).into_iter().map(|b| b.timestamp).collect();
    assert_eq!(only_a, ["2", "1"]);
}

#[test]
fn htdocs_backups() {
    assert_eq!(backup_name(Some("my site!"), "s"), "my_site_");
    assert_eq!(backup_name(None, "20240101_000000"), "backup_20240101_000000");
    let plan = backup_plan_at("C:\\xampp", None, "S".to_string());
    assert_eq!(plan.zip_path, "C:\\xampp\\backups\\backup_S.zip");
    assert_eq!(
        plan.command,
        "Compress-Archive -Path 'C:\\xampp\\htdocs' -DestinationPath 'C:\\xampp\\backups\\backup_S.zip' -Force"
    );
    let rec = backup_record(plan, None);
    assert_eq!(rec.size, 0);
    assert_eq!(rec.created, "S");
    let files = vec![
        BackupFileFacts { name: "a.zip".to_string(), path: "A".to_string(), size: Some(1), modified_secs: Some(0) },
        BackupFileFacts { name: "b.txt".to_string(), path: "B".to_string(), size: None, modified_secs: None },
        BackupFileFacts { name: "c.zip".to_string(), path: "C".to_string(), size: None, modified_secs: Some(86_400) },
    ];
    let listed = list_zip_backups(files);
    assert_eq!(listed.len(), 2);
    assert_eq!(listed[0].path, "C");
    assert_eq!(listed[0].created, "1970-01-02 00:00:00");
    let dump = dump_plan_at("C:\\x", "T", true);
    assert_eq!(dump.mysqldump, "C:\\x\\mysql\\bin\\mysqldump.exe");
    assert_eq!(dump.args, ["--all-databases", "-u", "root", "-r", "C:\\x\\backups\\mysql_dump_T.sql"]);
}

#[test]
fn config_paths() {
    assert_eq!(httpd_path("C:\\xampp"), "C:\\xampp\\apache\\bin\\httpd.exe");
    assert_eq!(
        config_backup_path_at("D:\\data", "php.ini", "20240101-000000"),
        "D:\\data\\config-backups\\php.ini-20240101-000000"
    );
}

#[test]
fn only_zip_files_in_the_backups_folder_are_restored() {
    let p = |v: &[&str]| v.iter().map(|s| s.to_string()).collect::<Vec<String>>();
    let dir = p(&["C:", "\\", "data", "deployment-backups"]);
    assert_eq!(xamppify::deployment::check_restorable_backup(&p(&["C:", "\\", "data", "deployment-backups", "shop-1.zip"]), &dir), Ok(()));
    let invalid = Err("Invalid backup file".to_string());
    assert_eq!(xamppify::deployment::check_restorable_backup(&p(&["C:", "\\", "data", "deployment-backups", "shop-1.tar"]), &dir), invalid.clone());
    assert_eq!(xamppify::deployment::check_restorable_backup(&p(&["C:", "\\", "data", "deployment-backups", ".zip"]), &dir), invalid.clone());
    assert_eq!(xamppify::deployment::check_restorable_backup(&p(&["C:", "\\", "other", "shop-1.zip"]), &dir), invalid);
}

#[test]
fn backup_names_stay_in_the_backups_folder() {
    assert_eq!(backup_file_path("C:\\xampp", "backup_1.zip"), Ok("C:\\xampp\\backups\\backup_1.zip".to_string()));
    let refused = Err("Invalid backup name".to_string());
    assert_eq!(backup_file_path("C:\\xampp", "..\\htdocs\\index.php"), refused.clone());
    assert_eq!(backup_file_path("C:\\xampp", "C:\\Windows\\win.ini"), refused.clone());
    assert_eq!(backup_file_path("C:\\xampp", "../x.zip"), refused.clone());
    assert_eq!(backup_file_path("C:\\xampp", ".."), refused.clone());
    assert_eq!(backup_file_path("C:\\xampp", ""), refused);
}
