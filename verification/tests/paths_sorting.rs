use xamppify::paths::{
    apache_log_path, check_inside_root, is_direct_child, is_under, is_log_file_name, mysql_log_candidates, mysql_log_path, openssl_path,
    path_for_external_command, ssl_crt_dir, ssl_key_dir, xampp_root,
};
use xamppify::sorting::sort_by_keys;

#[test]
fn installation_paths() {
    assert_eq!(xampp_root(None), "C:\\xampp");
    assert_eq!(xampp_root(Some("D:\\x")), "D:\\x");
    assert_eq!(apache_log_path("C:\\xampp"), "C:\\xampp\\apache\\logs\\error.log");
    assert_eq!(mysql_log_path("C:\\xampp\\"), "C:\\xampp\\mysql\\data\\mysql.err");
    assert_eq!(ssl_crt_dir("C:\\x"), "C:\\x\\apache\\conf\\ssl.crt");
    assert_eq!(ssl_key_dir("C:\\x"), "C:\\x\\apache\\conf\\ssl.key");
    assert_eq!(openssl_path("C:\\x"), "C:\\x\\apache\\bin\\openssl.exe");
    assert_eq!(mysql_log_candidates("C:\\x")[4], "C:\\x\\mysql\\mysql_error.log");
}

#[test]
fn strips_extended_length_prefix() {
    assert_eq!(path_for_external_command("\\\\?\\C:\\x\\a.pem", true), "C:\\x\\a.pem");
    assert_eq!(path_for_external_command("C:\\x\\a.pem", true), "C:\\x\\a.pem");
    assert_eq!(path_for_external_command("\\\\?\\C:\\x\\a.pem", false), "\\\\?\\C:\\x\\a.pem");
}

#[test]
fn log_file_names() {
    assert!(is_log_file_name("host.ERR"));
    assert!(is_log_file_name("mysql_error.log"));
    assert!(!is_log_file_name(".log"));
    assert!(!is_log_file_name("ibdata1"));
}

#[test]
fn sorting_is_stable() {
    let items = vec![1, 2, 3, 4];
    let keys = vec!["b", "a", "b", "a"].into_iter().map(|k| k.chars().collect()).collect();
    assert_eq!(sort_by_keys(items.clone(), keys, false), [2, 4, 1, 3]);
    let keys = vec!["b", "a", "b", "a"].into_iter().map(|k| k.chars().collect()).collect();
    assert_eq!(sort_by_keys(items, keys, true), [1, 3, 2, 4]);
}

fn parts(v: &[&str]) -> Vec<String> {
    v.iter().map(|p| p.to_string()).collect()
}

#[test]
fn only_paths_inside_the_installation_pass() {
    let root = parts(&["\\\\?\\C:", "\\", "xampp"]);
    assert_eq!(check_inside_root(&parts(&["\\\\?\\C:", "\\", "xampp", "htdocs", "a.php"]), &root), Ok(()));
    assert_eq!(check_inside_root(&root, &root), Ok(()));
    let outside = "Path must be inside the configured XAMPP directory".to_string();
    assert_eq!(check_inside_root(&parts(&["\\\\?\\C:", "\\", "xampp2", "x"]), &root), Err(outside.clone()));
    assert_eq!(check_inside_root(&parts(&["\\\\?\\C:", "\\"]), &root), Err(outside.clone()));
    assert_eq!(check_inside_root(&parts(&["\\\\?\\D:", "\\", "xampp"]), &root), Err(outside));
}

#[test]
fn component_prefixes() {
    let htdocs = parts(&["C:", "\\", "xampp", "htdocs"]);
    let site = parts(&["C:", "\\", "xampp", "htdocs", "site"]);
    let deep = parts(&["C:", "\\", "xampp", "htdocs", "site", "css"]);
    assert!(is_under(&deep, &htdocs));
    assert!(!is_under(&htdocs, &deep));
    assert!(is_direct_child(&site, &htdocs));
    assert!(!is_direct_child(&deep, &htdocs));
    assert!(!is_direct_child(&htdocs, &htdocs));
    assert!(!is_under(&parts(&["C:", "\\", "xampp", "htdocs2"]), &htdocs));
}
