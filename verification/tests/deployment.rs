use xamppify::deployment::meta::{DeploymentMeta, MetaStore};
use xamppify::deployment::templates::{choose_framework, framework_label, template_files, title_case};
use xamppify::deployment::validate_name;
use xamppify::deployment::vhosts::{
    list_vhosts, remove_hosts_entry, sanitize_domain, set_hosts_entry, set_vhost, vhost_for_deployment,
};

#[test]
fn accepts_safe_deployment_names() {
    assert_eq!(validate_name("my_app-2"), Ok("my_app-2"));
}

#[test]
fn rejects_path_traversal() {
    assert!(validate_name("../outside").is_err());
}

#[test]
fn rejects_special_chars() {
    assert!(validate_name("my app").is_err());
}

#[test]
fn names_are_trimmed_and_limited_to_80_bytes() {
    assert_eq!(validate_name("  site  "), Ok("site"));
    assert_eq!(
        validate_name(""),
        Err("Deployment name must be between 1 and 80 characters".to_string())
    );
    assert!(validate_name(&"a".repeat(80)).is_ok());
    assert_eq!(
        validate_name(&"a".repeat(81)),
        Err("Deployment name must be between 1 and 80 characters".to_string())
    );
    assert_eq!(
        validate_name(".."),
        Err("Deployment names may contain only letters, numbers, hyphens, and underscores".to_string())
    );
}

#[test]
fn title_case_and_labels() {
    assert_eq!(title_case("my-cool_site"), "My Cool Site");
    assert_eq!(title_case("  hELLO   wORLD "), "Hello World");
    assert_eq!(title_case(""), "");
    assert_eq!(framework_label("react"), "React (Vite)");
    assert_eq!(framework_label("rust"), "Custom");
    assert_eq!(choose_framework("node"), "node");
    assert_eq!(choose_framework("rust"), "html");
}

#[test]
fn template_files_per_framework() {
    let html = template_files("my-site", "unknown");
    assert_eq!(html.len(), 4);
    assert_eq!(html[0].0, "index.html");
    assert!(html[0].1.contains("<title>My Site</title>"));
    let laravel = template_files("shop", "laravel");
    assert_eq!(laravel.len(), 5);
    assert_eq!(laravel[1].1, "");
    assert!(laravel[2].1.contains("DB_DATABASE=shop_db"));
    assert!(laravel[4].1.contains("\"name\": \"xamppify/shop\""));
    let node = template_files("api", "node");
    assert!(node[0].1.contains("<h1>Api</h1>"));
    assert!(node[0].1.contains("${PORT}"));
    assert_eq!(template_files("x", "react").len(), 7);
    assert_eq!(template_files("x", "wordpress")[1].0, ".htaccess");
}

#[test]
fn meta_store_get_set_update_remove() {
    let mut store = MetaStore::new();
    assert!(!store.get("a").pinned);
    let mut meta = DeploymentMeta::default();
    meta.pinned = true;
    meta.tags = vec!["x".to_string()];
    store.set("a".to_string(), meta);
    assert!(store.get("a").pinned);
    assert_eq!(store.get("a").tags, vec!["x".to_string()]);
    store.update("b", |mut m| {
        m.ssl_enabled = true;
        m
    });
    assert!(store.get("b").ssl_enabled);
    assert_eq!(store.names(), vec!["a".to_string(), "b".to_string()]);
    store.remove("a");
    assert!(!store.get("a").pinned);
    assert_eq!(store.names(), vec!["b".to_string()]);
}

const VHOSTS: &str = "# header\n<VirtualHost *:8080>\n    ServerName shop.test\n    DocumentRoot \"C:/xampp/htdocs/shop\"\n</VirtualHost>\n<VirtualHost [::1]:443>\n    ServerName secure.test\n    DocumentRoot C:/xampp/htdocs/secure\n</VirtualHost>\n<VirtualHost *>\n    ServerName nodoc.test\n</VirtualHost>\n";

#[test]
fn parses_virtual_hosts() {
    let hosts = list_vhosts(VHOSTS);
    assert_eq!(hosts.len(), 2);
    assert_eq!(hosts[0].domain, "shop.test");
    assert_eq!(hosts[0].root, "C:/xampp/htdocs/shop");
    assert_eq!(hosts[0].port, 8080);
    assert!(!hosts[0].ssl);
    assert_eq!(hosts[1].port, 443);
    assert!(hosts[1].ssl);
}

#[test]
fn finds_the_vhost_of_a_deployment() {
    let found = vhost_for_deployment(VHOSTS, "shop", "C:\\xampp").unwrap();
    assert_eq!(found.domain, "shop.test");
    assert!(vhost_for_deployment(VHOSTS, "blog", "C:\\xampp").is_none());
}

#[test]
fn domains_are_cleaned_and_checked() {
    assert_eq!(sanitize_domain("  https://My-App.Test/ "), Ok("my-app.test".to_string()));
    assert_eq!(
        sanitize_domain("my app.test"),
        Err("Enter a valid domain such as myapp.test".to_string())
    );
    assert_eq!(
        sanitize_domain("bad_domain"),
        Err("Domains may contain letters, numbers, hyphens, dots, and colons".to_string())
    );
}

#[test]
fn set_vhost_replaces_the_deployment_block() {
    let content = "<VirtualHost *:80>\n    DocumentRoot \"C:\\xampp\\htdocs\\shop\"\n</VirtualHost>\n# keep\n";
    let (new_content, entry) = set_vhost(content, "shop", Some("shop.test"), false, 8080, "C:\\xampp").unwrap();
    let entry = entry.unwrap();
    assert!(new_content.starts_with("# keep\n\n<VirtualHost *:8080>"));
    assert!(new_content.contains("ServerName shop.test"));
    assert!(new_content.contains("DocumentRoot \"C:/xampp/htdocs/shop\""));
    assert_eq!(entry.domain, "shop.test");
    assert_eq!(entry.port, 8080);
    let (ssl_content, ssl_entry) = set_vhost("", "shop", Some("Shop.Test"), true, 80, "C:\\xampp").unwrap();
    assert_eq!(ssl_entry.unwrap().port, 443);
    assert!(ssl_content.contains("SSLCertificateFile \"C:/xampp/apache/conf/ssl.crt/shop.crt\""));
    assert!(set_vhost("", "shop", Some("bad domain"), false, 80, "C:\\xampp").is_err());
}

#[test]
fn set_vhost_without_a_domain_removes_the_deployment_blocks() {
    let content = "<VirtualHost *:80>\n    DocumentRoot \"C:\\xampp\\htdocs\\shop\"\n</VirtualHost>\n# keep";
    let (text, entry) = set_vhost(content, "shop", None, false, 80, "C:\\xampp").unwrap();
    assert_eq!(text, "# keep");
    assert!(entry.is_none());
    let (text, entry) = set_vhost(content, "shop", Some("   "), false, 80, "C:\\xampp").unwrap();
    assert_eq!(text, "# keep");
    assert!(entry.is_none());
    let (added, _) = set_vhost(content, "shop", Some("shop.test"), true, 80, "C:\\xampp").unwrap();
    let (removed, entry) = set_vhost(&added, "shop", None, false, 80, "C:\\xampp").unwrap();
    assert!(entry.is_none());
    assert!(list_vhosts(&removed).is_empty());
    assert!(removed.starts_with("# keep"));
}

#[test]
fn setting_a_vhost_again_leaves_one_block() {
    let (once, _) = set_vhost("# keep", "shop", Some("shop.test"), false, 80, "C:\\xampp").unwrap();
    let (twice, _) = set_vhost(&once, "shop", Some("shop.test"), false, 80, "C:\\xampp").unwrap();
    assert_eq!(list_vhosts(&once).len(), 1);
    assert_eq!(list_vhosts(&twice).len(), 1);
    assert_eq!(twice.matches("<VirtualHost").count(), 1);
    let (other, _) = set_vhost(&twice, "shopping", Some("shopping.test"), false, 80, "C:\\xampp").unwrap();
    let (again, _) = set_vhost(&other, "shop", Some("new.test"), false, 80, "C:\\xampp").unwrap();
    let domains: Vec<String> = list_vhosts(&again).into_iter().map(|v| v.domain).collect();
    assert_eq!(domains, ["shopping.test", "new.test"]);
}

#[test]
fn hosts_entries_are_replaced_and_removed() {
    let content = "127.0.0.1 localhost\n127.0.0.1 old.test # xamppify:old.test\n";
    let updated = set_hosts_entry(content, Some("New.Test")).unwrap();
    assert_eq!(updated, "127.0.0.1 localhost\n127.0.0.1 new.test # xamppify:new.test\n");
    let removed = remove_hosts_entry(&updated, "new.test").unwrap();
    assert_eq!(removed, "127.0.0.1 localhost");
}

#[test]
fn a_set_vhost_is_found_again() {
    let content = "<VirtualHost *:80>\n    ServerName other.test\n    DocumentRoot \"C:/elsewhere\"\n</VirtualHost>\n";
    let (written, entry) = set_vhost(content, "blog", Some("Blog.Local"), false, 80, "C:\\xampp").unwrap();
    let entry = entry.unwrap();
    assert_eq!(entry.domain, "blog.local");
    assert!(list_vhosts(&written)
        .iter()
        .any(|v| v.domain == entry.domain && v.root == entry.root && v.port == entry.port && v.ssl == entry.ssl));
    let found = vhost_for_deployment(&written, "blog", "C:\\xampp").unwrap();
    assert_eq!(found.domain, "blog.local");
    assert_eq!(found.root, "C:/xampp/htdocs/blog");
    let (ssl_written, _) = set_vhost(&written, "blog", Some("blog.test"), true, 8080, "C:\\xampp").unwrap();
    let again = vhost_for_deployment(&ssl_written, "blog", "C:\\xampp").unwrap();
    assert_eq!(again.domain, "blog.test");
    assert_eq!(again.port, 8080);
    assert_eq!(list_vhosts(&ssl_written).len(), 3);
}

#[test]
fn hosts_updates_leave_no_old_marks() {
    let content = "127.0.0.1 a.test # xamppify:a.test\n127.0.0.1 localhost\r\n10.0.0.1 b.test # xamppify:b.test";
    let removed = set_hosts_entry(content, None).unwrap();
    assert_eq!(removed, "127.0.0.1 localhost");
    assert!(!removed.contains("xamppify:"));
    let added = set_hosts_entry(content, Some("c.test")).unwrap();
    assert_eq!(added, "127.0.0.1 localhost\n127.0.0.1 c.test # xamppify:c.test\n");
    assert_eq!(added.matches("xamppify:").count(), 1);
}

#[test]
fn a_sanitized_domain_is_accepted_unchanged() {
    let once = sanitize_domain(" http://Shop.Example:8080/ ").unwrap();
    assert_eq!(sanitize_domain(&once), Ok(once.clone()));
}

#[test]
fn starter_files_are_laid_out_safely() {
    for fw in ["html", "php", "laravel", "wordpress", "react", "node", "rust"] {
        let files = template_files("my-app", fw);
        assert!(!files.is_empty());
        assert!(files.iter().any(|f| f.0 == ".gitignore"));
        for (i, f) in files.iter().enumerate() {
            assert!(!f.0.starts_with('/') && !f.0.contains('\\') && !f.0.contains(".."));
            assert!(files.iter().skip(i + 1).all(|g| g.0 != f.0));
        }
    }
    assert_eq!(template_files("my-app", "rust"), template_files("my-app", "html"));
}

#[test]
fn only_the_deployment_folder_is_removed() {
    let content = "<VirtualHost *:80>\n    ServerName shop2.test\n    DocumentRoot \"C:\\xampp\\htdocs\\shop2\"\n</VirtualHost>\n\
<VirtualHost *:80>\n    ServerName old.test\n    DocumentRoot \"C:\\xampp\\htdocs\\shop-old\"\n</VirtualHost>\n\
<VirtualHost *:80>\n    ServerName shop.test\n    DocumentRoot \"C:\\xampp\\htdocs\\shop\\\"\n</VirtualHost>\n\
<VirtualHost *:80>\n    ServerName shop.local\n    DocumentRoot C:/xampp/htdocs/shop\n</VirtualHost>";
    let (text, entry) = set_vhost(content, "shop", None, false, 80, "C:\\xampp").unwrap();
    assert!(entry.is_none());
    let domains: Vec<String> = list_vhosts(&text).into_iter().map(|v| v.domain).collect();
    assert_eq!(domains, ["shop2.test", "old.test"]);
}
