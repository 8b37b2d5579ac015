use xamppify::ssl_manager::{
    certificate_info, check_certificate_request, collect_cert_files, list_certificates,
    matching_key_path, parse_sans, plan_self_signed, prefixed_value, safe_filename,
};

#[test]
fn sanitizes_certificate_filename() {
    assert_eq!(safe_filename("dev site/example"), "dev_site_example");
}

#[test]
fn parses_dns_and_ip_sans() {
    let details = "X509v3 Subject Alternative Name:\n    DNS:localhost, DNS:example.test, IP Address:127.0.0.1\n";
    assert_eq!(
        parse_sans(details),
        ["localhost", "example.test", "127.0.0.1"]
    );
}

#[test]
fn filename_falls_back_to_certificate() {
    // Names not greater than "certificate" in string order become "certificate".
    assert_eq!(safe_filename("___"), "certificate");
    assert_eq!(safe_filename("app.test"), "certificate");
    assert_eq!(safe_filename("zz top"), "zz_top");
    let long = "x".repeat(120);
    assert_eq!(safe_filename(&long).len(), 96);
}

#[test]
fn certificate_request_is_checked() {
    assert_eq!(check_certificate_request("  site.test ", 825), Ok("site.test".to_string()));
    assert_eq!(
        check_certificate_request("   ", 825),
        Err("Common name must be between 1 and 253 printable characters".to_string())
    );
    assert_eq!(
        check_certificate_request("a\u{7}b", 825),
        Err("Common name must be between 1 and 253 printable characters".to_string())
    );
    assert_eq!(
        check_certificate_request(&"a".repeat(254), 825),
        Err("Common name must be between 1 and 253 printable characters".to_string())
    );
    assert_eq!(
        check_certificate_request("site.test", 0),
        Err("Certificate lifetime must be between 1 and 3650 days".to_string())
    );
    assert_eq!(
        check_certificate_request("site.test", 3651),
        Err("Certificate lifetime must be between 1 and 3650 days".to_string())
    );
    assert!(check_certificate_request("site.test", 3650).is_ok());
}

#[test]
fn self_signed_plan_names_files_and_arguments() {
    let plan = plan_self_signed("my.test", 30, false, "C:\\xampp", true);
    assert_eq!(plan.filename, "my.test");
    assert_eq!(plan.key_path, "C:\\xampp\\apache\\conf\\ssl.key\\my.test.key");
    assert_eq!(plan.cert_path, "C:\\xampp\\apache\\conf\\ssl.crt\\my.test.crt");
    assert_eq!(
        plan.args,
        [
            "req", "-x509", "-nodes", "-days", "30", "-newkey", "rsa:2048", "-keyout",
            "C:\\xampp\\apache\\conf\\ssl.key\\my.test.key", "-out",
            "C:\\xampp\\apache\\conf\\ssl.crt\\my.test.crt", "-subj", "/CN=my.test", "-addext",
            "subjectAltName=DNS:my.test",
        ]
    );
    let ip = plan_self_signed("10.0.0.1", 1, true, "C:\\xampp", true);
    assert_eq!(ip.args[14], "subjectAltName=IP:10.0.0.1");
}

#[test]
fn reads_prefixed_values() {
    let details = "subject=CN = site\n  issuer= CN = ca \nnotBefore=Jan 1\nnotAfter=Feb 2\n";
    assert_eq!(prefixed_value(details, "subject="), Some("CN = site".to_string()));
    assert_eq!(prefixed_value(details, "issuer="), Some("CN = ca".to_string()));
    assert_eq!(prefixed_value(details, "missing="), None);
    let info = certificate_info(
        "site.crt".to_string(),
        "C:\\c\\site.crt".to_string(),
        None,
        details,
    );
    assert_eq!(info.valid_from, "Jan 1");
    assert_eq!(info.valid_to, "Feb 2");
    assert!(info.san.is_empty());
}

#[test]
fn lists_certificate_files_by_extension_and_path() {
    let crt = vec![
        ("b.crt".to_string(), "C:\\s\\b.crt".to_string()),
        ("a.txt".to_string(), "C:\\s\\a.txt".to_string()),
        (".pem".to_string(), "C:\\s\\.pem".to_string()),
        ("a.cer".to_string(), "C:\\s\\a.cer".to_string()),
    ];
    let keys = vec![("a.key".to_string(), "C:\\k\\a.key".to_string())];
    let only = collect_cert_files(&crt, false);
    assert_eq!(only.len(), 2);
    let all = list_certificates(&crt, &keys);
    let paths: Vec<&str> = all.iter().map(|c| c.path.as_str()).collect();
    assert_eq!(paths, ["C:\\k\\a.key", "C:\\s\\a.cer", "C:\\s\\b.crt"]);
    assert!(all[0].is_key);
}

#[test]
fn key_path_uses_certificate_stem() {
    assert_eq!(matching_key_path("C:\\x", "site.crt"), "C:\\x\\apache\\conf\\ssl.key\\site.key");
    assert_eq!(matching_key_path("C:\\x", ".hidden"), "C:\\x\\apache\\conf\\ssl.key\\.hidden.key");
}

#[test]
fn generated_certificate_files_are_listed() {
    let plan = plan_self_signed("my site/dev", 825, false, "C:\\xampp", true);
    assert_eq!(plan.filename, "my_site_dev");
    let crt = vec![
        ("zz.crt".to_string(), "C:\\xampp\\apache\\conf\\ssl.crt\\zz.crt".to_string()),
        (format!("{}.crt", plan.filename), plan.cert_path.clone()),
    ];
    let keys = vec![(format!("{}.key", plan.filename), plan.key_path.clone())];
    let listed = list_certificates(&crt, &keys);
    assert!(listed.iter().any(|c| c.path == plan.cert_path && !c.is_key));
    assert!(listed.iter().any(|c| c.path == plan.key_path && c.is_key));
    assert_eq!(listed.len(), 3);
}
