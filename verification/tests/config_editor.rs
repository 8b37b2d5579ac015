use xamppify::config_editor::{config_candidates, config_test_result, known_configs, parse_ini_sections};

#[test]
fn finds_all_sections_with_zero_based_lines() {
    let content = "; comment\n[mysql]\nport=3306\n\n[mysqld]\nmax_connections=100\n";
    let sections = parse_ini_sections(content);
    assert_eq!(sections.len(), 2);
    assert_eq!(sections[0].name, "mysql");
    assert_eq!(sections[0].line, 1);
    assert_eq!(sections[1].name, "mysqld");
    assert_eq!(sections[1].line, 4);
}

#[test]
fn ignores_brackets_inside_values() {
    let content = "[section]\nkey = [not a section]\n";
    let sections = parse_ini_sections(content);
    assert_eq!(sections.len(), 1);
    assert_eq!(sections[0].name, "section");
}

#[test]
fn returns_empty_for_no_sections() {
    assert!(parse_ini_sections("a=1\nb=2\n").is_empty());
    assert!(parse_ini_sections("").is_empty());
}

#[test]
fn section_names_are_trimmed_of_brackets_and_spaces() {
    let sections = parse_ini_sections("  [[client]]  \r\n");
    assert_eq!(sections.len(), 1);
    assert_eq!(sections[0].name, "client");
}

#[test]
fn candidates_are_joined_to_the_root() {
    let all = config_candidates("C:\\xampp");
    assert_eq!(all.len(), 6);
    assert_eq!(all[0].path, "C:\\xampp\\apache\\conf\\httpd.conf");
    assert_eq!(all[5].name, "phpmyadmin.conf");
    let present = known_configs("D:\\x\\", &[false, true, false, false, false, true]);
    assert_eq!(present.len(), 2);
    assert_eq!(present[0].path, "D:\\x\\php\\php.ini");
    assert_eq!(present[1].category, "phpMyAdmin");
}

#[test]
fn apache_test_output_combines_both_streams() {
    let r = config_test_result(false, "  Syntax error  \n", "\n line 3 \n");
    assert!(!r.ok);
    assert_eq!(r.output, "Syntax error\nline 3");
    let r = config_test_result(true, "", "Syntax OK\n");
    assert!(r.ok);
    assert_eq!(r.output, "Syntax OK");
}
