use file_share::listing::{file_cells, file_to_html, fill_template};
use file_share::upload::{upload_file_path, UPLOAD_DIR_PREFIX, UPLOAD_DONE};

#[test]
fn test_marco() {
    let names = vec![String::from("Cargo.toml"), String::from("src"), String::from("tests")];
    let x = file_to_html("<tr>\n{}</tr>\n", &names).unwrap();
    println!("{}", x);
    assert_eq!(x, "<tr>\n<td>Cargo.toml</td>\n<td>src</td>\n<td>tests</td>\n</tr>\n");
}

#[test]
fn empty_directory_listing() {
    let names: Vec<String> = Vec::new();
    assert_eq!(file_cells(&names), "");
    assert_eq!(file_to_html("<tr>\n{}</tr>\n", &names).unwrap(), "<tr>\n</tr>\n");
}

#[test]
fn template_formats_like_format_macro() {
    assert_eq!(fill_template("{}", "X"), Some(String::from("X")));
    assert_eq!(fill_template("{{{}}}", "X"), Some(format!("{{{}}}", "X")));
    assert_eq!(fill_template("a{{b}}c{}", "X"), Some(format!("a{{b}}c{}", "X")));
    assert_eq!(fill_template("{0}", "X"), Some(format!("{0}", "X")));
    assert_eq!(fill_template("{0}-{0}", "X"), Some(format!("{0}-{0}", "X")));
    assert_eq!(fill_template("{}-{0}", "X"), Some(format!("{}-{0}", "X")));
}

#[test]
fn template_refused_where_format_macro_refuses() {
    assert_eq!(fill_template("a{}b{}c", "X"), None);
    assert_eq!(fill_template("", "X"), None);
    assert_eq!(fill_template("{{}}", "X"), None);
    assert_eq!(fill_template("{{}", "X"), None);
    assert_eq!(fill_template("}", "X"), None);
    assert_eq!(fill_template("{", "X"), None);
}

#[test]
fn template_reads_fill_align_width_precision() {
    assert_eq!(fill_template("[{:>5}]", "ab").unwrap(), format!("[{:>5}]", "ab"));
    assert_eq!(fill_template("[{:5}]", "ab").unwrap(), format!("[{:5}]", "ab"));
    assert_eq!(fill_template("[{:^6}]", "abc").unwrap(), format!("[{:^6}]", "abc"));
    assert_eq!(fill_template("[{:^5}]", "ab").unwrap(), format!("[{:^5}]", "ab"));
    assert_eq!(fill_template("[{:*<4}]", "a").unwrap(), format!("[{:*<4}]", "a"));
    assert_eq!(fill_template("[{:é>4}]", "a").unwrap(), format!("[{:é>4}]", "a"));
    assert_eq!(fill_template("[{:.2}]", "abcdef").unwrap(), format!("[{:.2}]", "abcdef"));
    assert_eq!(fill_template("[{:>6.3}]", "abcdef").unwrap(), format!("[{:>6.3}]", "abcdef"));
    assert_eq!(fill_template("[{:.10}]", "abc").unwrap(), format!("[{:.10}]", "abc"));
    assert_eq!(fill_template("[{:.0}]", "abc").unwrap(), format!("[{:.0}]", "abc"));
    assert_eq!(fill_template("[{:2}]", "abcdef").unwrap(), format!("[{:2}]", "abcdef"));
    assert_eq!(fill_template("[{0:^7}]", "ab").unwrap(), format!("[{0:^7}]", "ab"));
    assert_eq!(fill_template("[{:<>4}]", "ab").unwrap(), format!("[{:<>4}]", "ab"));
    assert_eq!(fill_template("[{:>3}]", "héé").unwrap(), format!("[{:>3}]", "héé"));
    assert_eq!(fill_template("[{:}]", "ab").unwrap(), format!("[{:}]", "ab"));
}

#[test]
fn template_reads_white_space_before_close() {
    assert_eq!(fill_template("[{ }]", "ab").unwrap(), String::from("[ab]"));
    assert_eq!(fill_template("[{0 }]", "ab").unwrap(), String::from("[ab]"));
    assert_eq!(fill_template("[{:>4 }]", "ab").unwrap(), String::from("[  ab]"));
    assert_eq!(fill_template("[{00}]", "ab").unwrap(), String::from("[ab]"));
}

#[test]
fn template_placeholders_not_read() {
    assert_eq!(fill_template("{:?}", "X"), None);
    assert_eq!(fill_template("{:05}", "X"), None);
    assert_eq!(fill_template("{:+}", "X"), None);
    assert_eq!(fill_template("{:1$}", "X"), None);
    assert_eq!(fill_template("{:.*}", "X"), None);
    assert_eq!(fill_template("{name}", "X"), None);
    assert_eq!(fill_template("{1}", "X"), None);
    assert_eq!(fill_template("{ 0}", "X"), None);
}

#[test]
fn upload_path_is_sanitized() {
    assert_eq!(upload_file_path("report.pdf"), "./uploads/report.pdf");
    assert_eq!(upload_file_path("../etc/passwd"), "./uploads/..etcpasswd");
    assert_eq!(upload_file_path("a\u{0}b:c*?.txt"), "./uploads/abc.txt");
    assert_eq!(upload_file_path(".."), "./uploads/");
    assert_eq!(upload_file_path("."), "./uploads/");
    assert_eq!(upload_file_path("..."), "./uploads/");
    assert_eq!(upload_file_path("/.."), "./uploads/");
    assert_eq!(UPLOAD_DIR_PREFIX, "./uploads/");
}

#[test]
fn upload_path_never_leaves_directory() {
    for name in ["/abs/path", "..\\..\\x", "a/b/c", "../../", "ok"] {
        let p = upload_file_path(name);
        assert!(p.starts_with(UPLOAD_DIR_PREFIX));
        assert!(!p[UPLOAD_DIR_PREFIX.len()..].contains('/'));
        assert!(!p[UPLOAD_DIR_PREFIX.len()..].contains('\\'));
    }
}

#[test]
fn upload_answer() {
    assert_eq!(UPLOAD_DONE, "File uploaded successfully");
}

#[test]
fn long_upload_name_is_cut() {
    let long: String = std::iter::repeat('a').take(300).collect();
    let p = upload_file_path(&long);
    assert_eq!(p.len(), UPLOAD_DIR_PREFIX.len() + 255);
    let dots: String = std::iter::repeat('.').take(300).collect::<String>() + "a";
    let p = upload_file_path(&dots);
    assert!(p.len() - UPLOAD_DIR_PREFIX.len() <= 255);
    assert_ne!(&p[UPLOAD_DIR_PREFIX.len()..], "..");
}

#[test]
fn clean_upload_names_kept() {
    for name in ["report.pdf", "a b.txt", ".hidden", "résumé.doc", "console.log", "com10", "LPTX"] {
        assert_eq!(upload_file_path(name), format!("./uploads/{}", name));
    }
}
