use file_share::mode::Mode;

#[test]
fn mode_names_in_any_case() {
    assert_eq!(Mode::from_str("download"), Ok(Mode::Download));
    assert_eq!(Mode::from_str("Download"), Ok(Mode::Download));
    assert_eq!(Mode::from_str("UPLOAD"), Ok(Mode::Upload));
    assert_eq!(Mode::from_str("uPlOaD"), Ok(Mode::Upload));
}

#[test]
fn mode_refuses_other_names() {
    assert_eq!(Mode::from_str("serve"), Err(String::from("error to parse serve for Mode")));
    assert_eq!(Mode::from_str(""), Err(String::from("error to parse  for Mode")));
    assert_eq!(Mode::from_str(" upload"), Err(String::from("error to parse  upload for Mode")));
}

#[test]
fn mode_parses_through_from_str_trait() {
    let m: Mode = "Upload".parse().unwrap();
    assert_eq!(m, Mode::Upload);
    assert!("uploads".parse::<Mode>().is_err());
}

#[test]
fn mode_from_lowercase_only() {
    assert_eq!(Mode::from_lowercase("download"), Some(Mode::Download));
    assert_eq!(Mode::from_lowercase("upload"), Some(Mode::Upload));
    assert_eq!(Mode::from_lowercase("Upload"), None);
}

#[test]
fn mode_ignores_ascii_case() {
    for s in ["download", "upload", "Download", "uPLOAD", "serve", "", "down load", "DOWNLOAD1", "σupload", "uploadς", "dównload", "ǅupload"] {
        assert_eq!(Mode::from_str(&s.to_ascii_uppercase()).ok(), Mode::from_str(s).ok(), "{}", s);
        assert_eq!(Mode::from_str(&s.to_ascii_uppercase()).is_err(), Mode::from_str(s).is_err());
    }
}
