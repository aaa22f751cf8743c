use cargo_cite::policy::{
    destination, is_readme, may_write, Destination, CITATION_FILE, MANIFEST_FILE, README_MARK,
    STDOUT_NAME,
};

#[test]
fn the_fixed_names() {
    assert_eq!(MANIFEST_FILE, "Cargo.toml");
    assert_eq!(CITATION_FILE, "CITATION.bib");
    assert_eq!(STDOUT_NAME, "STDOUT");
    assert_eq!(README_MARK, "README");
}

#[test]
fn default_destination_is_the_citation_file() {
    assert_eq!(destination(None), Destination::File("CITATION.bib".to_string()));
}

#[test]
fn named_destination_is_that_file() {
    assert_eq!(
        destination(Some("refs.bib".to_string())),
        Destination::File("refs.bib".to_string())
    );
    assert_eq!(destination(Some(String::new())), Destination::File(String::new()));
}

#[test]
fn stdout_name_selects_standard_output() {
    assert_eq!(destination(Some("STDOUT".to_string())), Destination::Stdout);
}

#[test]
fn stdout_name_is_matched_exactly() {
    assert_eq!(destination(Some("stdout".to_string())), Destination::File("stdout".to_string()));
    assert_eq!(
        destination(Some("STDOUT.bib".to_string())),
        Destination::File("STDOUT.bib".to_string())
    );
}

#[test]
fn existing_file_is_kept_without_overwrite() {
    assert!(!may_write(true, false));
}

#[test]
fn existing_file_is_replaced_with_overwrite() {
    assert!(may_write(true, true));
}

#[test]
fn missing_file_is_always_written() {
    assert!(may_write(false, false));
    assert!(may_write(false, true));
}

#[test]
fn readme_names() {
    assert!(is_readme("README"));
    assert!(is_readme("README.md"));
    assert!(is_readme("OLD-README.txt"));
    assert!(!is_readme("readme.md"));
    assert!(!is_readme("Readme"));
    assert!(!is_readme("Cargo.toml"));
    assert!(!is_readme(""));
}
