use cargo_cite::citation::README_NOTICE;
use cargo_cite::manifest::decode_text;
use cargo_cite::record::{CitationDate, PackageInfo};

fn strings(items: &[&str]) -> Vec<String> {
    items.iter().map(|s| s.to_string()).collect()
}

fn sample() -> PackageInfo {
    PackageInfo {
        name: "foo".to_string(),
        version: "0.1.0".to_string(),
        authors: strings(&["Jane Doe"]),
        description: Some("A tool".to_string()),
        repository: Some("https://example.com".to_string()),
        keywords: None,
    }
}

fn march_2024() -> CitationDate {
    CitationDate { year: 2024, month: 3 }
}

#[test]
fn end_to_end_example() {
    let manifest = "[package]\nname = \"foo\"\nversion = \"0.1.0\"\nauthors = [\"Jane Doe\"]\ndescription = \"A tool\"\nrepository = \"https://example.com\"\n";
    let record = decode_text(manifest).unwrap();
    assert_eq!(record, sample());
    let text = record.render_citation(march_2024());
    assert_eq!(
        text,
        "@misc{foo,\n\ttitle={{foo: A tool}},\n\tauthor={{Jane Doe}},\n\tmonth = 3,\n\tyear = 2024,\n\turl = {{https://example.com}}\n}\n"
    );
}

#[test]
fn title_is_name_alone_without_description() {
    let mut record = sample();
    record.description = None;
    let text = record.render_citation(march_2024());
    assert!(text.contains("\n\ttitle={{foo}},\n"));
    assert!(!text.contains(": "));
}

#[test]
fn title_is_name_colon_description() {
    let text = sample().render_citation(march_2024());
    assert!(text.contains("\n\ttitle={{foo: A tool}},\n"));
}

#[test]
fn empty_description_is_still_a_description() {
    let mut record = sample();
    record.description = Some(String::new());
    let text = record.render_citation(march_2024());
    assert!(text.contains("\n\ttitle={{foo: }},\n"));
}

#[test]
fn no_url_line_without_repository() {
    let mut record = sample();
    record.repository = None;
    let text = record.render_citation(march_2024());
    assert_eq!(
        text,
        "@misc{foo,\n\ttitle={{foo: A tool}},\n\tauthor={{Jane Doe}},\n\tmonth = 3,\n\tyear = 2024,\n}\n"
    );
    assert!(!text.contains("url"));
}

#[test]
fn no_line_begins_like_a_url_line_without_repository() {
    let mut record = sample();
    record.repository = None;
    record.keywords = Some(strings(&["url", "\turl = {{"]));
    let text = record.render_citation(march_2024());
    assert!(text.lines().all(|line| !line.starts_with("\turl = {{")));
    record.repository = Some("https://example.com".to_string());
    let text = record.render_citation(march_2024());
    assert!(text.lines().any(|line| line == "\turl = {{https://example.com}}"));
}

#[test]
fn no_line_begins_like_a_keywords_line_without_keywords() {
    let text = sample().render_citation(march_2024());
    assert!(text.lines().all(|line| !line.starts_with("\tkeywords = {")));
    let mut record = sample();
    record.keywords = Some(strings(&["cli"]));
    let text = record.render_citation(march_2024());
    assert!(text.lines().any(|line| line == "\tkeywords = {cli}"));
}

#[test]
fn fields_are_written_as_they_are() {
    let mut record = sample();
    record.repository = None;
    record.description = Some("x\n\turl = {{y".to_string());
    let text = record.render_citation(march_2024());
    assert!(text.contains("\ttitle={{foo: x\n\turl = {{y}},\n"));
    assert!(text.lines().any(|line| line.starts_with("\turl = {{")));
}

#[test]
fn no_keywords_line_without_keywords() {
    let text = sample().render_citation(march_2024());
    assert!(!text.contains("keywords"));
}

#[test]
fn keywords_are_joined_by_comma_and_space() {
    let mut record = sample();
    record.keywords = Some(strings(&["cli", "bibtex", "cargo"]));
    let text = record.render_citation(march_2024());
    assert_eq!(
        text,
        "@misc{foo,\n\ttitle={{foo: A tool}},\n\tauthor={{Jane Doe}},\n\tmonth = 3,\n\tyear = 2024,\n\turl = {{https://example.com}}\n\tkeywords = {cli, bibtex, cargo}\n}\n"
    );
}

#[test]
fn empty_keywords_are_still_keywords() {
    let mut record = sample();
    record.repository = None;
    record.keywords = Some(Vec::new());
    let text = record.render_citation(march_2024());
    assert!(text.ends_with("\tyear = 2024,\n\tkeywords = {}\n}\n"));
}

#[test]
fn three_authors_are_joined_by_and() {
    let mut record = sample();
    record.authors = strings(&["A", "B", "C"]);
    let text = record.render_citation(march_2024());
    assert!(text.contains("\n\tauthor={{A and B and C}},\n"));
}

#[test]
fn single_author_has_no_separator() {
    let text = sample().render_citation(march_2024());
    assert!(text.contains("\n\tauthor={{Jane Doe}},\n"));
    assert!(!text.contains(" and "));
}

#[test]
fn no_authors_give_an_empty_author_field() {
    let mut record = sample();
    record.authors = Vec::new();
    let text = record.render_citation(march_2024());
    assert!(text.contains("\n\tauthor={{}},\n"));
}

#[test]
fn authors_keep_their_order_and_duplicates() {
    let mut record = sample();
    record.authors = strings(&["B", "A", "B"]);
    let text = record.render_citation(march_2024());
    assert!(text.contains("\n\tauthor={{B and A and B}},\n"));
}

#[test]
fn month_and_year_are_not_padded() {
    let text = sample().render_citation(CitationDate { year: 987, month: 1 });
    assert!(text.contains("\n\tmonth = 1,\n\tyear = 987,\n"));
    let text = sample().render_citation(CitationDate { year: 2030, month: 12 });
    assert!(text.contains("\n\tmonth = 12,\n\tyear = 2030,\n"));
}

#[test]
fn date_comes_from_the_caller_not_the_record() {
    let mut record = sample();
    record.version = "2019.7.1".to_string();
    let text = record.render_citation(march_2024());
    assert!(text.contains("\tmonth = 3,\n\tyear = 2024,\n"));
    assert!(!text.contains("2019"));
}

#[test]
fn extreme_years_are_written_in_full() {
    let text = sample().render_citation(CitationDate { year: i32::MAX, month: 10 });
    assert!(text.contains("\n\tmonth = 10,\n\tyear = 2147483647,\n"));
    let text = sample().render_citation(CitationDate { year: i32::MIN, month: 10 });
    assert!(text.contains("\n\tyear = -2147483648,\n"));
    let text = sample().render_citation(CitationDate { year: 0, month: u32::MAX });
    assert!(text.contains("\n\tmonth = 4294967295,\n\tyear = 0,\n"));
}

#[test]
fn rendering_is_repeatable() {
    let first = sample().render_citation(march_2024());
    let second = sample().render_citation(march_2024());
    assert_eq!(first, second);
}

#[test]
fn build_bibtex_is_the_entry_for_some_month_of_the_clock() {
    let record = sample();
    let text = record.build_bibtex();
    let mut hits = 0;
    for year in 1969..=2500 {
        for month in 1..=12 {
            if record.render_citation(CitationDate { year, month }) == text {
                hits += 1;
            }
        }
    }
    assert_eq!(hits, 1);
}

#[test]
fn readme_section_is_the_fixed_notice() {
    let expected = "\n## Citing\n\nIf you found this software useful consider citing it. See CITATION.bib for the recommended BibTeX entry.\n";
    assert_eq!(README_NOTICE, expected);
    assert_eq!(sample().readme_section(), expected);
    let mut other = sample();
    other.name = "bar".to_string();
    other.authors = Vec::new();
    assert_eq!(other.readme_section(), expected);
}
