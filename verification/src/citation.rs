//! Rendering a package record as a BibTeX `@misc` entry.

use vstd::prelude::*;
use crate::record::{CitationDate, PackageInfo, PackageText};
use crate::text::{decimal, decimal_i32, decimal_nat, decimal_u32, join, joined};

verus! {

/// The first line of an entry: the entry type and the package name as key.
pub open spec fn entry_line(rec: PackageText) -> Seq<char> {
    "@misc{"@ + rec.name + ",\n"@
}

/// What the title field holds: the name, followed by a colon, a space and
/// the description when there is a description.
pub open spec fn title_text(rec: PackageText) -> Seq<char> {
    match rec.description {
        Some(d) => rec.name + ": "@ + d,
        None => rec.name,
    }
}

/// The title line.
pub open spec fn title_line(rec: PackageText) -> Seq<char> {
    "\ttitle={{"@ + title_text(rec) + "}},\n"@
}

/// The author line: the authors in their order, joined by ` and `.
pub open spec fn author_line(rec: PackageText) -> Seq<char> {
    "\tauthor={{"@ + joined(rec.authors, " and "@) + "}},\n"@
}

/// The month line: the month number without padding.
pub open spec fn month_line(date: CitationDate) -> Seq<char> {
    "\tmonth = "@ + decimal_nat(date.month as nat) + ",\n"@
}

/// The year line: the year number without padding.
pub open spec fn year_line(date: CitationDate) -> Seq<char> {
    "\tyear = "@ + decimal(date.year as int) + ",\n"@
}

/// The url line, or nothing at all when the record has no repository.
pub open spec fn url_line(rec: PackageText) -> Seq<char> {
    match rec.repository {
        Some(url) => "\turl = {{"@ + url + "}}\n"@,
        None => Seq::empty(),
    }
}

/// The keywords line, or nothing at all when the record has no keywords.
pub open spec fn keywords_line(rec: PackageText) -> Seq<char> {
    match rec.keywords {
        Some(words) => "\tkeywords = {"@ + joined(words, ", "@) + "}\n"@,
        None => Seq::empty(),
    }
}

/// The line that closes an entry.
pub open spec fn closing_line() -> Seq<char> {
    "}\n"@
}

/// The whole entry: its lines in their fixed order, each ended by a newline.
pub open spec fn citation_text(rec: PackageText, date: CitationDate) -> Seq<char> {
    entry_line(rec) + title_line(rec) + author_line(rec) + month_line(date) + year_line(date)
        + url_line(rec) + keywords_line(rec) + closing_line()
}

/// The notice that points readers of a readme to the citation file.
pub const README_NOTICE: &'static str =
    "\n## Citing\n\nIf you found this software useful consider citing it. See CITATION.bib for the recommended BibTeX entry.\n";

/// Reads the wall clock with `chrono::Local::now` and takes the year and the
/// month of the local date with `chrono::Datelike::year` and
/// `chrono::Datelike::month`. Nothing is claimed of the year. Of the month,
/// only that it is a month number: chrono documents the range 1 to 12.
/// No argument decides whether the call returns: chrono panics in `now` on a
/// machine whose clock stands before 1970, or whose time zone data gives no
/// offset for the present moment.
#[verifier::external_body]
fn local_date() -> (date: CitationDate)
    ensures
        1 <= date.month <= 12,
{
    let now = chrono::Local::now();
    CitationDate { year: chrono::Datelike::year(&now), month: chrono::Datelike::month(&now) }
}

impl PackageInfo {
    /// Renders the record as a BibTeX `@misc` entry dated `date`.
    pub fn render_citation(&self, date: CitationDate) -> (text: String)
        ensures
            text@ == citation_text(self@, date),
    {
        let mut buf = String::from_str("@misc{");
        buf.append(self.name.as_str());
        buf.append(",\n");
        assert(buf@ =~= entry_line(self@));

        buf.append("\ttitle={{");
        buf.append(self.name.as_str());
        match &self.description {
            Some(d) => {
                buf.append(": ");
                buf.append(d.as_str());
            },
            None => {},
        }
        buf.append("}},\n");
        assert(buf@ =~= entry_line(self@) + title_line(self@));

        let authors = join(&self.authors, " and ");
        buf.append("\tauthor={{");
        buf.append(authors.as_str());
        buf.append("}},\n");
        assert(buf@ =~= entry_line(self@) + title_line(self@) + author_line(self@));

        let month = decimal_u32(date.month);
        buf.append("\tmonth = ");
        buf.append(month.as_str());
        buf.append(",\n");
        let year = decimal_i32(date.year);
        buf.append("\tyear = ");
        buf.append(year.as_str());
        buf.append(",\n");
        assert(buf@ =~= entry_line(self@) + title_line(self@) + author_line(self@) + month_line(
            date,
        ) + year_line(date));

        match &self.repository {
            Some(url) => {
                buf.append("\turl = {{");
                buf.append(url.as_str());
                buf.append("}}\n");
            },
            None => {},
        }
        assert(buf@ =~= entry_line(self@) + title_line(self@) + author_line(self@) + month_line(
            date,
        ) + year_line(date) + url_line(self@));

        match &self.keywords {
            Some(words) => {
                let list = join(words, ", ");
                buf.append("\tkeywords = {");
                buf.append(list.as_str());
                buf.append("}\n");
            },
            None => {},
        }
        assert(buf@ =~= entry_line(self@) + title_line(self@) + author_line(self@) + month_line(
            date,
        ) + year_line(date) + url_line(self@) + keywords_line(self@));

        buf.append("}\n");
        buf
    }

    /// Renders the record as a BibTeX `@misc` entry dated by the local clock.
    ///
    /// Which date the clock gives is not known beforehand; whatever it gives,
    /// the text is the entry for the record and some date whose month is a
    /// month number.
    pub fn build_bibtex(&self) -> (text: String)
        ensures
            exists|date: CitationDate|
                1 <= date.month <= 12 && text@ == #[trigger] citation_text(self@, date),
    {
        let date = local_date();
        self.render_citation(date)
    }

    /// The notice to append to a readme. It is the same for every record.
    pub fn readme_section(&self) -> (text: String)
        ensures
            text@ == README_NOTICE@,
    {
        String::from_str(README_NOTICE)
    }
}

} // verus!
