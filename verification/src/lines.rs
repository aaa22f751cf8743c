//! What lines an entry has.
//!
//! The title line and the author line stand in every entry. A url line and a
//! keywords line stand in it only where the record has a repository or
//! keywords, with one reservation: fields are written out as they are, so a
//! field that itself holds a newline and the beginning of such a line puts
//! one into the entry.

use vstd::prelude::*;
use crate::citation::{
    author_line, citation_text, closing_line, entry_line, keywords_line, month_line, title_line,
    title_text, url_line, year_line,
};
use crate::occurrence::{
    blocks, breaks_inside, ends_run, has_line_start, lemma_free_join, lemma_free_step,
    lemma_occurs_in_joined, lemma_occurs_inside, lemma_short_text_is_free,
    lemma_text_without_first_is_free, occurs, occurs_at, starts_line,
};
use crate::record::{CitationDate, PackageText};
use crate::text::{
    decimal, decimal_nat, joined, lemma_decimal_chars, lemma_decimal_nat_chars,
    lemma_joined_more,
};

verus! {

/// The title line stands in every entry, right after the first line. It
/// holds the name alone where the record has no description, and the name, a
/// colon, a space and the description where it has one.
pub proof fn lemma_title_line(rec: PackageText, date: CitationDate)
    ensures
        occurs_at(citation_text(rec, date), title_line(rec), entry_line(rec).len() as int),
        starts_line(citation_text(rec, date), entry_line(rec).len() as int),
        rec.description is None ==> title_line(rec) == "\ttitle={{"@ + rec.name + "}},\n"@,
        rec.description matches Some(d) ==> title_line(rec) == "\ttitle={{"@ + (rec.name + ": "@
            + d) + "}},\n"@,
{
    let text = citation_text(rec, date);
    let at = entry_line(rec).len() as int;
    let rest = author_line(rec) + month_line(date) + year_line(date) + url_line(rec)
        + keywords_line(rec) + closing_line();
    assert(text =~= entry_line(rec) + title_line(rec) + rest);
    assert(text.subrange(at, at + title_line(rec).len()) =~= title_line(rec));
    reveal_strlit(",\n");
    assert(text[at - 1] == '\n');
}

/// The author line stands in every entry, right after the title line. It
/// holds the authors in their order with ` and ` between neighbours: a
/// single author is written without any separator, and no author at all
/// leaves the field empty.
pub proof fn lemma_author_line(rec: PackageText, date: CitationDate)
    ensures
        occurs_at(
            citation_text(rec, date),
            author_line(rec),
            (entry_line(rec).len() + title_line(rec).len()) as int,
        ),
        rec.authors.len() == 0 ==> author_line(rec) == "\tauthor={{"@ + "}},\n"@,
        rec.authors.len() == 1 ==> author_line(rec) == "\tauthor={{"@ + rec.authors[0] + "}},\n"@,
        rec.authors.len() == 3 ==> author_line(rec) == "\tauthor={{"@ + (rec.authors[0] + " and "@
            + rec.authors[1] + " and "@ + rec.authors[2]) + "}},\n"@,
{
    let text = citation_text(rec, date);
    let at = (entry_line(rec).len() + title_line(rec).len()) as int;
    let rest = month_line(date) + year_line(date) + url_line(rec) + keywords_line(rec)
        + closing_line();
    assert(text =~= entry_line(rec) + title_line(rec) + author_line(rec) + rest);
    assert(text.subrange(at, at + author_line(rec).len()) =~= author_line(rec));
    if rec.authors.len() == 0 {
        assert("\tauthor={{"@ + Seq::<char>::empty() =~= "\tauthor={{"@);
    }
    if rec.authors.len() == 3 {
        let first_two = seq![rec.authors[0], rec.authors[1]];
        assert(first_two.push(rec.authors[2]) =~= rec.authors);
        lemma_joined_more(first_two, rec.authors[2], " and "@);
    }
}

/// How a url line begins.
pub open spec fn url_start() -> Seq<char> {
    "\turl = {{"@
}

/// How a keywords line begins.
pub open spec fn keywords_start() -> Seq<char> {
    "\tkeywords = {"@
}

/// A newline and, right after it, `start`: what a text holds where one of
/// its lines, other than the first, begins with `start`.
pub open spec fn after_newline(start: Seq<char>) -> Seq<char> {
    seq!['\n'] + start
}

/// Whether none of the fields that are written into an entry holds `part`.
/// The version is not written, so it is not asked.
pub open spec fn fields_free_of(rec: PackageText, part: Seq<char>) -> bool {
    &&& !occurs(rec.name, part)
    &&& (rec.description matches Some(d) ==> !occurs(d, part))
    &&& (forall|i: int| 0 <= i < rec.authors.len() ==> !occurs(#[trigger] rec.authors[i], part))
    &&& (rec.repository matches Some(u) ==> !occurs(u, part))
    &&& (rec.keywords matches Some(words) ==> forall|i: int|
        0 <= i < words.len() ==> !occurs(#[trigger] words[i], part))
}

/// Whether the character of `part` at `at` is none of those that follow a
/// field in an entry, or is a space that is not followed by an `a`.
spec fn plain_at(part: Seq<char>, at: int) -> bool {
    &&& part[at] != ','
    &&& part[at] != ':'
    &&& part[at] != '}'
    &&& (part[at] == ' ' ==> at + 1 < part.len() && part[at + 1] != 'a')
}

/// What the proofs below use of a line start: it is a newline, a tab and a
/// letter with which none of the lines that are always there begins, and
/// what follows could not follow a field.
spec fn line_mark(part: Seq<char>) -> bool {
    &&& part.len() >= 3
    &&& part[0] == '\n'
    &&& part[1] == '\t'
    &&& part[2] != 't'
    &&& part[2] != 'a'
    &&& part[2] != 'm'
    &&& part[2] != 'y'
    &&& forall|at: int| 1 <= at < part.len() ==> #[trigger] plain_at(part, at)
}

/// Whatever begins with a comma, a colon or a closing brace ends every run
/// of a line start.
proof fn lemma_punctuation_blocks(text: Seq<char>, part: Seq<char>)
    requires
        line_mark(part),
        text.len() > 0,
        text[0] == ',' || text[0] == ':' || text[0] == '}',
    ensures
        blocks(text, part),
{
    assert forall|done: int| 1 <= done < part.len() implies #[trigger] ends_run(
        text,
        part,
        done,
    ) by {
        assert(plain_at(part, done));
    }
}

/// An entry from the end of the month line on: the year, and `tail` for
/// what follows the year.
spec fn from_year(date: CitationDate, tail: Seq<char>) -> Seq<char> {
    ",\n"@ + "\tyear = "@ + decimal(date.year as int) + tail
}

/// An entry from the end of the author line on.
spec fn from_month(date: CitationDate, tail: Seq<char>) -> Seq<char> {
    "}},\n"@ + "\tmonth = "@ + decimal_nat(date.month as nat) + from_year(date, tail)
}

/// An entry from the end of the title line on.
spec fn from_authors(rec: PackageText, date: CitationDate, tail: Seq<char>) -> Seq<char> {
    "}},\n"@ + "\tauthor={{"@ + joined(rec.authors, " and "@) + from_month(date, tail)
}

/// An entry from the end of the first line on.
spec fn from_title(rec: PackageText, date: CitationDate, tail: Seq<char>) -> Seq<char> {
    ",\n"@ + "\ttitle={{"@ + title_text(rec) + from_authors(rec, date, tail)
}

/// From the year on, an entry holds no run of a line start and ends every
/// run, if that is so of the tail.
proof fn lemma_from_year_free(date: CitationDate, tail: Seq<char>, part: Seq<char>)
    requires
        line_mark(part),
        !occurs(tail, part),
        blocks(tail, part),
    ensures
        !occurs(from_year(date, tail), part),
        blocks(from_year(date, tail), part),
{
    reveal_strlit(",\n");
    reveal_strlit("\tyear = ");
    let year = decimal(date.year as int);
    let before = ",\n"@ + "\tyear = "@;
    lemma_decimal_chars(date.year as int);
    lemma_text_without_first_is_free(year, part);
    assert(breaks_inside(before, part));
    lemma_free_step(before, year, tail, part);
    lemma_punctuation_blocks(from_year(date, tail), part);
}

/// The same from the month on.
proof fn lemma_from_month_free(date: CitationDate, tail: Seq<char>, part: Seq<char>)
    requires
        line_mark(part),
        !occurs(tail, part),
        blocks(tail, part),
    ensures
        !occurs(from_month(date, tail), part),
        blocks(from_month(date, tail), part),
{
    lemma_from_year_free(date, tail, part);
    reveal_strlit("}},\n");
    reveal_strlit("\tmonth = ");
    let month = decimal_nat(date.month as nat);
    let before = "}},\n"@ + "\tmonth = "@;
    lemma_decimal_nat_chars(date.month as nat);
    lemma_text_without_first_is_free(month, part);
    assert(breaks_inside(before, part));
    lemma_free_step(before, month, from_year(date, tail), part);
    lemma_punctuation_blocks(from_month(date, tail), part);
}

/// The same from the authors on, if no author holds such a run.
proof fn lemma_from_authors_free(
    rec: PackageText,
    date: CitationDate,
    tail: Seq<char>,
    part: Seq<char>,
)
    requires
        line_mark(part),
        forall|i: int| 0 <= i < rec.authors.len() ==> !occurs(#[trigger] rec.authors[i], part),
        !occurs(tail, part),
        blocks(tail, part),
    ensures
        !occurs(from_authors(rec, date, tail), part),
        blocks(from_authors(rec, date, tail), part),
{
    lemma_from_month_free(date, tail, part);
    reveal_strlit("}},\n");
    reveal_strlit("\tauthor={{");
    reveal_strlit(" and ");
    let before = "}},\n"@ + "\tauthor={{"@;
    assert(breaks_inside(before, part));
    assert(breaks_inside(" and "@, part));
    assert(blocks(" and "@, part)) by {
        assert forall|done: int| 1 <= done < part.len() implies #[trigger] ends_run(
            " and "@,
            part,
            done,
        ) by {
            assert(plain_at(part, done));
        }
    }
    lemma_free_join(before, rec.authors, " and "@, from_month(date, tail), part);
    lemma_punctuation_blocks(from_authors(rec, date, tail), part);
}

/// The same from the title on, if no field holds such a run.
proof fn lemma_from_title_free(
    rec: PackageText,
    date: CitationDate,
    tail: Seq<char>,
    part: Seq<char>,
)
    requires
        line_mark(part),
        fields_free_of(rec, part),
        !occurs(tail, part),
        blocks(tail, part),
    ensures
        !occurs(from_title(rec, date, tail), part),
        blocks(from_title(rec, date, tail), part),
{
    lemma_from_authors_free(rec, date, tail, part);
    reveal_strlit(",\n");
    reveal_strlit("\ttitle={{");
    reveal_strlit(": ");
    let rest = from_authors(rec, date, tail);
    let before = ",\n"@ + "\ttitle={{"@;
    assert(breaks_inside(before, part));
    match rec.description {
        Some(d) => {
            let from_colon = ": "@ + d + rest;
            assert(breaks_inside(": "@, part));
            lemma_free_step(": "@, d, rest, part);
            lemma_punctuation_blocks(from_colon, part);
            lemma_free_step(before, rec.name, from_colon, part);
            assert(from_title(rec, date, tail) =~= before + rec.name + from_colon);
        },
        None => {
            lemma_free_step(before, rec.name, rest, part);
        },
    }
    lemma_punctuation_blocks(from_title(rec, date, tail), part);
}

/// The end of a line may be counted to what follows the line.
proof fn lemma_line_end_moved(
    before: Seq<char>,
    start: Seq<char>,
    body: Seq<char>,
    end: Seq<char>,
    rest: Seq<char>,
)
    ensures
        before + ((start + body + end) + rest) == before + start + body + (end + rest),
        (start + body + end) + rest == start + body + (end + rest),
        before + (start + body + rest) == before + start + body + rest,
{
    assert(before + ((start + body + end) + rest) =~= before + start + body + (end + rest));
    assert((start + body + end) + rest =~= start + body + (end + rest));
    assert(before + (start + body + rest) =~= before + start + body + rest);
}

/// Lines put together one after the other are the first line and the rest.
proof fn lemma_lines_nested(
    entry: Seq<char>,
    title: Seq<char>,
    authors: Seq<char>,
    month: Seq<char>,
    year_start: Seq<char>,
    year: Seq<char>,
    tail: Seq<char>,
)
    ensures
        entry + title + authors + month + year_start + year + tail == entry + (title + (authors + (
        month + (year_start + year + tail)))),
{
    assert(entry + title + authors + month + year_start + year + tail =~= entry + (title + (authors
        + (month + (year_start + year + tail)))));
}

/// The lines of an entry up to the year, put together line by line, are
/// the same text as the first line's beginning, the name and the rest.
proof fn lemma_head_regrouped(rec: PackageText, date: CitationDate, tail: Seq<char>)
    ensures
        entry_line(rec) + title_line(rec) + author_line(rec) + month_line(date) + "\tyear = "@
            + decimal(date.year as int) + tail == "@misc{"@ + rec.name + from_title(
            rec,
            date,
            tail,
        ),
{
    let year = "\tyear = "@ + decimal(date.year as int) + tail;
    let month = month_line(date) + year;
    let authors = author_line(rec) + month;
    let title = title_line(rec) + authors;
    lemma_line_end_moved(",\n"@, "\tyear = "@, decimal(date.year as int), Seq::empty(), tail);
    assert(",\n"@ + year == from_year(date, tail));
    lemma_line_end_moved("}},\n"@, "\tmonth = "@, decimal_nat(date.month as nat), ",\n"@, year);
    assert("}},\n"@ + month == from_month(date, tail));
    lemma_line_end_moved("}},\n"@, "\tauthor={{"@, joined(rec.authors, " and "@), "}},\n"@, month);
    assert("}},\n"@ + authors == from_authors(rec, date, tail));
    lemma_line_end_moved(",\n"@, "\ttitle={{"@, title_text(rec), "}},\n"@, authors);
    assert(",\n"@ + title == from_title(rec, date, tail));
    lemma_line_end_moved(Seq::empty(), "@misc{"@, rec.name, ",\n"@, title);
    assert(entry_line(rec) + title == "@misc{"@ + rec.name + from_title(rec, date, tail));
    lemma_lines_nested(
        entry_line(rec),
        title_line(rec),
        author_line(rec),
        month_line(date),
        "\tyear = "@,
        decimal(date.year as int),
        tail,
    );
}

/// The lines that are always there, up to the year, hold no run of a line
/// start that the fields do not hold, whatever `tail` follows the year, if
/// the tail holds none and ends every run.
proof fn lemma_head_free(rec: PackageText, date: CitationDate, tail: Seq<char>, part: Seq<char>)
    requires
        line_mark(part),
        fields_free_of(rec, part),
        !occurs(tail, part),
        blocks(tail, part),
    ensures
        !occurs(
            entry_line(rec) + title_line(rec) + author_line(rec) + month_line(date) + "\tyear = "@
                + decimal(date.year as int) + tail,
            part,
        ),
{
    lemma_from_title_free(rec, date, tail, part);
    assert(breaks_inside("@misc{"@, part)) by {
        reveal_strlit("@misc{");
    }
    lemma_free_step("@misc{"@, rec.name, from_title(rec, date, tail), part);
    lemma_head_regrouped(rec, date, tail);
}

/// No line of `text` begins with `start` if `text` begins with something
/// else and holds no newline followed by `start`.
proof fn lemma_no_line_start(text: Seq<char>, start: Seq<char>)
    requires
        start.len() > 0,
        text.len() > 0,
        text[0] != start[0],
        !occurs(text, after_newline(start)),
    ensures
        !has_line_start(text, start),
{
    assert forall|at: int| !(starts_line(text, at) && occurs_at(text, start, at)) by {
        if starts_line(text, at) && occurs_at(text, start, at) {
            if at == 0 {
                assert(text.subrange(0, start.len() as int)[0] == start[0]);
            } else {
                assert(text.subrange(at - 1, at + start.len()) =~= after_newline(start));
                assert(occurs_at(text, after_newline(start), at - 1));
            }
        }
    }
}

/// An entry for a record without a repository has no url line: none of its
/// lines begins as a url line does.
///
/// A field can hold a newline and the beginning of a url line, and is then
/// written out as it is; of such records nothing is claimed.
pub proof fn lemma_no_url_line(rec: PackageText, date: CitationDate)
    requires
        rec.repository is None,
        fields_free_of(rec, after_newline(url_start())),
    ensures
        url_line(rec) == Seq::<char>::empty(),
        !has_line_start(citation_text(rec, date), url_start()),
{
    let part = after_newline(url_start());
    let text = citation_text(rec, date);
    reveal_strlit("\turl = {{");
    reveal_strlit(",\n");
    reveal_strlit("}\n");
    reveal_strlit("\tkeywords = {");
    reveal_strlit(", ");
    reveal_strlit("@misc{");
    assert(line_mark(part)) by {
        assert forall|at: int| 1 <= at < part.len() implies #[trigger] plain_at(part, at) by {}
    }
    let tail = ",\n"@ + keywords_line(rec) + closing_line();
    match rec.keywords {
        Some(words) => {
            let before_words = ",\n"@ + "\tkeywords = {"@;
            let end = "}\n"@ + "}\n"@;
            lemma_short_text_is_free(end, part);
            lemma_punctuation_blocks(end, part);
            assert(breaks_inside(before_words, part));
            assert(breaks_inside(", "@, part));
            lemma_punctuation_blocks(", "@, part);
            lemma_free_join(before_words, words, ", "@, end, part);
            assert(tail =~= before_words + joined(words, ", "@) + end);
        },
        None => {
            lemma_short_text_is_free(tail, part);
        },
    }
    lemma_punctuation_blocks(tail, part);
    lemma_head_free(rec, date, tail, part);
    assert(text =~= entry_line(rec) + title_line(rec) + author_line(rec) + month_line(date)
        + "\tyear = "@ + decimal(date.year as int) + tail);
    lemma_no_line_start(text, url_start());
}

/// An entry for a record without keywords has no keywords line: none of its
/// lines begins as a keywords line does.
///
/// A field can hold a newline and the beginning of a keywords line, and is
/// then written out as it is; of such records nothing is claimed.
pub proof fn lemma_no_keywords_line(rec: PackageText, date: CitationDate)
    requires
        rec.keywords is None,
        fields_free_of(rec, after_newline(keywords_start())),
    ensures
        keywords_line(rec) == Seq::<char>::empty(),
        !has_line_start(citation_text(rec, date), keywords_start()),
{
    let part = after_newline(keywords_start());
    let text = citation_text(rec, date);
    reveal_strlit("\tkeywords = {");
    reveal_strlit(",\n");
    reveal_strlit("}\n");
    reveal_strlit("\turl = {{");
    reveal_strlit("}}\n");
    reveal_strlit("@misc{");
    assert(line_mark(part)) by {
        assert forall|at: int| 1 <= at < part.len() implies #[trigger] plain_at(part, at) by {}
    }
    let tail = ",\n"@ + url_line(rec) + closing_line();
    match rec.repository {
        Some(url) => {
            let before_url = ",\n"@ + "\turl = {{"@;
            let end = "}}\n"@ + "}\n"@;
            lemma_short_text_is_free(end, part);
            lemma_punctuation_blocks(end, part);
            assert(breaks_inside(before_url, part));
            lemma_free_step(before_url, url, end, part);
            assert(tail =~= before_url + url + end);
        },
        None => {
            lemma_short_text_is_free(tail, part);
        },
    }
    lemma_punctuation_blocks(tail, part);
    lemma_head_free(rec, date, tail, part);
    assert(text =~= entry_line(rec) + title_line(rec) + author_line(rec) + month_line(date)
        + "\tyear = "@ + decimal(date.year as int) + tail);
    lemma_no_line_start(text, keywords_start());
}

/// What one of the first three or of the last two of seven lines holds, the
/// lines together hold.
proof fn lemma_occurs_in_lines(
    first: Seq<char>,
    second: Seq<char>,
    third: Seq<char>,
    fourth: Seq<char>,
    fifth: Seq<char>,
    sixth: Seq<char>,
    last: Seq<char>,
    part: Seq<char>,
)
    requires
        occurs(first, part) || occurs(second, part) || occurs(third, part) || occurs(sixth, part)
            || occurs(last, part),
    ensures
        occurs(first + second + third + fourth + fifth + sixth + last, part),
{
    let whole = first + second + third + fourth + fifth + sixth + last;
    let empty = Seq::<char>::empty();
    if occurs(first, part) {
        lemma_occurs_inside(empty, first, second + third + fourth + fifth + sixth + last, part);
        assert(empty + first + (second + third + fourth + fifth + sixth + last) =~= whole);
    } else if occurs(second, part) {
        lemma_occurs_inside(first, second, third + fourth + fifth + sixth + last, part);
        assert(first + second + (third + fourth + fifth + sixth + last) =~= whole);
    } else if occurs(third, part) {
        lemma_occurs_inside(first + second, third, fourth + fifth + sixth + last, part);
        assert(first + second + third + (fourth + fifth + sixth + last) =~= whole);
    } else if occurs(sixth, part) {
        lemma_occurs_inside(first + second + third + fourth + fifth, sixth, last, part);
    } else {
        lemma_occurs_inside(first + second + third + fourth + fifth + sixth, last, empty, part);
        assert(whole + empty =~= whole);
    }
}

/// Whatever a field holds is written out as it is: a run of characters that
/// one of the written fields holds stands in the entry too.
pub proof fn lemma_field_text_is_written(rec: PackageText, date: CitationDate, part: Seq<char>)
    requires
        !fields_free_of(rec, part),
    ensures
        occurs(citation_text(rec, date), part),
{
    let empty = Seq::<char>::empty();
    if occurs(rec.name, part) {
        lemma_occurs_inside("@misc{"@, rec.name, ",\n"@, part);
    } else if rec.description is Some && occurs(rec.description->0, part) {
        lemma_occurs_inside(rec.name + ": "@, rec.description->0, empty, part);
        assert(rec.name + ": "@ + rec.description->0 + empty =~= title_text(rec));
        lemma_occurs_inside("\ttitle={{"@, title_text(rec), "}},\n"@, part);
    } else if exists|i: int| 0 <= i < rec.authors.len() && occurs(#[trigger] rec.authors[i], part) {
        let i = choose|i: int|
            0 <= i < rec.authors.len() && occurs(#[trigger] rec.authors[i], part);
        lemma_occurs_in_joined(rec.authors, " and "@, i, part);
        lemma_occurs_inside("\tauthor={{"@, joined(rec.authors, " and "@), "}},\n"@, part);
    } else if rec.repository is Some && occurs(rec.repository->0, part) {
        lemma_occurs_inside("\turl = {{"@, rec.repository->0, "}}\n"@, part);
    } else {
        let words = rec.keywords->0;
        let i = choose|i: int| 0 <= i < words.len() && occurs(#[trigger] words[i], part);
        lemma_occurs_in_joined(words, ", "@, i, part);
        lemma_occurs_inside("\tkeywords = {"@, joined(words, ", "@), "}\n"@, part);
        lemma_occurs_inside(empty, keywords_line(rec), closing_line(), part);
        assert(empty + keywords_line(rec) + closing_line() =~= keywords_line(rec) + closing_line());
    }
    lemma_occurs_in_lines(
        entry_line(rec),
        title_line(rec),
        author_line(rec),
        month_line(date),
        year_line(date),
        url_line(rec),
        keywords_line(rec) + closing_line(),
        part,
    );
    assert(citation_text(rec, date) =~= entry_line(rec) + title_line(rec) + author_line(rec)
        + month_line(date) + year_line(date) + url_line(rec) + (keywords_line(rec)
        + closing_line()));
}

/// A field that holds a newline followed by `start` gives the entry a line
/// that begins with `start`, whatever the other fields are.
pub proof fn lemma_line_start_from_field(rec: PackageText, date: CitationDate, start: Seq<char>)
    requires
        !fields_free_of(rec, after_newline(start)),
    ensures
        has_line_start(citation_text(rec, date), start),
{
    let text = citation_text(rec, date);
    let part = after_newline(start);
    lemma_field_text_is_written(rec, date, part);
    let at = choose|at: int| occurs_at(text, part, at);
    assert(text.subrange(at, at + part.len())[0] == '\n');
    assert(text.subrange(at + 1, at + 1 + start.len()) =~= text.subrange(
        at,
        at + part.len(),
    ).subrange(1, part.len() as int));
    assert(part.subrange(1, part.len() as int) =~= start);
    assert(starts_line(text, at + 1) && occurs_at(text, start, at + 1));
}

} // verus!
