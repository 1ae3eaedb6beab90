//! Dumping a device database: which tables are dumped, and what is printed of their pages.

use vstd::prelude::*;
use vstd::string::*;

use crate::device::layout::texts;
use crate::pdb::PageType;

verus! {

/// What is on a page, each part as its debugging text.
#[derive(Debug)]
pub enum PageText {
    /// A page of rows.
    Data { page: String, rows: Vec<String> },
    /// A page of the index.
    Index { page: String, index: String, entries: Vec<String> },
}

/// The lines of the rows or entries of a page.
pub open spec fn inner_lines(items: Seq<String>) -> Seq<Seq<char>> {
    Seq::new(items.len(), |i: int| "      "@ + items[i]@)
}

impl PageText {
    /// The lines that are printed of a page: the page itself, and further in what it holds.
    pub open spec fn lines(&self) -> Seq<Seq<char>> {
        match self {
            PageText::Data { page, rows } => seq!["  "@ + page@] + inner_lines(rows@),
            PageText::Index { page, index, entries } => seq![
                "  "@ + page@,
                "    "@ + index@,
            ] + inner_lines(entries@),
        }
    }
}

/// A line of `text` behind `margin`.
fn indented(margin: &str, text: &str) -> (r: String)
    ensures
        r@ == margin@ + text@,
{
    String::from_str(margin).concat(text)
}

/// Appends the lines of the rows or entries of a page.
fn push_inner(items: &Vec<String>, out: &mut Vec<String>)
    ensures
        texts(final(out)@) == texts(old(out)@) + inner_lines(items@),
{
    let mut i: usize = 0;
    let ghost lines = inner_lines(items@);
    assert(texts(out@) =~= texts(old(out)@) + lines.take(0));
    while i < items.len()
        invariant
            i <= items.len(),
            lines == inner_lines(items@),
            texts(out@) == texts(old(out)@) + lines.take(i as int),
        decreases items.len() - i,
    {
        let ghost before = out@;
        out.push(indented("      ", items[i].as_str()));
        assert(texts(out@) =~= texts(before).push(lines[i as int]));
        assert(texts(out@) =~= texts(old(out)@) + lines.take(i + 1));
        i = i + 1;
    }
    assert(lines.take(i as int) =~= lines);
}

/// The lines that are printed of a page.
pub fn page_lines(page: &PageText) -> (r: Vec<String>)
    ensures
        texts(r@) == page.lines(),
{
    let mut out: Vec<String> = Vec::new();
    match page {
        PageText::Data { page: text, rows } => {
            out.push(indented("  ", text.as_str()));
            assert(texts(out@) =~= seq!["  "@ + text@]);
            push_inner(rows, &mut out);
        },
        PageText::Index { page: text, index, entries } => {
            out.push(indented("  ", text.as_str()));
            out.push(indented("    ", index.as_str()));
            assert(texts(out@) =~= seq!["  "@ + text@, "    "@ + index@]);
            push_inner(entries, &mut out);
        },
    }
    out
}

/// What is printed above a table, and whether its pages follow.
#[derive(Debug)]
pub struct TableHeading {
    pub lines: Vec<String>,
    pub dumped: bool,
}

/// The lines above a table: its number and kind, and a notice where its pages are left out.
pub open spec fn heading_lines(id: Seq<char>, kind: Seq<char>, dumped: bool) -> Seq<Seq<char>> {
    let title = "Table "@ + id + ": "@ + kind;
    if dumped {
        seq![title]
    } else {
        seq![
            title,
            "  Skipping unknown table type, use --parse-unknown-tables to attempt parsing"@,
        ]
    }
}

/// Starts the dump of a table. A table whose rows are not understood is left out unless the caller
/// asks for an attempt. `id` and `kind` are the debugging texts of its number and kind.
pub fn table_heading(
    id: &str,
    kind: &str,
    page_type: PageType,
    parse_unknown_tables: bool,
) -> (r: TableHeading)
    ensures
        r.dumped == (page_type is Plain || parse_unknown_tables),
        texts(r.lines@) == heading_lines(id@, kind@, r.dumped),
{
    let mut title: String = String::from_str("Table ");
    title.append(id);
    title.append(": ");
    title.append(kind);
    let mut lines: Vec<String> = Vec::new();
    lines.push(title);
    let dumped: bool = !page_type.is_skipped(parse_unknown_tables);
    if !dumped {
        lines.push(
            String::from_str(
                "  Skipping unknown table type, use --parse-unknown-tables to attempt parsing",
            ),
        );
    }
    assert(texts(lines@) =~= heading_lines(id@, kind@, dumped));
    TableHeading { lines, dumped }
}

/// A page prints itself behind two blanks and each row or entry behind six, in their order; a page
/// of the index prints the index behind four blanks in between.
pub proof fn law_page_lines(page: PageText, i: int)
    ensures
        page matches PageText::Data { page: text, rows } ==> {
            &&& page.lines().len() == rows@.len() + 1
            &&& page.lines()[0] == "  "@ + text@
            &&& 0 <= i < rows@.len() ==> page.lines()[i + 1] == "      "@ + rows@[i]@
        },
        page matches PageText::Index { page: text, index, entries } ==> {
            &&& page.lines().len() == entries@.len() + 2
            &&& page.lines()[0] == "  "@ + text@
            &&& page.lines()[1] == "    "@ + index@
            &&& 0 <= i < entries@.len() ==> page.lines()[i + 2] == "      "@ + entries@[i]@
        },
{
}

/// A heading says the number and the kind of its table, and one line more where the table is left
/// out.
pub proof fn law_headings(id: Seq<char>, kind: Seq<char>, dumped: bool)
    ensures
        heading_lines(id, kind, dumped)[0] == "Table "@ + id + ": "@ + kind,
        dumped ==> heading_lines(id, kind, dumped).len() == 1,
        !dumped ==> heading_lines(id, kind, dumped).len() == 2 && heading_lines(id, kind, dumped)[1]
            == "  Skipping unknown table type, use --parse-unknown-tables to attempt parsing"@,
{
}

} // verus!
