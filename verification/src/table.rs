//! The tabular format: one row for each annotation that has a passage.
//!
//! The table is drawn by `term_table`, in its rounded style, with columns
//! for the book's title, the time and the passage. No column is wider than
//! [`MAX_COLUMN_WIDTH`]; longer texts are wrapped.

use vstd::prelude::*;

use crate::annotation::{Annotation, AnnotationView};
use crate::calendar::utc_display_text;

verus! {

/// The greatest width of a column, in characters.
pub const MAX_COLUMN_WIDTH: usize = 120;

/// The three cells of a row of the table.
pub struct TableLine {
    pub book_title: String,
    pub annotation_time: String,
    pub selected_text: String,
}

impl View for TableLine {
    type V = (Seq<char>, Seq<char>, Seq<char>);

    open spec fn view(&self) -> (Seq<char>, Seq<char>, Seq<char>) {
        (self.book_title@, self.annotation_time@, self.selected_text@)
    }
}

impl DeepView for TableLine {
    type V = (Seq<char>, Seq<char>, Seq<char>);

    open spec fn deep_view(&self) -> (Seq<char>, Seq<char>, Seq<char>) {
        self@
    }
}

/// The text that `term_table` renders for a table in its rounded style with
/// the rows `lines`, each of three cells, and no column wider than
/// `max_column_width`.
pub uninterp spec fn rounded_table_text(
    lines: Seq<(Seq<char>, Seq<char>, Seq<char>)>,
    max_column_width: int,
) -> Seq<char>;

/// Makes a `term_table::Table` in the rounded style with the given greatest
/// column width, adds a row of three cells for each of `lines`, and calls
/// `term_table::Table::render`. Trusted: the text depends on the cells and
/// the width alone.
#[verifier::external_body]
pub(crate) fn draw_rounded_table(lines: &Vec<TableLine>, max_column_width: usize) -> (out: String)
    ensures
        out@ == rounded_table_text(lines.deep_view(), max_column_width as int),
{
    let mut table = term_table::Table::new();
    table.max_column_width(max_column_width);
    table.style = term_table::TableStyle::rounded();
    for line in lines {
        table.add_row(term_table::row::Row::new(vec![
            term_table::table_cell::TableCell::new(&line.book_title),
            term_table::table_cell::TableCell::new(&line.annotation_time),
            term_table::table_cell::TableCell::new(&line.selected_text),
        ]));
    }
    table.render()
}

/// The row of an annotation: its title, its time as shown to a reader, and
/// its passage. An annotation without a passage has no row.
pub open spec fn table_line(a: AnnotationView) -> Option<(Seq<char>, Seq<char>, Seq<char>)> {
    match a.selected_text {
        Some(text) => Some((a.book_title, utc_display_text(a.annotation_time), text)),
        None => None,
    }
}

/// The rows of the table of `annotations`, in their order.
pub open spec fn table_lines(annotations: Seq<AnnotationView>) -> Seq<
    (Seq<char>, Seq<char>, Seq<char>),
> {
    annotations.filter_map(|a: AnnotationView| table_line(a))
}

/// The table of `annotations` as text.
pub open spec fn tabular(annotations: Seq<AnnotationView>) -> Seq<char> {
    rounded_table_text(table_lines(annotations), MAX_COLUMN_WIDTH as int)
}

/// The rows of the table of `annotations`: one for each annotation that has
/// a passage.
pub fn lines_of(annotations: &Vec<Annotation>) -> (lines: Vec<TableLine>)
    ensures
        lines.deep_view() == table_lines(annotations.deep_view()),
{
    let ghost all = annotations.deep_view();
    let ghost line = |a: AnnotationView| table_line(a);
    let mut lines: Vec<TableLine> = Vec::new();
    let mut i: usize = 0;
    while i < annotations.len()
        invariant
            i <= annotations.len(),
            all == annotations.deep_view(),
            line == |a: AnnotationView| table_line(a),
            lines.deep_view() =~= all.take(i as int).filter_map(line),
        decreases annotations.len() - i,
    {
        let a = &annotations[i];
        proof {
            assert(all[i as int] == a@);
            all.lemma_filter_map_take_succ(line, i as int);
        }
        match &a.selected_text {
            Some(text) => {
                let ghost before = lines.deep_view();
                let next = TableLine {
                    book_title: a.book_title.clone(),
                    annotation_time: a.annotation_time.to_display(),
                    selected_text: text.clone(),
                };
                proof {
                    assert(Some(next@) == table_line(a@));
                }
                lines.push(next);
                proof {
                    assert(lines.deep_view() =~= before.push(table_line(a@)->0));
                }
            },
            None => {},
        }
        i += 1;
    }
    proof {
        assert(all.take(annotations.len() as int) =~= all);
    }
    lines
}

/// Renders `annotations` as a table with the columns title, time and
/// passage. Annotations without a passage are left out.
pub fn render_tabular(annotations: &Vec<Annotation>) -> (out: String)
    ensures
        out@ == tabular(annotations.deep_view()),
{
    let lines = lines_of(annotations);
    draw_rounded_table(&lines, MAX_COLUMN_WIDTH)
}

} // verus!
