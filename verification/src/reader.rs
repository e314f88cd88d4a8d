//! From the rows of the query to annotations.
//!
//! The caller joins the reader's two databases and hands over the rows in
//! the order of their time. This module holds the rule by which a row
//! counts as new, and makes annotations of the rows that do. It is all or
//! nothing: one row that cannot be made into an annotation fails the whole
//! read.

use vstd::prelude::*;

use crate::annotation::{Annotation, AnnotationView};
use crate::epoch::{
    checked_core_data_to_timestamp, representable, to_core_epoch, to_unix, Timestamp,
};
use crate::errors::Errors;

verus! {

/// A row of the query: an annotation as the reader stores it, with the title
/// of its book.
pub struct AnnotationRow {
    /// The highlighted passage.
    pub selected_text: Option<String>,
    /// The reader's note on the passage.
    pub note: Option<String>,
    /// When the annotation was made, in seconds of the reader's clock.
    pub core_time: i64,
    /// Title of the book that holds the passage.
    pub book_title: String,
}

/// The mathematical value of an [`AnnotationRow`].
pub ghost struct AnnotationRowView {
    pub selected_text: Option<Seq<char>>,
    pub note: Option<Seq<char>>,
    pub core_time: int,
    pub book_title: Seq<char>,
}

impl View for AnnotationRow {
    type V = AnnotationRowView;

    open spec fn view(&self) -> AnnotationRowView {
        AnnotationRowView {
            selected_text: self.selected_text.deep_view(),
            note: self.note.deep_view(),
            core_time: self.core_time as int,
            book_title: self.book_title@,
        }
    }
}

impl DeepView for AnnotationRow {
    type V = AnnotationRowView;

    open spec fn deep_view(&self) -> AnnotationRowView {
        self@
    }
}

/// The count of the reader's clock that a row must exceed to be new: the
/// marker on the reader's clock, and zero where there is no marker.
pub open spec fn threshold(since: Option<int>) -> int {
    match since {
        Some(unix_seconds) => to_core_epoch(unix_seconds),
        None => 0,
    }
}

/// Whether a row is wanted: it has a passage, its note is not the empty
/// text, and it was made after `threshold` on the reader's clock.
pub open spec fn is_selected(row: AnnotationRowView, threshold: int) -> bool {
    &&& row.selected_text is Some
    &&& row.note != Some(Seq::<char>::empty())
    &&& row.core_time > threshold
}

/// The annotation that a row stands for.
pub open spec fn annotation_of(row: AnnotationRowView) -> AnnotationView {
    AnnotationView {
        selected_text: row.selected_text,
        note: row.note,
        annotation_time: to_unix(row.core_time),
        book_title: row.book_title,
    }
}

/// The annotation of a row that is wanted; `None` for one that is not, and
/// for a row that could not be read.
pub open spec fn selection(row: Option<AnnotationRowView>, threshold: int) -> Option<
    AnnotationView,
> {
    match row {
        Some(r) => if is_selected(r, threshold) {
            Some(annotation_of(r))
        } else {
            None
        },
        None => None,
    }
}

/// The annotations of the rows that are wanted, in the order of the rows.
pub open spec fn selected_from(rows: Seq<Option<AnnotationRowView>>, threshold: int) -> Seq<
    AnnotationView,
> {
    rows.filter_map(|row: Option<AnnotationRowView>| selection(row, threshold))
}

/// Whether a row can be made into an annotation if it is wanted: it was
/// read, and its time is representable.
pub open spec fn is_decodable(row: Option<AnnotationRowView>, threshold: int) -> bool {
    match row {
        Some(r) => is_selected(r, threshold) ==> representable(to_unix(r.core_time)),
        None => false,
    }
}

/// Whether every row can be made into an annotation if it is wanted.
pub open spec fn all_decodable(rows: Seq<Option<AnnotationRowView>>, threshold: int) -> bool {
    forall|i: int| 0 <= i < rows.len() ==> is_decodable(#[trigger] rows[i], threshold)
}

/// The count of the reader's clock that rows must exceed, for the query.
pub fn query_threshold(since: &Option<Timestamp>) -> (core: i64)
    ensures
        core == threshold(since.deep_view()),
{
    match since {
        Some(t) => t.core_seconds(),
        None => 0,
    }
}

/// Whether `row` is wanted, given the count that its time must exceed.
pub fn is_new(row: &AnnotationRow, threshold: i64) -> (wanted: bool)
    ensures
        wanted == is_selected(row@, threshold as int),
{
    let has_text = row.selected_text.is_some();
    let note_is_empty = match &row.note {
        Some(note) => note.as_str().is_empty(),
        None => false,
    };
    proof {
        match &row.note {
            Some(note) => {
                assert(note@.len() == 0 <==> note@ =~= Seq::<char>::empty());
            },
            None => {},
        }
    }
    has_text && !note_is_empty && row.core_time > threshold
}

/// Makes annotations of the rows that were made after `created_after`; with
/// `None`, of the rows made after the zero of the reader's clock.
///
/// A row is `None` where the caller could not read it. The result is
/// `ContextProcessingAnnotation` where a row is `None` or the time of a
/// wanted row is not representable, and else the annotations of the
/// wanted rows, in the order of the rows.
pub fn read_annotations(rows: Vec<Option<AnnotationRow>>, created_after: &Option<Timestamp>) -> (r:
    Result<Vec<Annotation>, Errors>)
    ensures
        match r {
            Ok(annotations) => {
                &&& all_decodable(rows.deep_view(), threshold(created_after.deep_view()))
                &&& annotations.deep_view() == selected_from(
                    rows.deep_view(),
                    threshold(created_after.deep_view()),
                )
            },
            Err(e) => {
                &&& e == Errors::ContextProcessingAnnotation
                &&& !all_decodable(rows.deep_view(), threshold(created_after.deep_view()))
            },
        },
{
    let limit = query_threshold(created_after);
    let ghost all = rows.deep_view();
    let ghost raw = rows@;
    let ghost pick = |row: Option<AnnotationRowView>| selection(row, limit as int);
    let mut annotations: Vec<Annotation> = Vec::new();
    for row in it: rows
        invariant
            it.seq() == raw,
            raw == rows@,
            all == rows.deep_view(),
            pick == |row: Option<AnnotationRowView>| selection(row, limit as int),
            limit == threshold(created_after.deep_view()),
            all_decodable(all.take(it.index() as int), limit as int),
            annotations.deep_view() == all.take(it.index() as int).filter_map(pick),
    {
        let ghost i = it.index() as int;
        proof {
            assert(row == raw[i]);
            assert(all[i] == row.deep_view());
            all.lemma_filter_map_take_succ(pick, i);
        }
        match row {
            Some(row) => {
                if is_new(&row, limit) {
                    match checked_core_data_to_timestamp(row.core_time) {
                        Some(annotation_time) => {
                            annotations.push(
                                Annotation {
                                    selected_text: row.selected_text,
                                    note: row.note,
                                    annotation_time,
                                    book_title: row.book_title,
                                },
                            );
                        },
                        None => {
                            assert(!is_decodable(all[i], limit as int));
                            return Err(Errors::ContextProcessingAnnotation);
                        },
                    }
                }
            },
            None => {
                assert(!is_decodable(all[i], limit as int));
                return Err(Errors::ContextProcessingAnnotation);
            },
        }
        proof {
            assert(annotations.deep_view() =~= all.take(i + 1).filter_map(pick));
            assert forall|j: int| 0 <= j < i + 1 implies is_decodable(
                #[trigger] all.take(i + 1)[j],
                limit as int,
            ) by {
                if j < i {
                    assert(all.take(i)[j] == all.take(i + 1)[j]);
                }
            }
        }
    }
    proof {
        assert(all.take(all.len() as int) =~= all);
    }
    Ok(annotations)
}

/// A later threshold selects fewer rows, in the same order: what is selected
/// after `later` is what is selected after `earlier`, without the annotations
/// made at or before `later`.
pub proof fn lemma_later_threshold_selects_fewer(
    rows: Seq<Option<AnnotationRowView>>,
    earlier: int,
    later: int,
)
    requires
        earlier <= later,
    ensures
        selected_from(rows, later) == selected_from(rows, earlier).filter(
            |a: AnnotationView| a.annotation_time > to_unix(later),
        ),
    decreases rows.len(),
{
    let keep = |a: AnnotationView| a.annotation_time > to_unix(later);
    reveal(Seq::filter);
    if rows.len() > 0 {
        let front = rows.drop_last();
        lemma_later_threshold_selects_fewer(front, earlier, later);
        let before = selected_from(front, earlier);
        match selection(rows.last(), earlier) {
            Some(a) => {
                assert(before + seq![a] =~= before.push(a));
                before.lemma_filter_push(a, keep);
                if keep(a) {
                    assert(selected_from(front, later) + seq![a] =~= selected_from(
                        front,
                        later,
                    ).push(a));
                }
            },
            None => {},
        }
    }
}

/// Filtering is monotone in the marker: of two markers, the later one
/// selects a part of what the earlier one selects.
pub proof fn lemma_filtering_monotone(rows: Seq<Option<AnnotationRowView>>, t1: int, t2: int)
    requires
        t1 < t2,
    ensures
        forall|a: AnnotationView| #[trigger]
            selected_from(rows, threshold(Some(t2))).contains(a) ==> selected_from(
                rows,
                threshold(Some(t1)),
            ).contains(a),
{
    lemma_later_threshold_selects_fewer(rows, threshold(Some(t1)), threshold(Some(t2)));
    assert forall|a: AnnotationView| #[trigger]
        selected_from(rows, threshold(Some(t2))).contains(a) implies selected_from(
        rows,
        threshold(Some(t1)),
    ).contains(a) by {
        selected_from(rows, threshold(Some(t1))).lemma_filter_contains_rev(
            |a: AnnotationView| a.annotation_time > to_unix(threshold(Some(t2))),
            a,
        );
    }
}

/// Every annotation that is selected has a passage, has no empty note, and
/// was made after the threshold.
pub proof fn lemma_selected_annotations(rows: Seq<Option<AnnotationRowView>>, threshold: int)
    ensures
        forall|i: int|
            0 <= i < selected_from(rows, threshold).len() ==> {
                let a = #[trigger] selected_from(rows, threshold)[i];
                &&& a.selected_text is Some
                &&& a.note != Some(Seq::<char>::empty())
                &&& a.annotation_time > to_unix(threshold)
            },
    decreases rows.len(),
{
    if rows.len() > 0 {
        lemma_selected_annotations(rows.drop_last(), threshold);
    }
}

} // verus!
