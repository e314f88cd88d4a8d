//! One run of the export, from the marker to the output and the new marker.
//!
//! A run has two parts, with the query between them. The first part decides
//! since when annotations are wanted. The caller then runs the query. The
//! second part selects the new annotations from the rows, renders them in
//! the chosen format and, unless this is suppressed, makes the time of the
//! latest of them the new marker. The caller prints the output and writes
//! the marker file back.

use vstd::prelude::*;

use crate::annotation::{Annotation, AnnotationView};
use crate::calendar::rfc3339_text;
use crate::epoch::Timestamp;
use crate::errors::Errors;
use crate::marker::{marker_of, marker_view, LastSyncFile, LastSyncFileView};
use crate::outline::{outline, render_outline};
use crate::reader::{
    all_decodable, lemma_later_threshold_selects_fewer, lemma_selected_annotations,
    read_annotations, selected_from, threshold, AnnotationRow, AnnotationRowView,
};
use crate::structured::{render_structured, structured};
use crate::table::{render_tabular, tabular};
use vstd::utf8::encode_utf8;

verus! {

/// The format of the output.
#[derive(Clone, Copy, Debug, PartialEq, Eq, Structural)]
pub enum OutputFormat {
    /// Books as headings, annotations as bullets below them.
    Outline,
    /// One JSON document.
    Structured,
    /// A table.
    Tabular,
}

/// What the user asked of a run.
#[derive(Clone, Copy, Debug)]
pub struct RunConfig {
    /// Export all annotations, not only those made since the last export.
    pub rescan_all: bool,
    /// The format of the output.
    pub format: OutputFormat,
    /// Leave the marker as it is.
    pub suppress_marker_update: bool,
}

/// What a run gives back.
pub struct RunOutcome {
    /// The annotations, rendered.
    pub output: String,
    /// The marker that the run has set, `None` where it has set none.
    pub new_marker: Option<Timestamp>,
}

/// The time from which annotations are wanted: the marker, or no limit
/// where all are asked for.
pub open spec fn since_of(rescan_all: bool, marker: Option<int>) -> Option<int> {
    if rescan_all {
        None
    } else {
        marker
    }
}

/// The latest time among `annotations`, `None` where there are none.
pub open spec fn latest_time(annotations: Seq<AnnotationView>) -> Option<int>
    decreases annotations.len(),
{
    if annotations.len() == 0 {
        None
    } else {
        let time = annotations.last().annotation_time;
        match latest_time(annotations.drop_last()) {
            Some(latest) => if latest >= time {
                Some(latest)
            } else {
                Some(time)
            },
            None => Some(time),
        }
    }
}

/// The marker that a run proposes: the latest time of its result, unless
/// the update is suppressed or the result is empty.
pub open spec fn proposed_marker(result: Seq<AnnotationView>, suppress: bool) -> Option<int> {
    if suppress {
        None
    } else {
        latest_time(result)
    }
}

/// The marker after a run that found `marker` and selected `result`.
pub open spec fn marker_after(marker: Option<int>, result: Seq<AnnotationView>, suppress: bool)
    -> Option<int> {
    match proposed_marker(result, suppress) {
        Some(latest) => Some(latest),
        None => marker,
    }
}

/// `annotations` in the format `format`.
pub open spec fn rendered(format: OutputFormat, annotations: Seq<AnnotationView>) -> Seq<char> {
    match format {
        OutputFormat::Outline => outline(annotations),
        OutputFormat::Structured => structured(annotations),
        OutputFormat::Tabular => tabular(annotations),
    }
}

/// `latest_time` is the time of one of the annotations, and none is later.
pub proof fn lemma_latest_time(annotations: Seq<AnnotationView>)
    ensures
        match latest_time(annotations) {
            Some(latest) => {
                &&& exists|i: int|
                    0 <= i < annotations.len() && (#[trigger] annotations[i]).annotation_time
                        == latest
                &&& forall|i: int|
                    0 <= i < annotations.len() ==> (#[trigger] annotations[i]).annotation_time
                        <= latest
            },
            None => annotations.len() == 0,
        },
    decreases annotations.len(),
{
    if annotations.len() > 0 {
        let front = annotations.drop_last();
        let last = annotations.len() - 1;
        lemma_latest_time(front);
        assert forall|i: int| 0 <= i < front.len() implies front[i] == annotations[i] by {}
        match latest_time(front) {
            Some(latest) => {
                if latest >= annotations.last().annotation_time {
                    let i = choose|i: int|
                        0 <= i < front.len() && (#[trigger] front[i]).annotation_time == latest;
                    assert(annotations[i].annotation_time == latest);
                } else {
                    assert(annotations[last].annotation_time == latest_time(annotations)->0);
                }
            },
            None => {
                assert(annotations[last].annotation_time == latest_time(annotations)->0);
            },
        }
        assert forall|i: int| 0 <= i < annotations.len() implies (#[trigger] annotations[i]).annotation_time
            <= latest_time(annotations)->0 by {
            if i < front.len() {
                assert(front[i].annotation_time <= latest_time(front)->0);
            }
        }
    }
}

/// After a run that may update the marker and has selected something, the
/// marker is the latest time of what was selected.
pub proof fn lemma_marker_advances_to_latest(
    marker: Option<int>,
    result: Seq<AnnotationView>,
)
    requires
        result.len() > 0,
    ensures
        marker_after(marker, result, false) == latest_time(result),
        latest_time(result) is Some,
        forall|i: int|
            0 <= i < result.len() ==> (#[trigger] result[i]).annotation_time <= latest_time(
                result,
            )->0,
        exists|i: int|
            0 <= i < result.len() && (#[trigger] result[i]).annotation_time == latest_time(
                result,
            )->0,
{
    lemma_latest_time(result);
}

/// A second run over the same rows selects nothing and leaves the marker as
/// the first run set it, where both runs may update the marker and neither
/// asks for all annotations.
pub proof fn lemma_second_run_is_empty(rows: Seq<Option<AnnotationRowView>>, marker: Option<int>)
    ensures
        ({
            let first = selected_from(rows, threshold(marker));
            let between = marker_after(marker, first, false);
            let second = selected_from(rows, threshold(between));
            &&& second.len() == 0
            &&& marker_after(between, second, false) == between
        }),
{
    let first = selected_from(rows, threshold(marker));
    let between = marker_after(marker, first, false);
    lemma_latest_time(first);
    match latest_time(first) {
        Some(latest) => {
            lemma_selected_annotations(rows, threshold(marker));
            lemma_later_threshold_selects_fewer(rows, threshold(marker), threshold(between));
            let keep = |a: AnnotationView| a.annotation_time > crate::epoch::to_unix(threshold(between));
            assert(first.all(|a: AnnotationView| !keep(a)));
            first.lemma_all_neg_filter_empty(keep);
        },
        None => {
            assert(first =~= Seq::<AnnotationView>::empty());
        },
    }
}

/// The latest time among `annotations`.
pub fn candidate_marker(annotations: &Vec<Annotation>) -> (latest: Option<Timestamp>)
    ensures
        latest.deep_view() == latest_time(annotations.deep_view()),
{
    let ghost all = annotations.deep_view();
    let mut latest: Option<Timestamp> = None;
    let mut i: usize = 0;
    while i < annotations.len()
        invariant
            i <= annotations.len(),
            all == annotations.deep_view(),
            latest.deep_view() == latest_time(all.take(i as int)),
        decreases annotations.len() - i,
    {
        proof {
            assert(all.take(i + 1).drop_last() =~= all.take(i as int));
            assert(all.take(i + 1).last() == annotations[i as int]@);
        }
        let time = annotations[i].annotation_time;
        latest = match latest {
            Some(t) => if time.is_after(&t) {
                Some(time)
            } else {
                Some(t)
            },
            None => Some(time),
        };
        i += 1;
    }
    proof {
        assert(all.take(annotations.len() as int) =~= all);
    }
    latest
}

/// The first part of a run: the time from which annotations are wanted.
/// With `rescan_all` the marker is not looked at; else a marker that cannot
/// be read ends the run.
pub fn effective_since(config: &RunConfig, store: &LastSyncFile) -> (r: Result<
    Option<Timestamp>,
    Errors,
>)
    ensures
        marker_view(r) == if config.rescan_all {
            Ok::<Option<int>, Errors>(None)
        } else {
            marker_of(store@.contents)
        },
{
    if config.rescan_all {
        Ok(None)
    } else {
        store.read()
    }
}

/// Renders `annotations` in the format `format`.
pub fn render(format: OutputFormat, annotations: &Vec<Annotation>) -> (out: String)
    ensures
        out@ == rendered(format, annotations.deep_view()),
{
    match format {
        OutputFormat::Outline => render_outline(annotations),
        OutputFormat::Structured => render_structured(annotations),
        OutputFormat::Tabular => render_tabular(annotations),
    }
}

/// The store after a run that proposed `proposed` as the marker.
pub open spec fn store_after(store: LastSyncFileView, proposed: Option<int>) -> LastSyncFileView {
    match proposed {
        Some(latest) => LastSyncFileView {
            contents: Some(encode_utf8(rfc3339_text(latest))),
            ..store
        },
        None => store,
    }
}

/// The second part of a run: selects from `rows` the annotations made after
/// `since`, renders them, and makes the latest of their times the marker in
/// `store`, unless the update is suppressed or nothing was selected.
///
/// A row that cannot be made into an annotation ends the run with
/// `ContextProcessingAnnotation`, and `store` is as it was.
pub fn finish_run(
    config: &RunConfig,
    store: &mut LastSyncFile,
    since: &Option<Timestamp>,
    rows: Vec<Option<AnnotationRow>>,
) -> (r: Result<RunOutcome, Errors>)
    ensures
        match r {
            Ok(outcome) => {
                let result = selected_from(rows.deep_view(), threshold(since.deep_view()));
                &&& all_decodable(rows.deep_view(), threshold(since.deep_view()))
                &&& outcome.output@ == rendered(config.format, result)
                &&& outcome.new_marker.deep_view() == proposed_marker(
                    result,
                    config.suppress_marker_update,
                )
                &&& final(store)@ == store_after(
                    old(store)@,
                    proposed_marker(result, config.suppress_marker_update),
                )
            },
            Err(e) => {
                &&& e == Errors::ContextProcessingAnnotation
                &&& !all_decodable(rows.deep_view(), threshold(since.deep_view()))
                &&& final(store)@ == old(store)@
            },
        },
{
    let annotations = match read_annotations(rows, since) {
        Ok(annotations) => annotations,
        Err(e) => { return Err(e); },
    };
    let latest = candidate_marker(&annotations);
    let output = render(config.format, &annotations);
    let new_marker = if config.suppress_marker_update {
        None
    } else {
        latest
    };
    match new_marker {
        Some(t) => store.update(t),
        None => {},
    }
    Ok(RunOutcome { output, new_marker })
}

/// A whole run over rows that are known beforehand: both parts, one after
/// the other. The marker is read from `store`, and the new one is set in it.
pub fn run(config: &RunConfig, store: &mut LastSyncFile, rows: Vec<Option<AnnotationRow>>) -> (r:
    Result<RunOutcome, Errors>)
    ensures
        match r {
            Ok(outcome) => {
                let since = since_of(config.rescan_all, marker_of(old(store)@.contents)->Ok_0);
                let result = selected_from(rows.deep_view(), threshold(since));
                &&& config.rescan_all || marker_of(old(store)@.contents) is Ok
                &&& all_decodable(rows.deep_view(), threshold(since))
                &&& outcome.output@ == rendered(config.format, result)
                &&& outcome.new_marker.deep_view() == proposed_marker(
                    result,
                    config.suppress_marker_update,
                )
                &&& final(store)@ == store_after(
                    old(store)@,
                    proposed_marker(result, config.suppress_marker_update),
                )
            },
            Err(e) => {
                &&& final(store)@ == old(store)@
                &&& if !config.rescan_all && marker_of(old(store)@.contents) is Err {
                    e == Errors::UnableToReadSyncFile
                } else {
                    let since = since_of(
                        config.rescan_all,
                        marker_of(old(store)@.contents)->Ok_0,
                    );
                    &&& e == Errors::ContextProcessingAnnotation
                    &&& !all_decodable(rows.deep_view(), threshold(since))
                }
            },
        },
{
    let since = match effective_since(config, store) {
        Ok(since) => since,
        Err(e) => { return Err(e); },
    };
    finish_run(config, store, &since, rows)
}

} // verus!
