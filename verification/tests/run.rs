use ibooks_export::annotation::Annotation;
use ibooks_export::epoch::{Timestamp, CORE_EPOCH_OFFSET};
use ibooks_export::errors::Errors;
use ibooks_export::marker::LastSyncFile;
use ibooks_export::reader::AnnotationRow;
use ibooks_export::run::{
    candidate_marker, effective_since, finish_run, render, run, OutputFormat, RunConfig,
};

const T1: i64 = 1_622_548_800;
const T2: i64 = 1_622_635_200;

fn row(text: Option<&str>, note: Option<&str>, unix: i64, title: &str) -> Option<AnnotationRow> {
    Some(AnnotationRow {
        selected_text: text.map(String::from),
        note: note.map(String::from),
        core_time: unix - CORE_EPOCH_OFFSET,
        book_title: String::from(title),
    })
}

fn dune() -> Vec<Option<AnnotationRow>> {
    vec![
        row(Some("Fear is the mind-killer."), None, T1, "Dune"),
        row(Some("The spice must flow."), Some("good line"), T2, "Dune"),
    ]
}

fn store() -> LastSyncFile {
    LastSyncFile::find(&Some(String::from("/data"))).unwrap()
}

fn store_at(text: &str) -> LastSyncFile {
    let mut file = store();
    file.load(text.as_bytes().to_vec());
    file
}

fn config(rescan_all: bool, format: OutputFormat, suppress_marker_update: bool) -> RunConfig {
    RunConfig { rescan_all, format, suppress_marker_update }
}

fn note(secs: i64) -> Annotation {
    Annotation {
        selected_text: Some(String::from("t")),
        note: None,
        annotation_time: Timestamp::from_unix(secs).unwrap(),
        book_title: String::from("b"),
    }
}

const DUNE_OUTLINE: &str = "- [[Dune]]\n\t\t- > Fear is the mind-killer.\n\t\t- good line\n\t\t\t- > The spice must flow.\n";

#[test]
fn first_run_in_outline_mode() {
    let mut file = store();
    let outcome = run(&config(false, OutputFormat::Outline, false), &mut file, dune()).unwrap();
    assert_eq!(outcome.output, DUNE_OUTLINE);
    assert_eq!(outcome.new_marker.map(|t| t.unix_seconds()), Some(T2));
    assert_eq!(file.contents(), &Some(b"2021-06-02T12:00:00+00:00".to_vec()));
}

#[test]
fn rescan_all_ignores_the_marker() {
    let mut file = store_at("2021-06-02T12:00:00+00:00");
    let outcome = run(&config(true, OutputFormat::Outline, false), &mut file, dune()).unwrap();
    assert_eq!(outcome.output, DUNE_OUTLINE);
    assert_eq!(file.contents(), &Some(b"2021-06-02T12:00:00+00:00".to_vec()));
}

#[test]
fn rescan_all_does_not_read_the_marker() {
    let mut file = store_at("not a date");
    assert_eq!(
        effective_since(&config(true, OutputFormat::Outline, false), &file)
            .map(|s| s.map(|t| t.unix_seconds())),
        Ok(None)
    );
    let outcome = run(&config(true, OutputFormat::Outline, false), &mut file, dune()).unwrap();
    assert_eq!(outcome.output, DUNE_OUTLINE);
}

#[test]
fn a_second_run_finds_nothing_and_keeps_the_marker() {
    let mut file = store();
    let plain = config(false, OutputFormat::Outline, false);
    run(&plain, &mut file, dune()).unwrap();
    let after_first = file.contents().clone();
    let second = run(&plain, &mut file, dune()).unwrap();
    assert_eq!(second.output, "");
    assert!(second.new_marker.is_none());
    assert_eq!(file.contents(), &after_first);
    assert_eq!(file.read().map(|m| m.map(|t| t.unix_seconds())), Ok(Some(T2)));
}

#[test]
fn the_marker_advances_to_the_latest_time() {
    let mut file = store_at("2021-06-01T12:00:00+00:00");
    let mut rows = dune();
    rows.push(row(Some("late"), None, T2 + 50, "Emma"));
    rows.push(row(Some("later"), None, T2 + 20, "Emma"));
    let outcome = run(&config(false, OutputFormat::Outline, false), &mut file, rows).unwrap();
    assert_eq!(outcome.new_marker.map(|t| t.unix_seconds()), Some(T2 + 50));
    assert_eq!(file.read().map(|m| m.map(|t| t.unix_seconds())), Ok(Some(T2 + 50)));
    assert!(!outcome.output.contains("Fear"));
    assert!(outcome.output.contains("The spice must flow."));
}

#[test]
fn a_suppressed_update_leaves_the_marker() {
    let mut file = store();
    let outcome = run(&config(false, OutputFormat::Outline, true), &mut file, dune()).unwrap();
    assert_eq!(outcome.output, DUNE_OUTLINE);
    assert!(outcome.new_marker.is_none());
    assert_eq!(file.contents(), &None);
    let mut file = store_at("2021-06-01T12:00:00+00:00");
    run(&config(false, OutputFormat::Outline, true), &mut file, dune()).unwrap();
    assert_eq!(file.contents(), &Some(b"2021-06-01T12:00:00+00:00".to_vec()));
}

#[test]
fn an_empty_result_leaves_the_marker() {
    let mut file = store();
    let outcome = run(&config(false, OutputFormat::Outline, false), &mut file, Vec::new()).unwrap();
    assert_eq!(outcome.output, "");
    assert!(outcome.new_marker.is_none());
    assert_eq!(file.contents(), &None);
}

#[test]
fn a_marker_that_cannot_be_read_ends_the_run() {
    let mut file = store_at("soon");
    let r = run(&config(false, OutputFormat::Outline, false), &mut file, dune());
    assert!(matches!(r, Err(Errors::UnableToReadSyncFile)));
    assert_eq!(file.contents(), &Some(b"soon".to_vec()));
}

#[test]
fn a_bad_row_ends_the_run_and_leaves_the_marker() {
    let mut file = store();
    let mut rows = dune();
    rows.push(None);
    let r = run(&config(false, OutputFormat::Outline, false), &mut file, rows);
    assert!(matches!(r, Err(Errors::ContextProcessingAnnotation)));
    assert_eq!(file.contents(), &None);
}

#[test]
fn the_second_part_takes_the_time_it_is_given() {
    let mut file = store();
    let since = Timestamp::from_unix(T1);
    let outcome =
        finish_run(&config(false, OutputFormat::Structured, false), &mut file, &since, dune())
            .unwrap();
    assert_eq!(
        outcome.output,
        "[{\"selected_text\":\"The spice must flow.\",\"note\":\"good line\",\"annotation_time\":\"2021-06-02T12:00:00Z\",\"book_title\":\"Dune\"}]"
    );
    assert_eq!(file.contents(), &Some(b"2021-06-02T12:00:00+00:00".to_vec()));
}

#[test]
fn effective_since_is_the_marker() {
    let plain = config(false, OutputFormat::Outline, false);
    assert_eq!(effective_since(&plain, &store()).map(|s| s.map(|t| t.unix_seconds())), Ok(None));
    assert_eq!(
        effective_since(&plain, &store_at("2021-06-01T12:00:00+00:00"))
            .map(|s| s.map(|t| t.unix_seconds())),
        Ok(Some(T1))
    );
    assert!(matches!(
        effective_since(&plain, &store_at("x")),
        Err(Errors::UnableToReadSyncFile)
    ));
}

#[test]
fn latest_time_of_annotations() {
    assert!(candidate_marker(&Vec::new()).is_none());
    assert_eq!(candidate_marker(&vec![note(5)]).map(|t| t.unix_seconds()), Some(5));
    assert_eq!(
        candidate_marker(&vec![note(5), note(9), note(-3), note(9), note(7)])
            .map(|t| t.unix_seconds()),
        Some(9)
    );
}

#[test]
fn each_format_is_rendered_by_its_renderer() {
    let all = vec![note(978_307_200)];
    assert_eq!(render(OutputFormat::Outline, &all), "- [[b]]\n\t\t- > t\n");
    assert_eq!(
        render(OutputFormat::Structured, &all),
        "[{\"selected_text\":\"t\",\"annotation_time\":\"2001-01-01T00:00:00Z\",\"book_title\":\"b\"}]"
    );
    assert!(render(OutputFormat::Tabular, &all).contains("│ b │ 2001-01-01 00:00:00 UTC │ t │"));
}
