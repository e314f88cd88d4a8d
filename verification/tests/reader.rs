use ibooks_export::annotation::Annotation;
use ibooks_export::epoch::{Timestamp, CORE_EPOCH_OFFSET, MAX_UNIX_SECONDS};
use ibooks_export::errors::Errors;
use ibooks_export::reader::{is_new, query_threshold, read_annotations, AnnotationRow};

fn row(text: Option<&str>, note: Option<&str>, core_time: i64, title: &str) -> AnnotationRow {
    AnnotationRow {
        selected_text: text.map(String::from),
        note: note.map(String::from),
        core_time,
        book_title: String::from(title),
    }
}

fn table() -> Vec<Option<AnnotationRow>> {
    vec![
        Some(row(Some("one"), None, 100, "Dune")),
        Some(row(None, Some("lost"), 150, "Dune")),
        Some(row(Some("two"), Some("note"), 200, "Emma")),
        Some(row(Some("three"), Some(""), 250, "Emma")),
        Some(row(Some("four"), None, 300, "Dune")),
    ]
}

fn times(annotations: &[Annotation]) -> Vec<i64> {
    annotations.iter().map(|a| a.annotation_time.unix_seconds()).collect()
}

fn at_core(core: i64) -> Option<Timestamp> {
    Timestamp::from_unix(core + CORE_EPOCH_OFFSET)
}

#[test]
fn threshold_of_the_query() {
    assert_eq!(query_threshold(&None), 0);
    assert_eq!(query_threshold(&Timestamp::from_unix(978_307_200)), 0);
    assert_eq!(query_threshold(&Timestamp::from_unix(978_307_260)), 60);
    assert_eq!(query_threshold(&Timestamp::from_unix(0)), -978_307_200);
}

#[test]
fn rows_that_are_wanted() {
    assert!(is_new(&row(Some("t"), None, 1, "b"), 0));
    assert!(is_new(&row(Some("t"), Some("n"), 1, "b"), 0));
    assert!(is_new(&row(Some(""), None, 1, "b"), 0));
    assert!(!is_new(&row(None, None, 1, "b"), 0));
    assert!(!is_new(&row(Some("t"), Some(""), 1, "b"), 0));
    assert!(!is_new(&row(Some("t"), None, 0, "b"), 0));
    assert!(!is_new(&row(Some("t"), None, 5, "b"), 5));
    assert!(is_new(&row(Some("t"), None, 6, "b"), 5));
}

#[test]
fn all_time_without_a_marker() {
    let got = read_annotations(table(), &None).unwrap();
    assert_eq!(times(&got), vec![100 + 978_307_200, 200 + 978_307_200, 300 + 978_307_200]);
    assert_eq!(got[0].selected_text.as_deref(), Some("one"));
    assert_eq!(got[0].note, None);
    assert_eq!(got[0].book_title, "Dune");
    assert_eq!(got[1].selected_text.as_deref(), Some("two"));
    assert_eq!(got[1].note.as_deref(), Some("note"));
    assert_eq!(got[1].book_title, "Emma");
    assert_eq!(got[2].selected_text.as_deref(), Some("four"));
}

#[test]
fn rows_before_the_zero_of_the_clock_are_not_new() {
    let rows = vec![
        Some(row(Some("old"), None, -5, "b")),
        Some(row(Some("zero"), None, 0, "b")),
        Some(row(Some("new"), None, 1, "b")),
    ];
    let got = read_annotations(rows, &None).unwrap();
    assert_eq!(times(&got), vec![978_307_201]);
}

#[test]
fn the_marker_is_a_strict_bound() {
    let got = read_annotations(table(), &at_core(100)).unwrap();
    assert_eq!(times(&got), vec![200 + 978_307_200, 300 + 978_307_200]);
    let got = read_annotations(table(), &at_core(99)).unwrap();
    assert_eq!(got.len(), 3);
    let got = read_annotations(table(), &at_core(300)).unwrap();
    assert!(got.is_empty());
}

#[test]
fn a_later_marker_selects_a_part() {
    let marks = [-10i64, 0, 99, 100, 150, 200, 299, 300, 1000];
    for (k, t1) in marks.iter().enumerate() {
        for t2 in &marks[k + 1..] {
            let wide = times(&read_annotations(table(), &at_core(*t1)).unwrap());
            let narrow = times(&read_annotations(table(), &at_core(*t2)).unwrap());
            assert!(narrow.iter().all(|t| wide.contains(t)));
            let kept: Vec<i64> =
                wide.iter().copied().filter(|t| *t > *t2 + CORE_EPOCH_OFFSET).collect();
            assert_eq!(narrow, kept);
        }
    }
}

#[test]
fn a_row_that_was_not_read_fails_the_read() {
    let mut rows = table();
    rows.push(None);
    assert!(matches!(read_annotations(rows, &None), Err(Errors::ContextProcessingAnnotation)));
    let mut rows = table();
    rows.insert(0, None);
    assert!(matches!(
        read_annotations(rows, &at_core(1000)),
        Err(Errors::ContextProcessingAnnotation)
    ));
}

#[test]
fn a_time_without_a_date_fails_the_read() {
    let last = MAX_UNIX_SECONDS - CORE_EPOCH_OFFSET;
    let rows = vec![Some(row(Some("t"), None, last, "b"))];
    assert_eq!(times(&read_annotations(rows, &None).unwrap()), vec![MAX_UNIX_SECONDS]);
    let rows = vec![Some(row(Some("t"), None, last + 1, "b"))];
    assert!(matches!(read_annotations(rows, &None), Err(Errors::ContextProcessingAnnotation)));
    let rows = vec![Some(row(Some("t"), None, i64::MAX, "b"))];
    assert!(matches!(read_annotations(rows, &None), Err(Errors::ContextProcessingAnnotation)));
    let rows = vec![Some(row(None, None, i64::MAX, "b")), Some(row(Some("t"), None, i64::MIN, "b"))];
    assert!(read_annotations(rows, &None).unwrap().is_empty());
}

#[test]
fn no_rows() {
    assert!(read_annotations(Vec::new(), &None).unwrap().is_empty());
}
