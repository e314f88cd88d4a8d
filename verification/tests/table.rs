use ibooks_export::annotation::Annotation;
use ibooks_export::epoch::Timestamp;
use ibooks_export::table::{lines_of, render_tabular, MAX_COLUMN_WIDTH};

fn note(text: Option<&str>, note: Option<&str>, secs: i64, title: &str) -> Annotation {
    Annotation {
        selected_text: text.map(String::from),
        note: note.map(String::from),
        annotation_time: Timestamp::from_unix(secs).unwrap(),
        book_title: String::from(title),
    }
}

fn drawn(rows: &[[&str; 3]]) -> String {
    let mut table = term_table::Table::new();
    table.max_column_width(120);
    table.style = term_table::TableStyle::rounded();
    for r in rows {
        table.add_row(term_table::row::Row::new(vec![
            term_table::table_cell::TableCell::new(r[0]),
            term_table::table_cell::TableCell::new(r[1]),
            term_table::table_cell::TableCell::new(r[2]),
        ]));
    }
    table.render()
}

#[test]
fn width_of_a_column() {
    assert_eq!(MAX_COLUMN_WIDTH, 120);
}

#[test]
fn annotations_without_a_passage_have_no_row() {
    let all = vec![
        note(Some("one"), None, 978_307_200, "Dune"),
        note(None, Some("lost"), 978_307_201, "Dune"),
        note(Some("two"), Some("n"), 978_307_202, "Emma"),
    ];
    let lines = lines_of(&all);
    assert_eq!(lines.len(), 2);
    assert_eq!(lines[0].book_title, "Dune");
    assert_eq!(lines[0].annotation_time, "2001-01-01 00:00:00 UTC");
    assert_eq!(lines[0].selected_text, "one");
    assert_eq!(lines[1].book_title, "Emma");
    assert_eq!(lines[1].annotation_time, "2001-01-01 00:00:02 UTC");
    assert_eq!(lines[1].selected_text, "two");
}

#[test]
fn table_of_one_row() {
    let all = vec![note(Some("one"), None, 978_307_200, "Dune")];
    assert_eq!(
        render_tabular(&all),
        "\u{256d}──────┬─────────────────────────┬─────╮\n\
         │ Dune │ 2001-01-01 00:00:00 UTC │ one │\n\
         \u{2570}──────┴─────────────────────────┴─────╯\n"
    );
}

#[test]
fn table_is_drawn_by_the_table_crate() {
    let all = vec![
        note(Some("one"), None, 978_307_200, "Dune"),
        note(None, None, 978_307_201, "Dune"),
        note(Some("two\nlines"), Some("n"), 1_622_548_800, "Emma"),
    ];
    assert_eq!(
        render_tabular(&all),
        drawn(&[
            ["Dune", "2001-01-01 00:00:00 UTC", "one"],
            ["Emma", "2021-06-01 12:00:00 UTC", "two\nlines"],
        ])
    );
}

#[test]
fn long_passages_are_wrapped() {
    let long = "x".repeat(500);
    let all = vec![note(Some(&long), None, 978_307_200, "Dune")];
    let out = render_tabular(&all);
    assert_eq!(out, drawn(&[["Dune", "2001-01-01 00:00:00 UTC", &long]]));
    assert!(out.lines().count() > 3);
    assert!(out.lines().all(|l| l.chars().count() <= 3 * 120 + 4));
}

#[test]
fn table_without_rows_is_empty() {
    assert_eq!(render_tabular(&Vec::new()), "");
    assert_eq!(render_tabular(&vec![note(None, None, 1, "A")]), "");
}
