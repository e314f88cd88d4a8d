use ibooks_export::annotation::Annotation;
use ibooks_export::epoch::Timestamp;
use ibooks_export::outline::{group_by_book, render_outline};

fn note(text: Option<&str>, note: Option<&str>, secs: i64, title: &str) -> Annotation {
    Annotation {
        selected_text: text.map(String::from),
        note: note.map(String::from),
        annotation_time: Timestamp::from_unix(secs).unwrap(),
        book_title: String::from(title),
    }
}

fn shelf() -> Vec<Annotation> {
    vec![
        note(Some("a1"), None, 1, "A"),
        note(Some("b1"), Some("n"), 2, "B"),
        note(Some("a2"), None, 3, "A"),
        note(Some("c1"), None, 4, "C"),
        note(Some("b2"), None, 5, "B"),
        note(Some("a3"), None, 6, "A"),
    ]
}

#[test]
fn groups_come_in_order_of_first_appearance() {
    let all = shelf();
    let groups = group_by_book(&all);
    let titles: Vec<&str> = groups.iter().map(|g| g.title.as_str()).collect();
    assert_eq!(titles, vec!["A", "B", "C"]);
}

#[test]
fn a_group_keeps_the_order_of_its_annotations() {
    let all = shelf();
    let groups = group_by_book(&all);
    let texts: Vec<Vec<&str>> = groups
        .iter()
        .map(|g| g.annotations.iter().map(|a| a.selected_text.as_deref().unwrap()).collect())
        .collect();
    assert_eq!(texts, vec![vec!["a1", "a2", "a3"], vec!["b1", "b2"], vec!["c1"]]);
}

#[test]
fn every_annotation_is_in_one_group_under_its_title() {
    let all = shelf();
    let groups = group_by_book(&all);
    let total: usize = groups.iter().map(|g| g.annotations.len()).sum();
    assert_eq!(total, all.len());
    for a in &all {
        let holders: Vec<_> = groups
            .iter()
            .filter(|g| g.annotations.iter().any(|m| std::ptr::eq(*m, a)))
            .collect();
        assert_eq!(holders.len(), 1);
        assert_eq!(holders[0].title, &a.book_title);
    }
    for g in &groups {
        assert!(!g.annotations.is_empty());
        let times: Vec<i64> = g.annotations.iter().map(|a| a.annotation_time.unix_seconds()).collect();
        assert!(times.windows(2).all(|w| w[0] < w[1]));
    }
}

#[test]
fn nothing_to_group() {
    assert!(group_by_book(&Vec::new()).is_empty());
    assert_eq!(render_outline(&Vec::new()), "");
}

#[test]
fn outline_of_one_book() {
    let all = vec![
        note(Some("first passage"), None, 10, "Dune"),
        note(Some("second passage"), Some("good line"), 20, "Dune"),
    ];
    assert_eq!(
        render_outline(&all),
        "- [[Dune]]\n\t\t- > first passage\n\t\t- good line\n\t\t\t- > second passage\n"
    );
}

#[test]
fn outline_of_several_books() {
    assert_eq!(
        render_outline(&shelf()),
        "- [[A]]\n\t\t- > a1\n\t\t- > a2\n\t\t- > a3\n\
         - [[B]]\n\t\t- n\n\t\t\t- > b1\n\t\t- > b2\n\
         - [[C]]\n\t\t- > c1\n"
    );
}

#[test]
fn a_missing_passage_is_a_dash() {
    let all = vec![note(None, None, 1, "A"), note(None, Some("only a note"), 2, "A")];
    assert_eq!(render_outline(&all), "- [[A]]\n\t\t- > -\n\t\t- only a note\n\t\t\t- > -\n");
}
