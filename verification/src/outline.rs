//! Grouping by book and the outline format.
//!
//! The outline lists each book once, as a page link, and below it the
//! book's annotations in the order in which they were handed in. Books
//! come in the order in which their first annotation appears.

use vstd::prelude::*;
use vstd::string::*;

use crate::annotation::{Annotation, AnnotationView};

verus! {

/// The annotations of one book, in the order in which they were handed in.
pub struct BookGroup<'a> {
    pub title: &'a String,
    pub annotations: Vec<&'a Annotation>,
}

/// The mathematical value of a [`BookGroup`].
pub ghost struct BookGroupView {
    pub title: Seq<char>,
    pub annotations: Seq<AnnotationView>,
}

impl<'a> View for BookGroup<'a> {
    type V = BookGroupView;

    open spec fn view(&self) -> BookGroupView {
        BookGroupView { title: self.title@, annotations: self.annotations.deep_view() }
    }
}

impl<'a> DeepView for BookGroup<'a> {
    type V = BookGroupView;

    open spec fn deep_view(&self) -> BookGroupView {
        self@
    }
}

/// The titles that occur in `annotations`, each once, in the order of their
/// first occurrence.
pub open spec fn book_titles(annotations: Seq<AnnotationView>) -> Seq<Seq<char>>
    decreases annotations.len(),
{
    if annotations.len() == 0 {
        Seq::empty()
    } else {
        let earlier = book_titles(annotations.drop_last());
        let title = annotations.last().book_title;
        if earlier.contains(title) {
            earlier
        } else {
            earlier.push(title)
        }
    }
}

/// The annotations of the book `title` among `annotations`, in their order.
pub open spec fn annotations_of(annotations: Seq<AnnotationView>, title: Seq<char>) -> Seq<
    AnnotationView,
> {
    annotations.filter(|a: AnnotationView| a.book_title == title)
}

/// The grouping of `annotations` by book: one group for each title of
/// [`book_titles`], holding that book's annotations.
pub open spec fn grouped(annotations: Seq<AnnotationView>) -> Seq<BookGroupView> {
    let titles = book_titles(annotations);
    Seq::new(
        titles.len(),
        |k: int|
            BookGroupView {
                title: titles[k],
                annotations: annotations_of(annotations, titles[k]),
            },
    )
}

/// The titles of `book_titles` differ from one another, and each is the
/// title of some annotation.
pub proof fn lemma_book_titles(annotations: Seq<AnnotationView>)
    ensures
        book_titles(annotations).no_duplicates(),
        forall|i: int|
            0 <= i < annotations.len() ==> book_titles(annotations).contains(
                #[trigger] annotations[i].book_title,
            ),
        forall|k: int|
            0 <= k < book_titles(annotations).len() ==> exists|i: int|
                0 <= i < annotations.len() && annotations[i].book_title == #[trigger] book_titles(
                    annotations,
                )[k],
    decreases annotations.len(),
{
    if annotations.len() > 0 {
        let front = annotations.drop_last();
        let earlier = book_titles(front);
        let title = annotations.last().book_title;
        lemma_book_titles(front);
        assert forall|i: int| 0 <= i < annotations.len() implies book_titles(annotations).contains(
            #[trigger] annotations[i].book_title,
        ) by {
            if i < front.len() {
                assert(front[i] == annotations[i]);
                let k = choose|k: int| 0 <= k < earlier.len() && earlier[k] == front[i].book_title;
                assert(book_titles(annotations)[k] == annotations[i].book_title);
            } else if earlier.contains(title) {
            } else {
                assert(book_titles(annotations)[earlier.len() as int] == title);
            }
        }
        assert forall|k: int| 0 <= k < book_titles(annotations).len() implies exists|i: int|
            0 <= i < annotations.len() && annotations[i].book_title == #[trigger] book_titles(
                annotations,
            )[k] by {
            if k < earlier.len() {
                let i = choose|i: int|
                    0 <= i < front.len() && front[i].book_title == earlier[k];
                assert(annotations[i].book_title == book_titles(annotations)[k]);
            } else {
                assert(annotations[annotations.len() - 1].book_title == book_titles(
                    annotations,
                )[k]);
            }
        }
    }
}

/// Appending an annotation adds its title to the titles unless it is there.
proof fn lemma_book_titles_push(annotations: Seq<AnnotationView>, a: AnnotationView)
    ensures
        book_titles(annotations.push(a)) == if book_titles(annotations).contains(a.book_title) {
            book_titles(annotations)
        } else {
            book_titles(annotations).push(a.book_title)
        },
{
    assert(annotations.push(a).drop_last() =~= annotations);
}

/// Appending an annotation appends it to its own book's annotations and to
/// no other's.
proof fn lemma_annotations_of_push(
    annotations: Seq<AnnotationView>,
    a: AnnotationView,
    title: Seq<char>,
)
    ensures
        annotations_of(annotations.push(a), title) == if a.book_title == title {
            annotations_of(annotations, title).push(a)
        } else {
            annotations_of(annotations, title)
        },
{
    reveal(Seq::filter);
    assert(annotations.push(a).drop_last() =~= annotations);
}

/// A title that is not among the titles has no annotations.
proof fn lemma_annotations_of_absent(annotations: Seq<AnnotationView>, title: Seq<char>)
    requires
        !book_titles(annotations).contains(title),
    ensures
        annotations_of(annotations, title) == Seq::<AnnotationView>::empty(),
    decreases annotations.len(),
{
    reveal(Seq::filter);
    if annotations.len() > 0 {
        let front = annotations.drop_last();
        lemma_book_titles(annotations);
        assert(annotations.last() == annotations[annotations.len() - 1]);
        assert(annotations.last().book_title != title);
        if book_titles(front).contains(title) {
            let k = choose|k: int|
                0 <= k < book_titles(front).len() && book_titles(front)[k] == title;
            assert(book_titles(annotations)[k] == title);
        }
        lemma_annotations_of_absent(front, title);
    }
}

/// The number of annotations that `groups` hold, all groups together.
pub open spec fn annotations_in(groups: Seq<BookGroupView>) -> nat
    decreases groups.len(),
{
    if groups.len() == 0 {
        0
    } else {
        annotations_in(groups.drop_last()) + groups.last().annotations.len()
    }
}

/// Replacing one group changes the count by the difference of the two.
proof fn lemma_annotations_in_update(groups: Seq<BookGroupView>, k: int, group: BookGroupView)
    requires
        0 <= k < groups.len(),
    ensures
        annotations_in(groups.update(k, group)) == annotations_in(groups)
            - groups[k].annotations.len() + group.annotations.len(),
    decreases groups.len(),
{
    let changed = groups.update(k, group);
    if k == groups.len() - 1 {
        assert(changed.drop_last() =~= groups.drop_last());
    } else {
        assert(changed.drop_last() =~= groups.drop_last().update(k, group));
        lemma_annotations_in_update(groups.drop_last(), k, group);
    }
}

/// The grouping after one more annotation: the annotation joins the group
/// of its book, or opens a new group at the end.
proof fn lemma_grouped_push(annotations: Seq<AnnotationView>, a: AnnotationView)
    ensures
        ({
            let groups = grouped(annotations);
            let titles = book_titles(annotations);
            if titles.contains(a.book_title) {
                let k = titles.index_of(a.book_title);
                grouped(annotations.push(a)) == groups.update(
                    k,
                    BookGroupView {
                        title: a.book_title,
                        annotations: groups[k].annotations.push(a),
                    },
                )
            } else {
                grouped(annotations.push(a)) == groups.push(
                    BookGroupView { title: a.book_title, annotations: seq![a] },
                )
            }
        }),
{
    let groups = grouped(annotations);
    let titles = book_titles(annotations);
    let after = annotations.push(a);
    lemma_book_titles(annotations);
    lemma_book_titles_push(annotations, a);
    assert forall|j: int| 0 <= j < titles.len() implies annotations_of(after, titles[j]) == if
        a.book_title == titles[j] {
        annotations_of(annotations, titles[j]).push(a)
    } else {
        annotations_of(annotations, titles[j])
    } by {
        lemma_annotations_of_push(annotations, a, titles[j]);
    }
    if titles.contains(a.book_title) {
        let k = titles.index_of(a.book_title);
        let joined = groups.update(
            k,
            BookGroupView { title: a.book_title, annotations: groups[k].annotations.push(a) },
        );
        assert forall|j: int| 0 <= j < titles.len() implies grouped(after)[j] == joined[j] by {
            if j != k {
                assert(titles[j] != titles[k]);
            }
        }
        assert(grouped(after) =~= joined);
    } else {
        lemma_annotations_of_absent(annotations, a.book_title);
        lemma_annotations_of_push(annotations, a, a.book_title);
        assert(seq![a] =~= Seq::<AnnotationView>::empty().push(a));
        assert(grouped(after) =~= groups.push(
            BookGroupView { title: a.book_title, annotations: seq![a] },
        ));
    }
}

/// Grouping loses nothing and repeats nothing. The groups differ in title;
/// each holds the annotations of its book, all of them, in the order they
/// had, and at least one; every annotation's book has a group; and the
/// groups together hold as many annotations as were handed in.
pub proof fn lemma_grouping_complete(annotations: Seq<AnnotationView>)
    ensures
        forall|j: int, k: int|
            0 <= j < k < grouped(annotations).len() ==> #[trigger] grouped(annotations)[j].title
                != #[trigger] grouped(annotations)[k].title,
        forall|k: int|
            0 <= k < grouped(annotations).len() ==> {
                let group = #[trigger] grouped(annotations)[k];
                &&& group.annotations == annotations_of(annotations, group.title)
                &&& group.annotations.len() > 0
            },
        forall|i: int|
            #![trigger annotations[i]]
            0 <= i < annotations.len() ==> exists|k: int|
                #![trigger grouped(annotations)[k]]
                0 <= k < grouped(annotations).len() && grouped(annotations)[k].title
                    == annotations[i].book_title && grouped(annotations)[k].annotations.contains(
                    annotations[i],
                ),
        annotations_in(grouped(annotations)) == annotations.len(),
    decreases annotations.len(),
{
    let groups = grouped(annotations);
    let titles = book_titles(annotations);
    lemma_book_titles(annotations);
    assert forall|k: int| 0 <= k < groups.len() implies (#[trigger] groups[k]).annotations.len()
        > 0 by {
        let i = choose|i: int|
            0 <= i < annotations.len() && annotations[i].book_title == titles[k];
        annotations.lemma_filter_contains(|a: AnnotationView| a.book_title == titles[k], i);
    }
    assert forall|i: int| #![trigger annotations[i]] 0 <= i < annotations.len() implies exists|
        k: int,
    |
        #![trigger groups[k]]
        0 <= k < groups.len() && groups[k].title == annotations[i].book_title
            && groups[k].annotations.contains(annotations[i]) by {
        let k = titles.index_of(annotations[i].book_title);
        annotations.lemma_filter_contains(|a: AnnotationView| a.book_title == titles[k], i);
        assert(groups[k].title == annotations[i].book_title);
    }
    if annotations.len() > 0 {
        let front = annotations.drop_last();
        let a = annotations.last();
        assert(front.push(a) =~= annotations);
        lemma_grouping_complete(front);
        lemma_grouped_push(front, a);
        if book_titles(front).contains(a.book_title) {
            let k = book_titles(front).index_of(a.book_title);
            lemma_annotations_in_update(
                grouped(front),
                k,
                BookGroupView {
                    title: a.book_title,
                    annotations: grouped(front)[k].annotations.push(a),
                },
            );
        } else {
            assert(groups.drop_last() =~= grouped(front));
        }
    }
}

fn find_group<'a>(groups: &Vec<BookGroup<'a>>, title: &String) -> (found: Option<usize>)
    ensures
        match found {
            Some(k) => k < groups.len() && groups[k as int].title@ == title@,
            None => forall|j: int| 0 <= j < groups.len() ==> groups[j].title@ != title@,
        },
{
    let mut k: usize = 0;
    while k < groups.len()
        invariant
            k <= groups.len(),
            forall|j: int| 0 <= j < k ==> groups[j].title@ != title@,
        decreases groups.len() - k,
    {
        if *groups[k].title == *title {
            return Some(k);
        }
        k += 1;
    }
    None
}

/// Groups `annotations` by book title.
pub fn group_by_book<'a>(annotations: &'a Vec<Annotation>) -> (groups: Vec<BookGroup<'a>>)
    ensures
        groups.deep_view() == grouped(annotations.deep_view()),
{
    let mut groups: Vec<BookGroup<'a>> = Vec::new();
    let mut i: usize = 0;
    while i < annotations.len()
        invariant
            i <= annotations.len(),
            groups.deep_view() =~= grouped(annotations.deep_view().take(i as int)),
        decreases annotations.len() - i,
    {
        let a = &annotations[i];
        let ghost before = annotations.deep_view().take(i as int);
        let ghost titles = book_titles(before);
        let ghost old_groups = groups.deep_view();
        proof {
            assert(annotations.deep_view().take(i + 1) =~= before.push(a@));
            lemma_book_titles(before);
            lemma_grouped_push(before, a@);
            assert(old_groups.len() == titles.len());
            assert forall|j: int| 0 <= j < titles.len() implies titles[j] == groups@[j].title@ by {
                assert(old_groups[j].title == titles[j]);
            }
        }
        match find_group(&groups, &a.book_title) {
            Some(k) => {
                assert(titles[k as int] == a@.book_title);
                let ghost old_vec = groups@;
                groups[k].annotations.push(a);
                assert(groups@[k as int].annotations.deep_view() =~= old_vec[k as int].annotations.deep_view().push(
                    a@,
                ));
                assert forall|j: int| 0 <= j < old_vec.len() && j != k implies groups.deep_view()[j]
                    == old_groups[j] by {
                    assert(groups@[j] == old_vec[j]);
                }
                assert(groups.deep_view() =~= old_groups.update(
                    k as int,
                    BookGroupView {
                        title: a@.book_title,
                        annotations: old_groups[k as int].annotations.push(a@),
                    },
                ));
            },
            None => {
                let mut members: Vec<&'a Annotation> = Vec::new();
                members.push(a);
                groups.push(BookGroup { title: &a.book_title, annotations: members });
                assert(members.deep_view() =~= seq![a@]);
                assert(groups.deep_view() =~= old_groups.push(
                    BookGroupView { title: a@.book_title, annotations: seq![a@] },
                ));
            },
        }
        i += 1;
    }
    proof {
        assert(annotations.deep_view().take(annotations.len() as int) =~= annotations.deep_view());
    }
    groups
}

/// The lines of one annotation: the quoted passage as a bullet, below its
/// note where it has one. A missing passage is shown as a dash.
pub open spec fn outline_entry(a: AnnotationView) -> Seq<char> {
    let text = match a.selected_text {
        Some(t) => t,
        None => "-"@,
    };
    match a.note {
        Some(note) => "\t\t- "@ + note + "\n"@ + "\t\t\t- > "@ + text + "\n"@,
        None => "\t\t- > "@ + text + "\n"@,
    }
}

/// The lines of `annotations`, one after the other.
pub open spec fn outline_entries(annotations: Seq<AnnotationView>) -> Seq<char> {
    annotations.map_values(|a: AnnotationView| outline_entry(a)).flatten()
}

/// The heading of a book and the lines of its annotations.
pub open spec fn outline_group(group: BookGroupView) -> Seq<char> {
    "- [["@ + group.title + "]]\n"@ + outline_entries(group.annotations)
}

/// The text of `groups`, one after the other.
pub open spec fn outline_groups(groups: Seq<BookGroupView>) -> Seq<char> {
    groups.map_values(|g: BookGroupView| outline_group(g)).flatten()
}

/// The outline of `annotations`: their grouping by book, as text.
pub open spec fn outline(annotations: Seq<AnnotationView>) -> Seq<char> {
    outline_groups(grouped(annotations))
}

/// Appends the lines of `a` to `out`.
fn push_outline_entry(out: &mut String, a: &Annotation)
    ensures
        final(out)@ == old(out)@ + outline_entry(a@),
{
    let text: &str = match &a.selected_text {
        Some(t) => t.as_str(),
        None => "-",
    };
    match &a.note {
        Some(note) => {
            out.append("\t\t- ");
            out.append(note.as_str());
            out.append("\n");
            out.append("\t\t\t- > ");
            out.append(text);
            out.append("\n");
        },
        None => {
            out.append("\t\t- > ");
            out.append(text);
            out.append("\n");
        },
    }
    assert(out@ =~= old(out)@ + outline_entry(a@));
}

/// Appends the heading and the lines of `group` to `out`.
fn push_outline_group<'a>(out: &mut String, group: &BookGroup<'a>)
    ensures
        final(out)@ == old(out)@ + outline_group(group@),
{
    out.append("- [[");
    out.append(group.title.as_str());
    out.append("]]\n");
    let ghost head = out@;
    let ghost members = group.annotations.deep_view();
    let mut j: usize = 0;
    while j < group.annotations.len()
        invariant
            j <= group.annotations.len(),
            members == group.annotations.deep_view(),
            out@ == head + outline_entries(members.take(j as int)),
        decreases group.annotations.len() - j,
    {
        push_outline_entry(out, group.annotations[j]);
        proof {
            let f = |a: AnnotationView| outline_entry(a);
            assert(members.take(j + 1) =~= members.take(j as int).push(members[j as int]));
            assert(members.take(j + 1).map_values(f) =~= members.take(j as int).map_values(
                f,
            ).push(f(members[j as int])));
            members.take(j as int).map_values(f).lemma_flatten_push(f(members[j as int]));
        }
        j += 1;
    }
    proof {
        assert(members.take(group.annotations.len() as int) =~= members);
        assert(out@ =~= old(out)@ + outline_group(group@));
    }
}

/// Renders `annotations` as an outline: for each book a heading line
/// `- [[title]]`, then each of its annotations as a bullet.
pub fn render_outline(annotations: &Vec<Annotation>) -> (out: String)
    ensures
        out@ == outline(annotations.deep_view()),
{
    let groups = group_by_book(annotations);
    let ghost all = groups.deep_view();
    let mut out = String::new();
    let mut k: usize = 0;
    while k < groups.len()
        invariant
            k <= groups.len(),
            all == groups.deep_view(),
            out@ == outline_groups(all.take(k as int)),
        decreases groups.len() - k,
    {
        push_outline_group(&mut out, &groups[k]);
        proof {
            let f = |g: BookGroupView| outline_group(g);
            assert(all.take(k + 1) =~= all.take(k as int).push(all[k as int]));
            assert(all.take(k + 1).map_values(f) =~= all.take(k as int).map_values(f).push(
                f(all[k as int]),
            ));
            all.take(k as int).map_values(f).lemma_flatten_push(f(all[k as int]));
        }
        k += 1;
    }
    proof {
        assert(all.take(groups.len() as int) =~= all);
    }
    out
}

} // verus!
