//! One highlight of a book, with the note the reader may have added to it.

use vstd::prelude::*;

use crate::epoch::Timestamp;

verus! {

/// A highlight and its optional note.
pub struct Annotation {
    /// The highlighted passage.
    pub selected_text: Option<String>,
    /// The reader's note on the passage; never empty where present.
    pub note: Option<String>,
    /// When the annotation was made.
    pub annotation_time: Timestamp,
    /// Title of the book that holds the passage.
    pub book_title: String,
}

/// The mathematical value of an [`Annotation`]: texts as sequences of
/// characters, the time in Unix seconds.
pub ghost struct AnnotationView {
    pub selected_text: Option<Seq<char>>,
    pub note: Option<Seq<char>>,
    pub annotation_time: int,
    pub book_title: Seq<char>,
}

impl View for Annotation {
    type V = AnnotationView;

    open spec fn view(&self) -> AnnotationView {
        AnnotationView {
            selected_text: self.selected_text.deep_view(),
            note: self.note.deep_view(),
            annotation_time: self.annotation_time@,
            book_title: self.book_title@,
        }
    }
}

impl DeepView for Annotation {
    type V = AnnotationView;

    open spec fn deep_view(&self) -> AnnotationView {
        self@
    }
}

} // verus!
