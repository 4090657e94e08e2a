//! Texts on the screen.

use vstd::prelude::*;

verus! {

/// How a text is shown.
#[derive(Clone, Copy, PartialEq, Eq, Structural)]
pub enum Tone {
    Default,
    Muted,
    Accent,
    Info,
    Success,
    Warning,
    Error,
}

/// A text and how it is shown.
pub struct Label {
    pub text: String,
    pub tone: Tone,
}

/// A text and how it is shown.
pub ghost struct LabelView {
    pub text: Seq<char>,
    pub tone: Tone,
}

impl View for Label {
    type V = LabelView;

    open spec fn view(&self) -> LabelView {
        LabelView { text: self.text@, tone: self.tone }
    }
}

/// A label of that text in that tone.
pub open spec fn label_view(text: Seq<char>, tone: Tone) -> LabelView {
    LabelView { text, tone }
}

/// The views of a list of labels.
pub open spec fn label_views(list: Seq<Label>) -> Seq<LabelView> {
    Seq::new(list.len(), |i: int| list[i]@)
}

/// A label of that text in that tone.
pub fn label(text: String, tone: Tone) -> (r: Label)
    ensures
        r@ == label_view(text@, tone),
{
    Label { text, tone }
}

/// The view of an optional label.
pub open spec fn opt_label(l: Option<Label>) -> Option<LabelView> {
    match l {
        Some(l) => Some(l@),
        None => None,
    }
}

} // verus!
