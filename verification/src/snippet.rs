use vstd::prelude::*;

verus! {

/// The mathematical value of a snippet: its two text fields as sequences of
/// characters.
pub ghost struct SnippetModel {
    pub title: Seq<char>,
    pub description: Seq<char>,
}

/// A stored title/description pair, the unit of data this library manages.
#[derive(Clone, Debug)]
pub struct Snippet {
    pub title: String,
    pub description: String,
}

impl DeepView for Snippet {
    type V = SnippetModel;

    open spec fn deep_view(&self) -> SnippetModel {
        SnippetModel { title: self.title@, description: self.description@ }
    }
}

impl PartialEq for Snippet {
    fn eq(&self, other: &Snippet) -> (r: bool) {
        self.title == other.title && self.description == other.description
    }
}

impl vstd::std_specs::cmp::PartialEqSpecImpl for Snippet {
    open spec fn obeys_eq_spec() -> bool {
        true
    }

    open spec fn eq_spec(&self, other: &Snippet) -> bool {
        self.deep_view() == other.deep_view()
    }
}

} // verus!
