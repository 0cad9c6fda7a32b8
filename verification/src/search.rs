//! What can be searched for: the terms and keywords that an item offers.

use vstd::prelude::*;

verus! {

/// The words by which an item is found.
#[derive(Debug, Clone, PartialEq, Eq)]
pub struct SearchIdxData {
    /// Free text that describes the item.
    pub terms: Vec<String>,
    /// Words that name the item outright.
    pub keywords: Vec<String>,
}

/// The mathematical value of a `SearchIdxData`.
pub ghost struct SearchIdxDataView {
    pub terms: Seq<Seq<char>>,
    pub keywords: Seq<Seq<char>>,
}

impl View for SearchIdxData {
    type V = SearchIdxDataView;

    open spec fn view(&self) -> SearchIdxDataView {
        SearchIdxDataView { terms: self.terms.deep_view(), keywords: self.keywords.deep_view() }
    }
}

impl DeepView for SearchIdxData {
    type V = SearchIdxDataView;

    open spec fn deep_view(&self) -> SearchIdxDataView {
        self@
    }
}

/// An item that can be searched for.
pub trait SearchIdxItem {
    /// The words by which the item is found.
    fn search_terms(&self) -> SearchIdxData;
}

} // verus!
