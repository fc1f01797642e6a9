use vstd::prelude::*;
use crate::library::SerializingPage;

verus! {

/// One page of a paginated listing.
#[derive(Debug, Clone, PartialEq, Eq)]
pub struct Pager {
    /// The position of the pager in its paginator, counted from 1.
    pub index: usize,
    /// The address of the pager.
    pub permalink: String,
    /// The path of the pager.
    pub path: String,
    /// The pages the pager lists.
    pub pages: Vec<SerializingPage>,
    /// The `year-month` segment of the pager's path; empty for the first pager.
    pub page_path_leaf: String,
}

/// A pager as plain values.
pub struct PagerView {
    pub index: nat,
    pub permalink: Seq<char>,
    pub path: Seq<char>,
    pub pages: Seq<SerializingPage>,
    pub page_path_leaf: Seq<char>,
}

impl View for Pager {
    type V = PagerView;

    open spec fn view(&self) -> PagerView {
        PagerView {
            index: self.index as nat,
            permalink: self.permalink@,
            path: self.path@,
            pages: self.pages@,
            page_path_leaf: self.page_path_leaf@,
        }
    }
}

impl Pager {
    pub fn new(
        index: usize,
        pages: Vec<SerializingPage>,
        permalink: String,
        path: String,
        page_path_leaf: String,
    ) -> (pager: Pager)
        ensures
            pager.index == index,
            pager.pages == pages,
            pager.permalink == permalink,
            pager.path == path,
            pager.page_path_leaf == page_path_leaf,
    {
        Pager { index, permalink, path, pages, page_path_leaf }
    }
}

} // verus!
