use vstd::prelude::*;

verus! {

/// Where the anchor link of a heading is inserted.
#[derive(Debug, Copy, Clone, PartialEq, Eq)]
pub enum InsertAnchor {
    Left,
    Right,
    Heading,
    /// No anchor is inserted.
    NoAnchor,
}

impl InsertAnchor {
    /// Whether inserting the anchor needs the anchor template, which holds
    /// exactly for the `Left` and `Right` placements.
    pub fn uses_template(&self) -> (res: bool)
        ensures
            res <==> (*self is Left || *self is Right),
    {
        match self {
            InsertAnchor::Left | InsertAnchor::Right => true,
            _ => false,
        }
    }
}

/// How a section is paginated: not at all, by a number of pages, or by month.
#[derive(Copy, Debug, Clone, PartialEq, Eq)]
pub enum PaginateOptions {
    /// The section is not paginated.
    NoPagination,
    Num(usize),
    Date,
}

impl PaginateOptions {
    /// The number of pages per pager; only meaningful for `Num`.
    pub fn unwrap_num(self) -> (num: usize)
        requires
            self is Num,
        ensures
            num == self->Num_0,
    {
        match self {
            PaginateOptions::Num(num) => num,
            PaginateOptions::NoPagination => 0,
            PaginateOptions::Date => 0,
        }
    }
}

} // verus!
