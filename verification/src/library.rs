use vstd::prelude::*;

verus! {

/// What the pagination reads of a page's front matter.
#[derive(Debug, Clone, PartialEq, Eq)]
pub struct PageFrontMatter {
    pub title: Option<String>,
    /// The date as written in the front matter.
    pub date: Option<String>,
    /// The date as (year, month, day), once it has been parsed.
    pub datetime_tuple: Option<(i32, u8, u8)>,
    /// Whether the page is rendered; pages that are not are left out of pagers.
    pub render: bool,
}

/// A content page.
#[derive(Debug, Clone, PartialEq, Eq)]
pub struct Page {
    /// The path of the page's file, relative to the content directory.
    pub relative_path: String,
    pub meta: PageFrontMatter,
}

/// All the pages of a site. A page is known by its key: its position in `pages`.
#[derive(Debug, Clone, PartialEq, Eq)]
pub struct Library {
    pub pages: Vec<Page>,
}

/// Every key of `keys` names a page of `pages`.
pub open spec fn keys_valid(pages: Seq<Page>, keys: Seq<usize>) -> bool {
    forall|i: int| 0 <= i < keys.len() ==> #[trigger] keys[i] < pages.len()
}

/// The pages that `keys` name, in the order of `keys`.
pub open spec fn pages_at(pages: Seq<Page>, keys: Seq<usize>) -> Seq<Page> {
    keys.map_values(|k: usize| pages[k as int])
}

impl Library {
    /// The pages that `keys` name, in the order of `keys`.
    pub fn find_pages_by_path(&self, keys: &[usize]) -> (found: Vec<&Page>)
        requires
            keys_valid(self.pages@, keys@),
        ensures
            found@.len() == keys@.len(),
            forall|i: int| 0 <= i < keys@.len() ==> *(#[trigger] found@[i]) == self.pages@[keys@[i] as int],
    {
        let mut found: Vec<&Page> = Vec::new();
        let mut i: usize = 0;
        while i < keys.len()
            invariant
                i <= keys@.len(),
                keys_valid(self.pages@, keys@),
                found@.len() == i,
                forall|j: int| 0 <= j < i ==> *(#[trigger] found@[j]) == self.pages@[keys@[j] as int],
            decreases keys@.len() - i,
        {
            assert(keys@[i as int] < self.pages@.len());
            found.push(&self.pages[keys[i]]);
            i = i + 1;
        }
        found
    }
}

/// What a section hands to its paginator.
#[derive(Debug, Clone, PartialEq, Eq)]
pub struct SectionFrontMatter {
    /// Whether the pages are paginated in reverse order.
    pub paginate_reversed: bool,
    /// The path segment put in front of the pager's date in its address.
    pub paginate_path: String,
}

/// A section of the site and the pages it lists, by key, in its sort order.
#[derive(Debug, Clone, PartialEq, Eq)]
pub struct Section {
    pub pages: Vec<usize>,
    pub permalink: String,
    pub path: String,
    pub lang: String,
    pub meta: SectionFrontMatter,
    /// Whether this is the index section of the site.
    pub is_index: bool,
    /// The name of the template that renders this section.
    pub template: String,
}

/// What the pagination reads of a taxonomy's configuration.
#[derive(Debug, Clone, PartialEq, Eq)]
pub struct TaxonomyConfig {
    pub name: String,
    /// How many pages a pager of this taxonomy holds, if it is paginated.
    pub paginate_by: Option<usize>,
    /// The path segment put in front of the pager's date in its address.
    pub paginate_path: String,
}

/// A taxonomy, such as the tags of a site.
#[derive(Debug, Clone, PartialEq, Eq)]
pub struct Taxonomy {
    pub kind: TaxonomyConfig,
    pub lang: String,
    pub slug: String,
    pub path: String,
    pub permalink: String,
}

/// One term of a taxonomy and the pages, by key, that carry it.
#[derive(Debug, Clone, PartialEq, Eq)]
pub struct TaxonomyTerm {
    pub name: String,
    pub slug: String,
    pub path: String,
    pub permalink: String,
    pub pages: Vec<usize>,
}

/// The part of a page that a pager hands to templates.
#[derive(Debug, Clone, PartialEq, Eq)]
pub struct SerializingPage {
    pub relative_path: String,
    pub title: Option<String>,
    pub date: Option<String>,
    pub datetime_tuple: Option<(i32, u8, u8)>,
}

/// The serialized form of a page.
pub open spec fn serialized(p: Page) -> SerializingPage {
    SerializingPage {
        relative_path: p.relative_path,
        title: p.meta.title,
        date: p.meta.date,
        datetime_tuple: p.meta.datetime_tuple,
    }
}

fn clone_opt_string(s: &Option<String>) -> (res: Option<String>)
    ensures
        res == *s,
{
    match s {
        Some(t) => Some(t.clone()),
        None => None,
    }
}

impl SerializingPage {
    /// Serializes a page for templates.
    pub fn new(page: &Page) -> (res: SerializingPage)
        ensures
            res == serialized(*page),
    {
        SerializingPage {
            relative_path: page.relative_path.clone(),
            title: clone_opt_string(&page.meta.title),
            date: clone_opt_string(&page.meta.date),
            datetime_tuple: page.meta.datetime_tuple,
        }
    }
}

} // verus!
