use vstd::prelude::*;
use crate::library::{
    keys_valid, pages_at, serialized, Library, Page, SerializingPage, Section, Taxonomy,
    TaxonomyConfig, TaxonomyTerm,
};
use crate::month_keys::{insert_key, key_count, new_key_set};
use crate::pager::{Pager, PagerView};
use crate::text::{
    ends_with_slash, push_signed_decimal, push_two_digits, signed_decimal, str_ends_with_slash,
    two_digits,
};

verus! {

/// The (year, month) of a dated page.
pub open spec fn page_month(p: Page) -> (i32, u8) {
    ((p.meta.datetime_tuple->0).0, (p.meta.datetime_tuple->0).1)
}

/// The test that keeps a page in the listing.
pub open spec fn is_rendered() -> spec_fn(Page) -> bool {
    |p: Page| p.meta.render
}

/// The pages that `keys` name and that are rendered, in the order of `keys`.
pub open spec fn rendered_pages(pages: Seq<Page>, keys: Seq<usize>) -> Seq<Page> {
    pages_at(pages, keys).filter(is_rendered())
}

/// The pages in the order they are grouped in: as given, or reversed.
pub open spec fn listing_order(ps: Seq<Page>, reversed: bool) -> Seq<Page> {
    if reversed { ps.reverse() } else { ps }
}

/// Every key names a page, and every rendered page among them has a date.
pub open spec fn pages_ready(pages: Seq<Page>, keys: Seq<usize>) -> bool {
    &&& keys_valid(pages, keys)
    &&& forall|i: int|
        0 <= i < keys.len() && (#[trigger] pages[keys[i] as int]).meta.render
            ==> pages[keys[i] as int].meta.datetime_tuple is Some
}

/// The runs of consecutive pages that share a (year, month), each with that month.
/// A month that comes back after another month starts a run of its own.
pub open spec fn month_groups(ps: Seq<Page>) -> Seq<((i32, u8), Seq<Page>)>
    decreases ps.len(),
{
    if ps.len() == 0 {
        seq![]
    } else {
        let gs = month_groups(ps.drop_last());
        let p = ps.last();
        if gs.len() > 0 && gs.last().0 == page_month(p) {
            gs.update(gs.len() - 1, (gs.last().0, gs.last().1.push(p)))
        } else {
            gs.push((page_month(p), seq![p]))
        }
    }
}

/// The serialized pages of a run.
pub open spec fn serialized_all(ps: Seq<Page>) -> Seq<SerializingPage> {
    ps.map_values(|p: Page| serialized(p))
}

/// The `year-month` segment of a pager's path.
pub open spec fn month_leaf(m: (i32, u8)) -> Seq<char> {
    signed_decimal(m.0 as int) + seq!['-'] + two_digits(m.1 as nat)
}

/// The path of a month's pager below its section.
pub open spec fn month_page_path(paginate_path: Seq<char>, m: (i32, u8)) -> Seq<char> {
    if paginate_path.len() == 0 {
        month_leaf(m) + seq!['/']
    } else {
        paginate_path + seq!['/'] + month_leaf(m) + seq!['/']
    }
}

/// The path of a pager, given the section's path and the pager's path below it.
pub open spec fn pager_path_for(is_index: bool, path: Seq<char>, page_path: Seq<char>) -> Seq<char> {
    if is_index {
        seq!['/'] + page_path
    } else if ends_with_slash(path) {
        path + page_path
    } else {
        path + seq!['/'] + page_path
    }
}

/// The views of a list of pagers.
pub open spec fn pager_views(ps: Seq<Pager>) -> Seq<PagerView> {
    ps.map_values(|p: Pager| p@)
}

/// Whether a value fits in an `i32`.
pub open spec fn fits_i32(x: int) -> bool {
    i32::MIN <= x <= i32::MAX
}

/// The distinct (year, month) pairs of some dated pages.
pub open spec fn month_set(ps: Seq<Page>) -> Set<(i32, u8)> {
    ps.map_values(|p: Page| page_month(p)).to_set()
}

/// Every page is dated.
pub open spec fn all_dated(ps: Seq<Page>) -> bool {
    forall|i: int| 0 <= i < ps.len() ==> (#[trigger] ps[i]).meta.datetime_tuple is Some
}

/// The steps by which the number of months from `first` to `last` is computed in an `i32`.
pub open spec fn month_span_steps(first: Page, last: Page) -> (int, int, int, int) {
    let f = first.meta.datetime_tuple->0;
    let l = last.meta.datetime_tuple->0;
    let year_gap: int = l.0 - f.0;
    (year_gap, year_gap * 12, year_gap * 12 + l.1, year_gap * 12 + l.1 - f.1)
}

/// Both pages are dated and every step of the month count from `first` to `last`
/// fits in an `i32`, its absolute value too.
pub open spec fn month_span_fits(first: Page, last: Page) -> bool {
    let s = month_span_steps(first, last);
    &&& first.meta.datetime_tuple is Some
    &&& last.meta.datetime_tuple is Some
    &&& fits_i32(s.0)
    &&& fits_i32(s.1)
    &&& fits_i32(s.2)
    &&& fits_i32(s.3)
    &&& s.3 != i32::MIN
}

/// The number of months from the month of `first` to that of `last`, whichever comes first.
pub open spec fn month_span(first: Page, last: Page) -> nat {
    let d: int = month_span_steps(first, last).3;
    if d < 0 { (-d) as nat } else { d as nat }
}

/// What `datetime_to_pages` needs of a section.
pub open spec fn section_dated(section: Section, library: Library, skip_empty_months: bool) -> bool {
    let pages = library.pages@;
    let keys = section.pages@;
    if skip_empty_months {
        &&& keys_valid(pages, keys)
        &&& all_dated(pages_at(pages, keys))
    } else {
        &&& keys.len() > 0
        &&& keys[0] < pages.len()
        &&& keys.last() < pages.len()
        &&& month_span_fits(pages[keys[0] as int], pages[keys.last() as int])
    }
}

/// The number of pagers that `datetime_to_pages` expects for a section.
pub open spec fn expected_month_count(section: Section, library: Library, skip_empty_months: bool) -> nat {
    let pages = library.pages@;
    let keys = section.pages@;
    if skip_empty_months {
        month_set(pages_at(pages, keys)).len()
    } else {
        month_span(pages[keys[0] as int], pages[keys.last() as int])
    }
}

/// The template of a taxonomy paginator when none was found for the taxonomy.
pub open spec fn default_taxonomy_template() -> Seq<char> {
    seq!['t', 'a', 'x', 'o', 'n', 'o', 'm', 'y', '_', 's', 'i', 'n', 'g', 'l', 'e', '.', 'h', 't', 'm', 'l']
}

/// The address that pager paths are appended to.
pub open spec fn base_url_for(permalink: Seq<char>, paginate_path: Seq<char>) -> Seq<char> {
    if paginate_path.len() == 0 {
        permalink
    } else {
        permalink + paginate_path + seq!['/']
    }
}

/// What templates are told of a paginator while one of its pagers is rendered.
#[derive(Debug)]
pub struct PaginatorContext<'b> {
    /// The address of the first pager.
    pub first: String,
    /// The address of the last pager.
    pub last: String,
    /// The address of the pager before the current one, if there is one.
    pub previous: Option<String>,
    /// The address of the pager after the current one, if there is one.
    pub next: Option<String>,
    pub number_pagers: usize,
    pub base_url: String,
    /// The pages of the current pager.
    pub pages: &'b [SerializingPage],
    /// The index of the current pager, counted from 1.
    pub current_index: usize,
    /// The number of pages in the section or taxonomy term.
    pub total_pages: usize,
}

/// The name of the template that a taxonomy's own pagers would use: `<name>/single.html`.
pub fn taxonomy_single_template(kind: &TaxonomyConfig) -> (name: String)
    ensures
        name@ == kind.name@ + seq!['/', 's', 'i', 'n', 'g', 'l', 'e', '.', 'h', 't', 'm', 'l'],
{
    let mut name = kind.name.clone();
    proof { reveal_strlit("/single.html"); }
    name.append("/single.html");
    name
}

/// Whether the month count from the first page of a section to its last can be taken:
/// the section has pages, the first and last are dated and the count fits in an `i32`.
fn month_span_computable(section: &Section, library: &Library) -> (ok: bool)
    ensures
        ok == section_dated(*section, *library, false),
{
    let n: usize = section.pages.len();
    if n == 0 {
        return false;
    }
    let first_key: usize = section.pages[0];
    let last_key: usize = section.pages[n - 1];
    if first_key >= library.pages.len() || last_key >= library.pages.len() {
        return false;
    }
    let first = &library.pages[first_key];
    let last = &library.pages[last_key];
    match (first.meta.datetime_tuple, last.meta.datetime_tuple) {
        (Some(f), Some(l)) => {
            let min: i64 = i32::MIN as i64;
            let max: i64 = i32::MAX as i64;
            let year_gap: i64 = (l.0 as i64) - (f.0 as i64);
            let scaled: i64 = year_gap * 12;
            let with_last: i64 = scaled + (l.1 as i64);
            let span: i64 = with_last - (f.1 as i64);
            min <= year_gap && year_gap <= max && min <= scaled && scaled <= max && min <= with_last
                && with_last <= max && min <= span && span <= max && span != min
        },
        _ => false,
    }
}

/// What a paginator belongs to: a section, or a term of a taxonomy.
#[derive(Clone, Debug, PartialEq, Eq)]
pub enum PaginationRoot<'a> {
    Section(&'a Section),
    Taxonomy(&'a Taxonomy, &'a TaxonomyTerm),
}

/// A paginator that puts the pages of each month on a pager of their own.
#[derive(Clone, Debug, PartialEq, Eq)]
pub struct PaginatorDate<'a> {
    /// All pages in the section or taxonomy term, by key.
    all_pages: &'a [usize],
    /// The pagers, one per run of pages of the same month.
    pub pagers: Vec<Pager>,
    /// The thing the paginator is for: a section or a taxonomy term.
    root: PaginationRoot<'a>,
    /// Whether to reverse before grouping.
    paginate_reversed: bool,
    pub permalink: String,
    path: String,
    pub paginate_path: String,
    template: String,
    /// Whether this is the index section.
    is_index: bool,
}

impl<'a> PaginatorDate<'a> {
    /// The keys of the pages to paginate.
    pub closed spec fn page_keys(&self) -> Seq<usize> {
        self.all_pages@
    }

    /// The pagers built so far.
    pub closed spec fn pager_list(&self) -> Seq<Pager> {
        self.pagers@
    }

    pub closed spec fn permalink_view(&self) -> Seq<char> {
        self.permalink@
    }

    pub closed spec fn paginate_path_view(&self) -> Seq<char> {
        self.paginate_path@
    }

    pub closed spec fn path_view(&self) -> Seq<char> {
        self.path@
    }

    pub closed spec fn template_view(&self) -> Seq<char> {
        self.template@
    }

    pub closed spec fn index_section(&self) -> bool {
        self.is_index
    }

    pub closed spec fn reversed(&self) -> bool {
        self.paginate_reversed
    }

    /// What the paginator belongs to.
    pub closed spec fn root_view(&self) -> PaginationRoot<'a> {
        self.root
    }

    /// Whether the paginator is for the section `s`.
    pub open spec fn is_for_section(&self, s: Section) -> bool {
        self.root_view() matches PaginationRoot::Section(r) && *r == s
    }

    /// Whether the paginator is for the term `term` of the taxonomy `t`.
    pub open spec fn is_for_term(&self, t: Taxonomy, term: TaxonomyTerm) -> bool {
        self.root_view() matches PaginationRoot::Taxonomy(rt, rterm) && *rt == t && *rterm == term
    }

    /// What the paginator belongs to.
    pub fn root(&self) -> (root: &PaginationRoot<'a>)
        ensures
            *root == self.root_view(),
    {
        &self.root
    }

    /// The pagers.
    pub fn pagers(&self) -> (pagers: &Vec<Pager>)
        ensures
            pagers@ == self.pager_list(),
    {
        &self.pagers
    }

    /// The address of the section or term.
    pub fn permalink(&self) -> (permalink: &str)
        ensures
            permalink@ == self.permalink_view(),
    {
        self.permalink.as_str()
    }

    /// The path segment put in front of a pager's date.
    pub fn paginate_path(&self) -> (paginate_path: &str)
        ensures
            paginate_path@ == self.paginate_path_view(),
    {
        self.paginate_path.as_str()
    }

    /// The name of the template that renders the pagers.
    pub fn template(&self) -> (name: &str)
        ensures
            name@ == self.template_view(),
    {
        self.template.as_str()
    }

    /// The pager at position `i` for the run `g`.
    pub open spec fn pager_for(&self, i: int, g: ((i32, u8), Seq<Page>)) -> PagerView {
        if i == 0 {
            PagerView {
                index: 1,
                permalink: self.permalink_view(),
                path: self.path_view(),
                pages: serialized_all(g.1),
                page_path_leaf: seq![],
            }
        } else {
            let page_path = month_page_path(self.paginate_path_view(), g.0);
            PagerView {
                index: (i + 1) as nat,
                permalink: self.permalink_view() + page_path,
                path: pager_path_for(self.index_section(), self.path_view(), page_path),
                pages: serialized_all(g.1),
                page_path_leaf: month_leaf(g.0),
            }
        }
    }

    /// The pagers for the runs `groups`; a single empty first pager when there are none.
    pub open spec fn expected_pagers(&self, groups: Seq<((i32, u8), Seq<Page>)>) -> Seq<PagerView> {
        if groups.len() == 0 {
            seq![PagerView {
                index: 1,
                permalink: self.permalink_view(),
                path: self.path_view(),
                pages: seq![],
                page_path_leaf: seq![],
            }]
        } else {
            Seq::new(groups.len(), |i: int| self.pager_for(i, groups[i]))
        }
    }

    /// The rendered pages of `library` in the order they are grouped: the order of the
    /// listing, reversed when the paginator is.
    pub open spec fn ordered_pages(&self, library: Library) -> Seq<Page> {
        listing_order(rendered_pages(library.pages@, self.page_keys()), self.reversed())
    }

    /// The pagers that the pages of `library` give this paginator.
    pub open spec fn pagers_from(&self, library: Library) -> Seq<PagerView> {
        self.expected_pagers(month_groups(self.ordered_pages(library)))
    }

    /// Everything but the pagers is the same.
    pub closed spec fn same_settings(&self, other: &Self) -> bool {
        &&& self.all_pages == other.all_pages
        &&& self.root == other.root
        &&& self.paginate_reversed == other.paginate_reversed
        &&& self.permalink == other.permalink
        &&& self.path == other.path
        &&& self.paginate_path == other.paginate_path
        &&& self.template == other.template
        &&& self.is_index == other.is_index
    }

    /// Filling the pagers depends on nothing but the paginator's settings and the library:
    /// two paginators with the same settings get the same pagers, so filling them again
    /// gives the pagers they already have.
    pub proof fn law_pagers_depend_on_settings(a: &Self, b: &Self, library: Library)
        requires
            a.same_settings(b),
        ensures
            a.pagers_from(library) == b.pagers_from(library),
    {
    }

    /// The number of months the pages of a section span. When `skip_empty_months`
    /// holds, months without pages are skipped: the number of distinct months among
    /// them; otherwise the number of months from the first page's month to the last page's.
    pub fn datetime_to_pages(section: &'a Section, library: &'a Library, skip_empty_months: bool) -> (count: usize)
        requires
            section_dated(*section, *library, skip_empty_months),
        ensures
            count == expected_month_count(*section, *library, skip_empty_months),
    {
        if skip_empty_months {
            let all_pages = library.find_pages_by_path(section.pages.as_slice());
            let ghost ps = pages_at(library.pages@, section.pages@);
            assert(all_pages@.len() == ps.len());
            let mut ym_map = new_key_set();
            let mut i: usize = 0;
            while i < all_pages.len()
                invariant
                    i <= all_pages@.len(),
                    all_pages@.len() == ps.len(),
                    forall|j: int| 0 <= j < ps.len() ==> *(#[trigger] all_pages@[j]) == ps[j],
                    all_dated(ps),
                    ym_map@ == month_set(ps.take(i as int)),
                decreases all_pages@.len() - i,
            {
                let page = all_pages[i];
                assert(*page == ps[i as int]);
                let dt = page.meta.datetime_tuple.unwrap();
                let key: (i32, u8) = (dt.0, dt.1);
                proof {
                    let f = |p: Page| page_month(p);
                    let before = ps.take(i as int).map_values(f);
                    assert(ps.take(i + 1).map_values(f) =~= before.push(key));
                    assert(before.push(key).to_set() =~= before.to_set().insert(key)) by {
                        assert forall|x: (i32, u8)| before.push(key).to_set().contains(x) implies
                            before.to_set().insert(key).contains(x) by {
                            if x != key {
                                let j = choose|j: int| 0 <= j < before.len() + 1 && before.push(key)[j] == x;
                                assert(before[j] == x);
                            }
                        }
                        assert forall|x: (i32, u8)| before.to_set().insert(key).contains(x) implies
                            before.push(key).to_set().contains(x) by {
                            if x == key {
                                assert(before.push(key)[before.len() as int] == key);
                            } else {
                                let j = choose|j: int| 0 <= j < before.len() && before[j] == x;
                                assert(before.push(key)[j] == x);
                            }
                        }
                    }
                }
                insert_key(&mut ym_map, key);
                i = i + 1;
            }
            assert(ps.take(ps.len() as int) =~= ps);
            key_count(&ym_map)
        } else {
            let first_key: usize = section.pages[0];
            let last_key: usize = section.pages[section.pages.len() - 1];
            let ends: [usize; 2] = [first_key, last_key];
            let start_end_page = library.find_pages_by_path(&ends);
            let first = start_end_page[0];
            let last = start_end_page[start_end_page.len() - 1];
            let first_dt = first.meta.datetime_tuple.unwrap();
            let last_dt = last.meta.datetime_tuple.unwrap();
            let year_gap: i32 = last_dt.0 - first_dt.0;
            let val_i32: i32 = ((year_gap * 12) + (last_dt.1 as i32)) - (first_dt.1 as i32);
            let magnitude: i32 = if val_i32 < 0 { -val_i32 } else { val_i32 };
            magnitude as usize
        }
    }

    /// Creates a paginator for a section: a pager for each run of the section's rendered
    /// pages that share a month, or a single empty pager when none is rendered.
    pub fn from_section(section: &'a Section, library: &'a Library) -> (paginator: PaginatorDate<'a>)
        requires
            pages_ready(library.pages@, section.pages@),
        ensures
            paginator.page_keys() == section.pages@,
            paginator.permalink_view() == section.permalink@,
            paginator.path_view() == section.path@,
            paginator.paginate_path_view() == section.meta.paginate_path@,
            paginator.template_view() == section.template@,
            paginator.index_section() == section.is_index,
            paginator.reversed() == section.meta.paginate_reversed,
            paginator.is_for_section(*section),
            pager_views(paginator.pager_list()) == paginator.pagers_from(*library),
    {
        // the month count is only a capacity hint; it is skipped where it cannot be taken
        let capacity: usize = if month_span_computable(section, library) {
            Self::datetime_to_pages(section, library, false)
        } else {
            0
        };
        let mut paginator = PaginatorDate {
            all_pages: section.pages.as_slice(),
            pagers: Vec::with_capacity(capacity),
            root: PaginationRoot::Section(section),
            paginate_reversed: section.meta.paginate_reversed,
            permalink: section.permalink.clone(),
            path: section.path.clone(),
            paginate_path: section.meta.paginate_path.clone(),
            is_index: section.is_index,
            template: section.template.clone(),
        };
        paginator.fill_pagers(library);
        paginator
    }

    /// Creates a paginator for a taxonomy term, given the template that was found for the
    /// taxonomy, if any: a pager for each run of the term's rendered pages that share a
    /// month, or a single empty pager when none is rendered.
    pub fn from_taxonomy(
        taxonomy: &'a Taxonomy,
        item: &'a TaxonomyTerm,
        library: &'a Library,
        found_template: Option<&str>,
    ) -> (paginator: PaginatorDate<'a>)
        requires
            taxonomy.kind.paginate_by matches Some(n) && n > 0,
            pages_ready(library.pages@, item.pages@),
        ensures
            paginator.page_keys() == item.pages@,
            paginator.permalink_view() == item.permalink@,
            paginator.path_view() == item.path@,
            paginator.paginate_path_view() == taxonomy.kind.paginate_path@,
            paginator.template_view() == (match found_template {
                Some(t) => t@,
                None => default_taxonomy_template(),
            }),
            !paginator.index_section(),
            !paginator.reversed(),
            paginator.is_for_term(*taxonomy, *item),
            pager_views(paginator.pager_list()) == paginator.pagers_from(*library),
    {
        let paginate_by: usize = taxonomy.kind.paginate_by.unwrap();
        proof { reveal_strlit("taxonomy_single.html"); }
        let template = match found_template {
            Some(t) => t,
            None => "taxonomy_single.html",
        };
        let mut paginator = PaginatorDate {
            all_pages: item.pages.as_slice(),
            pagers: Vec::with_capacity(item.pages.len() / paginate_by),
            paginate_reversed: false,
            root: PaginationRoot::Taxonomy(taxonomy, item),
            permalink: item.permalink.clone(),
            path: item.path.clone(),
            paginate_path: taxonomy.kind.paginate_path.clone(),
            is_index: false,
            template: template.to_owned(),
        };
        // taxonomy paginators have no sorting so we won't have to reverse
        paginator.fill_pagers(library);
        paginator
    }

    /// The context that templates get while `current_pager` is rendered.
    pub fn build_paginator_context<'b>(&self, current_pager: &'b Pager) -> (context: PaginatorContext<'b>)
        requires
            self.pager_list().len() >= 1,
            1 <= current_pager.index <= self.pager_list().len() + 1,
        ensures
            context.first@ == self.permalink_view(),
            context.last == self.pager_list().last().permalink,
            context.previous == (if current_pager.index > 1 {
                Some(self.pager_list()[current_pager.index - 2].permalink)
            } else {
                None
            }),
            context.next == (if current_pager.index < self.pager_list().len() {
                Some(self.pager_list()[current_pager.index as int].permalink)
            } else {
                None
            }),
            context.number_pagers == self.pager_list().len(),
            context.base_url@ == base_url_for(self.permalink_view(), self.paginate_path_view()),
            context.pages@ == current_pager.pages@,
            context.current_index == current_pager.index,
            context.total_pages == self.page_keys().len(),
    {
        // the pager index is 1-indexed so we want a 0-indexed one for indexing there
        let pager_index: usize = current_pager.index - 1;

        let first = self.permalink.clone();
        let last_pager = &self.pagers[self.pagers.len() - 1];
        let last = last_pager.permalink.clone();

        let previous = if pager_index > 0 {
            let prev_pager = &self.pagers[pager_index - 1];
            Some(prev_pager.permalink.clone())
        } else {
            None
        };

        let next = if pager_index < self.pagers.len() - 1 {
            let next_pager = &self.pagers[pager_index + 1];
            Some(next_pager.permalink.clone())
        } else {
            None
        };

        let mut base_url = self.permalink.clone();
        if !self.paginate_path.as_str().is_empty() {
            base_url.append(self.paginate_path.as_str());
            proof { reveal_strlit("/"); }
            base_url.append("/");
        }

        PaginatorContext {
            first,
            last,
            previous,
            next,
            number_pagers: self.pagers.len(),
            base_url,
            pages: current_pager.pages.as_slice(),
            current_index: current_pager.index,
            total_pages: self.all_pages.len(),
        }
    }

    fn fill_pagers(&mut self, library: &'a Library)
        requires
            pages_ready(library.pages@, old(self).page_keys()),
        ensures
            final(self).same_settings(old(self)),
            pager_views(final(self).pager_list()) == old(self).pagers_from(*library),
    {
        let ghost pages = library.pages@;
        let ghost keys = self.all_pages@;
        let ghost rs = rendered_pages(pages, keys);

        // the rendered pages, in the order of the listing
        let mut listed: Vec<&'a Page> = Vec::new();
        let mut i: usize = 0;
        while i < self.all_pages.len()
            invariant
                i <= keys.len(),
                keys == self.all_pages@,
                pages == library.pages@,
                pages_ready(pages, keys),
                listed@.len() == rendered_pages(pages, keys.take(i as int)).len(),
                forall|j: int| 0 <= j < listed@.len()
                    ==> *(#[trigger] listed@[j]) == rendered_pages(pages, keys.take(i as int))[j],
                forall|j: int| 0 <= j < listed@.len() ==> (#[trigger] listed@[j]).meta.render
                    && listed@[j].meta.datetime_tuple is Some,
            decreases keys.len() - i,
        {
            let ghost before = pages_at(pages, keys.take(i as int));
            let p: usize = self.all_pages[i];
            assert(keys[i as int] < pages.len());
            let page = &library.pages[p];
            proof {
                assert(pages_at(pages, keys.take(i + 1)) =~= before.push(*page));
                before.lemma_filter_push(*page, is_rendered());
            }
            if page.meta.render {
                listed.push(page);
            }
            i = i + 1;
        }
        proof {
            assert(keys.take(keys.len() as int) =~= keys);
            assert forall|j: int| 0 <= j < rs.len() implies (#[trigger] rs[j]).meta.datetime_tuple is Some by {
                assert(*listed@[j] == rs[j]);
            }
        }

        // reversed before grouping when the paginator asks for it
        let ghost ord = listing_order(rs, self.paginate_reversed);
        let mut ordered: Vec<&'a Page> = Vec::new();
        if self.paginate_reversed {
            let mut k: usize = listed.len();
            while k > 0
                invariant
                    k <= listed@.len(),
                    listed@.len() == rs.len(),
                    forall|j: int| 0 <= j < listed@.len() ==> *(#[trigger] listed@[j]) == rs[j],
                    ordered@.len() == listed@.len() - k,
                    forall|j: int| 0 <= j < ordered@.len()
                        ==> *(#[trigger] ordered@[j]) == rs[rs.len() - 1 - j],
                decreases k,
            {
                k = k - 1;
                ordered.push(listed[k]);
            }
        } else {
            ordered = listed;
        }
        assert(ordered@.len() == ord.len());
        assert(forall|j: int| 0 <= j < ordered@.len() ==> *(#[trigger] ordered@[j]) == ord[j]);
        assert(forall|j: int| 0 <= j < ord.len() ==> (#[trigger] ord[j]).meta.datetime_tuple is Some) by {
            assert forall|j: int| 0 <= j < ord.len() implies (#[trigger] ord[j]).meta.datetime_tuple is Some by {
                if self.paginate_reversed {
                    assert(ord[j] == rs[rs.len() - 1 - j]);
                } else {
                    assert(ord[j] == rs[j]);
                }
            }
        }

        // the runs closed so far, and the one being filled
        let mut groups: Vec<((i32, u8), Vec<SerializingPage>)> = Vec::new();
        let mut current_page: Vec<SerializingPage> = Vec::new();
        let mut current_page_month: Option<(i32, u8)> = None;

        let mut i: usize = 0;
        while i < ordered.len()
            invariant
                i <= ord.len(),
                ordered@.len() == ord.len(),
                forall|j: int| 0 <= j < ordered@.len() ==> *(#[trigger] ordered@[j]) == ord[j],
                forall|j: int| 0 <= j < ord.len() ==> (#[trigger] ord[j]).meta.datetime_tuple is Some,
                ({
                    let gs = month_groups(ord.take(i as int));
                    match current_page_month {
                        None => gs.len() == 0 && groups@.len() == 0 && current_page@.len() == 0,
                        Some(m) => {
                            &&& gs.len() == groups@.len() + 1
                            &&& gs.last().0 == m
                            &&& current_page@ == serialized_all(gs.last().1)
                            &&& current_page@.len() > 0
                            &&& forall|j: int|
                                0 <= j < groups@.len() ==> (#[trigger] groups@[j]).0 == gs[j].0
                                    && groups@[j].1@ == serialized_all(gs[j].1)
                        },
                    }
                }),
            decreases ord.len() - i,
        {
            let page = ordered[i];
            let ghost prev = ord.take(i as int);
            let ghost now = ord.take(i + 1);
            assert(*page == ord[i as int]);
            assert(now.drop_last() =~= prev);
            let dt = page.meta.datetime_tuple.unwrap();
            let month: (i32, u8) = (dt.0, dt.1);
            match current_page_month {
                Some(current_page_month_inner) => {
                    if current_page_month_inner.0 == month.0 && current_page_month_inner.1 == month.1 {
                        current_page.push(SerializingPage::new(page));
                        assert(serialized_all(month_groups(now).last().1) =~= current_page@);
                    } else {
                        groups.push((current_page_month_inner, current_page));
                        current_page = Vec::new();
                        current_page.push(SerializingPage::new(page));
                        current_page_month = Some(month);
                        assert(serialized_all(month_groups(now).last().1) =~= current_page@);
                    }
                },
                None => {
                    current_page_month = Some(month);
                    current_page.push(SerializingPage::new(page));
                    assert(serialized_all(month_groups(now).last().1) =~= current_page@);
                },
            }
            i = i + 1;
        }
        proof {
            assert(ord.take(ord.len() as int) =~= ord);
        }
        let ghost gs = month_groups(ord);

        if !current_page.is_empty() {
            groups.push((current_page_month.unwrap(), current_page));
        }
        assert(groups@.len() == gs.len());
        assert(forall|j: int|
            0 <= j < groups@.len() ==> (#[trigger] groups@[j]).0 == gs[j].0
                && groups@[j].1@ == serialized_all(gs[j].1));

        let ghost expected = self.expected_pagers(gs);
        let ngroups: usize = groups.len();
        let mut pagers: Vec<Pager> = Vec::new();
        let mut index: usize = 0;
        for group in it: groups.into_iter()
            invariant
                index == it.index(),
                it.seq() == groups@,
                index <= groups@.len(),
                groups@.len() == ngroups,
                groups@.len() == gs.len(),
                forall|j: int|
                    0 <= j < groups@.len() ==> (#[trigger] groups@[j]).0 == gs[j].0
                        && groups@[j].1@ == serialized_all(gs[j].1),
                pagers@.len() == index,
                forall|j: int| 0 <= j < index ==> (#[trigger] pagers@[j])@ == self.pager_for(j, gs[j]),
        {
            if index == 0 {
                pagers.push(Pager::new(1, group.1, self.permalink.clone(), self.path.clone(), String::new()));
            } else {
                let year: i32 = (group.0).0;
                let month: u8 = (group.0).1;

                let mut page_path_leaf = String::new();
                push_signed_decimal(&mut page_path_leaf, year);
                proof { reveal_strlit("-"); reveal_strlit("/"); }
                page_path_leaf.append("-");
                push_two_digits(&mut page_path_leaf, month);

                let mut page_path = String::new();
                if !self.paginate_path.as_str().is_empty() {
                    page_path.append(self.paginate_path.as_str());
                    page_path.append("/");
                }
                page_path.append(page_path_leaf.as_str());
                page_path.append("/");

                let mut permalink = self.permalink.clone();
                permalink.append(page_path.as_str());

                let mut pager_path = String::new();
                if self.is_index {
                    pager_path.append("/");
                    pager_path.append(page_path.as_str());
                } else if str_ends_with_slash(self.path.as_str()) {
                    pager_path.append(self.path.as_str());
                    pager_path.append(page_path.as_str());
                } else {
                    pager_path.append(self.path.as_str());
                    pager_path.append("/");
                    pager_path.append(page_path.as_str());
                }
                proof {
                    let pp = month_page_path(self.paginate_path@, group.0);
                    assert(page_path_leaf@ =~= month_leaf(group.0));
                    assert(page_path@ =~= pp);
                    assert(pager_path@ =~= pager_path_for(self.is_index, self.path@, pp));
                }
                pagers.push(Pager::new(index + 1, group.1, permalink, pager_path, page_path_leaf));
            }
            index = index + 1;
        }

        if pagers.is_empty() {
            pagers.push(Pager::new(1, Vec::new(), self.permalink.clone(), self.path.clone(), String::new()));
        }
        assert(pager_views(pagers@) =~= expected);
        self.pagers = pagers;
    }
}

} // verus!
