use vstd::prelude::*;
use vstd::seq_lib::seq_to_set_is_finite;
use crate::library::{pages_at, serialized, Library, Page, Section, SerializingPage};
use crate::pagination_date::{
    base_url_for, expected_month_count, month_groups, month_leaf, month_span_steps,
    page_month, rendered_pages, section_dated, serialized_all, PaginatorDate,
};
use crate::pager::PagerView;
use crate::text::{decimal, digit_char, signed_decimal, two_digits};

verus! {

/// The pages of each run, in order.
pub open spec fn group_pages(gs: Seq<((i32, u8), Seq<Page>)>) -> Seq<Seq<Page>> {
    gs.map_values(|g: ((i32, u8), Seq<Page>)| g.1)
}

/// The pages of each pager, in order.
pub open spec fn pager_pages(vs: Seq<PagerView>) -> Seq<Seq<SerializingPage>> {
    vs.map_values(|v: PagerView| v.pages)
}

/// Grouping by month keeps every page once and in order: the runs, put back
/// together, are the pages that were grouped.
pub proof fn law_month_groups_cover(ps: Seq<Page>)
    ensures
        group_pages(month_groups(ps)).flatten() == ps,
    decreases ps.len(),
{
    let gs = month_groups(ps);
    group_pages(gs).lemma_flatten_and_flatten_alt_are_equivalent();
    if ps.len() > 0 {
        let rest = ps.drop_last();
        let p = ps.last();
        let prev = month_groups(rest);
        law_month_groups_cover(rest);
        group_pages(prev).lemma_flatten_and_flatten_alt_are_equivalent();
        if prev.len() > 0 && prev.last().0 == page_month(p) {
            assert(group_pages(gs).drop_last() =~= group_pages(prev).drop_last());
            assert(group_pages(gs).last() =~= group_pages(prev).last().push(p));
            assert(group_pages(gs).flatten_alt() =~= group_pages(prev).flatten_alt().push(p));
        } else {
            assert(group_pages(gs).drop_last() =~= group_pages(prev));
            assert(group_pages(gs).flatten_alt() =~= group_pages(prev).flatten_alt() + seq![p]);
        }
        assert(ps =~= rest.push(p));
    }
}

/// Every run holds at least one page, and all pages of a run are of the run's month.
pub proof fn law_month_groups_uniform(ps: Seq<Page>)
    ensures
        forall|i: int| 0 <= i < month_groups(ps).len() ==> (#[trigger] month_groups(ps)[i]).1.len() > 0,
        forall|i: int, j: int|
            0 <= i < month_groups(ps).len() && 0 <= j < month_groups(ps)[i].1.len()
                ==> page_month(#[trigger] month_groups(ps)[i].1[j]) == month_groups(ps)[i].0,
    decreases ps.len(),
{
    if ps.len() > 0 {
        let prev = month_groups(ps.drop_last());
        let p = ps.last();
        let gs = month_groups(ps);
        law_month_groups_uniform(ps.drop_last());
        if prev.len() > 0 && prev.last().0 == page_month(p) {
            let k: int = prev.len() - 1;
            assert forall|i: int, j: int|
                0 <= i < gs.len() && 0 <= j < gs[i].1.len() implies page_month(#[trigger] gs[i].1[j]) == gs[i].0 by {
                if i == k {
                    if j < prev[k].1.len() {
                        assert(gs[i].1[j] == prev[k].1[j]);
                    }
                } else {
                    assert(gs[i] == prev[i]);
                }
            }
        } else {
            assert forall|i: int, j: int|
                0 <= i < gs.len() && 0 <= j < gs[i].1.len() implies page_month(#[trigger] gs[i].1[j]) == gs[i].0 by {
                if i < prev.len() {
                    assert(gs[i] == prev[i]);
                }
            }
        }
    }
}

/// Two runs that follow each other are of different months.
pub proof fn law_month_groups_adjacent_differ(ps: Seq<Page>)
    ensures
        forall|i: int| 0 <= i < month_groups(ps).len() - 1 ==>
            (#[trigger] month_groups(ps)[i]).0 != month_groups(ps)[i + 1].0,
    decreases ps.len(),
{
    if ps.len() > 0 {
        let prev = month_groups(ps.drop_last());
        let p = ps.last();
        let gs = month_groups(ps);
        law_month_groups_adjacent_differ(ps.drop_last());
        if prev.len() > 0 && prev.last().0 == page_month(p) {
            assert forall|i: int| 0 <= i < gs.len() - 1 implies (#[trigger] gs[i]).0 != gs[i + 1].0 by {
                assert(gs[i].0 == prev[i].0);
                assert(gs[i + 1].0 == prev[i + 1].0);
            }
        } else {
            assert forall|i: int| 0 <= i < gs.len() - 1 implies (#[trigger] gs[i]).0 != gs[i + 1].0 by {
                assert(gs[i] == prev[i]);
                if i + 1 < prev.len() {
                    assert(gs[i + 1] == prev[i + 1]);
                }
            }
        }
    }
}

/// There are runs exactly when there are pages, and never more runs than pages.
pub proof fn law_month_groups_count(ps: Seq<Page>)
    ensures
        month_groups(ps).len() <= ps.len(),
        month_groups(ps).len() == 0 <==> ps.len() == 0,
    decreases ps.len(),
{
    if ps.len() > 0 {
        law_month_groups_count(ps.drop_last());
    }
}

/// The (year, month) of a serialized dated page.
pub open spec fn serialized_month(sp: SerializingPage) -> (i32, u8) {
    ((sp.datetime_tuple->0).0, (sp.datetime_tuple->0).1)
}

proof fn lemma_serialize_flatten(ss: Seq<Seq<Page>>)
    ensures
        ss.map_values(|s: Seq<Page>| serialized_all(s)).flatten() == serialized_all(ss.flatten()),
    decreases ss.len(),
{
    let m = ss.map_values(|s: Seq<Page>| serialized_all(s));
    if ss.len() > 0 {
        lemma_serialize_flatten(ss.drop_first());
        assert(m.drop_first() =~= ss.drop_first().map_values(|s: Seq<Page>| serialized_all(s)));
        assert(serialized_all(ss.flatten()) =~= serialized_all(ss.first()) + serialized_all(ss.drop_first().flatten()));
    } else {
        assert(serialized_all(ss.flatten()) =~= Seq::<SerializingPage>::empty());
    }
}

/// A paginator always has at least one pager, even when none of its pages is rendered;
/// beyond that, one pager per run of rendered pages of the same month.
pub proof fn law_pager_count<'a>(paginator: PaginatorDate<'a>, library: Library)
    ensures
        paginator.pagers_from(library).len() >= 1,
        paginator.pagers_from(library).len() == if month_groups(paginator.ordered_pages(library)).len()
            == 0 {
            1
        } else {
            month_groups(paginator.ordered_pages(library)).len()
        },
{
}

/// The pagers are numbered 1, 2, 3, ... in order.
pub proof fn law_pager_indices<'a>(paginator: PaginatorDate<'a>, library: Library)
    ensures
        forall|i: int| 0 <= i < paginator.pagers_from(library).len()
            ==> (#[trigger] paginator.pagers_from(library)[i]).index == i + 1,
{
}

/// The first pager has the address and path of the section or term itself, and no
/// date segment.
pub proof fn law_first_pager<'a>(paginator: PaginatorDate<'a>, library: Library)
    ensures
        paginator.pagers_from(library)[0].permalink == paginator.permalink_view(),
        paginator.pagers_from(library)[0].path == paginator.path_view(),
        paginator.pagers_from(library)[0].page_path_leaf == Seq::<char>::empty(),
{
}

/// Every rendered page is on exactly one pager, in the order of the listing (reversed
/// when the paginator is), and no page that is not rendered is on any pager.
pub proof fn law_pagers_cover_rendered<'a>(paginator: PaginatorDate<'a>, library: Library)
    ensures
        pager_pages(paginator.pagers_from(library)).flatten()
            == serialized_all(paginator.ordered_pages(library)),
{
    let ps = paginator.ordered_pages(library);
    let gs = month_groups(ps);
    let vs = paginator.pagers_from(library);
    law_month_groups_cover(ps);
    law_month_groups_count(ps);
    if gs.len() == 0 {
        assert(pager_pages(vs) =~= seq![Seq::<SerializingPage>::empty()]);
        pager_pages(vs).lemma_flatten_one_element();
        assert(serialized_all(ps) =~= Seq::<SerializingPage>::empty());
    } else {
        lemma_serialize_flatten(group_pages(gs));
        assert(pager_pages(vs) =~= group_pages(gs).map_values(|s: Seq<Page>| serialized_all(s)));
    }
}

/// All pages of a pager are of one month, a month's pager other than the first is
/// named after that month, and two pagers that follow each other are of different months.
pub proof fn law_pager_months<'a>(paginator: PaginatorDate<'a>, library: Library)
    ensures
        forall|i: int, j: int|
            0 <= i < paginator.pagers_from(library).len()
                && 0 <= j < paginator.pagers_from(library)[i].pages.len()
                ==> serialized_month(#[trigger] paginator.pagers_from(library)[i].pages[j])
                    == serialized_month(paginator.pagers_from(library)[i].pages[0]),
        forall|i: int|
            1 <= i < paginator.pagers_from(library).len() ==> {
                &&& (#[trigger] paginator.pagers_from(library)[i]).pages.len() > 0
                &&& paginator.pagers_from(library)[i].page_path_leaf
                    == month_leaf(serialized_month(paginator.pagers_from(library)[i].pages[0]))
            },
        forall|i: int|
            0 <= i < paginator.pagers_from(library).len() - 1 ==> serialized_month(
                (#[trigger] paginator.pagers_from(library)[i]).pages[0],
            ) != serialized_month(paginator.pagers_from(library)[i + 1].pages[0]),
{
    let ps = paginator.ordered_pages(library);
    let gs = month_groups(ps);
    let vs = paginator.pagers_from(library);
    law_month_groups_uniform(ps);
    law_month_groups_adjacent_differ(ps);
    if gs.len() > 0 {
        assert forall|i: int, j: int|
            0 <= i < vs.len() && 0 <= j < vs[i].pages.len()
                implies serialized_month(#[trigger] vs[i].pages[j]) == serialized_month(vs[i].pages[0]) by {
            assert(vs[i].pages[j] == serialized(gs[i].1[j]));
            assert(vs[i].pages[0] == serialized(gs[i].1[0]));
        }
        assert forall|i: int| 1 <= i < vs.len() implies {
            &&& (#[trigger] vs[i]).pages.len() > 0
            &&& vs[i].page_path_leaf == month_leaf(serialized_month(vs[i].pages[0]))
        } by {
            assert(vs[i].pages[0] == serialized(gs[i].1[0]));
        }
        assert forall|i: int| 0 <= i < vs.len() - 1 implies serialized_month(
            (#[trigger] vs[i]).pages[0],
        ) != serialized_month(vs[i + 1].pages[0]) by {
            assert(vs[i].pages[0] == serialized(gs[i].1[0]));
            assert(vs[i + 1].pages[0] == serialized(gs[i + 1].1[0]));
        }
    }
}

/// The address of every pager but the first is the paginator's base address, then the
/// pager's date segment and a slash.
pub proof fn law_pager_addresses_extend_base_url<'a>(paginator: PaginatorDate<'a>, library: Library)
    ensures
        forall|i: int|
            1 <= i < paginator.pagers_from(library).len() ==> (#[trigger] paginator.pagers_from(
                library,
            )[i]).permalink == base_url_for(paginator.permalink_view(), paginator.paginate_path_view())
                + paginator.pagers_from(library)[i].page_path_leaf + seq!['/'],
{
    let vs = paginator.pagers_from(library);
    assert forall|i: int| 1 <= i < vs.len() implies (#[trigger] vs[i]).permalink == base_url_for(
        paginator.permalink_view(),
        paginator.paginate_path_view(),
    ) + vs[i].page_path_leaf + seq!['/'] by {
        let p = paginator.permalink_view();
        let pp = paginator.paginate_path_view();
        let leaf = vs[i].page_path_leaf;
        if pp.len() == 0 {
            assert(vs[i].permalink =~= p + (leaf + seq!['/']));
            assert(p + (leaf + seq!['/']) =~= p + leaf + seq!['/']);
        } else {
            assert(vs[i].permalink =~= p + (pp + seq!['/'] + leaf + seq!['/']));
            assert(p + (pp + seq!['/'] + leaf + seq!['/']) =~= p + pp + seq!['/'] + leaf + seq!['/']);
        }
    }
}

/// Counted from the first page to the last, the number of months does not change when the
/// listing is reversed (where the count can be taken both ways).
pub proof fn law_month_span_symmetric(section: Section, reversed: Section, library: Library)
    requires
        reversed.pages@ == section.pages@.reverse(),
        section_dated(section, library, false),
        section_dated(reversed, library, false),
    ensures
        expected_month_count(reversed, library, false) == expected_month_count(section, library, false),
{
    let keys = section.pages@;
    let pages = library.pages@;
    assert(reversed.pages@[0] == keys.last());
    assert(reversed.pages@.last() == keys[0]);
    let s = month_span_steps(pages[keys[0] as int], pages[keys.last() as int]);
    let r = month_span_steps(pages[keys.last() as int], pages[keys[0] as int]);
    assert(r.3 == -s.3) by (nonlinear_arith)
        requires
            s.3 == s.1 + (pages[keys.last() as int].meta.datetime_tuple->0).1 - (pages[keys[0] as int].meta.datetime_tuple->0).1,
            r.3 == r.1 + (pages[keys[0] as int].meta.datetime_tuple->0).1 - (pages[keys.last() as int].meta.datetime_tuple->0).1,
            s.1 == s.0 * 12,
            r.1 == r.0 * 12,
            r.0 == -s.0,
    ;
}

/// Counting the distinct months of a section's pages does not depend on the order of the
/// listing, nor on keys listed twice.
pub proof fn law_month_count_ignores_order(section: Section, other: Section, library: Library)
    requires
        section.pages@.to_set() == other.pages@.to_set(),
        section_dated(section, library, true),
        section_dated(other, library, true),
    ensures
        expected_month_count(other, library, true) == expected_month_count(section, library, true),
{
    let pages = library.pages@;
    let a = section.pages@;
    let b = other.pages@;
    let f = |p: Page| page_month(p);
    let ma = pages_at(pages, a).map_values(f);
    let mb = pages_at(pages, b).map_values(f);
    assert forall|m: (i32, u8)| ma.to_set().contains(m) implies mb.to_set().contains(m) by {
        let i = choose|i: int| 0 <= i < ma.len() && ma[i] == m;
        assert(a.to_set().contains(a[i]));
        let j = choose|j: int| 0 <= j < b.len() && b[j] == a[i];
        assert(mb[j] == m);
    }
    assert forall|m: (i32, u8)| mb.to_set().contains(m) implies ma.to_set().contains(m) by {
        let j = choose|j: int| 0 <= j < mb.len() && mb[j] == m;
        assert(b.to_set().contains(b[j]));
        let i = choose|i: int| 0 <= i < a.len() && a[i] == b[j];
        assert(ma[i] == m);
    }
    assert(ma.to_set() =~= mb.to_set());
}

/// Whether a character is one of the ASCII digits `0` to `9`.
pub open spec fn is_ascii_digit(c: char) -> bool {
    48 <= (c as int) <= 57
}

/// The number that a text of ASCII digits reads as in base 10.
pub open spec fn base10_value(s: Seq<char>) -> int
    decreases s.len(),
{
    if s.len() == 0 {
        0
    } else {
        base10_value(s.drop_last()) * 10 + ((s.last() as int) - 48)
    }
}

/// The digit of `d` is the ASCII character `'0' + d`.
pub proof fn law_digit_is_ascii(d: nat)
    requires
        d < 10,
    ensures
        digit_char(d) as int == 48 + d,
{
}

/// The decimal text of `n` is its standard base-10 writing: ASCII digits only, at least
/// one, no leading zero, and read back in base 10 it is `n`.
pub proof fn law_decimal_reads_back(n: nat)
    ensures
        decimal(n).len() >= 1,
        forall|i: int| 0 <= i < decimal(n).len() ==> is_ascii_digit(#[trigger] decimal(n)[i]),
        decimal(n)[0] == '0' ==> n == 0,
        base10_value(decimal(n)) == n,
    decreases n,
{
    if n >= 10 {
        law_decimal_reads_back(n / 10);
        let s = decimal(n);
        assert(s.drop_last() =~= decimal(n / 10));
        law_digit_is_ascii(n % 10);
        assert(s[0] == decimal(n / 10)[0]);
        assert forall|i: int| 0 <= i < s.len() implies is_ascii_digit(#[trigger] s[i]) by {
            if i < s.len() - 1 {
                assert(s[i] == decimal(n / 10)[i]);
            }
        }
        assert(s.last() == digit_char(n % 10));
        assert(base10_value(s) == base10_value(decimal(n / 10)) * 10 + (n % 10) as int);
        assert((n / 10) * 10 + n % 10 == n) by (nonlinear_arith);
    } else {
        law_digit_is_ascii(n);
        let s = decimal(n);
        assert(s[0] == digit_char(n));
        assert(is_ascii_digit(s[0]));
        assert(s.drop_last() =~= Seq::<char>::empty());
        assert(base10_value(s.drop_last()) == 0);
    }
}

/// `two_digits(n)` is the base-10 writing of `n` padded with zeros to two digits.
pub proof fn law_two_digits_reads_back(n: nat)
    ensures
        two_digits(n).len() >= 2,
        forall|i: int| 0 <= i < two_digits(n).len() ==> is_ascii_digit(#[trigger] two_digits(n)[i]),
        two_digits(n).len() > 2 ==> two_digits(n)[0] != '0',
        base10_value(two_digits(n)) == n,
{
    law_decimal_reads_back(n);
    if n < 10 {
        law_digit_is_ascii(n);
        let s = two_digits(n);
        assert(s[0] == '0');
        assert(s[1] == digit_char(n));
        assert(is_ascii_digit(s[0]) && is_ascii_digit(s[1]));
        assert(s.drop_last() =~= seq!['0']);
        assert(seq!['0'].drop_last() =~= Seq::<char>::empty());
        assert(base10_value(Seq::<char>::empty()) == 0);
        assert(seq!['0'].last() == '0');
        assert(('0' as int) == 48);
        assert(base10_value(seq!['0']) == 0);
    } else {
        assert(decimal(n) =~= decimal(n / 10).push(digit_char(n % 10)));
        law_decimal_reads_back(n / 10);
    }
}

/// `signed_decimal(i)` is a minus sign for negative `i`, then the base-10 writing of the
/// magnitude of `i`.
pub proof fn law_signed_decimal_reads_back(i: int)
    ensures
        i < 0 ==> signed_decimal(i)[0] == '-' && signed_decimal(i).skip(1) == decimal((-i) as nat),
        i >= 0 ==> signed_decimal(i) == decimal(i as nat),
        base10_value(decimal(if i < 0 { -i } else { i } as nat)) == if i < 0 { -i } else { i },
{
    law_decimal_reads_back(if i < 0 { -i } else { i } as nat);
    if i < 0 {
        assert(signed_decimal(i).skip(1) =~= decimal((-i) as nat));
    }
}

/// Two texts of ASCII digits with no leading zero that read as the same number are equal.
proof fn lemma_base10_injective(a: Seq<char>, b: Seq<char>)
    requires
        forall|i: int| 0 <= i < a.len() ==> is_ascii_digit(#[trigger] a[i]),
        forall|i: int| 0 <= i < b.len() ==> is_ascii_digit(#[trigger] b[i]),
        base10_value(a) == base10_value(b),
        a.len() == b.len(),
    ensures
        a == b,
    decreases a.len(),
{
    if a.len() > 0 {
        let da = (a.last() as int) - 48;
        let db = (b.last() as int) - 48;
        assert(is_ascii_digit(a[a.len() - 1]));
        assert(is_ascii_digit(b[b.len() - 1]));
        lemma_base10_value_nonneg(a.drop_last());
        lemma_base10_value_nonneg(b.drop_last());
        assert(da == db) by (nonlinear_arith)
            requires
                base10_value(a.drop_last()) * 10 + da == base10_value(b.drop_last()) * 10 + db,
                0 <= da < 10,
                0 <= db < 10,
        ;
        assert forall|i: int| 0 <= i < a.drop_last().len() implies is_ascii_digit(#[trigger] a.drop_last()[i]) by {
            assert(a.drop_last()[i] == a[i]);
        }
        assert forall|i: int| 0 <= i < b.drop_last().len() implies is_ascii_digit(#[trigger] b.drop_last()[i]) by {
            assert(b.drop_last()[i] == b[i]);
        }
        lemma_base10_injective(a.drop_last(), b.drop_last());
        assert(a.last() == b.last());
        assert(a =~= a.drop_last().push(a.last()));
        assert(b =~= b.drop_last().push(b.last()));
    }
}

proof fn lemma_base10_value_nonneg(s: Seq<char>)
    requires
        forall|i: int| 0 <= i < s.len() ==> is_ascii_digit(#[trigger] s[i]),
    ensures
        base10_value(s) >= 0,
    decreases s.len(),
{
    if s.len() > 0 {
        assert(is_ascii_digit(s[s.len() - 1]));
        assert forall|i: int| 0 <= i < s.drop_last().len() implies is_ascii_digit(#[trigger] s.drop_last()[i]) by {
            assert(s.drop_last()[i] == s[i]);
        }
        lemma_base10_value_nonneg(s.drop_last());
    }
}

/// Different months get different `year-month` segments, so pagers of different months
/// never share an address.
pub proof fn law_month_leaf_injective(a: (i32, u8), b: (i32, u8))
    requires
        month_leaf(a) == month_leaf(b),
    ensures
        a == b,
{
    let sa = signed_decimal(a.0 as int);
    let sb = signed_decimal(b.0 as int);
    let ta = two_digits(a.1 as nat);
    let tb = two_digits(b.1 as nat);
    let l = month_leaf(a);
    law_two_digits_reads_back(a.1 as nat);
    law_two_digits_reads_back(b.1 as nat);
    law_signed_decimal_reads_back(a.0 as int);
    law_signed_decimal_reads_back(b.0 as int);
    assert(l =~= sa + seq!['-'] + ta);
    assert(l =~= sb + seq!['-'] + tb);
    assert(!is_ascii_digit('-'));
    if ta.len() < tb.len() {
        assert(l[sa.len() as int] == '-');
        assert(l[sa.len() as int] == tb[sa.len() - sb.len() - 1]);
        assert(false);
    }
    if tb.len() < ta.len() {
        assert(l[sb.len() as int] == '-');
        assert(l[sb.len() as int] == ta[sb.len() - sa.len() - 1]);
        assert(false);
    }
    assert(ta =~= l.skip(sa.len() as int + 1));
    assert(tb =~= l.skip(sb.len() as int + 1));
    assert(sa =~= l.take(sa.len() as int));
    assert(sb =~= l.take(sb.len() as int));
    assert(ta == tb);
    assert(sa == sb);
    assert(a.1 == b.1);
    let da = decimal(if a.0 < 0 { -a.0 } else { a.0 as int } as nat);
    let db = decimal(if b.0 < 0 { -b.0 } else { b.0 as int } as nat);
    law_decimal_reads_back(if a.0 < 0 { -a.0 } else { a.0 as int } as nat);
    law_decimal_reads_back(if b.0 < 0 { -b.0 } else { b.0 as int } as nat);
    if a.0 < 0 && b.0 >= 0 {
        assert(is_ascii_digit(db[0]));
        assert(false);
    }
    if b.0 < 0 && a.0 >= 0 {
        assert(is_ascii_digit(da[0]));
        assert(false);
    }
    if a.0 < 0 {
        assert(da == sa.skip(1));
        assert(db == sb.skip(1));
    }
    assert(da == db);
}

/// The page path of a pager below its section: the paginate path and a slash when there
/// is one, then the pager's `year-month` segment and a slash.
pub open spec fn page_path_of(paginate_path: Seq<char>, leaf: Seq<char>) -> Seq<char> {
    if paginate_path.len() == 0 {
        leaf + seq!['/']
    } else {
        paginate_path + seq!['/'] + leaf + seq!['/']
    }
}

/// Every pager but the first has the address of the section or term followed by its page
/// path, which holds the paginator's own paginate path word for word; and its path is that
/// same page path below the section's path: after `/` for the index section, directly after
/// a path that ends with a slash, and after an added slash otherwise.
pub proof fn law_pager_address_and_path<'a>(paginator: PaginatorDate<'a>, library: Library)
    ensures
        forall|i: int|
            1 <= i < paginator.pagers_from(library).len() ==> {
                let v = #[trigger] paginator.pagers_from(library)[i];
                let p = paginator.permalink_view();
                let path = paginator.path_view();
                let page_path = v.permalink.skip(p.len() as int);
                &&& v.permalink == p + page_path_of(paginator.paginate_path_view(), v.page_path_leaf)
                &&& v.path == if paginator.index_section() {
                    seq!['/'] + page_path
                } else if path.len() > 0 && path.last() == '/' {
                    path + page_path
                } else {
                    path + seq!['/'] + page_path
                }
            },
{
    let vs = paginator.pagers_from(library);
    assert forall|i: int| 1 <= i < vs.len() implies {
        let v = #[trigger] vs[i];
        let p = paginator.permalink_view();
        let path = paginator.path_view();
        let page_path = v.permalink.skip(p.len() as int);
        &&& v.permalink == p + page_path_of(paginator.paginate_path_view(), v.page_path_leaf)
        &&& v.path == if paginator.index_section() {
            seq!['/'] + page_path
        } else if path.len() > 0 && path.last() == '/' {
            path + page_path
        } else {
            path + seq!['/'] + page_path
        }
    } by {
        let v = vs[i];
        let p = paginator.permalink_view();
        let pp = page_path_of(paginator.paginate_path_view(), v.page_path_leaf);
        assert(pp =~= crate::pagination_date::month_page_path(
            paginator.paginate_path_view(),
            month_groups(paginator.ordered_pages(library))[i].0,
        ));
        assert(v.permalink.skip(p.len() as int) =~= pp);
    }
}

/// The base address of a paginator's context is its address, followed by its paginate path
/// word for word and a slash when it has one.
pub proof fn law_base_url_holds_paginate_path(permalink: Seq<char>, paginate_path: Seq<char>)
    ensures
        base_url_for(permalink, paginate_path).take(permalink.len() as int) == permalink,
        paginate_path.len() == 0 ==> base_url_for(permalink, paginate_path) == permalink,
        paginate_path.len() > 0 ==> base_url_for(permalink, paginate_path).skip(permalink.len() as int)
            == paginate_path.push('/'),
{
    if paginate_path.len() > 0 {
        assert(base_url_for(permalink, paginate_path).skip(permalink.len() as int) =~= paginate_path.push('/'));
        assert(base_url_for(permalink, paginate_path).take(permalink.len() as int) =~= permalink);
    } else {
        assert(permalink.take(permalink.len() as int) =~= permalink);
    }
}

/// With empty months skipped, a section that lists no page spans no month.
pub proof fn law_month_count_of_no_pages(section: Section, library: Library)
    requires
        section.pages@.len() == 0,
    ensures
        expected_month_count(section, library, true) == 0,
{
    let ps = pages_at(library.pages@, section.pages@).map_values(|p: Page| page_month(p));
    assert(ps.to_set() =~= Set::<(i32, u8)>::empty());
}

/// With empty months skipped, every page the section lists counts, rendered or not:
/// listing one more page raises the count by one exactly when that page's month is
/// not the month of a page already listed.
pub proof fn law_month_count_grows_with_new_months(section: Section, longer: Section, library: Library, key: usize)
    requires
        longer.pages@ == section.pages@.push(key),
        section_dated(longer, library, true),
    ensures
        section_dated(section, library, true),
        expected_month_count(longer, library, true) == expected_month_count(section, library, true)
            + if (forall|i: int| 0 <= i < section.pages@.len()
                ==> page_month(#[trigger] library.pages@[section.pages@[i] as int])
                    != page_month(library.pages@[key as int])) { 1int } else { 0int },
{
    let pages = library.pages@;
    let keys = section.pages@;
    let f = |p: Page| page_month(p);
    let before = pages_at(pages, keys);
    let after = pages_at(pages, longer.pages@);
    let m = page_month(pages[key as int]);
    assert forall|i: int| 0 <= i < keys.len() implies #[trigger] keys[i] < pages.len() by {
        assert(longer.pages@[i] == keys[i]);
    }
    assert forall|i: int| 0 <= i < before.len() implies (#[trigger] before[i]).meta.datetime_tuple is Some by {
        assert(after[i] == before[i]);
    }
    assert(after.map_values(f) =~= before.map_values(f) + seq![m]);
    Seq::lemma_to_set_insert_commutes(before.map_values(f), m);
    seq_to_set_is_finite(before.map_values(f));
    let fresh = forall|i: int| 0 <= i < keys.len()
        ==> page_month(#[trigger] pages[keys[i] as int]) != m;
    if fresh {
        if before.map_values(f).to_set().contains(m) {
            let j = choose|j: int| 0 <= j < before.map_values(f).len() && before.map_values(f)[j] == m;
            assert(page_month(pages[keys[j] as int]) == m);
            assert(false);
        }
    } else {
        let j = choose|j: int| 0 <= j < keys.len() && page_month(#[trigger] pages[keys[j] as int]) == m;
        assert(before.map_values(f)[j] == m);
        assert(before.map_values(f).to_set().contains(m));
        assert(before.map_values(f).to_set().insert(m) =~= before.map_values(f).to_set());
    }
}

/// The pages that a paginator groups are its rendered pages: every one of them is rendered,
/// and every rendered page it lists is among them; they come in the order of the listing,
/// read back to front when the paginator is reversed.
pub proof fn law_ordered_pages<'a>(paginator: PaginatorDate<'a>, library: Library)
    ensures
        ({
            let pages = library.pages@;
            let keys = paginator.page_keys();
            let rs = rendered_pages(pages, keys);
            let os = paginator.ordered_pages(library);
            &&& forall|i: int| 0 <= i < rs.len() ==> (#[trigger] rs[i]).meta.render
            &&& forall|j: int|
                0 <= j < keys.len() && (#[trigger] pages_at(pages, keys)[j]).meta.render
                    ==> rs.contains(pages_at(pages, keys)[j])
            &&& os.len() == rs.len()
            &&& paginator.reversed() ==> forall|i: int| 0 <= i < os.len() ==> #[trigger] os[i] == rs[rs.len() - 1 - i]
            &&& !paginator.reversed() ==> os == rs
        }),
{
    let pages = library.pages@;
    let keys = paginator.page_keys();
    let ls = pages_at(pages, keys);
    let rs = rendered_pages(pages, keys);
    let pred = crate::pagination_date::is_rendered();
    assert forall|i: int| 0 <= i < rs.len() implies (#[trigger] rs[i]).meta.render by {
        ls.lemma_filter_pred(pred, i);
    }
    assert forall|j: int| 0 <= j < keys.len() && (#[trigger] pages_at(pages, keys)[j]).meta.render
        implies rs.contains(pages_at(pages, keys)[j]) by {
        ls.lemma_filter_contains(pred, j);
    }
}

} // verus!
