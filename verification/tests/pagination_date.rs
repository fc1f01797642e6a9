use content::library::{
    Library, Page, PageFrontMatter, Section, SectionFrontMatter, Taxonomy, TaxonomyConfig,
    TaxonomyTerm,
};
use content::pagination_date::{taxonomy_single_template, PaginationRoot, PaginatorDate};

fn dated_page(path: &str, title: &str, date: (i32, u8, u8), render: bool) -> Page {
    Page {
        relative_path: path.to_string(),
        meta: PageFrontMatter {
            title: Some(title.to_string()),
            date: Some(title.to_string()),
            datetime_tuple: Some(date),
            render,
        },
    }
}

fn create_section(is_index: bool, paginate_reversed: bool, pages: Vec<usize>) -> Section {
    let (path, permalink) = if is_index {
        ("/".to_string(), "https://vincent.is/".to_string())
    } else {
        ("/posts/".to_string(), "https://vincent.is/posts/".to_string())
    };
    Section {
        pages,
        permalink,
        path,
        lang: "en".to_string(),
        meta: SectionFrontMatter { paginate_reversed, paginate_path: "page".to_string() },
        is_index,
        template: if is_index { "index.html".to_string() } else { "section.html".to_string() },
    }
}

/// `num_pages` pages dated 2025-(i % 12 + 1)-(i / 12 + 1), listed newest first as a
/// section sorted by date lists them.
fn create_library(is_index: bool, num_pages: usize, paginate_reversed: bool) -> (Section, Library) {
    let mut library = Library { pages: vec![] };
    for i in 0..num_pages {
        let month = ((i % 12) + 1) as u8;
        let day = ((i / 12) + 1) as u8;
        let date = format!("2025-{:02}-{:02}", month, day);
        library.pages.push(dated_page(&format!("{}.md", i + 1), &date, (2025, month, day), true));
    }
    let mut keys: Vec<usize> = (0..num_pages).collect();
    keys.sort_by(|a, b| {
        library.pages[*b].meta.datetime_tuple.cmp(&library.pages[*a].meta.datetime_tuple)
    });
    (create_section(is_index, paginate_reversed, keys), library)
}

#[test]
fn test_can_create_section_paginator() {
    let (section, library) = create_library(false, 13, false);
    let paginator = PaginatorDate::from_section(&section, &library);
    assert_eq!(paginator.pagers.len(), 12); // 13 pages across 12 months 2 on 2025-01

    assert_eq!(paginator.pagers[0].index, 1);
    assert_eq!(paginator.pagers[0].pages.len(), 1);
    assert_eq!(paginator.pagers[0].pages[0].title.clone().unwrap(), "2025-12-01");
    assert_eq!(paginator.pagers[0].permalink, "https://vincent.is/posts/");
    assert_eq!(paginator.pagers[0].path, "/posts/");

    assert_eq!(paginator.pagers[1].index, 2);
    assert_eq!(paginator.pagers[1].pages.len(), 1);
    assert_eq!(paginator.pagers[1].pages[0].title.clone().unwrap(), "2025-11-01");
    assert_eq!(paginator.pagers[1].permalink, "https://vincent.is/posts/page/2025-11/");
    assert_eq!(paginator.pagers[1].path, "/posts/page/2025-11/");

    assert_eq!(paginator.pagers[2].index, 3);
    assert_eq!(paginator.pagers[2].pages.len(), 1);
    assert_eq!(paginator.pagers[2].pages[0].title.clone().unwrap(), "2025-10-01");
    assert_eq!(paginator.pagers[2].permalink, "https://vincent.is/posts/page/2025-10/");
    assert_eq!(paginator.pagers[2].path, "/posts/page/2025-10/");

    assert_eq!(paginator.pagers[3].index, 4);
    assert_eq!(paginator.pagers[3].pages.len(), 1);
    assert_eq!(paginator.pagers[3].pages[0].title.clone().unwrap(), "2025-09-01");
    assert_eq!(paginator.pagers[3].permalink, "https://vincent.is/posts/page/2025-09/");
    assert_eq!(paginator.pagers[3].path, "/posts/page/2025-09/");

    assert_eq!(paginator.pagers[4].index, 5);
    assert_eq!(paginator.pagers[4].pages.len(), 1);
    assert_eq!(paginator.pagers[4].pages[0].title.clone().unwrap(), "2025-08-01");
    assert_eq!(paginator.pagers[4].permalink, "https://vincent.is/posts/page/2025-08/");
    assert_eq!(paginator.pagers[4].path, "/posts/page/2025-08/");

    assert_eq!(paginator.pagers[11].index, 12);
    assert_eq!(paginator.pagers[11].pages.len(), 2);
    assert_eq!(paginator.pagers[11].pages[0].title.clone().unwrap(), "2025-01-02");
    assert_eq!(paginator.pagers[11].pages[1].title.clone().unwrap(), "2025-01-01");
    assert_eq!(paginator.pagers[11].permalink, "https://vincent.is/posts/page/2025-01/");
    assert_eq!(paginator.pagers[11].path, "/posts/page/2025-01/");
}

#[test]
fn pager_leaves_name_the_month() {
    let (section, library) = create_library(false, 13, false);
    let paginator = PaginatorDate::from_section(&section, &library);
    assert_eq!(paginator.pagers[0].page_path_leaf, "");
    assert_eq!(paginator.pagers[1].page_path_leaf, "2025-11");
    assert_eq!(paginator.pagers[11].page_path_leaf, "2025-01");
    for (i, pager) in paginator.pagers.iter().enumerate() {
        assert_eq!(pager.index, i + 1);
    }
}

#[test]
fn index_section_pagers_hang_off_the_root() {
    let (section, library) = create_library(true, 3, false);
    let paginator = PaginatorDate::from_section(&section, &library);
    assert_eq!(paginator.pagers.len(), 3);
    assert_eq!(paginator.pagers[0].permalink, "https://vincent.is/");
    assert_eq!(paginator.pagers[0].path, "/");
    assert_eq!(paginator.pagers[1].permalink, "https://vincent.is/page/2025-02/");
    assert_eq!(paginator.pagers[1].path, "/page/2025-02/");
    assert_eq!(paginator.pagers[2].path, "/page/2025-01/");
}

#[test]
fn works_with_empty_paginate_path() {
    let (mut section, library) = create_library(false, 3, false);
    section.meta.paginate_path = String::new();
    let paginator = PaginatorDate::from_section(&section, &library);
    assert_eq!(paginator.pagers.len(), 3);
    assert_eq!(paginator.pagers[1].permalink, "https://vincent.is/posts/2025-02/");
    assert_eq!(paginator.pagers[1].path, "/posts/2025-02/");
    let context = paginator.build_paginator_context(&paginator.pagers[0]);
    assert_eq!(context.base_url, "https://vincent.is/posts/");
}

#[test]
fn path_without_trailing_slash_gets_one() {
    let (mut section, library) = create_library(false, 2, false);
    section.path = "/posts".to_string();
    let paginator = PaginatorDate::from_section(&section, &library);
    assert_eq!(paginator.pagers[0].path, "/posts");
    assert_eq!(paginator.pagers[1].path, "/posts/page/2025-01/");
}

#[test]
fn pages_not_rendered_are_left_out() {
    let library = Library {
        pages: vec![
            dated_page("a.md", "a", (2024, 3, 9), true),
            dated_page("b.md", "b", (2024, 3, 2), false),
            dated_page("c.md", "c", (2024, 2, 1), true),
        ],
    };
    let section = create_section(false, false, vec![0, 1, 2]);
    let paginator = PaginatorDate::from_section(&section, &library);
    assert_eq!(paginator.pagers.len(), 2);
    assert_eq!(paginator.pagers[0].pages.len(), 1);
    assert_eq!(paginator.pagers[0].pages[0].relative_path, "a.md");
    assert_eq!(paginator.pagers[1].pages.len(), 1);
    assert_eq!(paginator.pagers[1].pages[0].relative_path, "c.md");
}

#[test]
fn no_rendered_page_gives_one_empty_pager() {
    let library = Library {
        pages: vec![
            dated_page("a.md", "a", (2024, 3, 9), false),
            dated_page("b.md", "b", (2024, 1, 2), false),
        ],
    };
    let section = create_section(false, false, vec![0, 1]);
    let paginator = PaginatorDate::from_section(&section, &library);
    assert_eq!(paginator.pagers.len(), 1);
    assert_eq!(paginator.pagers[0].index, 1);
    assert!(paginator.pagers[0].pages.is_empty());
    assert_eq!(paginator.pagers[0].permalink, "https://vincent.is/posts/");
    assert_eq!(paginator.pagers[0].path, "/posts/");
    assert_eq!(paginator.pagers[0].page_path_leaf, "");
}

#[test]
fn a_month_that_comes_back_gets_a_new_pager() {
    let library = Library {
        pages: vec![
            dated_page("a.md", "a", (2024, 5, 1), true),
            dated_page("b.md", "b", (2024, 4, 1), true),
            dated_page("c.md", "c", (2024, 5, 2), true),
        ],
    };
    let section = create_section(false, false, vec![0, 1, 2]);
    let paginator = PaginatorDate::from_section(&section, &library);
    assert_eq!(paginator.pagers.len(), 3);
    assert_eq!(paginator.pagers[1].path, "/posts/page/2024-04/");
    assert_eq!(paginator.pagers[2].path, "/posts/page/2024-05/");
    let all: Vec<&str> = paginator
        .pagers
        .iter()
        .flat_map(|p| p.pages.iter().map(|sp| sp.relative_path.as_str()))
        .collect();
    assert_eq!(all, vec!["a.md", "b.md", "c.md"]);
}

#[test]
fn years_are_written_in_full_and_months_with_two_digits() {
    let library = Library {
        pages: vec![
            dated_page("a.md", "a", (12345, 11, 1), true),
            dated_page("b.md", "b", (7, 3, 1), true),
            dated_page("c.md", "c", (-44, 3, 15), true),
        ],
    };
    let section = create_section(false, false, vec![0, 1, 2]);
    let paginator = PaginatorDate::from_section(&section, &library);
    assert_eq!(paginator.pagers.len(), 3);
    assert_eq!(paginator.pagers[1].page_path_leaf, "7-03");
    assert_eq!(paginator.pagers[2].page_path_leaf, "-44-03");
    assert_eq!(paginator.pagers[2].permalink, "https://vincent.is/posts/page/-44-03/");
}

#[test]
fn month_count_spans_first_to_last() {
    let (section, library) = create_library(false, 13, false);
    // from 2025-12 down to 2025-01
    assert_eq!(PaginatorDate::datetime_to_pages(&section, &library, false), 11);
    let library = Library {
        pages: vec![
            dated_page("a.md", "a", (2023, 2, 1), true),
            dated_page("b.md", "b", (2025, 7, 1), true),
        ],
    };
    let section = create_section(false, false, vec![0, 1]);
    assert_eq!(PaginatorDate::datetime_to_pages(&section, &library, false), 29);
}

#[test]
fn distinct_months_are_counted_once() {
    let (section, library) = create_library(false, 13, false);
    assert_eq!(PaginatorDate::datetime_to_pages(&section, &library, true), 12);
    let library = Library {
        pages: vec![
            dated_page("a.md", "a", (2024, 5, 1), true),
            dated_page("b.md", "b", (2024, 4, 1), true),
            dated_page("c.md", "c", (2024, 5, 2), false),
            dated_page("d.md", "d", (2023, 5, 2), true),
        ],
    };
    let section = create_section(false, false, vec![0, 1, 2, 3]);
    assert_eq!(PaginatorDate::datetime_to_pages(&section, &library, true), 3);
}

#[test]
fn months_of_different_years_are_told_apart() {
    let library = Library {
        pages: vec![
            dated_page("a.md", "a", (2026, 1, 10), true),
            dated_page("b.md", "b", (2025, 11, 20), true),
        ],
    };
    let section = create_section(false, false, vec![0, 1]);
    assert_eq!(PaginatorDate::datetime_to_pages(&section, &library, true), 2);
    assert_eq!(PaginatorDate::datetime_to_pages(&section, &library, false), 2);
}

#[test]
fn month_count_reads_only_first_and_last_pages() {
    let library = Library {
        pages: vec![
            dated_page("a.md", "a", (2024, 6, 1), true),
            dated_page("b.md", "b", (2024, 1, 1), true),
        ],
    };
    // the middle key names no page, and is not read
    let section = create_section(false, false, vec![0, 57, 1]);
    assert_eq!(PaginatorDate::datetime_to_pages(&section, &library, false), 5);
}

#[test]
fn empty_section_gives_one_empty_pager() {
    let library = Library { pages: vec![] };
    let section = create_section(false, false, vec![]);
    let paginator = PaginatorDate::from_section(&section, &library);
    assert_eq!(paginator.pagers.len(), 1);
    assert_eq!(paginator.pagers[0].index, 1);
    assert!(paginator.pagers[0].pages.is_empty());
    assert_eq!(paginator.pagers[0].permalink, "https://vincent.is/posts/");
    assert_eq!(paginator.pagers[0].path, "/posts/");
}

#[test]
fn undated_pages_that_are_not_rendered_are_accepted() {
    let mut first = dated_page("a.md", "a", (2024, 6, 1), false);
    first.meta.datetime_tuple = None;
    let library = Library { pages: vec![first, dated_page("b.md", "b", (2024, 1, 1), true)] };
    let section = create_section(false, false, vec![0, 1]);
    let paginator = PaginatorDate::from_section(&section, &library);
    assert_eq!(paginator.pagers.len(), 1);
    assert_eq!(paginator.pagers[0].pages[0].relative_path, "b.md");
}

#[test]
fn reversed_section_groups_oldest_first() {
    let (section, library) = create_library(false, 13, true);
    let paginator = PaginatorDate::from_section(&section, &library);
    assert_eq!(paginator.pagers.len(), 12);
    assert_eq!(paginator.pagers[0].pages.len(), 2);
    assert_eq!(paginator.pagers[0].pages[0].title.clone().unwrap(), "2025-01-01");
    assert_eq!(paginator.pagers[0].pages[1].title.clone().unwrap(), "2025-01-02");
    assert_eq!(paginator.pagers[0].permalink, "https://vincent.is/posts/");
    assert_eq!(paginator.pagers[1].pages[0].title.clone().unwrap(), "2025-02-01");
    assert_eq!(paginator.pagers[1].path, "/posts/page/2025-02/");
    assert_eq!(paginator.pagers[11].pages[0].title.clone().unwrap(), "2025-12-01");
    assert_eq!(paginator.pagers[11].path, "/posts/page/2025-12/");
}

#[test]
fn reversal_applies_to_rendered_pages_only() {
    let library = Library {
        pages: vec![
            dated_page("a.md", "a", (2024, 3, 9), true),
            dated_page("b.md", "b", (2024, 3, 2), false),
            dated_page("c.md", "c", (2024, 2, 1), true),
        ],
    };
    let section = create_section(false, true, vec![0, 1, 2]);
    let paginator = PaginatorDate::from_section(&section, &library);
    assert_eq!(paginator.pagers.len(), 2);
    assert_eq!(paginator.pagers[0].pages[0].relative_path, "c.md");
    assert_eq!(paginator.pagers[1].pages[0].relative_path, "a.md");
    assert_eq!(paginator.pagers[1].page_path_leaf, "2024-03");
}

#[test]
fn getters_give_the_paginator_settings() {
    let (section, library) = create_library(false, 3, false);
    let paginator = PaginatorDate::from_section(&section, &library);
    assert_eq!(paginator.permalink(), "https://vincent.is/posts/");
    assert_eq!(paginator.paginate_path(), "page");
    assert_eq!(paginator.pagers().len(), 3);
    assert!(matches!(paginator.root(), PaginationRoot::Section(s) if s.path == "/posts/"));
    let base = paginator.build_paginator_context(&paginator.pagers[0]).base_url;
    for pager in &paginator.pagers[1..] {
        assert_eq!(pager.permalink, format!("{}{}/", base, pager.page_path_leaf));
    }
}

#[test]
fn paginator_keeps_the_section_template() {
    let (section, library) = create_library(false, 2, false);
    let paginator = PaginatorDate::from_section(&section, &library);
    assert_eq!(paginator.template(), "section.html");
    let (taxonomy, term) = taxonomy_with_term(vec![0]);
    let paginator = PaginatorDate::from_taxonomy(&taxonomy, &term, &library, None);
    assert_eq!(paginator.template(), "taxonomy_single.html");
    let paginator = PaginatorDate::from_taxonomy(&taxonomy, &term, &library, Some("tags/single.html"));
    assert_eq!(paginator.template(), "tags/single.html");
}

#[test]
fn test_can_build_paginator_context() {
    let (section, library) = create_library(false, 3, false);
    let paginator = PaginatorDate::from_section(&section, &library);
    assert_eq!(paginator.pagers.len(), 3);

    let context = paginator.build_paginator_context(&paginator.pagers[0]);
    assert_eq!(context.first, "https://vincent.is/posts/");
    assert_eq!(context.last, "https://vincent.is/posts/page/2025-01/");
    assert_eq!(context.previous, None);
    assert_eq!(context.next, Some("https://vincent.is/posts/page/2025-02/".to_string()));
    assert_eq!(context.number_pagers, 3);
    assert_eq!(context.base_url, "https://vincent.is/posts/page/");
    assert_eq!(context.current_index, 1);
    assert_eq!(context.total_pages, 3);
    assert_eq!(context.pages.len(), 1);

    let context = paginator.build_paginator_context(&paginator.pagers[1]);
    assert_eq!(context.previous, Some("https://vincent.is/posts/".to_string()));
    assert_eq!(context.next, Some("https://vincent.is/posts/page/2025-01/".to_string()));
    assert_eq!(context.current_index, 2);

    let context = paginator.build_paginator_context(&paginator.pagers[2]);
    assert_eq!(context.previous, Some("https://vincent.is/posts/page/2025-02/".to_string()));
    assert_eq!(context.next, None);
    assert_eq!(context.current_index, 3);
}

fn taxonomy_with_term(pages: Vec<usize>) -> (Taxonomy, TaxonomyTerm) {
    let taxonomy = Taxonomy {
        kind: TaxonomyConfig {
            name: "some tags".to_string(),
            paginate_by: Some(2),
            paginate_path: "page".to_string(),
        },
        lang: "en".to_string(),
        slug: "some-tags".to_string(),
        path: "/some-tags/".to_string(),
        permalink: "https://vincent.is/some-tags/".to_string(),
    };
    let term = TaxonomyTerm {
        name: "Something".to_string(),
        slug: "something".to_string(),
        path: "/some-tags/something/".to_string(),
        permalink: "https://vincent.is/some-tags/something/".to_string(),
        pages,
    };
    (taxonomy, term)
}

#[test]
fn test_can_create_paginator_for_taxonomy() {
    let (_, library) = create_library(false, 3, false);
    let (taxonomy, term) = taxonomy_with_term(vec![2, 1, 0]);
    let paginator = PaginatorDate::from_taxonomy(&taxonomy, &term, &library, None);
    assert_eq!(paginator.pagers.len(), 3);
    assert_eq!(paginator.pagers[0].index, 1);
    assert_eq!(paginator.pagers[0].permalink, "https://vincent.is/some-tags/something/");
    assert_eq!(paginator.pagers[0].path, "/some-tags/something/");
    assert_eq!(paginator.pagers[1].index, 2);
    assert_eq!(paginator.pagers[1].permalink, "https://vincent.is/some-tags/something/page/2025-02/");
    assert_eq!(paginator.pagers[1].path, "/some-tags/something/page/2025-02/");
    assert_eq!(paginator.paginate_path, "page");
}

#[test]
fn taxonomy_template_names() {
    let (taxonomy, _) = taxonomy_with_term(vec![]);
    assert_eq!(taxonomy_single_template(&taxonomy.kind), "some tags/single.html");
}

#[test]
fn taxonomy_with_no_pages_has_one_pager() {
    let (_, library) = create_library(false, 3, false);
    let (taxonomy, term) = taxonomy_with_term(vec![]);
    let paginator = PaginatorDate::from_taxonomy(&taxonomy, &term, &library, Some("tags/single.html"));
    assert_eq!(paginator.pagers.len(), 1);
    assert!(paginator.pagers[0].pages.is_empty());
    let context = paginator.build_paginator_context(&paginator.pagers[0]);
    assert_eq!(context.total_pages, 0);
    assert_eq!(context.previous, None);
    assert_eq!(context.next, None);
}
