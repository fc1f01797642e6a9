# content

Date pagination for a static site generator: the rendered pages of a section or a
taxonomy term are split into pagers, one per run of pages of the same month, and each
pager gets its index, address, path and `year-month` segment.

- `src/types.rs`: `InsertAnchor`, `PaginateOptions`.
- `src/text.rs`: decimal writing of years and two-digit months, with their specifications.
- `src/library.rs`: pages, sections, taxonomies and the serialized form of a page.
- `src/pager.rs`: `Pager` and its view.
- `src/month_keys.rs`: the `ahash` set of (year, month) pairs that counts distinct months.
- `src/pagination_date.rs`: `PaginatorDate`, its specification and its operations.
- `src/laws.rs`: properties of every paginator, proved from that specification.
- `app/lib.rs`: serde copies of the types, the tera context map and rendering.
