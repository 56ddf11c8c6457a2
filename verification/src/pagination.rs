//! Pagination arithmetic and display options for a pagination control.

use vstd::prelude::*;

verus! {

/// Number of pages needed to show `total` items at `limit` items per
/// page: `total / limit`, rounded up. An empty set has zero pages.
pub open spec fn spec_total_pages(total: int, limit: int) -> int
    recommends
        limit > 0,
{
    if total % limit == 0 {
        total / limit
    } else {
        total / limit + 1
    }
}

/// Computes how many pages it takes to show `total` items, `limit` per
/// page, rounding up; zero items take zero pages.
pub fn total_pages(total: usize, limit: usize) -> (r: usize)
    requires
        limit > 0,
    ensures
        r == spec_total_pages(total as int, limit as int),
{
    let pages: usize = total / limit;
    if total % limit == 0 {
        pages
    } else {
        // A remainder forces limit >= 2, so the rounded-up count still fits.
        assert(pages < usize::MAX) by (nonlinear_arith)
            requires
                limit > 0,
                total % limit != 0,
                pages == total / limit,
                total <= usize::MAX,
        {
        }
        pages + 1
    }
}

/// The window of page numbers a pagination control offers, as a
/// half-open range over `0..total_pages`: the current page stays
/// centred where possible, the window holds at most `max` pages, and
/// both ends are clamped to the valid range.
pub open spec fn spec_page_window(total_pages: int, current: int, max: int) -> (int, int)
    recommends
        0 <= total_pages,
        0 <= current,
        0 <= max,
{
    let start = if current < max / 2 {
        0
    } else if current + max / 2 >= total_pages {
        if total_pages - max >= 0 {
            total_pages - max
        } else {
            0
        }
    } else {
        current - max / 2
    };
    let end = if start + max <= total_pages {
        start + max
    } else {
        total_pages
    };
    (start, end)
}

/// Computes the half-open range of page numbers to offer: every page
/// when `max_pages` is absent, else a clamped window of at most
/// `max_pages` pages around the current page.
pub fn page_window(total_pages: usize, current_page: usize, max_pages: Option<usize>) -> (r: (
    usize,
    usize,
))
    ensures
        (match max_pages {
            Some(m) => (r.0 as int, r.1 as int) == spec_page_window(
                total_pages as int,
                current_page as int,
                m as int,
            ),
            None => r.0 == 0 && r.1 == total_pages,
        }),
{
    let m: usize = match max_pages {
        Some(m) => m,
        None => {
            return (0, total_pages);
        },
    };
    let half: usize = m / 2;
    let start: usize = if current_page < half {
        0
    } else if half >= total_pages || current_page >= total_pages - half {
        if total_pages >= m {
            total_pages - m
        } else {
            0
        }
    } else {
        current_page - half
    };
    let end: usize = if total_pages - start < m {
        total_pages
    } else {
        start + m
    };
    (start, end)
}

/// Display options for a pagination control: which buttons it shows,
/// their labels, and the presentation classes of its parts.
#[derive(Clone, Debug, PartialEq)]
pub struct Options {
    /// Show previous/next buttons.
    pub show_prev_next: bool,
    /// Classes of the page list.
    pub list_classes: Vec<String>,
    /// Classes of each page item.
    pub item_classes: Vec<String>,
    /// Classes of each page link.
    pub link_classes: Vec<String>,
    /// Classes of the active page item.
    pub active_item_classes: Vec<String>,
    /// Classes of a disabled page item.
    pub disabled_item_classes: Vec<String>,
    /// Label of the previous button.
    pub prev_text: String,
    /// Label of the next button.
    pub next_text: String,
    /// Show first/last buttons.
    pub show_first_last: bool,
    /// Label of the first button.
    pub first_text: String,
    /// Label of the last button.
    pub last_text: String,
}

/// A vector holding one presentation class.
fn one_class(class: &str) -> (r: Vec<String>)
    ensures
        r@.len() == 1,
        r@[0]@ == class@,
{
    let mut v: Vec<String> = Vec::new();
    v.push(class.to_owned());
    v
}

impl Default for Options {
    /// Previous/next shown with the usual labels, first/last hidden,
    /// one conventional class on every part.
    fn default() -> (r: Self)
        ensures
            r.show_prev_next,
            !r.show_first_last,
            r.first_text@ == "First"@,
            r.last_text@ == "Last"@,
            r.prev_text@ == "Previous"@,
            r.next_text@ == "Next"@,
            r.list_classes@.len() == 1 && r.list_classes@[0]@ == "pagination"@,
            r.item_classes@.len() == 1 && r.item_classes@[0]@ == "page-item"@,
            r.link_classes@.len() == 1 && r.link_classes@[0]@ == "page-link"@,
            r.active_item_classes@.len() == 1 && r.active_item_classes@[0]@ == "active"@,
            r.disabled_item_classes@.len() == 1 && r.disabled_item_classes@[0]@ == "disabled"@,
    {
        Options {
            show_prev_next: true,
            show_first_last: false,
            first_text: "First".to_owned(),
            list_classes: one_class("pagination"),
            item_classes: one_class("page-item"),
            link_classes: one_class("page-link"),
            active_item_classes: one_class("active"),
            disabled_item_classes: one_class("disabled"),
            prev_text: "Previous".to_owned(),
            next_text: "Next".to_owned(),
            last_text: "Last".to_owned(),
        }
    }
}

impl Options {
    /// Creates the default options.
    pub fn new() -> (r: Self)
        ensures
            r.show_prev_next,
            !r.show_first_last,
            r.first_text@ == "First"@,
            r.last_text@ == "Last"@,
            r.prev_text@ == "Previous"@,
            r.next_text@ == "Next"@,
            r.list_classes@.len() == 1 && r.list_classes@[0]@ == "pagination"@,
            r.item_classes@.len() == 1 && r.item_classes@[0]@ == "page-item"@,
            r.link_classes@.len() == 1 && r.link_classes@[0]@ == "page-link"@,
            r.active_item_classes@.len() == 1 && r.active_item_classes@[0]@ == "active"@,
            r.disabled_item_classes@.len() == 1 && r.disabled_item_classes@[0]@ == "disabled"@,
    {
        Self::default()
    }

    /// Sets whether previous/next buttons are shown.
    pub fn show_prev_next(self, show_prev_next: bool) -> (r: Self)
        ensures
            r == (Options { show_prev_next, ..self }),
    {
        Self { show_prev_next, ..self }
    }

    /// Sets whether first/last buttons are shown.
    pub fn show_first_last(self, show_first_last: bool) -> (r: Self)
        ensures
            r == (Options { show_first_last, ..self }),
    {
        Self { show_first_last, ..self }
    }

    /// Sets the label of the first button.
    pub fn first_text(self, first_text: String) -> (r: Self)
        ensures
            r == (Options { first_text, ..self }),
    {
        Self { first_text, ..self }
    }

    /// Sets the label of the last button.
    pub fn last_text(self, last_text: String) -> (r: Self)
        ensures
            r == (Options { last_text, ..self }),
    {
        Self { last_text, ..self }
    }

    /// Sets the label of the previous button.
    pub fn prev_text(self, prev_text: String) -> (r: Self)
        ensures
            r == (Options { prev_text, ..self }),
    {
        Self { prev_text, ..self }
    }

    /// Sets the label of the next button.
    pub fn next_text(self, next_text: String) -> (r: Self)
        ensures
            r == (Options { next_text, ..self }),
    {
        Self { next_text, ..self }
    }

    /// Sets the classes of the page list.
    pub fn list_classes(self, list_classes: Vec<String>) -> (r: Self)
        ensures
            r == (Options { list_classes, ..self }),
    {
        Self { list_classes, ..self }
    }

    /// Sets the classes of each page item.
    pub fn item_classes(self, item_classes: Vec<String>) -> (r: Self)
        ensures
            r == (Options { item_classes, ..self }),
    {
        Self { item_classes, ..self }
    }

    /// Sets the classes of the active page item.
    pub fn active_item_classes(self, active_item_classes: Vec<String>) -> (r: Self)
        ensures
            r == (Options { active_item_classes, ..self }),
    {
        Self { active_item_classes, ..self }
    }

    /// Sets the classes of a disabled page item.
    pub fn disabled_item_classes(self, disabled_item_classes: Vec<String>) -> (r: Self)
        ensures
            r == (Options { disabled_item_classes, ..self }),
    {
        Self { disabled_item_classes, ..self }
    }

    /// Sets the classes of each page link.
    pub fn link_classes(self, link_classes: Vec<String>) -> (r: Self)
        ensures
            r == (Options { link_classes, ..self }),
    {
        Self { link_classes, ..self }
    }
}

} // verus!
