//! The arithmetic of a table that is shown page by page. Pages count from
//! zero.

use vstd::prelude::*;

verus! {

/// How many page numbers the pager shows at most.
pub const MAX_VISIBLE_PAGES: usize = 7;

/// The number of the first entry on page `current`, counted from one; zero
/// where there is no entry at all.
pub open spec fn first_shown(current: int, size: int, total: int) -> int {
    if total > 0 {
        current * size + 1
    } else {
        0
    }
}

/// The number of the last entry on page `current`, counted from one.
pub open spec fn last_shown(current: int, size: int, total: int) -> int {
    if (current + 1) * size < total {
        (current + 1) * size
    } else {
        total
    }
}

/// The number of the last page.
pub open spec fn last_page_of(total: int, size: int) -> int {
    if total > 0 {
        (total - 1) / size
    } else {
        0
    }
}

/// How many pages there are: as many as it takes to hold `total` entries, and
/// one where there is no entry. Pages of no entries never hold what there is:
/// of them there are as many as the machine can count.
pub open spec fn pages_needed(total: int, size: int) -> int {
    if size == 0 {
        if total > 0 {
            usize::MAX as int
        } else {
            1
        }
    } else {
        last_page_of(total, size) + 1
    }
}

/// The page numbers that the pager shows for page `current` of
/// `total_pages`, from the first to the one before the second: all of them
/// where they are few, else seven of them around the current page, or at the
/// nearer end.
pub open spec fn visible_pages(current: int, total_pages: int) -> (int, int) {
    let half = MAX_VISIBLE_PAGES as int / 2;
    if total_pages <= MAX_VISIBLE_PAGES {
        (0, total_pages)
    } else if current < half {
        (0, MAX_VISIBLE_PAGES as int)
    } else if current >= total_pages - half {
        (total_pages - MAX_VISIBLE_PAGES, total_pages)
    } else {
        (current - half, current + half + 1)
    }
}

/// The pages that are needed hold all entries, and one page fewer would not.
pub proof fn lemma_pages_needed(total: int, size: int)
    requires
        total >= 0,
        size > 0,
    ensures
        pages_needed(total, size) >= 1,
        pages_needed(total, size) * size >= total,
        total > 0 ==> (pages_needed(total, size) - 1) * size < total,
{
    if total > 0 {
        let last = (total - 1) / size;
        vstd::arithmetic::div_mod::lemma_fundamental_div_mod(total - 1, size);
        vstd::arithmetic::div_mod::lemma_mod_bound(total - 1, size);
        vstd::arithmetic::div_mod::lemma_div_pos_is_pos(total - 1, size);
        assert((last + 1) * size == last * size + size) by (nonlinear_arith);
        assert(size * last == last * size) by (nonlinear_arith);
    }
}

/// The pager shows seven page numbers at most, none past the last page, and
/// the current page among them where there is such a page.
pub proof fn lemma_visible_pages(current: int, total_pages: int)
    requires
        0 <= current,
        0 <= total_pages,
    ensures
        0 <= visible_pages(current, total_pages).0 <= visible_pages(current, total_pages).1
            <= total_pages,
        visible_pages(current, total_pages).1 - visible_pages(current, total_pages).0
            <= MAX_VISIBLE_PAGES,
        current < total_pages ==> visible_pages(current, total_pages).0 <= current
            < visible_pages(current, total_pages).1,
{
}

/// The numbers of the first and of the last entry on page `current`, for the
/// line that says which entries are shown.
pub fn shown_range(current: usize, size: usize, total: usize) -> (range: (usize, usize))
    requires
        first_shown(current as int, size as int, total as int) <= usize::MAX,
    ensures
        range.0 == first_shown(current as int, size as int, total as int),
        range.1 == last_shown(current as int, size as int, total as int),
{
    let start = if total > 0 {
        current * size + 1
    } else {
        0
    };
    let end = match current.checked_add(1) {
        Some(next) => match next.checked_mul(size) {
            Some(end) => if end < total {
                end
            } else {
                total
            },
            None => total,
        },
        None => if size == 0 {
            assert((current + 1) * size == 0) by (nonlinear_arith)
                requires
                    size == 0,
            ;
            0
        } else {
            assert((current + 1) * size >= total) by (nonlinear_arith)
                requires
                    current + 1 > total,
                    size >= 1,
            ;
            total
        },
    };
    (start, end)
}

/// The number of the last page.
pub fn last_page(total: usize, size: usize) -> (last: usize)
    requires
        size > 0,
    ensures
        last == last_page_of(total as int, size as int),
{
    if total > 0 {
        (total - 1) / size
    } else {
        0
    }
}

/// How many pages there are.
pub fn page_count(total: usize, size: usize) -> (count: usize)
    ensures
        count == pages_needed(total as int, size as int),
{
    if size == 0 {
        if total > 0 {
            usize::MAX
        } else {
            1
        }
    } else if total > 0 {
        let last = (total - 1) / size;
        assert(last < total) by {
            vstd::arithmetic::div_mod::lemma_div_is_ordered_by_denominator(
                total as int - 1,
                1,
                size as int,
            );
            vstd::arithmetic::div_mod::lemma_div_basics(total as int - 1);
        }
        last + 1
    } else {
        1
    }
}

/// Whether there is a page behind page `current`.
pub fn has_next_page(current: usize, total: usize, size: usize) -> (more: bool)
    requires
        size > 0,
    ensures
        more == (current < last_page_of(total as int, size as int)),
{
    current < last_page(total, size)
}

/// The page numbers that the pager shows, as [`visible_pages`] states them.
pub fn page_window(current: usize, total_pages: usize) -> (window: (usize, usize))
    ensures
        window.0 == visible_pages(current as int, total_pages as int).0,
        window.1 == visible_pages(current as int, total_pages as int).1,
{
    let half = MAX_VISIBLE_PAGES / 2;
    if total_pages <= MAX_VISIBLE_PAGES {
        (0, total_pages)
    } else if current < half {
        (0, MAX_VISIBLE_PAGES)
    } else if current >= total_pages - half {
        (total_pages - MAX_VISIBLE_PAGES, total_pages)
    } else {
        (current - half, current + half + 1)
    }
}

} // verus!
