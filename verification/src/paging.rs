use vstd::prelude::*;
use vstd::arithmetic::div_mod::lemma_fundamental_div_mod;
use vstd::arithmetic::mul::lemma_mul_inequality;

verus! {

/// How many pages a listing of `total` rows needs at `capacity` rows per
/// page; an empty listing still occupies one (empty) page.
pub open spec fn spec_page_count(total: int, capacity: int) -> int {
    if total <= 0 {
        1
    } else {
        (total - 1) / capacity + 1
    }
}

/// Maps the flat filtered-row count and a page capacity to the window of rows
/// currently on screen.
///
/// `capacity` comes from the caller's row budget (two rows are reserved for
/// the page indicator) or, absent one, from the terminal height handed in by
/// the embedding application; it is always at least one. `active` says
/// whether paging is shown at all: only when the rows outnumber the capacity.
#[derive(Clone, Copy, Debug)]
pub struct Paging {
    pub current_page: usize,
    pub capacity: usize,
    pub pages: usize,
    pub total: usize,
    pub active: bool,
}

impl Paging {
    /// Internal consistency: the page count and activity flag follow from the
    /// totals, and the current page always exists.
    pub open spec fn wf(self) -> bool {
        &&& self.capacity >= 1
        &&& self.pages == spec_page_count(self.total as int, self.capacity as int)
        &&& self.active == (self.total > self.capacity)
        &&& self.current_page < self.pages
    }

    /// The first row of a page that exists lies inside the listing.
    pub proof fn lemma_page_start_lt_total(self, page: int)
        requires
            self.wf(),
            self.total >= 1,
            0 <= page < self.pages,
        ensures
            page * self.capacity < self.total,
    {
        let total = self.total as int;
        let cap = self.capacity as int;
        let q = (total - 1) / cap;
        lemma_fundamental_div_mod(total - 1, cap);
        lemma_mul_inequality(page, q, cap);
    }

    fn page_count(total: usize, capacity: usize) -> (r: usize)
        requires
            capacity >= 1,
        ensures
            r == spec_page_count(total as int, capacity as int),
            r >= 1,
    {
        if total == 0 {
            1
        } else {
            (total - 1) / capacity + 1
        }
    }

    /// Builds the paging state for `total` rows. `capacity_override` is the
    /// caller's row budget (already biased by the two indicator rows);
    /// without one the budget is `fallback_rows`, the terminal height. Two
    /// rows are reserved for the page indicator and at least one row is
    /// always granted.
    pub fn new(total: usize, capacity_override: Option<usize>, fallback_rows: usize) -> (r: Paging)
        ensures
            r.wf(),
            r.total == total,
            r.current_page == 0,
            r.capacity == Self::spec_capacity(capacity_override, fallback_rows),
    {
        let raw = match capacity_override {
            Some(v) => v,
            None => fallback_rows,
        };
        let capacity = if raw >= 3 {
            raw - 2
        } else {
            1
        };
        let pages = Self::page_count(total, capacity);
        Paging { current_page: 0, capacity, pages, total, active: total > capacity }
    }

    /// The capacity that `new` grants for a given budget.
    pub open spec fn spec_capacity(capacity_override: Option<usize>, fallback_rows: usize) -> usize {
        let raw = match capacity_override {
            Some(v) => v,
            None => fallback_rows,
        };
        if raw >= 3 {
            (raw - 2) as usize
        } else {
            1
        }
    }

    /// Re-derives the page count and the activity flag after the filtered
    /// list changed size; the current page is kept when it still exists and
    /// snaps back to the first page otherwise.
    pub fn set_total(&mut self, total: usize)
        requires
            old(self).wf(),
        ensures
            final(self).wf(),
            final(self).total == total,
            final(self).capacity == old(self).capacity,
            final(self).active == (total > old(self).capacity),
            final(self).current_page == if old(self).current_page
                < spec_page_count(total as int, old(self).capacity as int) {
                old(self).current_page
            } else {
                0
            },
    {
        let pages = Self::page_count(total, self.capacity);
        self.total = total;
        self.pages = pages;
        self.active = total > self.capacity;
        if self.current_page >= pages {
            self.current_page = 0;
        }
    }

    /// Recomputes the current page so that the window covers the selected
    /// row: afterwards `current_page * capacity <= selected` and `selected`
    /// lies strictly before the next page's first row.
    pub fn update(&mut self, selected: usize)
        requires
            old(self).wf(),
            selected < old(self).total || selected == 0,
        ensures
            final(self).wf(),
            *final(self) == (Paging { current_page: final(self).current_page, ..*old(self) }),
            final(self).current_page as int * final(self).capacity as int <= selected as int,
            (selected as int) < (final(self).current_page as int + 1) * (final(self).capacity as int),
    {
        let page = selected / self.capacity;
        proof {
            let cap = self.capacity as int;
            let s = selected as int;
            lemma_fundamental_div_mod(s, cap);
            vstd::arithmetic::div_mod::lemma_mod_bound(s, cap);
            assert(s < (page as int + 1) * cap) by (nonlinear_arith)
                requires
                    s == cap * (page as int) + s % cap,
                    s % cap < cap,
            {}
            assert(page as int * cap <= s) by (nonlinear_arith)
                requires
                    s == cap * (page as int) + s % cap,
                    0 <= s % cap,
            {}
            if selected < self.total {
                let total = self.total as int;
                let cap = self.capacity as int;
                lemma_fundamental_div_mod(total - 1, cap);
                // selected / cap <= (total - 1) / cap, so the page exists
                vstd::arithmetic::div_mod::lemma_div_is_ordered(
                    selected as int,
                    total - 1,
                    cap,
                );
            }
        }
        self.current_page = page;
    }

    /// Moves one page forward, wrapping past the last page to the first, and
    /// returns the first row of the new page as the fresh selection.
    pub fn next_page(&mut self) -> (r: usize)
        requires
            old(self).wf(),
            old(self).active,
        ensures
            final(self).wf(),
            *final(self) == (Paging { current_page: final(self).current_page, ..*old(self) }),
            final(self).current_page == if old(self).current_page + 1 == old(self).pages {
                0usize
            } else {
                (old(self).current_page + 1) as usize
            },
            r == final(self).current_page * final(self).capacity,
            r < final(self).total,
    {
        if self.current_page + 1 == self.pages {
            self.current_page = 0;
        } else {
            self.current_page = self.current_page + 1;
        }
        proof {
            self.lemma_page_start_lt_total(self.current_page as int);
            lemma_mul_inequality(self.current_page as int, self.pages as int - 1, self.capacity as int);
        }
        self.current_page * self.capacity
    }

    /// Moves one page backward, wrapping past the first page to the last, and
    /// returns the first row of the new page as the fresh selection.
    pub fn previous_page(&mut self) -> (r: usize)
        requires
            old(self).wf(),
            old(self).active,
        ensures
            final(self).wf(),
            *final(self) == (Paging { current_page: final(self).current_page, ..*old(self) }),
            final(self).current_page == if old(self).current_page == 0 {
                (old(self).pages - 1) as usize
            } else {
                (old(self).current_page - 1) as usize
            },
            r == final(self).current_page * final(self).capacity,
            r < final(self).total,
    {
        if self.current_page == 0 {
            self.current_page = self.pages - 1;
        } else {
            self.current_page = self.current_page - 1;
        }
        proof {
            self.lemma_page_start_lt_total(self.current_page as int);
            lemma_mul_inequality(self.current_page as int, self.pages as int - 1, self.capacity as int);
        }
        self.current_page * self.capacity
    }

    /// What the frame shows above the prompt: the one-based page number and
    /// the page count, and only when paging is active.
    pub fn paging_info(&self) -> (r: Option<(usize, usize)>)
        requires
            self.wf(),
        ensures
            r == if self.active {
                Some(((self.current_page + 1) as usize, self.pages))
            } else {
                None::<(usize, usize)>
            },
    {
        if self.active {
            Some((self.current_page + 1, self.pages))
        } else {
            None
        }
    }
}

} // verus!
