//! The paging decisions of the interactive search menu: where the
//! shown page sits in the result pages, which navigation entries the
//! option list carries, and what a chosen index means. The prompt
//! itself is the application's.

use vstd::prelude::*;

verus! {

/// Where the shown page sits among the result pages.
#[derive(Debug, Clone, Copy, PartialEq, Eq, Structural)]
pub enum PagePosition {
    /// The first of several pages.
    Start,
    /// Strictly between the first and the last page.
    Middle,
    /// The last of several pages.
    End,
    /// The only page.
    All,
}

impl PagePosition {
    /// Classifies `page` within the inclusive page range
    /// `start..=end`.
    pub fn new(start: u32, end: u32, page: u32) -> (r: PagePosition)
        ensures
            start == end ==> r == PagePosition::All,
            start != end && page == start && page < end ==> r == PagePosition::Start,
            start != end && page > start && page < end ==> r == PagePosition::Middle,
            start != end && !(page == start && page < end) && !(page > start && page < end) ==> r
                == PagePosition::End,
    {
        if start == end {
            return PagePosition::All;
        }
        if page == start && page < end {
            PagePosition::Start
        } else if page > start && page < end {
            PagePosition::Middle
        } else {
            PagePosition::End
        }
    }
}

/// What a chosen menu index means.
#[derive(Debug, Clone, Copy, PartialEq, Eq, Structural)]
pub enum PageAction {
    /// Go back one page.
    Last,
    /// Go forward one page.
    Next,
    /// The index picks an entry of the shown page.
    Choose,
}

impl PageAction {
    /// Interprets the chosen index: the back entry sits at index 0
    /// where one was inserted, the forward entry at
    /// `next_page_index`; everything else picks an entry.
    pub fn new(page_pos: PagePosition, next_page_index: usize, chosen_index: usize) -> (r:
        PageAction)
        ensures
            page_pos == PagePosition::Start && chosen_index == next_page_index ==> r
                == PageAction::Next,
            page_pos == PagePosition::Middle && chosen_index == 0 ==> r == PageAction::Last,
            page_pos == PagePosition::Middle && chosen_index != 0 && chosen_index
                == next_page_index ==> r == PageAction::Next,
            page_pos == PagePosition::End && chosen_index == 0 ==> r == PageAction::Last,
            page_pos == PagePosition::All ==> r == PageAction::Choose,
            page_pos == PagePosition::Start && chosen_index != next_page_index ==> r
                == PageAction::Choose,
            page_pos == PagePosition::Middle && chosen_index != 0 && chosen_index
                != next_page_index ==> r == PageAction::Choose,
            page_pos == PagePosition::End && chosen_index != 0 ==> r == PageAction::Choose,
    {
        match page_pos {
            PagePosition::Start => {
                if chosen_index == next_page_index {
                    PageAction::Next
                } else {
                    PageAction::Choose
                }
            },
            PagePosition::Middle => {
                if chosen_index == 0 {
                    PageAction::Last
                } else if chosen_index == next_page_index {
                    PageAction::Next
                } else {
                    PageAction::Choose
                }
            },
            PagePosition::End => {
                if chosen_index == 0 {
                    PageAction::Last
                } else {
                    PageAction::Choose
                }
            },
            PagePosition::All => PageAction::Choose,
        }
    }
}

/// How many pages a result total spans at `per_page` entries per
/// page (the ceiling of the division).
pub fn total_pages(total: u32, per_page: u32) -> (r: u32)
    requires
        per_page >= 1,
    ensures
        r == (total + per_page - 1) as int / per_page as int,
{
    proof {
        let t = total as int;
        let p = per_page as int;
        assert((t + p - 1) / p <= t || t == 0) by (nonlinear_arith)
            requires
                p >= 1,
                t >= 0,
        ;
        if total == 0 {
            assert((p - 1) / p == 0) by (nonlinear_arith)
                requires
                    p >= 1,
            ;
        }
    }
    (((total as u64) + (per_page as u64) - 1) / (per_page as u64)) as u32
}

/// The option list shown for a page: the page's entry lines, with a
/// back entry inserted in front when there is an earlier page and a
/// forward entry appended when there is a later one. The offset says
/// how far the entry lines were shifted by the insertion.
pub fn page_options(titles: &Vec<String>, pos: PagePosition) -> (r: (Vec<String>, usize))
    ensures
        r.1 == (if pos == PagePosition::Middle || pos == PagePosition::End {
            1int
        } else {
            0int
        }),
        r.0@.len() == titles@.len() + r.1 + (
        if pos == PagePosition::Start || pos == PagePosition::Middle {
            1int
        } else {
            0int
        }),
        forall|i: int|
            0 <= i < titles@.len() ==> r.0@[i + r.1]@ == (#[trigger] titles@[i])@,
        (pos == PagePosition::Middle || pos == PagePosition::End) ==> r.0@[0]@ == "Last page"@,
        (pos == PagePosition::Start || pos == PagePosition::Middle) ==> r.0@[r.0@.len() - 1]@
            == "Next page"@,
{
    let insert_last = match pos {
        PagePosition::Middle => true,
        PagePosition::End => true,
        _ => false,
    };
    let append_next = match pos {
        PagePosition::Start => true,
        PagePosition::Middle => true,
        _ => false,
    };
    let mut options: Vec<String> = Vec::new();
    let offset: usize = if insert_last {
        options.push("Last page".to_owned());
        1
    } else {
        0
    };
    let n = titles.len();
    let mut i: usize = 0;
    while i < n
        invariant
            0 <= i <= n,
            n == titles@.len(),
            options@.len() == i + offset,
            offset == 1 ==> options@[0]@ == "Last page"@,
            forall|j: int| 0 <= j < i ==> options@[j + offset]@ == (#[trigger] titles@[j])@,
        decreases n - i,
    {
        options.push(titles[i].clone());
        i += 1;
    }
    if append_next {
        options.push("Next page".to_owned());
    }
    (options, offset)
}

} // verus!
