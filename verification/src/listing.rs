//! Paged, filtered lists: the page and filter query parameters, the search
//! text a filter is matched with, and which items fall on a page.
use vstd::prelude::*;

use crate::text::{parse_u64, spec_lowercase, spec_parse_u64, spec_trim, to_lowercase, trim};

verus! {

/// The `u32` that `s` denotes, as `u32::from_str` reads it.
pub open spec fn spec_parse_u32(s: Seq<char>) -> Option<u32> {
    match spec_parse_u64(s) {
        Some(n) => if n <= u32::MAX {
            Some(n as u32)
        } else {
            None
        },
        None => None,
    }
}

/// The page a `page` parameter selects: its number when it is a positive
/// `u32`, else the first page.
pub open spec fn spec_page_param(param: Option<Seq<char>>) -> u32 {
    match param {
        Some(p) => match spec_parse_u32(p) {
            Some(n) => if n > 0 {
                n
            } else {
                1
            },
            None => 1,
        },
        None => 1,
    }
}

/// The characters of an optional text.
pub open spec fn opt_chars(o: Option<&str>) -> Option<Seq<char>> {
    match o {
        Some(s) => Some(s@),
        None => None,
    }
}

pub fn page_param(param: Option<&str>) -> (r: u32)
    ensures
        r == spec_page_param(opt_chars(param)),
        r > 0,
{
    match param {
        Some(p) => match parse_u64(p) {
            Some(n) => if n <= u32::MAX as u64 && n > 0 {
                n as u32
            } else {
                1
            },
            None => 1,
        },
        None => 1,
    }
}

/// The filter a `filter` parameter sets: the parameter without surrounding
/// white space, unless nothing is left.
pub open spec fn spec_filter_param(param: Option<Seq<char>>) -> Option<Seq<char>> {
    match param {
        Some(p) => if spec_trim(p).len() > 0 {
            Some(spec_trim(p))
        } else {
            None
        },
        None => None,
    }
}

pub fn filter_param(param: Option<&str>) -> (r: Option<String>)
    ensures
        (match r {
            Some(s) => Some(s@),
            None => None,
        }) == spec_filter_param(opt_chars(param)),
{
    match param {
        Some(p) => {
            let t = trim(p);
            if t.as_str().unicode_len() > 0 {
                Some(t)
            } else {
                None
            }
        },
        None => None,
    }
}

/// The text items are searched for: the filter trimmed and lowercased, or
/// the empty text (which every item matches) when there is none.
pub open spec fn spec_search_text(filter: Option<Seq<char>>) -> Seq<char> {
    match filter {
        Some(f) => spec_lowercase(spec_trim(f)),
        None => Seq::empty(),
    }
}

pub fn search_text(filter: Option<&str>) -> (r: String)
    ensures
        r@ == spec_search_text(opt_chars(filter)),
{
    match filter {
        Some(f) => {
            let t = trim(f);
            to_lowercase(t.as_str())
        },
        None => String::new(),
    }
}

/// Items shown on each page of a report's records, policies or failures.
pub const REPORT_PAGE_SIZE: u32 = 10;

/// The positions of the matching items, in order.
pub open spec fn matching(flags: Seq<bool>) -> Seq<int>
    decreases flags.len(),
{
    if flags.len() == 0 {
        Seq::empty()
    } else if flags.last() {
        matching(flags.drop_last()).push(flags.len() - 1)
    } else {
        matching(flags.drop_last())
    }
}

/// The matching positions that fall on page `page` (counted from one) of
/// pages of `size` items: those after the first `(page - 1) * size`, at
/// most `size` of them.
pub open spec fn page_positions(flags: Seq<bool>, page: int, size: int) -> Seq<int> {
    let m = matching(flags);
    let start = if page > 0 { (page - 1) * size } else { 0 };
    let from = if start < m.len() { start } else { m.len() as int };
    let to = if from + size < m.len() { from + size } else { m.len() as int };
    m.subrange(from, to)
}

proof fn lemma_matching_prefix(flags: Seq<bool>, i: int)
    requires
        0 <= i <= flags.len(),
    ensures
        matching(flags.take(i)).len() <= matching(flags).len(),
        matching(flags).take(matching(flags.take(i)).len() as int) == matching(flags.take(i)),
    decreases flags.len(),
{
    if i == flags.len() {
        assert(flags.take(i) =~= flags);
    } else {
        assert(flags.drop_last().take(i) =~= flags.take(i));
        lemma_matching_prefix(flags.drop_last(), i);
        let a = matching(flags.take(i));
        let b = matching(flags.drop_last());
        assert(matching(flags).take(a.len() as int) =~= b.take(a.len() as int));
    }
}

proof fn lemma_matching_bounds(flags: Seq<bool>)
    ensures
        matching(flags).len() <= flags.len(),
        forall|k: int| 0 <= k < matching(flags).len() ==> 0 <= #[trigger] matching(flags)[k] < flags.len(),
    decreases flags.len(),
{
    if flags.len() > 0 {
        lemma_matching_bounds(flags.drop_last());
    }
}

/// The positions of the matching items on page `page`, each page holding
/// `REPORT_PAGE_SIZE` items.
pub fn page_indices(flags: &Vec<bool>, page: u32) -> (r: Vec<usize>)
    requires
        page == 0 || (page - 1) * REPORT_PAGE_SIZE <= u32::MAX,
    ensures
        r@.map_values(|k: usize| k as int) == page_positions(flags@, page as int, REPORT_PAGE_SIZE as int),
{
    let ghost f = flags@;
    let skip: u32 = if page > 0 { (page - 1) * REPORT_PAGE_SIZE } else { 0 };
    let mut offset: u32 = skip;
    let mut out: Vec<usize> = Vec::new();
    let mut i: usize = 0;
    proof {
        lemma_matching_bounds(f);
        assert(f.take(0) =~= Seq::<bool>::empty());
    }
    while i < flags.len()
        invariant
            f == flags@,
            i <= f.len(),
            skip == (if page > 0 { (page - 1) * REPORT_PAGE_SIZE } else { 0 }),
            matching(f.take(i as int)).len() <= skip ==> offset == skip - matching(f.take(i as int)).len()
                && out@.len() == 0,
            matching(f.take(i as int)).len() > skip ==> offset == 0 && out@.map_values(|k: usize| k as int)
                == matching(f.take(i as int)).subrange(skip as int, matching(f.take(i as int)).len() as int)
                && out@.len() < REPORT_PAGE_SIZE,
        decreases f.len() - i,
    {
        let ghost pre = matching(f.take(i as int));
        proof {
            assert(f.take(i + 1).drop_last() =~= f.take(i as int));
            assert(f.take(i + 1).last() == f[i as int]);
        }
        if flags[i] {
            if offset == 0 {
                let ghost before = out@.map_values(|k: usize| k as int);
                out.push(i);
                assert(out@.map_values(|k: usize| k as int) =~= before.push(i as int));
                if out.len() >= REPORT_PAGE_SIZE as usize {
                    proof {
                        let post = matching(f.take(i + 1));
                        lemma_matching_prefix(f, i + 1);
                        assert(out@.map_values(|k: usize| k as int) =~= post.subrange(skip as int, post.len() as int));
                        assert(page_positions(f, page as int, REPORT_PAGE_SIZE as int) =~= matching(f).subrange(
                            skip as int,
                            skip + REPORT_PAGE_SIZE,
                        ));
                        assert(matching(f).subrange(skip as int, skip + REPORT_PAGE_SIZE) =~= post.subrange(
                            skip as int,
                            post.len() as int,
                        ));
                    }
                    return out;
                }
            } else {
                offset = offset - 1;
            }
        }
        proof {
            let post = matching(f.take(i + 1));
            if post.len() > skip {
                assert(out@.map_values(|k: usize| k as int) =~= post.subrange(skip as int, post.len() as int));
            }
        }
        i = i + 1;
    }
    proof {
        assert(f.take(f.len() as int) =~= f);
        let m = matching(f);
        if m.len() > skip {
            assert(page_positions(f, page as int, REPORT_PAGE_SIZE as int) =~= m.subrange(skip as int, m.len() as int));
        } else {
            assert(page_positions(f, page as int, REPORT_PAGE_SIZE as int) =~= Seq::<int>::empty());
            assert(out@.map_values(|k: usize| k as int) =~= Seq::<int>::empty());
        }
    }
    out
}


/// Paging law: the matching item of rank `r` (counted from zero among the
/// matching items) is shown on page `r / size + 1`, at position `r % size`;
/// so each matching item is on exactly one page, in order.
pub proof fn lemma_item_page(flags: Seq<bool>, size: int, r: int)
    requires
        size > 0,
        0 <= r < matching(flags).len(),
    ensures
        page_positions(flags, r / size + 1, size).len() > r % size,
        page_positions(flags, r / size + 1, size)[r % size] == matching(flags)[r],
{
    let m = matching(flags);
    let page = r / size + 1;
    assert((page - 1) * size == r - r % size) by (nonlinear_arith)
        requires
            size > 0,
            page == r / size + 1,
    {
        assert(r == size * (r / size) + r % size);
    }
    assert(0 <= r % size < size) by (nonlinear_arith)
        requires
            size > 0,
    ;
    let start = (page - 1) * size;
    assert(start <= r);
    assert(start < m.len());
}

} // verus!
