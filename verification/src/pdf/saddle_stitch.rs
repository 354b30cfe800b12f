//! Page order of a saddle-stitched booklet.
//!
//! A booklet of `n` pages (`n` a multiple of four, blanks added at the end) is
//! printed two pages per side on `n / 4` sheets that are folded in the middle
//! and nested. Output slot `p` belongs to spread `p / 2`; spread `s` carries
//! the pages `s` and `n - 1 - s`, and the direction in which the booklet opens
//! decides which of the two is printed on the left half.

use vstd::prelude::*;

use crate::pdf::SaddleStitchError;

verus! {

/// The side towards which the pages flow when the booklet is opened.
#[derive(Debug, Clone, Copy, PartialEq, Eq, Structural)]
pub enum Direction {
    Left,
    Right,
}

/// The number of pages once blanks fill the last sheet: `pages` rounded up
/// to a multiple of four.
pub open spec fn padded_len(pages: nat) -> nat {
    ((pages + 3) / 4 * 4) as nat
}

/// Whether spread `s` carries its outer page (`n - 1 - s`) on the left half.
pub open spec fn outer_page_on_left(direction: Direction, s: int) -> bool {
    match direction {
        Direction::Left => s % 2 == 0,
        Direction::Right => s % 2 == 1,
    }
}

/// The page (index into the padded page sequence) printed at output slot `p`
/// of a booklet of `n` pages.
pub open spec fn booklet_page(n: int, direction: Direction, p: int) -> int {
    let s = p / 2;
    if (p % 2 == 0) == outer_page_on_left(direction, s) {
        n - 1 - s
    } else {
        s
    }
}

/// The output slot at which page `x` of a booklet of `n` pages is printed.
pub open spec fn booklet_slot(n: int, direction: Direction, x: int) -> int {
    let s = if x < n / 2 { x } else { n - 1 - x };
    let outer = x >= n / 2;
    if outer == outer_page_on_left(direction, s) {
        2 * s
    } else {
        2 * s + 1
    }
}

/// What output slot `p` shows: the real page `k` when `k < pages`, a blank
/// page (`None`) otherwise.
pub open spec fn slot_content(pages: nat, direction: Direction, p: int) -> Option<usize> {
    let k = booklet_page(padded_len(pages) as int, direction, p);
    if k < pages {
        Some(k as usize)
    } else {
        None
    }
}

/// The value at slot `p` before the halves of every other spread are
/// exchanged: the outer page on even slots, the inner page on odd ones.
spec fn folded_page(n: int, p: int) -> int {
    if p % 2 == 0 {
        n - 1 - p / 2
    } else {
        p / 2
    }
}

/// The other slot of the spread that holds slot `p`.
pub open spec fn partner_slot(p: int) -> int {
    if p % 2 == 0 {
        p + 1
    } else {
        p - 1
    }
}

/// Padding adds the fewest blank pages that fill whole sheets: the padded
/// length is a multiple of four, at least the page count, and less than four
/// pages more.
pub proof fn law_padding_fills_last_sheet(pages: nat)
    ensures
        padded_len(pages) % 4 == 0,
        pages <= padded_len(pages) < pages + 4,
        pages >= 1 ==> padded_len(pages) >= 4,
{
}

proof fn lemma_exchange_step(n: int, direction: Direction, p: int)
    requires
        0 <= p,
    ensures
        outer_page_on_left(direction, p / 2) ==> booklet_page(n, direction, p) == folded_page(n, p),
        !outer_page_on_left(direction, p / 2) ==> booklet_page(n, direction, p) == folded_page(
            n,
            partner_slot(p),
        ),
{
}

/// The last slot of the padded order, `(pages - 1) / 4 * 4 + 3`, fits in a
/// `usize`: the largest `usize` is three more than a multiple of four.
proof fn lemma_last_page_fits(pages: usize)
    requires
        1 <= pages,
    ensures
        (pages - 1) / 4 * 4 + 3 <= usize::MAX,
        (pages - 1) / 4 * 4 + 4 == padded_len(pages as nat),
{
    assert(usize::MAX == 0xffff_ffff || usize::MAX == 0xffff_ffff_ffff_ffff);
    assert(usize::MAX % 4 == 3);
    let q: int = (pages - 1) / 4;
    assert(q * 4 <= pages - 1) by (nonlinear_arith)
        requires
            q == (pages - 1) / 4,
            pages >= 1,
    ;
    assert(q * 4 + 3 <= usize::MAX) by (nonlinear_arith)
        requires
            q * 4 <= pages - 1,
            pages <= usize::MAX,
            usize::MAX % 4 == 3,
    ;
}

/// A whole number of sheets that fits in a `usize` leaves room for two more
/// slots: the largest `usize` is three more than a multiple of four.
proof fn lemma_whole_sheets_leave_room(n: int)
    requires
        n % 4 == 0,
        n <= usize::MAX,
    ensures
        n + 2 <= usize::MAX,
{
    assert(usize::MAX == 0xffff_ffff || usize::MAX == 0xffff_ffff_ffff_ffff);
    assert(usize::MAX % 4 == 3);
}

/// The slot order of a saddle-stitched booklet for a document of `pages`
/// pages: entry `p` is the index, into the page sequence padded with blanks
/// to a multiple of four, of the page printed at output slot `p`.
///
/// Four pages opening to the left give `[3, 0, 1, 2]`.
pub fn new_page_index(pages: usize, direction: Direction) -> (page_index: Vec<usize>)
    requires
        1 <= pages,
    ensures
        page_index.len() == padded_len(pages as nat),
        forall|p: int|
            0 <= p < page_index.len() ==> page_index[p] == booklet_page(
                page_index.len() as int,
                direction,
                p,
            ),
{
    proof {
        lemma_last_page_fits(pages);
        law_padding_fills_last_sheet(pages as nat);
    }
    let last_page: usize = (pages - 1) / 4 * 4 + 3;
    let ghost n: int = last_page + 1;
    let mut page_index: Vec<usize> = Vec::new();
    let mut i: usize = 0;
    let mut j: usize = last_page;
    while i <= j
        invariant_except_break
            i <= n / 2,
            j == n - 1 - i,
            page_index.len() == 2 * i,
        invariant
            n == last_page + 1,
            n == padded_len(pages as nat),
            n % 4 == 0,
            n >= 4,
            forall|p: int| 0 <= p < page_index.len() ==> page_index[p] == folded_page(n, p),
        ensures
            page_index.len() == n,
        decreases n - 2 * i,
    {
        page_index.push(j);
        if j == 0 {
            break;
        }
        j -= 1;
        page_index.push(i);
        i += 1;
    }
    proof {
        lemma_whole_sheets_leave_room(n);
    }
    let start: usize = match direction {
        Direction::Right => 0,
        Direction::Left => 2,
    };
    let mut k: usize = start;
    proof {
        assert forall|p: int| 0 <= p < k implies page_index[p] == booklet_page(n, direction, p) by {
            lemma_exchange_step(n, direction, p);
        }
    }
    while k < last_page
        invariant
            n == last_page + 1,
            n % 4 == 0,
            n >= 4,
            n + 2 <= usize::MAX,
            page_index.len() == n,
            k % 4 == start,
            k <= n + 2,
            start == (if direction == Direction::Right { 0usize } else { 2usize }),
            forall|p: int|
                0 <= p < n ==> page_index[p] == (if p < k {
                    booklet_page(n, direction, p)
                } else {
                    folded_page(n, p)
                }),
        decreases n + 2 - k,
    {
        let a = page_index[k];
        let b = page_index[k + 1];
        page_index.set(k, b);
        page_index.set(k + 1, a);
        proof {
            assert forall|p: int| k <= p < k + 4 && p < n implies page_index[p] == (if p < k + 4 {
                booklet_page(n, direction, p)
            } else {
                folded_page(n, p)
            }) by {
                lemma_exchange_step(n, direction, p);
            }
        }
        k += 4;
    }
    page_index
}

/// The padded slot order of `new_page_index` with each index resolved:
/// `Some(k)` for the real page `k` of the document, `None` for a blank page
/// added to fill the last sheet.
pub fn padded_order(pages: usize, direction: Direction) -> (order: Vec<Option<usize>>)
    requires
        1 <= pages,
    ensures
        order.len() == padded_len(pages as nat),
        forall|p: int| 0 <= p < order.len() ==> order[p] == slot_content(pages as nat, direction, p),
{
    let page_index = new_page_index(pages, direction);
    let slots = page_index.len();
    let mut padded: Vec<Option<usize>> = Vec::with_capacity(slots);
    for k in 0..slots
        invariant
            padded.len() == k,
            forall|t: int| 0 <= t < k ==> padded[t] == (if t < pages { Some(t as usize) } else { None }),
    {
        if k < pages {
            padded.push(Some(k));
        } else {
            padded.push(None);
        }
    }
    let mut order: Vec<Option<usize>> = Vec::with_capacity(slots);
    for p in 0..slots
        invariant
            slots == page_index.len(),
            slots == padded_len(pages as nat),
            padded.len() == slots,
            forall|t: int| 0 <= t < slots ==> padded[t] == (if t < pages { Some(t as usize) } else { None }),
            forall|t: int|
                0 <= t < slots ==> page_index[t] == booklet_page(slots as int, direction, t),
            forall|t: int| 0 <= t < slots ==> page_index[t] < slots,
            order.len() == p,
            forall|t: int| 0 <= t < p ==> order[t] == slot_content(pages as nat, direction, t),
    {
        order.push(padded[page_index[p]]);
    }
    order
}

/// One sheet side of the output: the pages printed on its left and right
/// halves (`None` is a blank half).
#[derive(Debug, Clone, Copy, PartialEq, Eq, Structural)]
pub struct Spread {
    pub left: Option<usize>,
    pub right: Option<usize>,
}

/// The spreads of the output document, in order: slots `2s` and `2s + 1` of
/// the padded order become the left and right halves of spread `s`. A
/// document without pages has no layout.
pub fn spread_layout(pages: usize, direction: Direction) -> (layout: Result<
    Vec<Spread>,
    SaddleStitchError,
>)
    ensures
        match layout {
            Ok(spreads) => {
                &&& pages >= 1
                &&& spreads.len() * 2 == padded_len(pages as nat)
                &&& forall|s: int|
                    0 <= s < spreads.len() ==> {
                        &&& #[trigger] spreads[s].left == slot_content(pages as nat, direction, 2 * s)
                        &&& spreads[s].right == slot_content(pages as nat, direction, 2 * s + 1)
                    }
            },
            Err(e) => pages == 0 && e == SaddleStitchError::Empty,
        },
{
    if pages == 0 {
        return Err(SaddleStitchError::Empty);
    }
    let order = padded_order(pages, direction);
    proof {
        law_padding_fills_last_sheet(pages as nat);
    }
    let count = order.len() / 2;
    let mut spreads: Vec<Spread> = Vec::with_capacity(count);
    for s in 0..count
        invariant
            count * 2 == order.len(),
            order.len() == padded_len(pages as nat),
            forall|p: int| 0 <= p < order.len() ==> order[p] == slot_content(pages as nat, direction, p),
            spreads.len() == s,
            forall|t: int|
                0 <= t < s ==> {
                    &&& #[trigger] spreads[t].left == slot_content(pages as nat, direction, 2 * t)
                    &&& spreads[t].right == slot_content(pages as nat, direction, 2 * t + 1)
                },
    {
        assert(2 * s + 1 < order.len()) by (nonlinear_arith)
            requires
                s < count,
                count * 2 == order.len(),
        ;
        let left = order[2 * s];
        let right = order[2 * s + 1];
        spreads.push(Spread { left, right });
    }
    Ok(spreads)
}

/// Every page of a booklet is printed exactly once: `booklet_page` maps the
/// slots `0..n` one to one onto the pages `0..n`, and `booklet_slot` is its
/// inverse.
pub proof fn law_booklet_order_is_permutation(n: int, direction: Direction)
    requires
        n > 0,
        n % 4 == 0,
    ensures
        forall|p: int|
            0 <= p < n ==> {
                &&& 0 <= #[trigger] booklet_page(n, direction, p) < n
                &&& booklet_slot(n, direction, booklet_page(n, direction, p)) == p
            },
        forall|x: int|
            0 <= x < n ==> {
                &&& 0 <= #[trigger] booklet_slot(n, direction, x) < n
                &&& booklet_page(n, direction, booklet_slot(n, direction, x)) == x
            },
        forall|p: int, q: int|
            0 <= p < n && 0 <= q < n && p != q ==> #[trigger] booklet_page(n, direction, p)
                != #[trigger] booklet_page(n, direction, q),
{
    assert forall|p: int| 0 <= p < n implies {
        &&& 0 <= #[trigger] booklet_page(n, direction, p) < n
        &&& booklet_slot(n, direction, booklet_page(n, direction, p)) == p
    } by {
        let s = p / 2;
        assert(0 <= s < n / 2);
    }
    assert forall|x: int| 0 <= x < n implies {
        &&& 0 <= #[trigger] booklet_slot(n, direction, x) < n
        &&& booklet_page(n, direction, booklet_slot(n, direction, x)) == x
    } by {
        let s = if x < n / 2 { x } else { n - 1 - x };
        assert(0 <= s < n / 2);
    }
    assert forall|p: int, q: int|
        0 <= p < n && 0 <= q < n && p != q implies #[trigger] booklet_page(n, direction, p)
        != #[trigger] booklet_page(n, direction, q) by {
        let s = p / 2;
        let t = q / 2;
        assert(0 <= s < n / 2);
        assert(0 <= t < n / 2);
    }
}

/// The two halves of every spread belong to the same fold: spread `s` shows
/// page `s` and page `n - 1 - s`, one on each half, so their numbers add up
/// to `n - 1`.
pub proof fn law_spread_halves_fold_together(n: int, direction: Direction, s: int)
    requires
        0 <= s,
    ensures
        booklet_page(n, direction, 2 * s) + booklet_page(n, direction, 2 * s + 1) == n - 1,
        booklet_page(n, direction, 2 * s) == s || booklet_page(n, direction, 2 * s + 1) == s,
{
}

/// Which half of each spread carries the outer page, for the whole booklet:
/// spread `s` shows page `n - 1 - s` (the outer page) and page `s`; opening
/// to the left, the outer page is on the left half exactly on the even
/// spreads, and opening to the right exactly on the odd ones. So on every
/// sheet `m` (spreads `2m` and `2m + 1`), opening to the left, slot `4m + 1`
/// holds page `2m` and slot `4m + 2` holds page `2m + 1`.
pub proof fn law_outer_page_alternates(n: int, s: int)
    requires
        0 <= s < n / 2,
    ensures
        s % 2 == 0 ==> booklet_page(n, Direction::Left, 2 * s) == n - 1 - s
            && booklet_page(n, Direction::Left, 2 * s + 1) == s,
        s % 2 == 1 ==> booklet_page(n, Direction::Left, 2 * s) == s
            && booklet_page(n, Direction::Left, 2 * s + 1) == n - 1 - s,
        s % 2 == 0 ==> booklet_page(n, Direction::Right, 2 * s) == s
            && booklet_page(n, Direction::Right, 2 * s + 1) == n - 1 - s,
        s % 2 == 1 ==> booklet_page(n, Direction::Right, 2 * s) == n - 1 - s
            && booklet_page(n, Direction::Right, 2 * s + 1) == s,
{
    assert((2 * s) / 2 == s && (2 * s) % 2 == 0);
    assert((2 * s + 1) / 2 == s && (2 * s + 1) % 2 == 1);
}

/// Opening to the right mirrors opening to the left: spread `m` shows the
/// same two pages in both directions, with its two halves swapped.
pub proof fn law_right_opening_mirrors_left(n: int, m: int)
    requires
        0 <= m,
    ensures
        booklet_page(n, Direction::Right, 2 * m) == booklet_page(n, Direction::Left, 2 * m + 1),
        booklet_page(n, Direction::Right, 2 * m + 1) == booklet_page(n, Direction::Left, 2 * m),
{
}

/// In the padded order every real page of the document fills exactly one
/// slot, and the remaining slots are blank.
pub proof fn law_each_page_fills_one_slot(pages: nat, direction: Direction)
    requires
        1 <= pages <= usize::MAX,
    ensures
        forall|k: int|
            0 <= k < pages ==> slot_content(
                pages,
                direction,
                #[trigger] booklet_slot(padded_len(pages) as int, direction, k),
            ) == Some(k as usize),
        forall|p: int, q: int|
            0 <= p < padded_len(pages) && 0 <= q < padded_len(pages) && p != q && (
            #[trigger] slot_content(pages, direction, p)) is Some ==> slot_content(pages, direction, p)
                != #[trigger] slot_content(pages, direction, q),
        forall|p: int|
            0 <= p < padded_len(pages) ==> (#[trigger] slot_content(pages, direction, p) is None
                <==> booklet_page(padded_len(pages) as int, direction, p) >= pages),
{
    let n = padded_len(pages) as int;
    law_padding_fills_last_sheet(pages);
    law_booklet_order_is_permutation(n, direction);
    assert forall|k: int| 0 <= k < pages implies slot_content(
        pages,
        direction,
        #[trigger] booklet_slot(n, direction, k),
    ) == Some(k as usize) by {
        assert(0 <= booklet_slot(n, direction, k) < n);
        assert(booklet_page(n, direction, booklet_slot(n, direction, k)) == k);
    }
    assert forall|p: int, q: int|
        0 <= p < n && 0 <= q < n && p != q && (#[trigger] slot_content(pages, direction, p)) is Some
            implies slot_content(pages, direction, p) != #[trigger] slot_content(
        pages,
        direction,
        q,
    ) by {
        assert(0 <= booklet_page(n, direction, p) < n);
        assert(0 <= booklet_page(n, direction, q) < n);
        assert(booklet_page(n, direction, p) != booklet_page(n, direction, q));
    }
}

} // verus!
