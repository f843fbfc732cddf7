use vstd::prelude::*;

verus! {

/// The sum of the heights `h[i..j)`, zero outside the sequence's bounds.
pub open spec fn sum_range(h: Seq<u16>, i: int, j: int) -> int
    decreases j - i,
{
    if i < 0 || j <= i || j > h.len() {
        0
    } else {
        h[i] + sum_range(h, i + 1, j)
    }
}

/// The sum of all heights of a window.
pub open spec fn seq_sum(h: Seq<u16>) -> int {
    sum_range(h, 0, h.len() as int)
}

/// A sum of heights is never negative.
pub proof fn lemma_sum_nonneg(h: Seq<u16>, i: int, j: int)
    ensures
        sum_range(h, i, j) >= 0,
    decreases j - i,
{
    if !(i < 0 || j <= i || j > h.len()) {
        lemma_sum_nonneg(h, i + 1, j);
    }
}

/// A sum of heights splits at any point between its bounds.
pub proof fn lemma_sum_split(h: Seq<u16>, i: int, k: int, j: int)
    requires
        0 <= i <= k <= j <= h.len(),
    ensures
        sum_range(h, i, j) == sum_range(h, i, k) + sum_range(h, k, j),
    decreases k - i,
{
    if i < k {
        lemma_sum_split(h, i + 1, k, j);
    }
}

/// The sum over a single item is its height.
pub proof fn lemma_sum_one(h: Seq<u16>, i: int)
    requires
        0 <= i < h.len(),
    ensures
        sum_range(h, i, i + 1) == h[i],
{
    assert(sum_range(h, i + 1, i + 1) == 0);
}

/// How many whole items the forward scan keeps: starting at `start`, items are
/// taken greedily while their heights fit within `budget`.
pub open spec fn fit_forward(h: Seq<u16>, start: int, budget: int) -> nat
    decreases h.len() - start
        when 0 <= start <= h.len()
{
    if start < 0 || start >= h.len() || h[start] > budget {
        0
    } else {
        1 + fit_forward(h, start + 1, budget - h[start])
    }
}

/// How many whole items the backward scan keeps: walking down from `end`,
/// items are taken greedily while their heights stay strictly under `budget`.
pub open spec fn fit_backward(h: Seq<u16>, end: int, budget: int) -> nat
    decreases end + 1
        when end < h.len()
{
    if end < 0 || end >= h.len() || h[end] >= budget {
        0
    } else {
        1 + fit_backward(h, end - 1, budget - h[end])
    }
}

/// What the forward scan's count means: the kept items fit within the budget,
/// the next item (when one exists) would overflow it, and the count never
/// reaches past the sequence.
pub proof fn lemma_fit_forward_props(h: Seq<u16>, start: int, budget: int)
    requires
        0 <= start <= h.len(),
    ensures
        start + fit_forward(h, start, budget) <= h.len(),
        sum_range(h, start, start + fit_forward(h, start, budget)) <= if budget >= 0 {
            budget
        } else {
            0
        },
        start + fit_forward(h, start, budget) < h.len() ==> sum_range(
            h,
            start,
            start + fit_forward(h, start, budget),
        ) + h[start + fit_forward(h, start, budget)] > budget,
    decreases h.len() - start,
{
    if !(start < 0 || start >= h.len() || h[start] > budget) {
        lemma_fit_forward_props(h, start + 1, budget - h[start]);
        lemma_sum_nonneg(h, start + 1, start + fit_forward(h, start, budget) as int);
    }
}

/// What the backward scan's count means: the kept items sum to strictly under
/// the budget (or the count is zero), the item below them (when one exists)
/// would reach it, and the count never reaches below the sequence.
pub proof fn lemma_fit_backward_props(h: Seq<u16>, end: int, budget: int)
    requires
        -1 <= end < h.len(),
    ensures
        fit_backward(h, end, budget) <= end + 1,
        fit_backward(h, end, budget) > 0 ==> sum_range(
            h,
            end + 1 - fit_backward(h, end, budget),
            end + 1,
        ) < budget,
        fit_backward(h, end, budget) == 0 ==> sum_range(
            h,
            end + 1 - fit_backward(h, end, budget),
            end + 1,
        ) == 0,
        end - fit_backward(h, end, budget) >= 0 ==> sum_range(
            h,
            end + 1 - fit_backward(h, end, budget),
            end + 1,
        ) + h[end - fit_backward(h, end, budget)] >= budget,
    decreases end + 1,
{
    if !(end < 0 || end >= h.len() || h[end] >= budget) {
        lemma_fit_backward_props(h, end - 1, budget - h[end]);
        let m = fit_backward(h, end, budget) as int;
        let m1 = fit_backward(h, end - 1, budget - h[end]) as int;
        assert(m == m1 + 1);
        lemma_sum_split(h, end + 1 - m, end, end + 1);
        assert(sum_range(h, end, end + 1) == h[end] + sum_range(h, end + 1, end + 1));
        lemma_sum_nonneg(h, end + 1 - m, end);
    }
}

/// A window's sum, read through `subrange`: the sum of the heights it copies.
pub proof fn lemma_sum_subrange_shifted(h: Seq<u16>, i: int, j: int, k: int)
    requires
        0 <= i,
        i + k <= j <= h.len(),
        0 <= k,
    ensures
        sum_range(h.subrange(i, j), k, j - i) == sum_range(h, i + k, j),
    decreases j - i - k,
{
    let sub = h.subrange(i, j);
    if k < j - i {
        lemma_sum_subrange_shifted(h, i, j, k + 1);
        assert(sub[k] == h[i + k]);
    }
}

/// The sum of a copied window equals the sum over the range it copies.
pub proof fn lemma_seq_sum_subrange(h: Seq<u16>, i: int, j: int)
    requires
        0 <= i <= j <= h.len(),
    ensures
        seq_sum(h.subrange(i, j)) == sum_range(h, i, j),
{
    lemma_sum_subrange_shifted(h, i, j, 0);
}

/// Appending a height adds it to the sum.
pub proof fn lemma_sum_push(w: Seq<u16>, x: u16, k: int)
    requires
        0 <= k <= w.len(),
    ensures
        sum_range(w.push(x), k, w.len() as int + 1) == sum_range(w, k, w.len() as int) + x,
    decreases w.len() - k,
{
    if k < w.len() {
        lemma_sum_push(w, x, k + 1);
        assert(w.push(x)[k] == w[k]);
    } else {
        assert(w.push(x)[k] == x);
        assert(sum_range(w.push(x), k + 1, w.len() as int + 1) == 0);
    }
}

/// The sum of a window with one height appended.
pub proof fn lemma_seq_sum_push(w: Seq<u16>, x: u16)
    ensures
        seq_sum(w.push(x)) == seq_sum(w) + x,
{
    lemma_sum_push(w, x, 0);
}

/// Prepending shifts a sum's range by one.
pub proof fn lemma_sum_cons(w: Seq<u16>, x: u16, k: int)
    requires
        0 <= k <= w.len(),
    ensures
        sum_range(seq![x] + w, k + 1, w.len() as int + 1) == sum_range(w, k, w.len() as int),
    decreases w.len() - k,
{
    if k < w.len() {
        lemma_sum_cons(w, x, k + 1);
        assert((seq![x] + w)[k + 1] == w[k]);
    }
}

/// The sum of a window with one height prepended.
pub proof fn lemma_seq_sum_cons(w: Seq<u16>, x: u16)
    ensures
        seq_sum(seq![x] + w) == x + seq_sum(w),
{
    lemma_sum_cons(w, x, 0);
    assert((seq![x] + w)[0] == x);
    assert(seq_sum(seq![x] + w) == (seq![x] + w)[0] + sum_range(seq![x] + w, 1, w.len() as int + 1));
}

/// The index the recompute treats as selected: the selection, or the first
/// item when nothing is selected.
pub open spec fn spec_sel(sel: Option<usize>) -> int {
    match sel {
        Some(i) => i as int,
        None => 0,
    }
}

/// What one viewport recompute yields: the new scroll offset and the heights
/// assigned to the rendered items, top to bottom.
///
/// The offset first rolls up to the selection when the selection lies above
/// the window.  A forward scan then keeps whole items greedily from the
/// offset; if it reaches the selection the window stands, a trailing partial
/// height filling the leftover space when `truncate` is set and an item
/// overflowed.  Otherwise the window is rebuilt backward from the selection:
/// whole items are kept upward while they fit strictly, and the space left is
/// either given to a partial leading item (`truncate`) or left unused.
pub open spec fn viewport(h: Seq<u16>, old_offset: int, s: int, max: int, truncate: bool) -> (
    int,
    Seq<u16>,
) {
    let off0 = if s < old_offset {
        s
    } else {
        old_offset
    };
    if h.len() == 0 {
        (off0, Seq::empty())
    } else {
        let n = fit_forward(h, off0, max) as int;
        if s < off0 + n {
            if truncate && off0 + n < h.len() {
                (
                    off0,
                    h.subrange(off0, off0 + n).push((max - sum_range(h, off0, off0 + n)) as u16),
                )
            } else {
                (off0, h.subrange(off0, off0 + n))
            }
        } else {
            let m = fit_backward(h, s, max) as int;
            let y = sum_range(h, s + 1 - m, s + 1);
            if truncate {
                (s - m, seq![(max - y) as u16] + h.subrange(s + 1 - m, s + 1))
            } else {
                (s - m + 1, h.subrange(s + 1 - m, s + 1))
            }
        }
    }
}

/// When the backward scan runs — the forward window missed the selection —
/// the items from the adjusted offset through the selection overflow the
/// viewport, and the backward count stays at or below the selection.
proof fn lemma_backward_entry(h: Seq<u16>, off0: int, s: int, max: int)
    requires
        0 <= off0 <= s < h.len(),
        s >= off0 + fit_forward(h, off0, max),
    ensures
        sum_range(h, 0, s + 1) > max,
        fit_backward(h, s, max) <= s,
        fit_backward(h, s, max) > 0 ==> sum_range(h, s + 1 - fit_backward(h, s, max), s + 1) < max,
{
    let n = fit_forward(h, off0, max) as int;
    lemma_fit_forward_props(h, off0, max);
    lemma_sum_one(h, off0 + n);
    lemma_sum_split(h, off0, off0 + n, off0 + n + 1);
    lemma_sum_split(h, off0, off0 + n + 1, s + 1);
    lemma_sum_nonneg(h, off0 + n + 1, s + 1);
    lemma_sum_split(h, 0, off0, s + 1);
    lemma_sum_nonneg(h, 0, off0);
    assert(sum_range(h, 0, s + 1) > max);
    let m = fit_backward(h, s, max) as int;
    lemma_fit_backward_props(h, s, max);
    if m == s + 1 {
        assert(sum_range(h, 0, s + 1) < max);
        assert(false);
    }
}

/// Law (viewport visibility): a recompute leaves the selected item inside the
/// returned window — its index lies at or after the new offset and before the
/// offset plus the number of rendered heights.  Without truncation this needs
/// the selected item itself to fit the viewport; a taller item is rendered
/// only as a truncated window.
pub proof fn lemma_viewport_keeps_selection_visible(
    h: Seq<u16>,
    old_offset: int,
    s: int,
    max: int,
    truncate: bool,
)
    requires
        0 <= old_offset,
        0 <= s < h.len(),
        truncate || h[s] < max,
    ensures
        ({
            let (off, w) = viewport(h, old_offset, s, max, truncate);
            0 <= off <= s && s < off + w.len()
        }),
{
    let off0 = if s < old_offset {
        s
    } else {
        old_offset
    };
    let n = fit_forward(h, off0, max) as int;
    lemma_fit_forward_props(h, off0, max);
    let off = viewport(h, old_offset, s, max, truncate).0;
    let w = viewport(h, old_offset, s, max, truncate).1;
    if s < off0 + n {
        assert(off == off0);
        assert(w.len() >= n);
        assert(0 <= off <= s && s < off + w.len());
    } else {
        lemma_backward_entry(h, off0, s, max);
        let m = fit_backward(h, s, max) as int;
        lemma_fit_backward_props(h, s, max);
        if !truncate {
            assert(h[s] < max);
            assert(fit_backward(h, s, max) == 1 + fit_backward(h, s - 1, max - h[s]));
            assert(m >= 1);
            assert(off == s - m + 1);
            assert(w.len() == m);
        } else {
            assert(off == s - m);
            assert(w.len() == m + 1);
        }
        assert(0 <= off <= s && s < off + w.len());
    }
}

/// Law (window fits): the rendered heights never sum past the viewport.
pub proof fn lemma_viewport_fits(h: Seq<u16>, old_offset: int, s: int, max: int, truncate: bool)
    requires
        0 <= old_offset,
        0 <= s < h.len(),
        0 <= max <= u16::MAX,
    ensures
        seq_sum(viewport(h, old_offset, s, max, truncate).1) <= max,
{
    let off0 = if s < old_offset {
        s
    } else {
        old_offset
    };
    let n = fit_forward(h, off0, max) as int;
    lemma_fit_forward_props(h, off0, max);
    lemma_sum_nonneg(h, off0, off0 + n);
    if s < off0 + n {
        lemma_seq_sum_subrange(h, off0, off0 + n);
        if truncate && off0 + n < h.len() {
            lemma_seq_sum_push(
                h.subrange(off0, off0 + n),
                (max - sum_range(h, off0, off0 + n)) as u16,
            );
        }
    } else {
        lemma_backward_entry(h, off0, s, max);
        let m = fit_backward(h, s, max) as int;
        let y = sum_range(h, s + 1 - m, s + 1);
        lemma_fit_backward_props(h, s, max);
        lemma_sum_nonneg(h, s + 1 - m, s + 1);
        lemma_seq_sum_subrange(h, s + 1 - m, s + 1);
        if truncate {
            lemma_seq_sum_cons(h.subrange(s + 1 - m, s + 1), (max - y) as u16);
        }
    }
}

/// Law (truncation fills): when truncation is on and the items from the
/// adjusted offset onward overflow the viewport, the rendered heights fill it
/// exactly.
pub proof fn lemma_viewport_truncate_fills(
    h: Seq<u16>,
    old_offset: int,
    s: int,
    max: int,
)
    requires
        0 <= old_offset,
        0 <= s < h.len(),
        0 <= max <= u16::MAX,
        sum_range(
            h,
            if s < old_offset {
                s
            } else {
                old_offset
            },
            h.len() as int,
        ) > max,
    ensures
        seq_sum(viewport(h, old_offset, s, max, true).1) == max,
{
    let off0 = if s < old_offset {
        s
    } else {
        old_offset
    };
    let n = fit_forward(h, off0, max) as int;
    lemma_fit_forward_props(h, off0, max);
    lemma_sum_nonneg(h, off0, off0 + n);
    if s < off0 + n {
        if off0 + n == h.len() {
            assert(false);
        }
        lemma_seq_sum_subrange(h, off0, off0 + n);
        lemma_seq_sum_push(
            h.subrange(off0, off0 + n),
            (max - sum_range(h, off0, off0 + n)) as u16,
        );
    } else {
        lemma_backward_entry(h, off0, s, max);
        let m = fit_backward(h, s, max) as int;
        let y = sum_range(h, s + 1 - m, s + 1);
        lemma_fit_backward_props(h, s, max);
        lemma_sum_nonneg(h, s + 1 - m, s + 1);
        lemma_seq_sum_subrange(h, s + 1 - m, s + 1);
        lemma_seq_sum_cons(h.subrange(s + 1 - m, s + 1), (max - y) as u16);
    }
}

/// The scroll state of a widget list: the index of the first rendered item and
/// the selected index, if any.
#[derive(Debug, Clone, PartialEq, Eq)]
pub struct WidgetListState {
    /// The index of the first item on the screen.
    pub offset: usize,
    /// The selected item.
    pub selected: Option<usize>,
}

impl WidgetListState {
    /// A state with nothing selected, scrolled to the top.
    pub fn new() -> (r: Self)
        ensures
            r.offset == 0,
            r.selected is None,
    {
        WidgetListState { offset: 0, selected: None }
    }

    /// The currently selected item's index.
    pub fn selected(&self) -> (r: Option<usize>)
        ensures
            r == self.selected,
    {
        self.selected
    }

    /// Select an item by its index; clearing the selection scrolls back to the
    /// top.
    pub fn select(&mut self, index: Option<usize>)
        ensures
            final(self).selected == index,
            final(self).offset == if index is None {
                0
            } else {
                old(self).offset as int
            },
    {
        self.selected = index;
        if index.is_none() {
            self.offset = 0;
        }
    }

    /// Recompute the viewport for one frame: keep the selection visible and
    /// return the heights to render from the (possibly moved) offset onward.
    /// The result is exactly the `viewport` model's window.
    pub fn update_view_port(&mut self, heights: &Vec<u16>, max_height: u16, truncate: bool) -> (r:
        Vec<u16>)
        requires
            (old(self).selected matches Some(i) ==> (i as int) < heights@.len() || (i == 0
                && heights@.len() == 0)),
        ensures
            final(self).selected == old(self).selected,
            ({
                let (new_offset, window) = viewport(
                    heights@,
                    old(self).offset as int,
                    spec_sel(old(self).selected),
                    max_height as int,
                    truncate,
                );
                final(self).offset == new_offset && r@ == window
            }),
    {
        let ghost h = heights@;
        let ghost max = max_height as int;
        let s = match self.selected {
            Some(i) => i,
            None => 0,
        };
        if s < self.offset {
            self.offset = s;
        }
        let off0 = self.offset;
        let len = heights.len();
        if len == 0 {
            let empty_view: Vec<u16> = Vec::new();
            proof {
                assert(empty_view@ =~= Seq::<u16>::empty());
            }
            return empty_view;
        }
        // Forward scan: keep whole items from the offset while they fit.
        let mut view: Vec<u16> = Vec::new();
        let mut y: u32 = 0;
        let mut i = off0;
        let mut truncated = false;
        proof {
            assert(h.subrange(off0 as int, off0 as int) =~= Seq::<u16>::empty());
        }
        while i < len
            invariant_except_break
                !truncated,
                view@ == h.subrange(off0 as int, i as int),
            invariant
                h == heights@,
                off0 <= i <= len,
                len == h.len(),
                max == max_height as int,
                0 <= y <= max,
                y == sum_range(h, off0 as int, i as int),
                fit_forward(h, off0 as int, max) == (i - off0) + fit_forward(h, i as int, max - y),
                self.offset == off0,
                self.selected == old(self).selected,
            ensures
                i - off0 == fit_forward(h, off0 as int, max),
                truncated ==> i < len && truncate && view@ == h.subrange(
                    off0 as int,
                    i as int,
                ).push((max - sum_range(h, off0 as int, i as int)) as u16),
                !truncated ==> view@ == h.subrange(off0 as int, i as int),
                !truncated && i < len ==> !truncate,
            decreases len - i,
        {
            let hh = heights[i];
            if y + hh as u32 > max_height as u32 {
                proof {
                    assert(fit_forward(h, i as int, max - y) == 0);
                }
                if truncate {
                    view.push(max_height - (y as u16));
                    truncated = true;
                    proof {
                        assert(view@ == h.subrange(off0 as int, i as int).push(
                            (max - sum_range(h, off0 as int, i as int)) as u16,
                        ));
                    }
                }
                break ;
            }
            y = y + hh as u32;
            view.push(hh);
            i = i + 1;
            proof {
                assert(view@ =~= h.subrange(off0 as int, i as int));
                lemma_sum_one(h, i - 1);
                lemma_sum_split(h, off0 as int, i - 1, i as int);
            }
        }
        let ghost n = fit_forward(h, off0 as int, max) as int;
        if s < i {
            // The selection is inside the forward window: the offset stands.
            return view;
        }
        // Backward scan: the selection lies below the window; rebuild it from
        // the selection upward.
        proof {
            // The items from the offset through the selection overflow the
            // viewport, so the backward scan must stop at or above index 0.
            assert(i < len);
            lemma_sum_one(h, i as int);
            lemma_sum_split(h, off0 as int, i as int, i + 1);
            assert(sum_range(h, off0 as int, i + 1) > max);
            lemma_sum_split(h, off0 as int, i + 1, s + 1);
            lemma_sum_nonneg(h, i + 1, s + 1);
            assert(sum_range(h, off0 as int, s + 1) > max);
            lemma_sum_split(h, 0, off0 as int, s + 1);
            lemma_sum_nonneg(h, 0, off0 as int);
            assert(sum_range(h, 0, s + 1) > max);
        }
        let mut back: Vec<u16> = Vec::new();
        let mut m: usize = 0;
        let mut y2: u32 = 0;
        proof {
            assert(h.subrange(s + 1, s + 1) =~= Seq::<u16>::empty());
        }
        loop
            invariant_except_break
                back@ == h.subrange(s + 1 - m, s + 1),
                self.offset == off0,
            invariant
                h == heights@,
                m <= s < len,
                len == h.len(),
                max == max_height as int,
                0 <= y2 <= max,
                y2 == sum_range(h, s + 1 - m, s + 1),
                fit_backward(h, s as int, max) == m + fit_backward(h, (s - m) as int, max - y2),
                sum_range(h, 0, s + 1) > max,
                self.selected == old(self).selected,
                off0 <= s,
            ensures
                ({
                    let mm = fit_backward(h, s as int, max) as int;
                    let yy = sum_range(h, s + 1 - mm, s + 1);
                    &&& (truncate ==> self.offset == s - mm && back@ == seq![(max - yy) as u16]
                        + h.subrange(s + 1 - mm, s + 1))
                    &&& (!truncate ==> self.offset == s - mm + 1 && back@ == h.subrange(
                        s + 1 - mm,
                        s + 1,
                    ))
                    &&& self.selected == old(self).selected
                }),
            decreases s - m,
        {
            let idx = s - m;
            let hh = heights[idx];
            if y2 + hh as u32 >= max_height as u32 {
                proof {
                    assert(fit_backward(h, (s - m) as int, max - y2) == 0);
                }
                if truncate {
                    back.insert(0, max_height - (y2 as u16));
                    self.offset = idx;
                    proof {
                        assert(back@ =~= seq![(max - sum_range(h, s + 1 - m, s + 1)) as u16]
                            + h.subrange(s + 1 - m, s + 1));
                    }
                } else {
                    self.offset = idx + 1;
                }
                break ;
            }
            proof {
                // Were every item down to index 0 kept, the sum through the
                // selection would stay under the budget, against the entry
                // fact that it overflows: the scan stops before running out.
                if m == s {
                    lemma_sum_one(h, 0);
                    lemma_sum_split(h, 0, 1, s + 1);
                    assert(false);
                }
                lemma_sum_one(h, idx as int);
                lemma_sum_split(h, idx as int, idx + 1, s + 1);
            }
            y2 = y2 + hh as u32;
            back.insert(0, hh);
            m = m + 1;
            proof {
                assert(back@ =~= h.subrange(s + 1 - m, s + 1));
            }
        }
        back
    }
}

/// One entry of a widget list: the widget itself and the height it asks for.
#[derive(Debug, Clone, PartialEq, Eq)]
pub struct WidgetListItem<T> {
    /// The widget.
    pub content: T,
    /// The height of the widget.
    pub height: u16,
}

impl<T> WidgetListItem<T> {
    /// An item of the given widget and height.
    pub fn new(content: T, height: u16) -> (r: Self)
        ensures
            r.content == content,
            r.height == height,
    {
        WidgetListItem { content, height }
    }
}

/// The index `next` selects: the first item when nothing is selected; else one
/// past the selection, wrapping to the start (`circular`) or staying put at
/// the end.
pub open spec fn next_index(sel: Option<usize>, len: int, circular: bool) -> int {
    match sel {
        None => 0,
        Some(i) => if i + 1 >= len {
            if circular {
                0
            } else {
                i as int
            }
        } else {
            i + 1
        },
    }
}

/// The index `previous` selects: the first item when nothing is selected; else
/// one before the selection, wrapping to the end (`circular`) or staying put
/// at the start.
pub open spec fn previous_index(sel: Option<usize>, len: int, circular: bool) -> int {
    match sel {
        None => 0,
        Some(i) => if i == 0 {
            if circular {
                len - 1
            } else {
                0
            }
        } else {
            i - 1
        },
    }
}

/// A widget list with a selection: the scroll state, the items, and whether
/// selection wraps around (`circular`) and partial items are rendered
/// (`truncate`).
#[derive(Debug, Clone, PartialEq, Eq)]
pub struct SelectableWidgetList<T> {
    /// Holds the list's state, i.e. which element is selected.
    pub state: WidgetListState,
    /// The list of widgets.
    pub items: Vec<T>,
    /// Whether the selection is circular: stepping past the last element
    /// selects the first, and back.
    pub circular: bool,
    /// Whether the first or last widget may be rendered truncated to fill the
    /// viewport.
    pub truncate: bool,
}

impl<T> SelectableWidgetList<T> {
    /// A list over `items`, nothing selected, circular and truncating.
    pub fn new(items: Vec<T>) -> (r: Self)
        ensures
            r.state.offset == 0,
            r.state.selected is None,
            r.items == items,
            r.circular,
            r.truncate,
    {
        SelectableWidgetList { state: WidgetListState::new(), items, circular: true, truncate: true }
    }

    /// Set whether the selection wraps around the ends.
    pub fn circular(self, circular: bool) -> (r: Self)
        ensures
            r.state == self.state,
            r.items == self.items,
            r.circular == circular,
            r.truncate == self.truncate,
    {
        SelectableWidgetList { circular, ..self }
    }

    /// Set whether a partial first or last widget fills the viewport.
    pub fn truncate(self, truncate: bool) -> (r: Self)
        ensures
            r.state == self.state,
            r.items == self.items,
            r.circular == self.circular,
            r.truncate == truncate,
    {
        SelectableWidgetList { truncate, ..self }
    }

    /// Select the next element; on an empty list this does nothing.
    pub fn next(&mut self)
        ensures
            final(self).items == old(self).items,
            final(self).circular == old(self).circular,
            final(self).truncate == old(self).truncate,
            old(self).items@.len() == 0 ==> final(self).state == old(self).state,
            old(self).items@.len() > 0 ==> final(self).state.selected == Some(
                next_index(
                    old(self).state.selected,
                    old(self).items@.len() as int,
                    old(self).circular,
                ) as usize,
            ) && final(self).state.offset == old(self).state.offset,
    {
        if self.items.len() == 0 {
            return ;
        }
        let i = match self.state.selected() {
            Some(i) => {
                if i >= self.items.len() - 1 {
                    if self.circular {
                        0
                    } else {
                        i
                    }
                } else {
                    i + 1
                }
            },
            None => 0,
        };
        self.state.select(Some(i));
    }

    /// Select the previous element; on an empty list this does nothing.
    pub fn previous(&mut self)
        ensures
            final(self).items == old(self).items,
            final(self).circular == old(self).circular,
            final(self).truncate == old(self).truncate,
            old(self).items@.len() == 0 ==> final(self).state == old(self).state,
            old(self).items@.len() > 0 ==> final(self).state.selected == Some(
                previous_index(
                    old(self).state.selected,
                    old(self).items@.len() as int,
                    old(self).circular,
                ) as usize,
            ) && final(self).state.offset == old(self).state.offset,
    {
        if self.items.len() == 0 {
            return ;
        }
        let i = match self.state.selected() {
            Some(i) => {
                if i == 0 {
                    if self.circular {
                        self.items.len() - 1
                    } else {
                        i
                    }
                } else {
                    i - 1
                }
            },
            None => 0,
        };
        self.state.select(Some(i));
    }

    /// A reference to the selected item, when one is selected and in bounds.
    pub fn get_selected(&self) -> (r: Option<&T>)
        ensures
            (match self.state.selected {
                Some(i) => ((i as int) < self.items@.len() ==> (r matches Some(v) && *v
                    == self.items@[i as int])) && ((i as int) >= self.items@.len() ==> r is None),
                None => r is None,
            }),
    {
        match self.state.selected {
            Some(i) => {
                if i < self.items.len() {
                    Some(&self.items[i])
                } else {
                    None
                }
            },
            None => None,
        }
    }
}

} // verus!
