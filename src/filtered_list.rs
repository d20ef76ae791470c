use vstd::prelude::*;

verus! {

/// The positions among the first `n` items for which `pred` answers `true`,
/// in increasing order.
pub open spec fn positions_where<T, F: Fn(&T) -> bool>(items: Seq<T>, pred: F, n: int) -> Seq<usize>
    decreases n,
{
    if n <= 0 {
        Seq::empty()
    } else {
        let rest = positions_where(items, pred, n - 1);
        if pred.ensures((&items[n - 1],), true) {
            rest.push((n - 1) as usize)
        } else {
            rest
        }
    }
}

/// `pred` gives one answer for each item: it behaves as a function.
pub open spec fn answers_uniquely<T, F: Fn(&T) -> bool>(pred: F) -> bool {
    forall|t: &T, a: bool, b: bool|
        #[trigger] pred.ensures((t,), a) && #[trigger] pred.ensures((t,), b) ==> a == b
}

/// A position appears in `positions_where` exactly when it is below `n`
/// and `pred` holds of the item there.
pub proof fn lemma_positions_where_members<T, F: Fn(&T) -> bool>(items: Seq<T>, pred: F, n: int, k: int)
    requires
        0 <= n <= items.len(),
        items.len() <= usize::MAX,
        0 <= k < items.len(),
    ensures
        (k < n && pred.ensures((&items[k],), true)) <==> positions_where(items, pred, n).contains(
            k as usize,
        ),
    decreases n,
{
    if n > 0 {
        lemma_positions_where_members(items, pred, n - 1, k);
        let rest = positions_where(items, pred, n - 1);
        lemma_positions_below(items, pred, n - 1);
        if pred.ensures((&items[n - 1],), true) {
            let all = rest.push((n - 1) as usize);
            assert(all[rest.len() as int] == (n - 1) as usize);
            if all.contains(k as usize) {
                let j = choose|j: int| 0 <= j < all.len() && #[trigger] all[j] == k as usize;
                if j < rest.len() {
                    assert(all[j] == rest[j]);
                    assert(rest.contains(k as usize));
                }
            }
            if rest.contains(k as usize) {
                let j = choose|j: int| 0 <= j < rest.len() && #[trigger] rest[j] == k as usize;
                assert(all[j] == rest[j]);
            }
        } else {
            if rest.contains(k as usize) {
                let j = choose|j: int| 0 <= j < rest.len() && #[trigger] rest[j] == k as usize;
                assert(rest[j] < n - 1);
            }
        }
    }
}

proof fn lemma_positions_below<T, F: Fn(&T) -> bool>(items: Seq<T>, pred: F, n: int)
    requires
        0 <= n <= items.len(),
        items.len() <= usize::MAX,
    ensures
        forall|j: int| 0 <= j < positions_where(items, pred, n).len() ==> #[trigger] positions_where(items, pred, n)[j] < n,
    decreases n,
{
    if n > 0 {
        lemma_positions_below(items, pred, n - 1);
        let rest = positions_where(items, pred, n - 1);
        if pred.ensures((&items[n - 1],), true) {
            let all = rest.push((n - 1) as usize);
            assert forall|j: int| 0 <= j < all.len() implies #[trigger] all[j] < n by {
                if j < rest.len() {
                    assert(all[j] == rest[j]);
                }
            }
        }
    }
}

/// The identity sequence `0, 1, ..., n - 1`.
pub open spec fn identity_positions(n: nat) -> Seq<usize> {
    Seq::new(n, |i: int| i as usize)
}

/// The selection after moving one step forward with wraparound over `len`
/// visible entries.
pub open spec fn next_position(sel: Option<usize>, len: nat) -> Option<usize> {
    if len == 0 {
        sel
    } else {
        match sel {
            Some(i) => if i >= len - 1 { Some(0usize) } else { Some((i + 1) as usize) },
            None => Some(0usize),
        }
    }
}

/// The selection after moving one step backward with wraparound over `len`
/// visible entries.
pub open spec fn previous_position(sel: Option<usize>, len: nat) -> Option<usize> {
    if len == 0 {
        sel
    } else {
        match sel {
            Some(i) => if i == 0 { Some((len - 1) as usize) } else { Some((i - 1) as usize) },
            None => Some(0usize),
        }
    }
}

/// The selection kept after the visible list changed to `len` entries: an
/// in-bounds position stays, anything else falls back to the first entry,
/// or to nothing when the list is empty.
pub open spec fn clamped_position(sel: Option<usize>, len: nat) -> Option<usize> {
    match sel {
        Some(i) => if i < len { Some(i) } else if len == 0 { None } else { Some(0usize) },
        None => if len == 0 { None } else { Some(0usize) },
    }
}

/// A list that supports filtering while keeping one selected position.
pub struct FilteredList<T> {
    pub items: Vec<T>,
    /// Indices into `items` of the entries currently shown, in order.
    pub filtered_indices: Vec<usize>,
    /// Position within `filtered_indices` of the selected entry.
    pub selected: Option<usize>,
    pub filter: String,
}

impl<T> FilteredList<T> {
    /// Visible indices point into `items` in strictly increasing order, and a
    /// selection exists exactly when something is visible.
    pub open spec fn wf(&self) -> bool {
        &&& forall|k: int| 0 <= k < self.filtered_indices@.len()
            ==> #[trigger] self.filtered_indices@[k] < self.items@.len()
        &&& forall|j: int, k: int| 0 <= j < k < self.filtered_indices@.len()
            ==> #[trigger] self.filtered_indices@[j] < #[trigger] self.filtered_indices@[k]
        &&& match self.selected {
            Some(i) => i < self.filtered_indices@.len(),
            None => self.filtered_indices@.len() == 0,
        }
    }

    /// The index into `items` of the selected entry.
    pub open spec fn selected_item_index(&self) -> Option<usize> {
        match self.selected {
            Some(i) => Some(self.filtered_indices@[i as int]),
            None => None,
        }
    }

    pub fn new(items: Vec<T>) -> (r: Self)
        ensures
            r.wf(),
            r.items@ == items@,
            r.filtered_indices@ == identity_positions(items@.len()),
            r.selected == (if items@.len() == 0 { None } else { Some(0usize) }),
            r.filter@ == Seq::<char>::empty(),
    {
        let filtered_indices = identity_vec(items.len());
        let selected = if items.len() == 0 { None } else { Some(0usize) };
        FilteredList { items, filtered_indices, selected, filter: String::new() }
    }

    /// Replaces the contents and shows all of them; any filter is dropped.
    pub fn replace_all(&mut self, new_items: Vec<T>)
        ensures
            final(self).wf(),
            final(self).items@ == new_items@,
            final(self).filtered_indices@ == identity_positions(new_items@.len()),
            final(self).selected == (if new_items@.len() == 0 { None } else { Some(0usize) }),
            final(self).filter@ == Seq::<char>::empty(),
    {
        *self = FilteredList::new(new_items);
    }

    /// Shows exactly the items for which `predicate` holds, in their order.
    pub fn apply_filter<F: Fn(&T) -> bool>(&mut self, predicate: F)
        requires
            old(self).wf(),
            forall|t: &T| #[trigger] predicate.requires((t,)),
            answers_uniquely(predicate),
        ensures
            final(self).wf(),
            final(self).items == old(self).items,
            final(self).filter == old(self).filter,
            final(self).filtered_indices@ == positions_where(
                old(self).items@,
                predicate,
                old(self).items@.len() as int,
            ),
            final(self).selected == clamped_position(
                old(self).selected,
                final(self).filtered_indices@.len(),
            ),
            forall|k: int| 0 <= k < old(self).items@.len() ==> (#[trigger] final(self).filtered_indices@.contains(k as usize)
                <==> predicate.ensures((&old(self).items@[k],), true)),
            forall|k: int| 0 <= k < old(self).items@.len() ==> predicate.ensures(
                (&old(self).items@[k],),
                #[trigger] final(self).filtered_indices@.contains(k as usize),
            ),
    {
        let mut indices: Vec<usize> = Vec::new();
        let n = self.items.len();
        let mut i: usize = 0;
        while i < n
            invariant
                n == self.items@.len(),
                i <= n,
                forall|t: &T| #[trigger] predicate.requires((t,)),
                answers_uniquely(predicate),
                indices@ == positions_where(self.items@, predicate, i as int),
                forall|k: int| 0 <= k < i ==> predicate.ensures((&self.items@[k],), true)
                    || predicate.ensures((&self.items@[k],), false),
                forall|k: int| 0 <= k < indices@.len() ==> #[trigger] indices@[k] < i,
                forall|j: int, k: int| 0 <= j < k < indices@.len()
                    ==> #[trigger] indices@[j] < #[trigger] indices@[k],
            decreases n - i,
        {
            let keep = predicate(&self.items[i]);
            if keep {
                indices.push(i);
            }
            i = i + 1;
        }
        self.filtered_indices = indices;
        self.selected = clamp_selection(self.selected, self.filtered_indices.len());
        assert forall|k: int| 0 <= k < old(self).items@.len() implies (#[trigger] self.filtered_indices@.contains(k as usize)
            <==> predicate.ensures((&old(self).items@[k],), true)) by {
            lemma_positions_where_members(old(self).items@, predicate, n as int, k);
        }
        assert forall|k: int| 0 <= k < old(self).items@.len() implies predicate.ensures(
            (&old(self).items@[k],),
            #[trigger] self.filtered_indices@.contains(k as usize),
        ) by {
            lemma_positions_where_members(old(self).items@, predicate, n as int, k);
        }
    }

    /// Shows every item again; selects the first one if nothing was selected.
    pub fn clear_filter(&mut self)
        requires
            old(self).wf(),
        ensures
            final(self).wf(),
            final(self).items == old(self).items,
            final(self).filter@ == Seq::<char>::empty(),
            final(self).filtered_indices@ == identity_positions(old(self).items@.len()),
            final(self).filtered_indices@.len() == final(self).items@.len(),
            final(self).selected == clamped_position(
                old(self).selected,
                old(self).items@.len(),
            ),
    {
        self.filter = String::new();
        self.filtered_indices = identity_vec(self.items.len());
        self.selected = clamp_selection(self.selected, self.filtered_indices.len());
    }

    /// Moves the selection one entry down, wrapping to the top.
    pub fn next(&mut self)
        requires
            old(self).wf(),
        ensures
            final(self).wf(),
            final(self).items == old(self).items,
            final(self).filtered_indices == old(self).filtered_indices,
            final(self).filter == old(self).filter,
            final(self).selected == next_position(
                old(self).selected,
                old(self).filtered_indices@.len(),
            ),
    {
        let len = self.filtered_indices.len();
        if len == 0 {
            return;
        }
        let i = match self.selected {
            Some(i) => if i >= len - 1 { 0 } else { i + 1 },
            None => 0,
        };
        self.selected = Some(i);
    }

    /// Moves the selection one entry up, wrapping to the bottom.
    pub fn previous(&mut self)
        requires
            old(self).wf(),
        ensures
            final(self).wf(),
            final(self).items == old(self).items,
            final(self).filtered_indices == old(self).filtered_indices,
            final(self).filter == old(self).filter,
            final(self).selected == previous_position(
                old(self).selected,
                old(self).filtered_indices@.len(),
            ),
    {
        let len = self.filtered_indices.len();
        if len == 0 {
            return;
        }
        let i = match self.selected {
            Some(i) => if i == 0 { len - 1 } else { i - 1 },
            None => 0,
        };
        self.selected = Some(i);
    }

    /// The selected item.
    pub fn selected(&self) -> (r: Option<&T>)
        requires
            self.wf(),
        ensures
            r == (match self.selected_item_index() {
                Some(idx) => Some(&self.items@[idx as int]),
                None => None,
            }),
    {
        match self.selected {
            Some(i) => Some(&self.items[self.filtered_indices[i]]),
            None => None,
        }
    }

    /// The index into `items` of the selected entry.
    pub fn selected_index(&self) -> (r: Option<usize>)
        requires
            self.wf(),
        ensures
            r == self.selected_item_index(),
    {
        match self.selected {
            Some(i) => Some(self.filtered_indices[i]),
            None => None,
        }
    }

    /// The visible items, in order.
    pub fn filtered_items(&self) -> (r: Vec<&T>)
        requires
            self.wf(),
        ensures
            r@.len() == self.filtered_indices@.len(),
            forall|k: int| 0 <= k < r@.len()
                ==> *#[trigger] r@[k] == self.items@[self.filtered_indices@[k] as int],
    {
        let mut r: Vec<&T> = Vec::new();
        let mut k: usize = 0;
        while k < self.filtered_indices.len()
            invariant
                self.wf(),
                k <= self.filtered_indices@.len(),
                r@.len() == k,
                forall|j: int| 0 <= j < k
                    ==> *#[trigger] r@[j] == self.items@[self.filtered_indices@[j] as int],
            decreases self.filtered_indices@.len() - k,
        {
            r.push(&self.items[self.filtered_indices[k]]);
            k = k + 1;
        }
        r
    }

    /// Number of visible entries.
    pub fn len(&self) -> (r: usize)
        ensures
            r == self.filtered_indices@.len(),
    {
        self.filtered_indices.len()
    }

    pub fn is_empty(&self) -> (r: bool)
        ensures
            r == (self.filtered_indices@.len() == 0),
    {
        self.filtered_indices.len() == 0
    }

    /// Number of items, visible or not.
    pub fn total_len(&self) -> (r: usize)
        ensures
            r == self.items@.len(),
    {
        self.items.len()
    }
}

fn identity_vec(n: usize) -> (r: Vec<usize>)
    ensures
        r@ == identity_positions(n as nat),
{
    let mut r: Vec<usize> = Vec::new();
    let mut i: usize = 0;
    while i < n
        invariant
            i <= n,
            r@ == identity_positions(i as nat),
        decreases n - i,
    {
        r.push(i);
        i = i + 1;
        assert(r@ =~= identity_positions(i as nat));
    }
    r
}

fn clamp_selection(sel: Option<usize>, len: usize) -> (r: Option<usize>)
    ensures
        r == clamped_position(sel, len as nat),
{
    match sel {
        Some(i) => if i < len { Some(i) } else if len == 0 { None } else { Some(0) },
        None => if len == 0 { None } else { Some(0) },
    }
}

/// Moving forward then backward, or backward then forward, from a valid
/// position returns to that position.
pub proof fn lemma_navigation_round_trip(i: usize, len: nat)
    requires
        i < len,
        len <= usize::MAX,
    ensures
        previous_position(next_position(Some(i), len), len) == Some(i),
        next_position(previous_position(Some(i), len), len) == Some(i),
{
}

/// On a non-empty visible list a selection exists after any move, and on an
/// empty one none does.
pub proof fn lemma_navigation_keeps_selection(sel: Option<usize>, len: nat)
    requires
        len <= usize::MAX,
        match sel {
            Some(i) => i < len,
            None => len == 0,
        },
    ensures
        next_position(sel, len) is Some <==> len > 0,
        previous_position(sel, len) is Some <==> len > 0,
        match next_position(sel, len) {
            Some(i) => i < len,
            None => true,
        },
        match previous_position(sel, len) {
            Some(i) => i < len,
            None => true,
        },
{
}

} // verus!
