use vstd::prelude::*;

verus! {

/// The indices `i` with `flags[i]`, in increasing order: the items that
/// keyboard focus may land on.
pub open spec fn enabled_positions(flags: Seq<bool>) -> Seq<int>
    decreases flags.len(),
{
    if flags.len() == 0 {
        Seq::empty()
    } else {
        let prev = enabled_positions(flags.drop_last());
        if flags.last() {
            prev.push(flags.len() - 1)
        } else {
            prev
        }
    }
}

/// The first place `k` with `positions[k] == target`, if any.
pub open spec fn index_in(positions: Seq<int>, target: int) -> Option<int>
    decreases positions.len(),
{
    if positions.len() == 0 {
        None
    } else {
        match index_in(positions.drop_last(), target) {
            Some(k) => Some(k),
            None => if positions.last() == target {
                Some(positions.len() - 1)
            } else {
                None
            },
        }
    }
}

/// One step of cyclic keyboard navigation over `n` places: forward wraps from
/// the last place to the first, backward from the first to the last; with no
/// current place, forward starts at the first and backward at the last.
pub open spec fn cycle_step(n: int, current: Option<int>, backwards: bool) -> int {
    match current {
        Some(k) => if backwards {
            if k == 0 { n - 1 } else { k - 1 }
        } else {
            (k + 1) % n
        },
        None => if backwards { n - 1 } else { 0 },
    }
}

/// Where focus goes when it moves one step among the enabled items.
pub open spec fn spec_move_focus(flags: Seq<bool>, focused: Option<usize>, backwards: bool) -> Option<usize> {
    let positions = enabled_positions(flags);
    if positions.len() == 0 {
        None
    } else {
        let current = match focused {
            Some(f) => index_in(positions, f as int),
            None => None,
        };
        Some(positions[cycle_step(positions.len() as int, current, backwards)] as usize)
    }
}

/// The first enabled item, if any.
pub open spec fn spec_first_enabled(flags: Seq<bool>) -> Option<usize> {
    let positions = enabled_positions(flags);
    if positions.len() == 0 { None } else { Some(positions[0] as usize) }
}

/// The last enabled item, if any.
pub open spec fn spec_last_enabled(flags: Seq<bool>) -> Option<usize> {
    let positions = enabled_positions(flags);
    if positions.len() == 0 { None } else { Some(positions.last() as usize) }
}

pub proof fn lemma_enabled_positions(flags: Seq<bool>)
    ensures
        enabled_positions(flags).len() <= flags.len(),
        forall|k: int|
            0 <= k < enabled_positions(flags).len() ==> 0 <= #[trigger] enabled_positions(flags)[k] < flags.len()
                && flags[enabled_positions(flags)[k]],
        forall|k1: int, k2: int|
            0 <= k1 < k2 < enabled_positions(flags).len() ==> enabled_positions(flags)[k1] < enabled_positions(flags)[k2],
        forall|i: int| 0 <= i < flags.len() && flags[i] ==> index_in(enabled_positions(flags), i) is Some,
    decreases flags.len(),
{
    if flags.len() > 0 {
        let init = flags.drop_last();
        lemma_enabled_positions(init);
        if flags.last() {
            assert(enabled_positions(flags).drop_last() =~= enabled_positions(init));
        }
        assert forall|i: int| 0 <= i < flags.len() && flags[i] implies index_in(enabled_positions(flags), i) is Some by {
            if i < flags.len() - 1 {
                assert(init[i] == flags[i]);
                assert(index_in(enabled_positions(init), i) is Some);
            }
        }
        assert forall|k: int|
            0 <= k < enabled_positions(flags).len() implies 0 <= #[trigger] enabled_positions(flags)[k] < flags.len()
                && flags[enabled_positions(flags)[k]] by {
            if k < enabled_positions(init).len() {
                assert(init[enabled_positions(init)[k]] == flags[enabled_positions(init)[k]]);
            }
        }
    }
}

/// In a strictly increasing sequence every value is found at its own place.
pub proof fn lemma_index_in_increasing(positions: Seq<int>, k: int)
    requires
        0 <= k < positions.len(),
        forall|k1: int, k2: int| 0 <= k1 < k2 < positions.len() ==> positions[k1] < positions[k2],
    ensures
        index_in(positions, positions[k]) == Some(k),
    decreases positions.len(),
{
    let init = positions.drop_last();
    if k < positions.len() - 1 {
        lemma_index_in_increasing(init, k);
    } else {
        lemma_index_in_absent(init, positions[k]);
    }
}

pub proof fn lemma_index_in_absent(positions: Seq<int>, target: int)
    requires
        forall|k: int| 0 <= k < positions.len() ==> positions[k] < target,
    ensures
        index_in(positions, target) is None,
    decreases positions.len(),
{
    if positions.len() > 0 {
        lemma_index_in_absent(positions.drop_last(), target);
    }
}

pub proof fn lemma_index_in_range(positions: Seq<int>, target: int)
    ensures
        index_in(positions, target) matches Some(k) ==> 0 <= k < positions.len() && positions[k] == target,
    decreases positions.len(),
{
    if positions.len() > 0 {
        lemma_index_in_range(positions.drop_last(), target);
    }
}

/// Focus that moves always lands on an enabled item, and it moves
/// nowhere only when no item is enabled.
pub proof fn lemma_move_focus_lands_on_enabled(flags: Seq<bool>, focused: Option<usize>, backwards: bool)
    requires
        flags.len() <= usize::MAX,
    ensures
        spec_move_focus(flags, focused, backwards) matches Some(r) ==> r < flags.len() && flags[r as int],
        spec_move_focus(flags, focused, backwards) is None <==> (forall|i: int| 0 <= i < flags.len() ==> !flags[i]),
{
    lemma_enabled_positions(flags);
    let positions = enabled_positions(flags);
    if positions.len() > 0 {
        let current = match focused {
            Some(f) => index_in(positions, f as int),
            None => None,
        };
        if let Some(f) = focused {
            lemma_index_in_range(positions, f as int);
        }
        let k = cycle_step(positions.len() as int, current, backwards);
        assert(0 <= k < positions.len());
        assert(0 <= positions[k]);
        assert(flags[positions[k]]);
        assert(!(forall|i: int| 0 <= i < flags.len() ==> !flags[i]));
    } else {
        assert forall|i: int| 0 <= i < flags.len() implies !flags[i] by {
            if flags[i] {
                assert(index_in(positions, i) is Some);
            }
        }
    }
}

/// From an enabled item, one step forward and one step back return to it,
/// and so do one step back and one step forward.
pub proof fn lemma_move_focus_round_trip(flags: Seq<bool>, focused: usize)
    requires
        flags.len() <= usize::MAX,
        focused < flags.len(),
        flags[focused as int],
    ensures
        spec_move_focus(flags, spec_move_focus(flags, Some(focused), false), true) == Some(focused),
        spec_move_focus(flags, spec_move_focus(flags, Some(focused), true), false) == Some(focused),
{
    lemma_enabled_positions(flags);
    let positions = enabled_positions(flags);
    let n = positions.len() as int;
    lemma_index_in_range(positions, focused as int);
    let k = index_in(positions, focused as int)->0;
    let fwd = cycle_step(n, Some(k), false);
    let back = cycle_step(n, Some(k), true);
    lemma_index_in_increasing(positions, fwd);
    lemma_index_in_increasing(positions, back);
    assert(positions[fwd] as usize as int == positions[fwd]);
    assert(positions[back] as usize as int == positions[back]);
    assert(0 <= k < n);
    assert((k + 1) % n == if k + 1 == n { 0 } else { k + 1 }) by (nonlinear_arith)
        requires 0 <= k < n;
    assert(cycle_step(n, Some(fwd), true) == k);
    assert(0 <= back < n);
    assert((back + 1) % n == if back + 1 == n { 0 } else { back + 1 }) by (nonlinear_arith)
        requires 0 <= back < n;
    assert(cycle_step(n, Some(back), false) == k);
}

/// The enabled places of `flags`, in increasing order.
pub fn collect_enabled(flags: &Vec<bool>) -> (positions: Vec<usize>)
    ensures
        positions@.len() == enabled_positions(flags@).len(),
        forall|k: int| 0 <= k < positions@.len() ==> positions@[k] as int == enabled_positions(flags@)[k],
{
    let mut positions: Vec<usize> = Vec::new();
    let mut i: usize = 0;
    while i < flags.len()
        invariant
            i <= flags.len(),
            positions@.len() == enabled_positions(flags@.take(i as int)).len(),
            forall|k: int| 0 <= k < positions@.len() ==> positions@[k] as int == enabled_positions(flags@.take(i as int))[k],
        decreases flags.len() - i,
    {
        assert(flags@.take(i as int + 1).drop_last() =~= flags@.take(i as int));
        if flags[i] {
            positions.push(i);
        }
        i += 1;
    }
    assert(flags@.take(flags@.len() as int) =~= flags@);
    positions
}

/// The place of `target` among `positions`, if it is there.
pub fn find_position(positions: &Vec<usize>, target: usize) -> (k: Option<usize>)
    ensures
        k matches Some(k) ==> Some(k as int) == index_in(positions@.map_values(|p: usize| p as int), target as int),
        k is None ==> index_in(positions@.map_values(|p: usize| p as int), target as int) is None,
{
    let ghost all = positions@.map_values(|p: usize| p as int);
    let mut i: usize = 0;
    while i < positions.len()
        invariant
            i <= positions.len(),
            all == positions@.map_values(|p: usize| p as int),
            index_in(all.take(i as int), target as int) is None,
        decreases positions.len() - i,
    {
        assert(all.take(i as int + 1).drop_last() =~= all.take(i as int));
        if positions[i] == target {
            proof {
                lemma_index_in_prefix(all, i as int + 1, target as int);
            }
            return Some(i);
        }
        i += 1;
    }
    assert(all.take(all.len() as int) =~= all);
    None
}

/// The first occurrence found in a prefix is the first occurrence overall.
pub proof fn lemma_index_in_prefix(positions: Seq<int>, n: int, target: int)
    requires
        0 <= n <= positions.len(),
        index_in(positions.take(n), target) is Some,
    ensures
        index_in(positions, target) == index_in(positions.take(n), target),
    decreases positions.len(),
{
    if n < positions.len() {
        let init = positions.drop_last();
        assert(init.take(n) =~= positions.take(n));
        lemma_index_in_prefix(init, n, target);
    } else {
        assert(positions.take(n) =~= positions);
    }
}

/// One step of cyclic navigation over `n` places.
pub fn step_cyclic(n: usize, current: Option<usize>, backwards: bool) -> (next: usize)
    requires
        n > 0,
        current matches Some(k) ==> k < n,
    ensures
        next as int == cycle_step(n as int, match current { Some(k) => Some(k as int), None => None }, backwards),
        next < n,
{
    match current {
        Some(k) => if backwards {
            if k == 0 { n - 1 } else { k - 1 }
        } else {
            (k + 1) % n
        },
        None => if backwards { n - 1 } else { 0 },
    }
}

/// Moves keyboard focus one step among the enabled items, wrapping at the ends.
pub fn next_focus(flags: &Vec<bool>, focused: Option<usize>, backwards: bool) -> (next: Option<usize>)
    ensures
        next == spec_move_focus(flags@, focused, backwards),
{
    let positions = collect_enabled(flags);
    let ghost spec_positions = enabled_positions(flags@);
    assert(positions@.map_values(|p: usize| p as int) =~= spec_positions);
    if positions.len() == 0 {
        return None;
    }
    let current = match focused {
        Some(f) => find_position(&positions, f),
        None => None,
    };
    proof {
        if let Some(f) = focused {
            lemma_index_in_range(spec_positions, f as int);
        }
    }
    let k = step_cyclic(positions.len(), current, backwards);
    Some(positions[k])
}

/// The first enabled item.
pub fn first_enabled(flags: &Vec<bool>) -> (first: Option<usize>)
    ensures
        first == spec_first_enabled(flags@),
{
    let mut i: usize = 0;
    while i < flags.len()
        invariant
            i <= flags.len(),
            enabled_positions(flags@.take(i as int)).len() == 0,
        decreases flags.len() - i,
    {
        assert(flags@.take(i as int + 1).drop_last() =~= flags@.take(i as int));
        if flags[i] {
            proof {
                lemma_enabled_positions_prefix(flags@, i as int + 1);
                assert(enabled_positions(flags@.take(i as int + 1)) =~= enabled_positions(flags@.take(i as int)).push(i as int));
                assert(enabled_positions(flags@.take(i as int + 1))[0] == i as int);
                assert(enabled_positions(flags@)[0] == i as int);
            }
            return Some(i);
        }
        i += 1;
    }
    assert(flags@.take(flags@.len() as int) =~= flags@);
    None
}

/// The enabled places of a prefix are a prefix of the enabled places.
pub proof fn lemma_enabled_positions_prefix(flags: Seq<bool>, n: int)
    requires
        0 <= n <= flags.len(),
    ensures
        enabled_positions(flags.take(n)).len() <= enabled_positions(flags).len(),
        forall|k: int| 0 <= k < enabled_positions(flags.take(n)).len()
            ==> #[trigger] enabled_positions(flags.take(n))[k] == enabled_positions(flags)[k],
    decreases flags.len(),
{
    if n < flags.len() {
        let init = flags.drop_last();
        assert(init.take(n) =~= flags.take(n));
        lemma_enabled_positions_prefix(init, n);
    } else {
        assert(flags.take(n) =~= flags);
    }
}

/// The last enabled item.
pub fn last_enabled(flags: &Vec<bool>) -> (last: Option<usize>)
    ensures
        last == spec_last_enabled(flags@),
{
    let mut i: usize = flags.len();
    while i > 0
        invariant
            i <= flags.len(),
            forall|j: int| i <= j < flags.len() ==> !flags@[j],
        decreases i,
    {
        if flags[i - 1] {
            proof {
                lemma_last_enabled_at(flags@, i as int - 1);
            }
            return Some(i - 1);
        }
        i -= 1;
    }
    proof {
        lemma_last_enabled_at_none(flags@);
    }
    None
}

pub proof fn lemma_last_enabled_at(flags: Seq<bool>, i: int)
    requires
        0 <= i < flags.len(),
        flags[i],
        forall|j: int| i < j < flags.len() ==> !flags[j],
    ensures
        enabled_positions(flags).len() > 0,
        enabled_positions(flags).last() == i,
    decreases flags.len(),
{
    if i < flags.len() - 1 {
        lemma_last_enabled_at(flags.drop_last(), i);
    }
}

pub proof fn lemma_last_enabled_at_none(flags: Seq<bool>)
    requires
        forall|j: int| 0 <= j < flags.len() ==> !flags[j],
    ensures
        enabled_positions(flags).len() == 0,
    decreases flags.len(),
{
    if flags.len() > 0 {
        lemma_last_enabled_at_none(flags.drop_last());
    }
}

} // verus!
