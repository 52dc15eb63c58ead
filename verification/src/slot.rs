//! The slot that holds the running model.
use crate::arithmetic::Arithmetic;
use crate::model::TernaryModel;
use std::sync::Arc;
use vstd::prelude::*;

verus! {

/// What a slot holds: the current model, and how often it was replaced.
pub struct SlotView<A: Arithmetic> {
    pub current: TernaryModel<A>,
    pub swaps: usize,
}

impl<A: Arithmetic> SlotView<A> {
    /// The slot after its model was replaced. The count starts over after `usize::MAX`.
    pub open spec fn swapped(self, new_model: TernaryModel<A>) -> SlotView<A> {
        SlotView { current: new_model, swaps: self.swaps.wrapping_add(1) }
    }

    /// The slot after its model was replaced by each of a sequence of models in turn.
    pub open spec fn swapped_all(self, models: Seq<TernaryModel<A>>) -> SlotView<A>
        decreases models.len(),
    {
        if models.len() == 0 {
            self
        } else {
            self.swapped_all(models.drop_last()).swapped(models.last())
        }
    }

    /// What each swap of a run evicts: the model that was current before it.
    pub open spec fn evictions(self, models: Seq<TernaryModel<A>>) -> Seq<TernaryModel<A>> {
        Seq::new(models.len(), |k: int| self.swapped_all(models.take(k)).current)
    }
}

/// A slot that holds the current model and lets it be replaced between batches.
///
/// A caller of [`HotswapSlot::load`] shares the model it got: a later swap changes what the
/// slot holds and not that model, which stays alive for as long as anyone holds it.
pub struct HotswapSlot<A: Arithmetic> {
    current: Arc<TernaryModel<A>>,
    swaps: usize,
}

impl<A: Arithmetic> View for HotswapSlot<A> {
    type V = SlotView<A>;

    closed spec fn view(&self) -> SlotView<A> {
        SlotView { current: *self.current, swaps: self.swaps }
    }
}

impl<A: Arithmetic> HotswapSlot<A> {
    /// A slot that holds a first model.
    pub fn new(initial: TernaryModel<A>) -> (s: Self)
        ensures
            s@ == (SlotView { current: initial, swaps: 0 }),
    {
        HotswapSlot { current: Arc::new(initial), swaps: 0 }
    }

    /// Replaces the current model. Returns the model that was there, for the caller to keep
    /// until the batches that run on it are done.
    pub fn swap(&mut self, new_model: TernaryModel<A>) -> (evicted: Arc<TernaryModel<A>>)
        ensures
            *evicted == old(self)@.current,
            final(self)@ == old(self)@.swapped(new_model),
    {
        let evicted = self.current.clone();
        self.current = Arc::new(new_model);
        self.swaps = self.swaps.wrapping_add(1);
        evicted
    }

    /// The current model, for one batch.
    pub fn load(&self) -> (model: Arc<TernaryModel<A>>)
        ensures
            *model == self@.current,
    {
        self.current.clone()
    }

    /// How often the model was replaced.
    pub fn swap_count(&self) -> (n: usize)
        ensures
            n == self@.swaps,
    {
        self.swaps
    }
}

/// After a run of swaps the slot holds the last model that went in, and the count has gone up
/// by the number of swaps, modulo the range of `usize`.
pub proof fn law_swaps_are_counted<A: Arithmetic>(
    slot: SlotView<A>,
    models: Seq<TernaryModel<A>>,
)
    ensures
        slot.swapped_all(models).current == (if models.len() == 0 {
            slot.current
        } else {
            models.last()
        }),
        slot.swapped_all(models).swaps == (slot.swaps + models.len()) % (usize::MAX + 1),
    decreases models.len(),
{
    let range = usize::MAX + 1;
    if models.len() == 0 {
        vstd::arithmetic::div_mod::lemma_small_mod(slot.swaps as nat, range as nat);
    } else {
        law_swaps_are_counted(slot, models.drop_last());
        let before = slot.swaps + models.len() - 1;
        let wrapped = before % range;
        vstd::arithmetic::div_mod::lemma_add_mod_noop(before, 1, range);
        vstd::arithmetic::div_mod::lemma_small_mod(1, range as nat);
        if wrapped + 1 < range {
            vstd::arithmetic::div_mod::lemma_small_mod((wrapped + 1) as nat, range as nat);
        } else {
            vstd::arithmetic::div_mod::lemma_mod_self_0(range);
        }
    }
}

/// Each swap of a run evicts the model that the swap before it put in, and the first evicts
/// the model that was there: no model is lost and none is evicted twice.
pub proof fn law_swap_evicts_predecessor<A: Arithmetic>(
    slot: SlotView<A>,
    models: Seq<TernaryModel<A>>,
    k: int,
)
    requires
        0 <= k < models.len(),
    ensures
        slot.swapped_all(models.take(k)).current == (if k == 0 {
            slot.current
        } else {
            models[k - 1]
        }),
        slot.swapped_all(models.take(k)).swapped(models[k]) == slot.swapped_all(models.take(k + 1)),
{
    law_swaps_are_counted(slot, models.take(k));
    assert(models.take(k + 1).drop_last() == models.take(k));
}

/// No model is lost and none comes back twice: what a run of swaps evicts, followed by what the
/// slot then holds, is the model that was there followed by the models that went in. Swaps
/// that threads make one at a time are such a run, in whatever order they come.
pub proof fn law_swaps_lose_no_model<A: Arithmetic>(
    slot: SlotView<A>,
    models: Seq<TernaryModel<A>>,
)
    ensures
        slot.evictions(models).push(slot.swapped_all(models).current) == seq![slot.current]
            + models,
{
    let out = slot.evictions(models).push(slot.swapped_all(models).current);
    let all = seq![slot.current] + models;
    assert forall|k: int| 0 <= k < out.len() implies out[k] == all[k] by {
        if k < models.len() {
            law_swap_evicts_predecessor(slot, models, k);
        } else {
            law_swaps_are_counted(slot, models);
        }
    }
    assert(out == all);
}

/// A swap puts the given model in, whatever was there and whatever its version, and counts one:
/// the count is one more, or starts over after `usize::MAX`.
pub proof fn law_swap_puts_model_in<A: Arithmetic>(slot: SlotView<A>, new_model: TernaryModel<A>)
    ensures
        slot.swapped(new_model).current == new_model,
        slot.swaps < usize::MAX ==> slot.swapped(new_model).swaps == slot.swaps + 1,
        slot.swaps == usize::MAX ==> slot.swapped(new_model).swaps == 0,
{
}

/// A new slot gives out the model it was made with and has counted no swap.
pub proof fn law_new_slot_serves_initial<A: Arithmetic>(
    initial: TernaryModel<A>,
    slot: HotswapSlot<A>,
    loaded: Arc<TernaryModel<A>>,
    swaps: usize,
)
    requires
        call_ensures(HotswapSlot::<A>::new, (initial,), slot),
        call_ensures(HotswapSlot::<A>::load, (&slot,), loaded),
        call_ensures(HotswapSlot::<A>::swap_count, (&slot,), swaps),
    ensures
        *loaded == initial,
        swaps == 0,
{
}

} // verus!
