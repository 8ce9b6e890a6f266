//! Fields in declaration order, grouped into runs of regular fields and
//! single nested fields, and the chain of helper macros that collects the
//! variants of a struct with nested fields.

use vstd::prelude::*;

use crate::common::DeriveVariant;
use crate::text::{decimal, push_decimal};

verus! {

/// One field in declaration order: a regular field, or a nested one.
pub enum SlotItem<R, N> {
    Regular(R),
    Nested(N),
}

/// A run of consecutive regular fields, or a single nested field.
pub enum Slot<R, N> {
    Regular(Vec<R>),
    Nested(N),
}

/// A run of regular fields, field by field.
pub open spec fn regulars<R, N>(run: Seq<R>) -> Seq<SlotItem<R, N>> {
    run.map_values(|r: R| SlotItem::Regular(r))
}

proof fn lemma_regulars_push<R, N>(run: Seq<R>, r: R)
    ensures
        regulars::<R, N>(run.push(r)) == regulars::<R, N>(run).push(SlotItem::Regular(r)),
{
    assert(regulars::<R, N>(run.push(r)) =~= regulars::<R, N>(run).push(SlotItem::Regular(r)));
}

/// The fields a slot stands for, in order.
pub open spec fn slot_items<R, N>(s: Slot<R, N>) -> Seq<SlotItem<R, N>> {
    match s {
        Slot::Regular(v) => regulars(v@),
        Slot::Nested(n) => seq![SlotItem::Nested(n)],
    }
}

/// The fields the slots stand for, in order.
#[verifier::opaque]
pub open spec fn flatten<R, N>(slots: Seq<Slot<R, N>>) -> Seq<SlotItem<R, N>>
    decreases slots.len(),
{
    if slots.len() == 0 {
        Seq::empty()
    } else {
        flatten(slots.drop_last()) + slot_items(slots.last())
    }
}

/// Every run is non-empty and no two runs are adjacent: consecutive regular
/// fields always share one slot.
pub open spec fn slots_wf<R, N>(slots: Seq<Slot<R, N>>) -> bool {
    &&& forall|i: int|
        0 <= i < slots.len() ==> (#[trigger] slots[i] matches Slot::Regular(v) ==> v.len() > 0)
    &&& forall|i: int|
        0 <= i < slots.len() - 1 ==> !(#[trigger] slots[i] is Regular && slots[i + 1] is Regular)
}

/// The slots, each by the fields it stands for.
pub open spec fn slots_items<R, N>(slots: Seq<Slot<R, N>>) -> Seq<Seq<SlotItem<R, N>>> {
    slots.map_values(|s: Slot<R, N>| slot_items(s))
}

proof fn lemma_flatten_push<R, N>(slots: Seq<Slot<R, N>>, s: Slot<R, N>)
    ensures
        flatten(slots.push(s)) == flatten(slots) + slot_items(s),
{
    reveal(flatten);
    assert(slots.push(s).drop_last() =~= slots);
}

/// No slots stand for no fields.
pub proof fn lemma_flatten_len_zero<R, N>(slots: Seq<Slot<R, N>>)
    ensures
        slots.len() == 0 ==> flatten(slots).len() == 0,
{
    reveal(flatten);
}

/// A single slot stands for its own fields.
pub proof fn lemma_flatten_one<R, N>(s: Slot<R, N>)
    ensures
        flatten(seq![s]) == slot_items(s),
{
    reveal(flatten);
    assert(seq![s].drop_last() =~= Seq::<Slot<R, N>>::empty());
    assert(flatten(Seq::<Slot<R, N>>::empty()) =~= Seq::<SlotItem<R, N>>::empty());
    assert(flatten(seq![s]) =~= slot_items(s));
}

/// A nested slot stands for a nested field among the fields of the slots.
pub proof fn lemma_flatten_has_nested<R, N>(slots: Seq<Slot<R, N>>, i: int)
    requires
        0 <= i < slots.len(),
        slots[i] is Nested,
    ensures
        exists|k: int| 0 <= k < flatten(slots).len() && #[trigger] flatten(slots)[k] is Nested,
    decreases slots.len(),
{
    reveal(flatten);
    let init = slots.drop_last();
    if i == slots.len() - 1 {
        let k = flatten(init).len() as int;
        assert(flatten(slots) == flatten(init) + slot_items(slots.last()));
        assert(flatten(slots)[k] == slot_items(slots.last())[0]);
    } else {
        assert(init[i] == slots[i]);
        lemma_flatten_has_nested(init, i);
        let k = choose|k: int| 0 <= k < flatten(init).len() && #[trigger] flatten(init)[k] is Nested;
        assert(flatten(slots) == flatten(init) + slot_items(slots.last()));
        assert(flatten(slots)[k] == flatten(init)[k]);
    }
}

proof fn lemma_flatten_empty<R, N>()
    ensures
        flatten(Seq::<Slot<R, N>>::empty()) == Seq::<SlotItem<R, N>>::empty(),
{
    reveal(flatten);
}

proof fn lemma_wf_push<R, N>(slots: Seq<Slot<R, N>>, s: Slot<R, N>)
    requires
        slots_wf(slots),
        s matches Slot::Regular(v) ==> v.len() > 0 && (slots.len() == 0 || slots.last() is Nested),
    ensures
        slots_wf(slots.push(s)),
{
    let t = slots.push(s);
    assert forall|i: int| 0 <= i < t.len() implies (#[trigger] t[i] matches Slot::Regular(v) ==> v.len()
        > 0) by {
        if i < slots.len() {
            assert(t[i] == slots[i]);
        }
    }
    assert forall|i: int| 0 <= i < t.len() - 1 implies !(#[trigger] t[i] is Regular && t[i + 1] is Regular) by {
        assert(t[i] == slots[i]);
        if i + 1 < slots.len() {
            assert(t[i + 1] == slots[i + 1]);
        }
    }
}

/// The fields so far are grouped into `slots` and an open run of regular
/// fields that may still grow.
pub open spec fn grouping_open<R, N>(slots: Seq<Slot<R, N>>, run: Seq<R>) -> bool {
    &&& slots_wf(slots)
    &&& slots.len() == 0 || slots.last() is Nested
}

fn add_regular<R, N>(slots: &Vec<Slot<R, N>>, run: &mut Vec<R>, r: R)
    requires
        grouping_open(slots@, old(run)@),
    ensures
        grouping_open(slots@, final(run)@),
        flatten(slots@) + regulars::<R, N>(final(run)@) == (flatten(slots@) + regulars::<R, N>(
            old(run)@,
        )).push(SlotItem::Regular(r)),
{
    let ghost before = run@;
    run.push(r);
    proof {
        lemma_regulars_push::<R, N>(before, r);
        assert(flatten(slots@) + regulars::<R, N>(run@) =~= (flatten(slots@) + regulars::<R, N>(
            before,
        )).push(SlotItem::Regular(r)));
    }
}

fn add_nested<R, N>(slots: &mut Vec<Slot<R, N>>, run: &mut Vec<R>, n: N)
    requires
        grouping_open(old(slots)@, old(run)@),
    ensures
        grouping_open(final(slots)@, final(run)@),
        final(run)@.len() == 0,
        flatten(final(slots)@) == (flatten(old(slots)@) + regulars::<R, N>(old(run)@)).push(
            SlotItem::Nested(n),
        ),
{
    if run.len() > 0 {
        let ghost before = slots@;
        let mut full: Vec<R> = Vec::new();
        std::mem::swap(&mut full, run);
        slots.push(Slot::Regular(full));
        proof {
            lemma_flatten_push(before, Slot::Regular(full));
            lemma_wf_push(before, Slot::Regular(full));
        }
    } else {
        assert(regulars::<R, N>(run@) =~= Seq::<SlotItem<R, N>>::empty());
        assert(flatten(slots@) + regulars::<R, N>(run@) =~= flatten(slots@));
    }
    let ghost before = slots@;
    slots.push(Slot::Nested(n));
    proof {
        lemma_flatten_push(before, Slot::Nested(n));
        lemma_wf_push(before, Slot::<R, N>::Nested(n));
    }
}

/// Groups the fields, in declaration order, into slots: each maximal run of
/// regular fields becomes one slot, each nested field a slot of its own.
pub fn group_slots<R, N>(items: Vec<SlotItem<R, N>>) -> (r: Vec<Slot<R, N>>)
    ensures
        slots_wf(r@),
        flatten(r@) == items@,
{
    let ghost orig = items@;
    let mut items = items;
    let mut slots: Vec<Slot<R, N>> = Vec::new();
    let mut run: Vec<R> = Vec::new();
    let ghost mut done: int = 0;
    proof {
        lemma_flatten_empty::<R, N>();
        assert(flatten(slots@) + regulars::<R, N>(run@) =~= orig.take(0));
        assert(orig.skip(0) =~= orig);
    }
    while items.len() > 0
        invariant
            0 <= done <= orig.len(),
            items@ == orig.skip(done),
            flatten(slots@) + regulars::<R, N>(run@) == orig.take(done),
            grouping_open(slots@, run@),
        decreases items.len(),
    {
        let item = items.remove(0);
        proof {
            assert(orig.skip(done)[0] == item);
            assert(items@ =~= orig.skip(done + 1));
            assert(orig.take(done + 1) =~= orig.take(done).push(item));
        }
        match item {
            SlotItem::Regular(r) => add_regular(&slots, &mut run, r),
            SlotItem::Nested(n) => {
                add_nested(&mut slots, &mut run, n);
                assert(regulars::<R, N>(run@) =~= Seq::<SlotItem<R, N>>::empty());
                assert(flatten(slots@) + regulars::<R, N>(run@) =~= flatten(slots@));
            },
        }
        proof {
            done = done + 1;
        }
    }
    if run.len() > 0 {
        let ghost before = slots@;
        slots.push(Slot::Regular(run));
        proof {
            lemma_flatten_push(before, Slot::Regular(run));
            lemma_wf_push(before, Slot::<R, N>::Regular(run));
        }
    } else {
        assert(regulars::<R, N>(run@) =~= Seq::<SlotItem<R, N>>::empty());
        assert(flatten(slots@) =~= flatten(slots@) + regulars::<R, N>(run@));
    }
    assert(orig.take(orig.len() as int) =~= orig);
    slots
}

// ---------------------------------------------------------------- copies

/// A value that can be copied exactly.
pub trait Duplicate: Sized {
    fn duplicate(&self) -> (r: Self)
        ensures
            r == *self,
    ;
}

impl Duplicate for String {
    fn duplicate(&self) -> (r: String) {
        self.clone()
    }
}

/// A copy of the vector, element by element.
pub fn duplicate_vec<R: Duplicate>(v: &Vec<R>) -> (r: Vec<R>)
    ensures
        r@ == v@,
{
    let mut out: Vec<R> = Vec::new();
    let mut i: usize = 0;
    while i < v.len()
        invariant
            i <= v@.len(),
            out@ == v@.take(i as int),
        decreases v@.len() - i,
    {
        out.push(v[i].duplicate());
        assert(out@ =~= v@.take(i + 1));
        i = i + 1;
    }
    assert(v@.take(v@.len() as int) =~= v@);
    out
}

/// A copy of the slots: each slot of the same kind, standing for the same
/// fields.
pub fn duplicate_slots<R: Duplicate, N: Duplicate>(slots: &Vec<Slot<R, N>>) -> (r: Vec<Slot<R, N>>)
    ensures
        r@.len() == slots@.len(),
        forall|i: int|
            0 <= i < r@.len() ==> #[trigger] slot_items(r@[i]) == slot_items(slots@[i]) && (
            r@[i] is Regular <==> slots@[i] is Regular),
{
    let mut out: Vec<Slot<R, N>> = Vec::new();
    let mut i: usize = 0;
    while i < slots.len()
        invariant
            i <= slots@.len(),
            out@.len() == i,
            forall|j: int|
                0 <= j < i ==> #[trigger] slot_items(out@[j]) == slot_items(slots@[j]) && (
                out@[j] is Regular <==> slots@[j] is Regular),
        decreases slots@.len() - i,
    {
        let copy = match &slots[i] {
            Slot::Regular(v) => Slot::Regular(duplicate_vec(v)),
            Slot::Nested(n) => Slot::Nested(n.duplicate()),
        };
        assert(slot_items(copy) == slot_items(slots@[i as int]));
        let ghost before = out@;
        out.push(copy);
        assert forall|j: int| 0 <= j < i + 1 implies #[trigger] slot_items(out@[j]) == slot_items(
            slots@[j],
        ) && (out@[j] is Regular <==> slots@[j] is Regular) by {
            if j < i {
                assert(out@[j] == before[j]);
            } else {
                assert(out@[j] == copy);
            }
        }
        i = i + 1;
    }
    out
}

// ---------------------------------------------------------------- macro names

/// The part of the helper macros' names that tells the derive.
pub open spec fn derive_tag(d: DeriveVariant) -> Seq<char> {
    match d {
        DeriveVariant::Name => "_field_name"@,
        DeriveVariant::Type => "_field_type"@,
    }
}

/// The exported macro through which a struct hands its variants to a
/// struct that nests it: `__{snake}_field_name_variants` (or `_field_type_`).
pub open spec fn helper_macro_name(snake: Seq<char>, d: DeriveVariant) -> Seq<char> {
    "__"@ + snake + derive_tag(d) + "_variants"@
}

/// The macro that builds the enum once all variants are collected.
pub open spec fn builder_macro_name(snake: Seq<char>, d: DeriveVariant) -> Seq<char> {
    "__"@ + snake + derive_tag(d) + "_build"@
}

/// The macro for the `i`-th slot of the chain.
pub open spec fn step_macro_name(snake: Seq<char>, d: DeriveVariant, i: nat) -> Seq<char> {
    "__"@ + snake + derive_tag(d) + "_step_"@ + decimal(i)
}

fn derive_tag_str(d: DeriveVariant) -> (r: &'static str)
    ensures
        r@ == derive_tag(d),
{
    match d {
        DeriveVariant::Name => "_field_name",
        DeriveVariant::Type => "_field_type",
    }
}

fn macro_prefix(type_snake: &str, d: DeriveVariant) -> (r: String)
    ensures
        r@ == "__"@ + type_snake@ + derive_tag(d),
{
    let mut s = String::from_str("__");
    s.append(type_snake);
    s.append(derive_tag_str(d));
    s
}

/// The name of the helper macro a struct exports (`get_helper_macro_name`).
pub fn get_helper_macro_name(type_snake: &str, derive: DeriveVariant) -> (r: String)
    ensures
        r@ == helper_macro_name(type_snake@, derive),
{
    let mut s = macro_prefix(type_snake, derive);
    s.append("_variants");
    s
}

/// The name of the builder macro.
pub fn get_builder_macro_name(type_snake: &str, derive: DeriveVariant) -> (r: String)
    ensures
        r@ == builder_macro_name(type_snake@, derive),
{
    let mut s = macro_prefix(type_snake, derive);
    s.append("_build");
    s
}

/// The name of the `i`-th step macro.
pub fn get_step_macro_name(type_snake: &str, derive: DeriveVariant, i: usize) -> (r: String)
    ensures
        r@ == step_macro_name(type_snake@, derive, i as nat),
{
    let mut s = macro_prefix(type_snake, derive);
    s.append("_step_");
    push_decimal(&mut s, i);
    s
}

// ---------------------------------------------------------------- the step chain

/// One macro of the chain: it adds the fields of its slot to what was
/// collected (for a nested slot, by calling the nested struct's helper macro)
/// and passes everything on to the next step, or, on the last step, to the
/// macro it was called with.
pub struct StepMacro<R, N> {
    pub name: String,
    pub slot: Slot<R, N>,
    pub next: Option<String>,
}

/// `steps` is the chain for `slots`: one step per slot, named by its
/// position, each passing on to the one after it and the last to the caller.
pub open spec fn steps_chain<R, N>(
    steps: Seq<StepMacro<R, N>>,
    slots: Seq<Slot<R, N>>,
    snake: Seq<char>,
    d: DeriveVariant,
) -> bool {
    &&& steps.len() == slots.len()
    &&& forall|i: int|
        0 <= i < steps.len() ==> {
            &&& (#[trigger] steps[i]).name@ == step_macro_name(snake, d, i as nat)
            &&& slot_items(steps[i].slot) == slot_items(slots[i])
            &&& (steps[i].slot is Regular <==> slots[i] is Regular)
            &&& if i + 1 < steps.len() {
                steps[i].next matches Some(n) && n@ == step_macro_name(snake, d, (i + 1) as nat)
            } else {
                steps[i].next is None
            }
        }
}

/// The chain of step macros for `slots`.
pub fn plan_steps<R, N>(slots: Vec<Slot<R, N>>, type_snake: &str, derive: DeriveVariant) -> (r: Vec<
    StepMacro<R, N>,
>)
    ensures
        steps_chain(r@, slots@, type_snake@, derive),
{
    let ghost orig = slots@;
    let n = slots.len();
    let mut slots = slots;
    let mut steps: Vec<StepMacro<R, N>> = Vec::new();
    let mut i: usize = 0;
    while i < n
        invariant
            n == orig.len(),
            i <= n,
            slots@ == orig.skip(i as int),
            steps@.len() == i,
            forall|j: int|
                0 <= j < i ==> {
                    &&& (#[trigger] steps@[j]).name@ == step_macro_name(
                        type_snake@,
                        derive,
                        j as nat,
                    )
                    &&& steps@[j].slot == orig[j]
                    &&& if j + 1 < n {
                        steps@[j].next matches Some(m) && m@ == step_macro_name(
                            type_snake@,
                            derive,
                            (j + 1) as nat,
                        )
                    } else {
                        steps@[j].next is None
                    }
                },
        decreases n - i,
    {
        let slot = slots.remove(0);
        proof {
            assert(orig.skip(i as int)[0] == slot);
            assert(slots@ =~= orig.skip(i + 1));
        }
        let name = get_step_macro_name(type_snake, derive, i);
        let next = if i + 1 < n {
            Some(get_step_macro_name(type_snake, derive, i + 1))
        } else {
            None
        };
        steps.push(StepMacro { name, slot, next });
        i = i + 1;
    }
    steps
}

// ---------------------------------------------------------------- what a chain hands over

/// The entries one field contributes to the enum: a regular field one entry,
/// a nested field what its struct's helper macro hands over (`nested`).
pub open spec fn item_yield<R, N, T>(
    it: SlotItem<R, N>,
    regular: spec_fn(R) -> T,
    nested: spec_fn(N) -> Seq<T>,
) -> Seq<T> {
    match it {
        SlotItem::Regular(r) => seq![regular(r)],
        SlotItem::Nested(n) => nested(n),
    }
}

/// The entries the fields contribute, in order.
pub open spec fn items_yield<R, N, T>(
    items: Seq<SlotItem<R, N>>,
    regular: spec_fn(R) -> T,
    nested: spec_fn(N) -> Seq<T>,
) -> Seq<T>
    decreases items.len(),
{
    if items.len() == 0 {
        Seq::empty()
    } else {
        items_yield(items.drop_last(), regular, nested) + item_yield(items.last(), regular, nested)
    }
}

/// The entries a step adds to what it was handed: its run of regular fields,
/// or what the nested struct's helper macro adds.
pub open spec fn slot_yield<R, N, T>(
    s: Slot<R, N>,
    regular: spec_fn(R) -> T,
    nested: spec_fn(N) -> Seq<T>,
) -> Seq<T> {
    match s {
        Slot::Regular(v) => v@.map_values(regular),
        Slot::Nested(n) => nested(n),
    }
}

/// What a chain of steps hands its caller: each step's entries in turn.
pub open spec fn chain_yield<R, N, T>(
    steps: Seq<StepMacro<R, N>>,
    regular: spec_fn(R) -> T,
    nested: spec_fn(N) -> Seq<T>,
) -> Seq<T>
    decreases steps.len(),
{
    if steps.len() == 0 {
        Seq::empty()
    } else {
        chain_yield(steps.drop_last(), regular, nested) + slot_yield(
            steps.last().slot,
            regular,
            nested,
        )
    }
}

proof fn lemma_items_yield_concat<R, N, T>(
    a: Seq<SlotItem<R, N>>,
    b: Seq<SlotItem<R, N>>,
    regular: spec_fn(R) -> T,
    nested: spec_fn(N) -> Seq<T>,
)
    ensures
        items_yield(a + b, regular, nested) == items_yield(a, regular, nested) + items_yield(
            b,
            regular,
            nested,
        ),
    decreases b.len(),
{
    if b.len() == 0 {
        assert(a + b =~= a);
        assert(items_yield(a, regular, nested) + items_yield(b, regular, nested) =~= items_yield(
            a,
            regular,
            nested,
        ));
    } else {
        lemma_items_yield_concat(a, b.drop_last(), regular, nested);
        assert((a + b).drop_last() =~= a + b.drop_last());
        assert((a + b).last() == b.last());
        assert(items_yield(a + b, regular, nested) =~= items_yield(a, regular, nested)
            + items_yield(b, regular, nested));
    }
}

proof fn lemma_regulars_yield<R, N, T>(
    run: Seq<R>,
    regular: spec_fn(R) -> T,
    nested: spec_fn(N) -> Seq<T>,
)
    ensures
        items_yield(regulars::<R, N>(run), regular, nested) == run.map_values(regular),
    decreases run.len(),
{
    if run.len() == 0 {
        assert(regulars::<R, N>(run) =~= Seq::<SlotItem<R, N>>::empty());
        assert(run.map_values(regular) =~= Seq::<T>::empty());
    } else {
        lemma_regulars_yield::<R, N, T>(run.drop_last(), regular, nested);
        assert(regulars::<R, N>(run).drop_last() =~= regulars::<R, N>(run.drop_last()));
        assert(run.map_values(regular) =~= run.drop_last().map_values(regular).push(
            regular(run.last()),
        ));
        assert(items_yield(regulars::<R, N>(run), regular, nested) =~= run.map_values(regular));
    }
}

/// A run of regular fields hands over its entries, in order.
pub proof fn lemma_run_yield<R, N, T>(
    run: Seq<R>,
    regular: spec_fn(R) -> T,
    nested: spec_fn(N) -> Seq<T>,
)
    ensures
        items_yield(regulars::<R, N>(run), regular, nested) == run.map_values(regular),
{
    lemma_regulars_yield::<R, N, T>(run, regular, nested);
}

proof fn lemma_slot_yield<R, N, T>(s: Slot<R, N>, regular: spec_fn(R) -> T, nested: spec_fn(N) -> Seq<T>)
    ensures
        items_yield(slot_items(s), regular, nested) == slot_yield(s, regular, nested),
{
    match s {
        Slot::Regular(v) => lemma_regulars_yield::<R, N, T>(v@, regular, nested),
        Slot::Nested(n) => {
            let one = seq![SlotItem::<R, N>::Nested(n)];
            assert(one.drop_last() =~= Seq::<SlotItem<R, N>>::empty());
            assert(items_yield(one.drop_last(), regular, nested) =~= Seq::<T>::empty());
            assert(one.last() == SlotItem::<R, N>::Nested(n));
            assert(items_yield(one, regular, nested) =~= nested(n));
        },
    }
}

/// A chain of steps, one per slot, hands over what the slots' fields
/// contribute, in declaration order.
pub proof fn lemma_chain_yield<R, N, T>(
    steps: Seq<StepMacro<R, N>>,
    slots: Seq<Slot<R, N>>,
    regular: spec_fn(R) -> T,
    nested: spec_fn(N) -> Seq<T>,
)
    requires
        steps.len() == slots.len(),
        forall|i: int|
            0 <= i < steps.len() ==> slot_items(#[trigger] steps[i].slot) == slot_items(slots[i]),
    ensures
        chain_yield(steps, regular, nested) == items_yield(flatten(slots), regular, nested),
    decreases steps.len(),
{
    if steps.len() == 0 {
        lemma_flatten_empty::<R, N>();
        assert(slots =~= Seq::<Slot<R, N>>::empty());
        assert(items_yield(flatten(slots), regular, nested) =~= Seq::<T>::empty());
    } else {
        let init = steps.drop_last();
        assert forall|i: int| 0 <= i < init.len() implies slot_items(#[trigger] init[i].slot)
            == slot_items(slots.drop_last()[i]) by {
            assert(init[i] == steps[i]);
        }
        lemma_chain_yield(init, slots.drop_last(), regular, nested);
        lemma_flatten_push(slots.drop_last(), slots.last());
        assert(slots.drop_last().push(slots.last()) =~= slots);
        lemma_items_yield_concat(
            flatten(slots.drop_last()),
            slot_items(slots.last()),
            regular,
            nested,
        );
        lemma_slot_yield(steps.last().slot, regular, nested);
        lemma_slot_yield(slots.last(), regular, nested);
        assert(slot_items(steps.last().slot) == slot_items(slots.last()));
        assert(flatten(slots) == flatten(slots.drop_last()) + slot_items(slots.last()));
        assert(chain_yield(steps, regular, nested) == chain_yield(init, regular, nested)
            + slot_yield(steps.last().slot, regular, nested));
    }
}

} // verus!
