//! Reusable bound parameters: a value bound once and referenced from every
//! predicate built out of the same handle, and the statement-wide buffer that
//! records what each handle bound.
use vstd::prelude::*;
use std::sync::Arc;
use crate::value::{Value, ValueView, values_view};

verus! {

/// The address of the allocation `cell` points at.
///
/// Calls `Arc::as_ptr` and reads the pointer's address. Nothing is stated of
/// the number: it depends on the allocator. Two allocations that are alive at
/// the same time have different addresses, which is what makes it usable as an
/// identity while a handle is kept alive.
#[verifier::external_body]
fn allocation_address<T>(cell: &Arc<T>) -> usize {
    Arc::as_ptr(cell) as usize
}

/// How many values `v` holds.
///
/// Calls `Vec::len`. The contract adds that the count is below `usize::MAX`:
/// a `Vec` never holds more than `isize::MAX` bytes (its growth panics first),
/// and a [`Value`] occupies more than one byte.
#[verifier::external_body]
fn value_count(v: &Vec<Value>) -> (n: usize)
    ensures
        n == v@.len(),
        n < usize::MAX,
{
    v.len()
}

/// One value bound once, however many predicates reference it.
///
/// Every occurrence built from one handle renders the *same* placeholder.
/// Identity is the handle, never the value: two handles over equal values
/// bind twice, a clone binds once. The identity is the address of the shared
/// allocation; a [`BoundParams`] that recorded a handle keeps a clone of it, so
/// that address cannot be handed to another handle while the record exists.
#[derive(Debug)]
pub struct SharedBind {
    cell: Arc<Value>,
    id: usize,
}

impl View for SharedBind {
    type V = ValueView;

    closed spec fn view(&self) -> ValueView {
        (*self.cell)@
    }
}

impl SharedBind {
    /// The identity that decides whether two uses are the same bind.
    pub closed spec fn binding_id(&self) -> usize {
        self.id
    }

    /// A new handle over `value`. Its identity is the address of the fresh
    /// allocation that holds the value, which the allocator keeps apart from
    /// every other live allocation; that distinctness rests on the allocator
    /// and is not proved here.
    pub fn new(value: Value) -> (r: SharedBind)
        ensures
            r@ == value@,
    {
        let cell = Arc::new(value);
        let id = allocation_address(&cell);
        SharedBind { cell, id }
    }

    /// The value this handle binds.
    pub fn value(&self) -> (r: &Value)
        ensures
            r@ == self@,
    {
        &*self.cell
    }
}

/// Cloning shares the binding: a clone and its original render one placeholder.
impl Clone for SharedBind {
    fn clone(&self) -> (r: Self)
        ensures
            r == *self,
    {
        SharedBind { cell: Arc::clone(&self.cell), id: self.id }
    }
}

/// A list of values bound once, however many `IN` predicates reference it.
///
/// The list-shaped twin of [`SharedBind`], with the same identity rule. An
/// empty handle binds nothing.
#[derive(Debug)]
pub struct SharedBindList {
    cell: Arc<Vec<Value>>,
    id: usize,
}

impl View for SharedBindList {
    type V = Seq<ValueView>;

    closed spec fn view(&self) -> Seq<ValueView> {
        values_view((*self.cell)@)
    }
}

impl SharedBindList {
    /// The identity that decides whether two uses are the same bind.
    pub closed spec fn binding_id(&self) -> usize {
        self.id
    }

    /// A new handle over `values`. Its identity is the address of the fresh
    /// allocation that holds the values, which the allocator keeps apart from
    /// every other live allocation; that distinctness rests on the allocator
    /// and is not proved here.
    pub fn new(values: Vec<Value>) -> (r: SharedBindList)
        ensures
            r@ == values_view(values@),
    {
        let cell = Arc::new(values);
        let id = allocation_address(&cell);
        SharedBindList { cell, id }
    }

    /// The values this handle binds, in placeholder order.
    pub fn values(&self) -> (r: &Vec<Value>)
        ensures
            values_view(r@) == self@,
    {
        &*self.cell
    }

    /// How many values the handle binds.
    pub fn len(&self) -> (r: usize)
        ensures
            r == self@.len(),
    {
        self.cell.len()
    }

    /// Whether the handle binds nothing.
    pub fn is_empty(&self) -> (r: bool)
        ensures
            r == (self@.len() == 0),
    {
        self.cell.len() == 0
    }
}

/// Cloning shares the binding; see [`SharedBind`]'s own `Clone`.
impl Clone for SharedBindList {
    fn clone(&self) -> (r: Self)
        ensures
            r == *self,
    {
        SharedBindList { cell: Arc::clone(&self.cell), id: self.id }
    }
}

/// One value, owned by the node or shared through a handle.
pub enum BindSource {
    /// The node's own value; every occurrence binds separately.
    Owned(Value),
    /// A handle's value; occurrences of one handle share a placeholder.
    Shared(SharedBind),
}

/// The identity a source reuses an index under; `None` when it owns its value.
pub open spec fn bind_source_id(s: BindSource) -> Option<usize> {
    match s {
        BindSource::Owned(_) => None,
        BindSource::Shared(h) => Some(h.binding_id()),
    }
}

/// The value a source binds.
pub open spec fn bind_source_value(s: BindSource) -> ValueView {
    match s {
        BindSource::Owned(v) => v@,
        BindSource::Shared(h) => h@,
    }
}

impl BindSource {
    /// The value this source binds.
    pub fn value(&self) -> (r: &Value)
        ensures
            r@ == bind_source_value(*self),
    {
        match self {
            BindSource::Owned(v) => v,
            BindSource::Shared(h) => h.value(),
        }
    }
}

/// A list of values, owned by the node or shared through a handle.
pub enum ListSource {
    /// The node's own values; every occurrence binds them again.
    Owned(Vec<Value>),
    /// A handle's values; occurrences of one handle share one placeholder run.
    Shared(SharedBindList),
}

/// The identity a list source reuses a run under.
pub open spec fn list_source_id(s: ListSource) -> Option<usize> {
    match s {
        ListSource::Owned(_) => None,
        ListSource::Shared(h) => Some(h.binding_id()),
    }
}

/// The values a list source binds.
pub open spec fn list_source_values(s: ListSource) -> Seq<ValueView> {
    match s {
        ListSource::Owned(v) => values_view(v@),
        ListSource::Shared(h) => h@,
    }
}

impl ListSource {
    /// The values this source binds, in placeholder order.
    pub fn values(&self) -> (r: &Vec<Value>)
        ensures
            values_view(r@) == list_source_values(*self),
    {
        match self {
            ListSource::Owned(v) => v,
            ListSource::Shared(h) => h.values(),
        }
    }
}

/// An owned value binds on its own.
impl From<Value> for BindSource {
    fn from(value: Value) -> (r: BindSource) {
        BindSource::Owned(value)
    }
}

impl vstd::std_specs::convert::FromSpecImpl<Value> for BindSource {
    open spec fn obeys_from_spec() -> bool {
        true
    }

    open spec fn from_spec(value: Value) -> BindSource {
        BindSource::Owned(value)
    }
}

/// A handle's value binds under the handle's identity.
impl<'a> From<&'a SharedBind> for BindSource {
    fn from(handle: &'a SharedBind) -> (r: BindSource) {
        BindSource::Shared(handle.clone())
    }
}

impl<'a> vstd::std_specs::convert::FromSpecImpl<&'a SharedBind> for BindSource {
    open spec fn obeys_from_spec() -> bool {
        true
    }

    open spec fn from_spec(handle: &'a SharedBind) -> BindSource {
        BindSource::Shared(*handle)
    }
}

/// Owned values bind on their own.
impl From<Vec<Value>> for ListSource {
    fn from(values: Vec<Value>) -> (r: ListSource) {
        ListSource::Owned(values)
    }
}

impl vstd::std_specs::convert::FromSpecImpl<Vec<Value>> for ListSource {
    open spec fn obeys_from_spec() -> bool {
        true
    }

    open spec fn from_spec(values: Vec<Value>) -> ListSource {
        ListSource::Owned(values)
    }
}

/// A handle's values bind under the handle's identity.
impl<'a> From<&'a SharedBindList> for ListSource {
    fn from(handle: &'a SharedBindList) -> (r: ListSource) {
        ListSource::Shared(handle.clone())
    }
}

impl<'a> vstd::std_specs::convert::FromSpecImpl<&'a SharedBindList> for ListSource {
    open spec fn obeys_from_spec() -> bool {
        true
    }

    open spec fn from_spec(handle: &'a SharedBindList) -> ListSource {
        ListSource::Shared(*handle)
    }
}

/// What a [`BoundParams`] holds: the bound values in placeholder order, and
/// for each shared handle seen so far its identity and the index it took.
#[verifier::ext_equal]
pub struct ParamsView {
    pub values: Seq<ValueView>,
    pub ledger: Seq<(usize, nat)>,
}

/// The index the next placeholder takes.
pub open spec fn next_index(st: ParamsView) -> nat {
    st.values.len() + 1
}

/// The index recorded for `id`, searching from the latest record.
pub open spec fn ledger_lookup(ledger: Seq<(usize, nat)>, id: usize) -> Option<nat>
    decreases ledger.len(),
{
    if ledger.len() == 0 {
        None
    } else if ledger.last().0 == id {
        Some(ledger.last().1)
    } else {
        ledger_lookup(ledger.drop_last(), id)
    }
}

/// `st` with one more value bound.
pub open spec fn push_value(st: ParamsView, v: ValueView) -> ParamsView {
    ParamsView { values: st.values.push(v), ledger: st.ledger }
}

/// The index `src` renders at and the state after, binding it if new.
pub open spec fn bind_spec(st: ParamsView, src: BindSource) -> (nat, ParamsView) {
    match bind_source_id(src) {
        None => (next_index(st), push_value(st, bind_source_value(src))),
        Some(id) => match ledger_lookup(st.ledger, id) {
            Some(index) => (index, st),
            None => (
                next_index(st),
                ParamsView {
                    values: st.values.push(bind_source_value(src)),
                    ledger: st.ledger.push((id, next_index(st))),
                },
            ),
        },
    }
}

/// The first index and the length of the run `src` renders, and the state
/// after. An empty source binds nothing and yields the empty run at 0.
pub open spec fn bind_list_spec(st: ParamsView, src: ListSource) -> (nat, nat, ParamsView) {
    let vals = list_source_values(src);
    if vals.len() == 0 {
        (0, 0, st)
    } else {
        match list_source_id(src) {
            None => (
                next_index(st),
                vals.len(),
                ParamsView { values: st.values + vals, ledger: st.ledger },
            ),
            Some(id) => match ledger_lookup(st.ledger, id) {
                Some(first) => (first, vals.len(), st),
                None => (
                    next_index(st),
                    vals.len(),
                    ParamsView {
                        values: st.values + vals,
                        ledger: st.ledger.push((id, next_index(st))),
                    },
                ),
            },
        }
    }
}

/// How many values a nested statement starting at placeholder `start`
/// stands in for: the `start - 1` already emitted.
pub open spec fn stand_in_count(start: usize) -> nat {
    if start == 0 {
        0
    } else {
        (start - 1) as nat
    }
}

/// Binding one shared handle a second time hands back the index its first
/// binding took and binds nothing more: the first occurrence allocates the
/// placeholder and the rest reuse it.
pub proof fn lemma_shared_bind_reuses_index(st: ParamsView, src: BindSource)
    requires
        src is Shared,
    ensures
        bind_spec(bind_spec(st, src).1, src).0 == bind_spec(st, src).0,
        bind_spec(bind_spec(st, src).1, src).1 == bind_spec(st, src).1,
{
}

/// Binding one non-empty shared list a second time hands back the run its
/// first binding took and binds nothing more.
pub proof fn lemma_shared_list_reuses_run(st: ParamsView, src: ListSource)
    requires
        src is Shared,
        list_source_values(src).len() > 0,
    ensures
        bind_list_spec(bind_list_spec(st, src).2, src).0 == bind_list_spec(st, src).0,
        bind_list_spec(bind_list_spec(st, src).2, src).1 == bind_list_spec(st, src).1,
        bind_list_spec(bind_list_spec(st, src).2, src).2 == bind_list_spec(st, src).2,
{
}

/// An owned value binds a fresh placeholder every time: the index is the
/// next one and the value is appended.
pub proof fn lemma_owned_bind_is_fresh(st: ParamsView, v: Value)
    ensures
        bind_spec(st, BindSource::Owned(v)).0 == st.values.len() + 1,
        bind_spec(st, BindSource::Owned(v)).1.values == st.values.push(v@),
{
}

/// What keeps a recorded handle's allocation, and so its identity, alive.
enum Anchor {
    One(SharedBind),
    Many(SharedBindList),
}

/// One ledger record: a handle's identity and the index it took.
struct LedgerEntry {
    id: usize,
    index: usize,
    anchor: Anchor,
}

/// The values a statement has bound so far, plus the index each shared handle
/// took.
///
/// Every renderer asks it for the next placeholder, which is always
/// [`next_index`](Self::next_index) — `len() + 1` — so numbering across a clause
/// or statement boundary needs no offset. [`nested`](Self::nested) is the
/// single place that re-bases it.
pub struct BoundParams {
    values: Vec<Value>,
    shared: Vec<LedgerEntry>,
}

/// The ledger records as (identity, index) pairs.
spec fn ledger_view(entries: Seq<LedgerEntry>) -> Seq<(usize, nat)> {
    entries.map_values(|e: LedgerEntry| (e.id, e.index as nat))
}

impl View for BoundParams {
    type V = ParamsView;

    closed spec fn view(&self) -> ParamsView {
        ParamsView { values: values_view(self.values@), ledger: ledger_view(self.shared@) }
    }
}

impl BoundParams {
    /// An empty buffer with an empty ledger.
    pub fn new() -> (r: BoundParams)
        ensures
            r@.values.len() == 0,
            r@.ledger.len() == 0,
    {
        let r = BoundParams { values: Vec::new(), shared: Vec::new() };
        assert(r@.values =~= Seq::<ValueView>::empty());
        assert(r@.ledger =~= Seq::<(usize, nat)>::empty());
        r
    }

    /// How many values have been bound.
    pub fn len(&self) -> (r: usize)
        ensures
            r == self@.values.len(),
    {
        self.values.len()
    }

    /// Whether nothing has been bound yet.
    pub fn is_empty(&self) -> (r: bool)
        ensures
            r == (self@.values.len() == 0),
    {
        self.values.len() == 0
    }

    /// The index the next placeholder written into this buffer takes.
    pub fn next_index(&self) -> (r: usize)
        ensures
            r == next_index(self@),
    {
        value_count(&self.values) + 1
    }

    /// Binds one more value and returns the index it took; no handle can
    /// reuse it.
    pub fn push(&mut self, value: Value) -> (r: usize)
        ensures
            r == next_index(old(self)@),
            final(self)@ == push_value(old(self)@, value@),
    {
        let index = value_count(&self.values) + 1;
        let ghost prev = self.values@;
        self.values.push(value);
        proof {
            assert(values_view(self.values@) =~= values_view(prev).push(value@));
        }
        index
    }

    /// Appends copies of `values`, in order.
    pub fn extend_from(&mut self, values: &Vec<Value>)
        ensures
            final(self)@.values == old(self)@.values + values_view(values@),
            final(self)@.ledger == old(self)@.ledger,
    {
        crate::value::append_values(&mut self.values, values);
    }

    /// Appends `values`, in order, taking ownership of them.
    pub fn extend_owned(&mut self, values: Vec<Value>)
        ensures
            final(self)@.values == old(self)@.values + values_view(values@),
            final(self)@.ledger == old(self)@.ledger,
    {
        crate::value::append_values(&mut self.values, &values);
    }

    /// The bound values, in placeholder order.
    pub fn into_values(self) -> (r: Vec<Value>)
        ensures
            values_view(r@) == self@.values,
    {
        self.values
    }

    /// The index recorded for `id`, if any.
    fn lookup(&self, id: usize) -> (r: Option<usize>)
        ensures
            match r {
                Some(ix) => ledger_lookup(self@.ledger, id) == Some(ix as nat),
                None => ledger_lookup(self@.ledger, id) is None,
            },
    {
        let mut i: usize = self.shared.len();
        assert(self@.ledger.take(i as int) =~= self@.ledger);
        while i > 0
            invariant
                i <= self.shared.len(),
                ledger_lookup(self@.ledger, id) == ledger_lookup(self@.ledger.take(i as int), id),
            decreases i,
        {
            let ghost l = self@.ledger.take(i as int);
            assert(l.drop_last() =~= self@.ledger.take(i - 1));
            assert(l.last() == (self.shared@[i - 1].id, self.shared@[i - 1].index as nat));
            if self.shared[i - 1].id == id {
                return Some(self.shared[i - 1].index);
            }
            i = i - 1;
        }
        None
    }

    /// The placeholder index for `source`, binding its value if this is the
    /// first time the buffer has seen it.
    pub fn bind(&mut self, source: &BindSource) -> (r: usize)
        ensures
            (r as nat, final(self)@) == bind_spec(old(self)@, *source),
    {
        match source {
            BindSource::Owned(v) => self.push(v.duplicate()),
            BindSource::Shared(h) => {
                if let Some(index) = self.lookup(h.id) {
                    return index;
                }
                let index = self.push(h.value().duplicate());
                let ghost prev = self.shared@;
                self.shared.push(LedgerEntry { id: h.id, index, anchor: Anchor::One(h.clone()) });
                proof {
                    assert(ledger_view(self.shared@) =~= ledger_view(prev).push((h.id, index as nat)));
                }
                index
            },
        }
    }

    /// The first placeholder index and the length of the run for `source`,
    /// binding its values if this is the first time the buffer has seen them.
    /// An empty source binds nothing and yields the empty run at 0.
    pub fn bind_list(&mut self, source: &ListSource) -> (r: (usize, usize))
        ensures
            (r.0 as nat, r.1 as nat, final(self)@) == bind_list_spec(old(self)@, *source),
    {
        let values = source.values();
        if values.len() == 0 {
            return (0, 0);
        }
        let first = value_count(&self.values) + 1;
        match source {
            ListSource::Owned(_) => {
                self.extend_from(values);
                (first, values.len())
            },
            ListSource::Shared(h) => {
                if let Some(index) = self.lookup(h.id) {
                    return (index, values.len());
                }
                self.extend_from(values);
                let ghost prev = self.shared@;
                self.shared.push(LedgerEntry { id: h.id, index: first, anchor: Anchor::Many(h.clone()) });
                proof {
                    assert(ledger_view(self.shared@) =~= ledger_view(prev).push((h.id, first as nat)));
                }
                (first, values.len())
            },
        }
    }

    /// Renders a nested statement whose first placeholder is `start`: the
    /// child frame that stands in for the `start - 1` values already emitted
    /// and carries this buffer's ledger. Finish it with
    /// [`end_nested`](Self::end_nested).
    pub fn begin_nested(&mut self, start: usize) -> (child: BoundParams)
        ensures
            child@.values == Seq::new((if start == 0 { 0 } else { start - 1 }) as nat, |i: int| ValueView::Null),
            child@.ledger == old(self)@.ledger,
            final(self)@.values == old(self)@.values,
            final(self)@.ledger.len() == 0,
    {
        let emitted: usize = if start == 0 { 0 } else { start - 1 };
        let mut stand_ins: Vec<Value> = Vec::new();
        let mut i: usize = 0;
        while i < emitted
            invariant
                i <= emitted,
                values_view(stand_ins@) =~= Seq::new(i as nat, |k: int| ValueView::Null),
            decreases emitted - i,
        {
            let ghost prev = stand_ins@;
            stand_ins.push(Value::Null);
            i = i + 1;
            assert(values_view(stand_ins@) =~= values_view(prev).push(ValueView::Null));
        }
        let mut ledger: Vec<LedgerEntry> = Vec::new();
        std::mem::swap(&mut ledger, &mut self.shared);
        let child = BoundParams { values: stand_ins, shared: ledger };
        proof {
            assert(ledger_view(self.shared@) =~= Seq::<(usize, nat)>::empty());
        }
        child
    }

    /// Renders a nested statement whose first placeholder is `start`.
    pub fn nested<T, F: FnOnce(&mut BoundParams) -> T>(&mut self, start: usize, render: F) -> (r: T)
        requires
            forall|args: (&mut BoundParams,)| #[trigger] call_requires(render, args),
        ensures
            exists|c: &mut BoundParams|
                {
                    &&& (*c)@.values == Seq::new(stand_in_count(start), |i: int| ValueView::Null)
                    &&& (*c)@.ledger == old(self)@.ledger
                    &&& #[trigger] call_ensures(render, (c,), r)
                    &&& final(self)@.values == old(self)@.values + (if final(c)@.values.len()
                        >= stand_in_count(start) {
                        final(c)@.values.skip(stand_in_count(start) as int)
                    } else {
                        seq![]
                    })
                    &&& final(self)@.ledger == final(c)@.ledger
                },
    {
        let mut child = self.begin_nested(start);
        let cref = &mut child;
        let rendered = render(cref);
        self.end_nested(child, start);
        rendered
    }

    /// Takes the ledger back from `child` and appends only what the child
    /// bound after its `start - 1` stand-ins.
    pub fn end_nested(&mut self, child: BoundParams, start: usize)
        ensures
            final(self)@.values == old(self)@.values + (if child@.values.len() >= stand_in_count(start) {
                child@.values.skip(stand_in_count(start) as int)
            } else {
                seq![]
            }),
            final(self)@.ledger == child@.ledger,
    {
        let emitted: usize = if start == 0 { 0 } else { start - 1 };
        let ghost child_view = child@;
        let BoundParams { values, shared } = child;
        self.shared = shared;
        let ghost prev = self.values@;
        if values.len() < emitted {
            assert(values_view(self.values@) =~= values_view(prev) + Seq::<ValueView>::empty());
            return;
        }
        let mut i: usize = emitted;
        while i < values.len()
            invariant
                emitted <= i <= values.len(),
                values_view(values@) == child_view.values,
                ledger_view(self.shared@) == child_view.ledger,
                values_view(self.values@) =~= values_view(prev) + values_view(values@).subrange(
                    emitted as int,
                    i as int,
                ),
            decreases values.len() - i,
        {
            let ghost before = self.values@;
            self.values.push(values[i].duplicate());
            i = i + 1;
            assert(values_view(self.values@) =~= values_view(before).push(values@[i - 1]@));
        }
        assert(values_view(values@).subrange(emitted as int, values.len() as int)
            =~= values_view(values@).skip(emitted as int));
    }
}

} // verus!
