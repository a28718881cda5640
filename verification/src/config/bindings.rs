//! Binding maps: which action a key, button or gesture is bound to, per
//! context.
use vstd::prelude::*;

use crate::config::types::{
    GestureBinding, GestureTrigger, KeyCombo, Modifiers, MouseBinding,
};

verus! {

/// Plain data that bindings are keyed by.
pub trait BindingKey: Copy {
    /// Are two keys the same?
    fn same(&self, other: &Self) -> (r: bool)
        ensures
            r == (*self == *other),
    ;
}

impl BindingKey for KeyCombo {
    fn same(&self, other: &Self) -> (r: bool) {
        *self == *other
    }
}

impl BindingKey for Modifiers {
    fn same(&self, other: &Self) -> (r: bool) {
        *self == *other
    }
}

impl BindingKey for MouseBinding {
    fn same(&self, other: &Self) -> (r: bool) {
        *self == *other
    }
}

impl BindingKey for GestureBinding {
    fn same(&self, other: &Self) -> (r: bool) {
        *self == *other
    }
}

impl BindingKey for GestureTrigger {
    fn same(&self, other: &Self) -> (r: bool) {
        *self == *other
    }
}

/// The first index at or after `i` whose key is `k`, or the length.
pub open spec fn index_of<K, W>(s: Seq<(K, W)>, k: K, i: int) -> int
    decreases s.len() - i,
{
    if i >= s.len() {
        s.len() as int
    } else if s[i].0 == k {
        i
    } else {
        index_of(s, k, i + 1)
    }
}

/// What `k` is bound to.
pub open spec fn bound<K, W>(s: Seq<(K, W)>, k: K) -> Option<W> {
    let i = index_of(s, k, 0);
    if i < s.len() {
        Some(s[i].1)
    } else {
        None
    }
}

/// The bindings with `k` bound to `w`.
pub open spec fn bind<K, W>(s: Seq<(K, W)>, k: K, w: W) -> Seq<(K, W)> {
    let i = index_of(s, k, 0);
    if i < s.len() {
        s.update(i, (k, w))
    } else {
        s.push((k, w))
    }
}

/// The bindings with `k` bound to nothing.
pub open spec fn unbind<K, W>(s: Seq<(K, W)>, k: K) -> Seq<(K, W)> {
    let i = index_of(s, k, 0);
    if i < s.len() {
        s.remove(i)
    } else {
        s
    }
}

/// The bindings `s` with those of `list` added in order; a later one replaces
/// an earlier one for the same key.
pub open spec fn bind_all<K, W>(s: Seq<(K, W)>, list: Seq<(K, W)>) -> Seq<(K, W)>
    decreases list.len(),
{
    if list.len() == 0 {
        s
    } else {
        bind(bind_all(s, list.drop_last()), list.last().0, list.last().1)
    }
}

/// No key occurs twice.
pub open spec fn distinct<K, W>(s: Seq<(K, W)>) -> bool {
    forall|i: int, j: int| 0 <= i < j < s.len() ==> (#[trigger] s[i]).0 != (#[trigger] s[j]).0
}

pub proof fn lemma_index_of<K, W>(s: Seq<(K, W)>, k: K, i: int)
    requires
        0 <= i <= s.len(),
    ensures
        i <= index_of(s, k, i) <= s.len(),
        index_of(s, k, i) < s.len() ==> s[index_of(s, k, i)].0 == k,
        forall|j: int| i <= j < index_of(s, k, i) ==> (#[trigger] s[j]).0 != k,
    decreases s.len() - i,
{
    if i < s.len() && s[i].0 != k {
        lemma_index_of(s, k, i + 1);
    }
}

proof fn lemma_index_is<K, W>(s: Seq<(K, W)>, k: K, a: int, i: int)
    requires
        0 <= a <= i <= s.len(),
        forall|j: int| a <= j < i ==> (#[trigger] s[j]).0 != k,
        i < s.len() ==> s[i].0 == k,
    ensures
        index_of(s, k, a) == i,
    decreases i - a,
{
    if a < i {
        lemma_index_is(s, k, a + 1, i);
    }
}

/// Binding a key binds it, and leaves every other key alone.
pub proof fn lemma_bound_after_bind<K, W>(s: Seq<(K, W)>, k: K, w: W, other: K)
    ensures
        bound(bind(s, k, w), k) == Some(w),
        other != k ==> bound(bind(s, k, w), other) == bound(s, other),
{
    let i = index_of(s, k, 0);
    let t = bind(s, k, w);
    lemma_index_of(s, k, 0);
    lemma_index_is(t, k, 0, i);
    if other != k {
        let j = index_of(s, other, 0);
        lemma_index_of(s, other, 0);
        if j < s.len() {
            lemma_index_is(t, other, 0, j);
        } else {
            lemma_index_is(t, other, 0, t.len() as int);
        }
    }
}

/// Unbinding a key leaves it bound to nothing, and every other key alone.
pub proof fn lemma_bound_after_unbind<K, W>(s: Seq<(K, W)>, k: K, other: K)
    requires
        distinct(s),
    ensures
        bound(unbind(s, k), k) is None,
        other != k ==> bound(unbind(s, k), other) == bound(s, other),
{
    let i = index_of(s, k, 0);
    let t = unbind(s, k);
    lemma_index_of(s, k, 0);
    if i < s.len() {
        assert forall|j: int| 0 <= j < t.len() implies (#[trigger] t[j]).0 != k by {
            if j < i {
                assert(t[j] == s[j]);
            } else {
                assert(t[j] == s[j + 1]);
                assert(s[i].0 != s[j + 1].0);
            }
        }
        lemma_index_is(t, k, 0, t.len() as int);
        if other != k {
            let j = index_of(s, other, 0);
            lemma_index_of(s, other, 0);
            if j < s.len() {
                if j < i {
                    lemma_index_is(t, other, 0, j);
                } else {
                    assert forall|m: int| 0 <= m < j - 1 implies (#[trigger] t[m]).0 != other by {
                        if m < i {
                            assert(t[m] == s[m]);
                        } else {
                            assert(t[m] == s[m + 1]);
                        }
                    }
                    assert(t[j - 1] == s[j]);
                    lemma_index_is(t, other, 0, j - 1);
                }
            } else {
                assert forall|m: int| 0 <= m < t.len() implies (#[trigger] t[m]).0 != other by {
                    if m < i {
                        assert(t[m] == s[m]);
                    } else {
                        assert(t[m] == s[m + 1]);
                    }
                }
                lemma_index_is(t, other, 0, t.len() as int);
            }
        }
    }
}

/// No operation makes a key occur twice.
pub proof fn lemma_distinct_kept<K, W>(s: Seq<(K, W)>, k: K, w: W)
    requires
        distinct(s),
    ensures
        distinct(bind(s, k, w)),
        distinct(unbind(s, k)),
{
    lemma_index_of(s, k, 0);
}

/// Bindings that are added one by one hold no key twice.
pub proof fn lemma_bind_all_distinct<K, W>(s: Seq<(K, W)>, list: Seq<(K, W)>)
    requires
        distinct(s),
    ensures
        distinct(bind_all(s, list)),
    decreases list.len(),
{
    if list.len() > 0 {
        lemma_bind_all_distinct(s, list.drop_last());
        lemma_distinct_kept(bind_all(s, list.drop_last()), list.last().0, list.last().1);
    }
}

/// A key that no binding of a list is for is bound to nothing by them.
pub proof fn lemma_unlisted_is_unbound<K, W>(list: Seq<(K, W)>, k: K)
    requires
        forall|i: int| 0 <= i < list.len() ==> (#[trigger] list[i]).0 != k,
    ensures
        bound(bind_all(Seq::empty(), list), k) is None,
    decreases list.len(),
{
    if list.len() > 0 {
        let front = list.drop_last();
        assert forall|i: int| 0 <= i < front.len() implies (#[trigger] front[i]).0 != k by {
            assert(front[i] == list[i]);
        }
        lemma_unlisted_is_unbound(front, k);
        assert(list[list.len() - 1].0 != k);
        lemma_bound_after_bind(
            bind_all(Seq::empty(), front),
            list.last().0,
            list.last().1,
            k,
        );
    }
}

/// The last binding of a list for a key is what the key is bound to by them.
pub proof fn lemma_last_listed_is_bound<K, W>(list: Seq<(K, W)>, i: int)
    requires
        0 <= i < list.len(),
        forall|j: int| i < j < list.len() ==> (#[trigger] list[j]).0 != list[i].0,
    ensures
        bound(bind_all(Seq::empty(), list), list[i].0) == Some(list[i].1),
    decreases list.len(),
{
    let front = list.drop_last();
    let (k, w) = list.last();
    lemma_bound_after_bind(bind_all(Seq::empty(), front), k, w, list[i].0);
    if i < front.len() {
        assert(list[list.len() - 1].0 != list[i].0);
        assert forall|j: int| i < j < front.len() implies (#[trigger] front[j]).0
            != front[i].0 by {
            assert(front[j] == list[j]);
        }
        lemma_last_listed_is_bound(front, i);
    }
}

/// After a list of bindings, a key is bound to what the last entry for it says,
/// and to what it was bound to before where there is none.
pub proof fn lemma_bound_after_list<K, W>(s: Seq<(K, W)>, list: Seq<(K, W)>, k: K, i: int)
    requires
        -1 <= i < list.len(),
        forall|j: int| i < j < list.len() ==> (#[trigger] list[j]).0 != k,
        i >= 0 ==> list[i].0 == k,
    ensures
        bound(bind_all(s, list), k) == (if i >= 0 {
            Some(list[i].1)
        } else {
            bound(s, k)
        }),
    decreases list.len(),
{
    if list.len() > 0 {
        let front = list.drop_last();
        let (l, w) = list.last();
        lemma_bound_after_bind(bind_all(s, front), l, w, k);
        if i < front.len() {
            assert(list[list.len() - 1].0 != k);
            assert forall|j: int| i < j < front.len() implies (#[trigger] front[j]).0 != k by {
                assert(front[j] == list[j]);
            }
            lemma_bound_after_list(s, front, k, i);
        }
    }
}

/// A map from binding keys to what they are bound to.
#[derive(Debug, PartialEq, Eq)]
pub struct BindingMap<K, V> {
    pub entries: Vec<(K, V)>,
}

/// Model of a list of bindings.
pub open spec fn entry_models<K, V: View>(entries: Seq<(K, V)>) -> Seq<(K, V::V)> {
    entries.map_values(|p: (K, V)| (p.0, p.1@))
}

impl<K, V: View> View for BindingMap<K, V> {
    type V = Seq<(K, V::V)>;

    open spec fn view(&self) -> Seq<(K, V::V)> {
        entry_models(self.entries@)
    }
}

/// Model of an optional reference to a bound value.
pub open spec fn opt_view<V: View>(o: Option<&V>) -> Option<V::V> {
    match o {
        Some(v) => Some(v@),
        None => None,
    }
}

impl<K: BindingKey, V: View> BindingMap<K, V> {
    /// A map without bindings.
    pub fn new() -> (r: Self)
        ensures
            r@ == Seq::<(K, V::V)>::empty(),
    {
        let r: Self = BindingMap { entries: Vec::new() };
        proof {
            assert(r@ =~= Seq::<(K, V::V)>::empty());
        }
        r
    }

    fn position(&self, k: &K) -> (r: usize)
        ensures
            r == index_of(self@, *k, 0),
            r <= self.entries@.len(),
    {
        let n: usize = self.entries.len();
        let mut i: usize = 0;
        while i < n
            invariant
                i <= n,
                n == self.entries@.len(),
                index_of(self@, *k, 0) == index_of(self@, *k, i as int),
            decreases n - i,
        {
            proof {
                assert(self@[i as int].0 == self.entries@[i as int].0);
            }
            if self.entries[i].0.same(k) {
                return i;
            }
            i = i + 1;
        }
        n
    }

    /// What a key is bound to.
    pub fn get(&self, k: &K) -> (r: Option<&V>)
        ensures
            opt_view(r) == bound(self@, *k),
    {
        let i: usize = self.position(k);
        if i < self.entries.len() {
            Some(&self.entries[i].1)
        } else {
            None
        }
    }

    /// Bind a key.
    pub fn insert(&mut self, k: K, v: V)
        ensures
            final(self)@ == bind(old(self)@, k, v@),
            distinct(old(self)@) ==> distinct(final(self)@),
    {
        let i: usize = self.position(&k);
        let ghost before = self@;
        proof {
            if distinct(before) {
                lemma_distinct_kept(before, k, v@);
            }
        }
        if i < self.entries.len() {
            self.entries.set(i, (k, v));
        } else {
            self.entries.push((k, v));
        }
        proof {
            assert(self@ =~= bind(before, k, v@));
        }
    }

    /// Remove the binding of a key.
    pub fn remove(&mut self, k: &K)
        ensures
            final(self)@ == unbind(old(self)@, *k),
            distinct(old(self)@) ==> distinct(final(self)@),
    {
        let i: usize = self.position(k);
        let ghost before = self@;
        proof {
            if distinct(before) && before.len() > 0 {
                lemma_distinct_kept(before, *k, before[0].1);
            }
        }
        if i < self.entries.len() {
            let _ = self.entries.remove(i);
        }
        proof {
            assert(self@ =~= unbind(before, *k));
        }
    }

    /// The map that holds the given bindings; a later one replaces an earlier
    /// one for the same key.
    pub fn collect(list: Vec<(K, V)>) -> (r: Self)
        ensures
            r@ == bind_all(Seq::<(K, V::V)>::empty(), entry_models(list@)),
            distinct(r@),
    {
        let mut r: Self = BindingMap::new();
        let ghost all = entry_models(list@);
        for p in it: list
            invariant
                r@ == bind_all(Seq::<(K, V::V)>::empty(), all.take(it.index() as int)),
                all == entry_models(it.seq()),
                distinct(r@),
        {
            proof {
                let i = it.index() as int;
                assert(all.take(i + 1).drop_last() =~= all.take(i));
                assert(all.take(i + 1).last() == (p.0, p.1@));
            }
            let (k, v): (K, V) = p;
            r.insert(k, v);
        }
        proof {
            assert(all.take(all.len() as int) =~= all);
        }
        r
    }
}

/// Where a mouse or gesture binding applies.
#[derive(Clone, Copy, Debug, PartialEq, Eq, Structural)]
pub enum BindingContext {
    OnWindow,
    OnCanvas,
    Anywhere,
}

/// One binding map per context.
#[derive(Debug, PartialEq, Eq)]
pub struct ContextOf<M> {
    pub on_window: M,
    pub on_canvas: M,
    pub anywhere: M,
}

pub type ContextBindings<K, V> = ContextOf<BindingMap<K, V>>;

/// Model of bindings per context.
pub type ContextModel<K, W> = ContextOf<Seq<(K, W)>>;

impl<K, V: View> View for ContextOf<BindingMap<K, V>> {
    type V = ContextOf<Seq<(K, V::V)>>;

    open spec fn view(&self) -> ContextOf<Seq<(K, V::V)>> {
        ContextOf {
            on_window: self.on_window@,
            on_canvas: self.on_canvas@,
            anywhere: self.anywhere@,
        }
    }
}

/// The bindings of one context.
pub open spec fn in_context<K, W>(c: ContextOf<Seq<(K, W)>>, context: BindingContext) -> Seq<
    (K, W),
> {
    match context {
        BindingContext::OnWindow => c.on_window,
        BindingContext::OnCanvas => c.on_canvas,
        BindingContext::Anywhere => c.anywhere,
    }
}

/// The bindings with those of one context replaced.
pub open spec fn with_context<K, W>(
    c: ContextOf<Seq<(K, W)>>,
    context: BindingContext,
    s: Seq<(K, W)>,
) -> ContextOf<Seq<(K, W)>> {
    match context {
        BindingContext::OnWindow => ContextOf { on_window: s, ..c },
        BindingContext::OnCanvas => ContextOf { on_canvas: s, ..c },
        BindingContext::Anywhere => ContextOf { anywhere: s, ..c },
    }
}

/// What a key is bound to in a context: a specific context falls back to
/// `anywhere`, never the reverse.
pub open spec fn bound_in<K, W>(c: ContextOf<Seq<(K, W)>>, k: K, context: BindingContext) -> Option<
    W,
> {
    match bound(in_context(c, context), k) {
        Some(w) => Some(w),
        None => bound(c.anywhere, k),
    }
}

/// No context holds a key twice.
pub open spec fn contexts_distinct<K, W>(c: ContextOf<Seq<(K, W)>>) -> bool {
    distinct(c.on_window) && distinct(c.on_canvas) && distinct(c.anywhere)
}

/// What is bound anywhere is bound in every context that does not override
/// it.
pub proof fn lemma_context_fallback<K, W>(
    c: ContextOf<Seq<(K, W)>>,
    k: K,
    context: BindingContext,
)
    ensures
        bound(in_context(c, context), k) is None ==> bound_in(c, k, context) == bound(
            c.anywhere,
            k,
        ),
        bound(in_context(c, context), k) is Some ==> bound_in(c, k, context) == bound(
            in_context(c, context),
            k,
        ),
        bound_in(c, k, BindingContext::Anywhere) == bound(c.anywhere, k),
{
}

impl<K: BindingKey, V: View> ContextOf<BindingMap<K, V>> {
    /// Bindings for no context at all.
    pub fn empty() -> (r: Self)
        ensures
            r@ == (ContextOf::<Seq<(K, V::V)>> {
                on_window: Seq::empty(),
                on_canvas: Seq::empty(),
                anywhere: Seq::empty(),
            }),
    {
        ContextOf {
            on_window: BindingMap::new(),
            on_canvas: BindingMap::new(),
            anywhere: BindingMap::new(),
        }
    }

    /// What a key is bound to in a context.
    pub fn lookup(&self, k: &K, context: BindingContext) -> (r: Option<&V>)
        ensures
            opt_view(r) == bound_in(self@, *k, context),
    {
        let specific: Option<&V> = match context {
            BindingContext::OnWindow => self.on_window.get(k),
            BindingContext::OnCanvas => self.on_canvas.get(k),
            BindingContext::Anywhere => self.anywhere.get(k),
        };
        match specific {
            Some(v) => Some(v),
            None => self.anywhere.get(k),
        }
    }

    /// Bind a key in a context.
    pub fn insert(&mut self, context: BindingContext, k: K, v: V)
        ensures
            final(self)@ == with_context(
                old(self)@,
                context,
                bind(in_context(old(self)@, context), k, v@),
            ),
            contexts_distinct(old(self)@) ==> contexts_distinct(final(self)@),
    {
        match context {
            BindingContext::OnWindow => self.on_window.insert(k, v),
            BindingContext::OnCanvas => self.on_canvas.insert(k, v),
            BindingContext::Anywhere => self.anywhere.insert(k, v),
        }
    }

    /// Remove the binding of a key in a context.
    pub fn remove(&mut self, context: BindingContext, k: &K)
        ensures
            final(self)@ == with_context(
                old(self)@,
                context,
                unbind(in_context(old(self)@, context), *k),
            ),
            contexts_distinct(old(self)@) ==> contexts_distinct(final(self)@),
    {
        match context {
            BindingContext::OnWindow => self.on_window.remove(k),
            BindingContext::OnCanvas => self.on_canvas.remove(k),
            BindingContext::Anywhere => self.anywhere.remove(k),
        }
    }
}

} // verus!
