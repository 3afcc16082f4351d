use crate::ast::{Function, Functions, SpecFunction};
use vstd::prelude::*;

verus! {

// ---------------------------------------------------------------------------
// Mathematical model of the scoped environment.
//
// A scope is a list of bindings, newest last; a lookup takes the newest
// binding of a name. A context is a stack of scopes, innermost last; a
// lookup searches innermost to outermost and stops at the first scope that
// binds the name.
// ---------------------------------------------------------------------------

/// The binding a name has in one scope: the newest entry with that name.
pub open spec fn scope_get<V>(s: Seq<(Seq<char>, V)>, k: Seq<char>) -> Option<V>
    decreases s.len(),
{
    if s.len() == 0 {
        None
    } else if s.last().0 == k {
        Some(s.last().1)
    } else {
        scope_get(s.drop_last(), k)
    }
}

/// One scope with the newest binding of a name replaced; unchanged when the
/// scope does not bind the name.
pub open spec fn scope_set<V>(s: Seq<(Seq<char>, V)>, k: Seq<char>, v: V) -> Seq<(Seq<char>, V)>
    decreases s.len(),
{
    if s.len() == 0 {
        s
    } else if s.last().0 == k {
        s.drop_last().push((k, v))
    } else {
        scope_set(s.drop_last(), k, v).push(s.last())
    }
}

/// The binding a name has in a context: the innermost scope that binds it
/// decides.
pub open spec fn ctx_get<V>(c: Seq<Seq<(Seq<char>, V)>>, k: Seq<char>) -> Option<V>
    decreases c.len(),
{
    if c.len() == 0 {
        None
    } else if scope_get(c.last(), k) is Some {
        scope_get(c.last(), k)
    } else {
        ctx_get(c.drop_last(), k)
    }
}

/// Whether a context binds a name at all.
pub open spec fn ctx_has<V>(c: Seq<Seq<(Seq<char>, V)>>, k: Seq<char>) -> bool {
    ctx_get(c, k) is Some
}

/// A context with the innermost binding of a name replaced; unchanged when
/// no scope binds the name.
pub open spec fn ctx_update<V>(c: Seq<Seq<(Seq<char>, V)>>, k: Seq<char>, v: V) -> Seq<
    Seq<(Seq<char>, V)>,
>
    decreases c.len(),
{
    if c.len() == 0 {
        c
    } else if scope_get(c.last(), k) is Some {
        c.drop_last().push(scope_set(c.last(), k, v))
    } else {
        ctx_update(c.drop_last(), k, v).push(c.last())
    }
}

/// A context with a binding added to its innermost scope.
pub open spec fn ctx_insert<V>(c: Seq<Seq<(Seq<char>, V)>>, k: Seq<char>, v: V) -> Seq<
    Seq<(Seq<char>, V)>,
> {
    c.update(c.len() - 1, c.last().push((k, v)))
}

// ---------------------------------------------------------------------------
// Facts about the model.
// ---------------------------------------------------------------------------

/// After replacing a name's newest binding in a scope, looking that name up
/// yields the new value (where it was bound), and every other name keeps
/// its binding.
pub proof fn lemma_scope_set_get<V>(s: Seq<(Seq<char>, V)>, k: Seq<char>, v: V, k2: Seq<char>)
    ensures
        k2 == k ==> scope_get(scope_set(s, k, v), k2) == (if scope_get(s, k) is Some {
            Some(v)
        } else {
            None::<V>
        }),
        k2 != k ==> scope_get(scope_set(s, k, v), k2) == scope_get(s, k2),
        scope_set(s, k, v).len() == s.len(),
    decreases s.len(),
{
    if s.len() > 0 && s.last().0 != k {
        lemma_scope_set_get(s.drop_last(), k, v, k2);
        assert(scope_set(s, k, v).drop_last() =~= scope_set(s.drop_last(), k, v));
        assert(scope_set(s, k, v).last() == s.last());
    } else if s.len() > 0 {
        assert(scope_set(s, k, v).drop_last() =~= s.drop_last());
    }
}

/// After replacing a name's innermost binding in a context, looking that
/// name up yields the new value (where it was bound), and every other name
/// keeps its binding.
pub proof fn lemma_ctx_update_get<V>(c: Seq<Seq<(Seq<char>, V)>>, k: Seq<char>, v: V, k2: Seq<char>)
    ensures
        k2 == k ==> ctx_get(ctx_update(c, k, v), k2) == (if ctx_has(c, k) {
            Some(v)
        } else {
            None::<V>
        }),
        k2 != k ==> ctx_get(ctx_update(c, k, v), k2) == ctx_get(c, k2),
        ctx_update(c, k, v).len() == c.len(),
    decreases c.len(),
{
    if c.len() > 0 {
        if scope_get(c.last(), k) is Some {
            lemma_scope_set_get(c.last(), k, v, k2);
            assert(ctx_update(c, k, v).drop_last() =~= c.drop_last());
            assert(ctx_update(c, k, v).last() == scope_set(c.last(), k, v));
        } else {
            lemma_ctx_update_get(c.drop_last(), k, v, k2);
            assert(ctx_update(c, k, v).drop_last() =~= ctx_update(c.drop_last(), k, v));
            assert(ctx_update(c, k, v).last() == c.last());
        }
    }
}

/// Adding a binding to the innermost scope makes the bound name resolve to
/// the new value and leaves every other name's binding unchanged.
pub proof fn lemma_ctx_insert_get<V>(c: Seq<Seq<(Seq<char>, V)>>, k: Seq<char>, v: V, k2: Seq<char>)
    requires
        c.len() > 0,
    ensures
        k2 == k ==> ctx_get(ctx_insert(c, k, v), k2) == Some(v),
        k2 != k ==> ctx_get(ctx_insert(c, k, v), k2) == ctx_get(c, k2),
        ctx_insert(c, k, v).len() == c.len(),
{
    let c2 = ctx_insert(c, k, v);
    assert(c2.last() == c.last().push((k, v)));
    assert(c2.drop_last() =~= c.drop_last());
    assert(c.last().push((k, v)).drop_last() =~= c.last());
}

// ---------------------------------------------------------------------------
// Executable environment.
// ---------------------------------------------------------------------------

/// One lexical scope: bindings in insertion order, newest last.
pub type Scope<T> = Vec<(String, T)>;

/// One call's full lexical nesting: a stack of scopes, innermost last.
pub struct Context<T> {
    pub scopes: Vec<Scope<T>>,
}

impl<T: DeepView> DeepView for Context<T> {
    type V = Seq<Seq<(Seq<char>, T::V)>>;

    open spec fn deep_view(&self) -> Self::V {
        self.scopes.deep_view()
    }
}

/// Forces the element-by-element reading of a context's deep view.
pub proof fn lemma_scopes_deep_elemwise<T: DeepView>(scopes: &Vec<Scope<T>>)
    ensures
        scopes.deep_view().len() == scopes@.len(),
        forall|i: int|
            0 <= i < scopes@.len() ==> #[trigger] scopes.deep_view()[i] == scopes@[i].deep_view(),
        forall|i: int|
            0 <= i < scopes@.len() ==> (#[trigger] scopes@[i].deep_view()).len()
                == scopes@[i]@.len(),
        forall|i: int, j: int|
            0 <= i < scopes@.len() && 0 <= j < scopes@[i]@.len() ==> (#[trigger] scopes@[
                i
            ].deep_view()[j]) == (scopes@[i]@[j].0@, scopes@[i]@[j].1.deep_view()),
{
    assert forall|i: int, j: int|
        0 <= i < scopes@.len() && 0 <= j < scopes@[i]@.len() implies (#[trigger] scopes@[
        i
    ].deep_view()[j]) == (scopes@[i]@[j].0@, scopes@[i]@[j].1.deep_view()) by {
        assert(scopes@[i].deep_view()[j] == scopes@[i]@[j].deep_view());
    }
}

/// Forces the element-by-element reading of one scope's deep view.
pub proof fn lemma_scope_deep_elemwise<T: DeepView>(s: &Scope<T>)
    ensures
        s.deep_view().len() == s@.len(),
        forall|j: int|
            0 <= j < s@.len() ==> #[trigger] s.deep_view()[j] == (s@[j].0@, s@[j].1.deep_view()),
{
}

/// A name's newest binding in a scope sits at the largest index that
/// carries the name; everything after it does not carry the name.
pub proof fn lemma_scope_get_at<V>(s: Seq<(Seq<char>, V)>, k: Seq<char>, j: int)
    requires
        0 <= j < s.len(),
        s[j].0 == k,
        forall|m: int| j < m < s.len() ==> (#[trigger] s[m]).0 != k,
    ensures
        scope_get(s, k) == Some(s[j].1),
    decreases s.len(),
{
    if j < s.len() - 1 {
        lemma_scope_get_at(s.drop_last(), k, j);
    }
}

/// A scope none of whose entries carry a name does not bind it.
pub proof fn lemma_scope_get_none<V>(s: Seq<(Seq<char>, V)>, k: Seq<char>)
    requires
        forall|m: int| 0 <= m < s.len() ==> (#[trigger] s[m]).0 != k,
    ensures
        scope_get(s, k) is None,
    decreases s.len(),
{
    if s.len() > 0 {
        lemma_scope_get_none(s.drop_last(), k);
    }
}

/// Replacing a name's newest binding replaces exactly the entry at its
/// largest matching index.
pub proof fn lemma_scope_set_at<V>(s: Seq<(Seq<char>, V)>, k: Seq<char>, v: V, j: int)
    requires
        0 <= j < s.len(),
        s[j].0 == k,
        forall|m: int| j < m < s.len() ==> (#[trigger] s[m]).0 != k,
    ensures
        scope_set(s, k, v) =~= s.update(j, (k, v)),
    decreases s.len(),
{
    if j < s.len() - 1 {
        lemma_scope_set_at(s.drop_last(), k, v, j);
        assert(scope_set(s, k, v) =~= scope_set(s.drop_last(), k, v).push(s.last()));
        assert(s.drop_last().update(j, (k, v)).push(s.last()) =~= s.update(j, (k, v)));
    } else {
        assert(s.drop_last().push((k, v)) =~= s.update(j, (k, v)));
    }
}

/// A name's innermost binding in a context comes from the innermost scope
/// that binds it; scopes inside that one do not bind it.
pub proof fn lemma_ctx_get_at<V>(c: Seq<Seq<(Seq<char>, V)>>, k: Seq<char>, i: int)
    requires
        0 <= i < c.len(),
        scope_get(c[i], k) is Some,
        forall|m: int| i < m < c.len() ==> scope_get(#[trigger] c[m], k) is None,
    ensures
        ctx_get(c, k) == scope_get(c[i], k),
    decreases c.len(),
{
    if i < c.len() - 1 {
        lemma_ctx_get_at(c.drop_last(), k, i);
    }
}

/// A context none of whose scopes bind a name does not bind it.
pub proof fn lemma_ctx_get_none<V>(c: Seq<Seq<(Seq<char>, V)>>, k: Seq<char>)
    requires
        forall|m: int| 0 <= m < c.len() ==> scope_get(#[trigger] c[m], k) is None,
    ensures
        ctx_get(c, k) is None,
    decreases c.len(),
{
    if c.len() > 0 {
        lemma_ctx_get_none(c.drop_last(), k);
    }
}

/// Replacing a name's innermost binding rewrites exactly the innermost
/// scope that binds it.
pub proof fn lemma_ctx_update_at<V>(c: Seq<Seq<(Seq<char>, V)>>, k: Seq<char>, v: V, i: int)
    requires
        0 <= i < c.len(),
        scope_get(c[i], k) is Some,
        forall|m: int| i < m < c.len() ==> scope_get(#[trigger] c[m], k) is None,
    ensures
        ctx_update(c, k, v) =~= c.update(i, scope_set(c[i], k, v)),
    decreases c.len(),
{
    if i < c.len() - 1 {
        lemma_ctx_update_at(c.drop_last(), k, v, i);
        assert(ctx_update(c, k, v) =~= ctx_update(c.drop_last(), k, v).push(c.last()));
        assert(c.drop_last().update(i, scope_set(c[i], k, v)).push(c.last()) =~= c.update(
            i,
            scope_set(c[i], k, v),
        ));
    } else {
        assert(c.drop_last().push(scope_set(c[i], k, v)) =~= c.update(i, scope_set(c[i], k, v)));
    }
}

/// Looks a name up in one scope, newest binding first.
fn scope_lookup<'a, T: DeepView>(s: &'a Scope<T>, key: &String) -> (r: Option<&'a T>)
    ensures
        r is Some <==> scope_get(s.deep_view(), key@) is Some,
        r is Some ==> r->0.deep_view() == scope_get(s.deep_view(), key@)->0,
{
    proof {
        lemma_scope_deep_elemwise(s);
    }
    let ghost sd = s.deep_view();
    let mut j: usize = s.len();
    while j > 0
        invariant
            j <= s@.len(),
            sd == s.deep_view(),
            sd.len() == s@.len(),
            forall|m: int| 0 <= m < s@.len() ==> #[trigger] sd[m] == (s@[m].0@, s@[m].1.deep_view()),
            forall|m: int| j <= m < s@.len() ==> (#[trigger] sd[m]).0 != key@,
        decreases j,
    {
        j = j - 1;
        let entry = &s[j];
        if entry.0 == *key {
            proof {
                lemma_scope_get_at(sd, key@, j as int);
            }
            return Some(&entry.1);
        }
    }
    proof {
        lemma_scope_get_none(sd, key@);
    }
    None
}

/// Whether one scope binds a name.
fn scope_contains<T: DeepView>(s: &Scope<T>, key: &String) -> (r: bool)
    ensures
        r == (scope_get(s.deep_view(), key@) is Some),
{
    scope_lookup(s, key).is_some()
}

impl<T: DeepView> Context<T> {
    /// A fresh context with no scopes.
    pub fn new() -> (r: Self)
        ensures
            r.deep_view() =~= Seq::<Seq<(Seq<char>, T::V)>>::empty(),
    {
        let r = Context { scopes: Vec::new() };
        proof {
            lemma_scopes_deep_elemwise(&r.scopes);
        }
        r
    }

    /// Pushes a fresh, empty scope.
    pub fn new_scope(&mut self)
        ensures
            final(self).deep_view() =~= old(self).deep_view().push(
                Seq::<(Seq<char>, T::V)>::empty(),
            ),
    {
        self.scopes.push(Vec::new());
        proof {
            lemma_scopes_deep_elemwise(&self.scopes);
            lemma_scopes_deep_elemwise(&old(self).scopes);
            assert(self.scopes@.drop_last() =~= old(self).scopes@);
            assert(self.scopes@.last().deep_view() =~= Seq::<(Seq<char>, T::V)>::empty());
            assert forall|i: int| 0 <= i < old(self).scopes@.len() implies #[trigger] self.deep_view()[i]
                == old(self).deep_view()[i] by {
                assert(self.scopes@[i] == old(self).scopes@[i]);
            }
        }
    }

    /// Pops the innermost scope; a context without scopes is left as it is.
    pub fn drop_current_scope(&mut self)
        ensures
            old(self).deep_view().len() > 0 ==> final(self).deep_view() =~= old(
                self,
            ).deep_view().drop_last(),
            old(self).deep_view().len() == 0 ==> final(self).deep_view() =~= old(self).deep_view(),
    {
        proof {
            lemma_scopes_deep_elemwise(&self.scopes);
        }
        if self.scopes.len() > 0 {
            self.scopes.pop();
            proof {
                lemma_scopes_deep_elemwise(&self.scopes);
                lemma_scopes_deep_elemwise(&old(self).scopes);
                assert(self.scopes@ =~= old(self).scopes@.drop_last());
                assert forall|i: int| 0 <= i < self.scopes@.len() implies #[trigger] self.deep_view()[i]
                    == old(self).deep_view()[i] by {
                    assert(self.scopes@[i] == old(self).scopes@[i]);
                }
            }
        }
    }

    /// Writes a binding into the innermost scope, shadowing any older
    /// binding of the same name.
    pub fn insert_to_current_scope(&mut self, key: &String, val: T)
        requires
            old(self).deep_view().len() > 0,
        ensures
            final(self).deep_view() =~= ctx_insert(old(self).deep_view(), key@, val.deep_view()),
    {
        proof {
            lemma_scopes_deep_elemwise(&self.scopes);
        }
        let n = self.scopes.len();
        let k = key.clone();
        let ghost vdeep = val.deep_view();
        self.scopes[n - 1].push((k, val));
        proof {
            lemma_scopes_deep_elemwise(&self.scopes);
            lemma_scopes_deep_elemwise(&old(self).scopes);
            let c0 = old(self).deep_view();
            assert(self.scopes@[n - 1]@ =~= old(self).scopes@[n - 1]@.push((k, val)));
            assert(self.scopes@[n - 1].deep_view() =~= c0.last().push((key@, vdeep)));
            assert forall|i: int| 0 <= i < n - 1 implies #[trigger] self.deep_view()[i] == c0[i] by {
                assert(self.scopes@[i] == old(self).scopes@[i]);
            }
            assert(self.deep_view() =~= ctx_insert(c0, key@, vdeep));
        }
    }

    /// Looks a name up, innermost scope to outermost.
    pub fn get_val<'a>(&'a self, key: &String) -> (r: Option<&'a T>)
        ensures
            r is Some <==> ctx_has(self.deep_view(), key@),
            r is Some ==> r->0.deep_view() == ctx_get(self.deep_view(), key@)->0,
    {
        proof {
            lemma_scopes_deep_elemwise(&self.scopes);
        }
        let ghost cd = self.deep_view();
        let mut i: usize = self.scopes.len();
        while i > 0
            invariant
                i <= self.scopes@.len(),
                cd == self.deep_view(),
                cd.len() == self.scopes@.len(),
                forall|m: int|
                    0 <= m < self.scopes@.len() ==> #[trigger] cd[m] == self.scopes@[m].deep_view(),
                forall|m: int| i <= m < cd.len() ==> scope_get(#[trigger] cd[m], key@) is None,
            decreases i,
        {
            i = i - 1;
            let r = scope_lookup(&self.scopes[i], key);
            if r.is_some() {
                proof {
                    lemma_ctx_get_at(cd, key@, i as int);
                }
                return r;
            }
        }
        proof {
            lemma_ctx_get_none(cd, key@);
        }
        None
    }

    /// Replaces the innermost binding of a name; fails, changing nothing,
    /// when no scope binds it.
    pub fn update_var(&mut self, key: &String, val: T) -> (r: bool)
        ensures
            r == ctx_has(old(self).deep_view(), key@),
            r ==> final(self).deep_view() =~= ctx_update(
                old(self).deep_view(),
                key@,
                val.deep_view(),
            ),
            !r ==> final(self).deep_view() =~= old(self).deep_view(),
    {
        proof {
            lemma_scopes_deep_elemwise(&self.scopes);
        }
        let ghost vdeep = val.deep_view();
        let ghost cd = old(self).deep_view();
        let mut i: usize = self.scopes.len();
        while i > 0
            invariant
                i <= self.scopes@.len(),
                self.scopes@ == old(self).scopes@,
                cd == self.deep_view(),
                cd.len() == self.scopes@.len(),
                forall|m: int|
                    0 <= m < self.scopes@.len() ==> #[trigger] cd[m] == self.scopes@[m].deep_view(),
                forall|m: int| i <= m < cd.len() ==> scope_get(#[trigger] cd[m], key@) is None,
                val.deep_view() == vdeep,
            decreases i,
        {
            i = i - 1;
            if scope_contains(&self.scopes[i], key) {
                proof {
                    lemma_ctx_get_at(cd, key@, i as int);
                    lemma_ctx_update_at(cd, key@, vdeep, i as int);
                    assert(val.deep_view() == vdeep);
                    assert(self.scopes@[i as int].deep_view() == cd[i as int]);
                }
                let updated = scope_update(&mut self.scopes, i, key, val);
                proof {
                    assert(updated);
                    lemma_scopes_deep_elemwise(&self.scopes);
                    lemma_scopes_deep_elemwise(&old(self).scopes);
                    let target = ctx_update(cd, key@, vdeep);
                    assert(target =~= cd.update(i as int, scope_set(cd[i as int], key@, vdeep)));
                    assert forall|m: int| 0 <= m < self.scopes@.len() implies #[trigger] self.deep_view()[m]
                        == target[m] by {
                        if m != i as int {
                            assert(self.scopes@[m] == old(self).scopes@[m]);
                        } else {
                            assert(self.scopes@[m].deep_view() =~= scope_set(
                                cd[m],
                                key@,
                                vdeep,
                            ));
                        }
                    }
                    assert(self.deep_view() =~= target);
                }
                return true;
            }
        }
        proof {
            lemma_ctx_get_none(cd, key@);
        }
        false
    }
}

/// Replaces the newest binding of a name inside scope `i` of a scope stack.
fn scope_update<T: DeepView>(scopes: &mut Vec<Scope<T>>, i: usize, key: &String, val: T) -> (r:
    bool)
    requires
        i < old(scopes)@.len(),
        scope_get(old(scopes)@[i as int].deep_view(), key@) is Some,
    ensures
        r,
        final(scopes)@.len() == old(scopes)@.len(),
        forall|m: int|
            0 <= m < final(scopes)@.len() && m != i as int ==> final(scopes)@[m] == old(scopes)@[m],
        final(scopes)@[i as int].deep_view() =~= scope_set(
            old(scopes)@[i as int].deep_view(),
            key@,
            val.deep_view(),
        ),
{
    proof {
        lemma_scopes_deep_elemwise(scopes);
    }
    let ghost vdeep = val.deep_view();
    let ghost s0 = scopes@[i as int].deep_view();
    let mut j: usize = scopes[i].len();
    while j > 0
        invariant
            j <= scopes@[i as int]@.len(),
            i < scopes@.len(),
            scopes@ == old(scopes)@,
            s0 == scopes@[i as int].deep_view(),
            s0.len() == scopes@[i as int]@.len(),
            forall|m: int|
                0 <= m < scopes@[i as int]@.len() ==> #[trigger] s0[m] == (
                    scopes@[i as int]@[m].0@,
                    scopes@[i as int]@[m].1.deep_view(),
                ),
            forall|m: int| j <= m < s0.len() ==> (#[trigger] s0[m]).0 != key@,
            scope_get(s0, key@) is Some,
            val.deep_view() == vdeep,
        decreases j,
    {
        j = j - 1;
        let hit = scopes[i][j].0 == *key;
        if hit {
            let k = key.clone();
            let ghost pre = scopes@;
            let entry = (k, val);
            proof {
                assert(entry.0@ == key@);
                assert(entry.1.deep_view() == vdeep);
            }
            scopes[i][j] = entry;
            proof {
                lemma_scopes_deep_elemwise(scopes);
                lemma_scope_set_at(s0, key@, vdeep, j as int);
                assert(scopes@.len() == pre.len());
                assert(scopes@[i as int]@.len() == pre[i as int]@.len());
                assert(scopes@[i as int]@[j as int].0@ == key@);
                assert(scopes@[i as int]@[j as int].1.deep_view() == vdeep);
                assert(forall|m: int|
                    0 <= m < scopes@.len() && m != i as int ==> scopes@[m] == #[trigger] pre[m]);
                assert(forall|m: int|
                    0 <= m < pre[i as int]@.len() && m != j as int ==> scopes@[i as int]@[m]
                        == #[trigger] pre[i as int]@[m]);
                assert forall|m: int| 0 <= m < s0.len() implies #[trigger] scopes@[
                    i as int
                ].deep_view()[m] == s0.update(j as int, (key@, vdeep))[m] by {
                    assert(scopes@[i as int].deep_view()[m] == (
                        scopes@[i as int]@[m].0@,
                        scopes@[i as int]@[m].1.deep_view(),
                    ));
                    if m != j as int {
                        assert(scopes@[i as int]@[m] == pre[i as int]@[m]);
                        assert(s0[m] == (pre[i as int]@[m].0@, pre[i as int]@[m].1.deep_view()));
                    }
                }
                assert(scopes@[i as int].deep_view() =~= s0.update(j as int, (key@, vdeep)));
                assert(scopes@[i as int].deep_view() =~= scope_set(s0, key@, vdeep));
            }
            return true;
        }
    }
    proof {
        lemma_scope_get_none(s0, key@);
        assert(false);
    }
    true
}

/// All active calls' contexts: a stack with the current frame last.
pub struct ContextStack<T> {
    pub contexts: Vec<Context<T>>,
}

impl<T: DeepView> DeepView for ContextStack<T> {
    type V = Seq<Seq<Seq<(Seq<char>, T::V)>>>;

    open spec fn deep_view(&self) -> Self::V {
        self.contexts.deep_view()
    }
}

/// Forces the element-by-element reading of a context stack's deep view.
pub proof fn lemma_stack_deep_elemwise<T: DeepView>(cs: &Vec<Context<T>>)
    ensures
        cs.deep_view().len() == cs@.len(),
        forall|i: int| 0 <= i < cs@.len() ==> #[trigger] cs.deep_view()[i] == cs@[i].deep_view(),
{
}

impl<T: DeepView> ContextStack<T> {
    /// A fresh stack with no contexts.
    pub fn new() -> (r: Self)
        ensures
            r.deep_view() =~= Seq::<Seq<Seq<(Seq<char>, T::V)>>>::empty(),
    {
        let r = ContextStack { contexts: Vec::new() };
        proof {
            lemma_stack_deep_elemwise(&r.contexts);
        }
        r
    }

    /// Pushes a fresh context with no scopes, for a new call frame.
    pub fn new_context(&mut self)
        ensures
            final(self).deep_view() =~= old(self).deep_view().push(
                Seq::<Seq<(Seq<char>, T::V)>>::empty(),
            ),
    {
        self.contexts.push(Context::new());
        proof {
            lemma_stack_deep_elemwise(&self.contexts);
            lemma_stack_deep_elemwise(&old(self).contexts);
            assert(self.contexts@.drop_last() =~= old(self).contexts@);
        }
    }

    /// Pops the current call's context; an empty stack is left as it is.
    pub fn drop_current_context(&mut self)
        ensures
            old(self).deep_view().len() > 0 ==> final(self).deep_view() =~= old(
                self,
            ).deep_view().drop_last(),
            old(self).deep_view().len() == 0 ==> final(self).deep_view() =~= old(self).deep_view(),
    {
        proof {
            lemma_stack_deep_elemwise(&self.contexts);
        }
        if self.contexts.len() > 0 {
            self.contexts.pop();
            proof {
                lemma_stack_deep_elemwise(&self.contexts);
                lemma_stack_deep_elemwise(&old(self).contexts);
                assert(self.contexts@ =~= old(self).contexts@.drop_last());
            }
        }
    }

    /// The active call's context, or nothing when no call is active.
    pub fn get_last_context<'a>(&'a self) -> (r: Option<&'a Context<T>>)
        ensures
            r is Some <==> self.deep_view().len() > 0,
            r is Some ==> r->0.deep_view() == self.deep_view().last(),
    {
        proof {
            lemma_stack_deep_elemwise(&self.contexts);
        }
        if self.contexts.len() > 0 {
            Some(&self.contexts[self.contexts.len() - 1])
        } else {
            None
        }
    }

    /// Pushes a fresh scope onto the current context; fails, changing
    /// nothing, when no call is active.
    pub fn new_scope_in_last(&mut self) -> (r: bool)
        ensures
            r == (old(self).deep_view().len() > 0),
            r ==> final(self).deep_view() =~= old(self).deep_view().update(
                old(self).deep_view().len() - 1,
                old(self).deep_view().last().push(Seq::<(Seq<char>, T::V)>::empty()),
            ),
            !r ==> final(self).deep_view() =~= old(self).deep_view(),
    {
        proof {
            lemma_stack_deep_elemwise(&self.contexts);
        }
        let n = self.contexts.len();
        if n == 0 {
            return false;
        }
        self.contexts[n - 1].new_scope();
        proof {
            lemma_stack_deep_elemwise(&self.contexts);
            lemma_stack_deep_elemwise(&old(self).contexts);
            assert forall|i: int| 0 <= i < n - 1 implies #[trigger] self.deep_view()[i] == old(
                self,
            ).deep_view()[i] by {
                assert(self.contexts@[i] == old(self).contexts@[i]);
            }
            assert(self.deep_view() =~= old(self).deep_view().update(
                n - 1 as int,
                old(self).deep_view().last().push(Seq::<(Seq<char>, T::V)>::empty()),
            ));
        }
        true
    }

    /// Pops the innermost scope of the current context; fails, changing
    /// nothing, when no call is active. A context without scopes is left
    /// as it is.
    pub fn drop_scope_in_last(&mut self) -> (r: bool)
        ensures
            r == (old(self).deep_view().len() > 0),
            r && old(self).deep_view().last().len() > 0 ==> final(self).deep_view() =~= old(
                self,
            ).deep_view().update(
                old(self).deep_view().len() - 1,
                old(self).deep_view().last().drop_last(),
            ),
            r && old(self).deep_view().last().len() == 0 ==> final(self).deep_view() =~= old(
                self,
            ).deep_view(),
            !r ==> final(self).deep_view() =~= old(self).deep_view(),
    {
        proof {
            lemma_stack_deep_elemwise(&self.contexts);
        }
        let n = self.contexts.len();
        if n == 0 {
            return false;
        }
        self.contexts[n - 1].drop_current_scope();
        proof {
            lemma_stack_deep_elemwise(&self.contexts);
            lemma_stack_deep_elemwise(&old(self).contexts);
            assert forall|i: int| 0 <= i < n - 1 implies #[trigger] self.deep_view()[i] == old(
                self,
            ).deep_view()[i] by {
                assert(self.contexts@[i] == old(self).contexts@[i]);
            }
            if old(self).deep_view().last().len() > 0 {
                assert(self.deep_view() =~= old(self).deep_view().update(
                    n - 1 as int,
                    old(self).deep_view().last().drop_last(),
                ));
            } else {
                assert(self.deep_view() =~= old(self).deep_view());
            }
        }
        true
    }

    /// Writes a binding into the current context's innermost scope; fails,
    /// changing nothing, when no call is active.
    pub fn insert_in_last(&mut self, key: &String, val: T) -> (r: bool)
        requires
            old(self).deep_view().len() > 0 ==> old(self).deep_view().last().len() > 0,
        ensures
            r == (old(self).deep_view().len() > 0),
            r ==> final(self).deep_view() =~= old(self).deep_view().update(
                old(self).deep_view().len() - 1,
                ctx_insert(old(self).deep_view().last(), key@, val.deep_view()),
            ),
            !r ==> final(self).deep_view() =~= old(self).deep_view(),
    {
        proof {
            lemma_stack_deep_elemwise(&self.contexts);
        }
        let n = self.contexts.len();
        if n == 0 {
            return false;
        }
        self.contexts[n - 1].insert_to_current_scope(key, val);
        proof {
            lemma_stack_deep_elemwise(&self.contexts);
            lemma_stack_deep_elemwise(&old(self).contexts);
            assert forall|i: int| 0 <= i < n - 1 implies #[trigger] self.deep_view()[i] == old(
                self,
            ).deep_view()[i] by {
                assert(self.contexts@[i] == old(self).contexts@[i]);
            }
            assert(self.deep_view() =~= old(self).deep_view().update(
                n - 1 as int,
                ctx_insert(old(self).deep_view().last(), key@, val.deep_view()),
            ));
        }
        true
    }

    /// Replaces the innermost binding of a name in the current context.
    /// `None`: no call is active; `Some(false)`: the name is unbound;
    /// both leave the stack unchanged.
    pub fn update_in_last(&mut self, key: &String, val: T) -> (r: Option<bool>)
        ensures
            r is Some <==> old(self).deep_view().len() > 0,
            r == Some(true) ==> final(self).deep_view() =~= old(self).deep_view().update(
                old(self).deep_view().len() - 1,
                ctx_update(old(self).deep_view().last(), key@, val.deep_view()),
            ),
            r is Some ==> (r->0 == ctx_has(old(self).deep_view().last(), key@)),
            r != Some(true) ==> final(self).deep_view() =~= old(self).deep_view(),
    {
        proof {
            lemma_stack_deep_elemwise(&self.contexts);
        }
        let n = self.contexts.len();
        if n == 0 {
            return None;
        }
        let done = self.contexts[n - 1].update_var(key, val);
        proof {
            lemma_stack_deep_elemwise(&self.contexts);
            lemma_stack_deep_elemwise(&old(self).contexts);
            assert forall|i: int| 0 <= i < n - 1 implies #[trigger] self.deep_view()[i] == old(
                self,
            ).deep_view()[i] by {
                assert(self.contexts@[i] == old(self).contexts@[i]);
            }
            if done {
                assert(self.deep_view() =~= old(self).deep_view().update(
                    n - 1 as int,
                    ctx_update(old(self).deep_view().last(), key@, val.deep_view()),
                ));
            } else {
                assert(self.deep_view() =~= old(self).deep_view());
            }
        }
        Some(done)
    }

    /// Looks a name up in the current context. `None`: no call is active.
    pub fn get_in_last<'a>(&'a self, key: &String) -> (r: Option<Option<&'a T>>)
        ensures
            r is Some <==> self.deep_view().len() > 0,
            r is Some ==> (r->0 is Some <==> ctx_has(self.deep_view().last(), key@)),
            r is Some && r->0 is Some ==> r->0->0.deep_view() == ctx_get(
                self.deep_view().last(),
                key@,
            )->0,
    {
        match self.get_last_context() {
            None => None,
            Some(c) => Some(c.get_val(key)),
        }
    }
}

// ---------------------------------------------------------------------------
// The global function list.
// ---------------------------------------------------------------------------

/// The first function with a given name, front of the list first.
pub open spec fn spec_get_fn(fs: Seq<SpecFunction>, name: Seq<char>) -> Option<SpecFunction>
    decreases fs.len(),
{
    if fs.len() == 0 {
        None
    } else if fs.first().name == name {
        Some(fs.first())
    } else {
        spec_get_fn(fs.drop_first(), name)
    }
}

/// Looks a function up by name, first definition wins.
pub fn get_fn<'a>(fns: &'a Functions, name: &String) -> (r: Option<&'a Function>)
    ensures
        r is Some <==> spec_get_fn(fns.deep_view(), name@) is Some,
        r is Some ==> r->0.deep_view() == spec_get_fn(fns.deep_view(), name@)->0,
{
    let mut i: usize = 0;
    proof {
        assert(fns.deep_view().skip(0) =~= fns.deep_view());
    }
    while i < fns.len()
        invariant
            i <= fns@.len(),
            fns.deep_view().len() == fns@.len(),
            forall|m: int|
                0 <= m < fns@.len() ==> #[trigger] fns.deep_view()[m] == fns@[m].deep_view(),
            spec_get_fn(fns.deep_view(), name@) == spec_get_fn(
                fns.deep_view().skip(i as int),
                name@,
            ),
        decreases fns@.len() - i,
    {
        proof {
            assert(fns.deep_view().skip(i as int).first() == fns@[i as int].deep_view());
            assert(fns.deep_view().skip(i as int).drop_first() =~= fns.deep_view().skip(
                i as int + 1,
            ));
        }
        if fns[i].name == *name {
            return Some(&fns[i]);
        }
        i = i + 1;
    }
    proof {
        assert(fns.deep_view().skip(fns@.len() as int) =~= Seq::<SpecFunction>::empty());
    }
    None
}

} // verus!
