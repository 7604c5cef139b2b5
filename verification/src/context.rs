//! The lexical environment: a stack of scopes over a global root scope.
//!
//! Scope 0 is the global scope and is indestructible for the lifetime of a
//! loaded app; scopes above it are pushed by compound blocks. A scope is an
//! association list from name to element whose names are unique, which the
//! well-formedness predicate `wf_ctx` states.

use vstd::prelude::*;
use crate::element::{
    spec_elem_unary_result, spec_elem_unary_self, ElemModel, Element,
};
use crate::value::UnaryOp;

verus! {

/// Model of one scope: the bindings in insertion order.
pub type ScopeModel = Seq<(Seq<char>, ElemModel)>;

/// Model of the whole environment: scope 0 first, innermost scope last.
pub type CtxModel = Seq<ScopeModel>;

/// True when `name` is bound in the scope.
pub open spec fn scope_contains(s: ScopeModel, name: Seq<char>) -> bool {
    exists|i: int| 0 <= i < s.len() && s[i].0 == name
}

/// Index of the binding of `name` in the scope.
pub open spec fn scope_idx(s: ScopeModel, name: Seq<char>) -> int {
    choose|i: int| 0 <= i < s.len() && s[i].0 == name
}

/// Element bound to `name` in the scope.
pub open spec fn scope_at(s: ScopeModel, name: Seq<char>) -> ElemModel {
    s[scope_idx(s, name)].1
}

/// The scope with the binding of `name` replaced.
pub open spec fn scope_update(s: ScopeModel, name: Seq<char>, e: ElemModel) -> ScopeModel {
    s.update(scope_idx(s, name), (name, e))
}

/// Names are unique within the scope.
pub open spec fn wf_scope(s: ScopeModel) -> bool {
    forall|i: int, j: int| 0 <= i < j < s.len() ==> (#[trigger] s[i]).0 != (#[trigger] s[j]).0
}

/// Every scope of the environment is well formed and the root scope exists.
pub open spec fn wf_ctx(c: CtxModel) -> bool {
    &&& c.len() >= 1
    &&& forall|k: int| 0 <= k < c.len() ==> wf_scope(#[trigger] c[k])
}

/// In a well-formed scope the bound element and the update site are those
/// of any index at which the name stands.
pub proof fn lemma_scope_at(s: ScopeModel, name: Seq<char>, i: int)
    requires
        wf_scope(s),
        0 <= i < s.len(),
        s[i].0 == name,
    ensures
        scope_contains(s, name),
        scope_idx(s, name) == i,
        scope_at(s, name) == s[i].1,
        scope_update(s, name, scope_at(s, name)) =~= s.update(i, (name, s[i].1)),
{
    assert(scope_contains(s, name));
    let j = scope_idx(s, name);
    assert(0 <= j < s.len() && s[j].0 == name);
    if i != j {
        assert(s[i].0 != s[j].0);
    }
}

/// Index of the innermost scope in which `name` is bound, `-1` if none.
pub open spec fn ctx_hit(c: CtxModel, name: Seq<char>) -> int
    decreases c.len(),
{
    if c.len() == 0 {
        -1
    } else if scope_contains(c.last(), name) {
        c.len() - 1
    } else {
        ctx_hit(c.drop_last(), name)
    }
}

/// `ctx_hit` is the largest index of a scope that binds `name`.
pub proof fn lemma_ctx_hit(c: CtxModel, name: Seq<char>)
    ensures
        -1 <= ctx_hit(c, name) < c.len(),
        ctx_hit(c, name) >= 0 ==> scope_contains(c[ctx_hit(c, name)], name),
        forall|j: int|
            ctx_hit(c, name) < j < c.len() ==> !scope_contains(#[trigger] c[j], name),
    decreases c.len(),
{
    if c.len() > 0 && !scope_contains(c.last(), name) {
        lemma_ctx_hit(c.drop_last(), name);
        assert forall|j: int| ctx_hit(c, name) < j < c.len() implies !scope_contains(
            #[trigger] c[j],
            name,
        ) by {
            if j < c.len() - 1 {
                assert(c.drop_last()[j] == c[j]);
            }
        }
        if ctx_hit(c, name) >= 0 {
            assert(c.drop_last()[ctx_hit(c, name)] == c[ctx_hit(c, name)]);
        }
    }
}

/// Lookup: scope 0 alone when `global` is set, else innermost outward.
pub open spec fn ctx_find(c: CtxModel, name: Seq<char>, global: bool) -> Option<ElemModel> {
    if global {
        if c.len() > 0 && scope_contains(c[0], name) {
            Some(scope_at(c[0], name))
        } else {
            None
        }
    } else {
        if ctx_hit(c, name) >= 0 {
            Some(scope_at(c[ctx_hit(c, name)], name))
        } else {
            None
        }
    }
}

/// Scope a binding lands in: scope 0 when `global` is set, else the
/// innermost scope.
pub open spec fn ctx_target(c: CtxModel, global: bool) -> int {
    if global {
        0
    } else {
        c.len() - 1
    }
}

/// Declaration: the environment after binding `name` in the target scope,
/// and whether the binding was new. An existing binding in the target scope
/// leaves the environment unchanged.
pub open spec fn ctx_set(c: CtxModel, name: Seq<char>, e: ElemModel, global: bool) -> (
    CtxModel,
    bool,
) {
    let t = ctx_target(c, global);
    if scope_contains(c[t], name) {
        (c, false)
    } else {
        (c.update(t, c[t].push((name, e))), true)
    }
}

/// Scope an in-place write resolves to, `-1` if the name is unbound.
pub open spec fn ctx_write_hit(c: CtxModel, name: Seq<char>, global: bool) -> int {
    if global {
        if c.len() > 0 && scope_contains(c[0], name) {
            0
        } else {
            -1
        }
    } else {
        ctx_hit(c, name)
    }
}

/// In-place unary write: the environment after the write and the element
/// the operator returns, or `None` when the name is unbound.
pub open spec fn ctx_unary(c: CtxModel, name: Seq<char>, global: bool, op: UnaryOp) -> (
    CtxModel,
    Option<ElemModel>,
) {
    let h = ctx_write_hit(c, name, global);
    if h >= 0 {
        let bound = scope_at(c[h], name);
        (
            c.update(h, scope_update(c[h], name, spec_elem_unary_self(op, bound))),
            Some(spec_elem_unary_result(op, bound)),
        )
    } else {
        (c, None)
    }
}

/// The lexical environment.
pub struct Context {
    scopes: Vec<Vec<(String, Element)>>,
}

/// Model of one executable scope.
pub open spec fn scope_model(s: Seq<(String, Element)>) -> ScopeModel {
    s.map(|i: int, p: (String, Element)| (p.0@, p.1@))
}

impl View for Context {
    type V = CtxModel;

    closed spec fn view(&self) -> CtxModel {
        self.scopes@.map(|k: int, s: Vec<(String, Element)>| scope_model(s@))
    }
}

/// Index of the first entry named `name`, searching front to back.
fn scope_find_idx(entries: &Vec<(String, Element)>, name: &String) -> (r: Option<usize>)
    ensures
        match r {
            Some(i) => 0 <= i < entries@.len() && scope_model(entries@)[i as int].0 == name@,
            None => !scope_contains(scope_model(entries@), name@),
        },
{
    let mut i: usize = 0;
    while i < entries.len()
        invariant
            0 <= i <= entries@.len(),
            forall|j: int| 0 <= j < i ==> scope_model(entries@)[j].0 != name@,
        decreases entries@.len() - i,
    {
        if entries[i].0 == *name {
            return Some(i);
        }
        i = i + 1;
    }
    None
}

impl Context {
    /// A fresh environment: the empty global scope alone.
    pub fn init() -> (r: Context)
        ensures
            r@ =~= seq![Seq::<(Seq<char>, ElemModel)>::empty()],
            wf_ctx(r@),
    {
        let mut scopes: Vec<Vec<(String, Element)>> = Vec::new();
        scopes.push(Vec::new());
        let r = Context { scopes };
        proof {
            assert(r@.len() == 1);
            assert(r@[0] =~= Seq::<(Seq<char>, ElemModel)>::empty());
        }
        r
    }

    /// Number of scopes on the stack.
    pub fn depth(&self) -> (n: usize)
        ensures
            n == self@.len(),
    {
        self.scopes.len()
    }

    /// Pushes a fresh innermost scope.
    pub fn push_scope(&mut self)
        ensures
            final(self)@ =~~= old(self)@.push(Seq::<(Seq<char>, ElemModel)>::empty()),
            wf_ctx(old(self)@) ==> wf_ctx(final(self)@),
    {
        self.scopes.push(Vec::new());
        proof {
            assert(final(self)@ =~~= old(self)@.push(Seq::<(Seq<char>, ElemModel)>::empty()));
            if wf_ctx(old(self)@) {
                assert forall|k: int| 0 <= k < final(self)@.len() implies wf_scope(
                    #[trigger] final(self)@[k],
                ) by {
                    if k < old(self)@.len() {
                        assert(final(self)@[k] == old(self)@[k]);
                    }
                }
            }
        }
    }

    /// Drops the innermost scope; a no-op at the root, which keeps the
    /// global scope indestructible.
    pub fn pop_scope(&mut self)
        ensures
            old(self)@.len() > 1 ==> final(self)@ =~~= old(self)@.drop_last(),
            old(self)@.len() <= 1 ==> final(self)@ =~~= old(self)@,
            wf_ctx(old(self)@) ==> wf_ctx(final(self)@),
    {
        if self.scopes.len() > 1 {
            self.scopes.pop();
        }
        proof {
            if old(self)@.len() > 1 {
                assert(final(self)@ =~~= old(self)@.drop_last());
            } else {
                assert(final(self)@ =~~= old(self)@);
            }
            if wf_ctx(old(self)@) {
                assert forall|k: int| 0 <= k < final(self)@.len() implies wf_scope(
                    #[trigger] final(self)@[k],
                ) by {
                    assert(final(self)@[k] == old(self)@[k]);
                }
            }
        }
    }

    /// Binds `name` in the target scope; fails without change when the
    /// name is already bound there.
    pub fn set_element(&mut self, name: String, elem: Element, global: bool) -> (r: bool)
        requires
            wf_ctx(old(self)@),
        ensures
            wf_ctx(final(self)@),
            (final(self)@, r) == ctx_set(old(self)@, name@, elem@, global),
    {
        let t: usize = if global {
            0
        } else {
            self.scopes.len() - 1
        };
        proof {
            assert(t == ctx_target(old(self)@, global));
            assert(self@[t as int] == scope_model(self.scopes@[t as int]@));
        }
        match scope_find_idx(&self.scopes[t], &name) {
            Some(i) => {
                proof {
                    assert(scope_contains(old(self)@[t as int], name@));
                }
                false
            },
            None => {
                let mut scope = self.scopes.remove(t);
                scope.push((name, elem));
                self.scopes.insert(t, scope);
                proof {
                    let oldc = old(self)@;
                    let c = final(self)@;
                    let want = oldc.update(
                        t as int,
                        oldc[t as int].push((name@, elem@)),
                    );
                    assert(c =~~= want);
                    assert forall|k: int| 0 <= k < c.len() implies wf_scope(#[trigger] c[k]) by {
                        if k != t {
                            assert(c[k] == oldc[k]);
                        } else {
                            let s = c[t as int];
                            assert forall|a: int, b: int|
                                0 <= a < b < s.len() implies (#[trigger] s[a]).0 != (
                            #[trigger] s[b]).0 by {
                                if b == s.len() - 1 {
                                    assert(s[a] == oldc[t as int][a]);
                                    assert(!scope_contains(oldc[t as int], name@));
                                } else {
                                    assert(s[a] == oldc[t as int][a]);
                                    assert(s[b] == oldc[t as int][b]);
                                }
                            }
                        }
                    }
                }
                true
            },
        }
    }

    /// Lookup: scope 0 alone when `global` is set, else innermost outward.
    /// The element comes back as a copy.
    pub fn get_element(&self, name: &String, global: bool) -> (r: Option<Element>)
        requires
            wf_ctx(self@),
        ensures
            match r {
                Some(e) => ctx_find(self@, name@, global) == Some(e@),
                None => ctx_find(self@, name@, global) is None,
            },
    {
        if global {
            proof {
                assert(self@[0] == scope_model(self.scopes@[0]@));
            }
            match scope_find_idx(&self.scopes[0], name) {
                Some(i) => {
                    proof {
                        lemma_scope_at(self@[0], name@, i as int);
                    }
                    Some(self.scopes[0][i].1.duplicate())
                },
                None => None,
            }
        } else {
            proof {
                lemma_ctx_hit(self@, name@);
            }
            let mut k = self.scopes.len();
            while k > 0
                invariant
                    !global,
                    wf_ctx(self@),
                    0 <= k <= self@.len(),
                    forall|j: int|
                        k <= j < self@.len() ==> !scope_contains(#[trigger] self@[j], name@),
                decreases k,
            {
                k = k - 1;
                proof {
                    assert(self@[k as int] == scope_model(self.scopes@[k as int]@));
                }
                match scope_find_idx(&self.scopes[k], name) {
                    Some(i) => {
                        proof {
                            lemma_scope_at(self@[k as int], name@, i as int);
                            lemma_ctx_hit(self@, name@);
                            let h = ctx_hit(self@, name@);
                            assert(h >= 0);
                            if h < k {
                                assert(!scope_contains(self@[k as int], name@));
                            }
                            if h > k {
                                assert(!scope_contains(self@[h], name@));
                            }
                            assert(h == k);
                            assert(scope_model(self.scopes@[k as int]@)[i as int]
                                == (self.scopes@[k as int]@[i as int].0@, self.scopes@[k as int]@[
                                i as int].1@));
                            assert(scope_at(self@[k as int], name@) == self.scopes@[k as int]@[
                                i as int].1@);
                            assert(ctx_find(self@, name@, global) == Some(
                                self.scopes@[k as int]@[i as int].1@,
                            ));
                        }
                        let found = self.scopes[k][i].1.duplicate();
                        proof {
                            assert(found@ == self.scopes@[k as int]@[i as int].1@);
                        }
                        return Some(found);
                    },
                    None => {},
                }
            }
            proof {
                lemma_ctx_hit(self@, name@);
            }
            None
        }
    }

    /// Applies an in-place unary operator to the binding of `name` and
    /// returns the operator's result, or `None` when the name is unbound.
    pub fn apply_unary(&mut self, name: &String, global: bool, op: UnaryOp) -> (r: Option<
        Element,
    >)
        requires
            wf_ctx(old(self)@),
        ensures
            wf_ctx(final(self)@),
            (final(self)@, match r {
                Some(e) => Some(e@),
                None => None,
            }) == ctx_unary(old(self)@, name@, global, op),
    {
        let depth = self.scopes.len();
        let mut k = if global {
            1
        } else {
            depth
        };
        proof {
            if !global {
                lemma_ctx_hit(old(self)@, name@);
            }
        }
        while k > 0
            invariant
                wf_ctx(self@),
                self@ == old(self)@,
                0 <= k <= self@.len(),
                global ==> k <= 1,
                global && k == 0 ==> !scope_contains(self@[0], name@),
                !global ==> forall|j: int|
                    k <= j < self@.len() ==> !scope_contains(#[trigger] self@[j], name@),
            decreases k,
        {
            k = k - 1;
            proof {
                assert(self@[k as int] == scope_model(self.scopes@[k as int]@));
            }
            match scope_find_idx(&self.scopes[k], name) {
                Some(i) => {
                    proof {
                        lemma_scope_at(self@[k as int], name@, i as int);
                        if !global {
                            lemma_ctx_hit(self@, name@);
                            let h = ctx_hit(self@, name@);
                            if h < k {
                                assert(!scope_contains(self@[k as int], name@));
                            }
                            if h > k {
                                assert(!scope_contains(self@[h], name@));
                            }
                            assert(h == k);
                        }
                        assert(ctx_write_hit(self@, name@, global) == k);
                    }
                    let mut scope = self.scopes.remove(k);
                    let entry_name = scope[i].0.clone();
                    let mut entry_elem = scope[i].1.duplicate();
                    let result = match op {
                        UnaryOp::Incr => entry_elem.increment(),
                        UnaryOp::Decr => entry_elem.decrement(),
                        UnaryOp::NotOp => entry_elem.not(),
                    };
                    scope.set(i, (entry_name, entry_elem));
                    self.scopes.insert(k, scope);
                    proof {
                        let oldc = old(self)@;
                        let bound = scope_at(oldc[k as int], name@);
                        let news = scope_update(
                            oldc[k as int],
                            name@,
                            spec_elem_unary_self(op, bound),
                        );
                        assert(final(self)@ =~~= oldc.update(k as int, news));
                        assert forall|kk: int| 0 <= kk < final(self)@.len() implies wf_scope(
                            #[trigger] final(self)@[kk],
                        ) by {
                            if kk != k {
                                assert(final(self)@[kk] == oldc[kk]);
                            } else {
                                let s = final(self)@[kk];
                                assert forall|a: int, b: int|
                                    0 <= a < b < s.len() implies (#[trigger] s[a]).0 != (
                                #[trigger] s[b]).0 by {
                                    if a != i {
                                        assert(s[a] == oldc[k as int][a]);
                                    }
                                    if b != i {
                                        assert(s[b] == oldc[k as int][b]);
                                    }
                                }
                            }
                        }
                    }
                    return Some(result);
                },
                None => {},
            }
        }
        proof {
            if !global {
                lemma_ctx_hit(self@, name@);
                let h = ctx_hit(self@, name@);
                if h >= 0 {
                    assert(!scope_contains(self@[h], name@));
                }
            }
            assert(ctx_write_hit(self@, name@, global) == -1);
        }
        None
    }
}

} // verus!
