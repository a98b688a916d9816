//! Scopes: name-to-value tables chained from the innermost outwards. The
//! scopes live in one stack; each scope is enclosed by the one below it.
//! A scope never copies what an enclosing scope binds: lookup and
//! assignment walk the chain.
use crate::token::Token;
use crate::value::{LoxObject, ObjModel, RuntimeError, ErrModel};
use vstd::prelude::*;

verus! {

/// Relies on `String::push`: appends one character.
pub assume_specification[ std::string::String::push ](s: &mut std::string::String, ch: char)
    ensures
        final(s)@ == old(s)@.push(ch),
;

pub struct Binding {
    pub name: String,
    pub value: LoxObject,
}

/// One scope: its bindings in the order they were made; a later binding of
/// a name overrides an earlier one.
pub type ScopeModel = Seq<(Seq<char>, ObjModel)>;

/// The position of the binding of `n` that counts in scope `s`, or -1.
pub open spec fn scope_find(s: ScopeModel, n: Seq<char>) -> int
    decreases s.len(),
{
    if s.len() == 0 {
        -1
    } else if s.last().0 == n {
        s.len() - 1
    } else {
        scope_find(s.drop_last(), n)
    }
}

/// The value bound to `n` in the nearest scope of the chain (innermost last).
pub open spec fn env_get(sc: Seq<ScopeModel>, n: Seq<char>) -> Option<ObjModel>
    decreases sc.len(),
{
    if sc.len() == 0 {
        None
    } else if scope_find(sc.last(), n) >= 0 {
        Some(sc.last()[scope_find(sc.last(), n)].1)
    } else {
        env_get(sc.drop_last(), n)
    }
}

/// The chain after `n` is set to `v` in the nearest scope that binds it;
/// `None` when no scope binds it.
pub open spec fn env_assign(sc: Seq<ScopeModel>, n: Seq<char>, v: ObjModel) -> Option<Seq<ScopeModel>>
    decreases sc.len(),
{
    if sc.len() == 0 {
        None
    } else if scope_find(sc.last(), n) >= 0 {
        Some(sc.update(sc.len() - 1, sc.last().update(scope_find(sc.last(), n), (n, v))))
    } else {
        match env_assign(sc.drop_last(), n, v) {
            Some(r) => Some(r.push(sc.last())),
            None => None,
        }
    }
}

/// The chain after `n` is bound to `v` in the innermost scope.
pub open spec fn env_define(sc: Seq<ScopeModel>, n: Seq<char>, v: ObjModel) -> Seq<ScopeModel> {
    if sc.len() == 0 {
        seq![seq![(n, v)]]
    } else {
        sc.update(sc.len() - 1, sc.last().push((n, v)))
    }
}

/// The message of a lookup or assignment of a name that no scope binds.
pub open spec fn undefined_message(n: Seq<char>) -> Seq<char> {
    "Undefined variable '"@ + n + "'."@
}

proof fn lemma_scope_find_range(s: ScopeModel, n: Seq<char>)
    ensures
        -1 <= scope_find(s, n) < s.len(),
        scope_find(s, n) >= 0 ==> s[scope_find(s, n)].0 == n,
    decreases s.len(),
{
    if s.len() > 0 && s.last().0 != n {
        lemma_scope_find_range(s.drop_last(), n);
    }
}

pub open spec fn scope_view(s: Seq<Binding>) -> ScopeModel {
    s.map_values(|b: Binding| (b.name@, b.value@))
}

pub struct Environment {
    scopes: Vec<Vec<Binding>>,
}

impl View for Environment {
    type V = Seq<ScopeModel>;

    closed spec fn view(&self) -> Seq<ScopeModel> {
        self.scopes@.map_values(|s: Vec<Binding>| scope_view(s@))
    }
}

pub fn undefined_error(name: &Token) -> (r: RuntimeError)
    ensures
        r@ == (ErrModel { token: name@, message: undefined_message(name.lexeme@) }),
{
    let mut message = "Undefined variable '".to_owned();
    message.append(name.lexeme.as_str());
    message.append("'.");
    RuntimeError { token: name.duplicate(), message }
}

impl Environment {
    /// The outermost scope, empty.
    pub fn new() -> (r: Environment)
        ensures
            r@ == seq![ScopeModel::empty()],
    {
        let r = Environment { scopes: vec![Vec::new()] };
        assert(r@ =~~= seq![ScopeModel::empty()]);
        r
    }

    /// Opens a new innermost scope, enclosed by the current one.
    pub fn new_enclosed(&mut self)
        ensures
            final(self)@ == old(self)@.push(ScopeModel::empty()),
    {
        self.scopes.push(Vec::new());
        assert(self@ =~~= old(self)@.push(ScopeModel::empty()));
    }

    /// Closes the innermost scope; its enclosing scope becomes current.
    pub fn close_enclosed(&mut self)
        requires
            old(self)@.len() > 1,
        ensures
            final(self)@ == old(self)@.drop_last(),
    {
        self.scopes.pop();
        assert(self@ =~= old(self)@.drop_last());
    }

    pub fn depth(&self) -> (r: usize)
        ensures
            r == self@.len(),
    {
        self.scopes.len()
    }

    /// Binds `name` in the innermost scope, overriding a binding of it
    /// there; enclosing scopes are not looked at.
    pub fn define(&mut self, name: &str, value: LoxObject)
        ensures
            final(self)@ == env_define(old(self)@, name@, value@),
    {
        let b = Binding { name: name.to_owned(), value };
        let n = self.scopes.len();
        if n == 0 {
            self.scopes.push(vec![b]);
            assert(scope_view(seq![b]) =~= seq![(name@, value@)]);
            assert(self@ =~~= env_define(old(self)@, name@, value@));
        } else {
            let ghost old_last = self.scopes@[n - 1]@;
            self.scopes[n - 1].push(b);
            assert(scope_view(self.scopes@[n - 1]@) =~= scope_view(old_last).push((name@, value@)));
            assert(self@ =~= env_define(old(self)@, name@, value@));
        }
    }

    /// The position in scope `k` of the binding of `name` that counts, or
    /// `None`.
    fn find_in(&self, k: usize, name: &String) -> (r: Option<usize>)
        requires
            k < self@.len(),
        ensures
            scope_find(self@[k as int], name@) < self@[k as int].len(),
            scope_find(self@[k as int], name@) >= 0 <==> r is Some,
            r matches Some(j) ==> j == scope_find(self@[k as int], name@),
            r matches Some(j) ==> self@[k as int][j as int].0 == name@,
    {
        let scope = &self.scopes[k];
        let ghost sv = scope_view(scope@);
        assert(sv == self@[k as int]);
        proof {
            lemma_scope_find_range(sv, name@);
        }
        let mut j = scope.len();
        assert(sv.subrange(0, j as int) =~= sv);
        while j > 0
            invariant
                j <= scope@.len(),
                k < self@.len(),
                sv == self@[k as int],
                -1 <= scope_find(sv, name@) < sv.len(),
                scope_find(sv, name@) >= 0 ==> sv[scope_find(sv, name@)].0 == name@,
                sv == scope_view(scope@),
                scope_find(sv, name@) == scope_find(sv.subrange(0, j as int), name@),
            decreases j,
        {
            assert(sv.subrange(0, j as int).drop_last() =~= sv.subrange(0, j - 1));
            assert(sv[j - 1] == (scope@[j - 1].name@, scope@[j - 1].value@));
            assert(sv.subrange(0, j as int).last() == sv[j - 1]);
            if scope[j - 1].name == *name {
                return Some(j - 1);
            }
            j = j - 1;
        }
        None
    }

    /// The value bound to `name` in the nearest scope of the chain.
    pub fn get(&self, name: &Token) -> (r: Result<LoxObject, RuntimeError>)
        ensures
            env_get(self@, name.lexeme@) matches Some(v) ==> (r matches Ok(o) && o@ == v),
            env_get(self@, name.lexeme@) is None ==> (r matches Err(e)
                && e@ == (ErrModel { token: name@, message: undefined_message(name.lexeme@) })),
    {
        let mut k = self.scopes.len();
        assert(self@.subrange(0, k as int) =~= self@);
        while k > 0
            invariant
                k <= self@.len(),
                env_get(self@, name.lexeme@) == env_get(self@.subrange(0, k as int), name.lexeme@),
            decreases k,
        {
            let ghost pre = self@.subrange(0, k as int);
            assert(pre.last() == self@[k - 1]);
            assert(pre.drop_last() =~= self@.subrange(0, k - 1));
            match self.find_in(k - 1, &name.lexeme) {
                Some(j) => {
                    assert(self@[k - 1] == scope_view(self.scopes@[k - 1]@));
                    return Ok(self.scopes[k - 1][j].value.duplicate());
                },
                None => {},
            }
            k = k - 1;
        }
        Err(undefined_error(name))
    }

    /// Sets `name` to `value` in the nearest scope of the chain that binds
    /// it; never makes a new binding.
    pub fn assign(&mut self, name: &Token, value: LoxObject) -> (r: Result<(), RuntimeError>)
        ensures
            env_assign(old(self)@, name.lexeme@, value@) matches Some(sc) ==> r is Ok && final(self)@ == sc,
            env_assign(old(self)@, name.lexeme@, value@) is None ==> (r matches Err(e)
                && e@ == (ErrModel { token: name@, message: undefined_message(name.lexeme@) })
                && final(self)@ == old(self)@),
    {
        let mut k = self.scopes.len();
        proof {
            assert(self@.subrange(0, k as int) =~= self@);
            match env_assign(self@, name.lexeme@, value@) {
                Some(r) => {
                    assert(r + self@.subrange(k as int, k as int) =~= r);
                },
                None => {},
            }
        }
        while k > 0
            invariant
                k <= self@.len(),
                self@ == old(self)@,
                env_assign(self@, name.lexeme@, value@) == match env_assign(self@.subrange(0, k as int), name.lexeme@, value@) {
                    Some(r) => Some(r + self@.subrange(k as int, self@.len() as int)),
                    None => None::<Seq<ScopeModel>>,
                },
            decreases k,
        {
            let ghost pre = self@.subrange(0, k as int);
            assert(pre.last() == self@[k - 1]);
            assert(pre.drop_last() =~= self@.subrange(0, k - 1));
            match self.find_in(k - 1, &name.lexeme) {
                Some(j) => {
                    let ghost before = self@;
                    let ghost sk = self.scopes@[k - 1]@;
                    self.scopes[k - 1][j].value = value;
                    proof {
                        assert(scope_view(self.scopes@[k - 1]@) =~= scope_view(sk).update(j as int, (name.lexeme@, value@)));
                        assert(self@ =~= pre.update(k - 1, pre.last().update(j as int, (name.lexeme@, value@)))
                            + before.subrange(k as int, before.len() as int));
                    }
                    return Ok(());
                },
                None => {
                    proof {
                        let rest = self@.subrange(k as int, self@.len() as int);
                        assert(self@.subrange(k - 1, self@.len() as int) =~= seq![pre.last()] + rest);
                        match env_assign(pre.drop_last(), name.lexeme@, value@) {
                            Some(r) => {
                                assert(r.push(pre.last()) + rest =~= r + self@.subrange(k - 1, self@.len() as int));
                            },
                            None => {},
                        }
                    }
                },
            }
            k = k - 1;
        }
        Err(undefined_error(name))
    }
}

} // verus!

verus! {

proof fn lemma_get_after_assign(sc: Seq<ScopeModel>, n: Seq<char>, w: ObjModel)
    ensures
        env_assign(sc, n, w) is Some <==> env_get(sc, n) is Some,
        env_assign(sc, n, w) matches Some(r) ==> env_get(r, n) == Some(w),
    decreases sc.len(),
{
    if sc.len() > 0 {
        lemma_get_after_assign(sc.drop_last(), n, w);
        let last = sc.last();
        let i = scope_find(last, n);
        lemma_scope_find_range(last, n);
        if i >= 0 {
            let r = sc.update(sc.len() - 1, last.update(i, (n, w)));
            lemma_find_after_update(last, n, i, w);
            assert(r.last() == last.update(i, (n, w)));
        } else {
            match env_assign(sc.drop_last(), n, w) {
                Some(r0) => {
                    let r = r0.push(last);
                    assert(r.last() == last);
                    assert(r.drop_last() =~= r0);
                },
                None => {},
            }
        }
    }
}

proof fn lemma_find_after_update(s: ScopeModel, n: Seq<char>, i: int, w: ObjModel)
    requires
        i == scope_find(s, n),
        0 <= i < s.len(),
    ensures
        scope_find(s.update(i, (n, w)), n) == i,
    decreases s.len(),
{
    let u = s.update(i, (n, w));
    if s.last().0 != n {
        lemma_scope_find_range(s.drop_last(), n);
        assert(u.drop_last() =~= s.drop_last().update(i, (n, w)));
        lemma_find_after_update(s.drop_last(), n, i, w);
    }
}

/// Block scoping. In a block entered from the chain `sc`: a declaration of
/// `n` shadows any outer binding of `n` inside the block, and leaving the
/// block gives back `sc` unchanged; an assignment to `n` inside a block that
/// does not declare `n` changes the outer binding, and the block's scope is
/// left as it was.
pub proof fn lemma_block_scoping(sc: Seq<ScopeModel>, inner: ScopeModel, n: Seq<char>, v: ObjModel, w: ObjModel)
    requires
        sc.len() >= 1,
    ensures
        env_get(env_define(sc.push(Seq::empty()), n, v), n) == Some(v),
        env_define(sc.push(Seq::empty()), n, v).drop_last() == sc,
        scope_find(inner, n) < 0 && env_get(sc, n) is Some ==> {
            &&& env_assign(sc.push(inner), n, w) == Some(env_assign(sc, n, w)->Some_0.push(inner))
            &&& env_get(env_assign(sc, n, w)->Some_0, n) == Some(w)
        },
{
    let d = env_define(sc.push(Seq::empty()), n, v);
    assert(d.last() =~= seq![(n, v)]);
    assert(scope_find(d.last(), n) == 0);
    assert(d.drop_last() =~= sc);
    let outer = sc.push(inner);
    assert(outer.drop_last() =~= sc);
    lemma_get_after_assign(sc, n, w);
}

} // verus!
