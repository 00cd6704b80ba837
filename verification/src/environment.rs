use vstd::prelude::*;

use crate::expression::{
    Value, ValueV, clone_value, field_lookup, fields_view, lemma_fields_view_index, lemma_fields_view_len,
    lemma_fields_view_push, lemma_fields_view_update,
};
use crate::interpreter::{ErrV, Interrupt, InterruptV, RuntimeError};
use crate::semantics::no_enclosing;
use crate::token::{Token, TokenV};

verus! {

/// The index of the last binding of `name` in a scope.
pub open spec fn last_index(f: Seq<(Seq<char>, ValueV)>, name: Seq<char>) -> Option<int>
    decreases f.len(),
{
    if f.len() == 0 {
        None
    } else if f[f.len() - 1].0 == name {
        Some(f.len() - 1)
    } else {
        last_index(f.subrange(0, f.len() - 1), name)
    }
}

/// A scope after binding `name` to `v`: an existing binding is replaced, otherwise one
/// is added.
pub open spec fn frame_define(f: Seq<(Seq<char>, ValueV)>, name: Seq<char>, v: ValueV) -> Seq<(Seq<char>, ValueV)> {
    match last_index(f, name) {
        Some(k) => f.update(k, (name, v)),
        None => f.push((name, v)),
    }
}

/// The value of `name` in a chain of scopes (outermost first): the innermost scope
/// that binds it decides.
pub open spec fn chain_get(frames: Seq<Seq<(Seq<char>, ValueV)>>, name: Seq<char>) -> Option<ValueV>
    decreases frames.len(),
{
    if frames.len() == 0 {
        None
    } else {
        match field_lookup(frames[frames.len() - 1], name) {
            Some(v) => Some(v),
            None => chain_get(frames.subrange(0, frames.len() - 1), name),
        }
    }
}

/// The chain of scopes after assigning `v` to `name` in the innermost scope that binds
/// it; `None` when no scope does.
pub open spec fn chain_assign(frames: Seq<Seq<(Seq<char>, ValueV)>>, name: Seq<char>, v: ValueV) -> Option<Seq<Seq<(Seq<char>, ValueV)>>>
    decreases frames.len(),
{
    if frames.len() == 0 {
        None
    } else if last_index(frames[frames.len() - 1], name) is Some {
        Some(frames.update(frames.len() - 1, frame_define(frames[frames.len() - 1], name, v)))
    } else {
        match chain_assign(frames.subrange(0, frames.len() - 1), name, v) {
            Some(fs) => Some(fs.push(frames[frames.len() - 1])),
            None => None,
        }
    }
}

/// Assigning keeps the number of scopes.
pub proof fn lemma_chain_assign_len(frames: Seq<Seq<(Seq<char>, ValueV)>>, name: Seq<char>, v: ValueV)
    ensures
        chain_assign(frames, name, v) matches Some(fs) ==> fs.len() == frames.len(),
    decreases frames.len(),
{
    if frames.len() > 0 {
        lemma_chain_assign_len(frames.subrange(0, frames.len() - 1), name, v);
    }
}

/// The error for a name that no scope binds.
pub open spec fn undefined_variable(token: TokenV) -> ErrV {
    ErrV { token, message: "Undefined variable"@ }
}

/// Looking a name up in a scope finds the binding at its last index.
pub proof fn lemma_lookup_at_last_index(f: Seq<(Seq<char>, ValueV)>, name: Seq<char>)
    ensures
        match last_index(f, name) {
            Some(k) => 0 <= k < f.len() && f[k].0 == name && field_lookup(f, name) == Some(f[k].1),
            None => field_lookup(f, name) is None,
        },
    decreases f.len(),
{
    if f.len() > 0 {
        let p = f.subrange(0, f.len() - 1);
        lemma_lookup_at_last_index(p, name);
    }
}

/// A scope of variables, with the scope that encloses it.
pub struct Environment {
    pub values: Vec<(String, Value)>,
    pub enclosing: Option<Box<Environment>>,
}

/// The scopes of an environment, outermost first.
pub open spec fn env_frames(e: Environment) -> Seq<Seq<(Seq<char>, ValueV)>>
    decreases e,
{
    match e.enclosing {
        None => seq![fields_view(e.values@)],
        Some(b) => env_frames(*b).push(fields_view(e.values@)),
    }
}

impl View for Environment {
    type V = Seq<Seq<(Seq<char>, ValueV)>>;

    open spec fn view(&self) -> Seq<Seq<(Seq<char>, ValueV)>> {
        env_frames(*self)
    }
}

/// The scopes of an environment are those of its enclosing chain, then its own.
pub proof fn lemma_env_split(e: Environment)
    ensures
        env_frames(e).len() >= 1,
        env_frames(e)[env_frames(e).len() - 1] == fields_view(e.values@),
        env_frames(e).subrange(0, env_frames(e).len() - 1) == match e.enclosing {
            Some(b) => env_frames(*b),
            None => Seq::empty(),
        },
{
    lemma_env_nonempty(e);
    match e.enclosing {
        Some(b) => {
            assert(env_frames(e).subrange(0, env_frames(e).len() - 1) =~= env_frames(*b));
        },
        None => {
            assert(env_frames(e).subrange(0, env_frames(e).len() - 1) =~= Seq::empty());
        },
    }
}

/// An environment has at least one scope.
pub proof fn lemma_env_nonempty(e: Environment)
    ensures
        env_frames(e).len() >= 1,
    decreases e,
{
    match e.enclosing {
        None => {},
        Some(b) => lemma_env_nonempty(*b),
    }
}

impl Environment {
    /// An empty scope inside `enclosing`.
    pub fn new(enclosing: Option<Box<Environment>>) -> (r: Self)
        ensures
            r@ == match enclosing {
                Some(b) => (*b)@,
                None => Seq::empty(),
            }.push(Seq::empty()),
    {
        let r = Environment { values: Vec::new(), enclosing };
        assert(fields_view(r.values@) =~= Seq::empty());
        assert(seq![Seq::<(Seq<char>, ValueV)>::empty()] =~= Seq::empty().push(Seq::empty()));
        r
    }

    /// The index of the last binding of `name` in this scope alone.
    fn index_of(&self, name: &String) -> (r: Option<usize>)
        ensures
            match r {
                Some(k) => last_index(fields_view(self.values@), name@) == Some(k as int)
                    && k < self.values.len(),
                None => last_index(fields_view(self.values@), name@) is None,
            },
    {
        let mut i: usize = self.values.len();
        proof {
            assert(self.values@.subrange(0, i as int) =~= self.values@);
        }
        while i > 0
            invariant
                i <= self.values.len(),
                last_index(fields_view(self.values@), name@) == last_index(
                    fields_view(self.values@.subrange(0, i as int)),
                    name@,
                ),
            decreases i,
        {
            let ghost prefix = self.values@.subrange(0, i as int);
            let ghost shorter = self.values@.subrange(0, i - 1);
            proof {
                assert(prefix.subrange(0, i - 1) =~= shorter);
                lemma_fields_view_len(shorter);
                lemma_fields_view_len(prefix);
                assert(fields_view(prefix).subrange(0, i - 1) =~= fields_view(shorter));
            }
            if self.values[i - 1].0 == *name {
                return Some(i - 1);
            }
            i = i - 1;
        }
        None
    }

    /// Binds `name` to `value` in this scope.
    fn bind(&mut self, name: String, value: Value)
        ensures
            fields_view(final(self).values@) == frame_define(fields_view(old(self).values@), name@, value@),
            final(self).enclosing == old(self).enclosing,
    {
        match self.index_of(&name) {
            Some(k) => {
                let ghost n = name@;
                let ghost v = value@;
                proof {
                    lemma_fields_view_update(self.values@, k as int, (name, value));
                }
                self.values.set(k, (name, value));
                assert(fields_view(self.values@) =~= fields_view(old(self).values@).update(k as int, (n, v)));
            },
            None => {
                proof {
                    lemma_fields_view_push(self.values@, (name, value));
                }
                self.values.push((name, value));
            },
        }
    }

    /// Defines the variable named by the token in the innermost scope.
    pub fn define(&mut self, token: &Token, value: Value)
        ensures
            final(self)@ == old(self)@.update(
                old(self)@.len() - 1,
                frame_define(old(self)@[old(self)@.len() - 1], token.lexeme@, value@),
            ),
    {
        self.define_native(token.lexeme.as_str(), value);
    }

    /// Defines a variable by its name in the innermost scope.
    pub fn define_native(&mut self, name: &str, value: Value)
        ensures
            final(self)@ == old(self)@.update(
                old(self)@.len() - 1,
                frame_define(old(self)@[old(self)@.len() - 1], name@, value@),
            ),
    {
        let ghost before = old(self)@;
        self.bind(name.to_string(), value);
        proof {
            lemma_env_nonempty(*old(self));
            match old(self).enclosing {
                None => {},
                Some(b) => {},
            }
        }
        assert(self@ =~= before.update(
            before.len() - 1,
            frame_define(before[before.len() - 1], name@, value@),
        ));
    }

    /// The value bound to the token's name in this scope alone.
    fn get_var(&self, token: &Token) -> (r: Option<&Value>)
        ensures
            match r {
                Some(v) => field_lookup(fields_view(self.values@), token.lexeme@) == Some(v@),
                None => field_lookup(fields_view(self.values@), token.lexeme@) is None,
            },
    {
        match self.index_of(&token.lexeme) {
            Some(k) => {
                proof {
                    lemma_lookup_at_last_index(fields_view(self.values@), token.lexeme@);
                    lemma_fields_view_index(self.values@, k as int);
                }
                Some(&self.values[k].1)
            },
            None => {
                proof {
                    lemma_lookup_at_last_index(fields_view(self.values@), token.lexeme@);
                }
                None
            },
        }
    }

    /// The value of the variable named by the token, looked up from this scope outward.
    pub fn get(&self, token: &Token) -> (r: Result<Value, Interrupt<RuntimeError>>)
        ensures
            match chain_get(self@, token.lexeme@) {
                Some(v) => r matches Ok(x) && x@ == v,
                None => r matches Err(e) && e@ == InterruptV::Error(undefined_variable(token@)),
            },
        decreases self,
    {
        proof {
            lemma_env_split(*self);
            reveal_with_fuel(chain_get, 2);
        }
        if let Some(v) = self.get_var(token) {
            Ok(clone_value(v))
        } else if let Some(env) = &self.enclosing {
            env.get(token)
        } else {
            Err(self.undefined_var(token).wrap())
        }
    }

    /// Assigns to the variable named by the token, in the innermost scope that binds it.
    pub fn assign(&mut self, token: &Token, value: &Value) -> (r: Result<(), Interrupt<RuntimeError>>)
        ensures
            match chain_assign(old(self)@, token.lexeme@, value@) {
                Some(fs) => r is Ok && final(self)@ == fs,
                None => r matches Err(e) && e@ == InterruptV::Error(undefined_variable(token@))
                    && final(self)@ == old(self)@,
            },
        decreases *old(self),
    {
        proof {
            lemma_env_split(*self);
            lemma_lookup_at_last_index(fields_view(self.values@), token.lexeme@);
            reveal_with_fuel(chain_assign, 2);
        }
        if self.get_var(token).is_some() {
            let r = self.assign_var(token, value);
            proof {
                lemma_env_split(*self);
                assert(self@ =~= old(self)@.update(
                    old(self)@.len() - 1,
                    frame_define(old(self)@[old(self)@.len() - 1], token.lexeme@, value@),
                ));
            }
            r
        } else if self.enclosing.is_some() {
            let mut env = self.enclosing.take().unwrap();
            let r = (&mut *env).assign(token, value);
            self.enclosing = Some(env);
            proof {
                lemma_env_split(*self);
                if r is Ok {
                    assert(self@ =~= chain_assign(old(self)@, token.lexeme@, value@).unwrap());
                } else {
                    assert(self@ =~= old(self)@);
                }
            }
            r
        } else {
            Err(self.undefined_var(token).wrap())
        }
    }

    /// Assigns to the variable named by the token, looking from the scope `distance`
    /// levels out from this one.
    pub fn assign_at(&mut self, distance: usize, token: &Token, value: &Value) -> (r: Result<(), Interrupt<RuntimeError>>)
        ensures
            distance >= old(self)@.len() ==> (r matches Err(e) && e@ == no_enclosing(token@) && final(self)@ == old(self)@),
            distance < old(self)@.len() ==> match chain_assign(
                old(self)@.subrange(0, old(self)@.len() - distance),
                token.lexeme@,
                value@,
            ) {
                Some(fs) => r is Ok && final(self)@ == fs + old(self)@.subrange(
                    old(self)@.len() - distance,
                    old(self)@.len() as int,
                ),
                None => r matches Err(e) && e@ == InterruptV::Error(undefined_variable(token@))
                    && final(self)@ == old(self)@,
            },
        decreases distance,
    {
        proof {
            lemma_env_split(*self);
        }
        let ghost n = old(self)@.len();
        if distance == 0 {
            proof {
                assert(old(self)@.subrange(0, n as int) =~= old(self)@);
            }
            let r = self.assign(token, value);
            proof {
                if r is Ok {
                    let fs = chain_assign(old(self)@, token.lexeme@, value@).unwrap();
                    assert(fs + old(self)@.subrange(n as int, n as int) =~= fs);
                }
            }
            r
        } else if self.enclosing.is_some() {
            let mut env = self.enclosing.take().unwrap();
            let ghost outer = (*env)@;
            let r = (&mut *env).assign_at(distance - 1, token, value);
            self.enclosing = Some(env);
            proof {
                lemma_env_split(*self);
                assert(outer =~= old(self)@.subrange(0, n - 1));
                if distance < n {
                    assert(outer.subrange(0, outer.len() - (distance - 1)) =~= old(self)@.subrange(0, n - distance));
                    if r is Ok {
                        let fs = chain_assign(old(self)@.subrange(0, n - distance), token.lexeme@, value@).unwrap();
                        assert(self@ =~= fs + old(self)@.subrange(n - distance, n as int));
                    } else {
                        assert(self@ =~= old(self)@);
                    }
                } else {
                    assert(self@ =~= old(self)@);
                }
            }
            r
        } else {
            Err(RuntimeError { token: token.clone(), message: "Enclosing environment must exist".to_string() }.wrap())
        }
    }

    fn assign_var(&mut self, token: &Token, value: &Value) -> (r: Result<(), Interrupt<RuntimeError>>)
        requires
            field_lookup(fields_view(old(self).values@), token.lexeme@) is Some,
        ensures
            r is Ok,
            fields_view(final(self).values@) == frame_define(fields_view(old(self).values@), token.lexeme@, value@),
            final(self).enclosing == old(self).enclosing,
    {
        self.bind(token.lexeme.clone(), clone_value(value));
        Ok(())
    }

    fn undefined_var(&self, token: &Token) -> (r: RuntimeError)
        ensures
            r@ == undefined_variable(token@),
    {
        RuntimeError { token: token.clone(), message: "Undefined variable".to_string() }
    }
}

} // verus!
