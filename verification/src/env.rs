//! The flat, mutable variable environment shared by a whole execution.

use vstd::prelude::*;

use crate::ast::{view_ast, ASTNode, Ast};

verus! {

/// The single namespace of an execution: names bound to stored syntax tree
/// nodes. Variables and function declarations share it; binding a name that
/// is already bound silently overwrites it.
pub struct Env {
    entries: Vec<(String, ASTNode)>,
}

impl Env {
    /// Well-formed: no name occurs twice.
    pub closed spec fn wf(self) -> bool {
        forall|i: int, j: int|
            0 <= i < j < self.entries@.len() ==> self.entries@[i].0@ != self.entries@[j].0@
    }

    /// The model: a mapping from names to the models of the stored nodes.
    pub closed spec fn as_map(self) -> Map<Seq<char>, Ast> {
        Map::new(
            |k: Seq<char>|
                exists|i: int| 0 <= i < self.entries@.len() && self.entries@[i].0@ == k,
            |k: Seq<char>| view_ast(self.entries@[self.index_of(k)].1),
        )
    }

    /// The position of a name among the entries.
    pub closed spec fn index_of(self, k: Seq<char>) -> int {
        choose|i: int| 0 <= i < self.entries@.len() && self.entries@[i].0@ == k
    }

    /// In a well-formed environment, an entry's position pins down what the
    /// model maps its name to.
    proof fn lemma_entry_value(self, i: int)
        requires
            self.wf(),
            0 <= i < self.entries@.len(),
        ensures
            self.as_map().contains_key(self.entries@[i].0@),
            self.as_map()[self.entries@[i].0@] == view_ast(self.entries@[i].1),
    {
        let k = self.entries@[i].0@;
        assert(self.as_map().contains_key(k));
        let j = self.index_of(k);
        assert(0 <= j < self.entries@.len() && self.entries@[j].0@ == k);
        if i != j {
            assert(false);
        }
    }

    /// A fresh, empty environment.
    pub fn new() -> (r: Env)
        ensures
            r.wf(),
            r.as_map() == Map::<Seq<char>, Ast>::empty(),
    {
        let r = Env { entries: Vec::new() };
        proof {
            assert(r.as_map() =~= Map::<Seq<char>, Ast>::empty());
        }
        r
    }

    /// Looks a name up, returning the stored node if the name is bound.
    pub fn get(&self, name: &String) -> (r: Option<&ASTNode>)
        requires
            self.wf(),
        ensures
            match r {
                Some(node) => self.as_map().contains_key(name@) && view_ast(*node)
                    == self.as_map()[name@],
                None => !self.as_map().contains_key(name@),
            },
    {
        let mut idx: usize = 0;
        while idx < self.entries.len()
            invariant
                idx <= self.entries@.len(),
                self.wf(),
                forall|m: int| 0 <= m < idx ==> self.entries@[m].0@ != name@,
            decreases self.entries@.len() - idx,
        {
            if self.entries[idx].0 == *name {
                proof {
                    self.lemma_entry_value(idx as int);
                }
                return Some(&self.entries[idx].1);
            }
            idx = idx + 1;
        }
        proof {
            assert forall|i: int| 0 <= i < self.entries@.len() implies self.entries@[i].0@
                != name@ by {}
        }
        None
    }

    /// The position of a name among the entries, if it is bound.
    fn find_index(&self, name: &String) -> (r: Option<usize>)
        ensures
            match r {
                Some(i) => i < self.entries@.len() && self.entries@[i as int].0@ == name@,
                None => forall|m: int|
                    0 <= m < self.entries@.len() ==> self.entries@[m].0@ != name@,
            },
    {
        let mut idx: usize = 0;
        while idx < self.entries.len()
            invariant
                idx <= self.entries@.len(),
                forall|m: int| 0 <= m < idx ==> self.entries@[m].0@ != name@,
            decreases self.entries@.len() - idx,
        {
            if self.entries[idx].0 == *name {
                return Some(idx);
            }
            idx = idx + 1;
        }
        None
    }

    /// Binds a name, overwriting any existing binding of it.
    pub fn set(&mut self, name: String, node: ASTNode)
        requires
            old(self).wf(),
        ensures
            final(self).wf(),
            final(self).as_map() == old(self).as_map().insert(name@, view_ast(node)),
    {
        let ghost old_env = *self;
        let ghost gname = name@;
        let ghost gnode = view_ast(node);
        proof {
            assert(old_env == *old(self));
        }
        let ghost target = old_env.as_map().insert(gname, gnode);
        match self.find_index(&name) {
            Some(idx) => {
                self.entries[idx] = (name, node);
                proof {
                    let i = idx as int;
                    assert(self.entries@[i].0@ == gname && view_ast(self.entries@[i].1)
                        == gnode);
                    assert forall|m: int|
                        0 <= m < self.entries@.len() implies #[trigger] self.entries@[m].0@
                        == old_env.entries@[m].0@ by {}
                    assert(self.wf());
                    self.lemma_entry_value(i);
                    assert forall|k: Seq<char>| #[trigger] target.contains_key(
                        k,
                    ) implies self.as_map().contains_key(k) && self.as_map()[k] == target[k] by {
                        if k != gname {
                            assert(old_env.as_map().contains_key(k));
                            let w = old_env.index_of(k);
                            old_env.lemma_entry_value(w);
                            assert(self.entries@[w].0@ == k);
                            self.lemma_entry_value(w);
                        }
                    }
                    assert forall|k: Seq<char>| #[trigger] self.as_map().contains_key(
                        k,
                    ) implies target.contains_key(k) by {
                        if k != gname {
                            let w = self.index_of(k);
                            assert(old_env.entries@[w].0@ == k);
                            old_env.lemma_entry_value(w);
                        }
                    }
                    assert(self.as_map() =~= target);
                }
            },
            None => {
                self.entries.push((name, node));
                proof {
                    let n = old_env.entries@.len() as int;
                    assert(self.entries@[n].0@ == gname && view_ast(self.entries@[n].1)
                        == gnode);
                    assert(self.wf());
                    self.lemma_entry_value(n);
                    assert forall|k: Seq<char>| #[trigger] target.contains_key(
                        k,
                    ) implies self.as_map().contains_key(k) && self.as_map()[k] == target[k] by {
                        if k != gname {
                            assert(old_env.as_map().contains_key(k));
                            let w = old_env.index_of(k);
                            old_env.lemma_entry_value(w);
                            assert(self.entries@[w].0@ == k);
                            self.lemma_entry_value(w);
                        }
                    }
                    assert forall|k: Seq<char>| #[trigger] self.as_map().contains_key(
                        k,
                    ) implies target.contains_key(k) by {
                        if k != gname {
                            let w = self.index_of(k);
                            assert(0 <= w < self.entries@.len() && self.entries@[w].0@ == k);
                            assert(w < n);
                            assert(old_env.entries@[w].0@ == k);
                            old_env.lemma_entry_value(w);
                        }
                    }
                    assert(self.as_map() =~= target);
                }
            },
        }
    }
}

} // verus!

