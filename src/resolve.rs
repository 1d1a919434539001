//! The variable resolver: declarations are resolved one at a time, in
//! order, each against the variables declared before it. The caller runs
//! the command references of each declaration and hands back their
//! outputs.
use vstd::prelude::*;
use crate::error::PreprocessError;
use crate::table::VariableTable;
use crate::template::{assemble, assembled, patch_string, plan, segments_of, views_of, Piece};

verus! {

/// The declarations of a recipe and how far their resolution has come.
pub struct Resolver {
    declarations: Vec<(String, String)>,
    table: VariableTable,
    next: usize,
}

/// The declarations as characters.
pub open spec fn declarations_view(d: Seq<(String, String)>) -> Seq<(Seq<char>, Seq<char>)> {
    d.map_values(|e: (String, String)| (e.0@, e.1@))
}

impl Resolver {
    /// The declarations, in order.
    pub closed spec fn declared(&self) -> Seq<(Seq<char>, Seq<char>)> {
        declarations_view(self.declarations@)
    }

    /// The variables resolved so far.
    pub closed spec fn resolved(&self) -> Map<Seq<char>, Seq<char>> {
        self.table@
    }

    /// How many declarations have been resolved.
    pub closed spec fn position(&self) -> nat {
        self.next as nat
    }

    /// Only the declarations before the position are resolved, so no
    /// value can reference its own variable or a later one.
    pub closed spec fn wf(&self) -> bool {
        &&& self.table.wf()
        &&& self.next <= self.declarations@.len()
        &&& forall|k: Seq<char>| #[trigger] self.table@.contains_key(k)
            ==> exists|j: int| 0 <= j < self.next && self.declared()[j].0 == k
    }

    /// A resolver at the first of `declarations`, with no variable resolved.
    pub fn new(declarations: Vec<(String, String)>) -> (r: Resolver)
        ensures
            r.wf(),
            r.position() == 0,
            r.declared() == declarations_view(declarations@),
            r.resolved() == Map::<Seq<char>, Seq<char>>::empty(),
    {
        Resolver { declarations, table: VariableTable::new(), next: 0 }
    }

    /// The resolved variables.
    pub fn table(&self) -> (r: &VariableTable)
        requires
            self.wf(),
        ensures
            r.wf(),
            r@ == self.resolved(),
    {
        &self.table
    }

    /// Every declaration is resolved.
    pub fn is_done(&self) -> (r: bool)
        requires
            self.wf(),
        ensures
            r == (self.position() == self.declared().len()),
    {
        self.next == self.declarations.len()
    }

    /// The value of the next declaration scanned against the variables
    /// resolved so far; an undefined reference names the declaration.
    pub fn pending(&self) -> (r: Result<Vec<Piece>, PreprocessError>)
        requires
            self.wf(),
            self.position() < self.declared().len(),
        ensures
            match plan(self.declared()[self.position() as int].1, self.resolved()) {
                Ok(segs) => r is Ok && segments_of(r->Ok_0@) == segs,
                Err(name) => r matches Err(PreprocessError::UndefinedVariable { key, name: n })
                    && key@ == self.declared()[self.position() as int].0 && n@ == name,
            },
    {
        let d = &self.declarations[self.next];
        match patch_string(&d.1, &self.table) {
            Ok(p) => Ok(p),
            Err(name) => Err(PreprocessError::UndefinedVariable { key: d.0.clone(), name }),
        }
    }

    /// Resolves the next declaration: `outputs[i]` is the standard output
    /// of the command of piece `i` of `pending` (ignored for text pieces).
    /// The variable is bound to the value assembled from them.
    pub fn define(&mut self, outputs: &Vec<String>)
        requires
            old(self).wf(),
            old(self).position() < old(self).declared().len(),
            plan(old(self).declared()[old(self).position() as int].1, old(self).resolved()) is Ok,
            plan(old(self).declared()[old(self).position() as int].1, old(self).resolved())->Ok_0.len()
                == outputs@.len(),
        ensures
            final(self).wf(),
            final(self).declared() == old(self).declared(),
            final(self).position() == old(self).position() + 1,
            final(self).resolved() == old(self).resolved().insert(
                old(self).declared()[old(self).position() as int].0,
                assembled(
                    plan(old(self).declared()[old(self).position() as int].1, old(self).resolved())->Ok_0,
                    views_of(outputs@),
                ),
            ),
    {
        let pieces = match self.pending() {
            Ok(p) => p,
            Err(_) => return,
        };
        let count = self.declarations.len();
        let value = assemble(&pieces, outputs);
        let name = self.declarations[self.next].0.clone();
        let ghost before = self.table@;
        let ghost j = self.next as int;
        self.table.insert(name, value);
        proof {
            assert(self.next < count);
        }
        self.next = self.next + 1;
        proof {
            assert(self.declared()[j].0 == self.declarations@[j].0@);
            assert forall|k: Seq<char>| #[trigger] self.table@.contains_key(k)
                implies exists|i: int| 0 <= i < self.next && self.declared()[i].0 == k by {
                if k != self.declared()[j].0 {
                    assert(before.contains_key(k));
                }
            }
        }
    }
}

} // verus!
