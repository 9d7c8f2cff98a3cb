//! What the parse of one file carries: its directory, the files that are
//! open, and its variables.

use crate::assoc::{index_of_key, inserted, keys_distinct, lookup};
use vstd::prelude::*;

verus! {

/// What a list of texts is to a specification.
pub open spec fn texts_view(texts: Seq<String>) -> Seq<Seq<char>> {
    Seq::new(texts.len(), |i: int| texts[i]@)
}

/// What a list of names with their texts is to a specification.
pub open spec fn pairs_view(pairs: Seq<(String, String)>) -> Seq<(Seq<char>, Seq<char>)> {
    Seq::new(pairs.len(), |i: int| (pairs[i].0@, pairs[i].1@))
}

/// Whether no path occurs twice.
pub open spec fn paths_distinct(paths: Seq<Seq<char>>) -> bool {
    forall|i: int, j: int| 0 <= i < j < paths.len() ==> paths[i] != paths[j]
}

/// The variables of one file: names with their replacement texts, in the
/// order in which the names were first declared.
#[derive(Debug, PartialEq, Eq)]
pub struct VariableRegistry {
    entries: Vec<(String, String)>,
}

impl View for VariableRegistry {
    type V = Seq<(Seq<char>, Seq<char>)>;

    closed spec fn view(&self) -> Seq<(Seq<char>, Seq<char>)> {
        pairs_view(self.entries@)
    }
}

impl VariableRegistry {
    #[verifier::type_invariant]
    spec fn well_formed(&self) -> bool {
        keys_distinct(self@)
    }

    /// A scope without variables.
    pub fn new() -> (r: VariableRegistry)
        ensures
            r@ == Seq::<(Seq<char>, Seq<char>)>::empty(),
    {
        let entries: Vec<(String, String)> = Vec::new();
        assert(pairs_view(entries@) =~= Seq::<(Seq<char>, Seq<char>)>::empty());
        VariableRegistry { entries }
    }

    /// The number of variables.
    pub fn len(&self) -> (r: usize)
        ensures
            r == self@.len(),
            keys_distinct(self@),
    {
        proof {
            use_type_invariant(self);
        }
        self.entries.len()
    }

    /// The name of variable `i`.
    pub fn name_at(&self, i: usize) -> (r: &str)
        requires
            i < self@.len(),
        ensures
            r@ == self@[i as int].0,
    {
        self.entries[i].0.as_str()
    }

    /// The replacement text of variable `i`.
    pub fn value_at(&self, i: usize) -> (r: &str)
        requires
            i < self@.len(),
        ensures
            r@ == self@[i as int].1,
    {
        self.entries[i].1.as_str()
    }

    fn position(&self, name: &str) -> (r: usize)
        ensures
            r == index_of_key(self@, name@, 0),
            r <= self@.len(),
    {
        let wanted = name.to_owned();
        let mut k: usize = 0;
        while k < self.entries.len()
            invariant
                k <= self.entries.len(),
                wanted@ == name@,
                index_of_key(self@, name@, k as int) == index_of_key(self@, name@, 0),
            decreases self.entries.len() - k,
        {
            if self.entries[k].0 == wanted {
                return k;
            }
            k += 1;
        }
        k
    }

    /// The replacement text of the variable `name`.
    pub fn get(&self, name: &str) -> (r: Option<&str>)
        ensures
            match r {
                Some(v) => lookup(self@, name@) == Some(v@),
                None => lookup(self@, name@) is None,
            },
    {
        let i = self.position(name);
        if i < self.entries.len() {
            Some(self.entries[i].1.as_str())
        } else {
            None
        }
    }

    /// Declares the variable `name` with the replacement text `value`: in
    /// the place of an earlier declaration of the name, or as the last one.
    pub fn insert(&mut self, name: String, value: String)
        ensures
            final(self)@ == inserted(old(self)@, name@, value@),
    {
        proof {
            use_type_invariant(&*self);
            crate::assoc::lemma_inserted_keeps_keys_distinct(self@, name@, value@);
        }
        let i = self.position(name.as_str());
        let ghost before = self@;
        let mut entries: Vec<(String, String)> = Vec::new();
        assert(pairs_view(entries@) =~= Seq::<(Seq<char>, Seq<char>)>::empty());
        std::mem::swap(&mut entries, &mut self.entries);
        let ghost after = inserted(before, name@, value@);
        if i < entries.len() {
            assert(pairs_view(entries@.update(i as int, (name, value))) =~= after);
            entries.set(i, (name, value));
        } else {
            assert(pairs_view(entries@.push((name, value))) =~= after);
            entries.push((name, value));
        }
        self.entries = entries;
    }
}

/// A file that was asked for while it was still open.
#[derive(Debug, PartialEq, Eq)]
pub struct CircularImport {
    /// The canonical path of the file.
    pub path: String,
}

/// The canonical paths of the files that are open, the outermost first.
/// No path occurs twice.
#[derive(Debug, PartialEq, Eq)]
pub struct ImportStack {
    paths: Vec<String>,
}

impl View for ImportStack {
    type V = Seq<Seq<char>>;

    closed spec fn view(&self) -> Seq<Seq<char>> {
        texts_view(self.paths@)
    }
}

impl ImportStack {
    #[verifier::type_invariant]
    spec fn well_formed(&self) -> bool {
        paths_distinct(self@)
    }

    /// A stack without open files.
    pub fn new() -> (r: ImportStack)
        ensures
            r@ == Seq::<Seq<char>>::empty(),
    {
        let paths: Vec<String> = Vec::new();
        assert(texts_view(paths@) =~= Seq::<Seq<char>>::empty());
        ImportStack { paths }
    }

    /// The number of open files. The paths of a stack are pairwise distinct.
    pub fn len(&self) -> (r: usize)
        ensures
            r == self@.len(),
            paths_distinct(self@),
    {
        proof {
            use_type_invariant(self);
        }
        self.paths.len()
    }

    /// The path of open file `i`, the outermost being file 0.
    pub fn path_at(&self, i: usize) -> (r: &str)
        requires
            i < self@.len(),
        ensures
            r@ == self@[i as int],
    {
        self.paths[i].as_str()
    }

    /// Whether the file at `path` is open.
    pub fn contains(&self, path: &str) -> (r: bool)
        ensures
            r == self@.contains(path@),
    {
        let wanted = path.to_owned();
        let mut k: usize = 0;
        while k < self.paths.len()
            invariant
                k <= self.paths.len(),
                wanted@ == path@,
                forall|i: int| 0 <= i < k ==> self@[i] != path@,
            decreases self.paths.len() - k,
        {
            if self.paths[k] == wanted {
                assert(self@[k as int] == path@);
                return true;
            }
            k += 1;
        }
        false
    }

    /// Opens the file at `path`, unless it is open already: that is a
    /// circular import, and the stack stays as it was.
    pub fn enter(&mut self, path: &str) -> (r: Result<(), CircularImport>)
        ensures
            match r {
                Ok(_) => !old(self)@.contains(path@) && final(self)@ == old(self)@.push(path@),
                Err(e) => old(self)@.contains(path@) && final(self)@ == old(self)@ && e.path@
                    == path@,
            },
    {
        if self.contains(path) {
            return Err(CircularImport { path: path.to_owned() });
        }
        proof {
            use_type_invariant(&*self);
        }
        let ghost before = self@;
        let mut paths: Vec<String> = Vec::new();
        assert(texts_view(paths@) =~= Seq::<Seq<char>>::empty());
        std::mem::swap(&mut paths, &mut self.paths);
        let added = path.to_owned();
        assert(texts_view(paths@.push(added)) =~= before.push(path@));
        paths.push(added);
        self.paths = paths;
        Ok(())
    }

    /// Closes the file at `path`, wherever in the stack it is; the others
    /// keep their order.
    pub fn leave(&mut self, path: &str)
        ensures
            final(self)@ == old(self)@.filter(|p: Seq<char>| p != path@),
    {
        proof {
            use_type_invariant(&*self);
        }
        let wanted = path.to_owned();
        let ghost before = self@;
        let ghost keep = |p: Seq<char>| p != path@;
        let mut paths: Vec<String> = Vec::new();
        assert(texts_view(paths@) =~= Seq::<Seq<char>>::empty());
        std::mem::swap(&mut paths, &mut self.paths);
        let mut kept: Vec<String> = Vec::new();
        let mut k: usize = 0;
        proof {
            assert(before.take(0) =~= Seq::<Seq<char>>::empty());
            assert(texts_view(kept@) =~= Seq::<Seq<char>>::empty());
        }
        while k < paths.len()
            invariant
                k <= paths.len(),
                wanted@ == path@,
                keep == |p: Seq<char>| p != path@,
                texts_view(paths@) == before,
                texts_view(kept@) == before.take(k as int).filter(keep),
            decreases paths.len() - k,
        {
            proof {
                assert(before.take(k + 1) =~= before.take(k as int).push(before[k as int]));
                lemma_filter_push(before.take(k as int), before[k as int], keep);
            }
            if paths[k] != wanted {
                let copy = paths[k].clone();
                assert(texts_view(kept@.push(copy)) =~= texts_view(kept@).push(copy@));
                kept.push(copy);
            }
            k += 1;
        }
        proof {
            assert(before.take(paths.len() as int) =~= before);
            lemma_filter_keeps_distinct(before, keep);
        }
        self.paths = kept;
    }
}

impl Clone for ImportStack {
    fn clone(&self) -> (r: Self)
        ensures
            r@ == self@,
    {
        proof {
            use_type_invariant(self);
        }
        let mut paths: Vec<String> = Vec::new();
        let mut k: usize = 0;
        while k < self.paths.len()
            invariant
                k <= self.paths.len(),
                paths.len() == k,
                forall|i: int| 0 <= i < k ==> (#[trigger] paths[i])@ == self.paths[i]@,
            decreases self.paths.len() - k,
        {
            paths.push(self.paths[k].clone());
            k += 1;
        }
        assert(texts_view(paths@) =~= self@);
        ImportStack { paths }
    }
}

impl Clone for VariableRegistry {
    fn clone(&self) -> (r: Self)
        ensures
            r@ == self@,
    {
        proof {
            use_type_invariant(self);
        }
        let mut entries: Vec<(String, String)> = Vec::new();
        let mut k: usize = 0;
        while k < self.entries.len()
            invariant
                k <= self.entries.len(),
                entries.len() == k,
                forall|i: int|
                    0 <= i < k ==> (#[trigger] entries[i]).0@ == self.entries[i].0@
                        && entries[i].1@ == self.entries[i].1@,
            decreases self.entries.len() - k,
        {
            entries.push((self.entries[k].0.clone(), self.entries[k].1.clone()));
            k += 1;
        }
        assert(pairs_view(entries@) =~= self@);
        VariableRegistry { entries }
    }
}

/// Filtering a list with one more item filters the list and keeps or drops
/// the item.
pub proof fn lemma_filter_push(s: Seq<Seq<char>>, last: Seq<char>, keep: spec_fn(Seq<char>) -> bool)
    ensures
        s.push(last).filter(keep) == if keep(last) {
            s.filter(keep).push(last)
        } else {
            s.filter(keep)
        },
{
    reveal(Seq::filter);
    assert(s.push(last).drop_last() =~= s);
}

/// What a filter keeps of distinct paths is distinct.
pub proof fn lemma_filter_keeps_distinct(s: Seq<Seq<char>>, keep: spec_fn(Seq<char>) -> bool)
    requires
        paths_distinct(s),
    ensures
        paths_distinct(s.filter(keep)),
        forall|p: Seq<char>| s.filter(keep).contains(p) ==> s.contains(p),
    decreases s.len(),
{
    reveal(Seq::filter);
    if s.len() > 0 {
        let head = s.drop_last();
        lemma_filter_keeps_distinct(head, keep);
        assert(s =~= head.push(s.last()));
        lemma_filter_push(head, s.last(), keep);
        let f = head.filter(keep);
        assert forall|p: Seq<char>| s.filter(keep).contains(p) implies s.contains(p) by {
            let i = choose|i: int| 0 <= i < s.filter(keep).len() && s.filter(keep)[i] == p;
            if i < f.len() {
                assert(f[i] == p);
                assert(f.contains(p));
                assert(head.contains(p));
                let j = choose|j: int| 0 <= j < head.len() && head[j] == p;
                assert(s[j] == p);
            } else {
                assert(s[s.len() - 1] == p);
            }
        }
        if keep(s.last()) {
            assert forall|i: int, j: int| 0 <= i < j < f.push(s.last()).len() implies f.push(
                s.last(),
            )[i] != f.push(s.last())[j] by {
                if j == f.len() {
                    assert(f.contains(f[i]));
                    assert(head.contains(f[i]));
                    let a = choose|a: int| 0 <= a < head.len() && head[a] == f[i];
                    assert(s[a] == f[i]);
                    assert(s[s.len() - 1] == s.last());
                }
            }
        }
    }
}

/// The context of one file's parse.
#[derive(Debug, PartialEq, Eq)]
pub struct ParserContext {
    /// The directory of the file, from which its imports are found.
    pub current_dir: String,
    /// The files that are open, this one last.
    pub import_stack: ImportStack,
    /// The variables declared in the file so far.
    pub variable_registry: VariableRegistry,
}

impl Clone for ParserContext {
    fn clone(&self) -> (r: Self)
        ensures
            r.current_dir@ == self.current_dir@,
            r.import_stack@ == self.import_stack@,
            r.variable_registry@ == self.variable_registry@,
    {
        ParserContext {
            current_dir: self.current_dir.clone(),
            import_stack: self.import_stack.clone(),
            variable_registry: self.variable_registry.clone(),
        }
    }
}

impl ParserContext {
    /// The context of a file that has just been opened: no variables yet.
    pub fn new(current_dir: String, import_stack: ImportStack) -> (r: ParserContext)
        ensures
            r.current_dir == current_dir,
            r.import_stack == import_stack,
            r.variable_registry@ == Seq::<(Seq<char>, Seq<char>)>::empty(),
    {
        ParserContext { current_dir, import_stack, variable_registry: VariableRegistry::new() }
    }
}

} // verus!
