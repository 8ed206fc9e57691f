//! The recipe registry: an identity-keyed store of recipes.

use vstd::prelude::*;

use crate::recipie::{Recipie, RecipieView};
use crate::store::{
    distinct_ids, entities_of, fresh_id, has_id, ids_distinct, idx_of, lemma_fresh_push,
    lemma_idx_unique, lemma_pairs_view_ids, lemma_pairs_view_push, lemma_pairs_view_remove,
    lemma_pairs_view_update, lemma_remove_id, pairs_view, scan_for_id, views_of, LoadOutcome,
    Store,
};

verus! {

/// A registry of recipes keyed by generated identifiers.
#[derive(Debug)]
pub struct RecipieStore {
    recipies: Vec<(u128, Recipie)>,
    config: Option<String>,
}

impl Store<Recipie> for RecipieStore {
    closed spec fn pairs(&self) -> Seq<(u128, RecipieView)> {
        pairs_view(self.recipies@)
    }

    closed spec fn path(&self) -> Option<Seq<char>> {
        match self.config {
            Some(p) => Some(p@),
            None => None,
        }
    }

    closed spec fn wf(&self) -> bool {
        distinct_ids(self.pairs())
    }

    proof fn wf_distinct(&self) {
    }

    closed spec fn json_name_spec() -> Seq<char> {
        "recipie.json"@
    }

    fn get_json_name() -> (r: String) {
        "recipie.json".to_owned()
    }

    fn set_config_path(&mut self, path: String) {
        self.config = Some(path);
    }

    fn get_config_path(&self) -> (r: Option<String>) {
        match &self.config {
            Some(p) => Some(p.clone()),
            None => None,
        }
    }

    fn register(&mut self, entry: Recipie) -> (id: u128) {
        let id = fresh_id(&self.recipies);
        proof {
            lemma_pairs_view_ids(self.recipies@);
        }
        let ghost before = self.recipies@;
        self.recipies.push((id, entry));
        proof {
            lemma_pairs_view_push(before, id, entry);
            lemma_fresh_push(pairs_view(before), id, entry@);
        }
        id
    }

    fn deregister(&mut self, id: u128) -> (r: bool) {
        proof {
            lemma_pairs_view_ids(self.recipies@);
        }
        match scan_for_id(&self.recipies, id) {
            Some(i) => {
                let ghost before = self.recipies@;
                proof {
                    lemma_idx_unique(before, id, i as int);
                    lemma_idx_unique(pairs_view(before), id, i as int);
                    lemma_pairs_view_remove(before, i as int);
                    lemma_remove_id(pairs_view(before), id);
                }
                self.recipies.remove(i);
                true
            },
            None => false,
        }
    }

    fn get_entries(&self) -> (r: Vec<Recipie>) {
        let n = self.recipies.len();
        let mut out: Vec<Recipie> = Vec::new();
        while out.len() < n
            invariant
                out@.len() <= n == self.recipies@.len(),
                forall|k: int| 0 <= k < out@.len() ==> (#[trigger] out@[k])@
                    == self.recipies@[k].1@,
            decreases n - out@.len(),
        {
            let i = out.len();
            out.push(self.recipies[i].1.clone());
        }
        proof {
            assert(views_of(out@) =~= entities_of(self.pairs()));
        }
        out
    }

    fn get_entry(&self, id: u128) -> (r: Option<Recipie>) {
        proof {
            lemma_pairs_view_ids(self.recipies@);
        }
        match scan_for_id(&self.recipies, id) {
            Some(i) => {
                proof {
                    lemma_idx_unique(pairs_view(self.recipies@), id, i as int);
                }
                Some(self.recipies[i].1.clone())
            },
            None => None,
        }
    }

    fn update_entry(&mut self, id: u128, entry: Recipie) -> (r: bool) {
        proof {
            lemma_pairs_view_ids(self.recipies@);
        }
        match scan_for_id(&self.recipies, id) {
            Some(i) => {
                let ghost before = self.recipies@;
                proof {
                    lemma_idx_unique(before, id, i as int);
                    lemma_idx_unique(pairs_view(before), id, i as int);
                    lemma_pairs_view_update(before, i as int, id, entry);
                }
                self.recipies.remove(i);
                self.recipies.insert(i, (id, entry));
                proof {
                    assert(self.recipies@ =~= before.update(i as int, (id, entry)));
                    assert(distinct_ids(self.pairs())) by {
                        assert forall|a: int, b: int|
                            0 <= a < b < self.pairs().len() implies self.pairs()[a].0
                            != self.pairs()[b].0 by {
                            assert(pairs_view(before)[a].0 != pairs_view(before)[b].0);
                        }
                    }
                }
                true
            },
            None => false,
        }
    }

    fn from_load(outcome: LoadOutcome<Recipie>, path: String) -> (r: Self) {
        match outcome {
            LoadOutcome::Parsed(pairs) => {
                if ids_distinct(&pairs) {
                    let r = RecipieStore { recipies: pairs, config: Some(path) };
                    proof {
                        lemma_pairs_view_ids(r.recipies@);
                    }
                    r
                } else {
                    RecipieStore { recipies: Vec::new(), config: Some(path) }
                }
            },
            LoadOutcome::Missing => RecipieStore { recipies: Vec::new(), config: Some(path) },
            LoadOutcome::Unreadable => RecipieStore { recipies: Vec::new(), config: None },
        }
    }
}

impl Default for RecipieStore {
    /// A fresh, empty, in-memory store bound to no file.
    fn default() -> (r: Self)
        ensures
            r.wf(),
            r.pairs() == Seq::<(u128, RecipieView)>::empty(),
            r.path() is None,
    {
        RecipieStore { recipies: Vec::new(), config: None }
    }
}

impl RecipieStore {
    /// A fresh, empty, in-memory store bound to no file.
    pub fn new() -> (r: RecipieStore)
        ensures
            r.wf(),
            r.pairs() == Seq::<(u128, RecipieView)>::empty(),
            r.path() is None,
    {
        RecipieStore { recipies: Vec::new(), config: None }
    }

    /// A snapshot of every (identifier, recipe) entry, in insertion order.
    pub fn get_recipie_entries(&self) -> (r: Vec<(u128, Recipie)>)
        ensures
            pairs_view(r@) == self.pairs(),
    {
        let n = self.recipies.len();
        let mut out: Vec<(u128, Recipie)> = Vec::new();
        while out.len() < n
            invariant
                out@.len() <= n == self.recipies@.len(),
                forall|k: int| 0 <= k < out@.len() ==> (#[trigger] out@[k]).0
                    == self.recipies@[k].0 && out@[k].1@ == self.recipies@[k].1@,
            decreases n - out@.len(),
        {
            let i = out.len();
            out.push((self.recipies[i].0, self.recipies[i].1.clone()));
        }
        proof {
            assert(pairs_view(out@) =~= pairs_view(self.recipies@));
        }
        out
    }

    /// An owned copy of the recipe under `id`, or nothing when `id` is
    /// unknown.
    pub fn get_recipie(&self, id: u128) -> (r: Option<Recipie>)
        requires
            self.wf(),
        ensures
            match r {
                Some(e) => has_id(self.pairs(), id) && e@ == crate::store::entity_at(
                    self.pairs(),
                    id,
                ),
                None => !has_id(self.pairs(), id),
            },
    {
        self.get_entry(id)
    }

    /// A snapshot of every stored recipe, in insertion order.
    pub fn get_recipies(&self) -> (r: Vec<Recipie>)
        ensures
            views_of(r@) == entities_of(self.pairs()),
    {
        self.get_entries()
    }
}

} // verus!
