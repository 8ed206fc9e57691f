//! The ingredient registry: selector-based querying over stored ingredients.
//!
//! An [`IngredientSelector`] is a set of optional criteria; an ingredient
//! qualifies exactly when every criterion that is present passes, and an
//! absent criterion always passes, so the empty selector matches everything.

use vstd::prelude::*;

use crate::ingredient::{
    clone_tags, string_views, tag_texts, Ingredient, IngredientTag, IngredientView, Quality,
};
use crate::store::{
    distinct_ids, entities_of, fresh_id, has_id, ids_distinct, idx_of, lemma_fresh_push,
    lemma_idx_unique, lemma_pairs_view_ids, lemma_pairs_view_push, lemma_pairs_view_remove,
    lemma_pairs_view_update, lemma_remove_id, pairs_view, scan_for_id, views_of, LoadOutcome,
    Store,
};

verus! {

/// The mathematical value of an [`IngredientSelector`]: each criterion as an
/// optional plain value, with tag criteria as the sequence of their texts.
#[verifier::ext_equal]
pub struct SelectorView {
    pub name: Option<Seq<char>>,
    pub quality: Option<Quality>,
    pub tags: Option<Seq<Seq<char>>>,
    pub in_stock: Option<bool>,
    pub is_liquor: Option<bool>,
}

impl SelectorView {
    /// The name criterion: an exact, case-sensitive comparison.
    pub open spec fn name_passes(self, i: IngredientView) -> bool {
        match self.name {
            Some(n) => n == i.name,
            None => true,
        }
    }

    /// The quality criterion: `Any` on either side is a wildcard; otherwise
    /// the grades must be equal.
    pub open spec fn quality_passes(self, i: IngredientView) -> bool {
        match self.quality {
            Some(q) => q == Quality::Any || i.quality == Quality::Any || q == i.quality,
            None => true,
        }
    }

    /// The tag criterion: every required tag must be present on the
    /// ingredient, which may carry further tags (a subset test, not
    /// an equality).
    pub open spec fn tags_pass(self, i: IngredientView) -> bool {
        match self.tags {
            Some(req) => texts_subset(req, i.tags),
            None => true,
        }
    }

    /// The stock criterion: requiring in-stock means a positive stock
    /// count, requiring out-of-stock means a count of zero.
    pub open spec fn stock_passes(self, i: IngredientView) -> bool {
        match self.in_stock {
            Some(b) => if b {
                i.stock > 0
            } else {
                i.stock == 0
            },
            None => true,
        }
    }

    /// The liquor criterion: an exact flag comparison.
    pub open spec fn liquor_passes(self, i: IngredientView) -> bool {
        match self.is_liquor {
            Some(b) => b == i.is_liquor,
            None => true,
        }
    }

    /// Whether the ingredient qualifies: the conjunction of every present
    /// criterion.
    pub open spec fn selects(self, i: IngredientView) -> bool {
        &&& self.name_passes(i)
        &&& self.quality_passes(i)
        &&& self.tags_pass(i)
        &&& self.stock_passes(i)
        &&& self.liquor_passes(i)
    }

    /// The selector with no criteria at all; it matches every ingredient.
    pub open spec fn empty() -> SelectorView {
        SelectorView { name: None, quality: None, tags: None, in_stock: None, is_liquor: None }
    }
}

/// Every text of `req` occurs in `tags`.
pub open spec fn texts_subset(req: Seq<Seq<char>>, tags: Seq<Seq<char>>) -> bool {
    forall|t: Seq<char>| req.contains(t) ==> tags.contains(t)
}

/// The wildcard grade passes every quality criterion, on either side: a
/// selector asking for `Any` (or asking nothing) accepts every ingredient,
/// and an ingredient graded `Any` is accepted by every selector.
pub proof fn lemma_quality_wildcard(sel: SelectorView, i: IngredientView)
    ensures
        sel.quality == Some(Quality::Any) ==> sel.quality_passes(i),
        sel.quality is None ==> sel.quality_passes(i),
        i.quality == Quality::Any ==> sel.quality_passes(i),
{
}

/// The empty selector matches every ingredient.
pub proof fn lemma_empty_selector_matches(i: IngredientView)
    ensures
        SelectorView::empty().selects(i),
{
}

/// Criteria for finding ingredients in an ingredient store. Every field is
/// optional; an absent field places no constraint.
#[derive(Debug)]
pub struct IngredientSelector {
    pub name: Option<String>,
    pub quality: Option<Quality>,
    pub tags: Option<Vec<IngredientTag>>,
    pub in_stock: Option<bool>,
    pub is_liquor: Option<bool>,
}

impl View for IngredientSelector {
    type V = SelectorView;

    open spec fn view(&self) -> SelectorView {
        SelectorView {
            name: match self.name {
                Some(n) => Some(n@),
                None => None,
            },
            quality: self.quality,
            tags: match self.tags {
                Some(t) => Some(tag_texts(t@)),
                None => None,
            },
            in_stock: self.in_stock,
            is_liquor: self.is_liquor,
        }
    }
}

impl Clone for IngredientSelector {
    fn clone(&self) -> (r: Self)
        ensures
            r@ == self@,
    {
        let r = IngredientSelector {
            name: match &self.name {
                Some(n) => Some(n.clone()),
                None => None,
            },
            quality: self.quality,
            tags: match &self.tags {
                Some(t) => Some(clone_tags(t)),
                None => None,
            },
            in_stock: self.in_stock,
            is_liquor: self.is_liquor,
        };
        proof {
            assert(r@ =~= self@);
        }
        r
    }
}

impl Default for IngredientSelector {
    /// The default selector has no criteria and matches every ingredient.
    fn default() -> (r: Self)
        ensures
            r@ == SelectorView::empty(),
    {
        IngredientSelector { name: None, quality: None, tags: None, in_stock: None, is_liquor: None }
    }
}

/// Whether some tag in `tags` has the text of `t`.
pub fn has_tag(tags: &Vec<IngredientTag>, t: &IngredientTag) -> (r: bool)
    ensures
        r == tag_texts(tags@).contains(t@),
{
    let n = tags.len();
    let mut i: usize = 0;
    while i < n
        invariant
            i <= n == tags@.len(),
            forall|k: int| 0 <= k < i ==> tag_texts(tags@)[k] != t@,
        decreases n - i,
    {
        if tags[i].value == t.value {
            proof {
                assert(tag_texts(tags@)[i as int] == t@);
            }
            return true;
        }
        i = i + 1;
    }
    proof {
        assert forall|k: int| 0 <= k < tag_texts(tags@).len() implies tag_texts(tags@)[k] != t@ by {}
    }
    false
}

/// Whether every tag of `req` is present, by text, in `tags`.
fn tags_subset(req: &Vec<IngredientTag>, tags: &Vec<IngredientTag>) -> (r: bool)
    ensures
        r == texts_subset(tag_texts(req@), tag_texts(tags@)),
{
    let n = req.len();
    let mut i: usize = 0;
    while i < n
        invariant
            i <= n == req@.len(),
            forall|k: int| 0 <= k < i ==> tag_texts(tags@).contains(#[trigger] tag_texts(req@)[k]),
        decreases n - i,
    {
        if !has_tag(tags, &req[i]) {
            proof {
                let w = tag_texts(req@)[i as int];
                assert(tag_texts(req@).contains(w));
                assert(!tag_texts(tags@).contains(w));
                assert(!texts_subset(tag_texts(req@), tag_texts(tags@)));
            }
            return false;
        }
        i = i + 1;
    }
    proof {
        assert forall|t: Seq<char>| tag_texts(req@).contains(t) implies tag_texts(
            tags@,
        ).contains(t) by {
            let k = choose|k: int| 0 <= k < tag_texts(req@).len() && tag_texts(req@)[k] == t;
            assert(tag_texts(tags@).contains(tag_texts(req@)[k]));
        }
        assert(texts_subset(tag_texts(req@), tag_texts(tags@)));
    }
    true
}

impl IngredientSelector {
    /// Decides whether `i` qualifies under this selector's criteria.
    pub fn is_match(&self, i: &Ingredient) -> (r: bool)
        ensures
            r == self@.selects(i@),
    {
        match &self.name {
            Some(n) => {
                if !(*n == i.name) {
                    return false;
                }
            },
            None => {},
        }
        match self.quality {
            Some(q) => {
                if !(q == Quality::Any || i.quality == Quality::Any || q == i.quality) {
                    return false;
                }
            },
            None => {},
        }
        match &self.tags {
            Some(req) => {
                if !tags_subset(req, &i.tags) {
                    return false;
                }
            },
            None => {},
        }
        match self.in_stock {
            Some(b) => {
                let ok = if b {
                    i.stock > 0
                } else {
                    i.stock == 0
                };
                if !ok {
                    return false;
                }
            },
            None => {},
        }
        match self.is_liquor {
            Some(b) => {
                if !(b == i.is_liquor) {
                    return false;
                }
            },
            None => {},
        }
        true
    }
}

} // verus!

verus! {

/// The filtered entities: those of `s` that `sel` selects, in order.
pub open spec fn matching_of(s: Seq<IngredientView>, sel: SelectorView) -> Seq<IngredientView>
    decreases s.len(),
{
    if s.len() == 0 {
        Seq::empty()
    } else {
        let rest = matching_of(s.drop_last(), sel);
        if sel.selects(s.last()) {
            rest.push(s.last())
        } else {
            rest
        }
    }
}


/// A selection is nonempty exactly when some entity qualifies.
pub proof fn lemma_matching_nonempty(s: Seq<IngredientView>, sel: SelectorView)
    ensures
        matching_of(s, sel).len() > 0 <==> exists|k: int| 0 <= k < s.len() && sel.selects(s[k]),
    decreases s.len(),
{
    if s.len() > 0 {
        lemma_matching_nonempty(s.drop_last(), sel);
        if sel.selects(s.last()) {
            assert(sel.selects(s[s.len() - 1]));
        } else {
            if exists|k: int| 0 <= k < s.len() && sel.selects(s[k]) {
                let k = choose|k: int| 0 <= k < s.len() && sel.selects(s[k]);
                assert(k < s.len() - 1);
                assert(s.drop_last()[k] == s[k]);
            }
            if matching_of(s.drop_last(), sel).len() > 0 {
                let k = choose|k: int| 0 <= k < s.drop_last().len() && sel.selects(
                    s.drop_last()[k],
                );
                assert(sel.selects(s[k]));
            }
        }
    }
}

/// A selection returns exactly the qualifying entities: everything it
/// holds comes from the entity list and qualifies, and every qualifying
/// entity of the list is in it.
pub proof fn lemma_matching_members(s: Seq<IngredientView>, sel: SelectorView)
    ensures
        forall|x: IngredientView| #[trigger] matching_of(s, sel).contains(x) ==> s.contains(x)
            && sel.selects(x),
        forall|k: int| 0 <= k < s.len() && sel.selects(#[trigger] s[k]) ==> matching_of(
            s,
            sel,
        ).contains(s[k]),
    decreases s.len(),
{
    if s.len() > 0 {
        let rest = s.drop_last();
        lemma_matching_members(rest, sel);
        assert forall|x: IngredientView| #[trigger] matching_of(s, sel).contains(x) implies s
            .contains(x) && sel.selects(x) by {
            if x == s.last() && sel.selects(s.last()) {
                assert(s[s.len() - 1] == x);
            } else {
                if matching_of(rest, sel).contains(x) {
                    assert(rest.contains(x));
                    let k = choose|k: int| 0 <= k < rest.len() && rest[k] == x;
                    assert(s[k] == x);
                } else {
                    let m = matching_of(s, sel);
                    let j = choose|j: int| 0 <= j < m.len() && m[j] == x;
                    if sel.selects(s.last()) {
                        assert(m == matching_of(rest, sel).push(s.last()));
                        assert(j < m.len() - 1);
                        assert(matching_of(rest, sel)[j] == x);
                        assert(matching_of(rest, sel).contains(x));
                    } else {
                        assert(m == matching_of(rest, sel));
                        assert(matching_of(rest, sel).contains(x));
                    }
                }
            }
        }
        assert forall|k: int| 0 <= k < s.len() && sel.selects(#[trigger] s[k]) implies matching_of(
            s,
            sel,
        ).contains(s[k]) by {
            let m = matching_of(s, sel);
            if k == s.len() - 1 {
                assert(m[m.len() - 1] == s.last());
            } else {
                assert(rest[k] == s[k]);
                assert(matching_of(rest, sel).contains(s[k]));
                let j = choose|j: int| 0 <= j < matching_of(rest, sel).len() && matching_of(
                    rest,
                    sel,
                )[j] == s[k];
                if sel.selects(s.last()) {
                    assert(m[j] == s[k]);
                } else {
                    assert(m[j] == s[k]);
                }
            }
        }
    }
}

/// A registry of ingredients keyed by generated identifiers, with
/// selector-based querying.
#[derive(Debug)]
pub struct IngredientStore {
    entries: Vec<(u128, Ingredient)>,
    config_path: Option<String>,
}

impl Store<Ingredient> for IngredientStore {
    closed spec fn pairs(&self) -> Seq<(u128, IngredientView)> {
        pairs_view(self.entries@)
    }

    closed spec fn path(&self) -> Option<Seq<char>> {
        match self.config_path {
            Some(p) => Some(p@),
            None => None,
        }
    }

    closed spec fn wf(&self) -> bool {
        distinct_ids(self.pairs())
    }

    proof fn wf_distinct(&self) {
    }

    closed spec fn json_name_spec() -> Seq<char> {
        "ingredient.json"@
    }

    fn get_json_name() -> (r: String) {
        "ingredient.json".to_owned()
    }

    fn set_config_path(&mut self, path: String) {
        self.config_path = Some(path);
    }

    fn get_config_path(&self) -> (r: Option<String>) {
        match &self.config_path {
            Some(p) => Some(p.clone()),
            None => None,
        }
    }

    fn register(&mut self, entry: Ingredient) -> (id: u128) {
        let id = fresh_id(&self.entries);
        proof {
            lemma_pairs_view_ids(self.entries@);
        }
        let ghost before = self.entries@;
        self.entries.push((id, entry));
        proof {
            lemma_pairs_view_push(before, id, entry);
            lemma_fresh_push(pairs_view(before), id, entry@);
        }
        id
    }

    fn deregister(&mut self, id: u128) -> (r: bool) {
        proof {
            lemma_pairs_view_ids(self.entries@);
        }
        match scan_for_id(&self.entries, id) {
            Some(i) => {
                let ghost before = self.entries@;
                proof {
                    lemma_idx_unique(before, id, i as int);
                    lemma_idx_unique(pairs_view(before), id, i as int);
                    lemma_pairs_view_remove(before, i as int);
                    lemma_remove_id(pairs_view(before), id);
                }
                self.entries.remove(i);
                true
            },
            None => false,
        }
    }

    fn get_entries(&self) -> (r: Vec<Ingredient>) {
        let n = self.entries.len();
        let mut out: Vec<Ingredient> = Vec::new();
        while out.len() < n
            invariant
                out@.len() <= n == self.entries@.len(),
                forall|k: int| 0 <= k < out@.len() ==> (#[trigger] out@[k])@
                    == self.entries@[k].1@,
            decreases n - out@.len(),
        {
            let i = out.len();
            out.push(self.entries[i].1.clone());
        }
        proof {
            assert(views_of(out@) =~= entities_of(self.pairs()));
        }
        out
    }

    fn get_entry(&self, id: u128) -> (r: Option<Ingredient>) {
        proof {
            lemma_pairs_view_ids(self.entries@);
        }
        match scan_for_id(&self.entries, id) {
            Some(i) => {
                proof {
                    lemma_idx_unique(pairs_view(self.entries@), id, i as int);
                }
                Some(self.entries[i].1.clone())
            },
            None => None,
        }
    }

    fn update_entry(&mut self, id: u128, entry: Ingredient) -> (r: bool) {
        proof {
            lemma_pairs_view_ids(self.entries@);
        }
        match scan_for_id(&self.entries, id) {
            Some(i) => {
                let ghost before = self.entries@;
                proof {
                    lemma_idx_unique(before, id, i as int);
                    lemma_idx_unique(pairs_view(before), id, i as int);
                    lemma_pairs_view_update(before, i as int, id, entry);
                }
                self.entries.remove(i);
                self.entries.insert(i, (id, entry));
                proof {
                    assert(self.entries@ =~= before.update(i as int, (id, entry)));
                    assert(distinct_ids(self.pairs())) by {
                        assert forall|a: int, b: int|
                            0 <= a < b < self.pairs().len() implies self.pairs()[a].0
                            != self.pairs()[b].0 by {
                            assert(pairs_view(before)[a].0 != pairs_view(before)[b].0);
                        }
                    }
                }
                true
            },
            None => false,
        }
    }

    fn from_load(outcome: LoadOutcome<Ingredient>, path: String) -> (r: Self) {
        match outcome {
            LoadOutcome::Parsed(pairs) => {
                if ids_distinct(&pairs) {
                    let r = IngredientStore { entries: pairs, config_path: Some(path) };
                    proof {
                        lemma_pairs_view_ids(r.entries@);
                    }
                    r
                } else {
                    IngredientStore { entries: Vec::new(), config_path: Some(path) }
                }
            },
            LoadOutcome::Missing => IngredientStore {
                entries: Vec::new(),
                config_path: Some(path),
            },
            LoadOutcome::Unreadable => IngredientStore { entries: Vec::new(), config_path: None },
        }
    }
}

impl Default for IngredientStore {
    /// A fresh, empty, in-memory store bound to no file.
    fn default() -> (r: Self)
        ensures
            r.wf(),
            r.pairs() == Seq::<(u128, IngredientView)>::empty(),
            r.path() is None,
    {
        IngredientStore { entries: Vec::new(), config_path: None }
    }
}

impl IngredientStore {
    /// A fresh, empty, in-memory store bound to no file.
    pub fn new() -> (r: IngredientStore)
        ensures
            r.wf(),
            r.pairs() == Seq::<(u128, IngredientView)>::empty(),
            r.path() is None,
    {
        IngredientStore { entries: Vec::new(), config_path: None }
    }

    /// Every stored ingredient that the selector's criteria accept; the
    /// conjunction of all present criteria decides, and an absent criterion
    /// passes everything.
    pub fn select(&self, selector: &IngredientSelector) -> (r: Vec<Ingredient>)
        ensures
            views_of(r@) == matching_of(entities_of(self.pairs()), selector@),
    {
        let ghost all = entities_of(self.pairs());
        let n = self.entries.len();
        let mut out: Vec<Ingredient> = Vec::new();
        let mut i: usize = 0;
        while i < n
            invariant
                i <= n == self.entries@.len(),
                all == entities_of(pairs_view(self.entries@)),
                views_of(out@) == matching_of(all.take(i as int), selector@),
            decreases n - i,
        {
            let ghost prev = out@;
            if selector.is_match(&self.entries[i].1) {
                out.push(self.entries[i].1.clone());
            }
            proof {
                assert(all.take(i + 1 as int).drop_last() =~= all.take(i as int));
                assert(all.take(i + 1 as int).last() == self.entries@[i as int].1@);
                if selector@.selects(all[i as int]) {
                    assert(views_of(out@) =~= views_of(prev).push(self.entries@[i as int].1@));
                } else {
                    assert(views_of(out@) =~= views_of(prev));
                }
            }
            i = i + 1;
        }
        proof {
            assert(all.take(n as int) =~= all);
        }
        out
    }
}

} // verus!

verus! {

/// The names of the given ingredients, in order.
pub open spec fn names_of(s: Seq<IngredientView>) -> Seq<Seq<char>> {
    s.map_values(|i: IngredientView| i.name)
}

/// The first ingredient of `s` carrying the name `n`, if any.
pub open spec fn first_named(s: Seq<IngredientView>, n: Seq<char>) -> Option<IngredientView>
    decreases s.len(),
{
    if s.len() == 0 {
        None
    } else if s[0].name == n {
        Some(s[0])
    } else {
        first_named(s.drop_first(), n)
    }
}

/// A scan that stops at index `i` finds exactly the first named ingredient.
proof fn lemma_first_named_at(s: Seq<IngredientView>, n: Seq<char>, i: int)
    requires
        0 <= i < s.len(),
        s[i].name == n,
        forall|k: int| 0 <= k < i ==> s[k].name != n,
    ensures
        first_named(s, n) == Some(s[i]),
    decreases i,
{
    if i > 0 {
        lemma_first_named_at(s.drop_first(), n, i - 1);
    }
}

/// A scan that finds no match means no ingredient carries the name.
proof fn lemma_first_named_none(s: Seq<IngredientView>, n: Seq<char>)
    requires
        forall|k: int| 0 <= k < s.len() ==> s[k].name != n,
    ensures
        first_named(s, n) is None,
    decreases s.len(),
{
    if s.len() > 0 {
        lemma_first_named_none(s.drop_first(), n);
    }
}

/// `acc` extended with `t` unless already present.
pub open spec fn merge_tag(acc: Seq<Seq<char>>, t: Seq<char>) -> Seq<Seq<char>> {
    if acc.contains(t) {
        acc
    } else {
        acc.push(t)
    }
}

/// `acc` extended, front to back, with each text of `ts` not yet present.
pub open spec fn merge_tags(acc: Seq<Seq<char>>, ts: Seq<Seq<char>>) -> Seq<Seq<char>>
    decreases ts.len(),
{
    if ts.len() == 0 {
        acc
    } else {
        merge_tags(merge_tag(acc, ts[0]), ts.drop_first())
    }
}

/// The distinct tag texts over the given ingredients, each at its first
/// occurrence, starting from `acc`.
pub open spec fn tags_from(acc: Seq<Seq<char>>, s: Seq<IngredientView>) -> Seq<Seq<char>>
    decreases s.len(),
{
    if s.len() == 0 {
        acc
    } else {
        tags_from(merge_tags(acc, s[0].tags), s.drop_first())
    }
}

/// Merging splits over concatenation of the incoming texts.
proof fn lemma_merge_tags_append(acc: Seq<Seq<char>>, t1: Seq<Seq<char>>, t2: Seq<Seq<char>>)
    ensures
        merge_tags(acc, t1 + t2) == merge_tags(merge_tags(acc, t1), t2),
    decreases t1.len(),
{
    if t1.len() == 0 {
        assert(t1 + t2 =~= t2);
    } else {
        assert((t1 + t2).drop_first() =~= t1.drop_first() + t2);
        assert((t1 + t2)[0] == t1[0]);
        lemma_merge_tags_append(merge_tag(acc, t1[0]), t1.drop_first(), t2);
    }
}

/// Collecting splits over concatenation of the incoming ingredients.
proof fn lemma_tags_from_append(acc: Seq<Seq<char>>, s1: Seq<IngredientView>, s2: Seq<IngredientView>)
    ensures
        tags_from(acc, s1 + s2) == tags_from(tags_from(acc, s1), s2),
    decreases s1.len(),
{
    if s1.len() == 0 {
        assert(s1 + s2 =~= s2);
    } else {
        assert((s1 + s2).drop_first() =~= s1.drop_first() + s2);
        assert((s1 + s2)[0] == s1[0]);
        lemma_tags_from_append(merge_tags(acc, s1[0].tags), s1.drop_first(), s2);
    }
}

impl IngredientStore {
    /// A snapshot of every (identifier, ingredient) entry, in insertion
    /// order; what a save hands to the persistence layer.
    pub fn get_ingredient_entries(&self) -> (r: Vec<(u128, Ingredient)>)
        ensures
            pairs_view(r@) == self.pairs(),
    {
        let n = self.entries.len();
        let mut out: Vec<(u128, Ingredient)> = Vec::new();
        while out.len() < n
            invariant
                out@.len() <= n == self.entries@.len(),
                forall|k: int| 0 <= k < out@.len() ==> (#[trigger] out@[k]).0
                    == self.entries@[k].0 && out@[k].1@ == self.entries@[k].1@,
            decreases n - out@.len(),
        {
            let i = out.len();
            out.push((self.entries[i].0, self.entries[i].1.clone()));
        }
        proof {
            assert(pairs_view(out@) =~= pairs_view(self.entries@));
        }
        out
    }

    /// The name of every stored ingredient, in insertion order; duplicate
    /// names appear as often as they are stored.
    pub fn get_ingredient_names(&self) -> (r: Vec<String>)
        ensures
            string_views(r@) == names_of(entities_of(self.pairs())),
    {
        let n = self.entries.len();
        let mut out: Vec<String> = Vec::new();
        while out.len() < n
            invariant
                out@.len() <= n == self.entries@.len(),
                forall|k: int| 0 <= k < out@.len() ==> (#[trigger] out@[k])@
                    == self.entries@[k].1.name@,
            decreases n - out@.len(),
        {
            let i = out.len();
            out.push(self.entries[i].1.name.clone());
        }
        proof {
            assert(string_views(out@) =~= names_of(entities_of(self.pairs())));
        }
        out
    }

    /// An owned copy of the first stored ingredient with the given name, or
    /// nothing when no ingredient carries it; with duplicate names, which
    /// one is first follows insertion order.
    pub fn get_ingredient(&self, name: &String) -> (r: Option<Ingredient>)
        ensures
            match r {
                Some(i) => first_named(entities_of(self.pairs()), name@) == Some(i@),
                None => first_named(entities_of(self.pairs()), name@) is None,
            },
    {
        let ghost all = entities_of(self.pairs());
        let n = self.entries.len();
        let mut i: usize = 0;
        while i < n
            invariant
                i <= n == self.entries@.len(),
                all == entities_of(pairs_view(self.entries@)),
                forall|k: int| 0 <= k < i ==> (#[trigger] all[k]).name != name@,
            decreases n - i,
        {
            if self.entries[i].1.name == *name {
                proof {
                    lemma_first_named_at(all, name@, i as int);
                }
                return Some(self.entries[i].1.clone());
            }
            i = i + 1;
        }
        proof {
            lemma_first_named_none(all, name@);
        }
        None
    }

    /// Every distinct tag text over the stored ingredients, each at its
    /// first occurrence in insertion order.
    pub fn get_tags(&self) -> (r: Vec<IngredientTag>)
        ensures
            tag_texts(r@) == tags_from(Seq::empty(), entities_of(self.pairs())),
    {
        let ghost all = entities_of(self.pairs());
        let n = self.entries.len();
        let mut out: Vec<IngredientTag> = Vec::new();
        let mut i: usize = 0;
        while i < n
            invariant
                i <= n == self.entries@.len(),
                all == entities_of(pairs_view(self.entries@)),
                tag_texts(out@) == tags_from(Seq::empty(), all.take(i as int)),
            decreases n - i,
        {
            let tags = &self.entries[i].1.tags;
            let ghost ts = all[i as int].tags;
            let ghost acc0 = tag_texts(out@);
            let m = tags.len();
            let mut j: usize = 0;
            while j < m
                invariant
                    j <= m == tags@.len(),
                    ts == tag_texts(tags@),
                    tag_texts(out@) == merge_tags(acc0, ts.take(j as int)),
                decreases m - j,
            {
                let ghost before = tag_texts(out@);
                if !has_tag(&out, &tags[j]) {
                    out.push(tags[j].clone());
                    proof {
                        assert(tag_texts(out@) =~= before.push(ts[j as int]));
                    }
                }
                proof {
                    assert(ts.take(j + 1 as int) =~= ts.take(j as int) + seq![ts[j as int]]);
                    lemma_merge_tags_append(acc0, ts.take(j as int), seq![ts[j as int]]);
                    assert(seq![ts[j as int]].drop_first() =~= Seq::<Seq<char>>::empty());
                    assert(merge_tags(merge_tag(before, ts[j as int]), Seq::empty()) == merge_tag(
                        before,
                        ts[j as int],
                    ));
                    assert(merge_tags(before, seq![ts[j as int]]) == merge_tag(
                        before,
                        ts[j as int],
                    ));
                }
                j = j + 1;
            }
            proof {
                assert(ts.take(m as int) =~= ts);
                assert(all.take(i + 1 as int) =~= all.take(i as int) + seq![all[i as int]]);
                lemma_tags_from_append(Seq::empty(), all.take(i as int), seq![all[i as int]]);
                assert(seq![all[i as int]].drop_first() =~= Seq::<IngredientView>::empty());
                assert(tags_from(merge_tags(acc0, ts), Seq::empty()) == merge_tags(acc0, ts));
                assert(tags_from(acc0, seq![all[i as int]]) == merge_tags(acc0, ts));
            }
            i = i + 1;
        }
        proof {
            assert(all.take(n as int) =~= all);
        }
        out
    }
}

} // verus!
