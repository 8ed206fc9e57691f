//! Ingredient entities: a quality grade, free-text classification tags, and
//! the ingredient value itself (name, quality, tags, stock count, liquor flag).

use vstd::prelude::*;

verus! {

/// Quality grade of an ingredient. `Any` is a wildcard: during selection it
/// matches, and is matched by, every other grade.
#[derive(Clone, Copy, Debug, PartialEq, Eq, Structural)]
pub enum Quality {
    Low,
    Medium,
    High,
    Any,
}

impl Default for Quality {
    /// The default grade is the wildcard `Any`.
    fn default() -> (r: Self)
        ensures
            r == Quality::Any,
    {
        Quality::Any
    }
}

impl Quality {
    /// Every grade, in declaration order; stands in for variant reflection
    /// when a UI needs a dropdown of all grades.
    pub fn all() -> (r: Vec<Quality>)
        ensures
            r@ == seq![Quality::Low, Quality::Medium, Quality::High, Quality::Any],
    {
        let mut v: Vec<Quality> = Vec::new();
        v.push(Quality::Low);
        v.push(Quality::Medium);
        v.push(Quality::High);
        v.push(Quality::Any);
        proof {
            assert(v@ =~= seq![Quality::Low, Quality::Medium, Quality::High, Quality::Any]);
        }
        v
    }

    /// Textual form of the grade, for display.
    pub fn label(&self) -> (r: &'static str)
        ensures
            r@ == self.label_spec(),
    {
        match self {
            Quality::Low => "Low",
            Quality::Medium => "Medium",
            Quality::High => "High",
            Quality::Any => "Any",
        }
    }

    pub open spec fn label_spec(&self) -> Seq<char> {
        match self {
            Quality::Low => "Low"@,
            Quality::Medium => "Medium"@,
            Quality::High => "High"@,
            Quality::Any => "Any"@,
        }
    }
}

/// A classification label on an ingredient, e.g. "Gin" or "sweet".
/// Tags are value-equal: two tags are the same tag exactly when their
/// texts are equal. A tag's view is its text.
#[derive(Debug)]
pub struct IngredientTag {
    pub value: String,
}

impl View for IngredientTag {
    type V = Seq<char>;

    open spec fn view(&self) -> Seq<char> {
        self.value@
    }
}

impl Clone for IngredientTag {
    fn clone(&self) -> (r: Self)
        ensures
            r@ == self@,
    {
        IngredientTag { value: self.value.clone() }
    }
}

/// The mathematical value of an [`Ingredient`]: every field, with strings as
/// character sequences and tags as the sequence of their texts.
#[verifier::ext_equal]
pub struct IngredientView {
    pub name: Seq<char>,
    pub quality: Quality,
    pub tags: Seq<Seq<char>>,
    pub stock: u16,
    pub is_liquor: bool,
}

/// An ingredient on hand: identity-free value data. Names are not unique;
/// two ingredients with the same name and different qualities are distinct
/// stock lines and both legitimate.
#[derive(Debug)]
pub struct Ingredient {
    pub name: String,
    pub quality: Quality,
    pub tags: Vec<IngredientTag>,
    /// How many units are on hand; zero means out of stock.
    pub stock: u16,
    pub is_liquor: bool,
}

/// The texts of a sequence of tags, in order.
pub open spec fn tag_texts(tags: Seq<IngredientTag>) -> Seq<Seq<char>> {
    tags.map_values(|t: IngredientTag| t@)
}

impl View for Ingredient {
    type V = IngredientView;

    open spec fn view(&self) -> IngredientView {
        IngredientView {
            name: self.name@,
            quality: self.quality,
            tags: tag_texts(self.tags@),
            stock: self.stock,
            is_liquor: self.is_liquor,
        }
    }
}

impl Clone for Ingredient {
    fn clone(&self) -> (r: Self)
        ensures
            r@ == self@,
    {
        let r = Ingredient {
            name: self.name.clone(),
            quality: self.quality,
            tags: clone_tags(&self.tags),
            stock: self.stock,
            is_liquor: self.is_liquor,
        };
        proof {
            assert(r@ =~= self@);
        }
        r
    }
}

/// The texts of a string list, in order.
pub open spec fn string_views(s: Seq<String>) -> Seq<Seq<char>> {
    s.map_values(|t: String| t@)
}

/// Clones a string list element by element, preserving every text.
pub fn clone_strings(strings: &Vec<String>) -> (r: Vec<String>)
    ensures
        string_views(r@) == string_views(strings@),
        r@.len() == strings@.len(),
{
    let mut out: Vec<String> = Vec::new();
    let mut i: usize = 0;
    while i < strings.len()
        invariant
            i <= strings@.len(),
            out@.len() == i,
            forall|k: int| 0 <= k < i ==> (#[trigger] out@[k])@ == strings@[k]@,
        decreases strings@.len() - i,
    {
        out.push(strings[i].clone());
        i = i + 1;
    }
    proof {
        assert(string_views(out@) =~= string_views(strings@));
    }
    out
}

/// Clones a tag list element by element, preserving every tag's text.
pub fn clone_tags(tags: &Vec<IngredientTag>) -> (r: Vec<IngredientTag>)
    ensures
        tag_texts(r@) == tag_texts(tags@),
        r@.len() == tags@.len(),
{
    let mut out: Vec<IngredientTag> = Vec::new();
    let mut i: usize = 0;
    while i < tags.len()
        invariant
            i <= tags.len(),
            out@.len() == i,
            tag_texts(out@) == tag_texts(tags@.subrange(0, i as int)),
        decreases tags.len() - i,
    {
        out.push(tags[i].clone());
        proof {
            assert(tag_texts(out@) =~= tag_texts(tags@.subrange(0, i + 1 as int))) by {
                assert forall|j: int| 0 <= j < i + 1 implies tag_texts(out@)[j] == tag_texts(
                    tags@.subrange(0, i + 1 as int),
                )[j] by {
                    if j < i {
                        assert(tag_texts(out@)[j] == tag_texts(tags@.subrange(0, i as int))[j]);
                    }
                }
            }
        }
        i = i + 1;
    }
    proof {
        assert(tags@.subrange(0, tags@.len() as int) =~= tags@);
    }
    out
}

} // verus!
