use vstd::prelude::*;

verus! {

/// A stored record: a name and its instructions.
///
/// A recipe is immutable once created and is identified only by its position
/// in the collection; equality is structural.
#[derive(Debug)]
pub struct Recipe {
    pub name: String,
    pub instructions: String,
}

/// The mathematical value of a `Recipe`: its two fields as character
/// sequences.
pub ghost struct RecipeV {
    pub name: Seq<char>,
    pub instructions: Seq<char>,
}

impl View for Recipe {
    type V = RecipeV;

    open spec fn view(&self) -> RecipeV {
        RecipeV { name: self.name@, instructions: self.instructions@ }
    }
}

impl Recipe {
    /// Builds a recipe from its two fields.
    pub fn new(name: String, instructions: String) -> (r: Recipe)
        ensures
            r@ == (RecipeV { name: name@, instructions: instructions@ }),
    {
        Recipe { name, instructions }
    }
}

/// The values of a record sequence, in order.
pub open spec fn recs_view(v: Seq<Recipe>) -> Seq<RecipeV> {
    v.map_values(|r: Recipe| r@)
}

/// The value of an optional record.
pub open spec fn opt_view(o: Option<Recipe>) -> Option<RecipeV> {
    match o {
        Some(r) => Some(r@),
        None => None,
    }
}

impl Clone for Recipe {
    fn clone(&self) -> (r: Self)
        ensures
            r@ == self@,
    {
        Recipe { name: self.name.clone(), instructions: self.instructions.clone() }
    }
}

} // verus!
