use vstd::prelude::*;

use crate::recipe::{opt_view, recs_view, Recipe, RecipeV};
use crate::text::{push_quoted, push_str, string_from_chars};
use crate::wire::{
    ser_deleted, ser_error, ser_new_recipe_event, ser_opt_recipe,
    ser_recipe, ser_recipe_added, ser_recipe_items, ser_recipe_list, ser_recipes_response,
    ser_rolled, ser_rolled_event, ser_rpc_added, ser_rpc_recipes, ser_rpc_rolled, ser_snapshot,
    ser_updated_event,
};

verus! {

/// Appends the wire form of one record.
fn push_recipe(out: &mut Vec<char>, r: &Recipe)
    ensures
        final(out)@ == old(out)@ + ser_recipe(r@),
{
    out.push('{');
    push_quoted(out, "name");
    out.push(':');
    push_quoted(out, r.name.as_str());
    out.push(',');
    push_quoted(out, "instructions");
    out.push(':');
    push_quoted(out, r.instructions.as_str());
    out.push('}');
    proof {
        assert(out@ =~= old(out)@ + ser_recipe(r@));
    }
}

/// Growing a collection by one record extends its item run at the end.
proof fn lemma_items_push(rs: Seq<RecipeV>, r: RecipeV)
    ensures
        ser_recipe_items(rs.push(r)) == if rs.len() == 0 {
            ser_recipe(r)
        } else {
            ser_recipe_items(rs) + seq![','] + ser_recipe(r)
        },
    decreases rs.len(),
{
    let e = rs.push(r);
    assert(e[0] == if rs.len() == 0 {
        r
    } else {
        rs[0]
    });
    if rs.len() == 0 {
        assert(e.len() == 1);
    } else if rs.len() == 1 {
        assert(e.drop_first() =~= seq![r]);
        assert(ser_recipe_items(seq![r]) == ser_recipe(r));
        assert(ser_recipe_items(e) == ser_recipe(rs[0]) + seq![','] + ser_recipe(r));
        assert(ser_recipe_items(rs) == ser_recipe(rs[0]));
    } else {
        assert(e.drop_first() =~= rs.drop_first().push(r));
        lemma_items_push(rs.drop_first(), r);
        assert(rs.drop_first().len() > 0);
        assert(ser_recipe_items(e) == ser_recipe(rs[0]) + seq![','] + (ser_recipe_items(
            rs.drop_first(),
        ) + seq![','] + ser_recipe(r)));
        assert(ser_recipe(rs[0]) + seq![','] + (ser_recipe_items(rs.drop_first()) + seq![',']
            + ser_recipe(r)) =~= (ser_recipe(rs[0]) + seq![','] + ser_recipe_items(
            rs.drop_first(),
        )) + seq![','] + ser_recipe(r));
    }
}

/// Appends the wire form of a whole record collection.
fn push_list(out: &mut Vec<char>, v: &Vec<Recipe>)
    ensures
        final(out)@ == old(out)@ + ser_recipe_list(recs_view(v@)),
{
    out.push('[');
    proof {
        assert(recs_view(v@.subrange(0, 0)) =~= Seq::<RecipeV>::empty());
        assert(out@ =~= old(out)@ + seq!['['] + ser_recipe_items(recs_view(v@.subrange(0, 0))));
    }
    let n = v.len();
    let mut i: usize = 0;
    while i < n
        invariant
            i <= n,
            n == v@.len(),
            out@ == old(out)@ + seq!['['] + ser_recipe_items(recs_view(v@.subrange(0, i as int))),
        decreases n - i,
    {
        if i > 0 {
            out.push(',');
        }
        push_recipe(out, &v[i]);
        proof {
            let pre = recs_view(v@.subrange(0, i as int));
            assert(recs_view(v@.subrange(0, i as int + 1)) =~= pre.push(v@[i as int]@));
            lemma_items_push(pre, v@[i as int]@);
            assert(pre.len() == i);
            assert(out@ =~= old(out)@ + seq!['['] + ser_recipe_items(
                recs_view(v@.subrange(0, i as int + 1)),
            ));
        }
        i += 1;
    }
    out.push(']');
    proof {
        assert(v@.subrange(0, n as int) =~= v@);
        assert(out@ =~= old(out)@ + ser_recipe_list(recs_view(v@)));
    }
}

/// Appends a record's wire form, or `null`.
fn push_opt_recipe(out: &mut Vec<char>, o: &Option<Recipe>)
    ensures
        final(out)@ == old(out)@ + ser_opt_recipe(opt_view(*o)),
{
    match o {
        Some(r) => push_recipe(out, r),
        None => push_str(out, "null"),
    }
}

/// The durable snapshot of a record collection, as text.
pub fn snapshot_text(v: &Vec<Recipe>) -> (s: String)
    ensures
        s@ == ser_snapshot(recs_view(v@)),
{
    let mut out: Vec<char> = Vec::new();
    out.push('{');
    push_quoted(&mut out, "V1");
    out.push(':');
    out.push('{');
    push_quoted(&mut out, "recipes");
    out.push(':');
    push_list(&mut out, v);
    out.push('}');
    out.push('}');
    proof {
        assert(out@ =~= ser_snapshot(recs_view(v@)));
    }
    string_from_chars(out)
}

/// The body answering a listing over the browser channel.
pub fn body_recipes(v: &Vec<Recipe>) -> (s: String)
    ensures
        s@ == ser_recipes_response(recs_view(v@)),
{
    let mut out: Vec<char> = Vec::new();
    out.push('{');
    push_quoted(&mut out, "Recipes");
    out.push(':');
    push_list(&mut out, v);
    out.push('}');
    proof {
        assert(out@ =~= ser_recipes_response(recs_view(v@)));
    }
    string_from_chars(out)
}

/// The body acknowledging an addition over the browser channel.
pub fn body_recipe_added(r: &Recipe) -> (s: String)
    ensures
        s@ == ser_recipe_added(r@),
{
    let mut out: Vec<char> = Vec::new();
    out.push('{');
    push_quoted(&mut out, "RecipeAdded");
    out.push(':');
    out.push('{');
    push_quoted(&mut out, "recipe");
    out.push(':');
    push_recipe(&mut out, r);
    out.push('}');
    out.push('}');
    proof {
        assert(out@ =~= ser_recipe_added(r@));
    }
    string_from_chars(out)
}

/// The body answering a roll over the browser channel.
pub fn body_rolled(o: &Option<Recipe>) -> (s: String)
    ensures
        s@ == ser_rolled(opt_view(*o)),
{
    let mut out: Vec<char> = Vec::new();
    out.push('{');
    push_quoted(&mut out, "RolledRecipe");
    out.push(':');
    out.push('{');
    push_quoted(&mut out, "recipe");
    out.push(':');
    push_opt_recipe(&mut out, o);
    out.push('}');
    out.push('}');
    proof {
        assert(out@ =~= ser_rolled(opt_view(*o)));
    }
    string_from_chars(out)
}

/// The body acknowledging a deletion over the browser channel.
pub fn body_deleted() -> (s: String)
    ensures
        s@ == ser_deleted(),
{
    let mut out: Vec<char> = Vec::new();
    out.push('{');
    push_quoted(&mut out, "RecipeDeleted");
    out.push(':');
    out.push('{');
    push_quoted(&mut out, "success");
    out.push(':');
    push_str(&mut out, "true");
    out.push('}');
    out.push('}');
    proof {
        assert(out@ =~= ser_deleted());
    }
    string_from_chars(out)
}

/// A client-error body carrying one message.
pub fn body_error(msg: &str) -> (s: String)
    ensures
        s@ == ser_error(msg@),
{
    let mut out: Vec<char> = Vec::new();
    out.push('{');
    push_quoted(&mut out, "error");
    out.push(':');
    push_quoted(&mut out, msg);
    out.push('}');
    proof {
        assert(out@ =~= ser_error(msg@));
    }
    string_from_chars(out)
}

/// The broadcast event for a newly added record.
pub fn event_new_recipe(r: &Recipe) -> (s: String)
    ensures
        s@ == ser_new_recipe_event(r@),
{
    let mut out: Vec<char> = Vec::new();
    out.push('{');
    push_quoted(&mut out, "NewRecipe");
    out.push(':');
    push_recipe(&mut out, r);
    out.push('}');
    proof {
        assert(out@ =~= ser_new_recipe_event(r@));
    }
    string_from_chars(out)
}

/// The broadcast event carrying the refreshed full collection.
pub fn event_updated(v: &Vec<Recipe>) -> (s: String)
    ensures
        s@ == ser_updated_event(recs_view(v@)),
{
    let mut out: Vec<char> = Vec::new();
    out.push('{');
    push_quoted(&mut out, "RecipesUpdated");
    out.push(':');
    out.push('{');
    push_quoted(&mut out, "recipes");
    out.push(':');
    push_list(&mut out, v);
    out.push('}');
    out.push('}');
    proof {
        assert(out@ =~= ser_updated_event(recs_view(v@)));
    }
    string_from_chars(out)
}

/// The broadcast event for a roll.
pub fn event_rolled(o: &Option<Recipe>) -> (s: String)
    ensures
        s@ == ser_rolled_event(opt_view(*o)),
{
    let mut out: Vec<char> = Vec::new();
    out.push('{');
    push_quoted(&mut out, "RecipeRolled");
    out.push(':');
    out.push('{');
    push_quoted(&mut out, "recipe");
    out.push(':');
    push_opt_recipe(&mut out, o);
    out.push('}');
    out.push('}');
    proof {
        assert(out@ =~= ser_rolled_event(opt_view(*o)));
    }
    string_from_chars(out)
}

/// The typed peer reply acknowledging an addition.
pub fn rpc_added() -> (s: String)
    ensures
        s@ == ser_rpc_added(),
{
    let mut out: Vec<char> = Vec::new();
    push_quoted(&mut out, "RecipeAdded");
    proof {
        assert(out@ =~= ser_rpc_added());
    }
    string_from_chars(out)
}

/// The typed peer reply carrying the whole collection.
pub fn rpc_recipes(v: &Vec<Recipe>) -> (s: String)
    ensures
        s@ == ser_rpc_recipes(recs_view(v@)),
{
    let mut out: Vec<char> = Vec::new();
    out.push('{');
    push_quoted(&mut out, "Recipes");
    out.push(':');
    push_list(&mut out, v);
    out.push('}');
    proof {
        assert(out@ =~= ser_rpc_recipes(recs_view(v@)));
    }
    string_from_chars(out)
}

impl crate::store::Store {
    /// The durable snapshot of this store, as text.
    pub fn snapshot(&self) -> (s: String)
        ensures
            s@ == ser_snapshot(self@),
    {
        let v = self.list();
        snapshot_text(&v)
    }
}

/// The typed peer reply for a roll.
pub fn rpc_rolled(o: &Option<Recipe>) -> (s: String)
    ensures
        s@ == ser_rpc_rolled(opt_view(*o)),
{
    let mut out: Vec<char> = Vec::new();
    out.push('{');
    push_quoted(&mut out, "RolledRecipe");
    out.push(':');
    push_opt_recipe(&mut out, o);
    out.push('}');
    proof {
        assert(out@ =~= ser_rpc_rolled(opt_view(*o)));
    }
    string_from_chars(out)
}

} // verus!
