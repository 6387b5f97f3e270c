use vstd::prelude::*;

use crate::recipe::{Recipe, RecipeV};
use crate::text::{esc, esc_char, is_digit, needs_esc, quoted, unesc, val_of};

verus! {

// ------------------------------------------------------------------
// Canonical wire forms
// ------------------------------------------------------------------

/// The wire form of one record: an object with its two fields, in order.
pub open spec fn ser_recipe(r: RecipeV) -> Seq<char> {
    seq!['{'] + quoted("name"@) + seq![':'] + quoted(r.name) + seq![','] + quoted(
        "instructions"@,
    ) + seq![':'] + quoted(r.instructions) + seq!['}']
}

/// The comma-separated wire forms of one or more records.
pub open spec fn ser_recipe_items(rs: Seq<RecipeV>) -> Seq<char>
    decreases rs.len(),
{
    if rs.len() == 0 {
        Seq::empty()
    } else if rs.len() == 1 {
        ser_recipe(rs[0])
    } else {
        ser_recipe(rs[0]) + seq![','] + ser_recipe_items(rs.drop_first())
    }
}

/// The wire form of a record collection: an array, in insertion order.
pub open spec fn ser_recipe_list(rs: Seq<RecipeV>) -> Seq<char> {
    seq!['['] + ser_recipe_items(rs) + seq![']']
}

/// The wire form of an optional record: the record, or `null`.
pub open spec fn ser_opt_recipe(r: Option<RecipeV>) -> Seq<char> {
    match r {
        Some(rec) => ser_recipe(rec),
        None => "null"@,
    }
}

/// The durable snapshot: the whole collection under the schema-version tag.
pub open spec fn ser_snapshot(rs: Seq<RecipeV>) -> Seq<char> {
    seq!['{'] + quoted("V1"@) + seq![':'] + seq!['{'] + quoted("recipes"@) + seq![':']
        + ser_recipe_list(rs) + seq!['}'] + seq!['}']
}

/// The body answering a listing over the browser channel.
pub open spec fn ser_recipes_response(rs: Seq<RecipeV>) -> Seq<char> {
    seq!['{'] + quoted("Recipes"@) + seq![':'] + ser_recipe_list(rs) + seq!['}']
}

/// The body acknowledging an addition over the browser channel.
pub open spec fn ser_recipe_added(r: RecipeV) -> Seq<char> {
    seq!['{'] + quoted("RecipeAdded"@) + seq![':'] + seq!['{'] + quoted("recipe"@) + seq![':']
        + ser_recipe(r) + seq!['}'] + seq!['}']
}

/// The body answering a roll over the browser channel.
pub open spec fn ser_rolled(r: Option<RecipeV>) -> Seq<char> {
    seq!['{'] + quoted("RolledRecipe"@) + seq![':'] + seq!['{'] + quoted("recipe"@) + seq![':']
        + ser_opt_recipe(r) + seq!['}'] + seq!['}']
}

/// The body acknowledging a deletion over the browser channel.
pub open spec fn ser_deleted() -> Seq<char> {
    seq!['{'] + quoted("RecipeDeleted"@) + seq![':'] + seq!['{'] + quoted("success"@) + seq![':']
        + "true"@ + seq!['}'] + seq!['}']
}

/// A client-error body with one message.
pub open spec fn ser_error(msg: Seq<char>) -> Seq<char> {
    seq!['{'] + quoted("error"@) + seq![':'] + quoted(msg) + seq!['}']
}

/// The broadcast event for a newly added record.
pub open spec fn ser_new_recipe_event(r: RecipeV) -> Seq<char> {
    seq!['{'] + quoted("NewRecipe"@) + seq![':'] + ser_recipe(r) + seq!['}']
}

/// The broadcast event carrying the refreshed full collection.
pub open spec fn ser_updated_event(rs: Seq<RecipeV>) -> Seq<char> {
    seq!['{'] + quoted("RecipesUpdated"@) + seq![':'] + seq!['{'] + quoted("recipes"@) + seq![':']
        + ser_recipe_list(rs) + seq!['}'] + seq!['}']
}

/// The broadcast event for a roll: the selected record, or none.
pub open spec fn ser_rolled_event(r: Option<RecipeV>) -> Seq<char> {
    seq!['{'] + quoted("RecipeRolled"@) + seq![':'] + seq!['{'] + quoted("recipe"@) + seq![':']
        + ser_opt_recipe(r) + seq!['}'] + seq!['}']
}

/// The typed peer reply acknowledging an addition.
pub open spec fn ser_rpc_added() -> Seq<char> {
    quoted("RecipeAdded"@)
}

/// The typed peer reply carrying the whole collection.
pub open spec fn ser_rpc_recipes(rs: Seq<RecipeV>) -> Seq<char> {
    seq!['{'] + quoted("Recipes"@) + seq![':'] + ser_recipe_list(rs) + seq!['}']
}

/// The typed peer reply for a roll.
pub open spec fn ser_rpc_rolled(r: Option<RecipeV>) -> Seq<char> {
    seq!['{'] + quoted("RolledRecipe"@) + seq![':'] + ser_opt_recipe(r) + seq!['}']
}

// ------------------------------------------------------------------
// Commands and their normalization
// ------------------------------------------------------------------

/// The transport-independent intent of a client, as a value.
pub ghost enum CommandV {
    Add(RecipeV),
    List,
    Roll,
    Delete(u64),
}

/// The transport-independent intent of a client.
///
/// Every payload of every channel reduces to one of these before it touches
/// the store.
#[derive(Debug)]
pub enum Command {
    AddRecipe(Recipe),
    ListRecipes,
    RollRecipe,
    DeleteRecipe(u64),
}

impl View for Command {
    type V = CommandV;

    open spec fn view(&self) -> CommandV {
        match self {
            Command::AddRecipe(r) => CommandV::Add(r@),
            Command::ListRecipes => CommandV::List,
            Command::RollRecipe => CommandV::Roll,
            Command::DeleteRecipe(i) => CommandV::Delete(*i),
        }
    }
}

/// Why a payload was refused before it reached the store.
#[derive(Clone, Copy, Debug, PartialEq, Eq, Structural)]
pub enum WireError {
    /// The payload decodes to no known command shape.
    MalformedRequest,
}

// ------------------------------------------------------------------
// The parser, at the specification level
// ------------------------------------------------------------------

/// Whether a character is insignificant between tokens.
pub open spec fn is_ws(c: char) -> bool {
    c == ' ' || c == '\n' || c == '\r' || c == '\t'
}

/// The first position at or after `i` that holds no whitespace.
pub open spec fn skip_ws(s: Seq<char>, i: int) -> int
    decreases s.len() - i,
{
    if 0 <= i && i < s.len() && is_ws(s[i]) {
        skip_ws(s, i + 1)
    } else {
        i
    }
}

/// Whether `lit` stands at `i`; if so, the position just after it.
pub open spec fn parse_lit(s: Seq<char>, i: int, lit: Seq<char>) -> Option<int> {
    if 0 <= i && i + lit.len() <= s.len() && s.subrange(i, i + lit.len()) == lit {
        Some(i + lit.len())
    } else {
        None
    }
}

/// The body of a quoted text from `i` up to its closing quote: the characters
/// it stands for, and the position just after the quote.
pub open spec fn parse_str_chars(s: Seq<char>, i: int) -> Option<(Seq<char>, int)>
    decreases s.len() - i,
{
    if !(0 <= i && i < s.len()) {
        None
    } else if s[i] == '"' {
        Some((Seq::empty(), i + 1))
    } else if s[i] == '\\' {
        if i + 1 < s.len() {
            match unesc(s[i + 1]) {
                None => None,
                Some(c) => match parse_str_chars(s, i + 2) {
                    None => None,
                    Some((rest, j)) => Some((seq![c] + rest, j)),
                },
            }
        } else {
            None
        }
    } else {
        match parse_str_chars(s, i + 1) {
            None => None,
            Some((rest, j)) => Some((seq![s[i]] + rest, j)),
        }
    }
}

/// A quoted text starting at `i`.
pub open spec fn parse_qstring(s: Seq<char>, i: int) -> Option<(Seq<char>, int)> {
    if 0 <= i && i < s.len() && s[i] == '"' {
        parse_str_chars(s, i + 1)
    } else {
        None
    }
}

/// The first position at or after `i` that holds no decimal digit.
pub open spec fn digit_run_end(s: Seq<char>, i: int) -> int
    decreases s.len() - i,
{
    if 0 <= i && i < s.len() && is_digit(s[i]) {
        digit_run_end(s, i + 1)
    } else {
        i
    }
}

/// An unsigned number at `i`: at least one digit, its value within range.
pub open spec fn parse_u64(s: Seq<char>, i: int) -> Option<(u64, int)> {
    let j = digit_run_end(s, i);
    if !(0 <= i && i < j) {
        None
    } else {
        let v = val_of(s.subrange(i, j));
        if v <= u64::MAX {
            Some((v as u64, j))
        } else {
            None
        }
    }
}

/// A record object read from just after its `"name"` key: colon, name value,
/// comma, `"instructions"` key, colon, instructions value, closing brace.
pub open spec fn parse_recipe_fields(s: Seq<char>, i: int) -> Option<(RecipeV, int)> {
    let j = skip_ws(s, i);
    if !(0 <= j && j < s.len() && s[j] == ':') {
        None
    } else {
        match parse_qstring(s, skip_ws(s, j + 1)) {
            None => None,
            Some((name, j1)) => {
                let j2 = skip_ws(s, j1);
                if !(0 <= j2 && j2 < s.len() && s[j2] == ',') {
                    None
                } else {
                    match parse_qstring(s, skip_ws(s, j2 + 1)) {
                        None => None,
                        Some((key2, j3)) => if key2 != "instructions"@ {
                            None
                        } else {
                            let j4 = skip_ws(s, j3);
                            if !(0 <= j4 && j4 < s.len() && s[j4] == ':') {
                                None
                            } else {
                                match parse_qstring(s, skip_ws(s, j4 + 1)) {
                                    None => None,
                                    Some((instructions, j5)) => {
                                        let j6 = skip_ws(s, j5);
                                        if !(0 <= j6 && j6 < s.len() && s[j6] == '}') {
                                            None
                                        } else {
                                            Some((RecipeV { name, instructions }, j6 + 1))
                                        }
                                    },
                                }
                            }
                        },
                    }
                }
            },
        }
    }
}

/// A whole record object starting at `i`.
pub open spec fn parse_recipe(s: Seq<char>, i: int) -> Option<(RecipeV, int)> {
    if !(0 <= i && i < s.len() && s[i] == '{') {
        None
    } else {
        match parse_qstring(s, skip_ws(s, i + 1)) {
            None => None,
            Some((key, j)) => if key != "name"@ {
                None
            } else {
                parse_recipe_fields(s, j)
            },
        }
    }
}

/// One or more records separated by commas, up to and over a closing bracket.
pub open spec fn parse_items(s: Seq<char>, i: int) -> Option<(Seq<RecipeV>, int)>
    decreases s.len() - i,
{
    match parse_recipe(s, i) {
        None => None,
        Some((r, j)) => {
            let j1 = skip_ws(s, j);
            if 0 <= j1 && j1 < s.len() && s[j1] == ']' {
                Some((seq![r], j1 + 1))
            } else if 0 <= j1 && j1 < s.len() && s[j1] == ',' {
                let j2 = skip_ws(s, j1 + 1);
                if i < j2 <= s.len() {
                    match parse_items(s, j2) {
                        None => None,
                        Some((rest, k)) => Some((seq![r] + rest, k)),
                    }
                } else {
                    None
                }
            } else {
                None
            }
        },
    }
}

/// An array of records starting at `i`.
pub open spec fn parse_list(s: Seq<char>, i: int) -> Option<(Seq<RecipeV>, int)> {
    if !(0 <= i && i < s.len() && s[i] == '[') {
        None
    } else {
        let j = skip_ws(s, i + 1);
        if 0 <= j && j < s.len() && s[j] == ']' {
            Some((Seq::empty(), j + 1))
        } else {
            parse_items(s, j)
        }
    }
}

/// The durable snapshot decoded: the record collection it carries, if the
/// text is a well-formed snapshot under the recognized schema version.
pub open spec fn parse_snapshot(s: Seq<char>) -> Option<Seq<RecipeV>> {
    let i = skip_ws(s, 0);
    if !(0 <= i && i < s.len() && s[i] == '{') {
        None
    } else {
        match parse_qstring(s, skip_ws(s, i + 1)) {
            None => None,
            Some((tag, j)) => if tag != "V1"@ {
                None
            } else {
                let j1 = skip_ws(s, j);
                if !(0 <= j1 && j1 < s.len() && s[j1] == ':') {
                    None
                } else {
                    let j2 = skip_ws(s, j1 + 1);
                    if !(0 <= j2 && j2 < s.len() && s[j2] == '{') {
                        None
                    } else {
                        match parse_qstring(s, skip_ws(s, j2 + 1)) {
                            None => None,
                            Some((key, j3)) => if key != "recipes"@ {
                                None
                            } else {
                                let j4 = skip_ws(s, j3);
                                if !(0 <= j4 && j4 < s.len() && s[j4] == ':') {
                                    None
                                } else {
                                    match parse_list(s, skip_ws(s, j4 + 1)) {
                                        None => None,
                                        Some((recs, j5)) => {
                                            let j6 = skip_ws(s, j5);
                                            if !(0 <= j6 && j6 < s.len() && s[j6] == '}') {
                                                None
                                            } else {
                                                let j7 = skip_ws(s, j6 + 1);
                                                if !(0 <= j7 && j7 < s.len() && s[j7] == '}') {
                                                    None
                                                } else if skip_ws(s, j7 + 1) == s.len() {
                                                    Some(recs)
                                                } else {
                                                    None
                                                }
                                            }
                                        },
                                    }
                                }
                            },
                        }
                    }
                }
            },
        }
    }
}

/// A payload normalized to a command.
///
/// With `loose` (the browser channels), the ad-hoc shapes are recognized —
/// a bare record object, a roll flag, a delete object — besides the strict
/// typed shapes; without it (the peer channel), only the strict shapes are.
pub open spec fn parse_command(s: Seq<char>, loose: bool) -> Option<CommandV> {
    let i = skip_ws(s, 0);
    if !(0 <= i && i < s.len()) {
        None
    } else if s[i] == '"' {
        match parse_qstring(s, i) {
            None => None,
            Some((word, j)) => if skip_ws(s, j) != s.len() {
                None
            } else if word == "RollRecipe"@ {
                Some(CommandV::Roll)
            } else if word == "GetRecipes"@ {
                Some(CommandV::List)
            } else {
                None
            },
        }
    } else if s[i] == '{' {
        match parse_qstring(s, skip_ws(s, i + 1)) {
            None => None,
            Some((key, j)) => if key == "name"@ && loose {
                match parse_recipe_fields(s, j) {
                    None => None,
                    Some((r, j1)) => if skip_ws(s, j1) == s.len() {
                        Some(CommandV::Add(r))
                    } else {
                        None
                    },
                }
            } else if key == "RollRecipe"@ && loose {
                let j1 = skip_ws(s, j);
                if !(0 <= j1 && j1 < s.len() && s[j1] == ':') {
                    None
                } else {
                    match parse_lit(s, skip_ws(s, j1 + 1), "true"@) {
                        None => None,
                        Some(j2) => {
                            let j3 = skip_ws(s, j2);
                            if !(0 <= j3 && j3 < s.len() && s[j3] == '}') {
                                None
                            } else if skip_ws(s, j3 + 1) == s.len() {
                                Some(CommandV::Roll)
                            } else {
                                None
                            }
                        },
                    }
                }
            } else if key == "DeleteRecipe"@ && loose {
                parse_delete_fields(s, j)
            } else if key == "AddRecipe"@ {
                let j1 = skip_ws(s, j);
                if !(0 <= j1 && j1 < s.len() && s[j1] == ':') {
                    None
                } else {
                    match parse_recipe(s, skip_ws(s, j1 + 1)) {
                        None => None,
                        Some((r, j2)) => {
                            let j3 = skip_ws(s, j2);
                            if !(0 <= j3 && j3 < s.len() && s[j3] == '}') {
                                None
                            } else if skip_ws(s, j3 + 1) == s.len() {
                                Some(CommandV::Add(r))
                            } else {
                                None
                            }
                        },
                    }
                }
            } else {
                None
            },
        }
    } else {
        None
    }
}

/// The tail of a delete request, read from just after its key: colon, an
/// object holding the index, the closing braces, the end of the payload.
pub open spec fn parse_delete_fields(s: Seq<char>, i: int) -> Option<CommandV> {
    let j = skip_ws(s, i);
    if !(0 <= j && j < s.len() && s[j] == ':') {
        None
    } else {
        let j1 = skip_ws(s, j + 1);
        if !(0 <= j1 && j1 < s.len() && s[j1] == '{') {
            None
        } else {
            match parse_qstring(s, skip_ws(s, j1 + 1)) {
                None => None,
                Some((key, j2)) => if key != "index"@ {
                    None
                } else {
                    let j3 = skip_ws(s, j2);
                    if !(0 <= j3 && j3 < s.len() && s[j3] == ':') {
                        None
                    } else {
                        match parse_u64(s, skip_ws(s, j3 + 1)) {
                            None => None,
                            Some((n, j4)) => {
                                let j5 = skip_ws(s, j4);
                                if !(0 <= j5 && j5 < s.len() && s[j5] == '}') {
                                    None
                                } else {
                                    let j6 = skip_ws(s, j5 + 1);
                                    if !(0 <= j6 && j6 < s.len() && s[j6] == '}') {
                                        None
                                    } else if skip_ws(s, j6 + 1) == s.len() {
                                        Some(CommandV::Delete(n))
                                    } else {
                                        None
                                    }
                                }
                            },
                        }
                    }
                },
            }
        }
    }
}

// ------------------------------------------------------------------
// Completeness: a canonical wire form always decodes, to what it encodes
// ------------------------------------------------------------------

/// Whether `t` is exactly what stands from `i` to the end of `s`.
pub open spec fn suffix_is(s: Seq<char>, i: int, t: Seq<char>) -> bool {
    0 <= i <= s.len() && s.subrange(i, s.len() as int) == t
}

/// Splitting a suffix: its first part stands at `i`, the rest just after.
pub proof fn lemma_suffix_split(s: Seq<char>, i: int, a: Seq<char>, b: Seq<char>)
    requires
        suffix_is(s, i, a + b),
    ensures
        suffix_is(s, i + a.len(), b),
        forall|k: int| 0 <= k < a.len() ==> s[i + k] == a[k],
{
    assert(s.subrange(i, s.len() as int).len() == s.len() - i);
    assert((a + b).len() == a.len() + b.len());
    assert(a.len() + b.len() == s.len() - i);
    assert forall|k: int| 0 <= k < a.len() implies s[i + k] == a[k] by {
        assert(s.subrange(i, s.len() as int)[k] == s[i + k]);
        assert((a + b)[k] == a[k]);
    }
    assert(s.subrange(i + a.len(), s.len() as int) =~= b) by {
        assert forall|k: int| 0 <= k < b.len() implies s.subrange(
            i + a.len(),
            s.len() as int,
        )[k] == b[k] by {
            assert(s.subrange(i, s.len() as int)[a.len() + k] == s[i + (a.len() + k)]);
            assert((a + b)[a.len() + k] == b[k]);
            assert(s.subrange(i + a.len(), s.len() as int)[k] == s[(i + a.len()) + k]);
            assert(s[i + (a.len() + k)] == s[(i + a.len()) + k]);
        }
        assert(s.subrange(i + a.len(), s.len() as int).len() == b.len());
    }
}

/// Whitespace skipping stands still where no whitespace stands.
pub proof fn lemma_skip_ws_noop(s: Seq<char>, i: int)
    requires
        0 <= i <= s.len(),
        i == s.len() || !is_ws(s[i]),
    ensures
        skip_ws(s, i) == i,
{
}

/// One fixed character consumed from the front of a suffix.
pub proof fn lemma_char_step(s: Seq<char>, i: int, c: char, rest: Seq<char>)
    requires
        suffix_is(s, i, seq![c] + rest),
    ensures
        0 <= i < s.len(),
        s[i] == c,
        suffix_is(s, i + 1, rest),
{
    lemma_suffix_split(s, i, seq![c], rest);
    assert(s[i + 0] == seq![c][0]);
}

/// The body of a quoted text decodes to exactly the text it encodes.
pub proof fn lemma_str_chars_complete(s: Seq<char>, i: int, content: Seq<char>, rest: Seq<char>)
    requires
        suffix_is(s, i, esc(content) + seq!['"'] + rest),
    ensures
        parse_str_chars(s, i) == Some((content, i + esc(content).len() + 1)),
    decreases content.len(),
{
    if content.len() == 0 {
        assert(esc(content) == Seq::<char>::empty());
        assert(esc(content) + seq!['"'] + rest =~= seq!['"'] + rest);
        lemma_char_step(s, i, '"', rest);
        assert(parse_str_chars(s, i) == Some((Seq::<char>::empty(), i + 1)));
        assert(content =~= Seq::<char>::empty());
    } else {
        let c = content[0];
        let tail = content.drop_first();
        assert(esc(content) == esc_char(c) + esc(tail));
        assert(esc(content) + seq!['"'] + rest =~= esc_char(c) + (esc(tail) + seq!['"'] + rest));
        lemma_suffix_split(s, i, esc_char(c), esc(tail) + seq!['"'] + rest);
        if needs_esc(c) {
            assert(esc_char(c).len() == 2);
            assert(s[i + 0] == esc_char(c)[0]);
            assert(s[i + 1] == esc_char(c)[1]);
            assert(s[i] == '\\');
            assert(unesc(esc_char(c)[1]) == Some(c));
            lemma_str_chars_complete(s, i + 2, tail, rest);
            assert(seq![c] + tail =~= content);
            assert(esc(content).len() == 2 + esc(tail).len());
        } else {
            assert(esc_char(c) =~= seq![c]);
            assert(s[i + 0] == esc_char(c)[0]);
            assert(s[i] == c);
            lemma_str_chars_complete(s, i + 1, tail, rest);
            assert(seq![c] + tail =~= content);
            assert(esc(content).len() == 1 + esc(tail).len());
        }
    }
}

/// A quoted text decodes to exactly the text it encodes.
pub proof fn lemma_qstring_complete(s: Seq<char>, i: int, content: Seq<char>, rest: Seq<char>)
    requires
        suffix_is(s, i, quoted(content) + rest),
    ensures
        parse_qstring(s, i) == Some((content, i + quoted(content).len())),
        suffix_is(s, i + quoted(content).len(), rest),
{
    assert(quoted(content) + rest =~= seq!['"'] + (esc(content) + seq!['"'] + rest));
    lemma_char_step(s, i, '"', esc(content) + seq!['"'] + rest);
    lemma_str_chars_complete(s, i + 1, content, rest);
    lemma_suffix_split(s, i, quoted(content), rest);
}

/// The tail of a record's wire form, after its `"name"` key.
pub open spec fn ser_recipe_fields(r: RecipeV) -> Seq<char> {
    seq![':'] + quoted(r.name) + seq![','] + quoted("instructions"@) + seq![':'] + quoted(
        r.instructions,
    ) + seq!['}']
}

/// A record's field tail decodes to exactly that record.
pub proof fn lemma_recipe_fields_complete(s: Seq<char>, i: int, r: RecipeV, rest: Seq<char>)
    requires
        suffix_is(s, i, ser_recipe_fields(r) + rest),
    ensures
        parse_recipe_fields(s, i) == Some((r, i + ser_recipe_fields(r).len())),
        suffix_is(s, i + ser_recipe_fields(r).len(), rest),
{
    let t3 = quoted(r.name) + (seq![','] + (quoted("instructions"@) + (seq![':'] + (quoted(
        r.instructions,
    ) + (seq!['}'] + rest)))));
    assert(ser_recipe_fields(r) + rest =~= seq![':'] + t3);
    let p2 = i;
    lemma_char_step(s, p2, ':', t3);
    lemma_skip_ws_noop(s, p2);
    let p3 = p2 + 1;
    assert(s[p3] == t3[0]);
    lemma_skip_ws_noop(s, p3);
    let t4 = seq![','] + (quoted("instructions"@) + (seq![':'] + (quoted(r.instructions) + (
    seq!['}'] + rest))));
    lemma_qstring_complete(s, p3, r.name, t4);
    let p4 = p3 + quoted(r.name).len();
    assert(s[p4] == t4[0]);
    lemma_skip_ws_noop(s, p4);
    let t5 = quoted("instructions"@) + (seq![':'] + (quoted(r.instructions) + (seq!['}'] + rest)));
    lemma_char_step(s, p4, ',', t5);
    let p5 = p4 + 1;
    assert(s[p5] == t5[0]);
    lemma_skip_ws_noop(s, p5);
    let t6 = seq![':'] + (quoted(r.instructions) + (seq!['}'] + rest));
    lemma_qstring_complete(s, p5, "instructions"@, t6);
    let p6 = p5 + quoted("instructions"@).len();
    assert(s[p6] == t6[0]);
    lemma_skip_ws_noop(s, p6);
    let t7 = quoted(r.instructions) + (seq!['}'] + rest);
    lemma_char_step(s, p6, ':', t7);
    let p7 = p6 + 1;
    assert(s[p7] == t7[0]);
    lemma_skip_ws_noop(s, p7);
    let t8 = seq!['}'] + rest;
    lemma_qstring_complete(s, p7, r.instructions, t8);
    let p8 = p7 + quoted(r.instructions).len();
    assert(s[p8] == t8[0]);
    lemma_skip_ws_noop(s, p8);
    lemma_char_step(s, p8, '}', rest);
    let p9 = p8 + 1;
    assert(parse_recipe_fields(s, i) == Some(
        (RecipeV { name: r.name, instructions: r.instructions }, p9),
    ));
    assert(RecipeV { name: r.name, instructions: r.instructions } == r);
    assert(p9 == i + ser_recipe_fields(r).len());
}

/// A record's wire form decodes to exactly that record.
pub proof fn lemma_recipe_complete(s: Seq<char>, i: int, r: RecipeV, rest: Seq<char>)
    requires
        suffix_is(s, i, ser_recipe(r) + rest),
    ensures
        parse_recipe(s, i) == Some((r, i + ser_recipe(r).len())),
        suffix_is(s, i + ser_recipe(r).len(), rest),
{
    let t1 = quoted("name"@) + (ser_recipe_fields(r) + rest);
    assert(ser_recipe(r) + rest =~= seq!['{'] + t1);
    lemma_char_step(s, i, '{', t1);
    let p1 = i + 1;
    assert(s[p1] == t1[0]);
    lemma_skip_ws_noop(s, p1);
    lemma_qstring_complete(s, p1, "name"@, ser_recipe_fields(r) + rest);
    let p2 = p1 + quoted("name"@).len();
    lemma_recipe_fields_complete(s, p2, r, rest);
    assert(p2 + ser_recipe_fields(r).len() == i + ser_recipe(r).len());
}

/// A record's wire form begins with its opening brace.
pub proof fn lemma_ser_recipe_first(r: RecipeV)
    ensures
        ser_recipe(r).len() >= 1,
        ser_recipe(r)[0] == '{',
{
}

/// A non-empty collection's item run begins with a record's opening brace.
pub proof fn lemma_ser_items_first(rs: Seq<RecipeV>)
    requires
        rs.len() >= 1,
    ensures
        ser_recipe_items(rs).len() >= 1,
        ser_recipe_items(rs)[0] == '{',
{
    lemma_ser_recipe_first(rs[0]);
}

/// A run of records decodes to exactly those records, in order.
pub proof fn lemma_items_complete(s: Seq<char>, i: int, rs: Seq<RecipeV>, rest: Seq<char>)
    requires
        rs.len() >= 1,
        suffix_is(s, i, ser_recipe_items(rs) + seq![']'] + rest),
    ensures
        parse_items(s, i) == Some((rs, i + ser_recipe_items(rs).len() + 1)),
        suffix_is(s, i + ser_recipe_items(rs).len() + 1, rest),
    decreases rs.len(),
{
    if rs.len() == 1 {
        assert(ser_recipe_items(rs) == ser_recipe(rs[0]));
        assert(ser_recipe_items(rs) + seq![']'] + rest =~= ser_recipe(rs[0]) + (seq![']'] + rest));
        lemma_recipe_complete(s, i, rs[0], seq![']'] + rest);
        let j = i + ser_recipe(rs[0]).len();
        assert(s[j] == (seq![']'] + rest)[0]);
        lemma_skip_ws_noop(s, j);
        lemma_char_step(s, j, ']', rest);
        assert(seq![rs[0]] =~= rs);
    } else {
        let tail = rs.drop_first();
        assert(ser_recipe_items(rs) == ser_recipe(rs[0]) + seq![','] + ser_recipe_items(tail));
        let t1 = seq![','] + (ser_recipe_items(tail) + seq![']'] + rest);
        assert(ser_recipe_items(rs) + seq![']'] + rest =~= ser_recipe(rs[0]) + t1);
        lemma_recipe_complete(s, i, rs[0], t1);
        let j = i + ser_recipe(rs[0]).len();
        assert(s[j] == t1[0]);
        lemma_skip_ws_noop(s, j);
        lemma_char_step(s, j, ',', ser_recipe_items(tail) + seq![']'] + rest);
        let p = j + 1;
        lemma_ser_items_first(tail);
        assert(s[p] == (ser_recipe_items(tail) + seq![']'] + rest)[0]);
        lemma_skip_ws_noop(s, p);
        lemma_items_complete(s, p, tail, rest);
        assert(seq![rs[0]] + tail =~= rs);
        assert(s[j] == ',' && !(s[j] == ']'));
    }
}

/// A collection's wire form decodes to exactly that collection.
pub proof fn lemma_list_complete(s: Seq<char>, i: int, rs: Seq<RecipeV>, rest: Seq<char>)
    requires
        suffix_is(s, i, ser_recipe_list(rs) + rest),
    ensures
        parse_list(s, i) == Some((rs, i + ser_recipe_list(rs).len())),
        suffix_is(s, i + ser_recipe_list(rs).len(), rest),
{
    let t1 = ser_recipe_items(rs) + (seq![']'] + rest);
    assert(ser_recipe_list(rs) + rest =~= seq!['['] + t1);
    lemma_char_step(s, i, '[', t1);
    let p = i + 1;
    if rs.len() == 0 {
        assert(ser_recipe_items(rs) == Seq::<char>::empty());
        assert(t1 =~= seq![']'] + rest);
        lemma_char_step(s, p, ']', rest);
        lemma_skip_ws_noop(s, p);
        assert(parse_list(s, i) == Some((Seq::<RecipeV>::empty(), p + 1)));
        assert(rs =~= Seq::<RecipeV>::empty());
    } else {
        lemma_ser_items_first(rs);
        assert(t1 =~= ser_recipe_items(rs) + seq![']'] + rest);
        assert(s[p] == t1[0]);
        lemma_skip_ws_noop(s, p);
        lemma_items_complete(s, p, rs, rest);
        assert(s[p] == '{' && !(s[p] == ']'));
    }
}

/// The strict typed shape of an addition: the record under its tag.
pub open spec fn ser_add_command(r: RecipeV) -> Seq<char> {
    seq!['{'] + quoted("AddRecipe"@) + seq![':'] + ser_recipe(r) + seq!['}']
}

/// The ad-hoc browser shape of a roll: a flag under the roll key.
pub open spec fn ser_roll_flag_command() -> Seq<char> {
    seq!['{'] + quoted("RollRecipe"@) + seq![':'] + "true"@ + seq!['}']
}

/// The ad-hoc browser shape of a deletion: an index, written in the given
/// digits, nested under the delete key.
pub open spec fn ser_delete_command(ds: Seq<char>) -> Seq<char> {
    seq!['{'] + quoted("DeleteRecipe"@) + seq![':'] + seq!['{'] + quoted("index"@) + seq![':'] + ds
        + seq!['}'] + seq!['}']
}

/// A digit block that ends at a non-digit is the whole digit run.
pub proof fn lemma_digit_run_exact(s: Seq<char>, i: int, j: int)
    requires
        0 <= i <= j <= s.len(),
        forall|m: int| i <= m < j ==> is_digit(s[m]),
        j == s.len() || !is_digit(s[j]),
    ensures
        digit_run_end(s, i) == j,
    decreases j - i,
{
    if i < j {
        lemma_digit_run_exact(s, i + 1, j);
    }
}

/// The opening of a keyed object: the brace, then its first key.
pub proof fn lemma_object_key(s: Seq<char>, key: Seq<char>, tail: Seq<char>)
    requires
        suffix_is(s, 0, seq!['{'] + (quoted(key) + tail)),
    ensures
        skip_ws(s, 0) == 0,
        0 < s.len() && s[0] == '{',
        skip_ws(s, 1) == 1,
        parse_qstring(s, 1) == Some((key, 1 + quoted(key).len() as int)),
        suffix_is(s, 1 + quoted(key).len() as int, tail),
{
    lemma_char_step(s, 0, '{', quoted(key) + tail);
    lemma_skip_ws_noop(s, 0);
    assert(s[1] == (quoted(key) + tail)[0]);
    lemma_skip_ws_noop(s, 1);
    lemma_qstring_complete(s, 1, key, tail);
}

/// The strict roll and listing words decode to their commands, on every
/// channel.
pub proof fn lemma_words_normalize(loose: bool)
    ensures
        parse_command(quoted("RollRecipe"@), loose) == Some(CommandV::Roll),
        parse_command(quoted("GetRecipes"@), loose) == Some(CommandV::List),
{
    reveal_strlit("RollRecipe");
    reveal_strlit("GetRecipes");
    let s1 = quoted("RollRecipe"@);
    assert(s1.subrange(0, s1.len() as int) =~= s1);
    assert(s1 =~= quoted("RollRecipe"@) + Seq::<char>::empty());
    assert(suffix_is(s1, 0, quoted("RollRecipe"@) + Seq::<char>::empty()));
    assert(s1[0] == '"');
    lemma_skip_ws_noop(s1, 0);
    lemma_qstring_complete(s1, 0, "RollRecipe"@, Seq::<char>::empty());
    lemma_skip_ws_noop(s1, s1.len() as int);
    let s2 = quoted("GetRecipes"@);
    assert(s2.subrange(0, s2.len() as int) =~= s2);
    assert(s2 =~= quoted("GetRecipes"@) + Seq::<char>::empty());
    assert(suffix_is(s2, 0, quoted("GetRecipes"@) + Seq::<char>::empty()));
    assert(s2[0] == '"');
    lemma_skip_ws_noop(s2, 0);
    lemma_qstring_complete(s2, 0, "GetRecipes"@, Seq::<char>::empty());
    lemma_skip_ws_noop(s2, s2.len() as int);
    assert("GetRecipes"@[0] != "RollRecipe"@[0]);
}

/// A bare record object decodes to an addition on the browser channels.
#[verifier::rlimit(100)]
#[verifier::spinoff_prover]
pub proof fn lemma_bare_add_normalizes(r: RecipeV)
    ensures
        parse_command(ser_recipe(r), true) == Some(CommandV::Add(r)),
{
    let s = ser_recipe(r);
    assert(s.subrange(0, s.len() as int) =~= s);
    let tail = ser_recipe_fields(r) + Seq::<char>::empty();
    assert(s =~= seq!['{'] + (quoted("name"@) + tail));
    assert(suffix_is(s, 0, seq!['{'] + (quoted("name"@) + tail)));
    lemma_object_key(s, "name"@, tail);
    let p2: int = 1 + quoted("name"@).len() as int;
    lemma_recipe_fields_complete(s, p2, r, Seq::<char>::empty());
    let p3 = p2 + ser_recipe_fields(r).len();
    assert(suffix_is(s, p3, Seq::<char>::empty()));
    assert(p3 == s.len());
    lemma_skip_ws_noop(s, p3);
}

/// A tagged record object decodes to an addition, on every channel.
#[verifier::rlimit(100)]
#[verifier::spinoff_prover]
pub proof fn lemma_tagged_add_normalizes(r: RecipeV, loose: bool)
    ensures
        parse_command(ser_add_command(r), loose) == Some(CommandV::Add(r)),
{
    reveal_strlit("name");
    reveal_strlit("RollRecipe");
    reveal_strlit("DeleteRecipe");
    reveal_strlit("AddRecipe");
    let s = ser_add_command(r);
    assert(s.subrange(0, s.len() as int) =~= s);
    let t3 = ser_recipe(r) + (seq!['}'] + Seq::<char>::empty());
    let tail = seq![':'] + t3;
    assert(s =~= seq!['{'] + (quoted("AddRecipe"@) + tail));
    assert(suffix_is(s, 0, seq!['{'] + (quoted("AddRecipe"@) + tail)));
    lemma_object_key(s, "AddRecipe"@, tail);
    let p2: int = 1 + quoted("AddRecipe"@).len() as int;
    assert("AddRecipe"@.len() != "name"@.len());
    assert("AddRecipe"@.len() != "RollRecipe"@.len());
    assert("AddRecipe"@.len() != "DeleteRecipe"@.len());
    lemma_char_step(s, p2, ':', t3);
    lemma_skip_ws_noop(s, p2);
    let p3 = p2 + 1;
    lemma_ser_recipe_first(r);
    assert(s[p3] == t3[0]);
    lemma_skip_ws_noop(s, p3);
    lemma_recipe_complete(s, p3, r, seq!['}'] + Seq::<char>::empty());
    let p4 = p3 + ser_recipe(r).len();
    assert(s[p4] == (seq!['}'] + Seq::<char>::empty())[0]);
    lemma_skip_ws_noop(s, p4);
    lemma_char_step(s, p4, '}', Seq::<char>::empty());
    let p5 = p4 + 1;
    assert(suffix_is(s, p5, Seq::<char>::empty()));
    assert(p5 == s.len());
    lemma_skip_ws_noop(s, p5);
}

/// The roll flag decodes to a roll on the browser channels.
#[verifier::rlimit(100)]
#[verifier::spinoff_prover]
pub proof fn lemma_roll_flag_normalizes()
    ensures
        parse_command(ser_roll_flag_command(), true) == Some(CommandV::Roll),
{
    reveal_strlit("name");
    reveal_strlit("RollRecipe");
    reveal_strlit("true");
    let s = ser_roll_flag_command();
    assert(s.subrange(0, s.len() as int) =~= s);
    let t3 = "true"@ + (seq!['}'] + Seq::<char>::empty());
    let tail = seq![':'] + t3;
    assert(s =~= seq!['{'] + (quoted("RollRecipe"@) + tail));
    assert(suffix_is(s, 0, seq!['{'] + (quoted("RollRecipe"@) + tail)));
    lemma_object_key(s, "RollRecipe"@, tail);
    let p2: int = 1 + quoted("RollRecipe"@).len() as int;
    assert("RollRecipe"@.len() != "name"@.len());
    lemma_char_step(s, p2, ':', t3);
    lemma_skip_ws_noop(s, p2);
    let p3 = p2 + 1;
    assert(s[p3] == t3[0]);
    lemma_skip_ws_noop(s, p3);
    lemma_suffix_split(s, p3, "true"@, seq!['}'] + Seq::<char>::empty());
    assert(s.subrange(p3, p3 + "true"@.len()) =~= "true"@) by {
        assert forall|k: int| 0 <= k < "true"@.len() implies s.subrange(
            p3,
            p3 + "true"@.len(),
        )[k] == "true"@[k] by {
            assert(s[p3 + k] == "true"@[k]);
        }
    }
    assert(parse_lit(s, p3, "true"@) == Some(p3 + "true"@.len()));
    let p4 = p3 + "true"@.len();
    assert(s[p4] == (seq!['}'] + Seq::<char>::empty())[0]);
    lemma_skip_ws_noop(s, p4);
    lemma_char_step(s, p4, '}', Seq::<char>::empty());
    let p5 = p4 + 1;
    assert(suffix_is(s, p5, Seq::<char>::empty()));
    assert(p5 == s.len());
    lemma_skip_ws_noop(s, p5);
}

/// The tail of a delete request decodes to a deletion of the index the
/// digits write.
#[verifier::rlimit(100)]
#[verifier::spinoff_prover]
pub proof fn lemma_delete_fields_complete(s: Seq<char>, i: int, ds: Seq<char>)
    requires
        ds.len() >= 1,
        forall|m: int| 0 <= m < ds.len() ==> is_digit(ds[m]),
        val_of(ds) <= u64::MAX,
        suffix_is(
            s,
            i,
            seq![':'] + (seq!['{'] + (quoted("index"@) + (seq![':'] + (ds + (seq!['}'] + (
            seq!['}'] + Seq::<char>::empty())))))),
        ),
    ensures
        parse_delete_fields(s, i) == Some(CommandV::Delete(val_of(ds) as u64)),
{
    let t3 = seq!['{'] + (quoted("index"@) + (seq![':'] + (ds + (seq!['}'] + (seq!['}']
        + Seq::<char>::empty())))));
    let p2 = i;
    lemma_char_step(s, p2, ':', t3);
    lemma_skip_ws_noop(s, p2);
    let p3 = p2 + 1;
    assert(s[p3] == t3[0]);
    lemma_skip_ws_noop(s, p3);
    let t4 = quoted("index"@) + (seq![':'] + (ds + (seq!['}'] + (seq!['}']
        + Seq::<char>::empty()))));
    lemma_char_step(s, p3, '{', t4);
    let p4 = p3 + 1;
    assert(s[p4] == t4[0]);
    lemma_skip_ws_noop(s, p4);
    let t5 = seq![':'] + (ds + (seq!['}'] + (seq!['}'] + Seq::<char>::empty())));
    lemma_qstring_complete(s, p4, "index"@, t5);
    let p5 = p4 + quoted("index"@).len();
    assert(s[p5] == t5[0]);
    lemma_skip_ws_noop(s, p5);
    let t6 = ds + (seq!['}'] + (seq!['}'] + Seq::<char>::empty()));
    lemma_char_step(s, p5, ':', t6);
    let p6 = p5 + 1;
    lemma_suffix_split(s, p6, ds, seq!['}'] + (seq!['}'] + Seq::<char>::empty()));
    assert(s[p6 + 0] == ds[0]);
    assert(is_digit(s[p6]));
    assert(!is_ws(s[p6]));
    lemma_skip_ws_noop(s, p6);
    let p7 = p6 + ds.len();
    assert(s[p7] == (seq!['}'] + (seq!['}'] + Seq::<char>::empty()))[0]);
    assert(!is_digit('}'));
    assert forall|m: int| p6 <= m < p7 implies is_digit(s[m]) by {
        assert(s[p6 + (m - p6)] == ds[m - p6]);
    }
    lemma_digit_run_exact(s, p6, p7);
    assert(s.subrange(p6, p7) =~= ds) by {
        assert forall|k: int| 0 <= k < ds.len() implies s.subrange(p6, p7)[k] == ds[k] by {
            assert(s[p6 + k] == ds[k]);
        }
    }
    assert(parse_u64(s, p6) == Some((val_of(ds) as u64, p7)));
    lemma_skip_ws_noop(s, p7);
    lemma_char_step(s, p7, '}', seq!['}'] + Seq::<char>::empty());
    let p8 = p7 + 1;
    assert(s[p8] == '}');
    lemma_skip_ws_noop(s, p8);
    lemma_char_step(s, p8, '}', Seq::<char>::empty());
    let p9 = p8 + 1;
    assert(suffix_is(s, p9, Seq::<char>::empty()));
    assert(p9 == s.len());
    lemma_skip_ws_noop(s, p9);
}

/// A delete object whose index is written in digits decodes to a deletion
/// of that index on the browser channels.
#[verifier::rlimit(100)]
#[verifier::spinoff_prover]
pub proof fn lemma_delete_normalizes(ds: Seq<char>)
    requires
        ds.len() >= 1,
        forall|m: int| 0 <= m < ds.len() ==> is_digit(ds[m]),
        val_of(ds) <= u64::MAX,
    ensures
        parse_command(ser_delete_command(ds), true) == Some(
            CommandV::Delete(val_of(ds) as u64),
        ),
{
    reveal_strlit("name");
    reveal_strlit("RollRecipe");
    reveal_strlit("DeleteRecipe");
    let s = ser_delete_command(ds);
    assert(s.subrange(0, s.len() as int) =~= s);
    let t2 = seq![':'] + (seq!['{'] + (quoted("index"@) + (seq![':'] + (ds + (seq!['}'] + (
    seq!['}'] + Seq::<char>::empty()))))));
    assert(s =~= seq!['{'] + (quoted("DeleteRecipe"@) + t2));
    assert(suffix_is(s, 0, seq!['{'] + (quoted("DeleteRecipe"@) + t2)));
    lemma_object_key(s, "DeleteRecipe"@, t2);
    let p2: int = 1 + quoted("DeleteRecipe"@).len() as int;
    assert("DeleteRecipe"@.len() != "name"@.len());
    assert("DeleteRecipe"@.len() != "RollRecipe"@.len());
    lemma_delete_fields_complete(s, p2, ds);
}

/// Round trip: the snapshot of any record collection decodes back to exactly
/// that collection.
#[verifier::rlimit(80)]
pub proof fn lemma_snapshot_roundtrip(rs: Seq<RecipeV>)
    ensures
        parse_snapshot(ser_snapshot(rs)) == Some(rs),
{
    let s = ser_snapshot(rs);
    let t1 = quoted("V1"@) + (seq![':'] + (seq!['{'] + (quoted("recipes"@) + (seq![':'] + (
    ser_recipe_list(rs) + (seq!['}'] + (seq!['}'] + Seq::<char>::empty())))))));
    assert(s.subrange(0, s.len() as int) =~= s);
    assert(s =~= seq!['{'] + t1);
    assert(suffix_is(s, 0, seq!['{'] + t1));
    lemma_skip_ws_noop(s, 0);
    lemma_char_step(s, 0, '{', t1);
    let p1 = 1int;
    assert(s[p1] == t1[0]);
    lemma_skip_ws_noop(s, p1);
    let t2 = seq![':'] + (seq!['{'] + (quoted("recipes"@) + (seq![':'] + (ser_recipe_list(rs) + (
    seq!['}'] + (seq!['}'] + Seq::<char>::empty()))))));
    lemma_qstring_complete(s, p1, "V1"@, t2);
    let p2 = p1 + quoted("V1"@).len();
    assert(s[p2] == t2[0]);
    lemma_skip_ws_noop(s, p2);
    let t3 = seq!['{'] + (quoted("recipes"@) + (seq![':'] + (ser_recipe_list(rs) + (seq!['}'] + (
    seq!['}'] + Seq::<char>::empty())))));
    lemma_char_step(s, p2, ':', t3);
    let p3 = p2 + 1;
    assert(s[p3] == t3[0]);
    lemma_skip_ws_noop(s, p3);
    let t4 = quoted("recipes"@) + (seq![':'] + (ser_recipe_list(rs) + (seq!['}'] + (seq!['}']
        + Seq::<char>::empty()))));
    lemma_char_step(s, p3, '{', t4);
    let p4 = p3 + 1;
    assert(s[p4] == t4[0]);
    lemma_skip_ws_noop(s, p4);
    let t5 = seq![':'] + (ser_recipe_list(rs) + (seq!['}'] + (seq!['}'] + Seq::<char>::empty())));
    lemma_qstring_complete(s, p4, "recipes"@, t5);
    let p5 = p4 + quoted("recipes"@).len();
    assert(s[p5] == t5[0]);
    lemma_skip_ws_noop(s, p5);
    let t6 = ser_recipe_list(rs) + (seq!['}'] + (seq!['}'] + Seq::<char>::empty()));
    lemma_char_step(s, p5, ':', t6);
    let p6 = p5 + 1;
    assert(ser_recipe_list(rs)[0] == '[');
    assert(s[p6] == t6[0]);
    lemma_skip_ws_noop(s, p6);
    let t7 = seq!['}'] + (seq!['}'] + Seq::<char>::empty());
    assert(t6 =~= ser_recipe_list(rs) + t7);
    lemma_list_complete(s, p6, rs, t7);
    let p7 = p6 + ser_recipe_list(rs).len();
    assert(s[p7] == t7[0]);
    lemma_skip_ws_noop(s, p7);
    lemma_char_step(s, p7, '}', seq!['}'] + Seq::<char>::empty());
    let p8 = p7 + 1;
    assert(s[p8] == '}');
    lemma_skip_ws_noop(s, p8);
    lemma_char_step(s, p8, '}', Seq::<char>::empty());
    let p9 = p8 + 1;
    assert(suffix_is(s, p9, Seq::<char>::empty()));
    assert(p9 == s.len());
    lemma_skip_ws_noop(s, p9);
}

} // verus!
