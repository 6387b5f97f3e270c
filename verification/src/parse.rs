use vstd::prelude::*;

use crate::recipe::{recs_view, Recipe, RecipeV};
use crate::store::Store;
use crate::text::{chars_eq_str, chars_of, digit_of, digit_val, is_digit, string_from_chars, unesc, val_of};
use crate::wire::{
    digit_run_end, is_ws, parse_command, parse_delete_fields, parse_items, parse_lit, parse_list,
    parse_qstring, parse_recipe, parse_recipe_fields, parse_snapshot, parse_str_chars, parse_u64,
    skip_ws, Command, WireError,
};

verus! {

/// Whether a character is insignificant between tokens.
fn is_ws_exec(c: char) -> (b: bool)
    ensures
        b == is_ws(c),
{
    c == ' ' || c == '\n' || c == '\r' || c == '\t'
}

/// What the character after a backslash stands for.
fn unesc_exec(c: char) -> (r: Option<char>)
    ensures
        r == unesc(c),
{
    match c {
        '"' => Some('"'),
        '\\' => Some('\\'),
        'n' => Some('\n'),
        'r' => Some('\r'),
        't' => Some('\t'),
        _ => None,
    }
}

/// The first position at or after `i` that holds no whitespace.
fn skip_ws_exec(t: &Vec<char>, i: usize) -> (j: usize)
    requires
        i <= t@.len(),
    ensures
        j as int == skip_ws(t@, i as int),
        i <= j <= t@.len(),
{
    let mut k = i;
    while k < t.len() && is_ws_exec(t[k])
        invariant
            i <= k <= t@.len(),
            skip_ws(t@, i as int) == skip_ws(t@, k as int),
        decreases t@.len() - k,
    {
        k += 1;
    }
    k
}

/// Whether `lit` stands at `i`; if so, the position just after it.
fn parse_lit_exec(t: &Vec<char>, i: usize, lit: &str) -> (r: Option<usize>)
    requires
        i <= t@.len(),
    ensures
        parse_lit(t@, i as int, lit@) matches Some(j) ==> (r matches Some(e) && e as int == j
            && e <= t@.len()),
        parse_lit(t@, i as int, lit@) is None ==> r is None,
{
    let n = lit.unicode_len();
    let tlen = t.len();
    if tlen - i < n {
        return None;
    }
    let mut k: usize = 0;
    while k < n
        invariant
            k <= n,
            n == lit@.len(),
            tlen == t@.len(),
            i + n <= tlen,
            forall|m: int| 0 <= m < k ==> t@[i + m] == lit@[m],
        decreases n - k,
    {
        if t[i + k] != lit.get_char(k) {
            proof {
                assert(t@.subrange(i as int, i + lit@.len())[k as int] == t@[i + k as int]);
            }
            return None;
        }
        k += 1;
    }
    proof {
        assert(t@.subrange(i as int, i + lit@.len()) =~= lit@);
    }
    Some(i + n)
}

/// The body of a quoted text, up to and over its closing quote.
fn parse_str_chars_exec(t: &Vec<char>, i: usize) -> (r: Option<(Vec<char>, usize)>)
    ensures
        parse_str_chars(t@, i as int) matches Some(p) ==> (r matches Some(q) && q.0@ == p.0
            && q.1 as int == p.1 && q.1 <= t@.len()),
        parse_str_chars(t@, i as int) is None ==> r is None,
    decreases t@.len() - i,
{
    if i >= t.len() {
        return None;
    }
    let c = t[i];
    if c == '"' {
        let v: Vec<char> = Vec::new();
        Some((v, i + 1))
    } else if c == '\\' {
        if i + 1 < t.len() {
            match unesc_exec(t[i + 1]) {
                None => None,
                Some(c2) => match parse_str_chars_exec(t, i + 2) {
                    None => None,
                    Some((mut rest, j)) => {
                        rest.insert(0, c2);
                        proof {
                            assert(parse_str_chars(t@, i as int) matches Some(p) ==> rest@ =~= p.0);
                        }
                        Some((rest, j))
                    },
                },
            }
        } else {
            None
        }
    } else {
        match parse_str_chars_exec(t, i + 1) {
            None => None,
            Some((mut rest, j)) => {
                rest.insert(0, c);
                proof {
                    assert(parse_str_chars(t@, i as int) matches Some(p) ==> rest@ =~= p.0);
                }
                Some((rest, j))
            },
        }
    }
}

/// A quoted text starting at `i`.
fn parse_qstring_exec(t: &Vec<char>, i: usize) -> (r: Option<(Vec<char>, usize)>)
    ensures
        parse_qstring(t@, i as int) matches Some(p) ==> (r matches Some(q) && q.0@ == p.0
            && q.1 as int == p.1 && q.1 <= t@.len()),
        parse_qstring(t@, i as int) is None ==> r is None,
{
    if i < t.len() && t[i] == '"' {
        parse_str_chars_exec(t, i + 1)
    } else {
        None
    }
}

/// The first position at or after `i` that holds no decimal digit.
fn digit_run_end_exec(t: &Vec<char>, i: usize) -> (j: usize)
    requires
        i <= t@.len(),
    ensures
        j as int == digit_run_end(t@, i as int),
        i <= j <= t@.len(),
{
    let mut k = i;
    while k < t.len() && digit_of(t[k]) < 10
        invariant
            i <= k <= t@.len(),
            digit_run_end(t@, i as int) == digit_run_end(t@, k as int),
        decreases t@.len() - k,
    {
        k += 1;
    }
    k
}

/// Every position of a digit run holds a digit.
proof fn lemma_digit_run_digits(s: Seq<char>, i: int)
    requires
        0 <= i <= s.len(),
    ensures
        i <= digit_run_end(s, i) <= s.len(),
        forall|m: int| i <= m < digit_run_end(s, i) ==> is_digit(s[m]),
    decreases s.len() - i,
{
    if i < s.len() && is_digit(s[i]) {
        lemma_digit_run_digits(s, i + 1);
    }
}

/// An unsigned number at `i`: at least one digit, its value within range.
fn parse_u64_exec(t: &Vec<char>, i: usize) -> (r: Option<(u64, usize)>)
    requires
        i <= t@.len(),
    ensures
        parse_u64(t@, i as int) matches Some(p) ==> (r matches Some(q) && q.0 == p.0 && q.1 as int
            == p.1 && q.1 <= t@.len()),
        parse_u64(t@, i as int) is None ==> r is None,
{
    let j = digit_run_end_exec(t, i);
    if j == i {
        return None;
    }
    proof {
        lemma_digit_run_digits(t@, i as int);
    }
    let mut acc: u64 = 0;
    let mut over = false;
    let mut k = i;
    while k < j
        invariant
            i <= k <= j <= t@.len(),
            j as int == digit_run_end(t@, i as int),
            forall|m: int| i <= m < j ==> is_digit(t@[m]),
            !over ==> acc as nat == val_of(t@.subrange(i as int, k as int)),
            over ==> val_of(t@.subrange(i as int, k as int)) > u64::MAX,
        decreases j - k,
    {
        let d = digit_of(t[k]);
        proof {
            assert(t@.subrange(i as int, k as int + 1).drop_last() =~= t@.subrange(
                i as int,
                k as int,
            ));
            assert(t@.subrange(i as int, k as int + 1).last() == t@[k as int]);
        }
        let ghost oldval = val_of(t@.subrange(i as int, k as int));
        if over {
            proof {
                assert(oldval * 10 >= oldval) by (nonlinear_arith);
            }
        } else {
            match acc.checked_mul(10) {
                None => {
                    over = true;
                    proof {
                        assert(val_of(t@.subrange(i as int, k as int + 1)) == oldval * 10
                            + digit_val(t@[k as int]));
                    }
                },
                Some(m) => match m.checked_add(d as u64) {
                    None => {
                        over = true;
                    },
                    Some(a) => {
                        acc = a;
                    },
                },
            }
        }
        k += 1;
    }
    proof {
        assert(t@.subrange(i as int, j as int) == t@.subrange(i as int, k as int));
    }
    if over {
        None
    } else {
        Some((acc, j))
    }
}

/// A record object read from just after its `"name"` key.
fn parse_recipe_fields_exec(t: &Vec<char>, i: usize) -> (r: Option<(Recipe, usize)>)
    requires
        i <= t@.len(),
    ensures
        parse_recipe_fields(t@, i as int) matches Some(p) ==> (r matches Some(q) && q.0@ == p.0
            && q.1 as int == p.1 && q.1 <= t@.len()),
        parse_recipe_fields(t@, i as int) is None ==> r is None,
{
    let j = skip_ws_exec(t, i);
    if !(j < t.len() && t[j] == ':') {
        return None;
    }
    let (name, j1) = match parse_qstring_exec(t, skip_ws_exec(t, j + 1)) {
        None => {
            return None;
        },
        Some(p) => p,
    };
    let j2 = skip_ws_exec(t, j1);
    if !(j2 < t.len() && t[j2] == ',') {
        return None;
    }
    let (key2, j3) = match parse_qstring_exec(t, skip_ws_exec(t, j2 + 1)) {
        None => {
            return None;
        },
        Some(p) => p,
    };
    if !chars_eq_str(&key2, "instructions") {
        return None;
    }
    let j4 = skip_ws_exec(t, j3);
    if !(j4 < t.len() && t[j4] == ':') {
        return None;
    }
    let (instr, j5) = match parse_qstring_exec(t, skip_ws_exec(t, j4 + 1)) {
        None => {
            return None;
        },
        Some(p) => p,
    };
    let j6 = skip_ws_exec(t, j5);
    if !(j6 < t.len() && t[j6] == '}') {
        return None;
    }
    let rec = Recipe::new(string_from_chars(name), string_from_chars(instr));
    Some((rec, j6 + 1))
}

/// A whole record object starting at `i`.
fn parse_recipe_exec(t: &Vec<char>, i: usize) -> (r: Option<(Recipe, usize)>)
    requires
        i <= t@.len(),
    ensures
        parse_recipe(t@, i as int) matches Some(p) ==> (r matches Some(q) && q.0@ == p.0
            && q.1 as int == p.1 && q.1 <= t@.len()),
        parse_recipe(t@, i as int) is None ==> r is None,
{
    if !(i < t.len() && t[i] == '{') {
        return None;
    }
    match parse_qstring_exec(t, skip_ws_exec(t, i + 1)) {
        None => None,
        Some((key, j)) => {
            if !chars_eq_str(&key, "name") {
                return None;
            }
            parse_recipe_fields_exec(t, j)
        },
    }
}

/// One or more records separated by commas, up to and over a closing bracket.
fn parse_items_exec(t: &Vec<char>, i: usize) -> (r: Option<(Vec<Recipe>, usize)>)
    requires
        i <= t@.len(),
    ensures
        parse_items(t@, i as int) matches Some(p) ==> (r matches Some(q) && recs_view(q.0@) == p.0
            && q.1 as int == p.1 && q.1 <= t@.len()),
        parse_items(t@, i as int) is None ==> r is None,
    decreases t@.len() - i,
{
    let (rec, j) = match parse_recipe_exec(t, i) {
        None => {
            return None;
        },
        Some(p) => p,
    };
    let j1 = skip_ws_exec(t, j);
    if j1 < t.len() && t[j1] == ']' {
        let mut v: Vec<Recipe> = Vec::new();
        v.push(rec);
        proof {
            assert(parse_items(t@, i as int) matches Some(p) ==> recs_view(v@) =~= p.0);
        }
        Some((v, j1 + 1))
    } else if j1 < t.len() && t[j1] == ',' {
        let j2 = skip_ws_exec(t, j1 + 1);
        if i < j2 {
            match parse_items_exec(t, j2) {
                None => None,
                Some((mut rest, k)) => {
                    rest.insert(0, rec);
                    proof {
                        assert(parse_items(t@, i as int) matches Some(p) ==> recs_view(rest@)
                            =~= p.0);
                    }
                    Some((rest, k))
                },
            }
        } else {
            None
        }
    } else {
        None
    }
}

/// An array of records starting at `i`.
fn parse_list_exec(t: &Vec<char>, i: usize) -> (r: Option<(Vec<Recipe>, usize)>)
    requires
        i <= t@.len(),
    ensures
        parse_list(t@, i as int) matches Some(p) ==> (r matches Some(q) && recs_view(q.0@) == p.0
            && q.1 as int == p.1 && q.1 <= t@.len()),
        parse_list(t@, i as int) is None ==> r is None,
{
    if !(i < t.len() && t[i] == '[') {
        return None;
    }
    let j = skip_ws_exec(t, i + 1);
    if j < t.len() && t[j] == ']' {
        let v: Vec<Recipe> = Vec::new();
        proof {
            assert(parse_list(t@, i as int) matches Some(p) ==> recs_view(v@) =~= p.0);
        }
        Some((v, j + 1))
    } else {
        parse_items_exec(t, j)
    }
}

/// The durable snapshot decoded to the records it carries.
fn parse_snapshot_exec(t: &Vec<char>) -> (r: Option<Vec<Recipe>>)
    ensures
        parse_snapshot(t@) matches Some(recs) ==> (r matches Some(v) && recs_view(v@) == recs),
        parse_snapshot(t@) is None ==> r is None,
{
    let i = skip_ws_exec(t, 0);
    if !(i < t.len() && t[i] == '{') {
        return None;
    }
    let (tag, j) = match parse_qstring_exec(t, skip_ws_exec(t, i + 1)) {
        None => {
            return None;
        },
        Some(p) => p,
    };
    if !chars_eq_str(&tag, "V1") {
        return None;
    }
    let j1 = skip_ws_exec(t, j);
    if !(j1 < t.len() && t[j1] == ':') {
        return None;
    }
    let j2 = skip_ws_exec(t, j1 + 1);
    if !(j2 < t.len() && t[j2] == '{') {
        return None;
    }
    let (key, j3) = match parse_qstring_exec(t, skip_ws_exec(t, j2 + 1)) {
        None => {
            return None;
        },
        Some(p) => p,
    };
    if !chars_eq_str(&key, "recipes") {
        return None;
    }
    let j4 = skip_ws_exec(t, j3);
    if !(j4 < t.len() && t[j4] == ':') {
        return None;
    }
    let (recs, j5) = match parse_list_exec(t, skip_ws_exec(t, j4 + 1)) {
        None => {
            return None;
        },
        Some(p) => p,
    };
    let j6 = skip_ws_exec(t, j5);
    if !(j6 < t.len() && t[j6] == '}') {
        return None;
    }
    let j7 = skip_ws_exec(t, j6 + 1);
    if !(j7 < t.len() && t[j7] == '}') {
        return None;
    }
    if skip_ws_exec(t, j7 + 1) == t.len() {
        Some(recs)
    } else {
        None
    }
}

/// A payload normalized to a command, mirroring the recognized shapes.
fn parse_command_exec(t: &Vec<char>, loose: bool) -> (r: Option<Command>)
    ensures
        parse_command(t@, loose) matches Some(c) ==> (r matches Some(cmd) && cmd@ == c),
        parse_command(t@, loose) is None ==> r is None,
{
    let i = skip_ws_exec(t, 0);
    if i >= t.len() {
        return None;
    }
    if t[i] == '"' {
        let (word, j) = match parse_qstring_exec(t, i) {
            None => {
                return None;
            },
            Some(p) => p,
        };
        if skip_ws_exec(t, j) != t.len() {
            return None;
        }
        if chars_eq_str(&word, "RollRecipe") {
            Some(Command::RollRecipe)
        } else if chars_eq_str(&word, "GetRecipes") {
            Some(Command::ListRecipes)
        } else {
            None
        }
    } else if t[i] == '{' {
        let (key, j) = match parse_qstring_exec(t, skip_ws_exec(t, i + 1)) {
            None => {
                return None;
            },
            Some(p) => p,
        };
        if chars_eq_str(&key, "name") && loose {
            match parse_recipe_fields_exec(t, j) {
                None => None,
                Some((rec, j1)) => {
                    if skip_ws_exec(t, j1) == t.len() {
                        Some(Command::AddRecipe(rec))
                    } else {
                        None
                    }
                },
            }
        } else if chars_eq_str(&key, "RollRecipe") && loose {
            let j1 = skip_ws_exec(t, j);
            if !(j1 < t.len() && t[j1] == ':') {
                return None;
            }
            match parse_lit_exec(t, skip_ws_exec(t, j1 + 1), "true") {
                None => None,
                Some(j2) => {
                    let j3 = skip_ws_exec(t, j2);
                    if !(j3 < t.len() && t[j3] == '}') {
                        return None;
                    }
                    if skip_ws_exec(t, j3 + 1) == t.len() {
                        Some(Command::RollRecipe)
                    } else {
                        None
                    }
                },
            }
        } else if chars_eq_str(&key, "DeleteRecipe") && loose {
            parse_delete_fields_exec(t, j)
        } else if chars_eq_str(&key, "AddRecipe") {
            let j1 = skip_ws_exec(t, j);
            if !(j1 < t.len() && t[j1] == ':') {
                return None;
            }
            match parse_recipe_exec(t, skip_ws_exec(t, j1 + 1)) {
                None => None,
                Some((rec, j2)) => {
                    let j3 = skip_ws_exec(t, j2);
                    if !(j3 < t.len() && t[j3] == '}') {
                        return None;
                    }
                    if skip_ws_exec(t, j3 + 1) == t.len() {
                        Some(Command::AddRecipe(rec))
                    } else {
                        None
                    }
                },
            }
        } else {
            None
        }
    } else {
        None
    }
}

/// The tail of a delete request, read from just after its key.
fn parse_delete_fields_exec(t: &Vec<char>, i: usize) -> (r: Option<Command>)
    requires
        i <= t@.len(),
    ensures
        parse_delete_fields(t@, i as int) matches Some(c) ==> (r matches Some(cmd) && cmd@ == c),
        parse_delete_fields(t@, i as int) is None ==> r is None,
{
    let j = skip_ws_exec(t, i);
    if !(j < t.len() && t[j] == ':') {
        return None;
    }
    let j1 = skip_ws_exec(t, j + 1);
    if !(j1 < t.len() && t[j1] == '{') {
        return None;
    }
    let (key, j2) = match parse_qstring_exec(t, skip_ws_exec(t, j1 + 1)) {
        None => {
            return None;
        },
        Some(p) => p,
    };
    if !chars_eq_str(&key, "index") {
        return None;
    }
    let j3 = skip_ws_exec(t, j2);
    if !(j3 < t.len() && t[j3] == ':') {
        return None;
    }
    let (n, j4) = match parse_u64_exec(t, skip_ws_exec(t, j3 + 1)) {
        None => {
            return None;
        },
        Some(p) => p,
    };
    let j5 = skip_ws_exec(t, j4);
    if !(j5 < t.len() && t[j5] == '}') {
        return None;
    }
    let j6 = skip_ws_exec(t, j5 + 1);
    if !(j6 < t.len() && t[j6] == '}') {
        return None;
    }
    if skip_ws_exec(t, j6 + 1) == t.len() {
        Some(Command::DeleteRecipe(n))
    } else {
        None
    }
}

/// Normalizes one raw payload to a command, or refuses it.
///
/// With `loose` (the browser channels), the ad-hoc shapes are recognized
/// besides the strict typed ones; without it (the peer channel), only the
/// strict ones are. The payload is accepted exactly when it parses.
pub fn normalize(body: &str, loose: bool) -> (r: Result<Command, WireError>)
    ensures
        parse_command(body@, loose) matches Some(c) ==> (r matches Ok(cmd) && cmd@ == c),
        parse_command(body@, loose) is None ==> r == Err::<Command, WireError>(
            WireError::MalformedRequest,
        ),
{
    let t = chars_of(body);
    match parse_command_exec(&t, loose) {
        Some(cmd) => Ok(cmd),
        None => Err(WireError::MalformedRequest),
    }
}

/// Builds the store a durable snapshot describes.
///
/// Malformed or unrecognized text yields the empty store, never a failure:
/// state corruption must not block startup.
pub fn restore(text: &str) -> (st: Store)
    ensures
        parse_snapshot(text@) matches Some(recs) ==> st@ == recs,
        parse_snapshot(text@) is None ==> st@ == Seq::<RecipeV>::empty(),
{
    let t = chars_of(text);
    match parse_snapshot_exec(&t) {
        Some(v) => Store::from_records(v),
        None => Store::new(),
    }
}

} // verus!
