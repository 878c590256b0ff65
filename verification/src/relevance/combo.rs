//! The combo solver: whether one of the configured recipes can be filled
//! from the categories that were observed, slot by slot and first fit.

use crate::relevance::compile::clone_strings;
use crate::relevance::config::{AliasCfg, ComboNeed};
use crate::text::{concat2, str_eq, views};
use vstd::multiset::Multiset;
use vstd::prelude::*;
use vstd::string::StringExecFns;

verus! {

/// The concrete categories that a slot name stands for, read from entry
/// `i` of the aliases on: those of the first alias of that name, or the
/// name itself when there is none.
pub open spec fn expand_from(aliases: Seq<AliasCfg>, name: Seq<char>, i: int) -> Seq<Seq<char>>
    decreases aliases.len() - i,
{
    if i < 0 || i >= aliases.len() {
        seq![name]
    } else if aliases[i].name@ == name {
        views(aliases[i].categories@)
    } else {
        expand_from(aliases, name, i + 1)
    }
}

/// The concrete categories that a slot name stands for.
pub open spec fn expand(aliases: Seq<AliasCfg>, name: Seq<char>) -> Seq<Seq<char>> {
    expand_from(aliases, name, 0)
}

/// The first of the candidates, from candidate `i` on, of which the pool
/// still holds a unit.
pub open spec fn first_available_from(
    pool: Multiset<Seq<char>>,
    candidates: Seq<Seq<char>>,
    i: int,
) -> Option<Seq<char>>
    decreases candidates.len() - i,
{
    if i < 0 || i >= candidates.len() {
        None
    } else if pool.count(candidates[i]) > 0 {
        Some(candidates[i])
    } else {
        first_available_from(pool, candidates, i + 1)
    }
}

/// The first of the candidates of which the pool still holds a unit.
pub open spec fn first_available(pool: Multiset<Seq<char>>, candidates: Seq<Seq<char>>) -> Option<
    Seq<char>,
> {
    first_available_from(pool, candidates, 0)
}

/// The state after the first `n` slots of a recipe were filled in order,
/// each from the first candidate that had a unit left: what remains of
/// the pool, and the categories that were used. `None` when one of these
/// slots could not be filled.
pub open spec fn fill_slots(
    aliases: Seq<AliasCfg>,
    need: Seq<Seq<char>>,
    pool: Multiset<Seq<char>>,
    n: nat,
) -> Option<(Multiset<Seq<char>>, Seq<Seq<char>>)>
    decreases n,
{
    if n == 0 {
        Some((pool, Seq::empty()))
    } else {
        match fill_slots(aliases, need, pool, (n - 1) as nat) {
            None => None,
            Some((rest, used)) => match first_available(rest, expand(aliases, need[n - 1])) {
                None => None,
                Some(c) => Some((rest.remove(c), used.push(c))),
            },
        }
    }
}

/// The categories that fill a recipe, or `None` when it cannot be filled.
pub open spec fn recipe_filling(
    aliases: Seq<AliasCfg>,
    recipe: ComboNeed,
    pool: Multiset<Seq<char>>,
) -> Option<Seq<Seq<char>>> {
    match fill_slots(aliases, views(recipe.need@), pool, recipe.need@.len()) {
        None => None,
        Some((_, used)) => Some(used),
    }
}

/// The filling of the first recipe, from recipe `i` on, that can be
/// filled.
pub open spec fn first_filling_from(
    aliases: Seq<AliasCfg>,
    recipes: Seq<ComboNeed>,
    pool: Multiset<Seq<char>>,
    i: int,
) -> Option<Seq<Seq<char>>>
    decreases recipes.len() - i,
{
    if i < 0 || i >= recipes.len() {
        None
    } else {
        match recipe_filling(aliases, recipes[i], pool) {
            Some(used) => Some(used),
            None => first_filling_from(aliases, recipes, pool, i + 1),
        }
    }
}

/// The filling of the first recipe that can be filled.
pub open spec fn first_filling(
    aliases: Seq<AliasCfg>,
    recipes: Seq<ComboNeed>,
    pool: Multiset<Seq<char>>,
) -> Option<Seq<Seq<char>>> {
    first_filling_from(aliases, recipes, pool, 0)
}

/// The combos are satisfied: none is configured, or one can be filled.
pub open spec fn combos_pass(
    aliases: Seq<AliasCfg>,
    recipes: Seq<ComboNeed>,
    pool: Multiset<Seq<char>>,
) -> bool {
    recipes.len() == 0 || first_filling(aliases, recipes, pool) is Some
}

/// Texts joined by `+`.
pub open spec fn join_plus(parts: Seq<Seq<char>>) -> Seq<char>
    decreases parts.len(),
{
    if parts.len() == 0 {
        Seq::empty()
    } else if parts.len() == 1 {
        parts[0]
    } else {
        join_plus(parts.drop_last()) + "+"@ + parts.last()
    }
}

/// What the solver adds to the reasons: `combo:<used categories joined
/// by +>` when a recipe was filled, nothing otherwise.
pub open spec fn combo_reasons(
    aliases: Seq<AliasCfg>,
    recipes: Seq<ComboNeed>,
    pool: Multiset<Seq<char>>,
) -> Seq<Seq<char>> {
    if recipes.len() == 0 {
        Seq::empty()
    } else {
        match first_filling(aliases, recipes, pool) {
            Some(used) => seq!["combo:"@ + join_plus(used)],
            None => Seq::empty(),
        }
    }
}

/// Expands a slot name through the aliases.
pub fn expand_alias(aliases: &Vec<AliasCfg>, token: &str) -> (r: Vec<String>)
    ensures
        views(r@) == expand(aliases@, token@),
{
    let mut i: usize = 0;
    while i < aliases.len()
        invariant
            i <= aliases.len(),
            expand(aliases@, token@) == expand_from(aliases@, token@, i as int),
        decreases aliases.len() - i,
    {
        if str_eq(aliases[i].name.as_str(), token) {
            return clone_strings(&aliases[i].categories);
        }
        i += 1;
    }
    let mut r: Vec<String> = Vec::new();
    r.push(String::from_str(token));
    assert(views(r@) =~= seq![token@]);
    r
}

/// The position of the first entry of `pool` that equals `name`.
fn position_of(pool: &Vec<String>, name: &str) -> (r: Option<usize>)
    ensures
        match r {
            Some(i) => i < pool@.len() && pool@[i as int]@ == name@,
            None => views(pool@).to_multiset().count(name@) == 0,
        },
{
    let mut i: usize = 0;
    while i < pool.len()
        invariant
            i <= pool.len(),
            forall|k: int| 0 <= k < i ==> pool@[k]@ != name@,
        decreases pool.len() - i,
    {
        if str_eq(pool[i].as_str(), name) {
            return Some(i);
        }
        i += 1;
    }
    proof {
        let v = views(pool@);
        v.to_multiset_ensures();
        if v.contains(name@) {
            let k = choose|k: int| 0 <= k < v.len() && v[k] == name@;
            assert(pool@[k]@ == name@);
        }
    }
    None
}

/// Takes one unit of the first candidate that the pool still holds, and
/// returns that candidate.
fn take_first_available(pool: &mut Vec<String>, candidates: &Vec<String>) -> (r: Option<String>)
    ensures
        match r {
            Some(c) => first_available(views(old(pool)@).to_multiset(), views(candidates@))
                == Some(c@) && views(final(pool)@).to_multiset() == views(
                old(pool)@,
            ).to_multiset().remove(c@),
            None => first_available(views(old(pool)@).to_multiset(), views(candidates@)) is None
                && *final(pool) == *old(pool),
        },
{
    let ghost ms = views(pool@).to_multiset();
    let mut i: usize = 0;
    while i < candidates.len()
        invariant
            i <= candidates.len(),
            *pool == *old(pool),
            ms == views(pool@).to_multiset(),
            first_available(ms, views(candidates@)) == first_available_from(
                ms,
                views(candidates@),
                i as int,
            ),
        decreases candidates.len() - i,
    {
        match position_of(pool, candidates[i].as_str()) {
            Some(at) => {
                let ghost before = views(pool@);
                proof {
                    before.to_multiset_ensures();
                    assert(before[at as int] == candidates@[i as int]@);
                    assert(before.contains(candidates@[i as int]@));
                }
                pool.remove(at);
                proof {
                    assert(views(pool@) =~= before.remove(at as int));
                }
                return Some(candidates[i].clone());
            },
            None => {},
        }
        i += 1;
    }
    None
}

/// Fills the slots of one recipe from a copy of the pool, and returns
/// the categories that were used.
fn fill_recipe(aliases: &Vec<AliasCfg>, recipe: &ComboNeed, categories: &Vec<String>) -> (r:
    Option<Vec<String>>)
    ensures
        match r {
            Some(used) => recipe_filling(aliases@, *recipe, views(categories@).to_multiset())
                == Some(views(used@)),
            None => recipe_filling(aliases@, *recipe, views(categories@).to_multiset()) is None,
        },
{
    let ghost start = views(categories@).to_multiset();
    let ghost need = views(recipe.need@);
    let mut pool = clone_strings(categories);
    let mut used: Vec<String> = Vec::new();
    let mut i: usize = 0;
    assert(views(used@) =~= Seq::empty());
    while i < recipe.need.len()
        invariant
            i <= recipe.need@.len(),
            need == views(recipe.need@),
            start == views(categories@).to_multiset(),
            fill_slots(aliases@, need, start, i as nat) == Some(
                (views(pool@).to_multiset(), views(used@)),
            ),
        decreases recipe.need.len() - i,
    {
        let choices = expand_alias(aliases, recipe.need[i].as_str());
        assert(need[i as int] == recipe.need@[i as int]@);
        match take_first_available(&mut pool, &choices) {
            Some(c) => {
                let ghost before = views(used@);
                used.push(c);
                assert(views(used@) =~= before.push(c@));
            },
            None => {
                proof {
                    assert(fill_slots(aliases@, need, start, (i + 1) as nat) is None);
                    lemma_fill_stays_none(
                        aliases@,
                        need,
                        start,
                        (i + 1) as nat,
                        recipe.need@.len(),
                    );
                    assert(recipe_filling(aliases@, *recipe, start) is None);
                }
                return None;
            },
        }
        i += 1;
    }
    Some(used)
}

/// Once a slot cannot be filled, no later state exists.
proof fn lemma_fill_stays_none(
    aliases: Seq<AliasCfg>,
    need: Seq<Seq<char>>,
    pool: Multiset<Seq<char>>,
    n: nat,
    m: nat,
)
    requires
        n <= m,
        fill_slots(aliases, need, pool, n) is None,
    ensures
        fill_slots(aliases, need, pool, m) is None,
    decreases m,
{
    if n < m {
        lemma_fill_stays_none(aliases, need, pool, n, (m - 1) as nat);
    }
}

/// Joins texts by `+`.
pub fn join_with_plus(parts: &Vec<String>) -> (r: String)
    ensures
        r@ == join_plus(views(parts@)),
{
    let mut r = String::new();
    let mut i: usize = 0;
    assert(views(parts@).take(0) =~= Seq::empty());
    while i < parts.len()
        invariant
            i <= parts.len(),
            r@ == join_plus(views(parts@).take(i as int)),
        decreases parts.len() - i,
    {
        let ghost before = views(parts@).take(i as int);
        let ghost after = views(parts@).take(i + 1);
        assert(after.drop_last() =~= before);
        assert(after.last() == parts@[i as int]@);
        if i > 0 {
            r.append("+");
        }
        r.append(parts[i].as_str());
        proof {
            if i == 0 {
                assert(r@ =~= parts@[i as int]@);
            }
        }
        i += 1;
    }
    assert(views(parts@).take(parts@.len() as int) =~= views(parts@));
    r
}

/// Checks whether at least one recipe is satisfied by the observed
/// categories. The recipes are tried in their order and the first that
/// can be filled wins; its filling is added to `reasons`. With no recipe
/// configured the combos count as satisfied and nothing is added.
pub fn solve_combos(
    aliases: &Vec<AliasCfg>,
    recipes: &Vec<ComboNeed>,
    categories: &Vec<String>,
    reasons: &mut Vec<String>,
) -> (r: bool)
    ensures
        r == combos_pass(aliases@, recipes@, views(categories@).to_multiset()),
        views(final(reasons)@) == views(old(reasons)@) + combo_reasons(
            aliases@,
            recipes@,
            views(categories@).to_multiset(),
        ),
{
    let ghost pool = views(categories@).to_multiset();
    if recipes.len() == 0 {
        assert(views(reasons@) =~= views(reasons@) + Seq::<Seq<char>>::empty());
        return true;
    }
    let mut i: usize = 0;
    while i < recipes.len()
        invariant
            i <= recipes.len(),
            recipes@.len() > 0,
            *reasons == *old(reasons),
            pool == views(categories@).to_multiset(),
            first_filling(aliases@, recipes@, pool) == first_filling_from(
                aliases@,
                recipes@,
                pool,
                i as int,
            ),
        decreases recipes.len() - i,
    {
        match fill_recipe(aliases, &recipes[i], categories) {
            Some(used) => {
                let joined = join_with_plus(&used);
                let ghost before = views(reasons@);
                reasons.push(concat2("combo:", joined.as_str()));
                assert(views(reasons@) =~= before + seq!["combo:"@ + join_plus(views(used@))]);
                return true;
            },
            None => {},
        }
        i += 1;
    }
    assert(views(reasons@) =~= views(reasons@) + Seq::<Seq<char>>::empty());
    false
}

} // verus!
