//! Conditions of the contextual rules over an input text. All of them
//! ignore the case of ASCII letters and the amount of whitespace.

use crate::text::{chars_of, contains_chars, fold_text, folded, occurs_in, string_of};
use vstd::prelude::*;
use vstd::string::StringExecFns;

verus! {

/// The condition of a rule. A part that is absent holds of every text.
#[derive(Debug, Clone)]
pub struct When {
    pub any_contains: Option<Vec<String>>,
    pub all_contains: Option<Vec<String>>,
    pub not_contains: Option<Vec<String>>,
    pub min_len: Option<usize>,
}

/// The names of the rules that are loaded, and their number.
#[derive(Debug)]
pub struct RulesOut {
    pub count: usize,
    pub names: Vec<String>,
}

/// The name of a rule as it is shown: its name, or `<unnamed>`.
pub open spec fn shown_name(name: Option<String>) -> Seq<char> {
    match name {
        Some(n) => n@,
        None => "<unnamed>"@,
    }
}

impl RulesOut {
    /// The overview of the rules with the given names.
    pub fn from_names(names: &Vec<Option<String>>) -> (r: RulesOut)
        ensures
            r.count == names@.len(),
            crate::text::views(r.names@) == names@.map_values(|n: Option<String>| shown_name(n)),
    {
        let mut shown: Vec<String> = Vec::new();
        let mut i: usize = 0;
        while i < names.len()
            invariant
                i <= names.len(),
                crate::text::views(shown@) == names@.take(i as int).map_values(
                    |n: Option<String>| shown_name(n),
                ),
            decreases names.len() - i,
        {
            let ghost before = crate::text::views(shown@);
            let name = match &names[i] {
                Some(n) => n.clone(),
                None => String::from_str("<unnamed>"),
            };
            shown.push(name);
            assert(crate::text::views(shown@) =~= before.push(shown_name(names@[i as int])));
            assert(names@.take(i + 1) =~= names@.take(i as int).push(names@[i as int]));
            i += 1;
        }
        assert(names@.take(names@.len() as int) =~= names@);
        RulesOut { count: names.len(), names: shown }
    }
}

/// The phrase stands in the text, both folded. The empty phrase stands in
/// every text.
pub open spec fn text_contains(text: Seq<char>, pat: Seq<char>) -> bool {
    occurs_in(folded(text), folded(pat))
}

/// The text contains one of the phrases.
pub open spec fn contains_any(text: Seq<char>, phrases: Seq<String>) -> bool {
    exists|i: int| 0 <= i < phrases.len() && text_contains(text, #[trigger] phrases[i]@)
}

/// The text contains every one of the phrases.
pub open spec fn contains_all(text: Seq<char>, phrases: Seq<String>) -> bool {
    forall|i: int| 0 <= i < phrases.len() ==> text_contains(text, #[trigger] phrases[i]@)
}

/// The condition holds of a text that is folded already: it is long
/// enough, contains one of `any_contains`, all of `all_contains` and
/// none of `not_contains`.
pub open spec fn when_holds(text: Seq<char>, w: When) -> bool {
    &&& w.min_len matches Some(min) ==> text.len() >= min
    &&& w.any_contains matches Some(v) ==> contains_any(text, v@)
    &&& w.all_contains matches Some(v) ==> contains_all(text, v@)
    &&& w.not_contains matches Some(v) ==> !contains_any(text, v@)
}

/// Puts a text in lower case, folds each run of whitespace into one
/// space and trims the ends.
pub fn normalize(input: &str) -> (r: String)
    ensures
        r@ == folded(input@),
{
    let chars = fold_text(input);
    string_of(&chars)
}

/// Whether the phrase stands in the text, both sides normalized first.
pub fn contains(text: &str, pat: &str) -> (r: bool)
    ensures
        r == text_contains(text@, pat@),
{
    let t = fold_text(text);
    let p = fold_text(pat);
    contains_chars(&t, &p)
}

fn any_phrase(text: &str, phrases: &Vec<String>) -> (r: bool)
    ensures
        r == contains_any(text@, phrases@),
{
    let mut i: usize = 0;
    while i < phrases.len()
        invariant
            i <= phrases.len(),
            forall|k: int| 0 <= k < i ==> !text_contains(text@, #[trigger] phrases@[k]@),
        decreases phrases.len() - i,
    {
        if contains(text, phrases[i].as_str()) {
            return true;
        }
        i += 1;
    }
    false
}

fn all_phrases(text: &str, phrases: &Vec<String>) -> (r: bool)
    ensures
        r == contains_all(text@, phrases@),
{
    let mut i: usize = 0;
    while i < phrases.len()
        invariant
            i <= phrases.len(),
            forall|k: int| 0 <= k < i ==> text_contains(text@, #[trigger] phrases@[k]@),
        decreases phrases.len() - i,
    {
        if !contains(text, phrases[i].as_str()) {
            return false;
        }
        i += 1;
    }
    true
}

/// Whether the condition holds of the text, which is normalized already.
/// The length is counted in characters.
pub fn matches_when(text: &str, w: &When) -> (r: bool)
    ensures
        r == when_holds(text@, *w),
{
    match w.min_len {
        Some(min) => {
            let chars = chars_of(text);
            if chars.len() < min {
                return false;
            }
        },
        None => {},
    }
    match &w.any_contains {
        Some(v) => {
            if !any_phrase(text, v) {
                return false;
            }
        },
        None => {},
    }
    match &w.all_contains {
        Some(v) => {
            if !all_phrases(text, v) {
                return false;
            }
        },
        None => {},
    }
    match &w.not_contains {
        Some(v) => {
            if any_phrase(text, v) {
                return false;
            }
        },
        None => {},
    }
    true
}

/// The positions of the conditions that hold of the normalized input, in
/// their order.
pub open spec fn holding(input: Seq<char>, conditions: Seq<When>) -> Seq<usize> {
    Seq::new(conditions.len(), |i: int| i as usize).filter(
        |i: usize| when_holds(folded(input), conditions[i as int]),
    )
}

/// Normalizes the input and returns the positions of the rules whose
/// condition holds of it, in the order of the rules.
pub fn matching_rules(input_text: &str, conditions: &Vec<When>) -> (r: Vec<usize>)
    ensures
        r@ == holding(input_text@, conditions@),
{
    let text = normalize(input_text);
    let mut out: Vec<usize> = Vec::new();
    let mut i: usize = 0;
    let ghost all = Seq::new(conditions@.len(), |i: int| i as usize);
    let ghost pred = |i: usize| when_holds(folded(input_text@), conditions@[i as int]);
    proof {
        reveal(Seq::filter);
        assert(all.take(0).filter(pred) =~= Seq::empty());
    }
    while i < conditions.len()
        invariant
            i <= conditions.len(),
            text@ == folded(input_text@),
            all == Seq::new(conditions@.len(), |i: int| i as usize),
            pred == |i: usize| when_holds(folded(input_text@), conditions@[i as int]),
            out@ == all.take(i as int).filter(pred),
        decreases conditions.len() - i,
    {
        proof {
            reveal(Seq::filter);
            assert(all.take(i + 1).drop_last() =~= all.take(i as int));
            assert(all.take(i + 1).last() == i);
        }
        if matches_when(text.as_str(), &conditions[i]) {
            out.push(i);
        }
        i += 1;
    }
    assert(all.take(conditions@.len() as int) =~= all);
    out
}

/// What a rule does when its condition holds, as far as it is no
/// arithmetic: the action that it sets and the reason that it adds.
#[derive(Debug, Clone)]
pub struct Then {
    pub set_action: Option<String>,
    pub add_reason: Option<String>,
}

/// A rule: a condition and what follows from it.
#[derive(Debug, Clone)]
pub struct Rule {
    pub name: Option<String>,
    pub when: When,
    pub effect: Then,
}

/// The outcome of a set of rules on a text.
#[derive(Debug, Clone)]
pub struct RuleOutcome {
    /// The action of the last rule that holds and sets one.
    pub action: Option<String>,
    /// The positions of the rules that hold, in order.
    pub matched: Vec<usize>,
    /// The reasons that the rules that hold add, in order.
    pub reasons: Vec<String>,
}

/// The conditions of a list of rules.
pub open spec fn conditions_of(rules: Seq<Rule>) -> Seq<When> {
    rules.map_values(|r: Rule| r.when)
}

/// The action after the first `n` rules: that of the last of them that
/// holds of the normalized input and sets one.
pub open spec fn action_after(input: Seq<char>, rules: Seq<Rule>, n: nat) -> Option<Seq<char>>
    decreases n,
{
    if n == 0 {
        None
    } else if when_holds(folded(input), rules[n - 1].when) && rules[n - 1].effect.set_action is Some {
        Some(rules[n - 1].effect.set_action->0@)
    } else {
        action_after(input, rules, (n - 1) as nat)
    }
}

/// The reasons after the first `n` rules: those that the rules among
/// them add that hold of the normalized input, in order.
pub open spec fn reasons_after(input: Seq<char>, rules: Seq<Rule>, n: nat) -> Seq<Seq<char>>
    decreases n,
{
    if n == 0 {
        Seq::empty()
    } else if when_holds(folded(input), rules[n - 1].when) && rules[n - 1].effect.add_reason is Some {
        reasons_after(input, rules, (n - 1) as nat).push(rules[n - 1].effect.add_reason->0@)
    } else {
        reasons_after(input, rules, (n - 1) as nat)
    }
}

/// Applies the rules to a text. The rules are tried in order on the
/// normalized text; of the actions of those that hold the last one wins,
/// and their reasons are collected.
pub fn apply_rules_to_text(input_text: &str, rules: &Vec<Rule>) -> (r: RuleOutcome)
    ensures
        r.matched@ == holding(input_text@, conditions_of(rules@)),
        match r.action {
            Some(a) => action_after(input_text@, rules@, rules@.len()) == Some(a@),
            None => action_after(input_text@, rules@, rules@.len()) is None,
        },
        crate::text::views(r.reasons@) == reasons_after(input_text@, rules@, rules@.len()),
{
    let text = normalize(input_text);
    let mut action: Option<String> = None;
    let mut matched: Vec<usize> = Vec::new();
    let mut reasons: Vec<String> = Vec::new();
    let ghost conditions = conditions_of(rules@);
    let ghost all = Seq::new(conditions.len(), |i: int| i as usize);
    let ghost pred = |i: usize| when_holds(folded(input_text@), conditions[i as int]);
    let mut i: usize = 0;
    proof {
        reveal(Seq::filter);
        assert(all.take(0).filter(pred) =~= Seq::empty());
        assert(crate::text::views(reasons@) =~= Seq::empty());
    }
    while i < rules.len()
        invariant
            i <= rules.len(),
            text@ == folded(input_text@),
            conditions == conditions_of(rules@),
            all == Seq::new(conditions.len(), |i: int| i as usize),
            pred == |i: usize| when_holds(folded(input_text@), conditions[i as int]),
            matched@ == all.take(i as int).filter(pred),
            match action {
                Some(a) => action_after(input_text@, rules@, i as nat) == Some(a@),
                None => action_after(input_text@, rules@, i as nat) is None,
            },
            crate::text::views(reasons@) == reasons_after(input_text@, rules@, i as nat),
        decreases rules.len() - i,
    {
        proof {
            reveal(Seq::filter);
            assert(all.take(i + 1).drop_last() =~= all.take(i as int));
            assert(all.take(i + 1).last() == i);
            assert(conditions[i as int] == rules@[i as int].when);
        }
        if matches_when(text.as_str(), &rules[i].when) {
            matched.push(i);
            match &rules[i].effect.set_action {
                Some(a) => {
                    action = Some(a.clone());
                },
                None => {},
            }
            match &rules[i].effect.add_reason {
                Some(r) => {
                    let ghost before = crate::text::views(reasons@);
                    reasons.push(r.clone());
                    assert(crate::text::views(reasons@) =~= before.push(r@));
                },
                None => {},
            }
        }
        i += 1;
    }
    assert(all.take(rules@.len() as int) =~= all);
    RuleOutcome { action, matched, reasons }
}

} // verus!
