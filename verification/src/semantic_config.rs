use vstd::prelude::*;
use vstd::string::*;

use crate::facts::AnalysisError;
use crate::semantic::{axiom_rule_to_hawk, spec_rule_lint};
use crate::text::{concat, same_text};

verus! {

/// A value of the policy's `[semantic]` table: a string, an array, a table
/// of named values, or any other TOML value, kept as its TOML text.
#[derive(Debug)]
pub enum ConfigValue {
    Text(String),
    Array(Vec<ConfigValue>),
    Table(Vec<(String, ConfigValue)>),
    Other(String),
}

/// The position of the first entry named `key`.
pub open spec fn key_index(entries: Seq<(String, ConfigValue)>, key: Seq<char>) -> Option<int>
    decreases entries.len(),
{
    if entries.len() == 0 {
        None
    } else if entries[0].0@ == key {
        Some(0)
    } else {
        match key_index(entries.drop_first(), key) {
            Some(k) => Some(k + 1),
            None => None,
        }
    }
}

proof fn lemma_key_index(entries: Seq<(String, ConfigValue)>, key: Seq<char>)
    ensures
        match key_index(entries, key) {
            Some(k) => 0 <= k < entries.len() && entries[k].0@ == key && forall|m: int|
                0 <= m < k ==> (#[trigger] entries[m]).0@ != key,
            None => forall|m: int| 0 <= m < entries.len() ==> (#[trigger] entries[m]).0@ != key,
        },
    decreases entries.len(),
{
    if entries.len() > 0 {
        lemma_key_index(entries.drop_first(), key);
        assert forall|m: int| 1 <= m < entries.len() implies entries[m] == entries.drop_first()[m
            - 1] by {}
    }
}

fn find_key(entries: &Vec<(String, ConfigValue)>, key: &str) -> (found: Option<usize>)
    ensures
        match found {
            Some(k) => key_index(entries@, key@) == Some(k as int),
            None => key_index(entries@, key@) is None,
        },
{
    proof {
        lemma_key_index(entries@, key@);
    }
    let mut k: usize = 0;
    while k < entries.len()
        invariant
            k <= entries@.len(),
            forall|m: int| 0 <= m < k ==> (#[trigger] entries@[m]).0@ != key@,
        decreases entries@.len() - k,
    {
        if same_text(entries[k].0.as_str(), key) {
            proof {
                lemma_key_index(entries@, key@);
                match key_index(entries@, key@) {
                    Some(j) => {
                        if j > k {
                            assert(entries@[k as int].0@ == key@);
                        }
                    },
                    None => {
                        assert(entries@[k as int].0@ == key@);
                    },
                }
            }
            return Some(k);
        }
        k = k + 1;
    }
    proof {
        lemma_key_index(entries@, key@);
        if let Some(j) = key_index(entries@, key@) {
            assert(entries@[j].0@ == key@);
        }
    }
    None
}

/// The texts of an array of values, when every value is a string.
pub open spec fn texts_of(values: Seq<ConfigValue>) -> Option<Seq<Seq<char>>>
    decreases values.len(),
{
    if values.len() == 0 {
        Some(seq![])
    } else {
        match (texts_of(values.drop_last()), values.last()) {
            (Some(rest), ConfigValue::Text(text)) => Some(rest.push(text@)),
            _ => None,
        }
    }
}

/// Takes the array of strings named `key` out of a table: absent, it is
/// empty; otherwise it has to be an array of strings. The entry leaves the
/// table either way.
pub fn take_string_array(table: &mut Vec<(String, ConfigValue)>, key: &str) -> (result: Result<
    Vec<String>,
    AnalysisError,
>)
    ensures
        match key_index(old(table)@, key@) {
            None => final(table)@ == old(table)@ && (result matches Ok(values)
                && values@.len() == 0),
            Some(k) => final(table)@ == old(table)@.remove(k) && match old(table)@[k].1 {
                ConfigValue::Array(values) => match texts_of(values@) {
                    Some(texts) => (result matches Ok(found) && found@.map_values(
                        |text: String| text@,
                    ) == texts),
                    None => (result matches Err(error) && error.message@ == "semantic."@ + key@
                        + " must contain only strings"@),
                },
                _ => (result matches Err(error) && error.message@ == "semantic."@ + key@
                    + " must be an array of strings"@),
            },
        },
{
    let index = match find_key(table, key) {
        Some(index) => index,
        None => {
            return Ok(Vec::new());
        },
    };
    proof {
        lemma_key_index(table@, key@);
    }
    let ghost entry = table@[index as int];
    let (_, value) = table.remove(index);
    let values = match value {
        ConfigValue::Array(values) => values,
        _ => {
            let mut message = concat("semantic.", key);
            message.append(" must be an array of strings");
            return Err(AnalysisError::new(message));
        },
    };
    let ghost all = values@;
    assert(entry.1 == ConfigValue::Array(values));
    let mut values = values;
    let total = values.len();
    let mut texts: Vec<String> = Vec::new();
    let mut consumed: usize = 0;
    while values.len() > 0
        invariant
            consumed <= all.len(),
            total == all.len(),
            table@ == old(table)@.remove(index as int),
            key_index(old(table)@, key@) == Some(index as int),
            entry == old(table)@[index as int],
            entry.1 matches ConfigValue::Array(original) && original@ == all,
            values@ == all.subrange(consumed as int, all.len() as int),
            texts_of(all.subrange(0, consumed as int)) matches Some(found) && texts@.map_values(
                |text: String| text@,
            ) == found,
        decreases values@.len(),
    {
        let value = values.remove(0);
        proof {
            let prefix = all.subrange(0, consumed + 1);
            assert(prefix.drop_last() =~= all.subrange(0, consumed as int));
            assert(prefix.last() == value);
        }
        match value {
            ConfigValue::Text(text) => {
                texts.push(text);
                proof {
                    let prefix = all.subrange(0, consumed + 1);
                    assert(texts@.map_values(|text: String| text@) =~= texts_of(prefix)->0);
                }
            },
            _ => {
                proof {
                    lemma_texts_of_prefix(all, consumed as int + 1);
                }
                let mut message = concat("semantic.", key);
                message.append(" must contain only strings");
                return Err(AnalysisError::new(message));
            },
        }
        consumed = consumed + 1;
    }
    assert(all.subrange(0, consumed as int) =~= all);
    Ok(texts)
}

/// When a prefix of an array holds a value that is not a string, so does
/// the whole array.
proof fn lemma_texts_of_prefix(values: Seq<ConfigValue>, n: int)
    requires
        0 <= n <= values.len(),
        texts_of(values.subrange(0, n)) is None,
    ensures
        texts_of(values) is None,
    decreases values.len() - n,
{
    if n < values.len() {
        assert(values.subrange(0, n + 1).drop_last() =~= values.subrange(0, n));
        lemma_texts_of_prefix(values, n + 1);
    } else {
        assert(values.subrange(0, n) =~= values);
    }
}

/// Whether `after` is `base` with its entry `lint` set to the text `lint`:
/// replaced where it is, or added at the end.
pub open spec fn with_lint(
    base: Seq<(String, ConfigValue)>,
    after: Seq<(String, ConfigValue)>,
    lint: Seq<char>,
) -> bool {
    match key_index(base, "lint"@) {
        Some(j) => {
            &&& after.len() == base.len()
            &&& forall|k: int| 0 <= k < base.len() && k != j ==> after[k] == base[k]
            &&& after[j].0 == base[j].0
            &&& after[j].1 matches ConfigValue::Text(text) && text@ == lint
        },
        None => {
            &&& after.len() == base.len() + 1
            &&& forall|k: int| 0 <= k < base.len() ==> after[k] == base[k]
            &&& after.last().0@ == "lint"@
            &&& after.last().1 matches ConfigValue::Text(text) && text@ == lint
        },
    }
}

/// Why an override entry cannot be rewritten: a rule that is not a string,
/// or one that names no semantic rule.
pub open spec fn entry_error(before: ConfigValue) -> Option<Seq<char>> {
    match before {
        ConfigValue::Table(entries) => match key_index(entries@, "rule"@) {
            Some(r) => match entries@[r].1 {
                ConfigValue::Text(rule) => match spec_rule_lint(rule@) {
                    Some(_) => None,
                    None => Some(
                        "semantic override references unsupported rule `"@ + rule@ + "`"@,
                    ),
                },
                _ => Some("semantic.override.rule must be a string"@),
            },
            None => None,
        },
        _ => None,
    }
}

/// Whether `after` is the override entry `before` as the analyzer reads it:
/// its `rule` replaced by the `lint` that the rule configures. Entries that
/// are not tables, or have no rule, stay as they are.
pub open spec fn rewritten(before: ConfigValue, after: ConfigValue) -> bool {
    match before {
        ConfigValue::Table(entries) => match key_index(entries@, "rule"@) {
            Some(r) => match entries@[r].1 {
                ConfigValue::Text(rule) => match spec_rule_lint(rule@) {
                    Some(lint) => after matches ConfigValue::Table(new) && with_lint(
                        entries@.remove(r),
                        new@,
                        lint,
                    ),
                    None => after matches ConfigValue::Table(new) && new@ == entries@.remove(r),
                },
                _ => after matches ConfigValue::Table(new) && new@ == entries@.remove(r),
            },
            None => after == before,
        },
        _ => after == before,
    }
}

fn rewrite_entry(item: ConfigValue) -> (result: (ConfigValue, Option<AnalysisError>))
    ensures
        rewritten(item, result.0),
        match entry_error(item) {
            None => result.1 is None,
            Some(message) => result.1 matches Some(error) && error.message@ == message,
        },
{
    proof {
        reveal_strlit("rule");
        reveal_strlit("lint");
    }
    let mut entries = match item {
        ConfigValue::Table(entries) => entries,
        other => {
            return (other, None);
        },
    };
    let ghost original = entries@;
    let rule_index = match find_key(&entries, "rule") {
        Some(index) => index,
        None => {
            return (ConfigValue::Table(entries), None);
        },
    };
    proof {
        lemma_key_index(original, "rule"@);
    }
    let (_, rule) = entries.remove(rule_index);
    let rule = match rule {
        ConfigValue::Text(rule) => rule,
        _ => {
            let message = String::from_str("semantic.override.rule must be a string");
            return (ConfigValue::Table(entries), Some(AnalysisError::new(message)));
        },
    };
    let lint = match axiom_rule_to_hawk(rule.as_str()) {
        Some(lint) => lint,
        None => {
            let mut message = concat("semantic override references unsupported rule `", rule.as_str());
            message.append("`");
            return (ConfigValue::Table(entries), Some(AnalysisError::new(message)));
        },
    };
    let ghost base = entries@;
    proof {
        lemma_key_index(base, "lint"@);
    }
    match find_key(&entries, "lint") {
        Some(index) => {
            let (name, _) = entries.remove(index);
            entries.insert(index, (name, ConfigValue::Text(String::from_str(lint))));
            assert forall|k: int| 0 <= k < base.len() && k != index implies entries@[k]
                == base[k] by {
                if k < index {
                } else {
                }
            }
        },
        None => {
            entries.push((String::from_str("lint"), ConfigValue::Text(String::from_str(lint))));
        },
    }
    (ConfigValue::Table(entries), None)
}

/// The position of the first override entry that cannot be rewritten.
pub open spec fn first_error(items: Seq<ConfigValue>) -> Option<int>
    decreases items.len(),
{
    if items.len() == 0 {
        None
    } else if entry_error(items[0]) is Some {
        Some(0)
    } else {
        match first_error(items.drop_first()) {
            Some(k) => Some(k + 1),
            None => None,
        }
    }
}

proof fn lemma_first_error(items: Seq<ConfigValue>)
    ensures
        match first_error(items) {
            Some(k) => 0 <= k < items.len() && entry_error(items[k]) is Some && forall|m: int|
                0 <= m < k ==> entry_error(#[trigger] items[m]) is None,
            None => forall|m: int| 0 <= m < items.len() ==> entry_error(#[trigger] items[m]) is None,
        },
    decreases items.len(),
{
    if items.len() > 0 {
        lemma_first_error(items.drop_first());
        assert forall|m: int| 1 <= m < items.len() implies items[m] == items.drop_first()[m - 1] by {}
    }
}

/// Rewrites the `override` entries of the `[semantic]` table for the
/// analyzer, which names its lints where the policy names its rules. Each
/// entry's `rule` becomes the matching `lint`; the first entry that cannot
/// be rewritten stops it with an error, after the entries before it were
/// rewritten and its rule taken out, as the table is then discarded.
pub fn normalize_overrides(table: &mut Vec<(String, ConfigValue)>) -> (result: Result<
    (),
    AnalysisError,
>)
    ensures
        match key_index(old(table)@, "override"@) {
            Some(o) => match old(table)@[o].1 {
                ConfigValue::Array(items) => {
                    &&& final(table)@.len() == old(table)@.len()
                    &&& forall|k: int|
                        0 <= k < old(table)@.len() && k != o ==> final(table)@[k] == old(
                            table,
                        )@[k]
                    &&& final(table)@[o].0 == old(table)@[o].0
                    &&& final(table)@[o].1 matches ConfigValue::Array(after) && {
                        &&& after@.len() == items@.len()
                        &&& match first_error(items@) {
                            None => {
                                &&& result is Ok
                                &&& forall|k: int|
                                    0 <= k < items@.len() ==> rewritten(
                                        #[trigger] items@[k],
                                        after@[k],
                                    )
                            },
                            Some(f) => {
                                &&& result matches Err(error) && error.message@ == entry_error(
                                    items@[f],
                                )->0
                                &&& forall|k: int|
                                    0 <= k <= f ==> rewritten(#[trigger] items@[k], after@[k])
                                &&& forall|k: int|
                                    f < k < items@.len() ==> #[trigger] after@[k] == items@[k]
                            },
                        }
                    }
                },
                _ => final(table)@ == old(table)@ && result is Ok,
            },
            None => final(table)@ == old(table)@ && result is Ok,
        },
{
    let index = match find_key(table, "override") {
        Some(index) => index,
        None => {
            return Ok(());
        },
    };
    proof {
        lemma_key_index(table@, "override"@);
    }
    let ghost before = table@;
    let (name, value) = table.remove(index);
    let items = match value {
        ConfigValue::Array(items) => items,
        other => {
            table.insert(index, (name, other));
            assert(table@ =~= before);
            return Ok(());
        },
    };
    let ghost all = items@;
    proof {
        lemma_first_error(all);
    }
    let mut items = items;
    let total = items.len();
    let mut rewritten_items: Vec<ConfigValue> = Vec::new();
    let mut failure: Option<AnalysisError> = None;
    let mut consumed: usize = 0;
    while items.len() > 0
        invariant
            consumed <= all.len(),
            total == all.len(),
            items@ == all.subrange(consumed as int, all.len() as int),
            rewritten_items@.len() == consumed,
            failure is None ==> forall|k: int|
                0 <= k < consumed ==> entry_error(#[trigger] all[k]) is None && rewritten(
                    all[k],
                    rewritten_items@[k],
                ),
            failure is Some ==> match first_error(all) {
                Some(f) => {
                    &&& f < consumed
                    &&& failure matches Some(error) && error.message@ == entry_error(all[f])->0
                    &&& forall|k: int| 0 <= k <= f ==> rewritten(#[trigger] all[k], rewritten_items@[k])
                    &&& forall|k: int| f < k < consumed ==> #[trigger] rewritten_items@[k] == all[k]
                },
                None => false,
            },
            match first_error(all) {
                Some(k) => 0 <= k < all.len() && entry_error(all[k]) is Some && forall|m: int|
                    0 <= m < k ==> entry_error(#[trigger] all[m]) is None,
                None => forall|m: int| 0 <= m < all.len() ==> entry_error(#[trigger] all[m]) is None,
            },
        decreases items@.len(),
    {
        let item = items.remove(0);
        assert(item == all[consumed as int]);
        if failure.is_some() {
            rewritten_items.push(item);
        } else {
            let (after, error) = rewrite_entry(item);
            rewritten_items.push(after);
            match error {
                Some(error) => {
                    failure = Some(error);
                },
                None => {},
            }
        }
        consumed = consumed + 1;
    }
    assert(all.subrange(0, consumed as int) =~= all);
    let ghost after = rewritten_items@;
    table.insert(index, (name, ConfigValue::Array(rewritten_items)));
    proof {
        assert forall|k: int| 0 <= k < before.len() && k != index implies table@[k] == before[k] by {
            if k < index {
            } else {
            }
        }
    }
    match failure {
        Some(error) => Err(error),
        None => Ok(()),
    }
}

} // verus!
