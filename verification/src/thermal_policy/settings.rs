//! Validation of thermal policy settings.
use super::contract::{ThermalPolicySettings, ThermalRule, ThermalTarget};
use crate::text::{is_blank, joined, owned, text_is_blank};
use vstd::prelude::*;

verus! {

/// The first problem with one rule, as the message that reports it.
pub open spec fn rule_error(rule: ThermalRule) -> Option<Seq<char>> {
    if is_blank(rule.id@) {
        Some("Thermal rule id cannot be empty"@)
    } else if is_blank(rule.name@) {
        Some("Thermal rule name cannot be empty"@)
    } else if rule.low_millicelsius >= rule.high_millicelsius {
        Some("Thermal rule Celsius range is invalid"@)
    } else if rule.min_fan_percent > 100 || rule.max_fan_percent > 100 || rule.min_fan_percent
        > rule.max_fan_percent {
        Some("Thermal rule fan percent range is invalid"@)
    } else if rule.target matches ThermalTarget::SensorKey { key } && is_blank(key@) {
        Some("Thermal rule sensor key cannot be empty"@)
    } else {
        None
    }
}

/// Whether rule `i` reuses the id of an earlier rule.
pub open spec fn repeats_earlier_id(rules: Seq<ThermalRule>, i: int) -> bool {
    exists|j: int| 0 <= j < i && #[trigger] rules[j].id@ == rules[i].id@
}

/// The first problem among the first `n` rules, checked in order.
pub open spec fn rules_error(rules: Seq<ThermalRule>, n: int) -> Option<Seq<char>>
    decreases n,
{
    if n <= 0 {
        None
    } else {
        match rules_error(rules, n - 1) {
            Some(e) => Some(e),
            None => {
                let rule = rules[n - 1];
                if rule_error(rule) is Some {
                    rule_error(rule)
                } else if repeats_earlier_id(rules, n - 1) {
                    Some("duplicate Thermal rule id: "@ + rule.id@)
                } else {
                    None
                }
            },
        }
    }
}

/// The problem that `validate` reports for some settings, if any.
pub open spec fn settings_error(settings: ThermalPolicySettings) -> Option<Seq<char>> {
    rules_error(settings.rules@, settings.rules@.len() as int)
}

/// Rules that `validate` accepts.
pub open spec fn rules_valid(rules: Seq<ThermalRule>) -> bool {
    rules_error(rules, rules.len() as int) is None
}

/// Settings that `validate` accepts.
pub open spec fn valid_settings(settings: ThermalPolicySettings) -> bool {
    rules_valid(settings.rules@)
}

/// A rule whose fields are all acceptable on their own.
pub open spec fn valid_rule(rule: ThermalRule) -> bool {
    rule_error(rule) is None
}

/// Checks one rule on its own.
fn validate_rule(rule: &ThermalRule) -> (r: Result<(), String>)
    ensures
        match r {
            Ok(()) => rule_error(*rule) is None,
            Err(e) => rule_error(*rule) == Some(e@),
        },
{
    if text_is_blank(&rule.id) {
        return Err(owned("Thermal rule id cannot be empty"));
    }
    if text_is_blank(&rule.name) {
        return Err(owned("Thermal rule name cannot be empty"));
    }
    if rule.low_millicelsius >= rule.high_millicelsius {
        return Err(owned("Thermal rule Celsius range is invalid"));
    }
    if rule.min_fan_percent > 100 || rule.max_fan_percent > 100 || rule.min_fan_percent
        > rule.max_fan_percent {
        return Err(owned("Thermal rule fan percent range is invalid"));
    }
    if let ThermalTarget::SensorKey { key } = &rule.target {
        if text_is_blank(key) {
            return Err(owned("Thermal rule sensor key cannot be empty"));
        }
    }
    Ok(())
}

/// Whether some rule before index `end` has the id `id`.
fn has_earlier_id(rules: &Vec<ThermalRule>, end: usize, id: &String) -> (found: bool)
    requires
        end <= rules@.len(),
    ensures
        found == exists|j: int| 0 <= j < end && #[trigger] rules@[j].id@ == id@,
{
    let mut j: usize = 0;
    while j < end
        invariant
            j <= end <= rules@.len(),
            forall|k: int| 0 <= k < j ==> #[trigger] rules@[k].id@ != id@,
        decreases end - j,
    {
        if rules[j].id == *id {
            return true;
        }
        j = j + 1;
    }
    false
}

/// Accepts settings whose rules are each valid and have distinct ids;
/// otherwise reports the first problem in rule order.
pub fn validate(settings: &ThermalPolicySettings) -> (r: Result<(), String>)
    ensures
        match r {
            Ok(()) => valid_settings(*settings),
            Err(e) => settings_error(*settings) == Some(e@),
        },
{
    let rules = &settings.rules;
    let mut i: usize = 0;
    while i < rules.len()
        invariant
            i <= rules@.len(),
            rules == &settings.rules,
            rules_error(rules@, i as int) is None,
        decreases rules.len() - i,
    {
        let rule = &rules[i];
        match validate_rule(rule) {
            Ok(()) => {},
            Err(e) => {
                proof {
                    lemma_rules_error_sticks(rules@, i as int + 1, rules@.len() as int);
                }
                return Err(e);
            },
        }
        if has_earlier_id(rules, i, &rule.id) {
            proof {
                let j = choose|j: int| 0 <= j < i && #[trigger] rules@[j].id@ == rule.id@;
                assert(repeats_earlier_id(rules@, i as int));
                lemma_rules_error_sticks(rules@, i as int + 1, rules@.len() as int);
            }
            return Err(joined("duplicate Thermal rule id: ", rule.id.as_str()));
        }
        i = i + 1;
    }
    Ok(())
}

/// Once a prefix of the rules has a problem, every longer prefix reports the
/// same problem.
proof fn lemma_rules_error_sticks(rules: Seq<ThermalRule>, k: int, n: int)
    requires
        0 <= k <= n,
        rules_error(rules, k) is Some,
    ensures
        rules_error(rules, n) == rules_error(rules, k),
    decreases n - k,
{
    if n > k {
        lemma_rules_error_sticks(rules, k, n - 1);
    }
}

/// Valid settings hold only valid rules, and no two rules share an id.
pub proof fn law_valid_settings_have_valid_rules_and_unique_ids(settings: ThermalPolicySettings)
    requires
        valid_settings(settings),
    ensures
        forall|i: int| 0 <= i < settings.rules@.len() ==> valid_rule(#[trigger] settings.rules@[i]),
        forall|i: int, j: int|
            0 <= i < j < settings.rules@.len() ==> #[trigger] settings.rules@[i].id@
                != #[trigger] settings.rules@[j].id@,
{
    let rules = settings.rules@;
    lemma_rules_error_prefix(rules, rules.len() as int);
    assert forall|i: int, j: int| 0 <= i < j < rules.len() implies #[trigger] rules[i].id@
        != #[trigger] rules[j].id@ by {
        lemma_rules_error_prefix(rules, j + 1);
        assert(!repeats_earlier_id(rules, j));
    }
}

/// No problem in the first `n` rules means no problem in any shorter prefix.
proof fn lemma_rules_error_prefix(rules: Seq<ThermalRule>, n: int)
    requires
        0 <= n <= rules.len(),
        rules_error(rules, rules.len() as int) is None,
    ensures
        rules_error(rules, n) is None,
        forall|i: int| 0 <= i < n ==> valid_rule(#[trigger] rules[i]),
    decreases rules.len() - n,
{
    if n < rules.len() {
        lemma_rules_error_prefix(rules, n + 1);
    }
    if n > 0 {
        lemma_rules_error_prefix_down(rules, n);
    }
}

proof fn lemma_rules_error_prefix_down(rules: Seq<ThermalRule>, n: int)
    requires
        0 < n <= rules.len(),
        rules_error(rules, n) is None,
    ensures
        forall|i: int| 0 <= i < n ==> valid_rule(#[trigger] rules[i]),
    decreases n,
{
    assert(valid_rule(rules[n - 1]));
    if n > 1 {
        lemma_rules_error_prefix_down(rules, n - 1);
    }
}

} // verus!
