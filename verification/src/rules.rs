//! Reusable file-rule evaluation shared by transfer and synchronization.

use vstd::prelude::*;
use crate::domain::EntryKind;
use crate::text::{
    last_index_of, rfind_char, seq_contains_seq, seq_ends_with, seq_starts_with, substring,
    text_contains, text_ends_with, text_equals, text_starts_with,
};

verus! {

/// Rule field.
#[derive(Clone, Copy, Debug, PartialEq, Eq, Structural)]
pub enum RuleField {
    /// File or directory name.
    Name,
    /// Final filename extension without the leading dot.
    Extension,
    /// Backend-relative path.
    Path,
    /// Stable entry-kind category.
    Kind,
}

/// Rule comparison.
#[derive(Clone, Copy, Debug, PartialEq, Eq, Structural)]
pub enum RuleOperator {
    /// Exact case-sensitive equality.
    Is,
    /// Exact case-sensitive inequality.
    IsNot,
    /// Substring containment.
    Contains,
    /// Prefix match.
    StartsWith,
    /// Suffix match.
    EndsWith,
}

/// One predicate.
#[derive(Clone, Debug, PartialEq, Eq)]
pub struct RuleCondition {
    /// Field.
    pub field: RuleField,
    /// Operator.
    pub operator: RuleOperator,
    /// Comparison value.
    pub value: String,
}

/// Condition composition mode.
#[derive(Clone, Copy, Debug, PartialEq, Eq, Structural)]
pub enum RuleMatchMode {
    /// At least one condition must match.
    Any,
    /// Every condition must match.
    All,
}

/// Rule decision.
#[derive(Clone, Copy, Debug, PartialEq, Eq, Structural)]
pub enum RuleDecision {
    /// Keep the entry eligible.
    Include,
    /// Skip the entry.
    Skip,
}

/// Rule evaluation target.
#[derive(Clone, Copy, Debug)]
pub struct RuleTarget<'a> {
    /// Name.
    pub name: &'a str,
    /// Relative path.
    pub path: &'a str,
    /// Kind.
    pub kind: EntryKind,
}

/// Mathematical value of a rule target.
pub struct TargetView {
    /// Name text.
    pub name: Seq<char>,
    /// Relative path text.
    pub path: Seq<char>,
    /// Kind.
    pub kind: EntryKind,
}

impl<'a> View for RuleTarget<'a> {
    type V = TargetView;

    open spec fn view(&self) -> TargetView {
        TargetView { name: self.name@, path: self.path@, kind: self.kind }
    }
}

/// Named reusable rule set.
#[derive(Clone, Debug, PartialEq, Eq)]
pub struct RuleSet {
    /// Name.
    pub name: String,
    /// Enabled state.
    pub enabled: bool,
    /// Any/all composition.
    pub mode: RuleMatchMode,
    /// Conditions.
    pub conditions: Vec<RuleCondition>,
    /// Decision when matched.
    pub decision: RuleDecision,
}

/// Stable lower-case name of an entry kind.
pub open spec fn kind_text(kind: EntryKind) -> Seq<char> {
    match kind {
        EntryKind::File => "file"@,
        EntryKind::Directory => "directory"@,
        EntryKind::Symlink => "symlink"@,
        EntryKind::Other => "other"@,
    }
}

/// Text after the last dot of a name, or nothing when the name has no dot.
pub open spec fn extension_text(name: Seq<char>) -> Seq<char> {
    match last_index_of(name, '.') {
        Some(i) => name.subrange(i + 1, name.len() as int),
        None => seq![],
    }
}

/// The text a condition's field selects from a target.
pub open spec fn field_text(field: RuleField, name: Seq<char>, path: Seq<char>, kind: EntryKind) -> Seq<char> {
    match field {
        RuleField::Name => name,
        RuleField::Path => path,
        RuleField::Kind => kind_text(kind),
        RuleField::Extension => extension_text(name),
    }
}

/// Whether the operator relates the actual text to the value.
pub open spec fn operator_holds(operator: RuleOperator, actual: Seq<char>, value: Seq<char>) -> bool {
    match operator {
        RuleOperator::Is => actual == value,
        RuleOperator::IsNot => actual != value,
        RuleOperator::Contains => seq_contains_seq(actual, value),
        RuleOperator::StartsWith => seq_starts_with(actual, value),
        RuleOperator::EndsWith => seq_ends_with(actual, value),
    }
}

/// Whether one condition holds of a target.
pub open spec fn condition_holds(c: RuleCondition, t: TargetView) -> bool {
    operator_holds(c.operator, field_text(c.field, t.name, t.path, t.kind), c.value@)
}

/// Whether a rule set matches: enabled, non-empty, and any/all conditions hold.
pub open spec fn set_matches(s: RuleSet, t: TargetView) -> bool {
    &&& s.enabled
    &&& s.conditions@.len() > 0
    &&& match s.mode {
        RuleMatchMode::Any => exists|i: int| 0 <= i < s.conditions@.len() && condition_holds(#[trigger] s.conditions@[i], t),
        RuleMatchMode::All => forall|i: int| 0 <= i < s.conditions@.len() ==> condition_holds(#[trigger] s.conditions@[i], t),
    }
}

/// Decision of ordered rule sets: the first match wins, otherwise include.
pub open spec fn evaluation(sets: Seq<RuleSet>, t: TargetView) -> RuleDecision
    decreases sets.len(),
{
    if sets.len() == 0 {
        RuleDecision::Include
    } else if set_matches(sets[0], t) {
        sets[0].decision
    } else {
        evaluation(sets.drop_first(), t)
    }
}

/// Disabled rule sets take no part in a decision: with every set disabled the
/// entry is included, and taking a disabled set out of the list changes no
/// decision.
pub proof fn lemma_disabled_sets_ignored(sets: Seq<RuleSet>, t: TargetView, k: int)
    ensures
        (forall|i: int| 0 <= i < sets.len() ==> !(#[trigger] sets[i]).enabled) ==> evaluation(sets, t)
            == RuleDecision::Include,
        0 <= k < sets.len() && !sets[k].enabled ==> evaluation(sets.remove(k), t) == evaluation(sets, t),
    decreases sets.len(),
{
    if sets.len() > 0 {
        lemma_disabled_sets_ignored(sets.drop_first(), t, k - 1);
        if (forall|i: int| 0 <= i < sets.len() ==> !(#[trigger] sets[i]).enabled) {
            assert forall|i: int| 0 <= i < sets.drop_first().len() implies !(#[trigger] sets.drop_first()[i]).enabled by {
                assert(sets.drop_first()[i] == sets[i + 1]);
            }
            assert(!sets[0].enabled);
        }
        if 0 <= k < sets.len() && !sets[k].enabled {
            if k == 0 {
                assert(sets.remove(0) =~= sets.drop_first());
            } else {
                assert(sets.remove(k).drop_first() =~= sets.drop_first().remove(k - 1));
                assert(sets.remove(k)[0] == sets[0]);
            }
        }
    }
}

/// Stable lower-case name of an entry kind.
pub fn kind_name(kind: EntryKind) -> (r: &'static str)
    ensures
        r@ == kind_text(kind),
{
    match kind {
        EntryKind::File => "file",
        EntryKind::Directory => "directory",
        EntryKind::Symlink => "symlink",
        EntryKind::Other => "other",
    }
}

fn extension_of(name: &str) -> (r: &str)
    ensures
        r@ == extension_text(name@),
{
    proof {
        reveal_strlit("");
    }
    let n = name.unicode_len();
    match rfind_char(name, '.') {
        Some(i) => substring(name, i + 1, n),
        None => "",
    }
}

/// Whether one condition holds of a target.
pub fn condition_matches(condition: &RuleCondition, target: RuleTarget<'_>) -> (r: bool)
    ensures
        r == condition_holds(*condition, target@),
{
    let actual = match condition.field {
        RuleField::Name => target.name,
        RuleField::Path => target.path,
        RuleField::Kind => kind_name(target.kind),
        RuleField::Extension => extension_of(target.name),
    };
    let value = condition.value.as_str();
    match condition.operator {
        RuleOperator::Is => text_equals(actual, value),
        RuleOperator::IsNot => !text_equals(actual, value),
        RuleOperator::Contains => text_contains(actual, value),
        RuleOperator::StartsWith => text_starts_with(actual, value),
        RuleOperator::EndsWith => text_ends_with(actual, value),
    }
}

impl RuleSet {
    /// Tests a target against this set.
    pub fn matches(&self, target: RuleTarget<'_>) -> (r: bool)
        ensures
            r == set_matches(*self, target@),
            !self.enabled ==> !r,
            self.conditions@.len() == 0 ==> !r,
    {
        if !self.enabled || self.conditions.len() == 0 {
            return false;
        }
        let n = self.conditions.len();
        match self.mode {
            RuleMatchMode::Any => {
                let mut i: usize = 0;
                while i < n
                    invariant
                        n == self.conditions@.len(),
                        i <= n,
                        self.enabled,
                        n > 0,
                        self.mode == RuleMatchMode::Any,
                        forall|j: int| 0 <= j < i ==> !condition_holds(#[trigger] self.conditions@[j], target@),
                    decreases n - i,
                {
                    if condition_matches(&self.conditions[i], target) {
                        assert(condition_holds(self.conditions@[i as int], target@));
                        return true;
                    }
                    i = i + 1;
                }
                false
            },
            RuleMatchMode::All => {
                let mut i: usize = 0;
                while i < n
                    invariant
                        n == self.conditions@.len(),
                        i <= n,
                        self.enabled,
                        n > 0,
                        self.mode == RuleMatchMode::All,
                        forall|j: int| 0 <= j < i ==> condition_holds(#[trigger] self.conditions@[j], target@),
                    decreases n - i,
                {
                    if !condition_matches(&self.conditions[i], target) {
                        assert(!condition_holds(self.conditions@[i as int], target@));
                        return false;
                    }
                    i = i + 1;
                }
                true
            },
        }
    }
}

/// Evaluates ordered rule sets. First match wins, otherwise include.
pub fn evaluate(rule_sets: &[RuleSet], target: RuleTarget<'_>) -> (r: RuleDecision)
    ensures
        r == evaluation(rule_sets@, target@),
        (forall|i: int| 0 <= i < rule_sets@.len() ==> !(#[trigger] rule_sets@[i]).enabled) ==> r
            == RuleDecision::Include,
{
    let n = rule_sets.len();
    let mut i: usize = 0;
    assert(rule_sets@.subrange(0, n as int) =~= rule_sets@);
    while i < n
        invariant
            n == rule_sets@.len(),
            i <= n,
            evaluation(rule_sets@, target@) == evaluation(rule_sets@.subrange(i as int, n as int), target@),
        decreases n - i,
    {
        proof {
            let rest = rule_sets@.subrange(i as int, n as int);
            assert(rest.drop_first() =~= rule_sets@.subrange(i + 1, n as int));
            assert(rest[0] == rule_sets@[i as int]);
        }
        if rule_sets[i].matches(target) {
            return rule_sets[i].decision;
        }
        i = i + 1;
    }
    proof {
        assert(rule_sets@.subrange(n as int, n as int).len() == 0);
    }
    RuleDecision::Include
}

} // verus!
