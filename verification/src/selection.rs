use vstd::prelude::*;
use vstd::string::*;

use crate::profile::has_prefix;
use crate::text::starts_with;

verus! {

/// A family of checks that the command line can select.
#[derive(Clone, Copy, Debug, PartialEq, Eq, Structural)]
pub enum Family {
    Size,
    Testing,
    DeadCode,
    Visibility,
    Clippy,
    Rustdoc,
}

/// Whether `family` is one of the wrapped tools rather than a native policy.
pub open spec fn is_tool(family: Family) -> bool {
    family == Family::Clippy || family == Family::Rustdoc
}

/// The position of `family` among the selectors.
pub open spec fn family_index(family: Family) -> int {
    match family {
        Family::Size => 0,
        Family::Testing => 1,
        Family::DeadCode => 2,
        Family::Visibility => 3,
        Family::Clippy => 4,
        Family::Rustdoc => 5,
    }
}

impl Family {
    /// How progress reports name a native policy family.
    pub fn policy_name(self) -> (name: &'static str)
        requires
            !is_tool(self),
        ensures
            name@ == match self {
                Family::Size => "size policies"@,
                Family::Testing => "testing policies"@,
                Family::DeadCode => "dead-code policies"@,
                _ => "visibility policies"@,
            },
    {
        match self {
            Family::Size => "size policies",
            Family::Testing => "testing policies",
            Family::DeadCode => "dead-code policies",
            _ => "visibility policies",
        }
    }
}

/// The position of a native policy family among the policy engines.
pub fn policy_index(family: Family) -> (index: usize)
    requires
        !is_tool(family),
    ensures
        index == family_index(family),
        index < 4,
{
    match family {
        Family::Size => 0,
        Family::Testing => 1,
        Family::DeadCode => 2,
        _ => 3,
    }
}

/// The check families named on the command line.
#[derive(Clone, Copy, Debug)]
pub struct Selection {
    pub selected: Option<[bool; 6]>,
}

/// The selection made by the six family flags: none when no flag is set.
pub open spec fn spec_from_flags(flags: [bool; 6]) -> Selection {
    if exists|i: int| 0 <= i < 6 && flags@[i] {
        Selection { selected: Some(flags) }
    } else {
        Selection { selected: None }
    }
}

/// Family selectors isolate and union: without a selector every family
/// runs, and with selectors exactly the selected families run.
pub proof fn lemma_selectors_union(flags: [bool; 6], family: Family)
    ensures
        spec_from_flags(flags).spec_includes(family) == ((forall|i: int|
            0 <= i < 6 ==> !flags@[i]) || flags@[family_index(family)]),
{
    if flags@[family_index(family)] {
        assert(exists|i: int| 0 <= i < 6 && flags@[i]) by {
            assert(0 <= family_index(family) < 6);
        }
    }
}

/// The six family flags name, in order, the size, testing, dead-code,
/// visibility, Clippy and rustdoc families: with exactly the flag at
/// position `i` set, exactly the family at position `i` of that list runs.
pub proof fn lemma_flag_positions(flags: [bool; 6], i: int, family: Family)
    requires
        0 <= i < 6,
        forall|k: int| 0 <= k < 6 ==> flags@[k] == (k == i),
    ensures
        spec_from_flags(flags).spec_includes(family) <==> family == seq![
            Family::Size,
            Family::Testing,
            Family::DeadCode,
            Family::Visibility,
            Family::Clippy,
            Family::Rustdoc,
        ][i],
{
    assert(flags@[i]);
    let table = seq![
        Family::Size,
        Family::Testing,
        Family::DeadCode,
        Family::Visibility,
        Family::Clippy,
        Family::Rustdoc,
    ];
    assert(table[0] == Family::Size);
    assert(table[1] == Family::Testing);
    assert(table[2] == Family::DeadCode);
    assert(table[3] == Family::Visibility);
    assert(table[4] == Family::Clippy);
    assert(table[5] == Family::Rustdoc);
}

/// The family of a native rule, by the prefix of its identifier.
pub open spec fn spec_policy_family(rule_id: Seq<char>) -> Option<Family> {
    if has_prefix(rule_id, "size/"@) {
        Some(Family::Size)
    } else if has_prefix(rule_id, "testing/"@) {
        Some(Family::Testing)
    } else if has_prefix(rule_id, "dead-code/"@) {
        Some(Family::DeadCode)
    } else if has_prefix(rule_id, "visibility/"@) {
        Some(Family::Visibility)
    } else {
        None
    }
}

impl Selection {
    /// Whether `family` runs: every family when nothing was selected,
    /// otherwise exactly the selected ones.
    pub open spec fn spec_includes(self, family: Family) -> bool {
        match self.selected {
            None => true,
            Some(flags) => flags@[family_index(family)],
        }
    }

    /// The selection made by the six family flags, in the order size,
    /// testing, dead code, visibility, Clippy, rustdoc.
    pub fn from_flags(flags: [bool; 6]) -> (selection: Self)
        ensures
            selection == spec_from_flags(flags),
    {
        let any = flags[0] || flags[1] || flags[2] || flags[3] || flags[4] || flags[5];
        proof {
            if exists|i: int| 0 <= i < 6 && flags@[i] {
                let i = choose|i: int| 0 <= i < 6 && flags@[i];
                assert(any);
            }
        }
        Selection { selected: if any { Some(flags) } else { None } }
    }

    /// Whether `family` runs.
    pub fn includes(self, family: Family) -> (result: bool)
        ensures
            result == self.spec_includes(family),
    {
        match self.selected {
            None => true,
            Some(flags) => {
                let index: usize = match family {
                    Family::Size => 0,
                    Family::Testing => 1,
                    Family::DeadCode => 2,
                    Family::Visibility => 3,
                    Family::Clippy => 4,
                    Family::Rustdoc => 5,
                };
                flags[index]
            },
        }
    }

    /// The native policy family of a rule identifier.
    pub fn policy_family(rule_id: &str) -> (family: Option<Family>)
        ensures
            family == spec_policy_family(rule_id@),
    {
        if starts_with(rule_id, "size/") {
            Some(Family::Size)
        } else if starts_with(rule_id, "testing/") {
            Some(Family::Testing)
        } else if starts_with(rule_id, "dead-code/") {
            Some(Family::DeadCode)
        } else if starts_with(rule_id, "visibility/") {
            Some(Family::Visibility)
        } else {
            None
        }
    }
}

} // verus!
