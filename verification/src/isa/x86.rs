//! The x86 ISA definition.

use crate::cdsl::{
    first_named, has_named, CpuMode, InstructionGroup, SettingGroup, SharedDefinitions, TargetIsa,
};
use vstd::prelude::*;

verus! {

/// The documentation of the `x86_expand` transform group.
pub open spec fn x86_expand_doc() -> Seq<char> {
    "
    Legalize instructions by expansion.

    Use x86-specific instructions if needed."@
}

/// The x86 ISA, with `settings` as its settings.
///
/// Adds the transform group `x86_expand` (for ISA `x86`, chained with the
/// first group named `expand_flags`, which must exist) to the shared
/// transform groups, and gives the ISA one CPU mode, `I64`, that legalizes
/// by default with the first group named `x86_expand`. The ISA has no
/// instructions of its own.
pub fn define(shared_defs: &mut SharedDefinitions, settings: SettingGroup) -> (isa: TargetIsa)
    requires
        has_named(old(shared_defs).transform_groups.groups@, "expand_flags"@),
        old(shared_defs).transform_groups.groups@.len() < usize::MAX,
    ensures
        ({
            let old_groups = old(shared_defs).transform_groups.groups@;
            let groups = final(shared_defs).transform_groups.groups@;
            let n = old_groups.len();
            &&& final(shared_defs).settings == old(shared_defs).settings
            &&& groups.len() == n + 1
            &&& forall|j: int| 0 <= j < n ==> groups[j] == old_groups[j]
            &&& groups[n as int].name@ == "x86_expand"@
            &&& groups[n as int].doc@ == x86_expand_doc()
            &&& groups[n as int].isa_name matches Some(s) && s@ == "x86"@
            &&& groups[n as int].chain_with == Some(old_groups[first_named(old_groups, "expand_flags"@)].id)
            &&& groups[n as int].id == n
            &&& isa.cpu_modes@.len() == 1
            &&& isa.cpu_modes@[0].name@ == "I64"@
            &&& isa.cpu_modes@[0].default_legalize == Some(groups[first_named(groups, "x86_expand"@)].id)
        }),
        isa.name@ == "x86"@,
        isa.settings == settings,
        isa.instructions.instructions@.len() == 0,
{
    let inst_group = InstructionGroup::empty();
    let mut x86_64 = CpuMode::new("I64");
    let expand_flags = shared_defs.transform_groups.by_name("expand_flags").id;
    let doc = "
    Legalize instructions by expansion.

    Use x86-specific instructions if needed.";
    shared_defs.transform_groups.add("x86_expand", doc, Some("x86"), Some(expand_flags));
    proof {
        let groups = shared_defs.transform_groups.groups@;
        let n = groups.len() - 1;
        assert(groups[n].name@ == "x86_expand"@);
        assert(has_named(groups, "x86_expand"@));
    }
    let x86_expand = shared_defs.transform_groups.by_name("x86_expand");
    x86_64.legalize_default(x86_expand);
    let mut cpu_modes = Vec::new();
    cpu_modes.push(x86_64);
    TargetIsa { name: "x86".to_string(), instructions: inst_group, settings, cpu_modes }
}

} // verus!
