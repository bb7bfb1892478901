//! The ARM32 ISA definition.

use crate::cdsl::{InstructionGroup, SettingGroup, SharedDefinitions, TargetIsa};
use vstd::prelude::*;

verus! {

/// The ARM32 settings: a group named `arm32` with no settings.
pub fn define_settings(_shared: &SettingGroup) -> (g: SettingGroup)
    ensures
        g.name@ == "arm32"@,
        g.settings@.len() == 0,
{
    SettingGroup::new("arm32")
}

/// The ARM32 ISA: named `arm32`, with its settings, no instructions of its
/// own and no CPU modes. The shared definitions are left as they are.
pub fn define(shared_defs: &mut SharedDefinitions) -> (isa: TargetIsa)
    ensures
        isa.name@ == "arm32"@,
        isa.settings.name@ == "arm32"@,
        isa.settings.settings@.len() == 0,
        isa.instructions.instructions@.len() == 0,
        isa.cpu_modes@.len() == 0,
        *final(shared_defs) == *old(shared_defs),
{
    let settings = define_settings(&shared_defs.settings);
    let inst_group = InstructionGroup::empty();
    let cpu_modes = Vec::new();
    TargetIsa { name: "arm32".to_string(), instructions: inst_group, settings, cpu_modes }
}

} // verus!
