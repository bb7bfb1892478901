//! A description of a target ISA for the meta-language: its settings,
//! instructions, CPU modes and legalization transform groups.

use vstd::prelude::*;

verus! {

/// A named group of settings.
pub struct SettingGroup {
    /// The name of the group.
    pub name: String,
    /// The names of its settings.
    pub settings: Vec<String>,
}

impl SettingGroup {
    /// A group named `name` with no settings (a builder that adds none).
    pub fn new(name: &str) -> (g: SettingGroup)
        ensures
            g.name@ == name@,
            g.settings@.len() == 0,
    {
        SettingGroup { name: name.to_string(), settings: Vec::new() }
    }
}

/// A group of instructions.
pub struct InstructionGroup {
    /// The names of its instructions.
    pub instructions: Vec<String>,
}

impl InstructionGroup {
    /// A group to which no instruction is added.
    pub fn empty() -> (g: InstructionGroup)
        ensures
            g.instructions@.len() == 0,
    {
        InstructionGroup { instructions: Vec::new() }
    }
}

/// A group of legalization transforms.
pub struct TransformGroup {
    /// The name of the group.
    pub name: String,
    /// Its documentation.
    pub doc: String,
    /// The ISA it belongs to, if any.
    pub isa_name: Option<String>,
    /// The group tried when this one has no transform for an instruction.
    pub chain_with: Option<usize>,
    /// Its index among all transform groups.
    pub id: usize,
}

/// All transform groups, each at the position of its index.
pub struct TransformGroups {
    /// The groups.
    pub groups: Vec<TransformGroup>,
}

/// The position of the first group named `name`.
pub open spec fn first_named(groups: Seq<TransformGroup>, name: Seq<char>) -> int {
    choose|i: int|
        0 <= i < groups.len() && groups[i].name@ == name && forall|j: int|
            0 <= j < i ==> groups[j].name@ != name
}

/// Some group is named `name`.
pub open spec fn has_named(groups: Seq<TransformGroup>, name: Seq<char>) -> bool {
    exists|i: int| 0 <= i < groups.len() && groups[i].name@ == name
}

/// Each group's index is its position.
pub open spec fn ids_are_positions(groups: Seq<TransformGroup>) -> bool {
    forall|i: int| 0 <= i < groups.len() ==> (#[trigger] groups[i]).id == i
}

impl TransformGroups {
    /// The first group named `name`.
    pub fn by_name(&self, name: &str) -> (g: &TransformGroup)
        requires
            has_named(self.groups@, name@),
        ensures
            0 <= first_named(self.groups@, name@) < self.groups@.len(),
            *g == self.groups@[first_named(self.groups@, name@)],
            forall|j: int| 0 <= j < first_named(self.groups@, name@) ==> self.groups@[j].name@ != name@,
            g.name@ == name@,
    {
        let target = String::from_str(name);
        let mut i: usize = 0;
        while i < self.groups.len()
            invariant
                i <= self.groups@.len(),
                target@ == name@,
                has_named(self.groups@, name@),
                forall|j: int| 0 <= j < i ==> self.groups@[j].name@ != name@,
            decreases self.groups@.len() - i,
        {
            if self.groups[i].name == target {
                assert(first_named(self.groups@, name@) == i) by {
                    let w = first_named(self.groups@, name@);
                    assert(0 <= w < self.groups@.len() && self.groups@[w].name@ == name@
                        && forall|j: int| 0 <= j < w ==> self.groups@[j].name@ != name@);
                    if w < i {
                    } else if w > i {
                        assert(self.groups@[i as int].name@ == name@);
                    }
                }
                return &self.groups[i];
            }
            i = i + 1;
        }
        assert(false);
        &self.groups[0]
    }

    /// Adds a group at the next index and returns that index.
    pub fn add(
        &mut self,
        name: &str,
        doc: &str,
        isa_name: Option<&str>,
        chain_with: Option<usize>,
    ) -> (id: usize)
        requires
            old(self).groups@.len() < usize::MAX,
        ensures
            id == old(self).groups@.len(),
            final(self).groups@.len() == id + 1,
            forall|j: int| 0 <= j < id ==> final(self).groups@[j] == old(self).groups@[j],
            final(self).groups@[id as int].name@ == name@,
            final(self).groups@[id as int].doc@ == doc@,
            match isa_name {
                Some(n) => final(self).groups@[id as int].isa_name matches Some(s) && s@ == n@,
                None => final(self).groups@[id as int].isa_name is None,
            },
            final(self).groups@[id as int].chain_with == chain_with,
            final(self).groups@[id as int].id == id,
    {
        let id = self.groups.len();
        let isa = match isa_name {
            Some(n) => Some(String::from_str(n)),
            None => None,
        };
        self.groups.push(
            TransformGroup {
                name: String::from_str(name),
                doc: String::from_str(doc),
                isa_name: isa,
                chain_with,
                id,
            },
        );
        id
    }
}

/// A CPU mode of an ISA.
pub struct CpuMode {
    /// The name of the mode.
    pub name: String,
    /// The transform group that legalizes instructions by default.
    pub default_legalize: Option<usize>,
}

impl CpuMode {
    /// A mode named `name` with no default legalization.
    pub fn new(name: &str) -> (m: CpuMode)
        ensures
            m.name@ == name@,
            m.default_legalize is None,
    {
        CpuMode { name: String::from_str(name), default_legalize: None }
    }

    /// Legalizes instructions with `group` by default.
    pub fn legalize_default(&mut self, group: &TransformGroup)
        ensures
            final(self).name == old(self).name,
            final(self).default_legalize == Some(group.id),
    {
        self.default_legalize = Some(group.id);
    }
}

/// A target ISA: its name, instructions, settings and CPU modes.
pub struct TargetIsa {
    /// The name of the ISA.
    pub name: String,
    /// Its own instructions.
    pub instructions: InstructionGroup,
    /// Its settings.
    pub settings: SettingGroup,
    /// Its CPU modes.
    pub cpu_modes: Vec<CpuMode>,
}

/// The definitions that all ISAs share.
pub struct SharedDefinitions {
    /// The shared settings.
    pub settings: SettingGroup,
    /// All transform groups.
    pub transform_groups: TransformGroups,
}

} // verus!
