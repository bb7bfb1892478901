use cranelift::cdsl::{SettingGroup, SharedDefinitions, TransformGroups};
use cranelift::isa::{arm32, x86};

fn shared() -> SharedDefinitions {
    let mut groups = TransformGroups { groups: Vec::new() };
    groups.add("narrow", "Narrow.", None, None);
    groups.add("expand_flags", "Expand flags.", None, None);
    SharedDefinitions { settings: SettingGroup::new("shared"), transform_groups: groups }
}

#[test]
fn arm32_definition() {
    let mut defs = shared();
    let settings = arm32::define_settings(&defs.settings);
    assert_eq!(settings.name, "arm32");
    assert!(settings.settings.is_empty());
    let isa = arm32::define(&mut defs);
    assert_eq!(isa.name, "arm32");
    assert_eq!(isa.settings.name, "arm32");
    assert!(isa.cpu_modes.is_empty());
    assert!(isa.instructions.instructions.is_empty());
    assert_eq!(defs.transform_groups.groups.len(), 2);
}

#[test]
fn x86_definition() {
    let mut defs = shared();
    let isa = x86::define(&mut defs, SettingGroup::new("x86"));
    assert_eq!(isa.name, "x86");
    assert_eq!(isa.settings.name, "x86");
    let groups = &defs.transform_groups.groups;
    assert_eq!(groups.len(), 3);
    let g = &groups[2];
    assert_eq!(g.name, "x86_expand");
    assert_eq!(g.id, 2);
    assert_eq!(g.isa_name.as_deref(), Some("x86"));
    assert_eq!(g.chain_with, Some(1));
    assert!(g.doc.contains("Legalize instructions by expansion."));
    assert_eq!(isa.cpu_modes.len(), 1);
    assert_eq!(isa.cpu_modes[0].name, "I64");
    assert_eq!(isa.cpu_modes[0].default_legalize, Some(2));
}

#[test]
fn by_name_finds_the_first_match() {
    let mut groups = TransformGroups { groups: Vec::new() };
    groups.add("a", "", None, None);
    groups.add("b", "", Some("x86"), Some(0));
    groups.add("b", "", None, None);
    assert_eq!(groups.by_name("b").id, 1);
    assert_eq!(groups.by_name("a").id, 0);
}
