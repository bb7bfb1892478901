# cranelift (verified parts)

A Verus library with pieces of a Cranelift RISC-V backend and its
meta-language generator, each function with a contract that Verus proves.

- `source_loc`: source locations and their bit order (`ComparableSourceLoc`).
- `value_label`: value labels and `build_value_labels_index`, the index of
  label starts by source location, following alias chains.
- `regs`: the RISC-V registers the backend names, the register universe, and
  register printing (`show_rru`, `show_ireg_sized`).
- `types`, `gen_types`, `meta`: the scalar and vector value types, their
  numbers, names and documentation, and the text of the generated `types.rs`
  (the only generated source produced here).
- `tls`: the expansion of `tls_value` instructions on x86-64.
- `cdsl`, `isa`: a description of a target ISA (settings, instructions, CPU
  modes, transform groups) and the ARM32 and x86 definitions.
- `text`: decimal and hexadecimal numbers, upper case.

`app/` writes generated files to disk, checks the target before a TLS
expansion, converts registers to `regalloc`'s types, and holds serializable
copies of the value-location types.
