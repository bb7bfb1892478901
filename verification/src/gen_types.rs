//! Generate sources with type info.
//!
//! This generates a `types.rs` file which is included in
//! `cranelift-codegen/ir/types.rs`. The file provides constant definitions for the
//! most commonly used types, including all of the scalar types.
//!
//! This ensures that the metaprogram and the generated program see the same
//! type numbering.

use crate::text::{hex_prefixed, push_hex_prefixed, push_str, push_upper, to_upper};
use crate::types::{
    all_lane_types, lane_position, lane_type_at, log2, type_doc, type_number, value_type_name, LaneType, ValueType,
    NUM_LANE_TYPES,
};
use vstd::prelude::*;

verus! {

/// Generated source text.
pub struct Formatter {
    /// The text so far.
    pub text: String,
}

/// A file to write: its directory, its name and its contents.
pub struct GeneratedFile {
    /// The directory to write the file in.
    pub directory: String,
    /// The name of the file.
    pub filename: String,
    /// The text of the file.
    pub contents: String,
}

/// A documentation comment: each line behind `/// `, or `///` alone for an
/// empty line, ended by a newline.
pub open spec fn doc_comment_text(lines: Seq<Seq<char>>) -> Seq<char>
    decreases lines.len(),
{
    if lines.len() == 0 {
        Seq::empty()
    } else {
        let l = lines.last();
        doc_comment_text(lines.drop_last()) + (if l.len() == 0 {
            "///"@
        } else {
            "/// "@ + l
        }) + "\n"@
    }
}

impl Formatter {
    /// An empty text.
    pub fn new() -> (f: Formatter)
        ensures
            f.text@ == Seq::<char>::empty(),
    {
        Formatter { text: String::new() }
    }

    /// Appends a documentation comment.
    pub fn doc_comment(&mut self, lines: &Vec<String>)
        ensures
            final(self).text@ == old(self).text@ + doc_comment_text(
                lines@.map_values(|l: String| l@),
            ),
    {
        let ghost start = self.text@;
        let ghost all = lines@.map_values(|l: String| l@);
        let mut i: usize = 0;
        while i < lines.len()
            invariant
                i <= lines.len(),
                all == lines@.map_values(|l: String| l@),
                self.text@ == start + doc_comment_text(all.take(i as int)),
            decreases lines.len() - i,
        {
            assert(all.take(i + 1).drop_last() =~= all.take(i as int));
            let line = &lines[i];
            if line.as_str().is_empty() {
                push_str(&mut self.text, "///");
            } else {
                push_str(&mut self.text, "/// ");
                push_str(&mut self.text, line.as_str());
            }
            push_str(&mut self.text, "\n");
            assert(self.text@ =~= start + doc_comment_text(all.take(i + 1)));
            i = i + 1;
        }
        assert(all.take(lines.len() as int) =~= all);
    }
}

/// The text emitted for one type: its documentation, then its constant
/// definition and an empty line.
pub open spec fn emit_text(ty: ValueType) -> Seq<char> {
    doc_comment_text(type_doc(ty)) + "pub const "@ + to_upper(value_type_name(ty)) + ": Type = Type("@
        + hex_prefixed(type_number(ty)) + ");\n"@ + "\n"@
}

/// Emit a constant definition of a single value type.
pub fn emit_type(ty: &ValueType, fmt: &mut Formatter)
    ensures
        final(fmt).text@ == old(fmt).text@ + emit_text(*ty),
{
    let mut name = String::new();
    ty.push_name(&mut name);
    let number = ty.number();
    fmt.doc_comment(&ty.doc());
    push_str(&mut fmt.text, "pub const ");
    push_upper(&mut fmt.text, &name);
    push_str(&mut fmt.text, ": Type = Type(");
    push_hex_prefixed(&mut fmt.text, number);
    push_str(&mut fmt.text, ");\n");
    push_str(&mut fmt.text, "\n");
    assert(final(fmt).text@ =~= old(fmt).text@ + emit_text(*ty));
}

/// The lane counts that types are emitted for, a single lane first.
pub open spec fn lane_counts() -> Seq<u64> {
    seq![1, 2, 4, 8, 16, 32, 64]
}

/// The type with `lanes` lanes of lane type `t`: the lane type itself for
/// one lane, else a vector.
pub open spec fn typ_with_lanes(t: LaneType, lanes: u64) -> ValueType {
    if lanes == 1 {
        ValueType::Lane(t)
    } else {
        ValueType::Vector(t, lanes)
    }
}

/// The types emitted, in order: for each lane count in turn, every lane type.
pub open spec fn emitted_types() -> Seq<ValueType> {
    Seq::new(
        (7 * NUM_LANE_TYPES) as nat,
        |i: int| typ_with_lanes(lane_type_at(i % 13), lane_counts()[i / 13]),
    )
}

/// The number of the `i`-th emitted type: its lane type's position, plus
/// sixteen for each doubling of the lane count.
proof fn lemma_emitted_number(i: int)
    requires
        0 <= i < 7 * NUM_LANE_TYPES,
    ensures
        type_number(emitted_types()[i]) == 0x70 + i % 13 + 16 * (i / 13),
        i % 13 < 13,
{
    let a = i / 13;
    let p = i % 13;
    assert(0 <= a < 7 && 0 <= p < 13) by (nonlinear_arith)
        requires
            0 <= i < 91,
            a == i / 13,
            p == i % 13,
    ;
    assert(log2(1) == 0 && log2(2) == 1 && log2(4) == 2 && log2(8) == 3 && log2(16) == 4 && log2(
        32,
    ) == 5 && log2(64) == 6) by {
        reveal_with_fuel(log2, 8);
    }
    assert(lane_position(lane_type_at(p)) == p);
}

/// Every emitted type has its own number, and all numbers fit in a byte:
/// the generated constants name distinct types.
pub proof fn lemma_emitted_numbers_distinct()
    ensures
        forall|i: int, j: int|
            0 <= i < j < emitted_types().len() ==> type_number(#[trigger] emitted_types()[i])
                != type_number(#[trigger] emitted_types()[j]),
        forall|i: int| 0 <= i < emitted_types().len() ==> type_number(#[trigger] emitted_types()[i]) < 0x100,
{
    assert forall|i: int, j: int| 0 <= i < j < emitted_types().len() implies type_number(
        #[trigger] emitted_types()[i],
    ) != type_number(#[trigger] emitted_types()[j]) by {
        lemma_emitted_number(i);
        lemma_emitted_number(j);
        assert(i % 13 + 16 * (i / 13) != j % 13 + 16 * (j / 13)) by (nonlinear_arith)
            requires
                0 <= i < j,
        ;
    }
    assert forall|i: int| 0 <= i < emitted_types().len() implies type_number(
        #[trigger] emitted_types()[i],
    ) < 0x100 by {
        lemma_emitted_number(i);
        assert(i / 13 <= 6 && i % 13 < 13) by (nonlinear_arith)
            requires
                0 <= i < 91,
        ;
    }
}

/// The text emitted for the types `tys`, in order.
pub open spec fn emit_all_text(tys: Seq<ValueType>) -> Seq<char>
    decreases tys.len(),
{
    if tys.len() == 0 {
        Seq::empty()
    } else {
        emit_all_text(tys.drop_last()) + emit_text(tys.last())
    }
}

/// The text of the types file.
pub open spec fn types_file_text() -> Seq<char> {
    emit_all_text(emitted_types())
}

/// Generate the types file `filename` for `out_dir`.
pub fn generate(filename: &str, out_dir: &str) -> (file: GeneratedFile)
    ensures
        file.directory@ == out_dir@,
        file.filename@ == filename@,
        file.contents@ == types_file_text(),
{
    let mut fmt = Formatter::new();
    let lane_types = all_lane_types();
    let counts: [u64; 7] = [1, 2, 4, 8, 16, 32, 64];
    assert(counts@ =~= lane_counts());
    // Emit scalar and vector definitions.
    let mut li: usize = 0;
    while li < 7
        invariant
            li <= 7,
            counts@ == lane_counts(),
            lane_types@.len() == NUM_LANE_TYPES,
            forall|p: int| 0 <= p < NUM_LANE_TYPES ==> #[trigger] lane_types@[p] == lane_type_at(p),
            fmt.text@ == emit_all_text(emitted_types().take(13 * li)),
        decreases 7 - li,
    {
        let lanes = counts[li];
        let mut p: usize = 0;
        while p < lane_types.len()
            invariant
                li < 7,
                p <= NUM_LANE_TYPES,
                lanes == lane_counts()[li as int],
                lane_types@.len() == NUM_LANE_TYPES,
                forall|q: int| 0 <= q < NUM_LANE_TYPES ==> #[trigger] lane_types@[q] == lane_type_at(q),
                fmt.text@ == emit_all_text(emitted_types().take(13 * li + p)),
            decreases NUM_LANE_TYPES - p,
        {
            let t = lane_types[p];
            let ty = if lanes == 1 {
                ValueType::Lane(t)
            } else {
                ValueType::Vector(t, lanes)
            };
            let ghost k = 13 * li + p;
            assert(emitted_types()[k] == ty) by {
                assert(k % 13 == p as int && k / 13 == li as int) by (nonlinear_arith)
                    requires
                        k == 13 * li + p,
                        p < 13,
                ;
            }
            assert(emitted_types().take(k + 1).drop_last() =~= emitted_types().take(k));
            emit_type(&ty, &mut fmt);
            p = p + 1;
        }
        li = li + 1;
    }
    assert(emitted_types().take(91) =~= emitted_types());
    let mut directory = String::new();
    push_str(&mut directory, out_dir);
    let mut name = String::new();
    push_str(&mut name, filename);
    GeneratedFile { directory, filename: name, contents: fmt.text }
}

} // verus!
