//! Feature vectors laid out as boolean columns, one row per content hash.
use vstd::prelude::*;
use crate::hash::{hex_of, ContentHash};
use crate::line_endings::normalized;
use crate::source::{source_text, utf8_decode};
use crate::stats::{no_flags, Stats, N_FLAGS};
use crate::tree::Module;
use crate::visitor::module_flags;

verus! {

/// The values a row holds: the vector's flags, or all false where the object
/// could not be read, decoded or parsed.
pub open spec fn row_flags(row: Option<Stats>) -> Seq<bool> {
    match row {
        Some(s) => s.flag_seq(),
        None => Seq::new(14, |j: int| false),
    }
}

/// A column of the produced schema: its name; every column is boolean and
/// never null.
pub struct Field {
    pub name: String,
    pub nullable: bool,
}

/// The flag columns of a batch: `columns[j][i]` is flag `j` of row `i`.
pub struct StructArray {
    pub columns: Vec<Vec<bool>>,
    pub len: usize,
}

impl StructArray {
    /// Each column holds one value per row.
    pub open spec fn wf(&self) -> bool {
        &&& self.columns@.len() == 14
        &&& forall|j: int| 0 <= j < 14 ==> #[trigger] self.columns@[j]@.len() == self.len
    }

    /// The batch holds exactly the values of `rows`.
    pub open spec fn holds(&self, rows: Seq<Option<Stats>>) -> bool {
        &&& self.wf()
        &&& self.len == rows.len()
        &&& forall|j: int, i: int|
            0 <= j < 14 && 0 <= i < rows.len() ==> #[trigger] self.columns@[j]@[i] == row_flags(
                rows[i],
            )[j]
    }
}

pub open spec fn flag_names() -> Seq<Seq<char>> {
    seq![
        "has_async"@,
        "has_async_comp"@,
        "has_fstring"@,
        "has_modulo_formatting"@,
        "has_annotations"@,
        "has_try_star"@,
        "has_match"@,
        "has_walrus"@,
        "has_matrix_multiply"@,
        "has_dataclasses"@,
        "has_generator_expression"@,
        "has_list_comp"@,
        "has_dict_comp"@,
        "has_set_comp"@,
    ]
}

fn field(name: &str) -> (r: Field)
    ensures
        r.name@ == name@,
        !r.nullable,
{
    Field { name: String::from_str(name), nullable: false }
}

impl Stats {
    /// The flag columns of the produced schema, in column order.
    pub fn arrow_fields() -> (r: Vec<Field>)
        ensures
            r@.len() == 14,
            forall|j: int| 0 <= j < 14 ==> #[trigger] r@[j].name@ == flag_names()[j] && !r@[j].nullable,
    {
        let r = vec![
            field("has_async"),
            field("has_async_comp"),
            field("has_fstring"),
            field("has_modulo_formatting"),
            field("has_annotations"),
            field("has_try_star"),
            field("has_match"),
            field("has_walrus"),
            field("has_matrix_multiply"),
            field("has_dataclasses"),
            field("has_generator_expression"),
            field("has_list_comp"),
            field("has_dict_comp"),
            field("has_set_comp"),
        ];
        r
    }

    /// One empty column per flag, each with room for `capacity` rows.
    pub fn field_builders(capacity: usize) -> (r: Vec<Vec<bool>>)
        ensures
            r@.len() == 14,
            forall|j: int| 0 <= j < 14 ==> (#[trigger] r@[j])@.len() == 0,
    {
        let mut r: Vec<Vec<bool>> = Vec::new();
        let mut j: usize = 0;
        while j < N_FLAGS
            invariant
                j <= 14,
                r@.len() == j,
                forall|k: int| 0 <= k < j ==> (#[trigger] r@[k])@.len() == 0,
            decreases 14 - j,
        {
            r.push(Vec::with_capacity(capacity));
            j += 1;
        }
        r
    }
}

/// Lays the rows out as columns; a `None` row is written as all false.
pub fn to_struct_array(rows: Vec<Option<Stats>>) -> (r: StructArray)
    ensures
        r.holds(rows@),
{
    let mut columns = Stats::field_builders(rows.len());
    let mut i: usize = 0;
    while i < rows.len()
        invariant
            i <= rows.len(),
            columns@.len() == 14,
            forall|j: int| 0 <= j < 14 ==> (#[trigger] columns@[j])@.len() == i,
            forall|j: int, k: int|
                0 <= j < 14 && 0 <= k < i ==> #[trigger] columns@[j]@[k] == row_flags(rows@[k])[j],
        decreases rows.len() - i,
    {
        let values: [bool; 14] = match rows[i] {
            Some(s) => s.into_array(),
            None => [false; 14],
        };
        assert(values@ =~= row_flags(rows@[i as int]));
        let mut j: usize = 0;
        while j < N_FLAGS
            invariant
                i < rows.len(),
                j <= 14,
                values@ == row_flags(rows@[i as int]),
                columns@.len() == 14,
                forall|l: int| 0 <= l < j ==> (#[trigger] columns@[l])@.len() == i + 1,
                forall|l: int| j <= l < 14 ==> (#[trigger] columns@[l])@.len() == i,
                forall|l: int, k: int|
                    0 <= l < 14 && 0 <= k < i ==> #[trigger] columns@[l]@[k] == row_flags(rows@[k])[l],
                forall|l: int| 0 <= l < j ==> #[trigger] columns@[l]@[i as int] == values@[l],
            decreases 14 - j,
        {
            let mut column: Vec<bool> = Vec::new();
            columns.set_and_swap(j, &mut column);
            column.push(values[j]);
            columns.set_and_swap(j, &mut column);
            j += 1;
        }
        i += 1;
    }
    StructArray { columns, len: rows.len() }
}

/// A chunk's output: the hash of each row in hex (null where the entry was
/// not a hash), and the flag columns.
pub struct OutputBatch {
    pub hash: Vec<Option<String>>,
    pub flags: StructArray,
}

/// The hex column of a batch: `None` unless the entry is a 20-byte hash.
pub open spec fn hash_cell(entry: Option<Vec<u8>>, cell: Option<String>) -> bool {
    match entry {
        Some(b) if b@.len() == 20 => cell is Some && cell->Some_0@ == hex_of(b@),
        _ => cell is None,
    }
}

/// Lays out a chunk: its hashes in hex beside the rows computed for them.
pub fn output_batch(hashes: &Vec<Option<Vec<u8>>>, rows: Vec<Option<Stats>>) -> (r: OutputBatch)
    requires
        hashes@.len() == rows@.len(),
    ensures
        r.flags.holds(rows@),
        r.hash@.len() == hashes@.len(),
        forall|i: int| 0 <= i < hashes@.len() ==> hash_cell(hashes@[i], #[trigger] r.hash@[i]),
{
    let mut hash: Vec<Option<String>> = Vec::with_capacity(hashes.len());
    let mut i: usize = 0;
    while i < hashes.len()
        invariant
            i <= hashes@.len(),
            hash@.len() == i,
            forall|k: int| 0 <= k < i ==> hash_cell(hashes@[k], #[trigger] hash@[k]),
        decreases hashes.len() - i,
    {
        let cell = match &hashes[i] {
            Some(bytes) => match ContentHash::from_bytes(bytes.as_slice()) {
                Some(h) => Some(h.to_hex()),
                None => None,
            },
            None => None,
        };
        hash.push(cell);
        i += 1;
    }
    OutputBatch { hash, flags: to_struct_array(rows) }
}

/// Columnar layout of a chunk's results.
pub trait ToStructArray {
    fn to_struct_array(self) -> StructArray;
}

impl ToStructArray for Vec<Option<Stats>> {
    fn to_struct_array(self) -> StructArray {
        to_struct_array(self)
    }
}

/// An object whose bytes fail to decode gets no feature vector (`parse_data`
/// returns `None` for it), and the row of that and the row of a file that
/// parses to an empty module are the same: every flag false.
pub proof fn lemma_null_row_equivalence(data: Seq<u8>, m: Module)
    requires
        utf8_decode(normalized(data)) is None,
        m.body@.len() == 0,
    ensures
        source_text(data) is None,
        row_flags(None) == row_flags(Some(module_flags(m))),
        row_flags(None) == Seq::new(14, |j: int| false),
{
    assert(module_flags(m) == no_flags());
    assert(row_flags(None) =~= row_flags(Some(module_flags(m))));
}

} // verus!
