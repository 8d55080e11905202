//! From the signals a bus description declares to the columns of the table.
//!
//! Column 0 is always the time column; one column follows for every signal,
//! in the order of declaration. The order is fixed once the schema is built.

use crate::store::StorageType;
use crate::text::str_eq;
use vstd::prelude::*;
use vstd::string::*;

verus! {

/// What the bus description says of one signal, as far as the choice of a
/// column type depends on it.
///
/// Scale, offset and the declared range are fractional numbers in the bus
/// description. They are given here by the facts that the choice reads:
/// `unit_scale`, `zero_offset` and `whole_scale` say whether the scale is
/// within tolerance of one, the offset within tolerance of zero, and the
/// fractional part of the scale within tolerance of one (the tolerance is the
/// machine epsilon of double precision). `min_floor` is the declared minimum
/// rounded down and `max_ceil` the declared maximum rounded up, each saturated
/// to 64 bits, so that the range lies within two whole numbers exactly when
/// the rounded bounds do. A bound that is not a number is given as the far
/// end of the 64-bit range, the smallest number for the minimum and the
/// largest for the maximum, so that it fits no narrower type. `single_range`
/// says whether both bounds lie within the finite range of single precision.
#[derive(Debug, PartialEq, Eq)]
pub struct SignalDescriptor {
    pub name: String,
    pub bit_length: u16,
    pub unsigned: bool,
    pub unit_scale: bool,
    pub zero_offset: bool,
    pub whole_scale: bool,
    pub min_floor: i64,
    pub max_ceil: i64,
    pub single_range: bool,
}

/// Whether every whole number from `lo` to `hi` can be stored in a signed
/// integer column of type `storage`. False for the other column types.
pub open spec fn covers(storage: StorageType, lo: int, hi: int) -> bool {
    match storage {
        StorageType::I8 => -0x80 <= lo && hi <= 0x7f,
        StorageType::I16 => -0x8000 <= lo && hi <= 0x7fff,
        StorageType::I32 => -0x8000_0000 <= lo && hi <= 0x7fff_ffff,
        StorageType::I64 => -0x8000_0000_0000_0000 <= lo && hi <= 0x7fff_ffff_ffff_ffff,
        _ => false,
    }
}

/// The integer type that is tried first, second, and so on.
pub open spec fn integer_types() -> Seq<StorageType> {
    seq![StorageType::I8, StorageType::I16, StorageType::I32, StorageType::I64]
}

/// The narrowest signed integer type that covers `lo` to `hi`; 64 bits where
/// none of the narrower ones does.
pub open spec fn narrowest_integer(lo: int, hi: int) -> StorageType {
    if covers(StorageType::I8, lo, hi) {
        StorageType::I8
    } else if covers(StorageType::I16, lo, hi) {
        StorageType::I16
    } else if covers(StorageType::I32, lo, hi) {
        StorageType::I32
    } else {
        StorageType::I64
    }
}

impl SignalDescriptor {
    /// A single unsigned bit that is stored as it is read: scale one, offset
    /// zero.
    pub open spec fn is_flag(&self) -> bool {
        self.bit_length == 1 && self.unsigned && self.unit_scale && self.zero_offset
    }

    /// The column type for this signal. In this order: a flag is a boolean; a
    /// signal with a whole scale is an integer of the narrowest width that
    /// covers its declared range; any other is single precision if its range
    /// allows, else double precision.
    pub open spec fn spec_storage(&self) -> StorageType {
        if self.is_flag() {
            StorageType::Bool
        } else if self.whole_scale {
            narrowest_integer(self.min_floor as int, self.max_ceil as int)
        } else if self.single_range {
            StorageType::F32
        } else {
            StorageType::F64
        }
    }
}

/// Chooses the column type for one signal.
pub fn infer_storage(signal: &SignalDescriptor) -> (storage: StorageType)
    ensures
        storage == signal.spec_storage(),
        signal.is_flag() ==> storage == StorageType::Bool,
        !signal.is_flag() && signal.whole_scale ==> {
            &&& covers(storage, signal.min_floor as int, signal.max_ceil as int)
            &&& forall|k: int|
                0 <= k < 4 && integer_types()[k].spec_bits() < storage.spec_bits() ==> !covers(
                    #[trigger] integer_types()[k],
                    signal.min_floor as int,
                    signal.max_ceil as int,
                )
        },
        !signal.is_flag() && !signal.whole_scale ==> storage == if signal.single_range {
            StorageType::F32
        } else {
            StorageType::F64
        },
{
    let lo = signal.min_floor;
    let hi = signal.max_ceil;
    if signal.bit_length == 1 && signal.unsigned && signal.unit_scale && signal.zero_offset {
        StorageType::Bool
    } else if signal.whole_scale {
        if lo >= -128 && hi <= 127 {
            StorageType::I8
        } else if lo >= -32768 && hi <= 32767 {
            StorageType::I16
        } else if lo >= -2147483648 && hi <= 2147483647 {
            StorageType::I32
        } else {
            StorageType::I64
        }
    } else if signal.single_range {
        StorageType::F32
    } else {
        StorageType::F64
    }
}

/// One column of the table: its name, how it is stored, and whether a row of
/// it may be null.
#[derive(Debug, PartialEq, Eq)]
pub struct ColumnDescriptor {
    pub name: String,
    pub storage: StorageType,
    pub nullable: bool,
}

/// A column descriptor as plain data.
pub ghost struct ColumnSpec {
    pub name: Seq<char>,
    pub storage: StorageType,
    pub nullable: bool,
}

impl View for ColumnDescriptor {
    type V = ColumnSpec;

    open spec fn view(&self) -> ColumnSpec {
        ColumnSpec { name: self.name@, storage: self.storage, nullable: self.nullable }
    }
}

/// Name of the time column.
pub open spec fn time_column_name() -> Seq<char> {
    "Time_ms"@
}

/// The time column: elapsed milliseconds in double precision, never null.
pub open spec fn time_column() -> ColumnSpec {
    ColumnSpec { name: time_column_name(), storage: StorageType::F64, nullable: false }
}

/// The column that stands for `signal`.
pub open spec fn signal_column(signal: SignalDescriptor) -> ColumnSpec {
    ColumnSpec { name: signal.name@, storage: signal.spec_storage(), nullable: true }
}

/// The columns that stand for `signals`: the time column, then one for each
/// signal in order.
pub open spec fn schema_of(signals: Seq<SignalDescriptor>) -> Seq<ColumnSpec> {
    seq![time_column()] + Seq::new(signals.len(), |i: int| signal_column(signals[i]))
}

/// Whether `columns` begins with the time column and every other column may
/// hold nulls.
pub open spec fn well_formed(columns: Seq<ColumnSpec>) -> bool {
    &&& columns.len() >= 1
    &&& columns[0] == time_column()
    &&& forall|i: int| 1 <= i < columns.len() ==> (#[trigger] columns[i]).nullable
}

/// Index of the first signal column named `name` from `from` on, if there is
/// one. The time column is no signal column, so a search starts at 1.
pub open spec fn first_named(columns: Seq<ColumnSpec>, name: Seq<char>, from: int) -> Option<int>
    decreases columns.len() - from,
{
    if from >= columns.len() {
        None
    } else if from >= 1 && columns[from].name == name {
        Some(from)
    } else {
        first_named(columns, name, from + 1)
    }
}

/// What `first_named` finds is a signal column of that name, and no signal
/// column before it, from the start of the search on, has the name. Where it
/// finds nothing, no signal column from there on has it.
pub proof fn lemma_first_named(columns: Seq<ColumnSpec>, name: Seq<char>, from: int)
    requires
        from >= 1,
    ensures
        first_named(columns, name, from) matches Some(i) ==> {
            &&& from <= i < columns.len()
            &&& columns[i].name == name
            &&& forall|j: int| from <= j < i ==> (#[trigger] columns[j]).name != name
        },
        first_named(columns, name, from) is None ==> forall|j: int|
            from <= j < columns.len() ==> (#[trigger] columns[j]).name != name,
    decreases columns.len() - from,
{
    if from < columns.len() && columns[from].name != name {
        lemma_first_named(columns, name, from + 1);
    }
}

/// The ordered columns of the table.
#[derive(Debug, PartialEq, Eq)]
pub struct Schema {
    columns: Vec<ColumnDescriptor>,
}

impl View for Schema {
    type V = Seq<ColumnSpec>;

    closed spec fn view(&self) -> Seq<ColumnSpec> {
        Seq::new(self.columns@.len(), |i: int| self.columns@[i]@)
    }
}

impl Schema {
    #[verifier::type_invariant]
    pub closed spec fn shaped(self) -> bool {
        well_formed(self@)
    }

    /// The number of columns, the time column included.
    pub fn len(&self) -> (n: usize)
        ensures
            n == self@.len(),
            well_formed(self@),
    {
        proof {
            use_type_invariant(self);
        }
        self.columns.len()
    }

    /// The descriptor of column `index`.
    pub fn column(&self, index: usize) -> (column: &ColumnDescriptor)
        requires
            index < self@.len(),
        ensures
            column@ == self@[index as int],
    {
        &self.columns[index]
    }

    /// Index of the first signal column named `name`.
    pub fn index_of(&self, name: &str) -> (index: Option<usize>)
        ensures
            index matches Some(i) ==> first_named(self@, name@, 1) == Some(i as int),
            index is None ==> first_named(self@, name@, 1) is None,
    {
        let mut i: usize = 1;
        proof {
            use_type_invariant(self);
        }
        while i < self.columns.len()
            invariant
                1 <= i <= self.columns@.len(),
                self@.len() == self.columns@.len(),
                forall|k: int| 0 <= k < self.columns@.len() ==> self@[k] == self.columns@[k]@,
                first_named(self@, name@, 1) == first_named(self@, name@, i as int),
            decreases self.columns@.len() - i,
        {
            if str_eq(self.columns[i].name.as_str(), name) {
                return Some(i);
            }
            i = i + 1;
        }
        None
    }

    /// Sum of the widths of all columns in bits: the size of one row before
    /// compression. A figure for the operator; nothing depends on it.
    pub fn basis_row_bits(&self) -> (bits: u128)
        ensures
            bits == spec_row_bits(self@, self@.len() as int),
    {
        let mut bits: u128 = 0;
        let mut i: usize = 0;
        while i < self.columns.len()
            invariant
                i <= self.columns@.len(),
                self@.len() == self.columns@.len(),
                forall|k: int| 0 <= k < self.columns@.len() ==> self@[k] == self.columns@[k]@,
                bits == spec_row_bits(self@, i as int),
                bits <= 64 * i,
            decreases self.columns@.len() - i,
        {
            bits = bits + self.columns[i].storage.bits() as u128;
            i = i + 1;
        }
        bits
    }
}

/// Sum of the widths in bits of the first `n` columns.
pub open spec fn spec_row_bits(columns: Seq<ColumnSpec>, n: int) -> nat
    decreases n,
{
    if n <= 0 {
        0
    } else {
        spec_row_bits(columns, n - 1) + columns[n - 1].storage.spec_bits()
    }
}

/// The columns that stand for any signals begin with the time column, and
/// all the others may hold nulls.
pub proof fn lemma_schema_of_well_formed(signals: Seq<SignalDescriptor>)
    ensures
        well_formed(schema_of(signals)),
        schema_of(signals).len() == signals.len() + 1,
{
}

/// Builds the schema for the signals of a bus description, in their order.
pub fn infer_schema(signals: &Vec<SignalDescriptor>) -> (schema: Schema)
    ensures
        schema@ == schema_of(signals@),
{
    let mut columns: Vec<ColumnDescriptor> = Vec::new();
    columns.push(
        ColumnDescriptor {
            name: String::from_str("Time_ms"),
            storage: StorageType::F64,
            nullable: false,
        },
    );
    let mut i: usize = 0;
    while i < signals.len()
        invariant
            i <= signals@.len(),
            columns@.len() == i + 1,
            columns@[0]@ == time_column(),
            forall|k: int|
                1 <= k <= i ==> (#[trigger] columns@[k])@ == signal_column(signals@[k - 1]),
        decreases signals@.len() - i,
    {
        let signal = &signals[i];
        columns.push(
            ColumnDescriptor {
                name: signal.name.clone(),
                storage: infer_storage(signal),
                nullable: true,
            },
        );
        i = i + 1;
    }
    proof {
        let view = Seq::new(columns@.len(), |k: int| columns@[k]@);
        assert forall|k: int| 0 <= k < view.len() implies view[k] == schema_of(signals@)[k] by {
            if k >= 1 {
                assert(columns@[k]@ == signal_column(signals@[k - 1]));
            }
        }
        assert(view =~= schema_of(signals@));
        lemma_schema_of_well_formed(signals@);
    }
    Schema { columns }
}

} // verus!
