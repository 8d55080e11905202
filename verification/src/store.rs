//! Typed, append-only, nullable columns.
//!
//! A column grows by exactly one row at a time, a value or a null, and is
//! turned into an immutable array once, at the end. Single- and double-precision
//! columns hold the IEEE-754 bit patterns of their values.

use vstd::prelude::*;

verus! {

/// The seven ways a column can store its values.
#[derive(Clone, Copy, Debug, PartialEq, Eq, Structural)]
pub enum StorageType {
    Bool,
    I8,
    I16,
    I32,
    I64,
    F32,
    F64,
}

impl StorageType {
    /// Width of one stored value in bits.
    pub open spec fn spec_bits(self) -> nat {
        match self {
            StorageType::Bool => 1,
            StorageType::I8 => 8,
            StorageType::I16 => 16,
            StorageType::I32 => 32,
            StorageType::I64 => 64,
            StorageType::F32 => 32,
            StorageType::F64 => 64,
        }
    }

    /// Width of one stored value in bits.
    pub fn bits(self) -> (n: u64)
        ensures
            n == self.spec_bits(),
    {
        match self {
            StorageType::Bool => 1,
            StorageType::I8 => 8,
            StorageType::I16 => 16,
            StorageType::I32 => 32,
            StorageType::I64 => 64,
            StorageType::F32 => 32,
            StorageType::F64 => 64,
        }
    }
}

/// One stored value together with its type.
#[derive(Clone, Copy, Debug, PartialEq, Eq, Structural)]
pub enum Cell {
    Bool(bool),
    I8(i8),
    I16(i16),
    I32(i32),
    I64(i64),
    /// Bit pattern of a single-precision value.
    F32(u32),
    /// Bit pattern of a double-precision value.
    F64(u64),
}

impl Cell {
    /// The storage type this value belongs to.
    pub open spec fn storage(self) -> StorageType {
        match self {
            Cell::Bool(_) => StorageType::Bool,
            Cell::I8(_) => StorageType::I8,
            Cell::I16(_) => StorageType::I16,
            Cell::I32(_) => StorageType::I32,
            Cell::I64(_) => StorageType::I64,
            Cell::F32(_) => StorageType::F32,
            Cell::F64(_) => StorageType::F64,
        }
    }
}

/// A decoded physical value, in each form in which a column may store it.
///
/// The four fields describe the same number: whether it is within tolerance
/// of one, its integer part saturated to 64 bits (zero if it is not a number),
/// and its single- and double-precision bit patterns.
#[derive(Clone, Copy, Debug, PartialEq, Eq, Structural)]
pub struct SignalValue {
    pub is_one: bool,
    pub integer: i64,
    pub single: u32,
    pub double: u64,
}

/// `x` brought into the range from `lo` to `hi`.
pub open spec fn clamp(x: int, lo: int, hi: int) -> int {
    if x < lo {
        lo
    } else if x > hi {
        hi
    } else {
        x
    }
}

impl SignalValue {
    /// The value as an 8-bit integer, saturating at the ends of the range.
    pub open spec fn spec_i8(self) -> i8 {
        clamp(self.integer as int, i8::MIN as int, i8::MAX as int) as i8
    }

    /// The value as a 16-bit integer, saturating at the ends of the range.
    pub open spec fn spec_i16(self) -> i16 {
        clamp(self.integer as int, i16::MIN as int, i16::MAX as int) as i16
    }

    /// The value as a 32-bit integer, saturating at the ends of the range.
    pub open spec fn spec_i32(self) -> i32 {
        clamp(self.integer as int, i32::MIN as int, i32::MAX as int) as i32
    }

    /// The form of this value that a column of type `storage` stores.
    pub open spec fn spec_cell(self, storage: StorageType) -> Cell {
        match storage {
            StorageType::Bool => Cell::Bool(self.is_one),
            StorageType::I8 => Cell::I8(self.spec_i8()),
            StorageType::I16 => Cell::I16(self.spec_i16()),
            StorageType::I32 => Cell::I32(self.spec_i32()),
            StorageType::I64 => Cell::I64(self.integer),
            StorageType::F32 => Cell::F32(self.single),
            StorageType::F64 => Cell::F64(self.double),
        }
    }

    /// The value as an 8-bit integer, saturating at the ends of the range.
    pub fn as_i8(&self) -> (v: i8)
        ensures
            v == self.spec_i8(),
    {
        let n = self.integer;
        if n < -128 {
            -128i8
        } else if n > 127 {
            127i8
        } else {
            n as i8
        }
    }

    /// The value as a 16-bit integer, saturating at the ends of the range.
    pub fn as_i16(&self) -> (v: i16)
        ensures
            v == self.spec_i16(),
    {
        let n = self.integer;
        if n < -32768 {
            -32768i16
        } else if n > 32767 {
            32767i16
        } else {
            n as i16
        }
    }

    /// The value as a 32-bit integer, saturating at the ends of the range.
    pub fn as_i32(&self) -> (v: i32)
        ensures
            v == self.spec_i32(),
    {
        let n = self.integer;
        if n < -2147483648 {
            -2147483648i32
        } else if n > 2147483647 {
            2147483647i32
        } else {
            n as i32
        }
    }

    /// The form of this value that a column of type `storage` stores.
    pub fn cell(&self, storage: StorageType) -> (cell: Cell)
        ensures
            cell == self.spec_cell(storage),
            cell.storage() == storage,
    {
        match storage {
            StorageType::Bool => Cell::Bool(self.is_one),
            StorageType::I8 => Cell::I8(self.as_i8()),
            StorageType::I16 => Cell::I16(self.as_i16()),
            StorageType::I32 => Cell::I32(self.as_i32()),
            StorageType::I64 => Cell::I64(self.integer),
            StorageType::F32 => Cell::F32(self.single),
            StorageType::F64 => Cell::F64(self.double),
        }
    }
}

/// A growing column of values of one type, any of which may be null.
///
/// The values and their validity flags are kept side by side and always have
/// the same length; a null row holds the type's default value as a placeholder.
#[derive(Debug)]
pub struct Column<T: Default> {
    values: Vec<T>,
    valid: Vec<bool>,
}

/// A finished column: the values and, beside them, which rows are valid.
/// Both have the same length, and nothing changes them any more.
#[derive(Debug, PartialEq, Eq)]
pub struct Array<T: Default> {
    values: Vec<T>,
    valid: Vec<bool>,
}

/// Whether every null row of a column holds the default value of its type.
pub open spec fn defaults_under_nulls<T: Default>(values: Seq<T>, valid: Seq<bool>) -> bool {
    forall|i: int|
        0 <= i < values.len() && 0 <= i < valid.len() && !valid[i] ==> call_ensures(
            T::default,
            (),
            #[trigger] values[i],
        )
}

impl<T: Default> View for Array<T> {
    type V = Seq<Option<T>>;

    /// The rows in order, `None` for a null.
    closed spec fn view(&self) -> Seq<Option<T>> {
        Seq::new(
            self.values@.len(),
            |i: int| if self.valid@[i] { Some(self.values@[i]) } else { None },
        )
    }
}

/// Whether `values` and `valid` are the two halves of `rows`: of the same
/// length, with a value wherever a row holds one.
pub open spec fn halves_of<T>(rows: Seq<Option<T>>, values: Seq<T>, valid: Seq<bool>) -> bool {
    &&& values.len() == rows.len()
    &&& valid.len() == rows.len()
    &&& forall|i: int|
        0 <= i < rows.len() ==> #[trigger] rows[i] == if valid[i] {
            Some(values[i])
        } else {
            None
        }
}

impl<T: Default> View for Column<T> {
    type V = Seq<Option<T>>;

    /// The rows in order, `None` for a null.
    closed spec fn view(&self) -> Seq<Option<T>> {
        Seq::new(
            self.values@.len(),
            |i: int| if self.valid@[i] { Some(self.values@[i]) } else { None },
        )
    }
}

impl<T: Default> Column<T> {
    #[verifier::type_invariant]
    spec fn parallel(self) -> bool {
        self.values@.len() == self.valid@.len() && defaults_under_nulls(self.values@, self.valid@)
    }
}

impl<T: Default + Copy> Column<T> {
    /// An empty column.
    pub fn new() -> (column: Self)
        ensures
            column@ == Seq::<Option<T>>::empty(),
    {
        let column = Column { values: Vec::new(), valid: Vec::new() };
        assert(column@ =~= Seq::<Option<T>>::empty());
        column
    }

    /// Appends one row: the value, or a null.
    pub fn push(&mut self, value: Option<T>)
        ensures
            final(self)@ == old(self)@.push(value),
    {
        proof {
            use_type_invariant(&*self);
        }
        let mut taken = Column::new();
        core::mem::swap(self, &mut taken);
        let Column { mut values, mut valid } = taken;
        match value {
            Some(v) => {
                values.push(v);
                valid.push(true);
            },
            None => {
                values.push(T::default());
                valid.push(false);
            },
        }
        *self = Column { values, valid };
        assert(self@ =~= old(self)@.push(value));
    }

    /// The number of rows.
    pub fn len(&self) -> (n: usize)
        ensures
            n == self@.len(),
    {
        self.values.len()
    }

    /// Whether any row is null.
    pub fn has_null(&self) -> (any: bool)
        ensures
            any == exists|j: int| 0 <= j < self@.len() && (#[trigger] self@[j]) is None,
    {
        proof {
            use_type_invariant(self);
        }
        let mut j: usize = 0;
        while j < self.valid.len()
            invariant
                j <= self.valid@.len(),
                self.values@.len() == self.valid@.len(),
                forall|k: int| 0 <= k < j ==> (#[trigger] self@[k]) is Some,
            decreases self.valid@.len() - j,
        {
            if !self.valid[j] {
                assert(self@[j as int] is None);
                return true;
            }
            assert(self@[j as int] is Some);
            j = j + 1;
        }
        false
    }

    /// Ends the column and hands out its rows as an array.
    pub fn finish(self) -> (array: Array<T>)
        ensures
            array@ == self@,
    {
        proof {
            use_type_invariant(&self);
        }
        let Column { values, valid } = self;
        let array = Array { values, valid };
        assert(array@ =~= self@);
        array
    }
}

/// A column of any of the seven storage types.
#[derive(Debug)]
pub enum GenericColumn {
    Bool(Column<bool>),
    F64(Column<u64>),
    F32(Column<u32>),
    I8(Column<i8>),
    I16(Column<i16>),
    I32(Column<i32>),
    I64(Column<i64>),
}

/// A finished column of any of the seven storage types.
#[derive(Debug, PartialEq, Eq)]
pub enum GenericArray {
    Bool(Array<bool>),
    F64(Array<u64>),
    F32(Array<u32>),
    I8(Array<i8>),
    I16(Array<i16>),
    I32(Array<i32>),
    I64(Array<i64>),
}

/// Whether any of `rows` is null.
pub open spec fn has_null(rows: Seq<Option<Cell>>) -> bool {
    exists|j: int| 0 <= j < rows.len() && (#[trigger] rows[j]) is None
}

/// The rows of a typed column as cells.
pub open spec fn bool_cells(rows: Seq<Option<bool>>) -> Seq<Option<Cell>> {
    Seq::new(rows.len(), |i: int| match rows[i] {
        Some(v) => Some(Cell::Bool(v)),
        None => None,
    })
}

pub open spec fn f64_cells(rows: Seq<Option<u64>>) -> Seq<Option<Cell>> {
    Seq::new(rows.len(), |i: int| match rows[i] {
        Some(v) => Some(Cell::F64(v)),
        None => None,
    })
}

pub open spec fn f32_cells(rows: Seq<Option<u32>>) -> Seq<Option<Cell>> {
    Seq::new(rows.len(), |i: int| match rows[i] {
        Some(v) => Some(Cell::F32(v)),
        None => None,
    })
}

pub open spec fn i8_cells(rows: Seq<Option<i8>>) -> Seq<Option<Cell>> {
    Seq::new(rows.len(), |i: int| match rows[i] {
        Some(v) => Some(Cell::I8(v)),
        None => None,
    })
}

pub open spec fn i16_cells(rows: Seq<Option<i16>>) -> Seq<Option<Cell>> {
    Seq::new(rows.len(), |i: int| match rows[i] {
        Some(v) => Some(Cell::I16(v)),
        None => None,
    })
}

pub open spec fn i32_cells(rows: Seq<Option<i32>>) -> Seq<Option<Cell>> {
    Seq::new(rows.len(), |i: int| match rows[i] {
        Some(v) => Some(Cell::I32(v)),
        None => None,
    })
}

pub open spec fn i64_cells(rows: Seq<Option<i64>>) -> Seq<Option<Cell>> {
    Seq::new(rows.len(), |i: int| match rows[i] {
        Some(v) => Some(Cell::I64(v)),
        None => None,
    })
}

impl<T: Default> Array<T> {
    #[verifier::type_invariant]
    spec fn parallel(self) -> bool {
        self.values@.len() == self.valid@.len() && defaults_under_nulls(self.values@, self.valid@)
    }

    /// The number of rows.
    pub fn len(&self) -> (n: usize)
        ensures
            n == self@.len(),
    {
        self.values.len()
    }

    /// The values, row by row. Where a row is null, the default value of
    /// the type stands here as a placeholder.
    pub fn values(&self) -> (values: &Vec<T>)
        ensures
            values@.len() == self@.len(),
            forall|i: int|
                0 <= i < self@.len() ==> match self@[i] {
                    Some(v) => #[trigger] values@[i] == v,
                    None => call_ensures(T::default, (), values@[i]),
                },
    {
        proof {
            use_type_invariant(self);
        }
        &self.values
    }

    /// The validity mask: for every row, whether it holds a value.
    pub fn valid(&self) -> (valid: &Vec<bool>)
        ensures
            valid@.len() == self@.len(),
            forall|i: int| 0 <= i < self@.len() ==> #[trigger] valid@[i] == (self@[i] is Some),
    {
        proof {
            use_type_invariant(self);
        }
        &self.valid
    }

    /// Takes the array apart into its values and its validity mask. Where a
    /// row is null, the default value of the type stands among the values.
    pub fn into_parts(self) -> (parts: (Vec<T>, Vec<bool>))
        ensures
            halves_of(self@, parts.0@, parts.1@),
            defaults_under_nulls(parts.0@, parts.1@),
    {
        proof {
            use_type_invariant(&self);
        }
        (self.values, self.valid)
    }
}

impl GenericArray {
    /// The number of rows.
    pub fn len(&self) -> (n: usize)
        ensures
            n == self.rows().len(),
    {
        match self {
            GenericArray::Bool(a) => a.len(),
            GenericArray::I8(a) => a.len(),
            GenericArray::I16(a) => a.len(),
            GenericArray::I32(a) => a.len(),
            GenericArray::I64(a) => a.len(),
            GenericArray::F32(a) => a.len(),
            GenericArray::F64(a) => a.len(),
        }
    }

    /// The storage type of the array.
    pub open spec fn storage(&self) -> StorageType {
        match self {
            GenericArray::Bool(_) => StorageType::Bool,
            GenericArray::I8(_) => StorageType::I8,
            GenericArray::I16(_) => StorageType::I16,
            GenericArray::I32(_) => StorageType::I32,
            GenericArray::I64(_) => StorageType::I64,
            GenericArray::F32(_) => StorageType::F32,
            GenericArray::F64(_) => StorageType::F64,
        }
    }

    /// The rows in order, `None` for a null.
    pub open spec fn rows(&self) -> Seq<Option<Cell>> {
        match self {
            GenericArray::Bool(a) => bool_cells(a@),
            GenericArray::I8(a) => i8_cells(a@),
            GenericArray::I16(a) => i16_cells(a@),
            GenericArray::I32(a) => i32_cells(a@),
            GenericArray::I64(a) => i64_cells(a@),
            GenericArray::F32(a) => f32_cells(a@),
            GenericArray::F64(a) => f64_cells(a@),
        }
    }
}

impl GenericColumn {
    /// The storage type of the column.
    pub open spec fn storage(&self) -> StorageType {
        match self {
            GenericColumn::Bool(_) => StorageType::Bool,
            GenericColumn::I8(_) => StorageType::I8,
            GenericColumn::I16(_) => StorageType::I16,
            GenericColumn::I32(_) => StorageType::I32,
            GenericColumn::I64(_) => StorageType::I64,
            GenericColumn::F32(_) => StorageType::F32,
            GenericColumn::F64(_) => StorageType::F64,
        }
    }

    /// The rows in order, `None` for a null.
    pub open spec fn rows(&self) -> Seq<Option<Cell>> {
        match self {
            GenericColumn::Bool(c) => bool_cells(c@),
            GenericColumn::I8(c) => i8_cells(c@),
            GenericColumn::I16(c) => i16_cells(c@),
            GenericColumn::I32(c) => i32_cells(c@),
            GenericColumn::I64(c) => i64_cells(c@),
            GenericColumn::F32(c) => f32_cells(c@),
            GenericColumn::F64(c) => f64_cells(c@),
        }
    }

    /// An empty column of the given type.
    pub fn new(storage: StorageType) -> (column: GenericColumn)
        ensures
            column.storage() == storage,
            column.rows() == Seq::<Option<Cell>>::empty(),
    {
        let column = match storage {
            StorageType::Bool => GenericColumn::Bool(Column::new()),
            StorageType::I8 => GenericColumn::I8(Column::new()),
            StorageType::I16 => GenericColumn::I16(Column::new()),
            StorageType::I32 => GenericColumn::I32(Column::new()),
            StorageType::I64 => GenericColumn::I64(Column::new()),
            StorageType::F32 => GenericColumn::F32(Column::new()),
            StorageType::F64 => GenericColumn::F64(Column::new()),
        };
        assert(column.rows() =~= Seq::<Option<Cell>>::empty());
        column
    }

    /// Appends a null row.
    pub fn push_null(&mut self)
        ensures
            final(self).storage() == old(self).storage(),
            final(self).rows() == old(self).rows().push(None),
    {
        match self {
            GenericColumn::Bool(c) => c.push(None),
            GenericColumn::F64(c) => c.push(None),
            GenericColumn::F32(c) => c.push(None),
            GenericColumn::I8(c) => c.push(None),
            GenericColumn::I16(c) => c.push(None),
            GenericColumn::I32(c) => c.push(None),
            GenericColumn::I64(c) => c.push(None),
        }
        assert(self.rows() =~= old(self).rows().push(None));
    }

    /// Appends a row that holds `value`, in the form this column stores.
    pub fn push_value(&mut self, value: &SignalValue)
        ensures
            final(self).storage() == old(self).storage(),
            final(self).rows() == old(self).rows().push(
                Some(value.spec_cell(old(self).storage())),
            ),
    {
        match self {
            GenericColumn::Bool(c) => c.push(Some(value.is_one)),
            GenericColumn::F64(c) => c.push(Some(value.double)),
            GenericColumn::F32(c) => c.push(Some(value.single)),
            GenericColumn::I8(c) => c.push(Some(value.as_i8())),
            GenericColumn::I16(c) => c.push(Some(value.as_i16())),
            GenericColumn::I32(c) => c.push(Some(value.as_i32())),
            GenericColumn::I64(c) => c.push(Some(value.integer)),
        }
        assert(self.rows() =~= old(self).rows().push(Some(value.spec_cell(old(self).storage()))));
    }

    /// The storage type of the column.
    pub fn data_type(&self) -> (storage: StorageType)
        ensures
            storage == self.storage(),
    {
        match self {
            GenericColumn::Bool(_) => StorageType::Bool,
            GenericColumn::I8(_) => StorageType::I8,
            GenericColumn::I16(_) => StorageType::I16,
            GenericColumn::I32(_) => StorageType::I32,
            GenericColumn::I64(_) => StorageType::I64,
            GenericColumn::F32(_) => StorageType::F32,
            GenericColumn::F64(_) => StorageType::F64,
        }
    }

    /// The number of rows.
    pub fn len(&self) -> (n: usize)
        ensures
            n == self.rows().len(),
    {
        match self {
            GenericColumn::Bool(c) => c.len(),
            GenericColumn::I8(c) => c.len(),
            GenericColumn::I16(c) => c.len(),
            GenericColumn::I32(c) => c.len(),
            GenericColumn::I64(c) => c.len(),
            GenericColumn::F32(c) => c.len(),
            GenericColumn::F64(c) => c.len(),
        }
    }

    /// Whether any row is null.
    pub fn has_null(&self) -> (any: bool)
        ensures
            any == has_null(self.rows()),
    {
        let any = match self {
            GenericColumn::Bool(c) => c.has_null(),
            GenericColumn::I8(c) => c.has_null(),
            GenericColumn::I16(c) => c.has_null(),
            GenericColumn::I32(c) => c.has_null(),
            GenericColumn::I64(c) => c.has_null(),
            GenericColumn::F32(c) => c.has_null(),
            GenericColumn::F64(c) => c.has_null(),
        };
        proof {
            let rows = self.rows();
            if any {
                let j = match self {
                    GenericColumn::Bool(c) => choose|j: int| 0 <= j < c@.len() && (#[trigger] c@[j]) is None,
                    GenericColumn::I8(c) => choose|j: int| 0 <= j < c@.len() && (#[trigger] c@[j]) is None,
                    GenericColumn::I16(c) => choose|j: int| 0 <= j < c@.len() && (#[trigger] c@[j]) is None,
                    GenericColumn::I32(c) => choose|j: int| 0 <= j < c@.len() && (#[trigger] c@[j]) is None,
                    GenericColumn::I64(c) => choose|j: int| 0 <= j < c@.len() && (#[trigger] c@[j]) is None,
                    GenericColumn::F32(c) => choose|j: int| 0 <= j < c@.len() && (#[trigger] c@[j]) is None,
                    GenericColumn::F64(c) => choose|j: int| 0 <= j < c@.len() && (#[trigger] c@[j]) is None,
                };
                assert(rows[j] is None);
            } else {
                assert forall|j: int| 0 <= j < rows.len() implies (#[trigger] rows[j]) is Some by {
                    match self {
                        GenericColumn::Bool(c) => assert(c@[j] is Some),
                        GenericColumn::I8(c) => assert(c@[j] is Some),
                        GenericColumn::I16(c) => assert(c@[j] is Some),
                        GenericColumn::I32(c) => assert(c@[j] is Some),
                        GenericColumn::I64(c) => assert(c@[j] is Some),
                        GenericColumn::F32(c) => assert(c@[j] is Some),
                        GenericColumn::F64(c) => assert(c@[j] is Some),
                    }
                }
            }
        }
        any
    }

    /// Ends the column and hands out its rows as an array of the same type.
    /// The column is consumed, so this happens once.
    pub fn finish(self) -> (array: GenericArray)
        ensures
            array.storage() == self.storage(),
            array.rows() == self.rows(),
    {
        match self {
            GenericColumn::Bool(c) => GenericArray::Bool(c.finish()),
            GenericColumn::I8(c) => GenericArray::I8(c.finish()),
            GenericColumn::I16(c) => GenericArray::I16(c.finish()),
            GenericColumn::I32(c) => GenericArray::I32(c.finish()),
            GenericColumn::I64(c) => GenericArray::I64(c.finish()),
            GenericColumn::F32(c) => GenericArray::F32(c.finish()),
            GenericColumn::F64(c) => GenericArray::F64(c.finish()),
        }
    }
}

} // verus!
