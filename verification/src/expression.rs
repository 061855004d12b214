//! Columnar blocks, schemas and the few expression shapes that planning inspects.

use crate::exception::ErrorCode;
use crate::exception::ErrorKind;
use crate::exception::Failure;
use crate::exception::failure;
use vstd::prelude::*;

verus! {

/// Position of a field in a schema.
pub type FieldIndex = usize;

/// Identifier that the binder gave a column or a table.
pub type IndexType = usize;

/// The numeric types.
#[derive(Clone, Copy, Debug, PartialEq, Eq, Structural)]
pub enum NumberDataType {
    UInt8,
    UInt16,
    UInt32,
    UInt64,
    Int8,
    Int16,
    Int32,
    Int64,
    Float32,
    Float64,
}

/// The type of a column, nullability aside.
#[derive(Clone, Copy, Debug, PartialEq, Eq, Structural)]
pub enum DataType {
    Null,
    Boolean,
    String,
    Number(NumberDataType),
    Timestamp,
    Date,
}

/// One cell.
#[derive(Clone, Copy, Debug, PartialEq, Eq, Structural)]
pub enum Scalar {
    Null,
    Boolean(bool),
    Number(i64),
}

/// An expression over the columns of a block. Planning looks at few shapes
/// only; any other expression is known to the evaluator under a number.
#[derive(Debug, PartialEq, Eq)]
pub enum Expr {
    Constant { scalar: Scalar, data_type: DataType },
    ColumnRef { id: FieldIndex, data_type: DataType },
    /// Both operands hold.
    AndFilters(Box<Expr>, Box<Expr>),
    /// An expression that planning does not look into.
    Other { handle: u64, data_type: DataType },
}

/// An expression as a plan carries it.
pub type RemoteExpr = Expr;

impl Clone for Expr {
    fn clone(&self) -> (res: Self)
        ensures
            res == *self,
        decreases self,
    {
        match self {
            Expr::Constant { scalar, data_type } => Expr::Constant {
                scalar: *scalar,
                data_type: *data_type,
            },
            Expr::ColumnRef { id, data_type } => Expr::ColumnRef { id: *id, data_type: *data_type },
            Expr::AndFilters(lhs, rhs) => Expr::AndFilters(
                Box::new((**lhs).clone()),
                Box::new((**rhs).clone()),
            ),
            Expr::Other { handle, data_type } => Expr::Other {
                handle: *handle,
                data_type: *data_type,
            },
        }
    }
}

impl Expr {
    /// The type of the values of this expression.
    pub open spec fn spec_data_type(&self) -> DataType {
        match self {
            Expr::Constant { data_type, .. } => *data_type,
            Expr::ColumnRef { data_type, .. } => *data_type,
            Expr::AndFilters(_, _) => DataType::Boolean,
            Expr::Other { data_type, .. } => *data_type,
        }
    }

    #[verifier::when_used_as_spec(spec_data_type)]
    pub fn data_type(&self) -> (t: DataType)
        ensures
            t == self.spec_data_type(),
    {
        match self {
            Expr::Constant { data_type, .. } => *data_type,
            Expr::ColumnRef { data_type, .. } => *data_type,
            Expr::AndFilters(_, _) => DataType::Boolean,
            Expr::Other { data_type, .. } => *data_type,
        }
    }
}

/// Settings that the evaluator of expressions runs under.
#[derive(Clone, Copy, Debug, PartialEq, Eq, Structural)]
pub struct FunctionContext {
    pub rounding_mode: bool,
}

/// A named, typed field. Fields of plan schemas are named by the column
/// identifier that the binder assigned.
#[derive(Clone, Copy, Debug, PartialEq, Eq, Structural)]
pub struct DataField {
    pub name: IndexType,
    pub data_type: DataType,
    pub nullable: bool,
}

impl DataField {
    pub fn is_nullable(&self) -> (b: bool)
        ensures
            b == self.nullable,
    {
        self.nullable
    }
}

/// An ordered list of fields.
#[derive(Debug)]
pub struct DataSchema {
    pub fields: Vec<DataField>,
}

/// First position at or after `from` whose field is named `name`, or the length.
pub open spec fn first_named(fields: Seq<DataField>, name: IndexType, from: int) -> int
    decreases fields.len() - from,
{
    if from < 0 || from >= fields.len() {
        fields.len() as int
    } else if fields[from].name == name {
        from
    } else {
        first_named(fields, name, from + 1)
    }
}

pub proof fn lemma_first_named(fields: Seq<DataField>, name: IndexType, from: int)
    requires
        0 <= from <= fields.len(),
    ensures
        from <= first_named(fields, name, from) <= fields.len(),
        first_named(fields, name, from) < fields.len() ==> fields[first_named(
            fields,
            name,
            from,
        )].name == name,
        forall|k: int| from <= k < first_named(fields, name, from) ==> fields[k].name != name,
    decreases fields.len() - from,
{
    if from < fields.len() && fields[from].name != name {
        lemma_first_named(fields, name, from + 1);
    }
}

/// What a schema fails with when it is asked for a field that it lacks.
pub open spec fn no_field() -> Failure {
    failure(ErrorKind::BadArguments, "Unable to get field by its name"@)
}

impl DataSchema {
    pub fn new(fields: Vec<DataField>) -> (s: Self)
        ensures
            s.fields@ == fields@,
    {
        DataSchema { fields }
    }

    pub fn num_fields(&self) -> (n: usize)
        ensures
            n == self.fields@.len(),
    {
        self.fields.len()
    }

    /// Whether some field is named `name`.
    pub open spec fn has_field(&self, name: IndexType) -> bool {
        first_named(self.fields@, name, 0) < self.fields@.len()
    }

    /// The position of the first field named `name`.
    pub open spec fn spec_index_of(&self, name: IndexType) -> int {
        first_named(self.fields@, name, 0)
    }

    /// The position of the first field named `name`; `BadArguments` when there
    /// is none.
    pub fn index_of(&self, name: IndexType) -> (r: Result<usize, ErrorCode>)
        ensures
            self.has_field(name) ==> (r matches Ok(i) && i == self.spec_index_of(name) && i
                < self.fields@.len() && self.fields@[i as int].name == name),
            !self.has_field(name) ==> (r matches Err(e) && e@ == no_field()),
    {
        let mut i: usize = 0;
        proof {
            lemma_first_named(self.fields@, name, 0);
        }
        while i < self.fields.len()
            invariant
                0 <= i <= self.fields@.len(),
                first_named(self.fields@, name, 0) == first_named(self.fields@, name, i as int),
            decreases self.fields@.len() - i,
        {
            if self.fields[i].name == name {
                return Ok(i);
            }
            i += 1;
        }
        Err(ErrorCode::BadArguments("Unable to get field by its name".to_string()))
    }
}

/// The block of a table that a block of rows was read from.
#[derive(Clone, Copy, Debug, PartialEq, Eq, Structural)]
pub struct BlockMetaIndex {
    pub segment_idx: usize,
    pub block_idx: usize,
}

/// One column of a block: its type and its cells.
#[derive(Debug)]
pub struct BlockEntry {
    pub data_type: DataType,
    pub value: Vec<Scalar>,
}

impl View for BlockEntry {
    type V = (DataType, Seq<Scalar>);

    open spec fn view(&self) -> (DataType, Seq<Scalar>) {
        (self.data_type, self.value@)
    }
}

impl Clone for BlockEntry {
    fn clone(&self) -> (res: Self)
        ensures
            res@ == self@,
    {
        BlockEntry { data_type: self.data_type, value: self.value.clone() }
    }
}

impl BlockEntry {
    pub fn new(data_type: DataType, value: Vec<Scalar>) -> (entry: Self)
        ensures
            entry@ == (data_type, value@),
    {
        BlockEntry { data_type, value }
    }
}

/// What a block of rows holds: its columns, its number of rows and the table
/// block it came from, if that is recorded.
pub struct DataBlockView {
    pub columns: Seq<(DataType, Seq<Scalar>)>,
    pub num_rows: int,
    pub meta: Option<BlockMetaIndex>,
}

/// A block of rows, held column by column.
#[derive(Debug)]
pub struct DataBlock {
    pub columns: Vec<BlockEntry>,
    pub num_rows: usize,
    pub meta: Option<BlockMetaIndex>,
}

impl View for DataBlock {
    type V = DataBlockView;

    open spec fn view(&self) -> DataBlockView {
        DataBlockView {
            columns: self.columns@.map_values(|e: BlockEntry| e@),
            num_rows: self.num_rows as int,
            meta: self.meta,
        }
    }
}

impl DataBlockView {
    /// Every column has one cell per row.
    pub open spec fn wf(&self) -> bool {
        &&& 0 <= self.num_rows
        &&& forall|c: int|
            0 <= c < self.columns.len() ==> (#[trigger] self.columns[c]).1.len() == self.num_rows
    }

    /// The rows `indices` of this block, in that order.
    pub open spec fn take(&self, indices: Seq<u32>) -> DataBlockView {
        DataBlockView {
            columns: Seq::new(
                self.columns.len(),
                |c: int|
                    (
                        self.columns[c].0,
                        Seq::new(indices.len(), |i: int| self.columns[c].1[indices[i] as int]),
                    ),
            ),
            num_rows: indices.len() as int,
            meta: self.meta,
        }
    }
}

impl Clone for DataBlock {
    fn clone(&self) -> (res: Self)
        ensures
            res@ == self@,
    {
        let mut columns: Vec<BlockEntry> = Vec::with_capacity(self.columns.len());
        let mut c: usize = 0;
        while c < self.columns.len()
            invariant
                0 <= c <= self.columns@.len(),
                columns@.len() == c,
                forall|k: int| 0 <= k < c ==> (#[trigger] columns@[k])@ == self.columns@[k]@,
            decreases self.columns@.len() - c,
        {
            columns.push(self.columns[c].clone());
            c += 1;
        }
        let res = DataBlock { columns, num_rows: self.num_rows, meta: self.meta };
        assert(res@.columns =~= self@.columns);
        res
    }
}

impl DataBlock {
    pub open spec fn wf(&self) -> bool {
        self@.wf()
    }

    /// Whether every column has one cell per row.
    pub fn check_wf(&self) -> (b: bool)
        ensures
            b == self.wf(),
    {
        let mut c: usize = 0;
        while c < self.columns.len()
            invariant
                0 <= c <= self.columns@.len(),
                forall|k: int|
                    0 <= k < c ==> (#[trigger] self@.columns[k]).1.len() == self@.num_rows,
            decreases self.columns@.len() - c,
        {
            assert(self@.columns[c as int] == self.columns@[c as int]@);
            if self.columns[c].value.len() != self.num_rows {
                return false;
            }
            c += 1;
        }
        true
    }

    pub fn new(columns: Vec<BlockEntry>, num_rows: usize) -> (block: Self)
        requires
            forall|c: int| 0 <= c < columns@.len()
                ==> (#[trigger] columns@[c]).value@.len() == num_rows,
        ensures
            block.wf(),
            block.columns@ == columns@,
            block.num_rows == num_rows,
            block.meta is None,
    {
        DataBlock { columns, num_rows, meta: None }
    }

    /// A block without columns or rows that only carries `meta`.
    pub fn empty_with_meta(meta: BlockMetaIndex) -> (block: Self)
        ensures
            block.wf(),
            block@ == (DataBlockView { columns: Seq::empty(), num_rows: 0, meta: Some(meta) }),
    {
        let block = DataBlock { columns: Vec::new(), num_rows: 0, meta: Some(meta) };
        assert(block@.columns =~= Seq::empty());
        block
    }

    pub fn num_rows(&self) -> (n: usize)
        ensures
            n == self.num_rows,
    {
        self.num_rows
    }

    pub fn num_columns(&self) -> (n: usize)
        ensures
            n == self.columns@.len(),
    {
        self.columns.len()
    }

    pub fn is_empty(&self) -> (b: bool)
        ensures
            b == (self.num_rows == 0),
    {
        self.num_rows == 0
    }

    pub fn get_meta(&self) -> (meta: Option<BlockMetaIndex>)
        ensures
            meta == self.meta,
    {
        self.meta
    }

    pub fn columns(&self) -> (columns: &Vec<BlockEntry>)
        ensures
            columns == &self.columns,
    {
        &self.columns
    }

    pub fn get_by_offset(&self, offset: usize) -> (entry: &BlockEntry)
        requires
            offset < self.columns@.len(),
        ensures
            *entry == self.columns@[offset as int],
    {
        &self.columns[offset]
    }

    /// This block with `meta` in place of its own.
    pub fn add_meta(self, meta: Option<BlockMetaIndex>) -> (r: Result<Self, ErrorCode>)
        ensures
            r matches Ok(block) && block.columns == self.columns && block.num_rows
                == self.num_rows && block.meta == meta,
    {
        Ok(DataBlock { columns: self.columns, num_rows: self.num_rows, meta })
    }

    /// Appends a column.
    pub fn add_column(&mut self, entry: BlockEntry)
        requires
            old(self).wf(),
            entry.value@.len() == old(self).num_rows,
        ensures
            final(self).wf(),
            final(self).columns@ == old(self).columns@.push(entry),
            final(self).num_rows == old(self).num_rows,
            final(self).meta == old(self).meta,
    {
        self.columns.push(entry);
        assert forall|c: int| 0 <= c < self@.columns.len() implies (#[trigger] self@.columns[c]).1.len() == self@.num_rows by {
            if c < old(self).columns@.len() {
                assert(self@.columns[c] == old(self)@.columns[c]);
            }
        }
    }

    /// This block without its last `num` columns (without any, if it has
    /// fewer).
    pub fn pop_columns(self, num: usize) -> (r: Result<Self, ErrorCode>)
        ensures
            r matches Ok(block) && block.num_rows == self.num_rows && block.meta == self.meta
                && block.columns@ == self.columns@.take(
                if num <= self.columns@.len() {
                    self.columns@.len() - num
                } else {
                    0
                },
            ),
    {
        let mut columns = self.columns;
        let ghost all = columns@;
        let mut k: usize = 0;
        assert(all.take(all.len() as int) =~= all);
        while k < num && columns.len() > 0
            invariant
                0 <= k <= num,
                k <= all.len(),
                columns@ == all.take(all.len() - k),
            decreases columns@.len(),
        {
            columns.pop();
            k += 1;
            assert(columns@ =~= all.take(all.len() - k));
        }
        Ok(DataBlock { columns, num_rows: self.num_rows, meta: self.meta })
    }

    /// The rows `indices` of this block, in that order.
    pub fn take(&self, indices: &Vec<u32>) -> (r: Result<DataBlock, ErrorCode>)
        requires
            self.wf(),
            forall|i: int| 0 <= i < indices@.len() ==> (#[trigger] indices@[i]) < self.num_rows,
        ensures
            r matches Ok(block) && block@ == self@.take(indices@) && block.wf(),
    {
        let mut columns: Vec<BlockEntry> = Vec::with_capacity(self.columns.len());
        let mut c: usize = 0;
        while c < self.columns.len()
            invariant
                self.wf(),
                forall|i: int| 0 <= i < indices@.len() ==> (#[trigger] indices@[i]) < self.num_rows,
                0 <= c <= self.columns@.len(),
                columns@.len() == c,
                forall|k: int|
                    0 <= k < c ==> (#[trigger] columns@[k])@ == self@.take(indices@).columns[k],
            decreases self.columns@.len() - c,
        {
            let source = &self.columns[c];
            assert(self@.columns[c as int] == source@);
            let mut value: Vec<Scalar> = Vec::with_capacity(indices.len());
            let mut i: usize = 0;
            while i < indices.len()
                invariant
                    source.value@.len() == self.num_rows,
                    forall|i: int|
                        0 <= i < indices@.len() ==> (#[trigger] indices@[i]) < self.num_rows,
                    0 <= i <= indices@.len(),
                    value@.len() == i,
                    forall|k: int|
                        0 <= k < i ==> (#[trigger] value@[k]) == source.value@[indices@[k] as int],
                decreases indices@.len() - i,
            {
                value.push(source.value[indices[i] as usize]);
                i += 1;
            }
            let entry = BlockEntry { data_type: source.data_type, value };
            assert(entry@.1 =~= self@.take(indices@).columns[c as int].1);
            columns.push(entry);
            c += 1;
        }
        let block = DataBlock { columns, num_rows: indices.len(), meta: self.meta };
        assert(block@.columns =~= self@.take(indices@).columns);
        Ok(block)
    }
}

} // verus!
