//! What the processors of a plan node are made from: the column positions,
//! predicates, keys and sort orders that the builder works out of the node and
//! of the schema of its input.

use crate::exception::ErrorCode;
use crate::exception::ErrorKind;
use crate::exception::Failure;
use crate::exception::failure;
use crate::expression::no_field;
use crate::executor::AggregateExpand;
use crate::executor::ColumnBinding;
use crate::executor::SortDesc;
use crate::executor::TableField;
use crate::executor::Window;
use crate::executor::WindowFuncFrameUnits;
use crate::expression::DataField;
use crate::expression::DataSchema;
use crate::expression::DataType;
use crate::expression::Expr;
use crate::expression::IndexType;
use crate::expression::NumberDataType;
use crate::expression::RemoteExpr;
use crate::expression::first_named;
use crate::expression::lemma_first_named;
use crate::pipelines::pipeline::HashMethodKind;
use crate::pipelines::pipeline::SortColumnDescription;
use crate::pipelines::pipeline::WindowFrame;
use vstd::prelude::*;

verus! {

/// The positions in `fields` of the first `n` of `names`, or nothing if one of
/// them names no field.
pub open spec fn offsets_of(fields: Seq<DataField>, names: Seq<IndexType>, n: int) -> Option<
    Seq<usize>,
>
    decreases n,
{
    if n <= 0 {
        Some(Seq::empty())
    } else {
        match offsets_of(fields, names, n - 1) {
            Some(found) => if first_named(fields, names[n - 1], 0) < fields.len() {
                Some(found.push(first_named(fields, names[n - 1], 0) as usize))
            } else {
                None
            },
            None => None,
        }
    }
}

pub proof fn lemma_offsets_of(fields: Seq<DataField>, names: Seq<IndexType>, n: int)
    requires
        0 <= n <= names.len(),
        fields.len() <= usize::MAX,
    ensures
        offsets_of(fields, names, n) matches Some(found) ==> found.len() == n && forall|k: int|
            0 <= k < n ==> (#[trigger] found[k]) == first_named(fields, names[k], 0) && found[k]
                < fields.len(),
    decreases n,
{
    if n > 0 {
        lemma_offsets_of(fields, names, n - 1);
        lemma_first_named(fields, names[n - 1], 0);
    }
}

/// The position in `schema` of each of `names`; `BadArguments` if one of
/// them names no field.
pub fn lookup_all(schema: &DataSchema, names: &Vec<IndexType>) -> (r: Result<Vec<usize>, ErrorCode>)
    ensures
        (match offsets_of(schema.fields@, names@, names@.len() as int) {
            Some(found) => r matches Ok(v) && v@ == found,
            None => r matches Err(e) && e@ == no_field(),
        }),
{
    let mut found: Vec<usize> = Vec::with_capacity(names.len());
    let mut k: usize = 0;
    while k < names.len()
        invariant
            0 <= k <= names@.len(),
            offsets_of(schema.fields@, names@, k as int) == Some(found@),
        decreases names@.len() - k,
    {
        match schema.index_of(names[k]) {
            Ok(i) => {
                found.push(i);
            },
            Err(e) => {
                proof {
                    let rest = names@.len() - k - 1;
                    lemma_offsets_of_fails(schema.fields@, names@, k as int + 1,
                        names@.len() as int);
                }
                return Err(e);
            },
        }
        k += 1;
    }
    Ok(found)
}

/// Once a name is missing, no longer list of names is found.
pub proof fn lemma_offsets_of_fails(fields: Seq<DataField>, names: Seq<IndexType>, n: int, m: int)
    requires
        0 <= n <= m,
        offsets_of(fields, names, n) is None,
    ensures
        offsets_of(fields, names, m) is None,
    decreases m - n,
{
    if n < m {
        lemma_offsets_of_fails(fields, names, n, m - 1);
    }
}

/// The position of the first field of `fields` at or after `from` that is
/// named `name`, or the length.
pub open spec fn first_field(fields: Seq<TableField>, name: Seq<char>, from: int) -> int
    decreases fields.len() - from,
{
    if from < 0 || from >= fields.len() {
        fields.len() as int
    } else if fields[from].name@ == name {
        from
    } else {
        first_field(fields, name, from + 1)
    }
}

/// For the first `n` columns of a scan, where each stands in the table, or
/// nothing if the table lacks one of them.
pub open spec fn scan_projection(
    fields: Seq<TableField>,
    name_mapping: Seq<(String, IndexType)>,
    n: int,
) -> Option<Seq<usize>>
    decreases n,
{
    if n <= 0 {
        Some(Seq::empty())
    } else {
        match scan_projection(fields, name_mapping, n - 1) {
            Some(found) => if first_field(fields, name_mapping[n - 1].0@, 0) < fields.len() {
                Some(found.push(first_field(fields, name_mapping[n - 1].0@, 0) as usize))
            } else {
                None
            },
            None => None,
        }
    }
}

pub proof fn lemma_scan_projection_fails(
    fields: Seq<TableField>,
    name_mapping: Seq<(String, IndexType)>,
    n: int,
    m: int,
)
    requires
        0 <= n <= m,
        scan_projection(fields, name_mapping, n) is None,
    ensures
        scan_projection(fields, name_mapping, m) is None,
    decreases m - n,
{
    if n < m {
        lemma_scan_projection_fails(fields, name_mapping, n, m - 1);
    }
}

/// Where each column of a scan stands in the table; `BadArguments` if the
/// table lacks one of them.
pub fn build_scan_projection(fields: &Vec<TableField>, name_mapping: &Vec<(String,
    IndexType)>) -> (r:
    Result<Vec<usize>, ErrorCode>)
    ensures
        (match scan_projection(fields@, name_mapping@, name_mapping@.len() as int) {
            Some(found) => r matches Ok(v) && v@ == found,
            None => r matches Err(e) && e@ == no_field(),
        }),
{
    let mut found: Vec<usize> = Vec::with_capacity(name_mapping.len());
    let mut k: usize = 0;
    while k < name_mapping.len()
        invariant
            0 <= k <= name_mapping@.len(),
            scan_projection(fields@, name_mapping@, k as int) == Some(found@),
        decreases name_mapping@.len() - k,
    {
        let name = &name_mapping[k].0;
        let mut i: usize = 0;
        while i < fields.len() && !(fields[i].name == *name)
            invariant
                0 <= i <= fields@.len(),
                first_field(fields@, name@, 0) == first_field(fields@, name@, i as int),
            decreases fields@.len() - i,
        {
            i += 1;
        }
        if i == fields.len() {
            proof {
                lemma_scan_projection_fails(
                    fields@,
                    name_mapping@,
                    k as int + 1,
                    name_mapping@.len() as int,
                );
            }
            return Err(ErrorCode::BadArguments("Unable to get field by its name".to_string()));
        }
        found.push(i);
        k += 1;
    }
    Ok(found)
}

/// `projection` names the first `n` columns in their order.
pub open spec fn is_sequential(projection: Seq<usize>, n: int) -> bool {
    projection.len() == n && forall|i: int| 0 <= i < n ==> #[trigger] projection[i] == i
}

pub fn check_sequential(projection: &Vec<usize>, n: usize) -> (b: bool)
    ensures
        b == is_sequential(projection@, n as int),
{
    if projection.len() != n {
        return false;
    }
    let mut i: usize = 0;
    while i < n
        invariant
            0 <= i <= n,
            projection@.len() == n,
            forall|k: int| 0 <= k < i ==> #[trigger] projection@[k] == k,
        decreases n - i,
    {
        if projection[i] != i {
            return false;
        }
        i += 1;
    }
    true
}

/// The first `n` of `predicates`, `n` at least 1, joined with "and" from the
/// left.
pub open spec fn and_filters(predicates: Seq<RemoteExpr>, n: int) -> Expr
    decreases n,
{
    if n <= 1 {
        predicates[0]
    } else {
        Expr::AndFilters(Box::new(and_filters(predicates, n - 1)), Box::new(predicates[n - 1]))
    }
}

/// What a filter without a predicate fails with.
pub open spec fn empty_predicates() -> Failure {
    failure(ErrorKind::Internal, "Invalid empty predicate list"@)
}

/// All of `predicates` joined with "and" from the left; `Internal` when
/// there is none.
pub fn reduce_and_filters(predicates: &Vec<RemoteExpr>) -> (r: Result<Expr, ErrorCode>)
    ensures
        predicates@.len() == 0 ==> (r matches Err(e) && e@ == empty_predicates()),
        predicates@.len() > 0 ==> r == Ok::<Expr, ErrorCode>(
            and_filters(predicates@, predicates@.len() as int),
        ),
{
    if predicates.len() == 0 {
        return Err(ErrorCode::Internal("Invalid empty predicate list".to_string()));
    }
    let mut folded: Expr = predicates[0].clone();
    let mut k: usize = 1;
    while k < predicates.len()
        invariant
            1 <= k <= predicates@.len(),
            folded == and_filters(predicates@, k as int),
        decreases predicates@.len() - k,
    {
        folded = Expr::AndFilters(Box::new(folded), Box::new(predicates[k].clone()));
        k += 1;
    }
    Ok(folded)
}

/// Whether the expression of an `EvalScalar` only names again a column that
/// the input has under the same name.
pub open spec fn is_plain_column(item: (RemoteExpr, IndexType), fields: Seq<DataField>) -> bool {
    item.0 matches Expr::ColumnRef { id, .. } && 0 <= id < fields.len() && fields[id as int].name
        == item.1
}

/// Of the first `n` expressions, those that compute something.
pub open spec fn computed_exprs(
    exprs: Seq<(RemoteExpr, IndexType)>,
    fields: Seq<DataField>,
    n: int,
) -> Seq<Expr>
    decreases n,
{
    if n <= 0 {
        Seq::empty()
    } else if is_plain_column(exprs[n - 1], fields) {
        computed_exprs(exprs, fields, n - 1)
    } else {
        computed_exprs(exprs, fields, n - 1).push(exprs[n - 1].0)
    }
}

/// Every column that an expression of `exprs` names by itself is there.
pub open spec fn columns_in_range(exprs: Seq<(RemoteExpr, IndexType)>, fields: int) -> bool {
    forall|k: int|
        0 <= k < exprs.len() ==> ((#[trigger] exprs[k]).0 matches Expr::ColumnRef { id, .. } ==> id
            < fields)
}

/// The expressions that compute something.
pub fn build_computed_exprs(exprs: &Vec<(RemoteExpr, IndexType)>, input_schema: &DataSchema) -> (r:
    Vec<Expr>)
    requires
        columns_in_range(exprs@, input_schema.fields@.len() as int),
    ensures
        r@ == computed_exprs(exprs@, input_schema.fields@, exprs@.len() as int),
{
    let mut kept: Vec<Expr> = Vec::new();
    let mut k: usize = 0;
    while k < exprs.len()
        invariant
            0 <= k <= exprs@.len(),
            columns_in_range(exprs@, input_schema.fields@.len() as int),
            kept@ == computed_exprs(exprs@, input_schema.fields@, k as int),
        decreases exprs@.len() - k,
    {
        let plain = match &exprs[k].0 {
            Expr::ColumnRef { id, .. } => input_schema.fields[*id].name == exprs[k].1,
            _ => false,
        };
        if !plain {
            kept.push(exprs[k].0.clone());
        }
        k += 1;
    }
    kept
}

/// The expressions of `exprs`, without the identifiers.
pub open spec fn exprs_of(exprs: Seq<(RemoteExpr, IndexType)>) -> Seq<Expr> {
    Seq::new(exprs.len(), |k: int| exprs[k].0)
}

pub fn build_exprs(exprs: &Vec<(RemoteExpr, IndexType)>) -> (r: Vec<Expr>)
    ensures
        r@ == exprs_of(exprs@),
{
    let mut all: Vec<Expr> = Vec::with_capacity(exprs.len());
    let mut k: usize = 0;
    while k < exprs.len()
        invariant
            0 <= k <= exprs@.len(),
            all@.len() == k,
            forall|i: int| 0 <= i < k ==> #[trigger] all@[i] == exprs@[i].0,
        decreases exprs@.len() - k,
    {
        all.push(exprs[k].0.clone());
        k += 1;
    }
    assert(all@ =~= exprs_of(exprs@));
    all
}

/// The identifiers that a list of sort keys names.
pub open spec fn sort_keys(order_by: Seq<SortDesc>) -> Seq<IndexType> {
    Seq::new(order_by.len(), |k: int| order_by[k].order_by)
}

/// How to sort by `order_by`, given where each key stands in `fields`.
pub open spec fn sort_description(
    fields: Seq<DataField>,
    order_by: Seq<SortDesc>,
    offsets: Seq<usize>,
) -> Seq<SortColumnDescription> {
    Seq::new(
        order_by.len(),
        |k: int|
            SortColumnDescription {
                offset: offsets[k],
                asc: order_by[k].asc,
                nulls_first: order_by[k].nulls_first,
                is_nullable: fields[offsets[k] as int].nullable,
            },
    )
}

/// How to sort by `order_by`; `BadArguments` if the schema lacks a key.
pub fn build_sort_description(input_schema: &DataSchema, order_by: &Vec<SortDesc>) -> (r: Result<
    Vec<SortColumnDescription>,
    ErrorCode,
>)
    ensures
        (match offsets_of(input_schema.fields@, sort_keys(order_by@), order_by@.len() as int) {
            Some(offsets) => r matches Ok(v) && v@ == sort_description(
                input_schema.fields@,
                order_by@,
                offsets,
            ),
            None => r matches Err(e) && e@ == no_field(),
        }),
{
    let mut keys: Vec<IndexType> = Vec::with_capacity(order_by.len());
    let mut k: usize = 0;
    while k < order_by.len()
        invariant
            0 <= k <= order_by@.len(),
            keys@.len() == k,
            forall|i: int| 0 <= i < k ==> #[trigger] keys@[i] == order_by@[i].order_by,
        decreases order_by@.len() - k,
    {
        keys.push(order_by[k].order_by);
        k += 1;
    }
    assert(keys@ =~= sort_keys(order_by@));
    let offsets = lookup_all(input_schema, &keys)?;
    let fields: usize = input_schema.num_fields();
    proof {
        lemma_offsets_of(input_schema.fields@, keys@, keys@.len() as int);
    }
    let mut sort_desc: Vec<SortColumnDescription> = Vec::with_capacity(order_by.len());
    let mut k: usize = 0;
    while k < order_by.len()
        invariant
            0 <= k <= order_by@.len(),
            offsets@.len() == order_by@.len(),
            forall|i: int| 0 <= i < offsets@.len()
                ==> (#[trigger] offsets@[i]) < input_schema.fields@.len(),
            sort_desc@.len() == k,
            forall|i: int|
                0 <= i < k ==> #[trigger] sort_desc@[i] == sort_description(
                    input_schema.fields@,
                    order_by@,
                    offsets@,
                )[i],
        decreases order_by@.len() - k,
    {
        let offset = offsets[k];
        sort_desc.push(
            SortColumnDescription {
                offset,
                asc: order_by[k].asc,
                nulls_first: order_by[k].nulls_first,
                is_nullable: input_schema.fields[offset].is_nullable(),
            },
        );
        k += 1;
    }
    assert(sort_desc@ =~= sort_description(input_schema.fields@, order_by@, offsets@));
    Ok(sort_desc)
}

/// How to sort by the columns at `offsets`, each rising and with nulls
/// first.
pub open spec fn partition_sort_description(fields: Seq<DataField>, offsets: Seq<usize>) -> Seq<
    SortColumnDescription,
> {
    Seq::new(
        offsets.len(),
        |k: int|
            SortColumnDescription {
                offset: offsets[k],
                asc: true,
                nulls_first: true,
                is_nullable: fields[offsets[k] as int].nullable,
            },
    )
}

/// The identifiers of a list of result columns.
pub open spec fn binding_indexes(bindings: Seq<ColumnBinding>) -> Seq<IndexType> {
    Seq::new(bindings.len(), |k: int| bindings[k].index)
}

/// The bytes that a key of type `data_type` takes, if it has a fixed size.
pub open spec fn key_size(data_type: DataType) -> Option<int> {
    match data_type {
        DataType::Number(NumberDataType::UInt8) | DataType::Number(NumberDataType::Int8) => Some(1),
        DataType::Number(NumberDataType::UInt16) | DataType::Number(NumberDataType::Int16) => Some(
            2,
        ),
        DataType::Number(NumberDataType::UInt32) | DataType::Number(NumberDataType::Int32)
        | DataType::Number(NumberDataType::Float32) | DataType::Date => Some(4),
        DataType::Number(NumberDataType::UInt64) | DataType::Number(NumberDataType::Int64)
        | DataType::Number(NumberDataType::Float64) | DataType::Timestamp => Some(8),
        _ => None,
    }
}

/// The bytes that the first `n` keys take together, a nullable key one byte
/// more than its type, or nothing if one of them has no fixed size.
pub open spec fn keys_size(keys: Seq<DataField>, n: int) -> Option<int>
    decreases n,
{
    if n <= 0 {
        Some(0)
    } else {
        match (keys_size(keys, n - 1), key_size(keys[n - 1].data_type)) {
            (Some(total), Some(size)) => Some(
                total + size + if keys[n - 1].nullable {
                    1int
                } else {
                    0int
                },
            ),
            _ => None,
        }
    }
}

/// The hash method for keys without a common fixed size.
pub open spec fn serializer(efficiently_memory: bool) -> HashMethodKind {
    if efficiently_memory {
        HashMethodKind::DictionarySerializer
    } else {
        HashMethodKind::Serializer
    }
}

/// The hash method for a group-by on `keys`: a single string key is hashed
/// as it is; keys of fixed size are packed into the smallest integer that
/// holds them all, up to 32 bytes; anything else is serialized.
pub open spec fn hash_method(keys: Seq<DataField>, efficiently_memory: bool) -> HashMethodKind {
    if keys.len() == 1 && keys[0].data_type == DataType::String {
        HashMethodKind::SingleString
    } else {
        match keys_size(keys, keys.len() as int) {
            None => serializer(efficiently_memory),
            Some(total) => if total == 1 {
                HashMethodKind::KeysU8
            } else if total == 2 {
                HashMethodKind::KeysU16
            } else if 3 <= total <= 4 {
                HashMethodKind::KeysU32
            } else if 5 <= total <= 8 {
                HashMethodKind::KeysU64
            } else if 9 <= total <= 16 {
                HashMethodKind::KeysU128
            } else if 17 <= total <= 32 {
                HashMethodKind::KeysU256
            } else {
                serializer(efficiently_memory)
            },
        }
    }
}

pub proof fn lemma_keys_size_fails(keys: Seq<DataField>, n: int, m: int)
    requires
        0 <= n <= m,
        keys_size(keys, n) is None,
    ensures
        keys_size(keys, m) is None,
    decreases m - n,
{
    if n < m {
        lemma_keys_size_fails(keys, n, m - 1);
    }
}

pub proof fn lemma_keys_size_grows(keys: Seq<DataField>, n: int, m: int)
    requires
        0 <= n <= m,
        keys_size(keys, m) is Some,
    ensures
        keys_size(keys, n) matches Some(a) && 0 <= a <= keys_size(keys, m)->0,
    decreases m - n,
{
    if n < m {
        lemma_keys_size_grows(keys, n, m - 1);
    } else {
        lemma_keys_size_grows_base(keys, n);
    }
}

pub proof fn lemma_keys_size_grows_base(keys: Seq<DataField>, n: int)
    requires
        0 <= n,
        keys_size(keys, n) is Some,
    ensures
        0 <= keys_size(keys, n)->0,
    decreases n,
{
    if n > 0 {
        lemma_keys_size_grows_base(keys, n - 1);
    }
}

/// The bytes that a key of type `data_type` takes, if it has a fixed size.
pub fn fixed_key_size(data_type: DataType) -> (size: Option<usize>)
    ensures
        (match key_size(data_type) {
            Some(bytes) => size == Some(bytes as usize) && 1 <= bytes <= 8,
            None => size is None,
        }),
{
    match data_type {
        DataType::Number(n) => match n {
            NumberDataType::UInt8 | NumberDataType::Int8 => Some(1),
            NumberDataType::UInt16 | NumberDataType::Int16 => Some(2),
            NumberDataType::UInt32 | NumberDataType::Int32 | NumberDataType::Float32 => Some(4),
            NumberDataType::UInt64 | NumberDataType::Int64 | NumberDataType::Float64 => Some(8),
        },
        DataType::Date => Some(4),
        DataType::Timestamp => Some(8),
        _ => None,
    }
}

/// Chooses the hash method for a group-by on `keys`.
pub fn choose_hash_method(keys: &Vec<DataField>, efficiently_memory: bool) -> (r: Result<
    HashMethodKind,
    ErrorCode,
>)
    ensures
        r == Ok::<HashMethodKind, ErrorCode>(hash_method(keys@, efficiently_memory)),
{
    if keys.len() == 1 {
        match keys[0].data_type {
            DataType::String => {
                return Ok(HashMethodKind::SingleString);
            },
            _ => {},
        }
    }
    let wide = if efficiently_memory {
        HashMethodKind::DictionarySerializer
    } else {
        HashMethodKind::Serializer
    };
    let mut total: usize = 0;
    let mut k: usize = 0;
    while k < keys.len()
        invariant
            0 <= k <= keys@.len(),
            wide == serializer(efficiently_memory),
            !(keys@.len() == 1 && keys@[0].data_type == DataType::String),
            keys_size(keys@, k as int) == Some(total as int),
            total <= 32,
        decreases keys@.len() - k,
    {
        let size: usize = match fixed_key_size(keys[k].data_type) {
            Some(bytes) => bytes,
            None => {
                proof {
                    lemma_keys_size_fails(keys@, k as int + 1, keys@.len() as int);
                }
                return Ok(wide);
            },
        };
        let flag: usize = if keys[k].nullable {
            1
        } else {
            0
        };
        total = total + size + flag;
        if total > 32 {
            proof {
                if keys_size(keys@, keys@.len() as int) is Some {
                    lemma_keys_size_grows(keys@, k as int + 1, keys@.len() as int);
                }
            }
            return Ok(wide);
        }
        k += 1;
    }
    if total == 1 {
        Ok(HashMethodKind::KeysU8)
    } else if total == 2 {
        Ok(HashMethodKind::KeysU16)
    } else if total >= 3 && total <= 4 {
        Ok(HashMethodKind::KeysU32)
    } else if total >= 5 && total <= 8 {
        Ok(HashMethodKind::KeysU64)
    } else if total >= 9 && total <= 16 {
        Ok(HashMethodKind::KeysU128)
    } else if total >= 17 {
        Ok(HashMethodKind::KeysU256)
    } else {
        Ok(wide)
    }
}

/// The position of the first of `offsets`, at or after `from`, that equals
/// `x`, or the length.
pub open spec fn position_of(offsets: Seq<usize>, x: usize, from: int) -> int
    decreases offsets.len() - from,
{
    if from < 0 || from >= offsets.len() {
        offsets.len() as int
    } else if offsets[from] == x {
        from
    } else {
        position_of(offsets, x, from + 1)
    }
}

/// The keys that the first `n` members of a grouping set name, as bits: bit
/// `j` for the key at `offsets[j]`. Nothing if `fields` lacks a member.
pub open spec fn set_bits(
    fields: Seq<DataField>,
    offsets: Seq<usize>,
    set: Seq<IndexType>,
    n: int,
) -> Option<u64>
    decreases n,
{
    if n <= 0 {
        Some(0u64)
    } else {
        match set_bits(fields, offsets, set, n - 1) {
            None => None,
            Some(id) => if first_named(fields, set[n - 1], 0) < fields.len() {
                Some(
                    id | (1u64 << (position_of(
                        offsets,
                        first_named(fields, set[n - 1], 0) as usize,
                        0,
                    ) as u64)),
                )
            } else {
                None
            },
        }
    }
}

/// The grouping ids of the first `n` grouping sets: for each set, a bit for
/// every key that the set leaves out. Nothing if `fields` lacks a member of
/// one of them.
pub open spec fn grouping_ids(
    fields: Seq<DataField>,
    offsets: Seq<usize>,
    sets: Seq<Vec<IndexType>>,
    n: int,
) -> Option<Seq<usize>>
    decreases n,
{
    if n <= 0 {
        Some(Seq::empty())
    } else {
        match grouping_ids(fields, offsets, sets, n - 1) {
            None => None,
            Some(ids) => match set_bits(fields, offsets, sets[n - 1]@, sets[n - 1]@.len() as int) {
                None => None,
                Some(id) => Some(
                    ids.push((!id & (((1u64 << (offsets.len() as u64)) - 1) as u64)) as usize),
                ),
            },
        }
    }
}

pub proof fn lemma_set_bits_fails(
    fields: Seq<DataField>,
    offsets: Seq<usize>,
    set: Seq<IndexType>,
    n: int,
    m: int,
)
    requires
        0 <= n <= m,
        set_bits(fields, offsets, set, n) is None,
    ensures
        set_bits(fields, offsets, set, m) is None,
    decreases m - n,
{
    if n < m {
        lemma_set_bits_fails(fields, offsets, set, n, m - 1);
    }
}

pub proof fn lemma_grouping_ids_fails(
    fields: Seq<DataField>,
    offsets: Seq<usize>,
    sets: Seq<Vec<IndexType>>,
    n: int,
    m: int,
)
    requires
        0 <= n <= m,
        grouping_ids(fields, offsets, sets, n) is None,
    ensures
        grouping_ids(fields, offsets, sets, m) is None,
    decreases m - n,
{
    if n < m {
        lemma_grouping_ids_fails(fields, offsets, sets, n, m - 1);
    }
}

/// The keys of an expansion into grouping sets, the virtual last one left
/// out.
pub open spec fn expand_keys(expand: AggregateExpand) -> Seq<IndexType> {
    expand.group_bys@.take(expand.group_bys@.len() - 1)
}

/// Every member of every grouping set that the input has is one of the keys.
pub open spec fn sets_within_keys(expand: AggregateExpand) -> bool {
    let fields = expand.input.schema().fields@;
    offsets_of(fields, expand_keys(expand), expand_keys(expand).len() as int) matches Some(offsets)
        ==> forall|s: int, i: int|
        #![trigger expand.grouping_sets@[s]@[i]]
        0 <= s < expand.grouping_sets@.len() && 0 <= i < expand.grouping_sets@[s]@.len()
            && first_named(fields, expand.grouping_sets@[s]@[i], 0) < fields.len() ==> position_of(
            offsets,
            first_named(fields, expand.grouping_sets@[s]@[i], 0) as usize,
            0,
        ) < offsets.len()
}

/// The frame type of a window: rows; or, by value, the numeric type of the
/// single sort key, or `UInt8` where there is no such key: the bounds of
/// such a frame hold no value.
pub open spec fn window_frame(window: Window, order_by: Seq<SortColumnDescription>) -> WindowFrame {
    match window.units {
        WindowFuncFrameUnits::Rows => WindowFrame::Rows,
        WindowFuncFrameUnits::Range => if order_by.len() == 1 {
            match window.input.schema().fields@[order_by[0].offset as int].data_type {
                DataType::Number(t) => WindowFrame::Range(t),
                _ => WindowFrame::Range(NumberDataType::UInt8),
            }
        } else {
            WindowFrame::Range(NumberDataType::UInt8)
        },
    }
}


/// What the expansion into grouping sets works from: where each key stands
/// in the input, with its type, and the grouping id of each set. Nothing if
/// the input lacks a key or a member of a set.
pub open spec fn grouping(expand: AggregateExpand) -> Option<(Seq<(usize, DataType)>, Seq<usize>)> {
    let fields = expand.input.schema().fields@;
    match offsets_of(fields, expand_keys(expand), expand_keys(expand).len() as int) {
        None => None,
        Some(offsets) => match grouping_ids(
            fields,
            offsets,
            expand.grouping_sets@,
            expand.grouping_sets@.len() as int,
        ) {
            None => None,
            Some(ids) => Some(
                (
                    Seq::new(
                        offsets.len(),
                        |k: int| (offsets[k], fields[offsets[k] as int].data_type),
                    ),
                    ids,
                ),
            ),
        },
    }
}

/// Works out the keys and the grouping ids of an expansion into grouping
/// sets; `BadArguments` if the input lacks a key or a member of a set.
pub fn build_grouping(expand: &AggregateExpand) -> (r: Result<
    (Vec<(usize, DataType)>, Vec<usize>),
    ErrorCode,
>)
    requires
        1 <= expand.group_bys@.len() <= 64,
        sets_within_keys(*expand),
    ensures
        (match grouping(*expand) {
            Some(found) => r matches Ok(v) && v.0@ == found.0 && v.1@ == found.1,
            None => r matches Err(e) && e@ == no_field(),
        }),
{
    let input_schema = expand.input.output_schema();
    let fields: usize = input_schema.num_fields();
    // The last group-by will be virtual column `_grouping_id`
    let mut keys: Vec<IndexType> = Vec::with_capacity(expand.group_bys.len());
    let mut k: usize = 0;
    while k < expand.group_bys.len() - 1
        invariant
            1 <= expand.group_bys@.len(),
            0 <= k <= expand.group_bys@.len() - 1,
            keys@ == expand.group_bys@.take(k as int),
        decreases expand.group_bys@.len() - k,
    {
        keys.push(expand.group_bys[k]);
        k += 1;
        assert(keys@ =~= expand.group_bys@.take(k as int));
    }
    let offsets = lookup_all(input_schema, &keys)?;
    proof {
        lemma_offsets_of(input_schema.fields@, keys@, keys@.len() as int);
    }
    let mut group_bys: Vec<(usize, DataType)> = Vec::with_capacity(offsets.len());
    let mut k: usize = 0;
    while k < offsets.len()
        invariant
            0 <= k <= offsets@.len(),
            forall|i: int|
                0 <= i < offsets@.len() ==> (#[trigger] offsets@[i]) < input_schema.fields@.len(),
            group_bys@.len() == k,
            forall|i: int|
                0 <= i < k ==> #[trigger] group_bys@[i] == (
                    offsets@[i],
                    input_schema.fields@[offsets@[i] as int].data_type,
                ),
        decreases offsets@.len() - k,
    {
        let index = offsets[k];
        group_bys.push((index, input_schema.fields[index].data_type));
        k += 1;
    }
    assert(group_bys@ =~= Seq::new(
        offsets@.len(),
        |k: int| (offsets@[k], input_schema.fields@[offsets@[k] as int].data_type),
    ));
    let key_count: u64 = offsets.len() as u64;
    assert(1u64 << key_count >= 1) by (bit_vector)
        requires
            key_count < 64,
    ;
    let mask: u64 = (1u64 << key_count) - 1;
    let mut ids: Vec<usize> = Vec::with_capacity(expand.grouping_sets.len());
    let mut s: usize = 0;
    while s < expand.grouping_sets.len()
        invariant
            0 <= s <= expand.grouping_sets@.len(),
            offsets@.len() < 64,
            key_count == offsets@.len(),
            mask == ((1u64 << key_count) - 1) as u64,
            fields == input_schema.fields@.len(),
            sets_within_keys(*expand),
            *input_schema == expand.input.schema(),
            offsets_of(input_schema.fields@, expand_keys(*expand),
                expand_keys(*expand).len() as int)
                == Some(offsets@),
            grouping_ids(input_schema.fields@, offsets@, expand.grouping_sets@, s as int) == Some(
                ids@,
            ),
        decreases expand.grouping_sets@.len() - s,
    {
        let set = &expand.grouping_sets[s];
        let mut id: u64 = 0;
        let mut i: usize = 0;
        while i < set.len()
            invariant
                0 <= i <= set@.len(),
                0 <= s < expand.grouping_sets@.len(),
                *set == expand.grouping_sets@[s as int],
                offsets@.len() < 64,
                fields == input_schema.fields@.len(),
                sets_within_keys(*expand),
                *input_schema == expand.input.schema(),
                offsets_of(
                    input_schema.fields@,
                    expand_keys(*expand),
                    expand_keys(*expand).len() as int,
                ) == Some(offsets@),
                set_bits(input_schema.fields@, offsets@, set@, i as int) == Some(id),
            decreases set@.len() - i,
        {
            let index = match input_schema.index_of(set[i]) {
                Ok(index) => index,
                Err(e) => {
                    proof {
                        lemma_set_bits_fails(
                            input_schema.fields@,
                            offsets@,
                            set@,
                            i as int + 1,
                            set@.len() as int,
                        );
                        lemma_grouping_ids_fails(
                            input_schema.fields@,
                            offsets@,
                            expand.grouping_sets@,
                            s as int + 1,
                            expand.grouping_sets@.len() as int,
                        );
                    }
                    return Err(e);
                },
            };
            let mut j: usize = 0;
            while j < offsets.len() && offsets[j] != index
                invariant
                    0 <= j <= offsets@.len(),
                    position_of(offsets@, index, 0) == position_of(offsets@, index, j as int),
                decreases offsets@.len() - j,
            {
                j += 1;
            }
            assert(expand.grouping_sets@[s as int]@[i as int] == set@[i as int]);
            assert(j < offsets@.len());
            id = id | (1u64 << (j as u64));
            i += 1;
        }
        ids.push(#[verifier::truncate] ((!id & mask) as usize));
        s += 1;
    }
    Ok((group_bys, ids))
}

/// What the processors of a window work from.
#[derive(Debug)]
pub struct WindowParams {
    /// Where the partition keys stand in the input.
    pub partition_by: Vec<usize>,
    /// The order inside a partition.
    pub order_by: Vec<SortColumnDescription>,
    /// The order that brings the rows of a partition together, sorted: by
    /// the partition keys, rising and nulls first, then as `order_by` says.
    pub sort_desc: Vec<SortColumnDescription>,
    pub frame: WindowFrame,
}

pub struct WindowParamsView {
    pub partition_by: Seq<usize>,
    pub order_by: Seq<SortColumnDescription>,
    pub sort_desc: Seq<SortColumnDescription>,
    pub frame: WindowFrame,
}

impl View for WindowParams {
    type V = WindowParamsView;

    open spec fn view(&self) -> WindowParamsView {
        WindowParamsView {
            partition_by: self.partition_by@,
            order_by: self.order_by@,
            sort_desc: self.sort_desc@,
            frame: self.frame,
        }
    }
}

/// What the processors of `window` work from; nothing if the input lacks a
/// key.
pub open spec fn window_params(window: Window) -> Option<WindowParamsView> {
    let fields = window.input.schema().fields@;
    match offsets_of(fields, window.partition_by@, window.partition_by@.len() as int) {
        None => None,
        Some(partition_by) => match offsets_of(
            fields,
            sort_keys(window.order_by@),
            window.order_by@.len() as int,
        ) {
            None => None,
            Some(order_offsets) => {
                let order_by = sort_description(fields, window.order_by@, order_offsets);
                Some(
                    WindowParamsView {
                        partition_by,
                        order_by,
                        sort_desc: partition_sort_description(fields, partition_by) + order_by,
                        frame: window_frame(window, order_by),
                    },
                )
            },
        },
    }
}

/// Works out what the processors of `window` work from; `BadArguments` if
/// the input lacks a key.
pub fn build_window_params(window: &Window) -> (r: Result<WindowParams, ErrorCode>)
    ensures
        (match window_params(*window) {
            Some(params) => r matches Ok(v) && v@ == params,
            None => r matches Err(e) && e@ == no_field(),
        }),
{
    let input_schema = window.input.output_schema();
    let fields: usize = input_schema.num_fields();
    let partition_by = lookup_all(input_schema, &window.partition_by)?;
    let order_by = build_sort_description(input_schema, &window.order_by)?;
    proof {
        lemma_offsets_of(
            input_schema.fields@,
            window.partition_by@,
            window.partition_by@.len() as int,
        );
        lemma_offsets_of(
            input_schema.fields@,
            sort_keys(window.order_by@),
            window.order_by@.len() as int,
        );
    }
    let mut sort_desc: Vec<SortColumnDescription> = Vec::new();
    let mut k: usize = 0;
    while k < partition_by.len()
        invariant
            0 <= k <= partition_by@.len(),
            forall|i: int|
                0 <= i < partition_by@.len() ==> (#[trigger] partition_by@[i])
                    < input_schema.fields@.len(),
            sort_desc@.len() == k,
            forall|i: int|
                0 <= i < k ==> #[trigger] sort_desc@[i] == partition_sort_description(
                    input_schema.fields@,
                    partition_by@,
                )[i],
        decreases partition_by@.len() - k,
    {
        let offset = partition_by[k];
        sort_desc.push(
            SortColumnDescription {
                offset,
                asc: true,
                nulls_first: true,
                is_nullable: input_schema.fields[offset].is_nullable(),
            },
        );
        k += 1;
    }
    let mut k: usize = 0;
    while k < order_by.len()
        invariant
            0 <= k <= order_by@.len(),
            sort_desc@.len() == partition_by@.len() + k,
            forall|i: int|
                0 <= i < partition_by@.len() ==> #[trigger] sort_desc@[i]
                    == partition_sort_description(input_schema.fields@, partition_by@)[i],
            forall|j: int|
                partition_by@.len() <= j < partition_by@.len() + k ==> #[trigger] sort_desc@[j]
                    == order_by@[j - partition_by@.len()],
        decreases order_by@.len() - k,
    {
        sort_desc.push(order_by[k]);
        k += 1;
    }
    assert(sort_desc@ =~= partition_sort_description(input_schema.fields@, partition_by@)
        + order_by@);
    let frame = match window.units {
        WindowFuncFrameUnits::Rows => WindowFrame::Rows,
        WindowFuncFrameUnits::Range => {
            if order_by.len() == 1 {
                // If the length of order_by is 1, there may be a RANGE frame.
                assert(order_by@[0] == sort_description(
                    input_schema.fields@,
                    window.order_by@,
                    offsets_of(
                        input_schema.fields@,
                        sort_keys(window.order_by@),
                        window.order_by@.len() as int,
                    )->0,
                )[0]);
                match input_schema.fields[order_by[0].offset].data_type {
                    DataType::Number(t) => WindowFrame::Range(t),
                    _ => WindowFrame::Range(NumberDataType::UInt8),
                }
            } else {
                // There is no offset in the RANGE frame. (just CURRENT ROW or UNBOUNDED)
                // So we can use any number type to create the transform.
                WindowFrame::Range(NumberDataType::UInt8)
            }
        },
    };
    Ok(WindowParams { partition_by, order_by, sort_desc, frame })
}

} // verus!
