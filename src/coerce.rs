//! Coercion of column values, as the driver hands them over, to text.
//!
//! Each column is sorted by its declared type into a fixed set of kinds; each
//! kind has one rule, and every failure to decode gives the `NULL` token.
use vstd::prelude::*;
use crate::model::{QueryResult, strings_view};
use crate::text::{int_text, i128_text};
use crate::ewkb::{ewkb_depth_bounded, ewkb_depth_within_bound};

verus! {

/// Catalog OID of the `numeric` type.
pub const NUMERIC_OID: u32 = 1700;
/// Catalog OID of the `int2` type.
pub const INT2_OID: u32 = 21;
/// Catalog OID of the `int4` type.
pub const INT4_OID: u32 = 23;
/// Catalog OID of the `int8` type.
pub const INT8_OID: u32 = 20;
/// Catalog OID of the `float4` type.
pub const FLOAT4_OID: u32 = 700;
/// Catalog OID of the `float8` type.
pub const FLOAT8_OID: u32 = 701;

/// A result column: its name, and the OID and name of its declared type.
pub struct Column {
    pub name: String,
    pub type_oid: u32,
    pub ty_name: String,
}

/// The coercion rule that a column's type selects.
#[derive(Clone, Copy, Debug, PartialEq, Eq, Structural)]
pub enum ColumnKind {
    Numeric,
    Int2,
    Int4,
    Int8,
    Float4,
    Float8,
    Geometry,
    Text,
}

/// The kind of a column type, by OID for the built-in numeric types and by
/// name for the spatial type; everything else is text.
pub open spec fn kind_of(oid: u32, ty_name: Seq<char>) -> ColumnKind {
    if oid == NUMERIC_OID {
        ColumnKind::Numeric
    } else if oid == INT2_OID {
        ColumnKind::Int2
    } else if oid == INT4_OID {
        ColumnKind::Int4
    } else if oid == INT8_OID {
        ColumnKind::Int8
    } else if oid == FLOAT4_OID {
        ColumnKind::Float4
    } else if oid == FLOAT8_OID {
        ColumnKind::Float8
    } else if ty_name == "geometry"@ {
        ColumnKind::Geometry
    } else {
        ColumnKind::Text
    }
}

pub open spec fn is_float(k: ColumnKind) -> bool {
    k == ColumnKind::Float4 || k == ColumnKind::Float8
}

/// The kind of a column.
pub fn column_kind(col: &Column) -> (r: ColumnKind)
    ensures
        r == kind_of(col.type_oid, col.ty_name@),
{
    if col.type_oid == NUMERIC_OID {
        ColumnKind::Numeric
    } else if col.type_oid == INT2_OID {
        ColumnKind::Int2
    } else if col.type_oid == INT4_OID {
        ColumnKind::Int4
    } else if col.type_oid == INT8_OID {
        ColumnKind::Int8
    } else if col.type_oid == FLOAT4_OID {
        ColumnKind::Float4
    } else if col.type_oid == FLOAT8_OID {
        ColumnKind::Float8
    } else if col.ty_name == String::from_str("geometry") {
        ColumnKind::Geometry
    } else {
        ColumnKind::Text
    }
}

/// One cell as it reaches the library: the raw bytes of the value (`None` for
/// SQL NULL), or, for a floating-point column, the value's decimal text when it
/// decoded (`None` when it did not).
pub enum CellInput {
    Raw(Option<Vec<u8>>),
    FloatText(Option<String>),
}

/// `256` to the power `n`.
pub open spec fn pow256(n: nat) -> nat
    decreases n,
{
    if n == 0 {
        1
    } else {
        256 * pow256((n - 1) as nat)
    }
}

/// The unsigned big-endian integer that `b` encodes.
pub open spec fn be_unsigned(b: Seq<u8>) -> nat
    decreases b.len(),
{
    if b.len() == 0 {
        0
    } else {
        (be_unsigned(b.drop_last()) * 256 + b.last()) as nat
    }
}

/// The two's-complement big-endian integer that `b` encodes.
pub open spec fn be_signed(b: Seq<u8>) -> int {
    if b.len() > 0 && b[0] >= 128 {
        be_unsigned(b) - pow256(b.len())
    } else {
        be_unsigned(b) as int
    }
}

/// Decodes a two's-complement big-endian integer of at most eight bytes.
pub fn decode_be(b: &Vec<u8>) -> (r: i128)
    requires
        b@.len() <= 8,
    ensures
        r == be_signed(b@),
{
    let n = b.len();
    let mut acc: u128 = 0;
    let mut m: u128 = 1;
    let mut i: usize = 0;
    assert(b@.subrange(0, 0) =~= Seq::<u8>::empty());
    while i < n
        invariant
            n == b@.len(),
            n <= 8,
            i <= n,
            acc == be_unsigned(b@.subrange(0, i as int)),
            m == pow256(i as nat),
            acc < m,
        decreases n - i,
    {
        let ghost pre = b@.subrange(0, i as int);
        let ghost cur = b@.subrange(0, i + 1);
        assert(cur.drop_last() =~= pre);
        let byte = b[i];
        proof {
            assert(acc * 256 + byte < m * 256) by (nonlinear_arith)
                requires
                    acc < m,
                    byte < 256,
            ;
            lemma_pow256_bound(i as nat);
        }
        acc = acc * 256 + byte as u128;
        m = m * 256;
        i = i + 1;
    }
    assert(b@.subrange(0, n as int) =~= b@);
    proof {
        lemma_pow256_bound(n as nat);
    }
    if n > 0 && b[0] >= 128 {
        acc as i128 - m as i128
    } else {
        acc as i128
    }
}

proof fn lemma_pow256_bound(i: nat)
    requires
        i <= 8,
    ensures
        pow256(i) <= 0x1_0000_0000_0000_0000,
        i < 8 ==> pow256(i) <= 0x100_0000_0000_0000,
        i > 0 ==> pow256(i) == 256 * pow256((i - 1) as nat),
{
    reveal_with_fuel(pow256, 9);
    if i == 0 {
    } else if i == 1 {
    } else if i == 2 {
    } else if i == 3 {
    } else if i == 4 {
    } else if i == 5 {
    } else if i == 6 {
    } else if i == 7 {
    } else {
    }
}

/// Whether a `numeric` value's header asks the decimal decoder for a power
/// of ten it cannot hold: the header is readable, the value is not a special
/// one (NaN or an infinity), and its integer part runs 8 or 9 base-10000
/// groups past its digits. The decoder cannot return a value for these.
pub open spec fn numeric_overflows(b: Seq<u8>) -> bool {
    b.len() >= 6 && b[4] < 0xC0 && {
        let groups = b[0] as int * 256 + b[1] as int;
        let weight = b[2] as int * 256 + b[3] as int - if b[2] >= 128 {
            65536int
        } else {
            0int
        };
        weight + 1 - groups == 8 || weight + 1 - groups == 9
    }
}

/// Tests a `numeric` value's header for `numeric_overflows`.
pub fn numeric_header_overflows(b: &Vec<u8>) -> (r: bool)
    ensures
        r == numeric_overflows(b@),
{
    if b.len() < 6 || b[4] >= 0xC0 {
        return false;
    }
    let groups: i32 = b[0] as i32 * 256 + b[1] as i32;
    let weight: i32 = b[2] as i32 * 256 + b[3] as i32 - if b[2] >= 128 {
        65536i32
    } else {
        0i32
    };
    weight + 1 - groups == 8 || weight + 1 - groups == 9
}

/// The decimal text of a `numeric` value as the decimal type of the database
/// driver decodes and prints it; `None` where it does not decode.
pub uninterp spec fn numeric_text_of(raw: Seq<u8>) -> Option<Seq<char>>;

/// Relies on `rust_decimal`'s `FromSql` for `Decimal` (the `numeric` wire
/// format) and on its `Display`: a function of the bytes alone.
/// The decoder can panic only on headers that `numeric_overflows` names;
/// those are never handed over.
#[verifier::external_body]
fn numeric_text(raw: &Vec<u8>) -> (r: Option<String>)
    requires
        !numeric_overflows(raw@),
    ensures
        match r {
            Some(t) => numeric_text_of(raw@) == Some(t@),
            None => numeric_text_of(raw@) is None,
        },
{
    match <rust_decimal::Decimal as postgres_types::FromSql>::from_sql(
        &postgres_types::Type::NUMERIC,
        raw,
    ) {
        Ok(d) => Some(d.to_string()),
        Err(_) => None,
    }
}

/// The `Debug` text of the geometry that an EWKB envelope encodes; `None`
/// where the envelope is malformed.
pub uninterp spec fn ewkb_text_of(raw: Seq<u8>) -> Option<Seq<char>>;

/// Relies on `postgis::ewkb::Geometry::read_ewkb` and the geometry's `Debug`
/// form: a function of the bytes alone.
/// The reader recurses once per nested collection without a depth limit, so
/// only envelopes whose nesting stays within `MAX_GEOMETRY_NESTING` (found by
/// following the envelope's layout) are handed over.
#[verifier::external_body]
fn geometry_text(raw: &Vec<u8>) -> (r: Option<String>)
    requires
        ewkb_depth_bounded(raw@),
    ensures
        match r {
            Some(t) => ewkb_text_of(raw@) == Some(t@),
            None => ewkb_text_of(raw@) is None,
        },
{
    let mut cursor = std::io::Cursor::new(raw.as_slice());
    match <postgis::ewkb::Geometry as postgis::ewkb::EwkbRead>::read_ewkb(&mut cursor) {
        Ok(g) => Some(format!("{:?}", g)),
        Err(_) => None,
    }
}

/// Whether the driver decodes a column of this type as text.
pub uninterp spec fn text_accepted(oid: u32, ty_name: Seq<char>) -> bool;

/// Relies on `postgres_types`' `FromSql::accepts` for `String`, which looks at
/// the type's OID (built-in types) and name (extension types) only; the type
/// is rebuilt from those two (`Type::from_oid`, else `Type::new`).
#[verifier::external_body]
fn accepts_text(col: &Column) -> (r: bool)
    ensures
        r == text_accepted(col.type_oid, col.ty_name@),
        col.type_oid == 25 || col.type_oid == 1043 || col.type_oid == 1042 || col.type_oid == 19
            || col.type_oid == 705 ==> r,
{
    let ty = match postgres_types::Type::from_oid(col.type_oid) {
        Some(t) => t,
        None => postgres_types::Type::new(
            col.ty_name.clone(),
            col.type_oid,
            postgres_types::Kind::Simple,
            String::new(),
        ),
    };
    <String as postgres_types::FromSql>::accepts(&ty)
}

/// The text that the driver decodes from a value of this type; `None` where
/// it fails (invalid UTF-8, or a malformed extension header).
pub uninterp spec fn text_decoded(oid: u32, ty_name: Seq<char>, raw: Seq<u8>) -> Option<Seq<char>>;

/// Relies on `postgres_types`' `FromSql::from_sql` for `String`, which looks at
/// the type's name and the bytes only; the type is rebuilt as for `accepts_text`.
#[verifier::external_body]
fn decode_text(col: &Column, raw: &Vec<u8>) -> (r: Option<String>)
    ensures
        match r {
            Some(t) => text_decoded(col.type_oid, col.ty_name@, raw@) == Some(t@),
            None => text_decoded(col.type_oid, col.ty_name@, raw@) is None,
        },
{
    let ty = match postgres_types::Type::from_oid(col.type_oid) {
        Some(t) => t,
        None => postgres_types::Type::new(
            col.ty_name.clone(),
            col.type_oid,
            postgres_types::Kind::Simple,
            String::new(),
        ),
    };
    <String as postgres_types::FromSql>::from_sql(&ty, raw).ok()
}

/// The token for SQL NULL and for every value that fails to decode.
pub open spec fn null_text() -> Seq<char> {
    "NULL"@
}

/// The token for a geometry whose envelope is malformed.
pub open spec fn geometry_invalid_text() -> Seq<char> {
    "GEOMETRY_INVALID"@
}

/// The token that stands for a value of kind `k` that did not decode.
pub open spec fn fallback_text(k: ColumnKind) -> Seq<char> {
    if k == ColumnKind::Geometry {
        geometry_invalid_text()
    } else {
        null_text()
    }
}

/// A decoded text, or the fallback token of `kind` where decoding failed.
pub fn text_or_fallback(kind: ColumnKind, decoded: Option<String>) -> (r: String)
    ensures
        r@ == match decoded {
            Some(t) => t@,
            None => fallback_text(kind),
        },
{
    match decoded {
        Some(t) => t,
        None => if kind == ColumnKind::Geometry {
            String::from_str("GEOMETRY_INVALID")
        } else {
            String::from_str("NULL")
        },
    }
}

/// The text of a present value in a column whose kind is not floating point.
pub open spec fn raw_text(oid: u32, ty_name: Seq<char>, b: Seq<u8>) -> Seq<char> {
    let width: nat = match kind_of(oid, ty_name) {
        ColumnKind::Int2 => 2,
        ColumnKind::Int4 => 4,
        _ => 8,
    };
    match kind_of(oid, ty_name) {
        ColumnKind::Int2 | ColumnKind::Int4 | ColumnKind::Int8 => if b.len() == width {
            int_text(be_signed(b))
        } else {
            null_text()
        },
        ColumnKind::Numeric => if numeric_overflows(b) {
            null_text()
        } else {
            match numeric_text_of(b) {
                Some(t) => t,
                None => null_text(),
            }
        },
        ColumnKind::Geometry => if !ewkb_depth_bounded(b) {
            geometry_invalid_text()
        } else {
            match ewkb_text_of(b) {
                Some(t) => t,
                None => geometry_invalid_text(),
            }
        },
        ColumnKind::Text => if text_accepted(oid, ty_name) {
            match text_decoded(oid, ty_name, b) {
                Some(t) => t,
                None => null_text(),
            }
        } else {
            null_text()
        },
        _ => null_text(),
    }
}

/// The text of a cell of a column with type `oid` / `ty_name`.
pub open spec fn cell_text(oid: u32, ty_name: Seq<char>, cell: CellInput) -> Seq<char> {
    match cell {
        CellInput::FloatText(t) => if is_float(kind_of(oid, ty_name)) && t is Some {
            t->0@
        } else {
            null_text()
        },
        CellInput::Raw(None) => null_text(),
        CellInput::Raw(Some(b)) => if is_float(kind_of(oid, ty_name)) {
            null_text()
        } else {
            raw_text(oid, ty_name, b@)
        },
    }
}

/// Coerces one cell of `col` to text; never fails.
pub fn coerce_cell(col: &Column, cell: &CellInput) -> (r: String)
    ensures
        r@ == cell_text(col.type_oid, col.ty_name@, *cell),
{
    let kind = column_kind(col);
    let float = kind == ColumnKind::Float4 || kind == ColumnKind::Float8;
    match cell {
        CellInput::FloatText(Some(t)) => {
            if float {
                t.clone()
            } else {
                String::from_str("NULL")
            }
        },
        CellInput::FloatText(None) => String::from_str("NULL"),
        CellInput::Raw(None) => String::from_str("NULL"),
        CellInput::Raw(Some(b)) => {
            if float {
                return String::from_str("NULL");
            }
            match kind {
                ColumnKind::Int2 | ColumnKind::Int4 | ColumnKind::Int8 => {
                    let width: usize = if kind == ColumnKind::Int2 {
                        2
                    } else if kind == ColumnKind::Int4 {
                        4
                    } else {
                        8
                    };
                    if b.len() == width {
                        i128_text(decode_be(b))
                    } else {
                        String::from_str("NULL")
                    }
                },
                ColumnKind::Numeric => {
                    if numeric_header_overflows(b) {
                        String::from_str("NULL")
                    } else {
                        text_or_fallback(kind, numeric_text(b))
                    }
                },
                ColumnKind::Geometry => {
                    if ewkb_depth_within_bound(b) {
                        text_or_fallback(kind, geometry_text(b))
                    } else {
                        String::from_str("GEOMETRY_INVALID")
                    }
                },
                _ => {
                    if accepts_text(col) {
                        text_or_fallback(kind, decode_text(col, b))
                    } else {
                        String::from_str("NULL")
                    }
                },
            }
        },
    }
}

/// The names of `cols`.
pub open spec fn column_names(cols: Seq<Column>) -> Seq<Seq<char>> {
    cols.map_values(|c: Column| c.name@)
}

/// Builds the tabular result of a read from its columns and raw rows: no row
/// gives the empty result; otherwise the headers are the column names and
/// each value is its cell coerced by its column's type.
pub fn tabulate(cols: &Vec<Column>, cells: &Vec<Vec<CellInput>>) -> (r: QueryResult)
    requires
        forall|i: int| 0 <= i < cells@.len() ==> (#[trigger] cells@[i])@.len() == cols@.len(),
    ensures
        r.wf(),
        cells@.len() == 0 ==> r.headers@.len() == 0 && r.rows@.len() == 0,
        cells@.len() > 0 ==> r.headers_view() == column_names(cols@),
        r.rows@.len() == cells@.len(),
        forall|i: int, j: int|
            0 <= i < cells@.len() && 0 <= j < cols@.len() ==> (#[trigger] r.rows_view()[i][j])
                == cell_text(cols@[j].type_oid, cols@[j].ty_name@, cells@[i]@[j]),
{
    if cells.len() == 0 {
        return QueryResult::empty();
    }
    let mut headers: Vec<String> = Vec::new();
    let mut j: usize = 0;
    while j < cols.len()
        invariant
            j <= cols@.len(),
            headers@.len() == j,
            forall|k: int| 0 <= k < j ==> (#[trigger] headers@[k])@ == cols@[k].name@,
        decreases cols@.len() - j,
    {
        headers.push(cols[j].name.clone());
        j = j + 1;
    }
    assert(strings_view(headers@) =~= column_names(cols@));
    let mut rows: Vec<Vec<String>> = Vec::new();
    let mut i: usize = 0;
    while i < cells.len()
        invariant
            i <= cells@.len(),
            headers@.len() == cols@.len(),
            rows@.len() == i,
            forall|k: int| 0 <= k < cells@.len() ==> (#[trigger] cells@[k])@.len() == cols@.len(),
            forall|k: int| 0 <= k < i ==> (#[trigger] rows@[k])@.len() == cols@.len(),
            forall|k: int, c: int|
                0 <= k < i && 0 <= c < cols@.len() ==> (#[trigger] rows@[k]@[c])@ == cell_text(
                    cols@[c].type_oid,
                    cols@[c].ty_name@,
                    cells@[k]@[c],
                ),
        decreases cells@.len() - i,
    {
        let row = &cells[i];
        let mut values: Vec<String> = Vec::new();
        let mut c: usize = 0;
        while c < cols.len()
            invariant
                c <= cols@.len(),
                row@.len() == cols@.len(),
                *row == cells@[i as int],
                values@.len() == c,
                forall|q: int| 0 <= q < c ==> (#[trigger] values@[q])@ == cell_text(
                    cols@[q].type_oid,
                    cols@[q].ty_name@,
                    row@[q],
                ),
            decreases cols@.len() - c,
        {
            values.push(coerce_cell(&cols[c], &row[c]));
            c = c + 1;
        }
        rows.push(values);
        i = i + 1;
    }
    let r = QueryResult { headers, rows };
    assert forall|a: int, b: int|
        0 <= a < cells@.len() && 0 <= b < cols@.len() implies (#[trigger] r.rows_view()[a][b])
        == cell_text(cols@[b].type_oid, cols@[b].ty_name@, cells@[a]@[b]) by {
        assert(r.rows_view()[a] == strings_view(r.rows@[a]@));
        assert(strings_view(r.rows@[a]@)[b] == r.rows@[a]@[b]@);
    }
    r
}

/// Builds the tabular result of a read from whatever rows came back: `None`
/// exactly when some row's width differs from the columns; otherwise the
/// result of `tabulate`, whose rows each hold one value per header.
pub fn tabulate_checked(cols: &Vec<Column>, cells: &Vec<Vec<CellInput>>) -> (r: Option<QueryResult>)
    ensures
        r is Some <==> forall|i: int| 0 <= i < cells@.len() ==> (#[trigger] cells@[i])@.len() == cols@.len(),
        r matches Some(q) ==> q.wf() && q.rows@.len() == cells@.len() && (cells@.len() == 0 ==> q.headers@.len() == 0)
            && (cells@.len() > 0 ==> q.headers_view() == column_names(cols@)) && forall|i: int, j: int|
            0 <= i < cells@.len() && 0 <= j < cols@.len() ==> (#[trigger] q.rows_view()[i][j]) == cell_text(
                cols@[j].type_oid,
                cols@[j].ty_name@,
                cells@[i]@[j],
            ),
{
    let mut i: usize = 0;
    while i < cells.len()
        invariant
            i <= cells@.len(),
            forall|k: int| 0 <= k < i ==> (#[trigger] cells@[k])@.len() == cols@.len(),
        decreases cells@.len() - i,
    {
        if cells[i].len() != cols.len() {
            return None;
        }
        i = i + 1;
    }
    Some(tabulate(cols, cells))
}

/// A present value whose bytes do not fit its column's type resolves to the
/// `NULL` token: an integer of the wrong width, raw bytes in a floating-point
/// column, or a value of a type that is decoded as text but not accepted as
/// text.
pub proof fn lemma_mismatch_is_null(oid: u32, ty_name: Seq<char>, b: Vec<u8>)
    requires
        ({
            let k = kind_of(oid, ty_name);
            ||| k == ColumnKind::Int2 && b@.len() != 2
            ||| k == ColumnKind::Int4 && b@.len() != 4
            ||| k == ColumnKind::Int8 && b@.len() != 8
            ||| is_float(k)
            ||| k == ColumnKind::Text && !text_accepted(oid, ty_name)
        }),
    ensures
        cell_text(oid, ty_name, CellInput::Raw(Some(b))) == null_text(),
{
}

} // verus!
