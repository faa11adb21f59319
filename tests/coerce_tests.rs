use multiquery::coerce::{
    coerce_cell, column_kind, decode_be, numeric_header_overflows, tabulate, tabulate_checked,
    text_or_fallback, CellInput, Column, ColumnKind,
};
use multiquery::ewkb::ewkb_depth_within_bound;
use postgis::ewkb::EwkbRead;

fn col(name: &str, oid: u32, ty: &str) -> Column {
    Column { name: name.to_string(), type_oid: oid, ty_name: ty.to_string() }
}

fn raw(b: &[u8]) -> CellInput {
    CellInput::Raw(Some(b.to_vec()))
}

#[test]
fn kinds_by_oid_and_name() {
    assert_eq!(column_kind(&col("a", 1700, "numeric")), ColumnKind::Numeric);
    assert_eq!(column_kind(&col("a", 21, "int2")), ColumnKind::Int2);
    assert_eq!(column_kind(&col("a", 23, "int4")), ColumnKind::Int4);
    assert_eq!(column_kind(&col("a", 20, "int8")), ColumnKind::Int8);
    assert_eq!(column_kind(&col("a", 700, "float4")), ColumnKind::Float4);
    assert_eq!(column_kind(&col("a", 701, "float8")), ColumnKind::Float8);
    assert_eq!(column_kind(&col("a", 90210, "geometry")), ColumnKind::Geometry);
    assert_eq!(column_kind(&col("a", 25, "text")), ColumnKind::Text);
}

#[test]
fn big_endian_decoding() {
    assert_eq!(decode_be(&vec![0, 0, 1, 0]), 256);
    assert_eq!(decode_be(&vec![0xff, 0xfe]), -2);
    assert_eq!(decode_be(&vec![0x80, 0, 0, 0, 0, 0, 0, 0]), i64::MIN as i128);
    assert_eq!(decode_be(&vec![0x7f, 0xff, 0xff, 0xff, 0xff, 0xff, 0xff, 0xff]), i64::MAX as i128);
}

#[test]
fn integers_render_in_decimal() {
    assert_eq!(coerce_cell(&col("a", 23, "int4"), &raw(&[0, 0, 1, 0])), "256");
    assert_eq!(coerce_cell(&col("a", 21, "int2"), &raw(&[0xff, 0xfe])), "-2");
    assert_eq!(
        coerce_cell(&col("a", 20, "int8"), &raw(&[0x80, 0, 0, 0, 0, 0, 0, 0])),
        "-9223372036854775808"
    );
    assert_eq!(coerce_cell(&col("a", 20, "int8"), &raw(&[0, 0, 0, 0, 0, 0, 0, 0])), "0");
}

#[test]
fn wrong_width_integer_is_null() {
    assert_eq!(coerce_cell(&col("a", 23, "int4"), &raw(&[0, 1, 0])), "NULL");
    assert_eq!(coerce_cell(&col("a", 21, "int2"), &raw(&[0, 0, 0, 1])), "NULL");
}

#[test]
fn sql_null_is_null_token() {
    assert_eq!(coerce_cell(&col("a", 23, "int4"), &CellInput::Raw(None)), "NULL");
    assert_eq!(coerce_cell(&col("a", 25, "text"), &CellInput::Raw(None)), "NULL");
    assert_eq!(coerce_cell(&col("g", 90210, "geometry"), &CellInput::Raw(None)), "NULL");
}

#[test]
fn numeric_renders_decimal_text() {
    // 12.5: two base-10000 digits (12, 5000), weight 0, positive, scale 1.
    let bytes = [0, 2, 0, 0, 0, 0, 0, 1, 0, 12, 0x13, 0x88];
    assert_eq!(coerce_cell(&col("n", 1700, "numeric"), &raw(&bytes)), "12.5");
}

#[test]
fn malformed_numeric_is_null() {
    assert_eq!(coerce_cell(&col("n", 1700, "numeric"), &raw(&[1])), "NULL");
}

#[test]
fn float_text_is_taken_for_float_columns_only() {
    let t = CellInput::FloatText(Some("1.5".to_string()));
    assert_eq!(coerce_cell(&col("f", 701, "float8"), &t), "1.5");
    assert_eq!(coerce_cell(&col("f", 700, "float4"), &t), "1.5");
    assert_eq!(coerce_cell(&col("f", 23, "int4"), &t), "NULL");
    assert_eq!(coerce_cell(&col("f", 701, "float8"), &CellInput::FloatText(None)), "NULL");
    assert_eq!(coerce_cell(&col("f", 701, "float8"), &raw(&[0; 8])), "NULL");
}

#[test]
fn text_decodes_accepted_types() {
    assert_eq!(coerce_cell(&col("t", 25, "text"), &raw(b"hello")), "hello");
    assert_eq!(coerce_cell(&col("t", 1043, "varchar"), &raw("olá".as_bytes())), "olá");
    assert_eq!(coerce_cell(&col("t", 99999, "citext"), &raw(b"Mixed")), "Mixed");
}

#[test]
fn mismatched_type_is_null() {
    // A boolean column is not decoded as text.
    assert_eq!(coerce_cell(&col("b", 16, "bool"), &raw(&[1])), "NULL");
    // Invalid UTF-8 in a text column.
    assert_eq!(coerce_cell(&col("t", 25, "text"), &raw(&[0xff, 0xfe])), "NULL");
}

#[test]
fn invalid_geometry_is_flagged() {
    assert_eq!(coerce_cell(&col("g", 90210, "geometry"), &raw(&[1, 2])), "GEOMETRY_INVALID");
}

#[test]
fn geometry_renders_its_debug_form() {
    // Little-endian EWKB point (1, 2) without SRID.
    let mut bytes = vec![1u8, 1, 0, 0, 0];
    bytes.extend_from_slice(&1.0f64.to_le_bytes());
    bytes.extend_from_slice(&2.0f64.to_le_bytes());
    let expected = format!(
        "{:?}",
        postgis::ewkb::Geometry::read_ewkb(&mut std::io::Cursor::new(&bytes)).unwrap()
    );
    let got = coerce_cell(&col("g", 90210, "geometry"), &CellInput::Raw(Some(bytes)));
    assert_eq!(got, expected);
    assert!(got.contains("1.0") && got.contains("2.0"));
}

#[test]
fn tabulate_without_rows_is_empty() {
    let cols = vec![col("a", 23, "int4")];
    let r = tabulate(&cols, &vec![]);
    assert!(r.headers.is_empty());
    assert!(r.rows.is_empty());
}

#[test]
fn tabulate_aligns_rows_with_headers() {
    let cols = vec![col("id", 23, "int4"), col("name", 25, "text")];
    let cells = vec![
        vec![raw(&[0, 0, 0, 1]), raw(b"ann")],
        vec![raw(&[0, 0, 0, 2]), CellInput::Raw(None)],
    ];
    let r = tabulate(&cols, &cells);
    assert_eq!(r.headers, vec!["id".to_string(), "name".to_string()]);
    assert_eq!(r.rows.len(), 2);
    for row in &r.rows {
        assert_eq!(row.len(), r.headers.len());
    }
    assert_eq!(r.rows[0], vec!["1".to_string(), "ann".to_string()]);
    assert_eq!(r.rows[1], vec!["2".to_string(), "NULL".to_string()]);
}

#[test]
fn fallback_tokens_by_kind() {
    assert_eq!(text_or_fallback(ColumnKind::Numeric, Some("1.25".to_string())), "1.25");
    assert_eq!(text_or_fallback(ColumnKind::Numeric, None), "NULL");
    assert_eq!(text_or_fallback(ColumnKind::Text, None), "NULL");
    assert_eq!(text_or_fallback(ColumnKind::Geometry, None), "GEOMETRY_INVALID");
}

#[test]
fn numeric_beyond_decimal_range_is_null() {
    // 1e32: one group (1) of weight 8.
    let e32 = [0, 1, 0, 8, 0, 0, 0, 0, 0, 1];
    assert!(numeric_header_overflows(&e32.to_vec()));
    assert_eq!(coerce_cell(&col("n", 1700, "numeric"), &raw(&e32)), "NULL");
    // 1e36: one group of weight 9.
    let e36 = [0, 1, 0, 9, 0, 0, 0, 0, 0, 1];
    assert_eq!(coerce_cell(&col("n", 1700, "numeric"), &raw(&e36)), "NULL");
    // 1e28 still decodes.
    let e28 = [0, 1, 0, 7, 0, 0, 0, 0, 0, 1];
    assert!(!numeric_header_overflows(&e28.to_vec()));
    assert_eq!(coerce_cell(&col("n", 1700, "numeric"), &raw(&e28)), "10000000000000000000000000000");
}

fn nested_collections(levels: usize) -> Vec<u8> {
    // Little-endian collection headers, each holding the next, around one point.
    let mut bytes = Vec::new();
    for _ in 0..levels {
        bytes.extend_from_slice(&[1, 7, 0, 0, 0, 1, 0, 0, 0]);
    }
    bytes.extend_from_slice(&[1, 1, 0, 0, 0]);
    bytes.extend_from_slice(&3.0f64.to_le_bytes());
    bytes.extend_from_slice(&4.0f64.to_le_bytes());
    bytes
}

fn debug_of(bytes: &[u8]) -> String {
    format!("{:?}", postgis::ewkb::Geometry::read_ewkb(&mut std::io::Cursor::new(bytes)).unwrap())
}

#[test]
fn deeply_nested_geometry_is_refused() {
    let deep = nested_collections(257);
    assert!(!ewkb_depth_within_bound(&deep));
    assert_eq!(coerce_cell(&col("g", 90210, "geometry"), &CellInput::Raw(Some(deep))), "GEOMETRY_INVALID");
}

#[test]
fn nesting_at_the_bound_is_rendered() {
    let at_bound = nested_collections(256);
    assert!(ewkb_depth_within_bound(&at_bound));
    let expected = debug_of(&at_bound);
    assert_eq!(coerce_cell(&col("g", 90210, "geometry"), &CellInput::Raw(Some(at_bound))), expected);
    let shallow = nested_collections(3);
    let expected = debug_of(&shallow);
    assert_eq!(coerce_cell(&col("g", 90210, "geometry"), &CellInput::Raw(Some(shallow))), expected);
}

#[test]
fn large_valid_geometry_is_rendered() {
    // A little-endian line of 5000 points whose coordinate bytes are all 7.
    let mut bytes = vec![1u8, 2, 0, 0, 0];
    bytes.extend_from_slice(&5000u32.to_le_bytes());
    bytes.extend(std::iter::repeat(7u8).take(5000 * 16));
    assert!(ewkb_depth_within_bound(&bytes));
    let expected = debug_of(&bytes);
    assert_ne!(expected, "GEOMETRY_INVALID");
    assert_eq!(coerce_cell(&col("g", 90210, "geometry"), &CellInput::Raw(Some(bytes))), expected);
}

#[test]
fn layouts_of_every_kind_are_followed() {
    // Big-endian polygon with SRID and Z: one ring of two points.
    let mut poly = vec![0u8];
    poly.extend_from_slice(&(0x8000_0000u32 | 0x2000_0000 | 3).to_be_bytes());
    poly.extend_from_slice(&4326i32.to_be_bytes());
    poly.extend_from_slice(&1u32.to_be_bytes());
    poly.extend_from_slice(&2u32.to_be_bytes());
    for v in [1.0f64, 2.0, 3.0, 4.0, 5.0, 6.0] {
        poly.extend_from_slice(&v.to_be_bytes());
    }
    // A collection holding a multi-point (two members) and that polygon.
    let mut coll = vec![1u8, 7, 0, 0, 0, 2, 0, 0, 0];
    coll.extend_from_slice(&[1, 4, 0, 0, 0, 2, 0, 0, 0]);
    for v in [1.0f64, 2.0] {
        coll.extend_from_slice(&[1, 1, 0, 0, 0]);
        coll.extend_from_slice(&v.to_le_bytes());
        coll.extend_from_slice(&v.to_le_bytes());
    }
    coll.extend_from_slice(&poly);
    assert!(ewkb_depth_within_bound(&coll));
    let expected = debug_of(&coll);
    assert_eq!(coerce_cell(&col("g", 90210, "geometry"), &CellInput::Raw(Some(coll))), expected);
}

#[test]
fn checked_tabulation_rejects_ragged_rows() {
    let cols = vec![col("id", 23, "int4"), col("name", 25, "text")];
    let ragged = vec![vec![raw(&[0, 0, 0, 1]), raw(b"ann")], vec![raw(&[0, 0, 0, 2])]];
    assert!(tabulate_checked(&cols, &ragged).is_none());
    let even = vec![vec![raw(&[0, 0, 0, 1]), raw(b"ann")]];
    let r = tabulate_checked(&cols, &even).unwrap();
    assert_eq!(r.rows, vec![vec!["1".to_string(), "ann".to_string()]]);
    assert!(tabulate_checked(&cols, &vec![]).unwrap().headers.is_empty());
}
