use rsheet::codec::{
    cell_id_to_string, col_number_to_letters, expand_range, parse_cell_id, split_range_token,
    CellCoord,
};

fn coord(col: u32, row: u32) -> CellCoord {
    CellCoord { col, row }
}

#[test]
fn column_letters_follow_spreadsheet_convention() {
    assert_eq!(col_number_to_letters(0), "A");
    assert_eq!(col_number_to_letters(25), "Z");
    assert_eq!(col_number_to_letters(26), "AA");
    assert_eq!(col_number_to_letters(27), "AB");
    assert_eq!(col_number_to_letters(701), "ZZ");
    assert_eq!(col_number_to_letters(702), "AAA");
}

#[test]
fn encoding_gives_canonical_keys() {
    assert_eq!(cell_id_to_string(&coord(0, 0)), "A1");
    assert_eq!(cell_id_to_string(&coord(1, 1)), "B2");
    assert_eq!(cell_id_to_string(&coord(25, 9)), "Z10");
    assert_eq!(cell_id_to_string(&coord(27, 12)), "AB13");
}

#[test]
fn parsing_inverts_encoding() {
    // The round-trip law on a spread of coordinates, the extremes included.
    let samples = [
        coord(0, 0),
        coord(25, 0),
        coord(26, 41),
        coord(701, 99),
        coord(702, 1_000_000),
        coord(u32::MAX, u32::MAX),
    ];
    for c in samples {
        let key = cell_id_to_string(&c);
        assert_eq!(parse_cell_id(&key), Some(c));
    }
}

#[test]
fn encoding_is_injective_on_samples() {
    let mut keys = Vec::new();
    for col in 0..40u32 {
        for row in 0..40u32 {
            keys.push(cell_id_to_string(&coord(col, row)));
        }
    }
    let n = keys.len();
    keys.sort();
    keys.dedup();
    assert_eq!(keys.len(), n);
}

#[test]
fn parsing_accepts_lower_case_and_leading_zeros() {
    assert_eq!(parse_cell_id("a1"), Some(coord(0, 0)));
    assert_eq!(parse_cell_id("A01"), Some(coord(0, 0)));
    assert_eq!(parse_cell_id("aB2"), Some(coord(27, 1)));
}

#[test]
fn parsing_rejects_malformed_tokens() {
    assert_eq!(parse_cell_id(""), None);
    assert_eq!(parse_cell_id("A"), None);
    assert_eq!(parse_cell_id("1"), None);
    assert_eq!(parse_cell_id("A0"), None);
    assert_eq!(parse_cell_id("A-1"), None);
    assert_eq!(parse_cell_id("A99999999999999999999"), None);
    // A letter after a digit is malformed, never mis-keyed.
    assert_eq!(parse_cell_id("1A"), None);
    assert_eq!(parse_cell_id("A1B2"), None);
}

#[test]
fn range_expansion_same_row_is_horizontal() {
    assert_eq!(
        expand_range(&coord(0, 4), &coord(2, 4)),
        vec![coord(0, 4), coord(1, 4), coord(2, 4)]
    );
}

#[test]
fn range_expansion_same_column_is_vertical() {
    assert_eq!(
        expand_range(&coord(3, 0), &coord(3, 2)),
        vec![coord(3, 0), coord(3, 1), coord(3, 2)]
    );
}

#[test]
fn range_expansion_rectangle_is_row_major() {
    assert_eq!(
        expand_range(&coord(0, 0), &coord(1, 1)),
        vec![coord(0, 0), coord(1, 0), coord(0, 1), coord(1, 1)]
    );
}

#[test]
fn range_expansion_reversed_endpoints_is_empty() {
    assert_eq!(expand_range(&coord(5, 5), &coord(0, 0)), vec![]);
}

#[test]
fn range_tokens_split_into_endpoints() {
    assert_eq!(split_range_token("A1_B2"), Some((coord(0, 0), coord(1, 1))));
    assert_eq!(split_range_token("A1"), None);
    assert_eq!(split_range_token("A1_B2_C3"), None);
    assert_eq!(split_range_token("A1_"), None);
    assert_eq!(split_range_token("_B2"), None);
}
