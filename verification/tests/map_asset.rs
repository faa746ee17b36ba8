use pseudo3d::resources::types::map::{MapAsset, MapError};

#[test]
fn parses_rows_skipping_blank_and_comment_lines() {
    let text = "; demo\n###\n#.#\n\n###\n";
    let map = MapAsset::parse(text).expect("valid map");
    assert_eq!(map.width, 3);
    assert_eq!(map.height, 3);
    assert_eq!(map.cell(0, 0), 1);
    assert_eq!(map.cell(1, 1), 0);
    assert_eq!(map.cell(2, 1), 1);
    assert_eq!(map.cells_r8(), vec![255, 255, 255, 255, 0, 255, 255, 255, 255]);
}

#[test]
fn trailing_white_space_and_crlf_are_trimmed() {
    let map = MapAsset::parse("#0 \r\n1. \t\r\n").expect("valid map");
    assert_eq!(map.width, 2);
    assert_eq!(map.height, 2);
    assert_eq!(map.cell(0, 0), 1);
    assert_eq!(map.cell(1, 0), 0);
    assert_eq!(map.cell(0, 1), 1);
    assert_eq!(map.cell(1, 1), 0);
}

#[test]
fn spaces_inside_a_row_are_floor_and_unknown_characters_are_walls() {
    let map = MapAsset::parse("# x#\n").expect("valid map");
    assert_eq!(map.width, 4);
    assert_eq!(map.cell(1, 0), 0);
    assert_eq!(map.cell(2, 0), 1);
}

#[test]
fn a_last_line_without_line_feed_is_a_row() {
    let map = MapAsset::parse("##\n..").expect("valid map");
    assert_eq!(map.height, 2);
    assert_eq!(map.cell(0, 1), 0);
}

#[test]
fn text_without_rows_is_refused() {
    assert_eq!(MapAsset::parse("").unwrap_err(), MapError::NoRows);
    assert_eq!(MapAsset::parse("; only a comment\n\n   \n").unwrap_err(), MapError::NoRows);
}

#[test]
fn rows_of_different_width_are_refused_at_the_first() {
    let err = MapAsset::parse("###\n##\n#\n").unwrap_err();
    assert_eq!(
        err,
        MapError::RowWidth {
            index: 1,
            width: 2,
            expected: 3
        }
    );
}

#[test]
fn outside_the_grid_is_wall() {
    let map = MapAsset::parse("#.#\n...\n").expect("valid map");
    assert!(map.is_wall_at(-1, 0));
    assert!(map.is_wall_at(0, -1));
    assert!(map.is_wall_at(3, 0));
    assert!(map.is_wall_at(0, 2));
    assert!(map.is_wall_at(0, 0));
    assert!(!map.is_wall_at(1, 0));
    assert!(!map.is_wall_at(2, 1));
}

#[test]
fn getters_give_the_grid_size() {
    let map = MapAsset::parse("; header\n#.#.\n....\n#..#\n").expect("valid map");
    assert_eq!(map.width(), 4);
    assert_eq!(map.height(), 3);
    assert_eq!(map.width(), map.width);
    assert_eq!(map.height(), map.height);
}

#[test]
fn cell_reads_the_grid_row_after_row() {
    let map = MapAsset::parse("#.\n.#\n").expect("valid map");
    // Column 2 of row 0 is cell 2 of the grid, which is the first of row 1.
    assert_eq!(map.cell(2, 0), 0);
    assert_eq!(map.cell(3, 0), 1);
}

#[test]
fn comment_lines_do_not_count_toward_the_map() {
    let mut text = String::new();
    for _ in 0..1000 {
        text.push_str("; a long comment line that holds no row at all\n");
    }
    text.push_str("##\n#.\n");
    let map = MapAsset::parse(&text).expect("valid map");
    assert_eq!((map.width(), map.height()), (2, 2));
    assert_eq!(map.cell(1, 1), 0);
}
