use tabular::CellText;
use tabular::Tabular;
use tabular::get_col_size_map;
use tabular::pad_left;
use tabular::pad_right;
use tabular::tabular as render;

struct CustomStruct<'a> {
    a: &'a str,
}

impl<'a> CellText for CustomStruct<'a> {
    fn cell_text(&self) -> vstd::seq::Seq<char> {
        unreachable!()
    }

    fn to_cell_text(&self) -> String {
        self.a.to_string()
    }
}

#[test]
fn test_tabular_str() {
    let input_data = vec![vec!["A", "B", "C"], vec!["D", "E", "F"]];
    let expected = "A B C\nD E F";
    assert_eq!(input_data.to_table(), expected);
}

#[test]
fn test_tabular_string() {
    let input_data = vec![
        vec![String::from("A"), String::from("B"), String::from("C")],
        vec![String::from("D"), String::from("E"), String::from("F")],
    ];
    let expected = "A B C\nD E F";
    assert_eq!(input_data.to_table(), expected);
}

#[test]
fn test_tabular_number() {
    let input_data = vec![vec![1, 2, 3], vec![4, 5, 6]];
    let expected = "1 2 3\n4 5 6";
    assert_eq!(input_data.to_table(), expected);
}

#[test]
fn test_tabular_custom_struct() {
    let input_data = vec![
        vec![
            CustomStruct { a: "A" },
            CustomStruct { a: "B" },
            CustomStruct { a: "C" },
        ],
        vec![
            CustomStruct { a: "D" },
            CustomStruct { a: "E" },
            CustomStruct { a: "F" },
        ],
    ];
    let expected = "A B C\nD E F";
    assert_eq!(input_data.to_table(), expected);
}

#[test]
fn test_tabular_max_col_size() {
    let input_data = vec![vec!["ABC", "B ", "C"], vec!["D", "EF", "F"]];
    let expected = "ABC B  C\nD   EF F";
    assert_eq!(input_data.to_table(), expected);
}

#[test]
fn test_empty_table() {
    let input_data: Vec<Vec<String>> = vec![];
    assert_eq!(input_data.to_table(), "");
}

#[test]
fn test_single_cell() {
    let input_data = vec![vec!["X"]];
    assert_eq!(input_data.to_table(), "X");
}

#[test]
fn test_multi_digit_numbers() {
    let input_data: Vec<Vec<u64>> = vec![vec![7, 1000], vec![12345, 9]];
    let expected = "7     1000\n12345 9   ";
    assert_eq!(input_data.to_table(), expected);
}

#[test]
fn test_empty_row_renders_blank_line() {
    let input_data: Vec<Vec<&str>> = vec![vec![], vec!["A"]];
    assert_eq!(input_data.to_table(), "\nA");
}

#[test]
fn test_rectangular_lines_have_equal_length() {
    let input_data = vec![
        vec!["alpha", "b", "gamma"],
        vec!["d", "epsilon", "f"],
        vec!["eta", "theta", "i"],
    ];
    let rendered = input_data.to_table();
    let lines: Vec<&str> = rendered.split('\n').collect();
    assert_eq!(lines.len(), 3);
    assert_eq!(lines[0].len(), lines[1].len());
    assert_eq!(lines[1].len(), lines[2].len());
}

#[test]
fn test_single_char_cells_no_extra_padding() {
    let input_data = vec![vec!["A", "B"], vec!["C", "D"], vec!["E", "F"]];
    assert_eq!(input_data.to_table(), "A B\nC D\nE F");
}

#[test]
fn test_custom_type_matches_string_table() {
    let custom = vec![
        vec![CustomStruct { a: "long" }, CustomStruct { a: "x" }],
        vec![CustomStruct { a: "y" }, CustomStruct { a: "wide" }],
    ];
    let strings = vec![
        vec![String::from("long"), String::from("x")],
        vec![String::from("y"), String::from("wide")],
    ];
    assert_eq!(custom.to_table(), strings.to_table());
}

#[test]
fn test_free_function_matches_trait_method() {
    let input_data = vec![vec!["A", "BB"], vec!["CCC", "D"]];
    assert_eq!(render(&input_data), input_data.to_table());
}

#[test]
fn test_scanner_widths() {
    let input_data = vec![vec!["ABC", "B ", "C"], vec!["D", "EF", "F"]];
    let m = get_col_size_map(&input_data);
    assert_eq!(m.get(&0), Some(&3));
    assert_eq!(m.get(&1), Some(&2));
    assert_eq!(m.get(&2), Some(&1));
    assert_eq!(m.get(&3), None);
}

#[test]
fn test_scanner_ragged_rows() {
    let input_data = vec![vec!["A"], vec!["BB", "CCC"]];
    let m = get_col_size_map(&input_data);
    assert_eq!(m.get(&0), Some(&2));
    assert_eq!(m.get(&1), Some(&3));
}

#[test]
fn test_scanner_empty_table_yields_empty_map() {
    let input_data: Vec<Vec<u64>> = vec![];
    let m = get_col_size_map(&input_data);
    assert!(m.is_empty());
}

#[test]
fn test_scanner_idempotent() {
    let input_data = vec![vec!["ABC", "B ", "C"], vec!["D", "EF", "F"]];
    let first = get_col_size_map(&input_data);
    let second = get_col_size_map(&input_data);
    assert_eq!(first, second);
}

#[test]
fn test_pad_right_appends_spaces() {
    assert_eq!(pad_right(&"A", &3), "A  ");
    assert_eq!(pad_right(&"A", &1), "A");
    assert_eq!(pad_right(&7u64, &4), "7   ");
}

#[test]
fn test_pad_left_prepends_spaces() {
    assert_eq!(pad_left(&"A", &3), "  A");
    assert_eq!(pad_left(&"A", &1), "A");
    assert_eq!(pad_left(&7u64, &4), "   7");
}

#[test]
fn test_number_text_exact() {
    assert_eq!(0u64.to_cell_text(), "0");
    assert_eq!(10u64.to_cell_text(), "10");
    assert_eq!(90807u64.to_cell_text(), "90807");
    assert_eq!(18446744073709551615u64.to_cell_text(), "18446744073709551615");
}
