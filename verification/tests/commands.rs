use rsheet::{CellStore, CellValue, CommandRunner, Reply, RSheet};

fn num(v: f64) -> Reply {
    Reply::Value(CellValue::Number(v.to_bits()))
}

#[test]
fn test_rsheet() {
    let mut rsheet = RSheet::new();

    let reply = rsheet.handle_command(b"set A1 1");
    assert_eq!(reply, Reply::Okay);

    let reply = rsheet.handle_command(b"set B1 2");
    assert_eq!(reply, Reply::Okay);

    let reply = rsheet.handle_command(b"set C1 A1+B1");
    assert_eq!(reply, Reply::Okay);

    let reply = rsheet.handle_command(b"get A1");
    assert_eq!(reply, num(1.0));

    let reply = rsheet.handle_command(b"get B1");
    assert_eq!(reply, num(2.0));

    let reply = rsheet.handle_command(b"get C1");
    assert_eq!(reply, num(3.0));

    let reply = rsheet.handle_command(b"set D1 A1*B1");
    assert_eq!(reply, Reply::Okay);

    let reply = rsheet.handle_command(b"get D1");
    assert_eq!(reply, num(2.0));

    let reply = rsheet.handle_command(b"set E1 D1/C1");
    assert_eq!(reply, Reply::Okay);

    let reply = rsheet.handle_command(b"get E1");
    assert_eq!(reply, num(2.0 / 3.0));

    let reply = rsheet.handle_command(b"set F1 C1-A1");
    assert_eq!(reply, Reply::Okay);

    let reply = rsheet.handle_command(b"get F1");
    assert_eq!(reply, num(2.0));

    let reply = rsheet.handle_command(b"set G1 1/0");
    assert_eq!(reply, Reply::Error(b"Division by zero".to_vec()));

    let reply = rsheet.handle_command(b"set J1 1+2*3");
    assert_eq!(reply, Reply::Okay);
}

#[test]
fn numeric_literals_round_trip_through_cells() {
    let literals: Vec<f64> = vec![0.0, -0.0, 1.0, -1.5, 2.5, 1e10, 1e-10, 12345.6789];
    let mut sheet = RSheet::new();
    for (i, v) in literals.iter().enumerate() {
        let set = format!("set C{} {}", i, v);
        assert_eq!(sheet.handle_command(set.as_bytes()), Reply::Okay);
        let get = format!("get C{}", i);
        assert_eq!(sheet.handle_command(get.as_bytes()), num(*v));
    }
}

#[test]
fn addition_of_two_cells() {
    let mut sheet = RSheet::new();
    assert_eq!(sheet.handle_command(b"set A 1"), Reply::Okay);
    assert_eq!(sheet.handle_command(b"set B 2"), Reply::Okay);
    assert_eq!(sheet.handle_command(b"set C A+B"), Reply::Okay);
    assert_eq!(sheet.handle_command(b"get C"), num(3.0));
}

#[test]
fn multiplication_of_two_cells() {
    let mut sheet = RSheet::new();
    assert_eq!(sheet.handle_command(b"set A 1"), Reply::Okay);
    assert_eq!(sheet.handle_command(b"set B 2"), Reply::Okay);
    assert_eq!(sheet.handle_command(b"set D A*B"), Reply::Okay);
    assert_eq!(sheet.handle_command(b"get D"), num(2.0));
}

#[test]
fn division_of_derived_cells() {
    let mut sheet = RSheet::new();
    assert_eq!(sheet.handle_command(b"set A 1"), Reply::Okay);
    assert_eq!(sheet.handle_command(b"set B 2"), Reply::Okay);
    assert_eq!(sheet.handle_command(b"set C A+B"), Reply::Okay);
    assert_eq!(sheet.handle_command(b"set D A*B"), Reply::Okay);
    assert_eq!(sheet.handle_command(b"set E D/C"), Reply::Okay);
    assert_eq!(sheet.handle_command(b"get E"), num(2.0 / 3.0));
}

#[test]
fn division_by_zero_creates_no_cell() {
    let mut sheet = RSheet::new();
    assert_eq!(
        sheet.handle_command(b"set G 1/0"),
        Reply::Error(b"Division by zero".to_vec())
    );
    assert_eq!(
        sheet.handle_command(b"get G"),
        Reply::Value(CellValue::Error(b"Cell G not found".to_vec()))
    );
}

#[test]
fn get_on_empty_store_is_value_shaped_miss() {
    let mut sheet = RSheet::new();
    assert_eq!(
        sheet.handle_command(b"get Z"),
        Reply::Value(CellValue::Error(b"Cell Z not found".to_vec()))
    );
}

#[test]
fn two_token_set_is_invalid_and_leaves_store_alone() {
    let mut sheet = RSheet::new();
    assert_eq!(
        sheet.handle_command(b"set A"),
        Reply::Error(b"Invalid command format".to_vec())
    );
    assert_eq!(
        sheet.handle_command(b"get A"),
        Reply::Value(CellValue::Error(b"Cell A not found".to_vec()))
    );
}

#[test]
fn undefined_operand_fails_the_operation() {
    let mut sheet = RSheet::new();
    assert_eq!(
        sheet.handle_command(b"set X Y+1"),
        Reply::Error(b"Invalid operands for addition".to_vec())
    );
    assert_eq!(
        sheet.handle_command(b"set X Y-1"),
        Reply::Error(b"Invalid operands for subtraction".to_vec())
    );
    assert_eq!(
        sheet.handle_command(b"set X Y*1"),
        Reply::Error(b"Invalid operands for multiplication".to_vec())
    );
    assert_eq!(
        sheet.handle_command(b"set X Y/1"),
        Reply::Error(b"Invalid operands for division".to_vec())
    );
    assert_eq!(
        sheet.handle_command(b"get X"),
        Reply::Value(CellValue::Error(b"Cell X not found".to_vec()))
    );
}

#[test]
fn unsupported_expression_is_refused() {
    let mut sheet = RSheet::new();
    assert_eq!(
        sheet.handle_command(b"set K 1++2"),
        Reply::Error(b"Unsupported expression format: 1++2".to_vec())
    );
    assert_eq!(
        sheet.handle_command(b"frobnicate A 1"),
        Reply::Error(b"Invalid command format".to_vec())
    );
    assert_eq!(
        sheet.handle_command(b""),
        Reply::Error(b"Invalid command format".to_vec())
    );
    assert_eq!(
        sheet.handle_command(b"   "),
        Reply::Error(b"Invalid command format".to_vec())
    );
}

#[test]
fn only_first_operator_pattern_is_evaluated() {
    let mut sheet = RSheet::new();
    assert_eq!(sheet.handle_command(b"set J 1+2*3"), Reply::Okay);
    assert_eq!(sheet.handle_command(b"get J"), num(3.0));
}

#[test]
fn negative_zero_divisor_is_caught() {
    let mut sheet = RSheet::new();
    assert_eq!(sheet.handle_command(b"set Z -0.0"), Reply::Okay);
    assert_eq!(
        sheet.handle_command(b"set Q 1/Z"),
        Reply::Error(b"Division by zero".to_vec())
    );
}

#[test]
fn evaluator_accepts_whitespace_around_the_operator() {
    let store = CellStore::new();
    let runner = CommandRunner::new(&store);
    assert_eq!(runner.run(b"1 + 2"), CellValue::Number(3.0f64.to_bits()));
    assert_eq!(runner.run(b"4/2"), CellValue::Number(2.0f64.to_bits()));
    assert_eq!(runner.run(b"7"), CellValue::Number(7.0f64.to_bits()));
    assert_eq!(
        runner.run(b"x%y"),
        CellValue::Error(b"Unsupported expression format: x%y".to_vec())
    );
}

#[test]
fn overwrites_keep_stale_snapshots() {
    let mut sheet = RSheet::new();
    assert_eq!(sheet.handle_command(b"set A 1"), Reply::Okay);
    assert_eq!(sheet.handle_command(b"set B A+A"), Reply::Okay);
    assert_eq!(sheet.handle_command(b"set A 10"), Reply::Okay);
    assert_eq!(sheet.handle_command(b"get B"), num(2.0));
    assert_eq!(sheet.handle_command(b"get A"), num(10.0));
}
