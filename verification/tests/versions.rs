use minecraft_map_tool::Error;
use minecraft_map_tool::ErrorKind;
use minecraft_map_tool::versions::CellStep;
use minecraft_map_tool::versions::TableCell;
use minecraft_map_tool::versions::TableRow;
use minecraft_map_tool::versions::XmlEvent;
use minecraft_map_tool::versions::find_version_table;
use minecraft_map_tool::versions::parse_i32;
use minecraft_map_tool::versions::parse_u32;
use minecraft_map_tool::versions::version_label;

#[test]
fn test_version_label_lookup() {
    let table = vec![(2699i32, "21w10a".to_string()), (2724i32, "1.17".to_string())];
    assert_eq!(version_label(&table, 2724), "1.17");
    assert_eq!(version_label(&table, 2699), "21w10a");
    assert_eq!(version_label(&table, 9999), "Unknown");
    assert_eq!(version_label(&vec![], 1), "Unknown");
}

#[test]
fn test_find_version_table() {
    let body = "intro List of data versions yes <table class=\"x\"><tr></tr></table> tail";
    let table = find_version_table(body).unwrap();
    assert_eq!(table, "<table class=\"x\"><tr></tr></table>");
}

#[test]
fn test_find_version_table_uses_last_heading() {
    let body = "List of data versions <table>A</table> List of data versions <table>B</table>";
    let table = find_version_table(body).unwrap();
    assert_eq!(table, "<table>B</table>");
}

#[test]
fn test_find_version_table_errors() {
    assert!(find_version_table("no heading here <table></table>").is_err());
    assert!(find_version_table("List of data versions but no markup").is_err());
    assert!(find_version_table("List of data versions <table> never closed").is_err());
}

#[test]
fn test_parse_i32() {
    assert_eq!(parse_i32("123"), Some(123));
    assert_eq!(parse_i32("-45"), Some(-45));
    assert_eq!(parse_i32("+7"), Some(7));
    assert_eq!(parse_i32("0"), Some(0));
    assert_eq!(parse_i32("007"), Some(7));
    assert_eq!(parse_i32(""), None);
    assert_eq!(parse_i32("-"), None);
    assert_eq!(parse_i32("12a"), None);
    assert_eq!(parse_i32(" 12"), None);
    assert_eq!(parse_i32("2147483647"), Some(i32::MAX));
    assert_eq!(parse_i32("2147483648"), None);
    assert_eq!(parse_i32("-2147483648"), Some(i32::MIN));
    assert_eq!(parse_i32("-2147483649"), None);
}

#[test]
fn test_parse_u32() {
    assert_eq!(parse_u32("0"), Some(0));
    assert_eq!(parse_u32("4294967295"), Some(u32::MAX));
    assert_eq!(parse_u32("4294967296"), None);
    assert_eq!(parse_u32("999999999999999999999999"), None);
    assert_eq!(parse_u32("-1"), None);
    assert_eq!(parse_u32(""), None);
}

#[test]
fn test_table_cell_reads_one_data_cell() {
    let mut cell = TableCell::new();
    assert!(!cell.begin());
    let mut td_found = false;
    assert!(matches!(
        cell.step(&mut td_found, &XmlEvent::Start("td".to_string(), None)),
        CellStep::More
    ));
    assert!(matches!(
        cell.step(&mut td_found, &XmlEvent::Text("1.17.1".to_string())),
        CellStep::More
    ));
    assert!(matches!(
        cell.step(&mut td_found, &XmlEvent::End("td".to_string())),
        CellStep::Done
    ));
    assert_eq!(cell.text, "1.17.1");
}

#[test]
fn test_table_cell_row_span_carries_over() {
    let mut cell = TableCell::new();
    let mut td_found = false;
    cell.step(&mut td_found, &XmlEvent::Start("td".to_string(), Some("3".to_string())));
    cell.step(&mut td_found, &XmlEvent::Text("1.17".to_string()));
    assert!(matches!(
        cell.step(&mut td_found, &XmlEvent::End("td".to_string())),
        CellStep::Done
    ));
    assert_eq!(cell.rowspan, 2);
    // The next two rows reuse the stored text without any events.
    assert!(cell.begin());
    assert_eq!(cell.text, "1.17");
    assert_eq!(cell.rowspan, 1);
    assert!(cell.begin());
    assert_eq!(cell.rowspan, 0);
    assert!(!cell.begin());
}

#[test]
fn test_table_cell_header_clears_text() {
    let mut cell = TableCell::new();
    let mut td_found = false;
    cell.text = "stale".to_string();
    assert!(matches!(
        cell.step(&mut td_found, &XmlEvent::End("th".to_string())),
        CellStep::Done
    ));
    assert_eq!(cell.text, "");
}

#[test]
fn test_table_cell_failures() {
    let mut cell = TableCell::new();
    let mut td_found = false;
    assert!(matches!(cell.step(&mut td_found, &XmlEvent::Eof), CellStep::Failed(_)));
    assert!(matches!(
        cell.step(&mut td_found, &XmlEvent::End("tr".to_string())),
        CellStep::Failed(_)
    ));
    assert!(matches!(
        cell.step(&mut td_found, &XmlEvent::End("td".to_string())),
        CellStep::Failed(_)
    ));
    cell.step(&mut td_found, &XmlEvent::Start("td".to_string(), None));
    assert!(matches!(
        cell.step(&mut td_found, &XmlEvent::Start("td".to_string(), None)),
        CellStep::Failed(_)
    ));
    let mut other = TableCell::new();
    let mut other_found = false;
    assert!(matches!(
        other.step(&mut other_found, &XmlEvent::Start("td".to_string(), Some("x".to_string()))),
        CellStep::Failed(_)
    ));
}

#[test]
fn test_table_cell_ignores_other_elements() {
    let mut cell = TableCell::new();
    let mut td_found = false;
    assert!(matches!(
        cell.step(&mut td_found, &XmlEvent::Start("span".to_string(), None)),
        CellStep::More
    ));
    assert!(matches!(
        cell.step(&mut td_found, &XmlEvent::End("span".to_string())),
        CellStep::More
    ));
    assert!(matches!(
        cell.step(&mut td_found, &XmlEvent::Text("outside".to_string())),
        CellStep::More
    ));
    assert_eq!(cell.text, "");
}

#[test]
fn test_table_row_parse_line() {
    let mut row = TableRow::new();
    row.cells[0].text = "21w10a".to_string();
    row.cells[1].text = "whatever".to_string();
    row.cells[2].text = "2699".to_string();
    let info = row.parse_line().unwrap();
    assert_eq!(info.client_version, "21w10a");
    assert_eq!(info.data_version, 2699);
}

#[test]
fn test_table_row_parse_line_errors() {
    let mut row = TableRow::new();
    row.cells[2].text = "2699".to_string();
    assert_eq!(row.parse_line().unwrap_err(), "Client version is empty");
    row.cells[0].text = "21w10a".to_string();
    row.cells[2].text = "not a number".to_string();
    assert_eq!(row.parse_line().unwrap_err(), "Could not parse data version");
}

#[test]
fn test_error_messages() {
    assert_eq!(Error::new(ErrorKind::IncompleteBufferError).message(), "Color buffer incomplete");
    assert_eq!(Error::new(ErrorKind::IoError("no such file".to_string())).message(), "no such file");
    assert_eq!(Error::new(ErrorKind::GeometryError("bad box")).message(), "bad box");
    assert_eq!(Error::map_item_error("oops").message(), "oops");
}
