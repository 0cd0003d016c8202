use rarscanner::record::DiscoveredFile;
use rarscanner::render::render_rows;
use rarscanner::table::{build_table, files_table, report_text};

fn file(path: &str, size: u64) -> DiscoveredFile {
    DiscoveredFile { path: path.as_bytes().to_vec(), size, modified: None }
}

#[test]
fn table_has_one_row_per_file_in_order() {
    let rows = render_rows(&vec![file("A/x.rar", 10), file("B/z.RAR", 2048)]);
    let table = build_table(&rows);
    assert_eq!(table.row_count(), 2);
    let cells = |i: usize| -> Vec<String> {
        table.row(i).unwrap().cell_iter().map(|c| c.content()).collect()
    };
    assert_eq!(cells(0), vec!["A/x.rar", "10 B", "-"]);
    assert_eq!(cells(1), vec!["B/z.RAR", "2 KiB", "-"]);
    let header: Vec<String> = table.header().unwrap().cell_iter().map(|c| c.content()).collect();
    assert_eq!(header, vec!["Fil", "Storlek", "Ändrad"]);
}

#[test]
fn empty_report_has_a_header_only() {
    let table = build_table(&Vec::new());
    assert_eq!(table.row_count(), 0);
    assert!(table.header().is_some());
}

#[test]
fn report_lists_files_in_the_given_order() {
    let text = report_text(&vec![file("A/x.rar", 10), file("B/z.RAR", 20)]);
    let a = text.find("A/x.rar").expect("first file");
    let b = text.find("B/z.RAR").expect("second file");
    assert!(a < b);
    assert!(text.contains("10 B"));
    assert!(text.contains("20 B"));
    assert!(text.contains("Storlek"));
    assert!(text.contains('┌'));
}

#[test]
fn report_is_the_drawing_of_the_files_table() {
    let files = vec![file("A/x.rar", 10), file("B/z.RAR", 20)];
    let text = report_text(&files);
    assert_eq!(text, files_table(&files).to_string());
    assert_eq!(text, build_table(&render_rows(&files)).to_string());
    assert_eq!(text, report_text(&files));
}

#[test]
fn files_table_shows_each_file_in_its_row() {
    let table = files_table(&vec![file("B/z.RAR", 1536), file("A/x.rar", 10)]);
    assert_eq!(table.row_count(), 2);
    let cells = |i: usize| -> Vec<String> {
        table.row(i).unwrap().cell_iter().map(|c| c.content()).collect()
    };
    assert_eq!(cells(0), vec!["B/z.RAR", "1.50 KiB", "-"]);
    assert_eq!(cells(1), vec!["A/x.rar", "10 B", "-"]);
    let header: Vec<String> = table.header().unwrap().cell_iter().map(|c| c.content()).collect();
    assert_eq!(header, vec!["Fil", "Storlek", "Ändrad"]);
}

#[test]
fn report_of_one_file_is_drawn_with_full_borders() {
    let text = report_text(&vec![file("A/x.rar", 10)]);
    let expected = [
        "┌─────────┬─────────┬────────┐",
        "│ Fil     ┆ Storlek ┆ Ändrad │",
        "╞═════════╪═════════╪════════╡",
        "│ A/x.rar ┆    10 B ┆    -   │",
        "└─────────┴─────────┴────────┘",
    ]
    .join("\n");
    assert_eq!(text, expected);
}
