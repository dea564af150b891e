use contest_scaffold::errors::ExtractionError;
use contest_scaffold::pages::{
    extract_samples, extract_task_urls, PreBlock, PrevSibling, SamplePair, Table, TableCell,
    TableRow, TasksPage,
};

fn header(texts: &[&str]) -> Vec<Option<String>> {
    texts.iter().map(|t| Some(t.to_string())).collect()
}

fn linked_row(cells: &[Option<&str>]) -> TableRow {
    TableRow {
        cells: cells.iter().map(|c| TableCell { link: c.map(|s| s.to_string()) }).collect(),
    }
}

fn task_table(n_rows: usize) -> Table {
    let mut rows = Vec::new();
    for i in 0..n_rows {
        let link = format!("/contests/abc100/tasks/abc100_{}", i + 1);
        rows.push(linked_row(&[None, Some(&link), None]));
    }
    Table { headers: header(&["No.", "Task Name", "Time Limit"]), rows }
}

fn urls_of(page: &TasksPage) -> Result<Vec<String>, ExtractionError> {
    extract_task_urls(page)
}

#[test]
fn task_urls_come_in_row_order_resolved_to_the_host() {
    let page = TasksPage { tables: vec![task_table(3)] };
    let urls = urls_of(&page).unwrap();
    assert_eq!(
        urls,
        vec![
            "https://atcoder.jp/contests/abc100/tasks/abc100_1",
            "https://atcoder.jp/contests/abc100/tasks/abc100_2",
            "https://atcoder.jp/contests/abc100/tasks/abc100_3",
        ]
    );
}

#[test]
fn the_native_header_label_is_recognized_too() {
    let table = Table {
        headers: header(&["問題名"]),
        rows: vec![linked_row(&[Some("/contests/x/tasks/x_a")])],
    };
    let urls = urls_of(&TasksPage { tables: vec![table] }).unwrap();
    assert_eq!(urls, vec!["https://atcoder.jp/contests/x/tasks/x_a"]);
}

#[test]
fn the_first_recognized_table_wins() {
    let decoy = Table {
        headers: header(&["Rank", "Score"]),
        rows: vec![linked_row(&[Some("/should/not/appear")])],
    };
    let page = TasksPage { tables: vec![decoy, task_table(2)] };
    let urls = urls_of(&page).unwrap();
    assert_eq!(urls.len(), 2);
    assert_eq!(urls[0], "https://atcoder.jp/contests/abc100/tasks/abc100_1");
}

#[test]
fn a_page_without_a_recognized_table_is_a_layout_error() {
    let decoy = Table { headers: header(&["Rank", "Score"]), rows: vec![] };
    assert_eq!(urls_of(&TasksPage { tables: vec![decoy] }), Err(ExtractionError::LayoutNotFound));
    assert_eq!(urls_of(&TasksPage { tables: vec![] }), Err(ExtractionError::LayoutNotFound));
    assert_eq!(ExtractionError::LayoutNotFound.value(), "EOF");
}

#[test]
fn a_header_cell_with_no_text_is_skipped() {
    let table = Table {
        headers: vec![None, Some("Task Name".to_string())],
        rows: vec![linked_row(&[None, Some("/contests/y/tasks/y_a")])],
    };
    let urls = urls_of(&TasksPage { tables: vec![table] }).unwrap();
    assert_eq!(urls, vec!["https://atcoder.jp/contests/y/tasks/y_a"]);
}

#[test]
fn a_row_without_a_link_in_the_chosen_column_is_a_layout_error() {
    let table = Table {
        headers: header(&["Task Name"]),
        rows: vec![linked_row(&[Some("/a")]), linked_row(&[None])],
    };
    assert_eq!(urls_of(&TasksPage { tables: vec![table] }), Err(ExtractionError::LayoutNotFound));

    let short = Table {
        headers: header(&["No.", "Task Name"]),
        rows: vec![linked_row(&[Some("/only-one-cell")])],
    };
    assert_eq!(urls_of(&TasksPage { tables: vec![short] }), Err(ExtractionError::LayoutNotFound));
}

fn marked(marker: &str, text: &str) -> PreBlock {
    PreBlock {
        prev: Some(PrevSibling { tag: "h3".to_string(), first_text: Some(marker.to_string()) }),
        text: text.to_string(),
    }
}

fn pairs(blocks: &Vec<PreBlock>) -> Vec<(String, String)> {
    extract_samples(blocks).into_iter().map(|p: SamplePair| (p.input, p.output)).collect()
}

#[test]
fn four_marked_blocks_pair_in_order() {
    let blocks = vec![
        marked("入力例 1", "1 2\n"),
        marked("出力例 1", "3\n"),
        marked("入力例 2", "5 8\n"),
        marked("出力例 2", "13\n"),
    ];
    assert_eq!(
        pairs(&blocks),
        vec![
            ("1 2\n".to_string(), "3\n".to_string()),
            ("5 8\n".to_string(), "13\n".to_string()),
        ]
    );
}

#[test]
fn an_unpaired_trailing_block_is_dropped() {
    let blocks = vec![
        marked("入力例 1", "1\n"),
        marked("出力例 1", "2\n"),
        marked("入力例 2", "3\n"),
    ];
    assert_eq!(pairs(&blocks), vec![("1\n".to_string(), "2\n".to_string())]);
}

#[test]
fn english_markers_are_recognized_too() {
    let blocks = vec![marked("Input Example 1", "in\n"), marked("Output Example 1", "out\n")];
    assert_eq!(pairs(&blocks), vec![("in\n".to_string(), "out\n".to_string())]);
}

#[test]
fn unmarked_blocks_are_ignored() {
    let plain = PreBlock { prev: None, text: "code sample\n".to_string() };
    let wrong_tag = PreBlock {
        prev: Some(PrevSibling { tag: "p".to_string(), first_text: Some("入力例".to_string()) }),
        text: "not a sample\n".to_string(),
    };
    let no_text = PreBlock {
        prev: Some(PrevSibling { tag: "h3".to_string(), first_text: None }),
        text: "not a sample\n".to_string(),
    };
    let other_heading = marked("制約", "constraints\n");
    let blocks = vec![
        plain,
        marked("入力例 1", "1\n"),
        wrong_tag,
        no_text,
        marked("出力例 1", "2\n"),
        other_heading,
    ];
    assert_eq!(pairs(&blocks), vec![("1\n".to_string(), "2\n".to_string())]);
}

#[test]
fn a_page_with_no_samples_yields_nothing() {
    assert_eq!(pairs(&vec![]).len(), 0);
    let blocks = vec![PreBlock { prev: None, text: "x".to_string() }];
    assert_eq!(pairs(&blocks).len(), 0);
}

#[test]
fn extraction_is_idempotent() {
    let blocks = vec![
        marked("入力例 1", "a b c\n"),
        marked("出力例 1", "d\n"),
        marked("入力例 2", "e\n"),
        marked("出力例 2", "f\n"),
        marked("入力例 3", "dangling\n"),
    ];
    assert_eq!(pairs(&blocks), pairs(&blocks));
}
