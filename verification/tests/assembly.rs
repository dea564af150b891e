use contest_scaffold::contests::Contests;
use contest_scaffold::errors::AssemblyError;
use contest_scaffold::pages::{
    extract_samples, PreBlock, PrevSibling, SamplePair, Table, TableCell, TableRow, TasksPage,
};
use contest_scaffold::scaffold::{harness_source, plan_contest, plan_problem_files, FileSpec};
use contest_scaffold::text::{dec_str, split_lines};

fn tasks_page(n_rows: usize) -> TasksPage {
    let mut rows = Vec::new();
    for i in 0..n_rows {
        rows.push(TableRow {
            cells: vec![
                TableCell { link: None },
                TableCell { link: Some(format!("/contests/abc100/tasks/abc100_{}", i + 1)) },
            ],
        });
    }
    let table = Table {
        headers: vec![Some("No.".to_string()), Some("Task Name".to_string())],
        rows,
    };
    TasksPage { tables: vec![table] }
}

#[test]
fn a_matching_task_list_pairs_labels_with_urls() {
    let slots = plan_contest(&Contests::S_ABC.problem_names(), &tasks_page(4)).unwrap();
    let labels: Vec<&str> = slots.iter().map(|s| s.label.as_str()).collect();
    assert_eq!(labels, vec!["a", "b", "c", "d"]);
    assert_eq!(slots[0].url, "https://atcoder.jp/contests/abc100/tasks/abc100_1");
    assert_eq!(slots[3].url, "https://atcoder.jp/contests/abc100/tasks/abc100_4");
}

#[test]
fn too_few_urls_is_a_mismatch() {
    assert!(matches!(
        plan_contest(&Contests::S_ABC.problem_names(), &tasks_page(3)),
        Err(AssemblyError::TaskListMismatch)
    ));
}

#[test]
fn too_many_urls_is_a_mismatch() {
    assert!(matches!(
        plan_contest(&Contests::S_ABC.problem_names(), &tasks_page(5)),
        Err(AssemblyError::TaskListMismatch)
    ));
}

#[test]
fn an_unrecognizable_page_fails_the_plan() {
    let page = TasksPage { tables: vec![] };
    assert!(matches!(
        plan_contest(&Contests::S_ABC.problem_names(), &page),
        Err(AssemblyError::LayoutNotFound)
    ));
}

fn sample(input: &str, output: &str) -> SamplePair {
    SamplePair { input: input.to_string(), output: output.to_string() }
}

#[test]
fn problem_files_are_numbered_pairs_plus_the_harness() {
    let samples = vec![sample("1 2\n", "3\n"), sample("4\n", "5\n")];
    let files = plan_problem_files("b", &samples);
    let paths: Vec<&str> = files.iter().map(|f: &FileSpec| f.path.as_str()).collect();
    assert_eq!(
        paths,
        vec!["b/b_1.input", "b/b_1.output", "b/b_2.input", "b/b_2.output", "b.rs"]
    );
    assert_eq!(files[0].content, "1 2\n");
    assert_eq!(files[1].content, "3\n");
    assert_eq!(files[2].content, "4\n");
    assert_eq!(files[3].content, "5\n");
    assert_eq!(files[4].content, harness_source("b", 2));
}

#[test]
fn a_problem_with_no_samples_still_gets_its_harness() {
    let files = plan_problem_files("a", &vec![]);
    assert_eq!(files.len(), 1);
    assert_eq!(files[0].path, "a.rs");
    assert_eq!(files[0].content, harness_source("a", 0));
}

#[test]
fn the_harness_source_names_the_problem_and_each_sample() {
    let src = harness_source("c", 2);
    assert!(src.contains("const BIN: &'static str = \"./c\";"));
    assert!(src.contains("fn sample_c_1() {\n    test_base(\"c\", 1);\n}"));
    assert!(src.contains("fn sample_c_2() {\n    test_base(\"c\", 2);\n}"));
    assert!(!src.contains("sample_c_3"));
    assert!(!src.contains("{{name}}"));
    assert!(!src.contains("{{num}}"));
}

#[test]
fn the_harness_source_is_exactly_the_template_with_one_test() {
    let expected = "\nuse std::io::BufRead;\n\nuse cli_test_dir::*;\n\nconst BIN: &'static str = \"./a\";\n\nfn test_base(name: &str, num: u32) {\n    let testdir = TestDir::new(BIN, \"\");\n    let input = std::io::BufReader::new(std::fs::File::open(format!(\"tests/{}/{}_{}.input\", name, name, num)).unwrap())\n        .lines()\n        .map(|line| line.unwrap())\n        .collect::<Vec<String>>()\n        .join(\"\\n\");\n    let output = testdir.cmd().arg(name).output_with_stdin(input).expect_success();\n    let expect_output = std::io::BufReader::new(std::fs::File::open(format!(\"tests/{}/{}_{}.output\", name, name, num)).unwrap())\n        .lines()\n        .map(|line| line.unwrap())\n        .collect::<Vec<String>>()\n        .join(\"\\n\");\n    assert_eq!(\n        output.stdout_str().trim_end_matches(\"\\n\"),\n        expect_output.trim_end_matches(\"\\n\")\n    );\n}\n\n#[test]\nfn sample_a_1() {\n    test_base(\"a\", 1);\n}\n";
    assert_eq!(harness_source("a", 1), expected);
}

fn marked(marker: &str, text: &str) -> PreBlock {
    PreBlock {
        prev: Some(PrevSibling { tag: "h3".to_string(), first_text: Some(marker.to_string()) }),
        text: text.to_string(),
    }
}

/// A four-problem contest whose task list returns four URLs and whose
/// problem pages each yield two sample pairs produces four problem
/// directories with four sample files each.
#[test]
fn a_four_problem_contest_assembles_end_to_end() {
    let slots = plan_contest(&Contests::S_ABC.problem_names(), &tasks_page(4)).unwrap();
    assert_eq!(slots.len(), 4);
    for slot in &slots {
        let blocks = vec![
            marked("入力例 1", "1\n"),
            marked("出力例 1", "2\n"),
            marked("入力例 2", "3\n"),
            marked("出力例 2", "4\n"),
        ];
        let samples = extract_samples(&blocks);
        assert_eq!(samples.len(), 2);
        let files = plan_problem_files(slot.label.as_str(), &samples);
        let sample_files: Vec<String> =
            files.iter().take(4).map(|f| f.path.clone()).collect();
        let l = &slot.label;
        assert_eq!(
            sample_files,
            vec![
                format!("{}/{}_1.input", l, l),
                format!("{}/{}_1.output", l, l),
                format!("{}/{}_2.input", l, l),
                format!("{}/{}_2.output", l, l),
            ]
        );
        assert_eq!(files.len(), 5);
        assert_eq!(files[4].path, format!("{}.rs", l));
    }
}

#[test]
fn decimal_rendering_is_exact() {
    assert_eq!(dec_str(0), "0");
    assert_eq!(dec_str(7), "7");
    assert_eq!(dec_str(10), "10");
    assert_eq!(dec_str(125), "125");
    assert_eq!(dec_str(90210), "90210");
}

#[test]
fn cookie_lines_split_like_a_line_reader() {
    assert_eq!(split_lines(""), Vec::<String>::new());
    assert_eq!(split_lines("one"), vec!["one"]);
    assert_eq!(split_lines("one\ntwo"), vec!["one", "two"]);
    assert_eq!(split_lines("one\ntwo\n"), vec!["one", "two"]);
    assert_eq!(split_lines("one\r\ntwo\r\n"), vec!["one", "two"]);
    assert_eq!(split_lines("\n\n"), vec!["", ""]);
}
