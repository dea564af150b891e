//! The scaffold planner.
//!
//! Assembly is split into pure planning, verified here, and file-system and
//! network work done by the surrounding code. `plan_contest` pairs the
//! contest's problem labels in lockstep with the task URLs mined from the
//! task-list page; `plan_problem_files` lays out, for one problem, the
//! numbered sample files and the generated test-harness source that
//! enumerates one test case per sample.

use vstd::prelude::*;

use crate::errors::AssemblyError;
use crate::pages::{
    extract_task_urls, pair_view, task_urls_spec, SamplePair, TasksPage,
};
use crate::text::{dec_rep, dec_str};

verus! {

/// One problem slot of a contest: its label and its task page URL.
pub struct ProblemSlot {
    pub label: String,
    pub url: String,
}

/// One planned file: its path relative to the tests root, and its content.
pub struct FileSpec {
    pub path: String,
    pub content: String,
}

/// The model of one planned file.
pub open spec fn file_view(f: FileSpec) -> (Seq<char>, Seq<char>) {
    (f.path@, f.content@)
}

/// The models of a sequence of sample pairs.
pub open spec fn pairs_view(s: Seq<SamplePair>) -> Seq<(Seq<char>, Seq<char>)> {
    Seq::new(s.len(), |i: int| pair_view(s[i]))
}

/// Pairs the problem labels with the mined task URLs in lockstep. The count
/// must match exactly: proceeding with a mismatched count would silently
/// misname problems.
pub fn plan_contest(labels: &Vec<String>, page: &TasksPage) -> (r: Result<
    Vec<ProblemSlot>,
    AssemblyError,
>)
    ensures
        (match task_urls_spec(*page) {
            Ok(urls) => (if urls.len() == labels@.len() {
                &&& r is Ok
                &&& r->Ok_0@.len() == urls.len()
                &&& forall|i: int|
                    0 <= i < urls.len() ==> (#[trigger] r->Ok_0@[i]).label@ == labels@[i]@
                        && r->Ok_0@[i].url@ == urls[i]
            } else {
                r == Err::<Vec<ProblemSlot>, AssemblyError>(AssemblyError::TaskListMismatch)
            }),
            Err(_) => r == Err::<Vec<ProblemSlot>, AssemblyError>(AssemblyError::LayoutNotFound),
        }),
{
    match extract_task_urls(page) {
        Ok(urls) => {
            if urls.len() != labels.len() {
                return Err(AssemblyError::TaskListMismatch);
            }
            let n = labels.len();
            let mut slots: Vec<ProblemSlot> = Vec::new();
            let mut i: usize = 0;
            while i < n
                invariant
                    i <= n,
                    n == labels@.len(),
                    n == urls@.len(),
                    urls.deep_view() == task_urls_spec(*page)->Ok_0,
                    slots@.len() == i,
                    forall|k: int|
                        0 <= k < i ==> (#[trigger] slots@[k]).label@ == labels@[k]@
                            && slots@[k].url@ == urls@[k]@,
                decreases n - i,
            {
                slots.push(ProblemSlot { label: labels[i].clone(), url: urls[i].clone() });
                i += 1;
            }
            proof {
                assert(forall|k: int|
                    0 <= k < n ==> urls@[k]@ == task_urls_spec(*page)->Ok_0[k]);
            }
            Ok(slots)
        },
        Err(_) => Err(AssemblyError::LayoutNotFound),
    }
}

/// The generated test source for one sample index of one problem.
pub open spec fn child_test_src(label: Seq<char>, num: nat) -> Seq<char> {
    "\n#[test]\nfn sample_"@ + label + "_"@ + dec_rep(num) + "() {\n    test_base(\""@ + label
        + "\", "@ + dec_rep(num) + ");\n}\n"@
}

/// The generated test sources for samples `1..=cnt`, joined by newlines.
pub open spec fn children_src(label: Seq<char>, cnt: nat) -> Seq<char>
    decreases cnt,
{
    if cnt == 0 {
        Seq::empty()
    } else if cnt == 1 {
        child_test_src(label, 1)
    } else {
        children_src(label, (cnt - 1) as nat) + "\n"@ + child_test_src(label, cnt)
    }
}

/// The full generated test-harness source for one problem: the fixed
/// preamble naming the problem's binary, then one test per sample index.
pub open spec fn harness_src(label: Seq<char>, cnt: nat) -> Seq<char> {
    "\nuse std::io::BufRead;\n\nuse cli_test_dir::*;\n\nconst BIN: &'static str = \"./"@ + label
        + "\";\n\nfn test_base(name: &str, num: u32) {\n    let testdir = TestDir::new(BIN, \"\");\n    let input = std::io::BufReader::new(std::fs::File::open(format!(\"tests/{}/{}_{}.input\", name, name, num)).unwrap())\n        .lines()\n        .map(|line| line.unwrap())\n        .collect::<Vec<String>>()\n        .join(\"\\n\");\n    let output = testdir.cmd().arg(name).output_with_stdin(input).expect_success();\n    let expect_output = std::io::BufReader::new(std::fs::File::open(format!(\"tests/{}/{}_{}.output\", name, name, num)).unwrap())\n        .lines()\n        .map(|line| line.unwrap())\n        .collect::<Vec<String>>()\n        .join(\"\\n\");\n    assert_eq!(\n        output.stdout_str().trim_end_matches(\"\\n\"),\n        expect_output.trim_end_matches(\"\\n\")\n    );\n}\n"@
        + children_src(label, cnt)
}

/// The name of the `n`-th sample input file of a problem.
pub open spec fn input_file_name(label: Seq<char>, n: nat) -> Seq<char> {
    label + "_"@ + dec_rep(n) + ".input"@
}

/// The name of the `n`-th sample output file of a problem.
pub open spec fn output_file_name(label: Seq<char>, n: nat) -> Seq<char> {
    label + "_"@ + dec_rep(n) + ".output"@
}

/// The files laid down for one problem, in write order: for each sample
/// (1-based index `n`) the input file `{label}/{label}_{n}.input` and the
/// output file `{label}/{label}_{n}.output` with the sample's two texts,
/// then the harness `{label}.rs`.
pub open spec fn problem_files_spec(label: Seq<char>, samples: Seq<(Seq<char>, Seq<char>)>) -> Seq<
    (Seq<char>, Seq<char>),
> {
    Seq::new(
        2 * samples.len(),
        |i: int|
            if i % 2 == 0 {
                (label + "/"@ + input_file_name(label, (i / 2 + 1) as nat), samples[i / 2].0)
            } else {
                (label + "/"@ + output_file_name(label, (i / 2 + 1) as nat), samples[i / 2].1)
            },
    ).push((label + ".rs"@, harness_src(label, samples.len())))
}

fn child_test_source(label: &str, num: u64) -> (r: String)
    ensures
        r@ == child_test_src(label@, num as nat),
{
    let mut s = String::from_str("\n#[test]\nfn sample_");
    s.append(label);
    s.append("_");
    let d = dec_str(num);
    s.append(d.as_str());
    s.append("() {\n    test_base(\"");
    s.append(label);
    s.append("\", ");
    s.append(d.as_str());
    s.append(");\n}\n");
    s
}

/// Builds the generated test-harness source for one problem label and its
/// sample count.
pub fn harness_source(label: &str, cnt: u64) -> (r: String)
    ensures
        r@ == harness_src(label@, cnt as nat),
{
    let mut s = String::from_str(
        "\nuse std::io::BufRead;\n\nuse cli_test_dir::*;\n\nconst BIN: &'static str = \"./",
    );
    s.append(label);
    s.append(
        "\";\n\nfn test_base(name: &str, num: u32) {\n    let testdir = TestDir::new(BIN, \"\");\n    let input = std::io::BufReader::new(std::fs::File::open(format!(\"tests/{}/{}_{}.input\", name, name, num)).unwrap())\n        .lines()\n        .map(|line| line.unwrap())\n        .collect::<Vec<String>>()\n        .join(\"\\n\");\n    let output = testdir.cmd().arg(name).output_with_stdin(input).expect_success();\n    let expect_output = std::io::BufReader::new(std::fs::File::open(format!(\"tests/{}/{}_{}.output\", name, name, num)).unwrap())\n        .lines()\n        .map(|line| line.unwrap())\n        .collect::<Vec<String>>()\n        .join(\"\\n\");\n    assert_eq!(\n        output.stdout_str().trim_end_matches(\"\\n\"),\n        expect_output.trim_end_matches(\"\\n\")\n    );\n}\n",
    );
    proof {
        assert(s@ =~= harness_src(label@, 0));
    }
    let mut done: u64 = 0;
    while done < cnt
        invariant
            done <= cnt,
            s@ == harness_src(label@, done as nat),
        decreases cnt - done,
    {
        if done > 0 {
            s.append("\n");
        }
        let c = child_test_source(label, done + 1);
        s.append(c.as_str());
        done += 1;
        proof {
            assert(s@ =~= harness_src(label@, done as nat));
        }
    }
    s
}

/// Lays out the files for one problem: the numbered sample input and
/// output files, then the generated harness source.
pub fn plan_problem_files(label: &str, samples: &Vec<SamplePair>) -> (r: Vec<FileSpec>)
    ensures
        r@.len() == 2 * samples@.len() + 1,
        forall|i: int|
            0 <= i < r@.len() ==> file_view(#[trigger] r@[i]) == problem_files_spec(
                label@,
                pairs_view(samples@),
            )[i],
{
    let n = samples.len();
    let mut files: Vec<FileSpec> = Vec::new();
    let mut i: usize = 0;
    while i < n
        invariant
            i <= n,
            n == samples@.len(),
            files@.len() == 2 * i,
            forall|k: int|
                0 <= k < files@.len() ==> file_view(#[trigger] files@[k]) == problem_files_spec(
                    label@,
                    pairs_view(samples@),
                )[k],
        decreases n - i,
    {
        let num = (i + 1) as u64;
        let d = dec_str(num);

        let mut in_path = String::from_str(label);
        in_path.append("/");
        in_path.append(label);
        in_path.append("_");
        in_path.append(d.as_str());
        in_path.append(".input");
        proof {
            assert(in_path@ =~= label@ + "/"@ + input_file_name(label@, (i + 1) as nat));
        }
        files.push(FileSpec { path: in_path, content: samples[i].input.clone() });

        let mut out_path = String::from_str(label);
        out_path.append("/");
        out_path.append(label);
        out_path.append("_");
        out_path.append(d.as_str());
        out_path.append(".output");
        proof {
            assert(out_path@ =~= label@ + "/"@ + output_file_name(label@, (i + 1) as nat));
        }
        files.push(FileSpec { path: out_path, content: samples[i].output.clone() });

        i += 1;
    }
    let mut h_path = String::from_str(label);
    h_path.append(".rs");
    let harness = harness_source(label, n as u64);
    files.push(FileSpec { path: h_path, content: harness });
    files
}

} // verus!
