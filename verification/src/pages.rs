//! Plain models of the two kinds of contest pages the engine mines, and
//! the verified extractors over them.
//!
//! The engine never walks a DOM. The session code around the library
//! reduces each fetched page to the plain values modeled here — every
//! candidate table with its header texts, rows and links; every
//! preformatted block of the statement container with what immediately
//! precedes it — and all decisions (which table, which column, which
//! blocks count as samples, how they pair up) are made and verified here.

use vstd::prelude::*;

use crate::errors::ExtractionError;
use crate::text::{contains_seq, contains_sub, str_eq};

verus! {

/// One body-row cell of a candidate task table: the destination of the
/// first link inside it, if the cell has one.
pub struct TableCell {
    pub link: Option<String>,
}

/// One body row of a candidate task table: its cells in document order.
pub struct TableRow {
    pub cells: Vec<TableCell>,
}

/// One candidate table: the first text of each header cell (`None` for a
/// header cell with no text), and the body rows, all in document order.
pub struct Table {
    pub headers: Vec<Option<String>>,
    pub rows: Vec<TableRow>,
}

/// The task-listing page: every candidate table, in document order.
pub struct TasksPage {
    pub tables: Vec<Table>,
}

/// The bilingual task-name column labels; a header cell must read exactly
/// one of them.
pub open spec fn is_task_header(t: Seq<char>) -> bool {
    t == "問題名"@ || t == "Task Name"@
}

fn is_task_header_exec(t: &str) -> (r: bool)
    ensures
        r == is_task_header(t@),
{
    str_eq(t, "問題名") || str_eq(t, "Task Name")
}

/// The index of the first recognized header cell at or after `from`.
pub open spec fn header_col_from(headers: Seq<Option<String>>, from: int) -> Option<int>
    decreases headers.len() - from,
{
    if from < 0 || from >= headers.len() {
        None
    } else if headers[from] is Some && is_task_header(headers[from]->0@) {
        Some(from)
    } else {
        header_col_from(headers, from + 1)
    }
}

/// The target column of a table: the index of the first header cell whose
/// text is a recognized task-name label.
pub open spec fn header_col(headers: Seq<Option<String>>) -> Option<int> {
    header_col_from(headers, 0)
}

/// The absolute task URL taken from one row at column `pos`, if the row
/// has a linked cell there.
pub open spec fn row_url(row: TableRow, pos: int) -> Option<Seq<char>> {
    if 0 <= pos < row.cells@.len() && row.cells@[pos].link is Some {
        Some("https://atcoder.jp"@ + row.cells@[pos].link->0@)
    } else {
        None
    }
}

/// The URLs of a recognized table, in row order; `None` when some row has
/// no linked cell in the chosen column.
pub open spec fn table_urls(t: Table, pos: int) -> Option<Seq<Seq<char>>> {
    if forall|i: int| 0 <= i < t.rows@.len() ==> row_url(#[trigger] t.rows@[i], pos) is Some {
        Some(Seq::new(t.rows@.len(), |i: int| row_url(t.rows@[i], pos)->0))
    } else {
        None
    }
}

/// The index of the first table at or after `from` with a recognized
/// header.
pub open spec fn chosen_table_from(tables: Seq<Table>, from: int) -> Option<int>
    decreases tables.len() - from,
{
    if from < 0 || from >= tables.len() {
        None
    } else if header_col(tables[from].headers@) is Some {
        Some(from)
    } else {
        chosen_table_from(tables, from + 1)
    }
}

/// What the task-list extractor owes for `page`: the URLs, in row order, of
/// the first table with a recognized header; the layout error when no table
/// is recognized or when a row of the recognized table has no task link.
pub open spec fn task_urls_spec(page: TasksPage) -> Result<Seq<Seq<char>>, ExtractionError> {
    match chosen_table_from(page.tables@, 0) {
        Some(ti) => {
            let t = page.tables@[ti];
            match table_urls(t, header_col(t.headers@)->0) {
                Some(urls) => Ok(urls),
                None => Err(ExtractionError::LayoutNotFound),
            }
        },
        None => Err(ExtractionError::LayoutNotFound),
    }
}

fn find_header_col(headers: &Vec<Option<String>>) -> (r: Option<usize>)
    ensures
        (match r {
            Some(p) => header_col(headers@) == Some(p as int),
            None => header_col(headers@) is None,
        }),
{
    let n = headers.len();
    let mut i: usize = 0;
    while i < n
        invariant
            i <= n,
            n == headers@.len(),
            header_col(headers@) == header_col_from(headers@, i as int),
        decreases n - i,
    {
        match &headers[i] {
            Some(text) => {
                if is_task_header_exec(text.as_str()) {
                    return Some(i);
                }
            },
            None => {},
        }
        i += 1;
    }
    None
}

/// Scans the page's tables in document order and returns, for the first
/// table whose header row has a cell reading one of the task-name labels,
/// the absolute task URL of every body row, in row order.
pub fn extract_task_urls(page: &TasksPage) -> (r: Result<Vec<String>, ExtractionError>)
    ensures
        r is Ok <==> task_urls_spec(*page) is Ok,
        r matches Ok(urls) ==> urls.deep_view() == task_urls_spec(*page)->Ok_0,
        r matches Err(e) ==> e == ExtractionError::LayoutNotFound,
{
    let nt = page.tables.len();
    let mut ti: usize = 0;
    while ti < nt
        invariant
            ti <= nt,
            nt == page.tables@.len(),
            chosen_table_from(page.tables@, 0) == chosen_table_from(page.tables@, ti as int),
        decreases nt - ti,
    {
        let t = &page.tables[ti];
        match find_header_col(&t.headers) {
            Some(pos) => {
                assert(chosen_table_from(page.tables@, 0) == Some(ti as int));
                let nr = t.rows.len();
                let mut urls: Vec<String> = Vec::new();
                let mut ri: usize = 0;
                while ri < nr
                    invariant
                        ti < nt,
                        nt == page.tables@.len(),
                        *t == page.tables@[ti as int],
                        chosen_table_from(page.tables@, 0) == Some(ti as int),
                        header_col(t.headers@) == Some(pos as int),
                        ri <= nr,
                        nr == t.rows@.len(),
                        urls@.len() == ri,
                        forall|j: int|
                            0 <= j < ri ==> row_url(#[trigger] t.rows@[j], pos as int) is Some,
                        forall|j: int|
                            0 <= j < ri ==> urls@[j]@ == row_url(t.rows@[j], pos as int)->0,
                    decreases nr - ri,
                {
                    let row = &t.rows[ri];
                    if pos < row.cells.len() {
                        match &row.cells[pos].link {
                            Some(link) => {
                                let mut u = String::from_str("https://atcoder.jp");
                                u.append(link.as_str());
                                urls.push(u);
                            },
                            None => {
                                proof {
                                    assert(*t == page.tables@[ti as int]);
                                    assert(row_url(t.rows@[ri as int], pos as int) is None);
                                    assert(!(forall|i: int|
                                        0 <= i < t.rows@.len() ==> row_url(
                                            #[trigger] t.rows@[i],
                                            pos as int,
                                        ) is Some)) by {
                                        assert(0 <= ri < t.rows@.len() && row_url(
                                            t.rows@[ri as int],
                                            pos as int,
                                        ) is None);
                                    }
                                    assert(table_urls(*t, pos as int) is None);
                                }
                                return Err(ExtractionError::LayoutNotFound);
                            },
                        }
                    } else {
                        proof {
                            assert(*t == page.tables@[ti as int]);
                            assert(row_url(t.rows@[ri as int], pos as int) is None);
                            assert(!(forall|i: int|
                                0 <= i < t.rows@.len() ==> row_url(
                                    #[trigger] t.rows@[i],
                                    pos as int,
                                ) is Some)) by {
                                assert(0 <= ri < t.rows@.len() && row_url(
                                    t.rows@[ri as int],
                                    pos as int,
                                ) is None);
                            }
                            assert(table_urls(*t, pos as int) is None);
                        }
                        return Err(ExtractionError::LayoutNotFound);
                    }
                    ri += 1;
                }
                proof {
                    assert(table_urls(page.tables@[ti as int], pos as int) is Some);
                    assert(urls.deep_view() =~~= table_urls(
                        page.tables@[ti as int],
                        pos as int,
                    )->0);
                }
                return Ok(urls);
            },
            None => {},
        }
        ti += 1;
    }
    Err(ExtractionError::LayoutNotFound)
}

/// What immediately precedes a preformatted block, when that sibling is an
/// element: its tag name, and the text of its first child when that child
/// is a text node.
pub struct PrevSibling {
    pub tag: String,
    pub first_text: Option<String>,
}

/// One preformatted block of the statement container: its full text and
/// its immediately preceding sibling element, if any.
pub struct PreBlock {
    pub prev: Option<PrevSibling>,
    pub text: String,
}

/// One official sample: an input text and its expected output text.
pub struct SamplePair {
    pub input: String,
    pub output: String,
}

/// The model of one sample pair.
pub open spec fn pair_view(p: SamplePair) -> (Seq<char>, Seq<char>) {
    (p.input@, p.output@)
}

/// A heading text that marks a sample block: it holds one of the bilingual
/// marker substrings (substring match, not equality).
pub open spec fn is_marker_text(t: Seq<char>) -> bool {
    ||| contains_seq(t, "入力例"@)
    ||| contains_seq(t, "出力例"@)
    ||| contains_seq(t, "Input Example"@)
    ||| contains_seq(t, "Output Example"@)
}

/// A preformatted block that counts as a sample: immediately preceded by a
/// level-3 heading whose first text node holds a marker.
pub open spec fn is_sample_block(b: PreBlock) -> bool {
    &&& b.prev is Some
    &&& b.prev->0.tag@ == "h3"@
    &&& b.prev->0.first_text is Some
    &&& is_marker_text(b.prev->0.first_text->0@)
}

/// The texts of the sample blocks among `blocks`, in document order.
pub open spec fn sample_texts(blocks: Seq<PreBlock>) -> Seq<Seq<char>>
    decreases blocks.len(),
{
    if blocks.len() == 0 {
        Seq::empty()
    } else {
        let rest = sample_texts(blocks.drop_last());
        if is_sample_block(blocks.last()) {
            rest.push(blocks.last().text@)
        } else {
            rest
        }
    }
}

/// Positional pairing: text `2i` is an input and text `2i + 1` its output;
/// an unpaired trailing text is dropped.
pub open spec fn paired(texts: Seq<Seq<char>>) -> Seq<(Seq<char>, Seq<char>)> {
    Seq::new(texts.len() / 2, |i: int| (texts[2 * i], texts[2 * i + 1]))
}

/// The sample pairs owed for `blocks`.
pub open spec fn samples_spec(blocks: Seq<PreBlock>) -> Seq<(Seq<char>, Seq<char>)> {
    paired(sample_texts(blocks))
}

/// Sample extraction is a pure function of the page: running it twice on
/// identical blocks yields identical ordered pair lists.
pub proof fn lemma_samples_idempotent(
    blocks: Seq<PreBlock>,
    first: Seq<(Seq<char>, Seq<char>)>,
    second: Seq<(Seq<char>, Seq<char>)>,
)
    requires
        first == samples_spec(blocks),
        second == samples_spec(blocks),
    ensures
        first == second,
{
}

fn is_sample_block_exec(b: &PreBlock) -> (r: bool)
    ensures
        r == is_sample_block(*b),
{
    match &b.prev {
        Some(prev) => {
            if str_eq(prev.tag.as_str(), "h3") {
                match &prev.first_text {
                    Some(ft) => contains_sub(ft.as_str(), "入力例") || contains_sub(
                        ft.as_str(),
                        "出力例",
                    ) || contains_sub(ft.as_str(), "Input Example") || contains_sub(
                        ft.as_str(),
                        "Output Example",
                    ),
                    None => false,
                }
            } else {
                false
            }
        },
        None => false,
    }
}

/// Collects the sample blocks of a problem page's statement container and
/// pairs them by position. Never fails: a page with no recognizable samples
/// yields the empty sequence.
pub fn extract_samples(blocks: &Vec<PreBlock>) -> (r: Vec<SamplePair>)
    ensures
        r@.len() == samples_spec(blocks@).len(),
        forall|i: int| 0 <= i < r@.len() ==> pair_view(#[trigger] r@[i]) == samples_spec(blocks@)[i],
{
    let nb = blocks.len();
    let mut texts: Vec<String> = Vec::new();
    let mut i: usize = 0;
    while i < nb
        invariant
            i <= nb,
            nb == blocks@.len(),
            texts@.len() == sample_texts(blocks@.take(i as int)).len(),
            forall|j: int|
                0 <= j < texts@.len() ==> texts@[j]@ == sample_texts(blocks@.take(i as int))[j],
        decreases nb - i,
    {
        let b = &blocks[i];
        proof {
            assert(blocks@.take(i as int + 1).drop_last() =~= blocks@.take(i as int));
            assert(blocks@.take(i as int + 1).last() == blocks@[i as int]);
        }
        if is_sample_block_exec(b) {
            texts.push(b.text.clone());
        }
        i += 1;
    }
    proof {
        assert(blocks@.take(nb as int) =~= blocks@);
    }
    let ghost st = sample_texts(blocks@);
    let nt = texts.len();
    let pairs = nt / 2;
    let mut r: Vec<SamplePair> = Vec::new();
    let mut k: usize = 0;
    while k < pairs
        invariant
            k <= pairs,
            pairs == nt / 2,
            nt == texts@.len(),
            texts@.len() == st.len(),
            forall|j: int| 0 <= j < texts@.len() ==> texts@[j]@ == st[j],
            r@.len() == k,
            forall|j: int|
                0 <= j < k ==> pair_view(#[trigger] r@[j]) == (st[2 * j], st[2 * j + 1]),
        decreases pairs - k,
    {
        let input = texts[2 * k].clone();
        let output = texts[2 * k + 1].clone();
        r.push(SamplePair { input, output });
        k += 1;
    }
    r
}

} // verus!
