//! What the commands compute: the tables of programs and levels, and the
//! setting up of a run.

use crate::level::{Level, LevelView, TestCase};
use crate::level_dto::LevelDto;
use crate::levels;
use crate::program::{Program, ProgramView};
use crate::program_dto::{error_message, ProgramDto};
use crate::programs;
use crate::text;
use crate::text::trimmed;
use prettytable::{Row, Table};
use vstd::prelude::*;
use vstd::string::StringExecFns;

verus! {

broadcast use vstd::string::group_string_axioms;

/// The least number of milliseconds between two steps of a run.
pub const MIN_SLEEP: u64 = 10;

/// A stored program: the name of its file and what was read from it, the
/// written program or why there is none.
pub struct ProgramFile {
    pub file_name: String,
    pub content: Result<ProgramDto, String>,
}

/// The text of the table with these titles and rows, as the table layout
/// draws it: boxed, a column as wide as its widest cell.
pub uninterp spec fn table_layout(titles: Seq<Seq<char>>, rows: Seq<Seq<Seq<char>>>) -> Seq<char>;

/// Whether the text holds no escape character.
pub open spec fn plain(text: Seq<char>) -> bool {
    forall|i: int| 0 <= i < text.len() ==> text[i] != '\u{1b}'
}

/// Whether no cell of the row holds an escape character.
pub open spec fn plain_row(row: Seq<Seq<char>>) -> bool {
    forall|i: int| 0 <= i < row.len() ==> plain(#[trigger] row[i])
}

/// Whether no cell of the rows holds an escape character.
pub open spec fn plain_rows(rows: Seq<Seq<Seq<char>>>) -> bool {
    forall|i: int| 0 <= i < rows.len() ==> plain_row(#[trigger] rows[i])
}

/// The row of a stored program: its name and `ok` if it can be read, else
/// the name of its file without `.yaml` and what is wrong with it.
pub open spec fn program_status(file: ProgramFile) -> Seq<Seq<char>> {
    let stem = trimmed(file.file_name@, ".yaml"@);
    match file.content {
        Err(why) => seq![stem, why@],
        Ok(dto) => if dto@.problems().len() == 0 {
            seq![dto@.name, "ok"@]
        } else {
            seq![stem, error_message(dto@.problems())]
        },
    }
}

/// The rows of the table of programs: the stored programs in the order
/// given, then the programs of the catalogue.
pub open spec fn program_table_rows(files: Seq<ProgramFile>) -> Seq<Seq<Seq<char>>> {
    files.map_values(|file: ProgramFile| program_status(file)) + programs::catalogue().map_values(
        |program: ProgramView| seq![program.name, "builtin"@],
    )
}

/// The rows of the table of levels: the levels of the catalogue, then the
/// stored levels in the order given. No level counts as solved.
pub open spec fn level_table_rows(custom: Seq<LevelDto>) -> Seq<Seq<Seq<char>>> {
    levels::catalogue().map_values(|level: LevelView| seq![level.name, "false"@, "builtin"@])
        + custom.map_values(|dto: LevelDto| seq![dto@.name, "false"@, "custom"@])
}

/// The titles of the table of programs.
pub open spec fn program_titles() -> Seq<Seq<char>> {
    seq!["Name"@, "Status"@]
}

/// The titles of the table of levels.
pub open spec fn level_titles() -> Seq<Seq<char>> {
    seq!["Name"@, "Solved"@, "Type"@]
}

/// Calls `to_string` of prettytable's `Table`, on the table made of `rows`
/// by `Table::from` and given `titles` by `set_titles`. The text is taken to
/// depend on the titles and the cells alone. Cells with an escape character
/// are kept out: on some of them the width count of the crate panics.
#[verifier::external_body]
fn layout(titles: &Vec<String>, rows: &Vec<Vec<String>>) -> (text: String)
    requires
        plain_row(titles.deep_view()),
        plain_rows(rows.deep_view()),
    ensures
        text@ == table_layout(titles.deep_view(), rows.deep_view()),
{
    let mut table = Table::from(rows);
    table.set_titles(Row::from(titles));
    table.to_string()
}

/// Whether the text holds no escape character.
pub fn is_plain(text: &str) -> (ok: bool)
    ensures
        ok == plain(text@),
{
    let count = text.unicode_len();
    let mut i: usize = 0;
    while i < count
        invariant
            i <= count,
            count == text@.len(),
            forall|j: int| 0 <= j < i ==> text@[j] != '\u{1b}',
        decreases count - i,
    {
        if text.get_char(i) == '\u{1b}' {
            return false;
        }
        i += 1;
    }
    true
}

/// Whether no cell of the row holds an escape character.
pub fn is_plain_row(row: &Vec<String>) -> (ok: bool)
    ensures
        ok == plain_row(row.deep_view()),
{
    let mut i: usize = 0;
    while i < row.len()
        invariant
            i <= row.len(),
            forall|j: int| 0 <= j < i ==> plain(#[trigger] row.deep_view()[j]),
        decreases row.len() - i,
    {
        if !is_plain(row[i].as_str()) {
            assert(!plain(row.deep_view()[i as int]));
            return false;
        }
        i += 1;
    }
    true
}

/// The table with these titles and rows as text, if no cell holds an escape
/// character.
pub fn table(titles: &Vec<String>, rows: &Vec<Vec<String>>) -> (text: Option<String>)
    ensures
        match text {
            Some(text) => {
                &&& plain_row(titles.deep_view())
                &&& plain_rows(rows.deep_view())
                &&& text@ == table_layout(titles.deep_view(), rows.deep_view())
            },
            None => !(plain_row(titles.deep_view()) && plain_rows(rows.deep_view())),
        },
{
    if !is_plain_row(titles) {
        return None;
    }
    let mut i: usize = 0;
    while i < rows.len()
        invariant
            i <= rows.len(),
            forall|j: int| 0 <= j < i ==> plain_row(#[trigger] rows.deep_view()[j]),
        decreases rows.len() - i,
    {
        if !is_plain_row(&rows[i]) {
            assert(!plain_row(rows.deep_view()[i as int]));
            return None;
        }
        i += 1;
    }
    Some(layout(titles, rows))
}

fn pair(first: String, second: &str) -> (row: Vec<String>)
    ensures
        row.deep_view() == seq![first@, second@],
{
    let mut row: Vec<String> = Vec::new();
    row.push(first);
    row.push(String::from_str(second));
    row
}

fn triple(first: String, second: &str, third: &str) -> (row: Vec<String>)
    ensures
        row.deep_view() == seq![first@, second@, third@],
{
    let mut row: Vec<String> = Vec::new();
    row.push(first);
    row.push(String::from_str(second));
    row.push(String::from_str(third));
    row
}

/// The row of a stored program in the table of programs.
pub fn program_row(file: ProgramFile) -> (row: Vec<String>)
    ensures
        row.deep_view() == program_status(file),
{
    let stem = text::trim_end(file.file_name.as_str(), ".yaml");
    match file.content {
        Err(why) => pair(stem, why.as_str()),
        Ok(dto) => match Program::try_from(dto) {
            Ok(program) => pair(program.name, "ok"),
            Err(error) => pair(stem, error.message().as_str()),
        },
    }
}

/// The rows of the table of programs.
pub fn program_rows(files: Vec<ProgramFile>) -> (rows: Vec<Vec<String>>)
    ensures
        rows.deep_view() == program_table_rows(files@),
{
    let ghost all = files@;
    let ghost stored = all.map_values(|file: ProgramFile| program_status(file));
    let mut rows: Vec<Vec<String>> = Vec::new();
    for file in it: files
        invariant
            it.seq() == all,
            stored == all.map_values(|file: ProgramFile| program_status(file)),
            rows.deep_view() == stored.take(it.index()),
    {
        let ghost before = rows.deep_view();
        let row = program_row(file);
        rows.push(row);
        assert(stored.take(it.index() + 1) =~= before.push(program_status(file)));
    }
    let builtins = programs::builtins();
    let ghost catalogue = builtins@;
    let ghost named = programs::catalogue().map_values(
        |program: ProgramView| seq![program.name, "builtin"@],
    );
    for program in it: builtins
        invariant
            it.seq() == catalogue,
            programs::program_views(catalogue) == programs::catalogue(),
            named == programs::catalogue().map_values(
                |program: ProgramView| seq![program.name, "builtin"@],
            ),
            rows.deep_view() == stored + named.take(it.index()),
    {
        let ghost before = rows.deep_view();
        rows.push(pair(program.name, "builtin"));
        assert(stored + named.take(it.index() + 1) =~= before.push(
            seq![program@.name, "builtin"@],
        ));
    }
    rows
}

/// The rows of the table of levels.
pub fn level_rows(custom: Vec<LevelDto>) -> (rows: Vec<Vec<String>>)
    ensures
        rows.deep_view() == level_table_rows(custom@),
{
    let mut rows: Vec<Vec<String>> = Vec::new();
    let builtins = levels::builtins();
    let ghost catalogue = builtins@;
    let ghost named = levels::catalogue().map_values(
        |level: LevelView| seq![level.name, "false"@, "builtin"@],
    );
    for level in it: builtins
        invariant
            it.seq() == catalogue,
            levels::level_views(catalogue) == levels::catalogue(),
            named == levels::catalogue().map_values(
                |level: LevelView| seq![level.name, "false"@, "builtin"@],
            ),
            rows.deep_view() == named.take(it.index()),
    {
        let ghost before = rows.deep_view();
        rows.push(triple(level.name, "false", "builtin"));
        assert(named.take(it.index() + 1) =~= before.push(
            seq![level@.name, "false"@, "builtin"@],
        ));
    }
    let ghost all = custom@;
    let ghost stored = all.map_values(|dto: LevelDto| seq![dto@.name, "false"@, "custom"@]);
    for dto in it: custom
        invariant
            it.seq() == all,
            stored == all.map_values(|dto: LevelDto| seq![dto@.name, "false"@, "custom"@]),
            rows.deep_view() == named + stored.take(it.index()),
    {
        let ghost before = rows.deep_view();
        let level = Level::from(dto);
        rows.push(triple(level.name, "false", "custom"));
        assert(named + stored.take(it.index() + 1) =~= before.push(
            seq![dto@.name, "false"@, "custom"@],
        ));
    }
    rows
}

/// The table of programs as text: the stored programs, each with how it
/// stands, then the programs of the catalogue. There is none if a cell
/// holds an escape character.
pub fn program_table(files: Vec<ProgramFile>) -> (text: Option<String>)
    ensures
        match text {
            Some(text) => {
                &&& plain_rows(program_table_rows(files@))
                &&& text@ == table_layout(program_titles(), program_table_rows(files@))
            },
            None => !plain_rows(program_table_rows(files@)),
        },
{
    let titles = pair(String::from_str("Name"), "Status");
    proof {
        reveal_strlit("Name");
        reveal_strlit("Status");
    }
    let rows = program_rows(files);
    table(&titles, &rows)
}

/// The table of levels as text: the levels of the catalogue, then the
/// stored levels. There is none if a cell holds an escape character.
pub fn level_table(custom: Vec<LevelDto>) -> (text: Option<String>)
    ensures
        match text {
            Some(text) => {
                &&& plain_rows(level_table_rows(custom@))
                &&& text@ == table_layout(level_titles(), level_table_rows(custom@))
            },
            None => !plain_rows(level_table_rows(custom@)),
        },
{
    let titles = triple(String::from_str("Name"), "Solved", "Type");
    proof {
        reveal_strlit("Name");
        reveal_strlit("Solved");
        reveal_strlit("Type");
    }
    let rows = level_rows(custom);
    table(&titles, &rows)
}

/// The number of milliseconds to wait between two steps of a run: what was
/// asked for, but no less than `MIN_SLEEP`.
pub fn step_delay(sleep: u64) -> (delay: u64)
    ensures
        delay == if sleep < MIN_SLEEP {
            MIN_SLEEP
        } else {
            sleep
        },
{
    if sleep < MIN_SLEEP {
        MIN_SLEEP
    } else {
        sleep
    }
}

/// The level without its first `test_case` cases.
pub fn starting_at(level: Level, test_case: usize) -> (rest: Level)
    requires
        test_case <= level.cases.len(),
    ensures
        rest@ == (LevelView { cases: level@.cases.skip(test_case as int), ..level@ }),
{
    let Level { name, description, cases: all } = level;
    let mut cases: Vec<TestCase> = Vec::new();
    let mut i: usize = test_case;
    while i < all.len()
        invariant
            test_case <= i <= all.len(),
            cases.len() == i - test_case,
            forall|j: int| 0 <= j < cases.len() ==> (#[trigger] cases[j])@ == all[test_case + j]@,
        decreases all.len() - i,
    {
        cases.push(all[i].clone());
        i += 1;
    }
    let rest = Level { name, description, cases };
    assert(rest@.cases =~= level@.cases.skip(test_case as int));
    rest
}

} // verus!
