//! The host terminal's most recent contents, and searching them for text.

use vstd::prelude::*;
use vstd::string::*;

verus! {

/// One character of the terminal. `(0, 0)` is the top-left cell.
#[derive(Clone, Copy, Debug, PartialEq, Eq)]
pub struct Cell {
    pub character: char,
    /// Column and row of the cell.
    pub coordinates: (u32, u32),
}

/// The character shown at `(column, row)`: that of the first cell with those
/// coordinates, or a blank where no cell has them.
pub open spec fn char_at(cells: Seq<Cell>, column: int, row: int) -> char
    decreases cells.len(),
{
    if cells.len() == 0 {
        ' '
    } else if cells[0].coordinates.0 == column && cells[0].coordinates.1 == row {
        cells[0].character
    } else {
        char_at(cells.drop_first(), column, row)
    }
}

/// `pattern` stands in `text` from `column` on.
pub open spec fn occurs_at(text: Seq<char>, pattern: Seq<char>, column: int) -> bool {
    0 <= column && column + pattern.len() <= text.len()
        && text.subrange(column, column + pattern.len()) == pattern
}

/// `pattern` stands somewhere in `text`.
pub open spec fn occurs_in(text: Seq<char>, pattern: Seq<char>) -> bool {
    exists|column: int| occurs_at(text, pattern, column)
}

/// Whether `pattern` stands in `line` from `start` on.
pub fn occurs_at_exec(line: &Vec<char>, pattern: &Vec<char>, start: usize) -> (r: bool)
    ensures
        r == occurs_at(line@, pattern@, start as int),
{
    let n: usize = line.len();
    if start > n || pattern.len() > n - start {
        return false;
    }
    let mut j: usize = 0;
    while j < pattern.len()
        invariant
            n == line@.len(),
            start + pattern@.len() <= n,
            j <= pattern@.len(),
            forall|k: int| 0 <= k < j ==> line@[start + k] == pattern@[k],
        decreases pattern@.len() - j,
    {
        if line[start + j] != pattern[j] {
            assert(line@.subrange(start as int, start + pattern@.len())[j as int] == line@[start + j]);
            return false;
        }
        j = j + 1;
    }
    assert(line@.subrange(start as int, start + pattern@.len()) =~= pattern@);
    true
}

/// Where `pattern` first stands in `line`, if it does.
pub fn find_in_line(line: &Vec<char>, pattern: &Vec<char>) -> (r: Option<usize>)
    ensures
        match r {
            None => !occurs_in(line@, pattern@),
            Some(column) => occurs_at(line@, pattern@, column as int)
                && forall|c: int| 0 <= c < column ==> !occurs_at(line@, pattern@, c),
        },
{
    if pattern.len() > line.len() {
        assert forall|c: int| !occurs_at(line@, pattern@, c) by {}
        return None;
    }
    let n: usize = line.len();
    let last: usize = n - pattern.len();
    let mut start: usize = 0;
    while start <= last
        invariant
            n == line@.len(),
            last == line@.len() - pattern@.len(),
            start <= last + 1,
            forall|c: int| 0 <= c < start ==> !occurs_at(line@, pattern@, c),
        decreases last + 1 - start,
    {
        if occurs_at_exec(line, pattern, start) {
            return Some(start);
        }
        if start == last {
            return None;
        }
        start = start + 1;
    }
    None
}

/// What the host last told us of its terminal.
pub struct TerminalSnapshot {
    /// Columns and rows.
    pub size: (u16, u16),
    /// Column and row of the cursor.
    pub cursor: (u16, u16),
    /// The cells that are not blank; any other cell shows a space.
    pub cells: Vec<Cell>,
}

impl TerminalSnapshot {
    /// The character at `(column, row)`.
    pub open spec fn spec_lookup(&self, column: int, row: int) -> char {
        char_at(self.cells@, column, row)
    }

    /// The text of one row, column by column, blanks included.
    pub open spec fn row_text(&self, row: int) -> Seq<char> {
        Seq::new(self.size.0 as nat, |column: int| self.spec_lookup(column, row))
    }

    /// Somewhere on the screen, one row holds `pattern`.
    pub open spec fn shows(&self, pattern: Seq<char>) -> bool {
        exists|row: int| 0 <= row < self.size.1 && occurs_in(#[trigger] self.row_text(row), pattern)
    }

    /// `(column, row)` is where `pattern` first stands, reading the rows top
    /// to bottom and each row left to right.
    pub open spec fn is_first_match(&self, pattern: Seq<char>, column: int, row: int) -> bool {
        &&& 0 <= row < self.size.1
        &&& occurs_at(self.row_text(row), pattern, column)
        &&& forall|r: int| 0 <= r < row ==> !occurs_in(#[trigger] self.row_text(r), pattern)
        &&& forall|c: int| 0 <= c < column ==> !occurs_at(self.row_text(row), pattern, c)
    }

    /// A terminal of no size, with nothing in it.
    pub fn new() -> (r: Self)
        ensures
            r.size == (0u16, 0u16),
            r.cursor == (0u16, 0u16),
            r.cells@.len() == 0,
    {
        TerminalSnapshot { size: (0, 0), cursor: (0, 0), cells: Vec::new() }
    }

    /// Replaces everything the snapshot holds; nothing of the old one remains.
    pub fn apply_update(&mut self, size: (u16, u16), cells: Vec<Cell>, cursor: (u16, u16))
        ensures
            final(self).size == size,
            final(self).cursor == cursor,
            final(self).cells@ == cells@,
    {
        self.size = size;
        self.cells = cells;
        self.cursor = cursor;
    }

    /// The character at `(column, row)`, a blank where no cell is there.
    pub fn lookup(&self, column: u32, row: u32) -> (r: char)
        ensures
            r == self.spec_lookup(column as int, row as int),
    {
        let mut i: usize = 0;
        assert(self.cells@.subrange(0, self.cells@.len() as int) =~= self.cells@);
        while i < self.cells.len()
            invariant
                i <= self.cells@.len(),
                char_at(self.cells@, column as int, row as int)
                    == char_at(self.cells@.subrange(i as int, self.cells@.len() as int), column as int, row as int),
            decreases self.cells@.len() - i,
        {
            let cell = self.cells[i];
            proof {
                let tail = self.cells@.subrange(i as int, self.cells@.len() as int);
                assert(tail.drop_first() =~= self.cells@.subrange(i + 1, self.cells@.len() as int));
            }
            if cell.coordinates.0 == column && cell.coordinates.1 == row {
                return cell.character;
            }
            i = i + 1;
        }
        proof {
            assert(self.cells@.subrange(i as int, self.cells@.len() as int).len() == 0);
        }
        ' '
    }

    /// The text of `row`, one character per column.
    pub fn line(&self, row: u16) -> (r: Vec<char>)
        ensures
            r@ == self.row_text(row as int),
    {
        let mut line: Vec<char> = Vec::new();
        let mut column: u16 = 0;
        while column < self.size.0
            invariant
                column <= self.size.0,
                line@ == self.row_text(row as int).subrange(0, column as int),
            decreases self.size.0 - column,
        {
            let c = self.lookup(column as u32, row as u32);
            line.push(c);
            column = column + 1;
            assert(line@ =~= self.row_text(row as int).subrange(0, column as int));
        }
        assert(line@ =~= self.row_text(row as int));
        line
    }

    /// Where `pattern` first stands on the screen, as column and row.
    pub fn find_text_coordinates(&self, pattern: &str) -> (r: Option<(usize, usize)>)
        ensures
            match r {
                None => !self.shows(pattern@),
                Some((column, row)) => self.is_first_match(pattern@, column as int, row as int),
            },
    {
        let wanted = chars_of(pattern);
        let mut row: u16 = 0;
        while row < self.size.1
            invariant
                row <= self.size.1,
                wanted@ == pattern@,
                forall|r: int| 0 <= r < row ==> !occurs_in(#[trigger] self.row_text(r), pattern@),
            decreases self.size.1 - row,
        {
            let line = self.line(row);
            match find_in_line(&line, &wanted) {
                Some(column) => {
                    return Some((column, row as usize));
                },
                None => {},
            }
            row = row + 1;
        }
        None
    }
}

/// Applying one update twice reads the same as applying it once: whatever
/// two snapshots held before, once each has taken the update (as
/// `apply_update` leaves it), every cell and every row reads alike in both.
pub proof fn lemma_apply_update_idempotent(
    once: TerminalSnapshot,
    twice: TerminalSnapshot,
    size: (u16, u16),
    cells: Seq<Cell>,
    cursor: (u16, u16),
)
    requires
        once.size == size && once.cells@ == cells && once.cursor == cursor,
        twice.size == size && twice.cells@ == cells && twice.cursor == cursor,
    ensures
        forall|column: int, row: int| #[trigger]
            once.spec_lookup(column, row) == twice.spec_lookup(column, row),
        forall|row: int| #[trigger] once.row_text(row) == twice.row_text(row),
{
    assert forall|row: int| #[trigger] once.row_text(row) == twice.row_text(row) by {
        assert(once.row_text(row) =~= twice.row_text(row));
    }
}

/// The characters of `s`, in order.
pub fn chars_of(s: &str) -> (r: Vec<char>)
    ensures
        r@ == s@,
{
    let n = s.unicode_len();
    let mut r: Vec<char> = Vec::new();
    let mut i: usize = 0;
    while i < n
        invariant
            n == s@.len(),
            i <= n,
            r@ == s@.subrange(0, i as int),
        decreases n - i,
    {
        r.push(s.get_char(i));
        i = i + 1;
        assert(r@ =~= s@.subrange(0, i as int));
    }
    assert(r@ =~= s@);
    r
}

} // verus!
