use vstd::prelude::*;

verus! {

/// Rows of the primary grid.
pub const GRID_ROWS: usize = 13;

/// Columns of the primary grid.
pub const GRID_COLS: usize = 13;

/// Rows of the sub-grid drawn inside a pinned cell.
pub const SUB_ROWS: usize = 4;

/// Columns of the sub-grid drawn inside a pinned cell.
pub const SUB_COLS: usize = 6;

/// A (row, col) position in either grid.
#[derive(Clone, Copy, Debug, PartialEq, Eq, Structural)]
pub struct Cell {
    pub row: usize,
    pub col: usize,
}

impl Cell {
    pub open spec fn in_primary(self) -> bool {
        self.row < GRID_ROWS && self.col < GRID_COLS
    }

    pub open spec fn in_sub(self) -> bool {
        self.row < SUB_ROWS && self.col < SUB_COLS
    }
}

/// The character `i` places after `a`.
pub open spec fn letter(i: int) -> char {
    (97 + i) as char
}

/// The code of a primary cell: row letter then column letter, both from `a`.
pub open spec fn primary_code(cell: Cell) -> Seq<char> {
    seq![letter(cell.row as int), letter(cell.col as int)]
}

/// The code of a sub-grid cell: row letter from `e`, column letter from `d`.
pub open spec fn sub_code(cell: Cell) -> Seq<char> {
    seq![letter(cell.row as int + 4), letter(cell.col as int + 3)]
}

/// What a lookup of `code` among the primary labels finds.
pub open spec fn primary_lookup(code: Seq<char>, r: Option<Cell>) -> bool {
    match r {
        Some(cell) => cell.in_primary() && primary_code(cell) == code,
        None => forall|cell: Cell| cell.in_primary() ==> primary_code(cell) != code,
    }
}

/// What a lookup of `code` among the sub-grid labels finds.
pub open spec fn sub_lookup(code: Seq<char>, r: Option<Cell>) -> bool {
    match r {
        Some(cell) => cell.in_sub() && sub_code(cell) == code,
        None => forall|cell: Cell| cell.in_sub() ==> sub_code(cell) != code,
    }
}

/// The primary cell labelled `code`, if any.
pub open spec fn primary_cell_of(code: Seq<char>) -> Option<Cell> {
    if exists|cell: Cell| cell.in_primary() && primary_code(cell) == code {
        Some(choose|cell: Cell| cell.in_primary() && primary_code(cell) == code)
    } else {
        None
    }
}

/// The sub-grid cell labelled `code`, if any.
pub open spec fn sub_cell_of(code: Seq<char>) -> Option<Cell> {
    if exists|cell: Cell| cell.in_sub() && sub_code(cell) == code {
        Some(choose|cell: Cell| cell.in_sub() && sub_code(cell) == code)
    } else {
        None
    }
}

/// Index of `c` counted from `first`, when it lies within `count` letters of it.
fn letter_offset(c: char, first: u32, count: u32) -> (r: Option<usize>)
    requires
        97 <= first,
        first + count <= 123,
    ensures
        match r {
            Some(i) => i < count && c == letter(first - 97 + i),
            None => forall|i: int| 0 <= i < count ==> c != #[trigger] letter(first - 97 + i),
        },
{
    let v = c as u32;
    if first <= v && v < first + count {
        Some((v - first) as usize)
    } else {
        None
    }
}

/// Finds the primary cell whose label is the pair `first`, `second`.
pub fn resolve_primary_pair(first: char, second: char) -> (r: Option<Cell>)
    ensures
        primary_lookup(seq![first, second], r),
{
    let row = letter_offset(first, 97, 13);
    let col = letter_offset(second, 97, 13);
    if let (Some(row), Some(col)) = (row, col) {
        let cell = Cell { row, col };
        assert(primary_code(cell) =~= seq![first, second]);
        Some(cell)
    } else {
        assert forall|cell: Cell| cell.in_primary() implies primary_code(cell) != seq![
            first,
            second,
        ] by {
            if primary_code(cell) == seq![first, second] {
                assert(primary_code(cell)[0] == first);
                assert(primary_code(cell)[1] == second);
                assert(first == letter(97 - 97 + cell.row as int));
                assert(second == letter(97 - 97 + cell.col as int));
            }
        }
        None
    }
}

/// Finds the sub-grid cell whose label is the pair `first`, `second`.
pub fn resolve_sub_pair(first: char, second: char) -> (r: Option<Cell>)
    ensures
        sub_lookup(seq![first, second], r),
{
    let row = letter_offset(first, 101, 4);
    let col = letter_offset(second, 100, 6);
    if let (Some(row), Some(col)) = (row, col) {
        let cell = Cell { row, col };
        assert(sub_code(cell) =~= seq![first, second]);
        Some(cell)
    } else {
        assert forall|cell: Cell| cell.in_sub() implies sub_code(cell) != seq![
            first,
            second,
        ] by {
            if sub_code(cell) == seq![first, second] {
                assert(sub_code(cell)[0] == first);
                assert(sub_code(cell)[1] == second);
                assert(first == letter(101 - 97 + cell.row as int));
                assert(second == letter(100 - 97 + cell.col as int));
            }
        }
        None
    }
}

/// The first two characters of `code`, when it has exactly two.
fn two_chars(code: &str) -> (r: Option<(char, char)>)
    ensures
        code@.len() == 2 <==> r is Some,
        r matches Some(p) ==> code@ == seq![p.0, p.1],
{
    if code.unicode_len() == 2 {
        let a = code.get_char(0);
        let b = code.get_char(1);
        assert(code@ =~= seq![a, b]);
        Some((a, b))
    } else {
        None
    }
}

/// Finds the primary cell labelled `code`.
pub fn resolve_primary(code: &str) -> (r: Option<Cell>)
    ensures
        primary_lookup(code@, r),
        r == primary_cell_of(code@),
{
    let r = match two_chars(code) {
        Some((a, b)) => resolve_primary_pair(a, b),
        None => None,
    };
    proof {
        lemma_primary_lookup_unique(code@, r);
    }
    r
}

/// Finds the sub-grid cell labelled `code`.
pub fn resolve_sub(code: &str) -> (r: Option<Cell>)
    ensures
        sub_lookup(code@, r),
        r == sub_cell_of(code@),
{
    let r = match two_chars(code) {
        Some((a, b)) => resolve_sub_pair(a, b),
        None => None,
    };
    proof {
        lemma_sub_lookup_unique(code@, r);
    }
    r
}

/// Relies on `String::push`: appends one character at the end.
#[verifier::external_body]
fn push_char(s: &mut String, c: char)
    ensures
        final(s)@ == old(s)@.push(c),
{
    s.push(c)
}

fn two_letter_string(a: char, b: char) -> (r: String)
    ensures
        r@ == seq![a, b],
{
    let mut s = String::new();
    push_char(&mut s, a);
    push_char(&mut s, b);
    assert(s@ =~= seq![a, b]);
    s
}

/// The label drawn in a primary cell.
pub fn primary_label(cell: Cell) -> (r: String)
    requires
        cell.in_primary(),
    ensures
        r@ == primary_code(cell),
{
    two_letter_string((97 + cell.row as u8) as char, (97 + cell.col as u8) as char)
}

/// The label drawn in a sub-grid cell.
pub fn sub_label(cell: Cell) -> (r: String)
    requires
        cell.in_sub(),
    ensures
        r@ == sub_code(cell),
{
    two_letter_string((101 + cell.row as u8) as char, (100 + cell.col as u8) as char)
}

proof fn lemma_primary_code_injective(a: Cell, b: Cell)
    requires
        a.in_primary(),
        b.in_primary(),
        primary_code(a) == primary_code(b),
    ensures
        a == b,
{
    assert(primary_code(a)[0] == primary_code(b)[0]);
    assert(primary_code(a)[1] == primary_code(b)[1]);
}

proof fn lemma_sub_code_injective(a: Cell, b: Cell)
    requires
        a.in_sub(),
        b.in_sub(),
        sub_code(a) == sub_code(b),
    ensures
        a == b,
{
    assert(sub_code(a)[0] == sub_code(b)[0]);
    assert(sub_code(a)[1] == sub_code(b)[1]);
}

/// The primary codes and the primary cells are in one-to-one correspondence:
/// distinct cells have distinct codes, each cell's code leads back to that
/// cell, and whatever a code leads to is a cell carrying that code.
pub proof fn lemma_primary_bijection(a: Cell, b: Cell, code: Seq<char>)
    requires
        a.in_primary(),
        b.in_primary(),
    ensures
        primary_code(a) == primary_code(b) ==> a == b,
        primary_cell_of(primary_code(a)) == Some(a),
        primary_cell_of(code) matches Some(c) ==> c.in_primary() && primary_code(c) == code,
{
    if primary_code(a) == primary_code(b) {
        lemma_primary_code_injective(a, b);
    }
    let c = primary_cell_of(primary_code(a))->Some_0;
    lemma_primary_code_injective(a, c);
}

/// The sub-grid codes and the sub-grid cells are in one-to-one correspondence:
/// distinct cells have distinct codes, each cell's code leads back to that
/// cell, and whatever a code leads to is a cell carrying that code.
pub proof fn lemma_sub_bijection(a: Cell, b: Cell, code: Seq<char>)
    requires
        a.in_sub(),
        b.in_sub(),
    ensures
        sub_code(a) == sub_code(b) ==> a == b,
        sub_cell_of(sub_code(a)) == Some(a),
        sub_cell_of(code) matches Some(c) ==> c.in_sub() && sub_code(c) == code,
{
    if sub_code(a) == sub_code(b) {
        lemma_sub_code_injective(a, b);
    }
    let c = sub_cell_of(sub_code(a))->Some_0;
    lemma_sub_code_injective(a, c);
}

/// A primary lookup has one possible answer.
pub proof fn lemma_primary_lookup_unique(code: Seq<char>, r: Option<Cell>)
    requires
        primary_lookup(code, r),
    ensures
        r == primary_cell_of(code),
{
    if let Some(c) = primary_cell_of(code) {
        if let Some(d) = r {
            lemma_primary_code_injective(c, d);
        }
    }
}

/// A sub-grid lookup has one possible answer.
pub proof fn lemma_sub_lookup_unique(code: Seq<char>, r: Option<Cell>)
    requires
        sub_lookup(code, r),
    ensures
        r == sub_cell_of(code),
{
    if let Some(c) = sub_cell_of(code) {
        if let Some(d) = r {
            lemma_sub_code_injective(c, d);
        }
    }
}

} // verus!
