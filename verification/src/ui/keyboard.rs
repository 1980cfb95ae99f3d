//! The on-screen keyboard: its keys, numbered row by row, and how the wheel's
//! buttons move between them.

use vstd::prelude::*;

verus! {

/// Total number of keyboard keys (rows 0–3).
pub const KB_TOTAL: i32 = 29;

/// The key that takes back a character.
pub const KB_BACKSPACE: i32 = 26;

/// The key that ends the input.
pub const KB_SUBMIT: i32 = 28;

/// Flat key labels in row order.
/// Row 0 (0–9):   Q W E R T Y U I O P
/// Row 1 (10–18): A S D F G H J K L
/// Row 2 (19–25): Z X C V B N M
/// Row 3 (26–28): ⌫  (space)  ✓
pub open spec fn keys() -> Seq<Seq<char>> {
    seq![
        "Q"@, "W"@, "E"@, "R"@, "T"@, "Y"@, "U"@, "I"@, "O"@, "P"@,
        "A"@, "S"@, "D"@, "F"@, "G"@, "H"@, "J"@, "K"@, "L"@,
        "Z"@, "X"@, "C"@, "V"@, "B"@, "N"@, "M"@,
        "⌫"@, " "@, "✓"@,
    ]
}

/// The label of a key, where there is such a key.
pub open spec fn key_of(idx: int) -> Option<Seq<char>> {
    if 0 <= idx < KB_TOTAL {
        Some(keys()[idx])
    } else {
        None
    }
}

/// The label of a key, where there is such a key.
pub fn kb_key(idx: i32) -> (r: Option<&'static str>)
    ensures
        r.deep_view() == key_of(idx as int),
{
    let label: &'static str = match idx {
        0 => "Q",
        1 => "W",
        2 => "E",
        3 => "R",
        4 => "T",
        5 => "Y",
        6 => "U",
        7 => "I",
        8 => "O",
        9 => "P",
        10 => "A",
        11 => "S",
        12 => "D",
        13 => "F",
        14 => "G",
        15 => "H",
        16 => "J",
        17 => "K",
        18 => "L",
        19 => "Z",
        20 => "X",
        21 => "C",
        22 => "V",
        23 => "B",
        24 => "N",
        25 => "M",
        26 => "⌫",
        27 => " ",
        28 => "✓",
        _ => return None,
    };
    Some(label)
}

// ── Rows and columns ─────────────────────────────────────────────────────────

/// The number of keys in a row.
pub open spec fn row_size(row: int) -> int {
    if row == 0 {
        10
    } else if row == 1 {
        9
    } else if row == 2 {
        7
    } else {
        3
    }
}

/// First flat index of a row.
pub open spec fn row_start(row: int) -> int {
    if row == 0 {
        0
    } else if row == 1 {
        10
    } else if row == 2 {
        19
    } else {
        26
    }
}

/// The row that an index falls into; everything in front of the second row
/// counts to the first, everything behind the third to the last.
pub open spec fn row_of(idx: int) -> int {
    if idx < row_start(1) {
        0
    } else if idx < row_start(2) {
        1
    } else if idx < row_start(3) {
        2
    } else {
        3
    }
}

pub open spec fn col_of(idx: int) -> int {
    idx - row_start(row_of(idx))
}

/// The key of a row in a column, or the row's last key where the row is shorter.
pub open spec fn key_in(row: int, col: int) -> int {
    row_start(row) + (if col < row_size(row) {
        col
    } else {
        row_size(row) - 1
    })
}

pub open spec fn right_of(idx: int) -> int {
    if idx + 1 < KB_TOTAL {
        idx + 1
    } else {
        KB_TOTAL - 1
    }
}

pub open spec fn left_of(idx: int) -> int {
    if idx - 1 > 0 {
        idx - 1
    } else {
        0
    }
}

pub open spec fn below(idx: int) -> int {
    if row_of(idx) == 3 {
        idx
    } else {
        key_in(row_of(idx) + 1, col_of(idx))
    }
}

pub open spec fn above(idx: int) -> int {
    if row_of(idx) == 0 {
        idx
    } else {
        key_in(row_of(idx) - 1, col_of(idx))
    }
}

pub fn kb_row_of(idx: i32) -> (r: i32)
    ensures
        r == row_of(idx as int),
{
    if idx < 10 {
        0
    } else if idx < 19 {
        1
    } else if idx < 26 {
        2
    } else {
        3
    }
}

fn kb_row_start(row: i32) -> (r: i32)
    ensures
        r == row_start(row as int),
{
    if row == 0 {
        0
    } else if row == 1 {
        10
    } else if row == 2 {
        19
    } else {
        26
    }
}

fn kb_row_size(row: i32) -> (r: i32)
    ensures
        r == row_size(row as int),
{
    if row == 0 {
        10
    } else if row == 1 {
        9
    } else if row == 2 {
        7
    } else {
        3
    }
}

pub fn kb_col_of(idx: i32) -> (r: i32)
    ensures
        r == col_of(idx as int),
{
    idx - kb_row_start(kb_row_of(idx))
}

fn kb_key_in(row: i32, col: i32) -> (r: i32)
    ensures
        r == key_in(row as int, col as int),
{
    let size: i32 = kb_row_size(row);
    if col < size {
        kb_row_start(row) + col
    } else {
        kb_row_start(row) + (size - 1)
    }
}

pub fn kb_nav_right(idx: i32) -> (r: i32)
    requires
        idx < i32::MAX,
    ensures
        r == right_of(idx as int),
{
    if idx + 1 < KB_TOTAL {
        idx + 1
    } else {
        KB_TOTAL - 1
    }
}

pub fn kb_nav_left(idx: i32) -> (r: i32)
    requires
        idx > i32::MIN,
    ensures
        r == left_of(idx as int),
{
    if idx - 1 > 0 {
        idx - 1
    } else {
        0
    }
}

pub fn kb_nav_down(idx: i32) -> (r: i32)
    ensures
        r == below(idx as int),
{
    let row: i32 = kb_row_of(idx);
    if row >= 3 {
        return idx;
    }
    kb_key_in(row + 1, kb_col_of(idx))
}

pub fn kb_nav_up(idx: i32) -> (r: i32)
    ensures
        r == above(idx as int),
{
    let row: i32 = kb_row_of(idx);
    if row == 0 {
        return idx;
    }
    kb_key_in(row - 1, kb_col_of(idx))
}

// ── Typing ───────────────────────────────────────────────────────────────────

/// The input after a key other than the one that ends it.
pub open spec fn typed(input: Seq<char>, idx: int) -> Seq<char> {
    if idx == KB_BACKSPACE {
        if input.len() > 0 {
            input.drop_last()
        } else {
            input
        }
    } else {
        match key_of(idx) {
            Some(key) => input + key,
            None => input,
        }
    }
}

/// The input after a key other than the one that ends it.
pub fn type_key(input: &str, idx: i32) -> (r: String)
    ensures
        r@ == typed(input@, idx as int),
{
    if idx == KB_BACKSPACE {
        let n: usize = input.unicode_len();
        if n > 0 {
            assert(input@.subrange(0, n - 1) == input@.drop_last());
            return input.substring_char(0, n - 1).to_string();
        }
        return input.to_string();
    }
    match kb_key(idx) {
        Some(key) => input.to_string().concat(key),
        None => input.to_string(),
    }
}

// ── Laws ─────────────────────────────────────────────────────────────────────

/// From a key, every direction leads to a key.
pub proof fn law_moves_stay_on_the_keyboard(idx: int)
    requires
        0 <= idx < KB_TOTAL,
    ensures
        0 <= right_of(idx) < KB_TOTAL,
        0 <= left_of(idx) < KB_TOTAL,
        0 <= below(idx) < KB_TOTAL,
        0 <= above(idx) < KB_TOTAL,
{
}

/// Rows and columns number the keys: an index is its row's start and its
/// column, and the column lies within the row.
pub proof fn law_rows_and_columns(idx: int)
    requires
        0 <= idx < KB_TOTAL,
    ensures
        0 <= row_of(idx) < 4,
        0 <= col_of(idx) < row_size(row_of(idx)),
        key_in(row_of(idx), col_of(idx)) == idx,
        row_start(3) + row_size(3) == KB_TOTAL,
        forall|r: int| 0 <= r < 3 ==> #[trigger] row_start(r) + row_size(r) == row_start(r + 1),
{
}

/// Left undoes right and right undoes left, but for the key at either end.
pub proof fn law_left_and_right(idx: int)
    requires
        0 <= idx < KB_TOTAL,
    ensures
        idx < KB_TOTAL - 1 ==> left_of(right_of(idx)) == idx,
        idx > 0 ==> right_of(left_of(idx)) == idx,
        right_of(KB_TOTAL - 1) == KB_TOTAL - 1,
        left_of(0) == 0,
{
}

/// Down undoes up from every row but the first; up undoes down wherever the
/// lower row is long enough, and else ends in the same row further left.
pub proof fn law_up_and_down(idx: int)
    requires
        0 <= idx < KB_TOTAL,
    ensures
        row_of(idx) > 0 ==> below(above(idx)) == idx,
        row_of(idx) < 3 && col_of(idx) < row_size(row_of(idx) + 1) ==> above(below(idx)) == idx,
        row_of(idx) < 3 ==> row_of(above(below(idx))) == row_of(idx),
        row_of(idx) < 3 ==> above(below(idx)) <= idx,
{
}

/// The backspace takes back what any other key wrote.
pub proof fn law_backspace_undoes_a_key(input: Seq<char>, idx: int)
    requires
        0 <= idx < KB_TOTAL,
        idx != KB_BACKSPACE,
    ensures
        typed(typed(input, idx), KB_BACKSPACE as int) == input,
{
    lemma_keys_are_single(idx);
    let key = keys()[idx];
    assert((input + key).drop_last() =~= input);
}

proof fn lemma_keys_are_single(idx: int)
    requires
        0 <= idx < KB_TOTAL,
    ensures
        keys()[idx].len() == 1,
{
    reveal_strlit("Q");
    reveal_strlit("W");
    reveal_strlit("E");
    reveal_strlit("R");
    reveal_strlit("T");
    reveal_strlit("Y");
    reveal_strlit("U");
    reveal_strlit("I");
    reveal_strlit("O");
    reveal_strlit("P");
    reveal_strlit("A");
    reveal_strlit("S");
    reveal_strlit("D");
    reveal_strlit("F");
    reveal_strlit("G");
    reveal_strlit("H");
    reveal_strlit("J");
    reveal_strlit("K");
    reveal_strlit("L");
    reveal_strlit("Z");
    reveal_strlit("X");
    reveal_strlit("C");
    reveal_strlit("V");
    reveal_strlit("B");
    reveal_strlit("N");
    reveal_strlit("M");
    reveal_strlit("⌫");
    reveal_strlit(" ");
    reveal_strlit("✓");
}

/// The keys write the letters of the three rows from left to right, the backspace, the
/// space and the tick; there is no key behind the last, and none in front of the first.
pub proof fn law_keys_in_their_rows(idx: int)
    ensures
        0 <= idx < 26 ==> key_of(idx) == Some(seq!["QWERTYUIOPASDFGHJKLZXCVBNM"@[idx]]),
        key_of(26) == Some("⌫"@),
        key_of(27) == Some(seq![' ']),
        key_of(28) == Some("✓"@),
        idx < 0 || idx > 28 ==> key_of(idx) is None,
{
    reveal_strlit("QWERTYUIOPASDFGHJKLZXCVBNM");
    if 0 <= idx < 29 {
        lemma_keys_are_single(idx);
    }
    lemma_key_characters(idx);
    if 0 <= idx < 26 {
        assert(keys()[idx] =~= seq!["QWERTYUIOPASDFGHJKLZXCVBNM"@[idx]]);
    }
    reveal_strlit(" ");
    assert(" "@ =~= seq![' ']);
}

proof fn lemma_key_characters(idx: int)
    ensures
        0 <= idx < 26 ==> keys()[idx].len() == 1 && keys()[idx][0]
            == "QWERTYUIOPASDFGHJKLZXCVBNM"@[idx],
{
    reveal_strlit("QWERTYUIOPASDFGHJKLZXCVBNM");
    reveal_strlit("Q");
    reveal_strlit("W");
    reveal_strlit("E");
    reveal_strlit("R");
    reveal_strlit("T");
    reveal_strlit("Y");
    reveal_strlit("U");
    reveal_strlit("I");
    reveal_strlit("O");
    reveal_strlit("P");
    reveal_strlit("A");
    reveal_strlit("S");
    reveal_strlit("D");
    reveal_strlit("F");
    reveal_strlit("G");
    reveal_strlit("H");
    reveal_strlit("J");
    reveal_strlit("K");
    reveal_strlit("L");
    reveal_strlit("Z");
    reveal_strlit("X");
    reveal_strlit("C");
    reveal_strlit("V");
    reveal_strlit("B");
    reveal_strlit("N");
    reveal_strlit("M");
}

/// Typing puts the character of the key behind the text, the backspace takes the last
/// character away where there is one, and what is no key changes nothing.
pub proof fn law_typing(input: Seq<char>, idx: int)
    ensures
        0 <= idx < 26 ==> typed(input, idx) == input.push("QWERTYUIOPASDFGHJKLZXCVBNM"@[idx]),
        typed(input, 27) == input.push(' '),
        input.len() > 0 ==> typed(input, 26) == input.take(input.len() - 1),
        input.len() == 0 ==> typed(input, 26) == input,
        idx < 0 || idx > 28 ==> typed(input, idx) == input,
{
    law_keys_in_their_rows(idx);
    law_keys_in_their_rows(27);
    if 0 <= idx < 26 {
        let c = "QWERTYUIOPASDFGHJKLZXCVBNM"@[idx];
        assert(input + seq![c] =~= input.push(c));
    }
    assert(input + seq![' '] =~= input.push(' '));
    if input.len() > 0 {
        assert(input.drop_last() =~= input.take(input.len() - 1));
    }
}

/// Right and left lead to the neighbouring key, over the ends of the rows, and stop at
/// the last and the first key.
pub proof fn law_right_and_left_lead_on(idx: int)
    requires
        0 <= idx < 29,
    ensures
        idx < 28 ==> right_of(idx) == idx + 1,
        right_of(28) == 28,
        idx > 0 ==> left_of(idx) == idx - 1,
        left_of(0) == 0,
{
}

/// Up and down lead to the key of the same column one row further, or to the last of
/// that row where it is shorter; from the first row there is no way up, and from the
/// last none down. The rows hold ten, nine, seven and three keys.
pub proof fn law_up_and_down_keep_the_column(idx: int)
    ensures
        0 <= idx < 9 ==> below(idx) == idx + 10,
        below(9) == 18,
        10 <= idx < 17 ==> below(idx) == idx + 9,
        17 <= idx < 19 ==> below(idx) == 25,
        19 <= idx < 22 ==> below(idx) == idx + 7,
        22 <= idx < 26 ==> below(idx) == 28,
        26 <= idx ==> below(idx) == idx,
        idx < 10 ==> above(idx) == idx,
        10 <= idx < 19 ==> above(idx) == idx - 10,
        19 <= idx < 26 ==> above(idx) == idx - 9,
        26 <= idx < 29 ==> above(idx) == idx - 7,
        0 <= idx < 10 ==> row_of(idx) == 0 && col_of(idx) == idx,
        10 <= idx < 19 ==> row_of(idx) == 1 && col_of(idx) == idx - 10,
        19 <= idx < 26 ==> row_of(idx) == 2 && col_of(idx) == idx - 19,
        26 <= idx ==> row_of(idx) == 3 && col_of(idx) == idx - 26,
{
}

} // verus!
