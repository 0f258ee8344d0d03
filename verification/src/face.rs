use vstd::prelude::*;

verus! {

/// Number of character cells on the clock face ("HH:MM:SS").
pub const FACE_CELLS: usize = 8;

/// Horizontal pixel position of the first cell.
pub const FIRST_CELL_X: i32 = 60;

/// Width in pixels of one character cell.
pub const CELL_WIDTH: i32 = 12;

/// Pixel row of the top edge of every cell.
pub const CELL_TOP_Y: i32 = 130;

/// Height in pixels of one character cell.
pub const CELL_HEIGHT: u32 = 22;

/// Pixel row of the text baseline in every cell.
pub const TEXT_BASELINE_Y: i32 = 150;

/// The character that stands for the decimal digit `d` (0 to 9).
pub open spec fn digit_char(d: int) -> char {
    (48 + d) as char
}

/// The eight characters "HH:MM:SS" that show `hour`, `minute` and `second`,
/// each as two decimal digits.
pub open spec fn face_of(hour: int, minute: int, second: int) -> Seq<char> {
    seq![
        digit_char(hour / 10),
        digit_char(hour % 10),
        ':',
        digit_char(minute / 10),
        digit_char(minute % 10),
        ':',
        digit_char(second / 10),
        digit_char(second % 10),
    ]
}

/// The number that the two digit characters `tens` and `ones` write.
pub open spec fn read_two_digits(tens: char, ones: char) -> int {
    (tens as int - 48) * 10 + (ones as int - 48)
}

/// The face gives the reading back: every cell but the two colons is a
/// decimal digit '0' to '9', and the digit pairs read as the hour, the minute
/// and the second it was made from.
pub proof fn lemma_face_reads_back(hour: int, minute: int, second: int)
    requires
        0 <= hour < 100,
        0 <= minute < 100,
        0 <= second < 100,
    ensures
        read_two_digits(face_of(hour, minute, second)[0], face_of(hour, minute, second)[1])
            == hour,
        read_two_digits(face_of(hour, minute, second)[3], face_of(hour, minute, second)[4])
            == minute,
        read_two_digits(face_of(hour, minute, second)[6], face_of(hour, minute, second)[7])
            == second,
        face_of(hour, minute, second)[2] == ':' && face_of(hour, minute, second)[5] == ':',
        face_of(hour, minute, second).len() == 8,
        forall|i: int|
            0 <= i < 8 && i != 2 && i != 5 ==> '0' <= #[trigger] face_of(hour, minute, second)[i]
                <= '9',
{
}

/// Calls `char::from_digit(num, 10)`.
/// Claimed, as std documents it: a number below the radix gives the
/// character of that digit ('0' to '9' in radix 10), any other gives `None`.
#[verifier::external_body]
fn from_decimal_digit(num: u32) -> (r: Option<char>)
    ensures
        num < 10 ==> r == Some(digit_char(num as int)),
        num >= 10 ==> r is None,
{
    char::from_digit(num, 10)
}

/// The two digit characters of `value`, tens first.
fn two_digits(value: u8) -> (r: (char, char))
    requires
        value < 100,
    ensures
        r.0 == digit_char(value as int / 10),
        r.1 == digit_char(value as int % 10),
{
    let tens = from_decimal_digit((value / 10) as u32).unwrap();
    let ones = from_decimal_digit((value % 10) as u32).unwrap();
    (tens, ones)
}

/// The clock face "HH:MM:SS" for a reading of `hour`, `minute` and `second`.
pub fn clock_face(hour: u8, minute: u8, second: u8) -> (r: [char; 8])
    requires
        hour < 100,
        minute < 100,
        second < 100,
    ensures
        r@ == face_of(hour as int, minute as int, second as int),
{
    let (h1, h0) = two_digits(hour);
    let (m1, m0) = two_digits(minute);
    let (s1, s0) = two_digits(second);
    let r = [h1, h0, ':', m1, m0, ':', s1, s0];
    assert(r@ =~= face_of(hour as int, minute as int, second as int));
    r
}

/// The byte that the text of a cell is drawn from: the low eight bits of the
/// glyph's code point, which must form a one-byte UTF-8 string.
pub fn glyph_byte(glyph: char) -> (r: u8)
    requires
        (glyph as u32) % 256 < 128,
    ensures
        r as u32 == (glyph as u32) % 256,
{
    let code: u32 = glyph as u32;
    (code % 256) as u8
}

/// One character cell of the face to repaint: clear the cell at pixel column
/// `x` and draw `glyph` in it.
#[derive(Clone, Copy, Debug, PartialEq, Eq, Structural)]
pub struct CellUpdate {
    pub index: usize,
    pub x: i32,
    pub glyph: char,
}

/// Pixel column of the left edge of cell `index`.
pub open spec fn cell_x(index: int) -> int {
    FIRST_CELL_X + CELL_WIDTH * index
}

/// The repaint of cell `index` with `glyph`.
pub open spec fn cell_update(index: int, glyph: char) -> CellUpdate {
    CellUpdate { index: index as usize, x: cell_x(index) as i32, glyph }
}

/// The repaints that turn the first `n` cells of `shown` into those of
/// `wanted`: one per cell that differs, in order of the cells.
pub open spec fn changed_cells(shown: Seq<char>, wanted: Seq<char>, n: nat) -> Seq<CellUpdate>
    decreases n,
{
    if n == 0 {
        seq![]
    } else {
        let earlier = changed_cells(shown, wanted, (n - 1) as nat);
        let i: int = n - 1;
        if shown[i] != wanted[i] {
            earlier.push(cell_update(i, wanted[i]))
        } else {
            earlier
        }
    }
}

/// The cells of `shown` after each repaint of `updates` has been carried out
/// in order.
pub open spec fn apply_updates(shown: Seq<char>, updates: Seq<CellUpdate>) -> Seq<char>
    decreases updates.len(),
{
    if updates.len() == 0 {
        shown
    } else {
        let last = updates.last();
        apply_updates(shown, updates.drop_last()).update(last.index as int, last.glyph)
    }
}

/// Plans the repaint of the face: for each cell where `shown` differs from
/// `wanted`, in order, one update; `shown` then holds `wanted`.
pub fn plan_redraw(shown: &mut [char; 8], wanted: &[char; 8]) -> (r: Vec<CellUpdate>)
    ensures
        final(shown)@ == wanted@,
        r@ == changed_cells(old(shown)@, wanted@, 8),
{
    let mut updates: Vec<CellUpdate> = Vec::new();
    let ghost before = shown@;
    for i in 0..FACE_CELLS
        invariant
            before == old(shown)@,
            updates@ == changed_cells(before, wanted@, i as nat),
            forall|j: int| 0 <= j < i ==> shown@[j] == wanted@[j],
            forall|j: int| i <= j < 8 ==> shown@[j] == before[j],
    {
        if shown[i] != wanted[i] {
            let x: i32 = FIRST_CELL_X + (i as i32) * CELL_WIDTH;
            updates.push(CellUpdate { index: i, x, glyph: wanted[i] });
            shown[i] = wanted[i];
        }
    }
    assert(shown@ =~= wanted@);
    updates
}

/// `shown` with its first `n` cells taken from `wanted`.
pub open spec fn overlay(shown: Seq<char>, wanted: Seq<char>, n: int) -> Seq<char> {
    Seq::new(shown.len(), |j: int| if j < n { wanted[j] } else { shown[j] })
}

/// Carrying out the planned repaints in order turns the first `n` shown cells
/// into the wanted ones and leaves the others alone; over the whole face the
/// screen then shows exactly the wanted face.
pub proof fn lemma_redraw_reaches_wanted(shown: Seq<char>, wanted: Seq<char>, n: nat)
    requires
        n <= shown.len(),
        shown.len() == wanted.len(),
        shown.len() <= FACE_CELLS,
    ensures
        apply_updates(shown, changed_cells(shown, wanted, n)) == overlay(shown, wanted, n as int),
        n == shown.len() ==> apply_updates(shown, changed_cells(shown, wanted, n)) == wanted,
    decreases n,
{
    if n > 0 {
        lemma_redraw_reaches_wanted(shown, wanted, (n - 1) as nat);
        let i: int = n - 1;
        if shown[i] != wanted[i] {
            let ups = changed_cells(shown, wanted, n);
            assert(ups.drop_last() == changed_cells(shown, wanted, (n - 1) as nat));
            assert(apply_updates(shown, ups) =~= overlay(shown, wanted, n as int));
        } else {
            assert(overlay(shown, wanted, (n - 1) as int) =~= overlay(shown, wanted, n as int));
        }
    } else {
        assert(shown =~= overlay(shown, wanted, 0));
    }
    if n == shown.len() {
        assert(overlay(shown, wanted, n as int) =~= wanted);
    }
}

/// Each planned repaint names a cell among the first `n` that differs, draws
/// the wanted glyph at that cell's column, and the cells come in strictly
/// increasing order; every differing cell gets a repaint.
pub proof fn lemma_redraw_is_minimal(shown: Seq<char>, wanted: Seq<char>, n: nat)
    requires
        n <= shown.len(),
        shown.len() == wanted.len(),
        shown.len() <= FACE_CELLS,
    ensures
        forall|k: int|
            0 <= k < changed_cells(shown, wanted, n).len() ==> {
                let u = #[trigger] changed_cells(shown, wanted, n)[k];
                &&& 0 <= u.index < n
                &&& shown[u.index as int] != wanted[u.index as int]
                &&& u.glyph == wanted[u.index as int]
                &&& u.x == cell_x(u.index as int)
            },
        forall|k: int, l: int|
            0 <= k < l < changed_cells(shown, wanted, n).len() ==> (#[trigger] changed_cells(
                shown,
                wanted,
                n,
            )[k]).index < (#[trigger] changed_cells(shown, wanted, n)[l]).index,
        forall|j: int|
            0 <= j < n && shown[j] != wanted[j] ==> exists|k: int|
                0 <= k < changed_cells(shown, wanted, n).len() && (#[trigger] changed_cells(
                    shown,
                    wanted,
                    n,
                )[k]).index == j,
    decreases n,
{
    if n > 0 {
        lemma_redraw_is_minimal(shown, wanted, (n - 1) as nat);
        let prev = changed_cells(shown, wanted, (n - 1) as nat);
        let cur = changed_cells(shown, wanted, n);
        let i: int = n - 1;
        if shown[i] != wanted[i] {
            assert(cur[prev.len() as int].index == i);
            assert forall|j: int| 0 <= j < n && shown[j] != wanted[j] implies exists|k: int|
                0 <= k < cur.len() && (#[trigger] cur[k]).index == j by {
                if j < i {
                    let k: int = choose|k: int| 0 <= k < prev.len() && (#[trigger] prev[k]).index == j;
                    assert(cur[k] == prev[k]);
                } else {
                    assert(cur[prev.len() as int].index == j);
                }
            }
        }
    }
}

/// When the shown cells already match the wanted ones, nothing is repainted;
/// in particular a second plan right after a first one is empty.
pub proof fn lemma_redraw_idle_when_unchanged(shown: Seq<char>, wanted: Seq<char>, n: nat)
    requires
        n <= shown.len(),
        shown.len() == wanted.len(),
        forall|j: int| 0 <= j < n ==> shown[j] == wanted[j],
    ensures
        changed_cells(shown, wanted, n).len() == 0,
    decreases n,
{
    if n > 0 {
        lemma_redraw_idle_when_unchanged(shown, wanted, (n - 1) as nat);
    }
}

} // verus!
