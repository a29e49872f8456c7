//! The control side: a position read from text, and the rule by which a
//! reading becomes a new tone.
//!
//! The text holds two numerals, `x` then `y`, with blanks between and around
//! them; what follows the second is not looked at. It is taken as UTF-8. Text that holds fewer, or
//! a first or second word that is no numeral, yields no position, and with
//! no position nothing changes.

use vstd::prelude::*;
use vstd::slice::slice_subrange;
use crate::decimal::{coordinate_of, read_coordinate};
use crate::mapper::{
    in_range, normalizar_valores_pentatonica, tone_of, NormalizedPosition, ToneParameters,
};
use crate::units::{distance_spec, farther_than};

verus! {

/// A reading has to differ from the last applied one by more than this, on
/// either axis, to be applied.
pub const EPSILON: i64 = 1_000;

/// What a missing control file is created with.
pub const DEFAULT_CONTROL_TEXT: &'static str = "0.0 0.0";

/// The number of bytes that the blank at `at` takes, or zero where no
/// blank starts there. The blanks are the white space of Unicode in UTF-8:
/// the space, the controls from tab to carriage return, and the characters
/// U+0085, U+00A0, U+1680, U+2000 to U+200A, U+2028, U+2029, U+202F, U+205F
/// and U+3000.
pub open spec fn blank_len(text: Seq<u8>, at: int) -> int {
    if !(0 <= at < text.len()) {
        0
    } else if text[at] == 0x20 || 0x09 <= text[at] <= 0x0d {
        1
    } else if at + 1 < text.len() && text[at] == 0xc2 && (text[at + 1] == 0x85 || text[at + 1]
        == 0xa0) {
        2
    } else if at + 2 >= text.len() {
        0
    } else if text[at] == 0xe1 && text[at + 1] == 0x9a && text[at + 2] == 0x80 {
        3
    } else if text[at] == 0xe2 && text[at + 1] == 0x80 && (0x80 <= text[at + 2] <= 0x8a || text[at
        + 2] == 0xa8 || text[at + 2] == 0xa9 || text[at + 2] == 0xaf) {
        3
    } else if text[at] == 0xe2 && text[at + 1] == 0x81 && text[at + 2] == 0x9f {
        3
    } else if text[at] == 0xe3 && text[at + 1] == 0x80 && text[at + 2] == 0x80 {
        3
    } else {
        0
    }
}

/// Where the run of blanks that starts at `from` ends.
pub open spec fn blanks_end(text: Seq<u8>, from: int) -> int
    decreases text.len() - from,
{
    if blank_len(text, from) > 0 {
        blanks_end(text, from + blank_len(text, from))
    } else {
        from
    }
}

/// Where the word that starts at `from` ends: at the next blank or at the
/// end of the text.
pub open spec fn word_end(text: Seq<u8>, from: int) -> int
    decreases text.len() - from,
{
    if 0 <= from < text.len() && blank_len(text, from) == 0 {
        word_end(text, from + 1)
    } else {
        from
    }
}

/// The position that `text` holds, if it holds one.
pub open spec fn position_of(text: Seq<u8>) -> Option<(i64, i64)> {
    let first_start = blanks_end(text, 0);
    let first_end = word_end(text, first_start);
    let second_start = blanks_end(text, first_end);
    let second_end = word_end(text, second_start);
    if second_start >= text.len() {
        None
    } else {
        match (
            coordinate_of(text.subrange(first_start, first_end)),
            coordinate_of(text.subrange(second_start, second_end)),
        ) {
            (Some(x), Some(y)) => Some((x, y)),
            _ => None,
        }
    }
}

/// Measures the blank at `at`.
fn blank_at(text: &[u8], at: usize) -> (len: usize)
    requires
        at <= text.len(),
    ensures
        len == blank_len(text@, at as int),
        at + len <= text.len(),
{
    if at >= text.len() {
        return 0;
    }
    let first: u8 = text[at];
    if first == 0x20 || (0x09 <= first && first <= 0x0d) {
        return 1;
    }
    let left: usize = text.len() - at;
    if left >= 2 && first == 0xc2 && (text[at + 1] == 0x85 || text[at + 1] == 0xa0) {
        return 2;
    }
    if left < 3 {
        return 0;
    }
    let second: u8 = text[at + 1];
    let third: u8 = text[at + 2];
    if first == 0xe1 && second == 0x9a && third == 0x80 {
        3
    } else if first == 0xe2 && second == 0x80 && ((0x80 <= third && third <= 0x8a) || third == 0xa8
        || third == 0xa9 || third == 0xaf) {
        3
    } else if first == 0xe2 && second == 0x81 && third == 0x9f {
        3
    } else if first == 0xe3 && second == 0x80 && third == 0x80 {
        3
    } else {
        0
    }
}

/// Finds the end of the run of blanks that starts at `from`.
fn skip_blanks(text: &[u8], from: usize) -> (end: usize)
    requires
        from <= text.len(),
    ensures
        end == blanks_end(text@, from as int),
        from <= end <= text.len(),
{
    let mut end: usize = from;
    loop
        invariant
            from <= end <= text.len(),
            blanks_end(text@, from as int) == blanks_end(text@, end as int),
        ensures
            from <= end <= text.len(),
            end == blanks_end(text@, from as int),
        decreases text.len() - end,
    {
        let len: usize = blank_at(text, end);
        if len == 0 {
            break;
        }
        end += len;
    }
    end
}

/// Finds the end of the word that starts at `from`.
fn skip_word(text: &[u8], from: usize) -> (end: usize)
    requires
        from <= text.len(),
    ensures
        end == word_end(text@, from as int),
        from <= end <= text.len(),
{
    let mut end: usize = from;
    while end < text.len() && blank_at(text, end) == 0
        invariant
            from <= end <= text.len(),
            word_end(text@, from as int) == word_end(text@, end as int),
        decreases text.len() - end,
    {
        end += 1;
    }
    end
}

/// Reads `x` and `y` from the content of the control file, each limited to
/// the range from -1 to 1.
pub fn ler_xy_do_arquivo(conteudo: &[u8]) -> (r: Option<(i64, i64)>)
    ensures
        r == position_of(conteudo@),
        r matches Some((x, y)) ==> in_range(x as int) && in_range(y as int),
{
    let first_start: usize = skip_blanks(conteudo, 0);
    let first_end: usize = skip_word(conteudo, first_start);
    let second_start: usize = skip_blanks(conteudo, first_end);
    let second_end: usize = skip_word(conteudo, second_start);
    if second_start >= conteudo.len() {
        return None;
    }
    let x: Option<i64> = read_coordinate(slice_subrange(conteudo, first_start, first_end));
    let y: Option<i64> = read_coordinate(slice_subrange(conteudo, second_start, second_end));
    match (x, y) {
        (Some(x), Some(y)) => Some((x, y)),
        _ => None,
    }
}

/// What was found where the control file should be.
#[derive(Clone, Copy, Debug)]
pub enum ControlFile<'a> {
    /// There is no such file.
    Missing,
    /// The file is there but could not be read as text.
    Unreadable,
    /// The file holds this.
    Content(&'a [u8]),
}

/// What follows from a look at the control file.
#[derive(Clone, Copy, Debug, PartialEq, Eq)]
pub struct Inspection {
    /// The position read, if the file held one.
    pub reading: Option<(i64, i64)>,
    /// Whether the file is to be created with [`DEFAULT_CONTROL_TEXT`].
    pub create_default: bool,
}

/// What follows from a look at the control file: a missing file gives no
/// reading and is to be created; an unreadable one gives no reading; any
/// other gives the position that it holds, if it holds one. None of this is
/// an error.
pub open spec fn inspection_of(file: ControlFile) -> Inspection {
    match file {
        ControlFile::Missing => Inspection { reading: None, create_default: true },
        ControlFile::Unreadable => Inspection { reading: None, create_default: false },
        ControlFile::Content(text) => Inspection {
            reading: position_of(text@),
            create_default: false,
        },
    }
}

/// Decides what follows from a look at the control file: see
/// [`inspection_of`].
pub fn inspect(file: ControlFile) -> (r: Inspection)
    ensures
        r == inspection_of(file),
{
    match file {
        ControlFile::Missing => Inspection { reading: None, create_default: true },
        ControlFile::Unreadable => Inspection { reading: None, create_default: false },
        ControlFile::Content(text) => Inspection {
            reading: ler_xy_do_arquivo(text),
            create_default: false,
        },
    }
}

/// What one round of the control loop hands on: the position applied and the
/// tone it maps to.
#[derive(Clone, Copy, Debug, PartialEq, Eq, Structural)]
pub struct Update {
    pub x: i64,
    pub y: i64,
    pub tone: ToneParameters,
}

/// The control loop between two rounds: the position applied last.
#[derive(Clone, Copy, Debug, PartialEq, Eq, Structural)]
pub struct ControlLoop {
    pub ultimo_x: i64,
    pub ultimo_y: i64,
}

/// Whether the reading `(x, y)` lies far enough from the position applied
/// last to be applied.
pub open spec fn moved(last: ControlLoop, x: i64, y: i64) -> bool {
    distance_spec(x as int, last.ultimo_x as int) > EPSILON || distance_spec(
        y as int,
        last.ultimo_y as int,
    ) > EPSILON
}

/// One round: the loop afterwards and what is handed on. Without a reading,
/// or with one that has not moved, the loop stays as it is and nothing is
/// handed on.
pub open spec fn round_spec(last: ControlLoop, reading: Option<(i64, i64)>) -> (
    ControlLoop,
    Option<Update>,
) {
    match reading {
        Some((x, y)) => if moved(last, x, y) {
            (
                ControlLoop { ultimo_x: x, ultimo_y: y },
                Some(Update { x, y, tone: tone_of(x as int, y as int) }),
            )
        } else {
            (last, None)
        },
        None => (last, None),
    }
}

impl ControlLoop {
    /// A loop that has applied the origin.
    pub fn new() -> (control: Self)
        ensures
            control == (ControlLoop { ultimo_x: 0, ultimo_y: 0 }),
    {
        ControlLoop { ultimo_x: 0, ultimo_y: 0 }
    }

    /// One round on a reading, if there is one.
    pub fn round(&mut self, reading: Option<(i64, i64)>) -> (update: Option<Update>)
        ensures
            (*final(self), update) == round_spec(*old(self), reading),
    {
        match reading {
            Some((x, y)) => {
                if farther_than(x, self.ultimo_x, EPSILON) || farther_than(
                    y,
                    self.ultimo_y,
                    EPSILON,
                ) {
                    self.ultimo_x = x;
                    self.ultimo_y = y;
                    let (frequency, amplitude) = normalizar_valores_pentatonica((x, y));
                    Some(Update { x, y, tone: ToneParameters { frequency, amplitude } })
                } else {
                    None
                }
            },
            None => None,
        }
    }

    /// One round on the content of the control file.
    pub fn poll(&mut self, conteudo: &[u8]) -> (update: Option<Update>)
        ensures
            (*final(self), update) == round_spec(*old(self), position_of(conteudo@)),
    {
        let reading: Option<(i64, i64)> = ler_xy_do_arquivo(conteudo);
        self.round(reading)
    }
}

/// The tone to play once `position` has come in: its own tone where
/// something was detected, else the tone played before, unchanged.
pub fn next_tone(position: NormalizedPosition, prior: ToneParameters) -> (tone: ToneParameters)
    ensures
        tone == if position.detected {
            tone_of(position.x as int, position.y as int)
        } else {
            prior
        },
{
    if position.detected {
        let (frequency, amplitude) = normalizar_valores_pentatonica((position.x, position.y));
        ToneParameters { frequency, amplitude }
    } else {
        prior
    }
}

/// Text that holds no position changes nothing: the loop stays as it is and
/// no tone is handed on.
pub proof fn malformed_text_changes_nothing(last: ControlLoop, text: Seq<u8>)
    requires
        position_of(text).is_none(),
    ensures
        round_spec(last, position_of(text)) == (last, None::<Update>),
{
}

/// A reading equal to the position applied last changes nothing.
pub proof fn reading_equal_to_last_changes_nothing(last: ControlLoop)
    ensures
        round_spec(last, Some((last.ultimo_x, last.ultimo_y))) == (last, None::<Update>),
{
}

} // verus!
