//! Key commands: what a key code asks for, and how a pitch change is reported.

use vstd::prelude::*;
use vstd::string::StringExecFns;
use crate::units::{clamp, clamp_spec, floor_div};

verus! {

/// What a key asks for.
#[derive(Debug, Clone, Copy, PartialEq, Eq, Structural)]
pub enum KeyCommand {
    Exit,
    ToggleAudio,
    ResetPitch,
    /// Multiply the pitch by this factor.
    AdjustPitch(i64),
    /// The key has no command.
    Unmapped,
}

/// Factor of a fine step up.
pub const FINE_UP: i64 = 1_050_000;

/// Factor of a fine step down.
pub const FINE_DOWN: i64 = 950_000;

/// Factor of a coarse step up.
pub const COARSE_UP: i64 = 1_100_000;

/// Factor of a coarse step down.
pub const COARSE_DOWN: i64 = 900_000;

/// The table as a sequence.
pub open spec fn key_table() -> Seq<(i32, KeyCommand)> {
    seq![
        (27i32, KeyCommand::Exit),
        (32i32, KeyCommand::ToggleAudio),
        (114i32, KeyCommand::ResetPitch),
        (43i32, KeyCommand::AdjustPitch(FINE_UP)),
        (61i32, KeyCommand::AdjustPitch(FINE_UP)),
        (45i32, KeyCommand::AdjustPitch(FINE_DOWN)),
        (95i32, KeyCommand::AdjustPitch(FINE_DOWN)),
    ]
}

/// Key codes and their commands: escape, space, `r`, `+`, `=`, `-`, `_`.
pub fn key_mappings() -> (table: [(i32, KeyCommand); 7])
    ensures
        table@ == key_table(),
{
    let table: [(i32, KeyCommand); 7] = [
        (27, KeyCommand::Exit),
        (32, KeyCommand::ToggleAudio),
        (114, KeyCommand::ResetPitch),
        (43, KeyCommand::AdjustPitch(FINE_UP)),
        (61, KeyCommand::AdjustPitch(FINE_UP)),
        (45, KeyCommand::AdjustPitch(FINE_DOWN)),
        (95, KeyCommand::AdjustPitch(FINE_DOWN)),
    ];
    assert(table@ =~= key_table());
    table
}

/// The command of a key code. A code that the table does not hold asks for
/// nothing.
pub open spec fn command_of(key: int) -> KeyCommand {
    if key == 27 {
        KeyCommand::Exit
    } else if key == 32 {
        KeyCommand::ToggleAudio
    } else if key == 114 {
        KeyCommand::ResetPitch
    } else if key == 43 || key == 61 {
        KeyCommand::AdjustPitch(FINE_UP)
    } else if key == 45 || key == 95 {
        KeyCommand::AdjustPitch(FINE_DOWN)
    } else {
        KeyCommand::Unmapped
    }
}

/// Looks the key code up in the table: the first entry with that code
/// decides.
pub fn key_to_command(key: i32) -> (command: KeyCommand)
    ensures
        command == command_of(key as int),
{
    let table: [(i32, KeyCommand); 7] = key_mappings();
    let mut i: usize = 0;
    while i < 7
        invariant
            i <= 7,
            table@ == key_table(),
            forall|j: int| 0 <= j < i ==> key_table()[j].0 != key,
        decreases 7 - i,
    {
        let entry: (i32, KeyCommand) = table[i];
        if key == entry.0 {
            return entry.1;
        }
        i += 1;
    }
    KeyCommand::Unmapped
}

/// The factor by which a key changes the pitch, if it changes it.
pub fn get_pitch_factor(key: i32) -> (factor: Option<i64>)
    ensures
        factor == match command_of(key as int) {
            KeyCommand::AdjustPitch(f) => Some(f),
            _ => None,
        },
{
    match key_to_command(key) {
        KeyCommand::AdjustPitch(factor) => Some(factor),
        _ => None,
    }
}

/// The character of a decimal digit.
pub open spec fn digit_char(d: int) -> char
    recommends
        0 <= d < 10,
{
    if d == 0 {
        '0'
    } else if d == 1 {
        '1'
    } else if d == 2 {
        '2'
    } else if d == 3 {
        '3'
    } else if d == 4 {
        '4'
    } else if d == 5 {
        '5'
    } else if d == 6 {
        '6'
    } else if d == 7 {
        '7'
    } else if d == 8 {
        '8'
    } else {
        '9'
    }
}

/// The decimal numeral of `n`, without leading zeros.
pub open spec fn digits_of(n: nat) -> Seq<char>
    decreases n,
{
    if n < 10 {
        seq![digit_char(n as int)]
    } else {
        digits_of(n / 10).push(digit_char((n % 10) as int))
    }
}

/// The number of hundredths nearest to `factor`, a half going up.
pub open spec fn hundredths_of(factor: int) -> int {
    (factor + 5_000) / 10_000
}

/// `factor` written with two decimal places.
pub open spec fn two_places(factor: int) -> Seq<char> {
    let hundredths = hundredths_of(factor);
    let size = if hundredths < 0 {
        -hundredths
    } else {
        hundredths
    };
    let sign = if hundredths < 0 {
        seq!['-']
    } else {
        Seq::<char>::empty()
    };
    sign + digits_of((size / 100) as nat) + seq![
        '.',
        digit_char((size / 10) % 10),
        digit_char(size % 10),
    ]
}

/// The report of a pitch change by `factor`.
pub open spec fn message_of(factor: int) -> Seq<char> {
    if factor == COARSE_UP {
        "⬆️  Pitch aumentado (grosso)"@
    } else if factor == COARSE_DOWN {
        "⬇️  Pitch diminuído (grosso)"@
    } else if factor == FINE_UP {
        "🔧 Pitch aumentado (fino)"@
    } else if factor == FINE_DOWN {
        "🔧 Pitch diminuído (fino)"@
    } else {
        "🔄 Pitch ajustado por fator "@ + two_places(factor)
    }
}

/// The one-character text of a digit.
fn digit_str(d: u64) -> (s: &'static str)
    requires
        d < 10,
    ensures
        s@ == seq![digit_char(d as int)],
{
    proof {
        reveal_strlit("0");
        reveal_strlit("1");
        reveal_strlit("2");
        reveal_strlit("3");
        reveal_strlit("4");
        reveal_strlit("5");
        reveal_strlit("6");
        reveal_strlit("7");
        reveal_strlit("8");
        reveal_strlit("9");
    }
    let s: &'static str = if d == 0 {
        "0"
    } else if d == 1 {
        "1"
    } else if d == 2 {
        "2"
    } else if d == 3 {
        "3"
    } else if d == 4 {
        "4"
    } else if d == 5 {
        "5"
    } else if d == 6 {
        "6"
    } else if d == 7 {
        "7"
    } else if d == 8 {
        "8"
    } else {
        "9"
    };
    assert(s@ =~= seq![digit_char(d as int)]);
    s
}

/// Appends the decimal numeral of `n` to `out`.
fn push_digits(out: &mut String, n: u64)
    ensures
        final(out)@ == old(out)@ + digits_of(n as nat),
    decreases n,
{
    if n >= 10 {
        push_digits(out, n / 10);
    }
    out.append(digit_str(n % 10));
    assert(out@ =~= old(out)@ + digits_of(n as nat));
}

/// Appends `factor`, written with two decimal places, to `out`.
fn push_two_places(out: &mut String, factor: i64)
    ensures
        final(out)@ == old(out)@ + two_places(factor as int),
{
    let hundredths: i128 = floor_div(factor as i128 + 5_000, 10_000);
    let size: u64 = if hundredths < 0 {
        out.append("-");
        (-hundredths) as u64
    } else {
        hundredths as u64
    };
    proof {
        reveal_strlit("-");
        reveal_strlit(".");
    }
    push_digits(out, size / 100);
    out.append(".");
    out.append(digit_str((size / 10) % 10));
    out.append(digit_str(size % 10));
    assert(out@ =~= old(out)@ + two_places(factor as int));
}

/// Words for a pitch change by `factor`: a fixed line for each of the four
/// steps, else the factor itself with two decimal places.
pub fn get_pitch_adjustment_message(factor: i64) -> (message: String)
    ensures
        message@ == message_of(factor as int),
{
    if factor == COARSE_UP {
        String::from_str("⬆️  Pitch aumentado (grosso)")
    } else if factor == COARSE_DOWN {
        String::from_str("⬇️  Pitch diminuído (grosso)")
    } else if factor == FINE_UP {
        String::from_str("🔧 Pitch aumentado (fino)")
    } else if factor == FINE_DOWN {
        String::from_str("🔧 Pitch diminuído (fino)")
    } else {
        let mut message = String::from_str("🔄 Pitch ajustado por fator ");
        push_two_places(&mut message, factor);
        message
    }
}

/// Limits a pitch to the range from `min_pitch` to `max_pitch`.
pub fn clamp_pitch(pitch: i64, min_pitch: i64, max_pitch: i64) -> (r: i64)
    requires
        min_pitch <= max_pitch,
    ensures
        r == clamp_spec(pitch as int, min_pitch as int, max_pitch as int),
{
    clamp(pitch, min_pitch, max_pitch)
}

} // verus!
