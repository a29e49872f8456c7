use theremin::control::{
    inspect, ler_xy_do_arquivo, next_tone, ControlFile, ControlLoop, Inspection, Update,
    DEFAULT_CONTROL_TEXT, EPSILON,
};
use theremin::decimal::read_coordinate;
use theremin::mapper::{NormalizedPosition, ToneParameters};

#[test]
fn two_numerals_are_a_position() {
    assert_eq!(ler_xy_do_arquivo(b"0.5 -0.3"), Some((500_000, -300_000)));
    assert_eq!(ler_xy_do_arquivo(b"0.0 0.0"), Some((0, 0)));
    assert_eq!(ler_xy_do_arquivo(b"-0.9 -0.9\n"), Some((-900_000, -900_000)));
    assert_eq!(ler_xy_do_arquivo(b"  \t0.95\r\n0.95  "), Some((950_000, 950_000)));
}

#[test]
fn the_default_text_is_the_origin() {
    assert_eq!(DEFAULT_CONTROL_TEXT, "0.0 0.0");
    assert_eq!(ler_xy_do_arquivo(DEFAULT_CONTROL_TEXT.as_bytes()), Some((0, 0)));
}

#[test]
fn words_that_are_no_numerals_are_no_position() {
    assert_eq!(ler_xy_do_arquivo(b"abc def"), None);
    assert_eq!(ler_xy_do_arquivo(b"0.5 def"), None);
    assert_eq!(ler_xy_do_arquivo(b"abc 0.5"), None);
    assert_eq!(ler_xy_do_arquivo(b"0.5,0.5"), None);
    assert_eq!(ler_xy_do_arquivo(b"0.5;0.5 1"), None);
}

#[test]
fn fewer_than_two_words_are_no_position() {
    assert_eq!(ler_xy_do_arquivo(b""), None);
    assert_eq!(ler_xy_do_arquivo(b"   \n\t "), None);
    assert_eq!(ler_xy_do_arquivo(b"0.5"), None);
    assert_eq!(ler_xy_do_arquivo(b"  0.5  \n"), None);
}

#[test]
fn what_follows_the_second_word_is_ignored() {
    assert_eq!(ler_xy_do_arquivo(b"0.5 0.25 garbage"), Some((500_000, 250_000)));
    assert_eq!(ler_xy_do_arquivo(b"0.5 0.25 0.75"), Some((500_000, 250_000)));
}

#[test]
fn every_blank_separates() {
    assert_eq!(ler_xy_do_arquivo(b"0.1\t0.2"), Some((100_000, 200_000)));
    assert_eq!(ler_xy_do_arquivo(b"0.1\n0.2"), Some((100_000, 200_000)));
    assert_eq!(ler_xy_do_arquivo(b"0.1\r0.2"), Some((100_000, 200_000)));
    assert_eq!(ler_xy_do_arquivo(b"0.1\x0b0.2"), Some((100_000, 200_000)));
    assert_eq!(ler_xy_do_arquivo(b"0.1\x0c0.2"), Some((100_000, 200_000)));
    assert_eq!(ler_xy_do_arquivo(b"0.1\x000.2"), None);
}

#[test]
fn readings_are_limited_to_the_range() {
    assert_eq!(ler_xy_do_arquivo(b"2.5 -7"), Some((1_000_000, -1_000_000)));
    assert_eq!(ler_xy_do_arquivo(b"1.0 -1.0"), Some((1_000_000, -1_000_000)));
    assert_eq!(ler_xy_do_arquivo(b"1.000001 -1.000001"), Some((1_000_000, -1_000_000)));
    assert_eq!(ler_xy_do_arquivo(b"0.999999 -0.999999"), Some((999_999, -999_999)));
    assert_eq!(
        ler_xy_do_arquivo(b"123456789012345678901234567890 -123456789012345678901234567890"),
        Some((1_000_000, -1_000_000))
    );
}

#[test]
fn numerals_have_many_forms() {
    assert_eq!(read_coordinate(b"1"), Some(1_000_000));
    assert_eq!(read_coordinate(b"+1"), Some(1_000_000));
    assert_eq!(read_coordinate(b"-1"), Some(-1_000_000));
    assert_eq!(read_coordinate(b".5"), Some(500_000));
    assert_eq!(read_coordinate(b"-.5"), Some(-500_000));
    assert_eq!(read_coordinate(b"0."), Some(0));
    assert_eq!(read_coordinate(b"000.250"), Some(250_000));
    assert_eq!(read_coordinate(b"0.123456"), Some(123_456));
    assert_eq!(read_coordinate(b"-0"), Some(0));
}

#[test]
fn exponents_move_the_point() {
    assert_eq!(read_coordinate(b"1e-1"), Some(100_000));
    assert_eq!(read_coordinate(b"25E-2"), Some(250_000));
    assert_eq!(read_coordinate(b"2.5e-1"), Some(250_000));
    assert_eq!(read_coordinate(b"0.025e+1"), Some(250_000));
    assert_eq!(read_coordinate(b"0.025e1"), Some(250_000));
    assert_eq!(read_coordinate(b"-7.5e-01"), Some(-750_000));
    assert_eq!(read_coordinate(b"1e-6"), Some(1));
    assert_eq!(read_coordinate(b"1e-7"), Some(0));
    assert_eq!(read_coordinate(b"1e0"), Some(1_000_000));
    assert_eq!(read_coordinate(b"1.e0"), Some(1_000_000));
    assert_eq!(read_coordinate(b".1e1"), Some(1_000_000));
    assert_eq!(read_coordinate(b"0.0000001e7"), Some(1_000_000));
    assert_eq!(read_coordinate(b"0.0000001e6"), Some(100_000));
    assert_eq!(read_coordinate(b"1000000e-7"), Some(100_000));
}

#[test]
fn huge_exponents_saturate() {
    assert_eq!(read_coordinate(b"1e400"), Some(1_000_000));
    assert_eq!(read_coordinate(b"-1e400"), Some(-1_000_000));
    assert_eq!(read_coordinate(b"1e-400"), Some(0));
    assert_eq!(read_coordinate(b"-1e-400"), Some(-1));
    assert_eq!(read_coordinate(b"0e400"), Some(0));
    assert_eq!(read_coordinate(b"-0e400"), Some(0));
    assert_eq!(read_coordinate(b"0.000e99999999999999999999999999999999999999"), Some(0));
    assert_eq!(
        read_coordinate(b"0.001e99999999999999999999999999999999999999"),
        Some(1_000_000)
    );
    assert_eq!(
        read_coordinate(b"-5e+99999999999999999999999999999999999999"),
        Some(-1_000_000)
    );
    assert_eq!(
        read_coordinate(b"987654321e-99999999999999999999999999999999999999"),
        Some(0)
    );
    assert_eq!(
        read_coordinate(b"-987654321e-99999999999999999999999999999999999999"),
        Some(-1)
    );
}

#[test]
fn readings_round_down() {
    assert_eq!(read_coordinate(b"0.1234567"), Some(123_456));
    assert_eq!(read_coordinate(b"0.1234569"), Some(123_456));
    assert_eq!(read_coordinate(b"-0.1234561"), Some(-123_457));
    assert_eq!(read_coordinate(b"-0.1234560"), Some(-123_456));
    assert_eq!(read_coordinate(b"0.0000009"), Some(0));
    assert_eq!(read_coordinate(b"-0.0000001"), Some(-1));
    assert_eq!(read_coordinate(b"-0.00000000000000000000000000000000000000001"), Some(-1));
    assert_eq!(read_coordinate(b"-0.00000000000000000000000000000000000000000"), Some(0));
    assert_eq!(read_coordinate(b"-0.79999999999999999999"), Some(-800_000));
    assert_eq!(read_coordinate(b"-0.80000000000000000001"), Some(-800_001));
    assert_eq!(read_coordinate(b"0.79999999999999999999"), Some(799_999));
    assert_eq!(read_coordinate(b"-0.9999999"), Some(-1_000_000));
    assert_eq!(read_coordinate(b"-1.0000001"), Some(-1_000_000));
}

#[test]
fn infinity_is_a_numeral() {
    assert_eq!(read_coordinate(b"inf"), Some(1_000_000));
    assert_eq!(read_coordinate(b"+inf"), Some(1_000_000));
    assert_eq!(read_coordinate(b"-inf"), Some(-1_000_000));
    assert_eq!(read_coordinate(b"Infinity"), Some(1_000_000));
    assert_eq!(read_coordinate(b"-INFINITY"), Some(-1_000_000));
    assert_eq!(read_coordinate(b"iNf"), Some(1_000_000));
    assert_eq!(ler_xy_do_arquivo(b"inf -infinity"), Some((1_000_000, -1_000_000)));
}

#[test]
fn other_words_are_no_numerals() {
    for word in [
        "", "+", "-", ".", "+.", "e", "e5", ".e5", "1e", "1e+", "1e-", "1e+-1", "--1", "+-1", "1-",
        "1.2.3", "1..2", "1,5", "0x10", "1_000", "1f", "1.0f32", "nan", "NaN", "-nan", "in",
        "infinit", "infinityy", "inf1", "1inf", "1e1.5", "1 ", " 1", "1e 5", "١", "½",
    ] {
        assert_eq!(read_coordinate(word.as_bytes()), None, "{:?}", word);
    }
}

#[test]
fn a_missing_file_is_to_be_created() {
    assert_eq!(inspect(ControlFile::Missing), Inspection { reading: None, create_default: true });
}

#[test]
fn an_unreadable_file_is_left_alone() {
    assert_eq!(
        inspect(ControlFile::Unreadable),
        Inspection { reading: None, create_default: false }
    );
}

#[test]
fn a_file_is_read_for_its_position() {
    assert_eq!(
        inspect(ControlFile::Content(b"0.5 -0.3\n")),
        Inspection { reading: Some((500_000, -300_000)), create_default: false }
    );
    assert_eq!(
        inspect(ControlFile::Content(b"abc def")),
        Inspection { reading: None, create_default: false }
    );
    assert_eq!(
        inspect(ControlFile::Content(DEFAULT_CONTROL_TEXT.as_bytes())),
        Inspection { reading: Some((0, 0)), create_default: false }
    );
}

#[test]
fn a_reading_that_moved_is_applied() {
    let mut control = ControlLoop::new();
    assert_eq!(control, ControlLoop { ultimo_x: 0, ultimo_y: 0 });
    let update = control.round(Some((100_000, -100_000)));
    assert_eq!(
        update,
        Some(Update {
            x: 100_000,
            y: -100_000,
            tone: ToneParameters { frequency: 220_000_000, amplitude: 600_000 },
        })
    );
    assert_eq!(control, ControlLoop { ultimo_x: 100_000, ultimo_y: -100_000 });
}

#[test]
fn a_reading_within_epsilon_is_not_applied() {
    assert_eq!(EPSILON, 1_000);
    let mut control = ControlLoop { ultimo_x: 500_000, ultimo_y: 500_000 };
    assert_eq!(control.round(Some((500_000, 500_000))), None);
    assert_eq!(control.round(Some((501_000, 499_000))), None);
    assert_eq!(control, ControlLoop { ultimo_x: 500_000, ultimo_y: 500_000 });
    assert!(control.round(Some((501_001, 500_000))).is_some());
    assert_eq!(control, ControlLoop { ultimo_x: 501_001, ultimo_y: 500_000 });
    assert!(control.round(Some((501_001, 498_999))).is_some());
    assert_eq!(control, ControlLoop { ultimo_x: 501_001, ultimo_y: 498_999 });
}

#[test]
fn the_first_origin_is_not_applied() {
    let mut control = ControlLoop::new();
    assert_eq!(control.poll(b"0.0 0.0"), None);
    assert_eq!(control.poll(b"0.001 -0.001"), None);
    assert_eq!(control, ControlLoop::new());
}

#[test]
fn no_reading_changes_nothing() {
    let mut control = ControlLoop { ultimo_x: 250_000, ultimo_y: -250_000 };
    assert_eq!(control.round(None), None);
    assert_eq!(control, ControlLoop { ultimo_x: 250_000, ultimo_y: -250_000 });
}

#[test]
fn malformed_text_leaves_the_tone_as_it_was() {
    let mut control = ControlLoop::new();
    let first = control.poll(b"0.95 0.95");
    assert_eq!(
        first.map(|update| update.tone),
        Some(ToneParameters { frequency: 440_000_000, amplitude: 1_000_000 })
    );
    let before = control;
    assert_eq!(control.poll(b"abc def"), None);
    assert_eq!(control, before);
    assert_eq!(control.poll(b"0.1"), None);
    assert_eq!(control, before);
    assert_eq!(control.poll(b""), None);
    assert_eq!(control, before);
}

#[test]
fn polling_maps_the_text_to_a_tone() {
    let mut control = ControlLoop::new();
    assert_eq!(
        control.poll(b"-0.9 -0.9"),
        Some(Update {
            x: -900_000,
            y: -900_000,
            tone: ToneParameters { frequency: 130_810_000, amplitude: 100_000 },
        })
    );
    assert_eq!(
        control.poll(b"7 -7"),
        Some(Update {
            x: 1_000_000,
            y: -1_000_000,
            tone: ToneParameters { frequency: 130_810_000, amplitude: 1_000_000 },
        })
    );
}

#[test]
fn a_position_written_at_a_bin_boundary_lands_in_the_upper_bin() {
    let mut control = ControlLoop::new();
    let at = control.poll(b"-0.8 0.6").unwrap();
    assert_eq!(at.tone, ToneParameters { frequency: 392_000_000, amplitude: 200_000 });
    // So close to the position applied last, the next reading is not applied.
    assert_eq!(control.poll(b"-0.80000000001 0.59999999999"), None);
    let mut fresh = ControlLoop::new();
    let below = fresh.poll(b"-0.80000000001 0.59999999999").unwrap();
    assert_eq!(below.tone, ToneParameters { frequency: 329_630_000, amplitude: 100_000 });
}

#[test]
fn a_detected_position_gives_its_tone() {
    let prior = ToneParameters { frequency: 440_000_000, amplitude: 500_000 };
    let position = NormalizedPosition { x: 100_000, y: -100_000, detected: true };
    assert_eq!(
        next_tone(position, prior),
        ToneParameters { frequency: 220_000_000, amplitude: 600_000 }
    );
}

#[test]
fn a_lost_position_holds_the_tone() {
    let prior = ToneParameters { frequency: 329_630_000, amplitude: 700_000 };
    let position = NormalizedPosition { x: 0, y: 0, detected: false };
    assert_eq!(next_tone(position, prior), prior);
}

#[test]
fn blanks_of_more_than_one_byte_separate_too() {
    assert_eq!(ler_xy_do_arquivo("0.5\u{a0}-0.3".as_bytes()), Some((500_000, -300_000)));
    assert_eq!(ler_xy_do_arquivo("0.5\u{85}-0.3".as_bytes()), Some((500_000, -300_000)));
    assert_eq!(
        ler_xy_do_arquivo("\u{3000}0.5\u{2003}\u{1680}0.25\u{2029}".as_bytes()),
        Some((500_000, 250_000))
    );
    assert_eq!(ler_xy_do_arquivo("0.5\u{200b}0.25".as_bytes()), None);
    assert_eq!(ler_xy_do_arquivo("0.5\u{feff}0.25 1".as_bytes()), None);
}

#[test]
fn a_blank_cut_short_is_no_blank() {
    assert_eq!(ler_xy_do_arquivo(b"0.5\xc2"), None);
    assert_eq!(ler_xy_do_arquivo(b"0.5 0.25\xe2\x80"), None);
    assert_eq!(ler_xy_do_arquivo(b"0.5 0.25 \xe2\x80"), Some((500_000, 250_000)));
    assert_eq!(ler_xy_do_arquivo(b"0.5\xe3\x800.25"), None);
}

#[test]
fn the_blanks_are_the_white_space_of_unicode() {
    // every character of the basic plane, and a sample of those beyond it
    let codes = (0..=0xffffu32).chain((0x1_0000..=0x10_ffffu32).step_by(0x101));
    for code in codes {
        let Some(between) = char::from_u32(code) else {
            continue;
        };
        let text = format!("0.5{}0.25", between);
        let expected = if between.is_whitespace() { Some((500_000, 250_000)) } else { None };
        assert_eq!(ler_xy_do_arquivo(text.as_bytes()), expected, "U+{:04X}", code);
    }
}

#[test]
fn words_are_split_as_the_standard_library_splits_them() {
    let texts = [
        "0.5 -0.3",
        " \t 1e-1\u{2028}2E0\n\n",
        "\u{a0}\u{a0}.5\u{a0}5.\u{a0}",
        "a\u{3000}b",
        "0.25\u{e9}0.5 1",
        "1\r\n2\r\n3",
        "\u{2000}\u{2001}\u{2002}\u{2003}\u{2004}\u{2005}\u{2006}\u{2007}\u{2008}\u{2009}\u{200a}0 0",
        "0\u{202f}0\u{205f}0",
        "",
        "\u{1680}",
        "7",
    ];
    for text in texts {
        let words: Vec<&str> = text.split_whitespace().collect();
        let expected = if words.len() >= 2 {
            match (read_coordinate(words[0].as_bytes()), read_coordinate(words[1].as_bytes())) {
                (Some(x), Some(y)) => Some((x, y)),
                _ => None,
            }
        } else {
            None
        };
        assert_eq!(ler_xy_do_arquivo(text.as_bytes()), expected, "{:?}", text);
    }
}

fn every_word(alphabet: &[u8], longest: usize) -> Vec<Vec<u8>> {
    let mut words: Vec<Vec<u8>> = vec![Vec::new()];
    let mut from = 0;
    for _ in 0..longest {
        let until = words.len();
        for at in from..until {
            for &letter in alphabet {
                let mut word = words[at].clone();
                word.push(letter);
                words.push(word);
            }
        }
        from = until;
    }
    words
}

#[test]
fn numerals_are_what_the_standard_library_takes_for_numbers() {
    for word in every_word(b"+-.019eEinf", 5) {
        let text = std::str::from_utf8(&word).unwrap();
        let parsed: Option<f64> = text.parse::<f64>().ok();
        let reading = read_coordinate(&word);
        assert_eq!(reading.is_some(), parsed.is_some(), "{:?}", text);
        if let (Some(reading), Some(parsed)) = (reading, parsed) {
            let expected = (parsed * 1e6).floor().clamp(-1e6, 1e6) as i64;
            assert!((reading - expected).abs() <= 1, "{:?}", text);
        }
    }
}

#[test]
fn longer_numerals_agree_with_the_standard_library_too() {
    for word in [
        "infinity", "-infinity", "+Infinity", "INFINITY", "infinit", "infinityy", "0.123456789",
        "-0.987654321", "12345.6789e-5", "0.000012345e5", "-00000.5", "5e-1", "5E-01", "0.5e00",
        "1e-10", "-1e-10", "3.14159", "-2.71828", "1e10", "1e-5", "0.00001", "1.5e-3", ".5e+0",
        "5.e-1", "0e0", "-0e-0", "123456789012345678901234567890e-30", "0.3e", "0.3e+", "e1",
    ] {
        let parsed: Option<f64> = word.parse::<f64>().ok();
        let reading = read_coordinate(word.as_bytes());
        assert_eq!(reading.is_some(), parsed.is_some(), "{:?}", word);
        if let (Some(reading), Some(parsed)) = (reading, parsed) {
            let expected = (parsed * 1e6).floor().clamp(-1e6, 1e6) as i64;
            assert!((reading - expected).abs() <= 1, "{:?}", word);
        }
    }
}
