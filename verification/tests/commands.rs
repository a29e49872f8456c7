use theremin::commands::{
    clamp_pitch, get_pitch_adjustment_message, get_pitch_factor, key_mappings, key_to_command,
    KeyCommand, COARSE_DOWN, COARSE_UP, FINE_DOWN, FINE_UP,
};

#[test]
fn keys_map_to_their_commands() {
    assert_eq!(key_to_command(27), KeyCommand::Exit);
    assert_eq!(key_to_command(32), KeyCommand::ToggleAudio);
    assert_eq!(key_to_command(114), KeyCommand::ResetPitch);
    assert_eq!(key_to_command(43), KeyCommand::AdjustPitch(1_050_000));
    assert_eq!(key_to_command(61), KeyCommand::AdjustPitch(1_050_000));
    assert_eq!(key_to_command(45), KeyCommand::AdjustPitch(950_000));
    assert_eq!(key_to_command(95), KeyCommand::AdjustPitch(950_000));
}

#[test]
fn other_keys_map_to_nothing() {
    for key in [-1, 0, 1, 26, 28, 44, 82, 113, 115, 255, i32::MAX, i32::MIN] {
        assert_eq!(key_to_command(key), KeyCommand::Unmapped);
        assert_eq!(get_pitch_factor(key), None);
    }
}

#[test]
fn the_table_has_seven_keys() {
    let table = key_mappings();
    assert_eq!(table.len(), 7);
    for (key, command) in table {
        assert_eq!(key_to_command(key), command);
    }
}

#[test]
fn only_adjusting_keys_have_a_factor() {
    assert_eq!(get_pitch_factor(43), Some(FINE_UP));
    assert_eq!(get_pitch_factor(61), Some(1_050_000));
    assert_eq!(get_pitch_factor(45), Some(FINE_DOWN));
    assert_eq!(get_pitch_factor(95), Some(950_000));
    assert_eq!(get_pitch_factor(27), None);
    assert_eq!(get_pitch_factor(32), None);
    assert_eq!(get_pitch_factor(114), None);
}

#[test]
fn the_four_steps_have_their_own_words() {
    assert_eq!(get_pitch_adjustment_message(COARSE_UP), "⬆️  Pitch aumentado (grosso)");
    assert_eq!(get_pitch_adjustment_message(COARSE_DOWN), "⬇️  Pitch diminuído (grosso)");
    assert_eq!(get_pitch_adjustment_message(FINE_UP), "🔧 Pitch aumentado (fino)");
    assert_eq!(get_pitch_adjustment_message(FINE_DOWN), "🔧 Pitch diminuído (fino)");
    assert_eq!(get_pitch_adjustment_message(1_100_000), "⬆️  Pitch aumentado (grosso)");
    assert_eq!(get_pitch_adjustment_message(950_000), "🔧 Pitch diminuído (fino)");
}

#[test]
fn other_factors_are_written_with_two_places() {
    assert_eq!(get_pitch_adjustment_message(1_234_567), "🔄 Pitch ajustado por fator 1.23");
    assert_eq!(get_pitch_adjustment_message(1_235_000), "🔄 Pitch ajustado por fator 1.24");
    assert_eq!(get_pitch_adjustment_message(1_200_000), "🔄 Pitch ajustado por fator 1.20");
    assert_eq!(get_pitch_adjustment_message(2_000_000), "🔄 Pitch ajustado por fator 2.00");
    assert_eq!(get_pitch_adjustment_message(0), "🔄 Pitch ajustado por fator 0.00");
    assert_eq!(get_pitch_adjustment_message(4_999), "🔄 Pitch ajustado por fator 0.00");
    assert_eq!(get_pitch_adjustment_message(5_000), "🔄 Pitch ajustado por fator 0.01");
    assert_eq!(get_pitch_adjustment_message(1_099_999), "🔄 Pitch ajustado por fator 1.10");
    assert_eq!(get_pitch_adjustment_message(123_456_789_000), "🔄 Pitch ajustado por fator 123456.79");
}

#[test]
fn negative_factors_carry_a_sign() {
    assert_eq!(get_pitch_adjustment_message(-1_234_567), "🔄 Pitch ajustado por fator -1.23");
    assert_eq!(get_pitch_adjustment_message(-1_235_000), "🔄 Pitch ajustado por fator -1.23");
    assert_eq!(get_pitch_adjustment_message(-1_235_001), "🔄 Pitch ajustado por fator -1.24");
    assert_eq!(get_pitch_adjustment_message(-5_000), "🔄 Pitch ajustado por fator 0.00");
    assert_eq!(get_pitch_adjustment_message(-5_001), "🔄 Pitch ajustado por fator -0.01");
    assert_eq!(
        get_pitch_adjustment_message(i64::MIN),
        "🔄 Pitch ajustado por fator -9223372036854.78"
    );
    assert_eq!(
        get_pitch_adjustment_message(i64::MAX),
        "🔄 Pitch ajustado por fator 9223372036854.78"
    );
}

#[test]
fn clamp_pitch_limits_to_the_range() {
    assert_eq!(clamp_pitch(100_000_000, 250_000, 4_000_000), 4_000_000);
    assert_eq!(clamp_pitch(-5_000_000, 250_000, 4_000_000), 250_000);
    assert_eq!(clamp_pitch(1_000_000, 250_000, 4_000_000), 1_000_000);
    assert_eq!(clamp_pitch(250_000, 250_000, 4_000_000), 250_000);
    assert_eq!(clamp_pitch(4_000_000, 250_000, 4_000_000), 4_000_000);
}
