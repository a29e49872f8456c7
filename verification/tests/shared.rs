use theremin::mapper::ToneParameters;
use theremin::shared::SharedParameters;

#[test]
fn a_new_cell_holds_its_first_pair() {
    let cell = SharedParameters::new(ToneParameters { frequency: 440_000_000, amplitude: 500_000 });
    assert_eq!(cell.read(), ToneParameters { frequency: 440_000_000, amplitude: 500_000 });
}

#[test]
fn a_read_returns_the_pair_written() {
    let cell = SharedParameters::new(ToneParameters { frequency: 440_000_000, amplitude: 500_000 });
    cell.write(ToneParameters { frequency: 130_810_000, amplitude: 100_000 });
    assert_eq!(cell.read(), ToneParameters { frequency: 130_810_000, amplitude: 100_000 });
    assert_eq!(cell.read(), ToneParameters { frequency: 130_810_000, amplitude: 100_000 });
}

#[test]
fn the_last_write_wins() {
    let cell = SharedParameters::new(ToneParameters { frequency: 1, amplitude: 1 });
    cell.write(ToneParameters { frequency: 2, amplitude: 2 });
    cell.write(ToneParameters { frequency: 3, amplitude: 3 });
    cell.write(ToneParameters { frequency: 4, amplitude: 4 });
    assert_eq!(cell.read(), ToneParameters { frequency: 4, amplitude: 4 });
}

#[test]
fn handles_share_one_cell() {
    let writer = SharedParameters::new(ToneParameters { frequency: 1, amplitude: 1 });
    let reader = writer.handle();
    writer.write(ToneParameters { frequency: 220_000_000, amplitude: 600_000 });
    assert_eq!(reader.read(), ToneParameters { frequency: 220_000_000, amplitude: 600_000 });
    reader.write(ToneParameters { frequency: 5, amplitude: 6 });
    assert_eq!(writer.read(), ToneParameters { frequency: 5, amplitude: 6 });
}
