use time_analyzer::configs::{ArrayConfig, Config, MatrixConfig, RangeConfig};
use time_analyzer::domain::Value;
use time_analyzer::generators::{MatrixGen, Row, Step};
use time_analyzer::run::Run;
use time_analyzer::size::Range;

#[test]
fn size_range_growth_clamps_and_sticks() {
    let mut range = Range { start: 10, end: 80, multiplier: 2 };
    assert_eq!(range.next(), 20);
    assert_eq!(range.next(), 40);
    assert_eq!(range.next(), 80);
    assert_eq!(range.next(), 80);
    assert_eq!(range.next(), 80);
}

#[test]
fn size_range_never_overshoots() {
    let mut range = Range { start: 10, end: 70, multiplier: 3 };
    assert_eq!(range.next(), 30);
    assert_eq!(range.next(), 70);
    assert_eq!(range.next(), 70);
}

#[test]
fn size_range_defaults() {
    assert_eq!(Range::start_default(), 10);
    assert_eq!(Range::end_default(), usize::MAX);
    assert_eq!(Range::multiplier_default(), 2);
}

#[test]
fn matrix_axes_grow_independently() {
    let mut config = Config::Matrix(MatrixConfig::new(
        Value::Int { min: 0, max: 0 },
        Range { start: 2, end: 8, multiplier: 2 },
        Range { start: 1, end: 100, multiplier: 3 },
    ));
    assert_eq!(config.len(), 2);
    assert_eq!(config.next_len(), 4 * 3);
    assert_eq!(config.next_len(), 8 * 9);
    // The rows reached their ceiling; the columns keep growing.
    assert_eq!(config.next_len(), 8 * 27);
    assert_eq!(config.next_len(), 8 * 81);
}

#[test]
fn array_config_advances_its_range() {
    let mut config = Config::Array(ArrayConfig::new(
        Value::Bool,
        Range { start: 3, end: 12, multiplier: 2 },
    ));
    assert_eq!(config.len(), 3);
    assert_eq!(config.next_len(), 6);
    assert_eq!(config.next_len(), 12);
    assert_eq!(config.next_len(), 12);
}

#[test]
fn range_config_length_is_its_start() {
    let mut config = Config::Range(RangeConfig::new(Range { start: 5, end: 20, multiplier: 2 }));
    assert_eq!(config.len(), 5);
    assert_eq!(config.next_len(), 10);
}

#[test]
fn number_config_never_grows() {
    let mut config = Config::Number(time_analyzer::configs::NumberConf::new(Value::Bool));
    assert_eq!(config.len(), 1);
    assert_eq!(config.next_len(), 1);
}

#[test]
fn row_step_policies_clamp_to_band() {
    let mut fixed = Row::new(2, 10, Step::Fixed(3));
    fixed.next_step();
    assert_eq!(fixed.cur_len, 5);
    fixed.next_step();
    assert_eq!(fixed.cur_len, 8);
    fixed.next_step();
    assert_eq!(fixed.cur_len, 10);
    fixed.next_step();
    assert_eq!(fixed.cur_len, 10);

    let mut multiplied = Row::new(3, 20, Step::Multiply(2));
    multiplied.next_step();
    assert_eq!(multiplied.cur_len, 6);
    multiplied.next_step();
    assert_eq!(multiplied.cur_len, 12);
    multiplied.next_step();
    assert_eq!(multiplied.cur_len, 20);

    let mut frozen = Row::new(4, 9, Step::Keep);
    frozen.next_step();
    assert_eq!(frozen.cur_len, 4);
}

#[test]
fn matrix_gen_axes_step_independently() {
    let mut gen = MatrixGen::new(
        Value::Int { min: 1, max: 1 },
        2,
        4,
        Step::Multiply(2),
        1,
        10,
        Step::Fixed(1),
    )
    .unwrap();
    gen.next_step();
    assert_eq!(gen.rows.cur_len, 4);
    assert_eq!(gen.columns.cur_len, 2);
    gen.next_step();
    // The rows sit at their ceiling while the columns keep stepping.
    assert_eq!(gen.rows.cur_len, 4);
    assert_eq!(gen.columns.cur_len, 3);
}

#[test]
fn update_test() {
    let mut run = Run::default();
    run.update(10);

    assert_eq!(Run { min: 10, max: 10, avg: 10, len: 0 }, run)
}

#[test]
fn update_folds_extremes_and_sum() {
    let mut run = Run::default();
    run.update(30);
    run.update(10);
    run.update(20);
    assert_eq!(run.min, 10);
    assert_eq!(run.max, 30);
    assert_eq!(run.avg, 60);
}
