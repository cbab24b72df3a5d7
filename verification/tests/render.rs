use time_analyzer::application_args::{AppArgs, Generator};
use time_analyzer::configs::{ArrayConfig, Config, MatrixConfig, NumberConf, RangeConfig};
use time_analyzer::domain::{Sampler, Value};
use time_analyzer::generators::{ArrayGen, GenError, MatrixGen, NumberGen, Step};
use time_analyzer::size::Range;
use time_analyzer::text::{fixed_point_text, i64_text, usize_text};

#[test]
fn decimal_rendering_is_exact() {
    assert_eq!(usize_text(0), "0");
    assert_eq!(usize_text(42), "42");
    assert_eq!(usize_text(100000), "100000");
    assert_eq!(i64_text(-45), "-45");
    assert_eq!(i64_text(7), "7");
    assert_eq!(i64_text(i64::MIN), "-9223372036854775808");
}

#[test]
fn fixed_point_rendering_is_exact() {
    assert_eq!(fixed_point_text(1_500_000), "1.500000");
    assert_eq!(fixed_point_text(-1_234_567), "-1.234567");
    assert_eq!(fixed_point_text(0), "0.000000");
    assert_eq!(fixed_point_text(25), "0.000025");
}

#[test]
fn degenerate_domain_renders_deterministically() {
    let mut sampler = Sampler::from_entropy();
    let config = Config::Array(ArrayConfig::new(
        Value::Int { min: 5, max: 5 },
        Range { start: 4, end: 16, multiplier: 2 },
    ));
    assert_eq!(config.generate(&mut sampler), "4 5 5 5 5");
}

#[test]
fn equal_seeds_render_equal_payloads() {
    let config = Config::Array(ArrayConfig::new(
        Value::Int { min: 0, max: 1000 },
        Range { start: 16, end: 64, multiplier: 2 },
    ));
    let mut first = Sampler::from_seed(7);
    let mut second = Sampler::from_seed(7);
    assert_eq!(config.generate(&mut first), config.generate(&mut second));
}

#[test]
fn matrix_payload_has_both_dimension_prefixes() {
    let mut sampler = Sampler::from_entropy();
    let config = Config::Matrix(MatrixConfig::new(
        Value::Int { min: 1, max: 1 },
        Range { start: 2, end: 8, multiplier: 2 },
        Range { start: 3, end: 9, multiplier: 3 },
    ));
    assert_eq!(config.generate(&mut sampler), "2 3 1 1 1 1 1 1");
}

#[test]
fn range_payload_is_the_bare_size() {
    let mut sampler = Sampler::from_entropy();
    let config = Config::Range(RangeConfig::new(Range { start: 7, end: 70, multiplier: 2 }));
    assert_eq!(config.generate(&mut sampler), "7");
}

#[test]
fn number_payload_is_one_value() {
    let mut sampler = Sampler::from_entropy();
    let config = Config::Number(NumberConf::new(Value::Int { min: 9, max: 9 }));
    assert_eq!(config.generate(&mut sampler), "9");
}

#[test]
fn int_samples_stay_inside_their_bounds() {
    let mut sampler = Sampler::from_entropy();
    let config = Config::Number(NumberConf::new(Value::Int { min: 0, max: 100 }));
    for _ in 0..32 {
        let text = config.generate(&mut sampler);
        let value: i64 = text.parse().unwrap();
        assert!((0..=100).contains(&value));
    }
}

#[test]
fn bool_samples_are_zero_or_one() {
    let mut sampler = Sampler::from_entropy();
    let config = Config::Number(NumberConf::new(Value::Bool));
    for _ in 0..16 {
        let text = config.generate(&mut sampler);
        assert!(text == "0" || text == "1");
    }
}

#[test]
fn char_samples_are_alphanumeric() {
    let mut sampler = Sampler::from_entropy();
    let config = Config::Number(NumberConf::new(Value::Char));
    for _ in 0..16 {
        let text = config.generate(&mut sampler);
        assert_eq!(text.chars().count(), 1);
        assert!(text.chars().next().unwrap().is_ascii_alphanumeric());
    }
}

#[test]
fn float_samples_render_with_six_fraction_digits() {
    let mut sampler = Sampler::from_entropy();
    let config = Config::Number(NumberConf::new(Value::Float {
        min: 2_250_000,
        max: 2_250_000,
    }));
    assert_eq!(config.generate(&mut sampler), "2.250000");
}

#[test]
fn array_gen_renders_a_debug_list() {
    let mut sampler = Sampler::from_entropy();
    let gen = ArrayGen::new(Value::Int { min: 2, max: 2 }, 3, 10, Step::Fixed(2)).unwrap();
    assert_eq!(gen.generate(&mut sampler), "[2, 2, 2]");
}

#[test]
fn array_gen_grows_before_rendering_next() {
    let mut sampler = Sampler::from_entropy();
    let mut gen = ArrayGen::new(Value::Int { min: 2, max: 2 }, 3, 10, Step::Fixed(2)).unwrap();
    assert_eq!(gen.generate_next(&mut sampler), "[2, 2, 2, 2, 2]");
}

#[test]
fn array_gen_rejects_wrong_domain() {
    let result = ArrayGen::new(Value::Char, 1, 4, Step::Keep);
    assert!(matches!(result, Err(GenError::WrongConfig(_))));
    match ArrayGen::new(Value::Bool, 1, 4, Step::Keep) {
        Err(GenError::WrongConfig(message)) => {
            assert_eq!(message, "Wrong configs value type");
        }
        Ok(_) => panic!("a boolean domain must not build an integer array generator"),
    }
}

#[test]
fn matrix_gen_rejects_wrong_domain() {
    let result = MatrixGen::new(Value::Float { min: 0, max: 1 }, 1, 2, Step::Keep, 1, 2, Step::Keep);
    assert!(matches!(result, Err(GenError::WrongConfig(_))));
}

#[test]
fn number_gen_samples_its_single_value() {
    let mut sampler = Sampler::from_entropy();
    let mut gen = NumberGen::new(NumberConf::new(Value::Int { min: -3, max: -3 })).unwrap();
    assert_eq!(gen.generate(&mut sampler), "-3");
    assert_eq!(gen.generate_next(&mut sampler), "-3");
}

#[test]
fn number_gen_rejects_wrong_domain() {
    assert!(matches!(
        NumberGen::new(NumberConf::new(Value::Char)),
        Err(GenError::WrongConfig(_))
    ));
}

#[test]
fn app_args_yields_takes_times_iterations_rows() {
    let mut sampler = Sampler::from_entropy();
    let gen = Generator::Number(NumberGen::new(NumberConf::new(Value::Int { min: 5, max: 5 })).unwrap());
    let mut stream = AppArgs::new(vec![gen], 2, 3);
    let mut count = 0;
    while let Some(row) = stream.next(&mut sampler) {
        assert_eq!(row.len(), 1);
        assert_eq!(row[0], "5");
        count += 1;
    }
    assert_eq!(count, 6);
}

#[test]
fn app_args_grows_between_generations_only() {
    let mut sampler = Sampler::from_entropy();
    let gen = Generator::Array(
        ArrayGen::new(Value::Int { min: 2, max: 2 }, 1, 10, Step::Fixed(1)).unwrap(),
    );
    let mut stream = AppArgs::new(vec![gen], 2, 2);
    assert_eq!(stream.next(&mut sampler).unwrap()[0], "[2]");
    assert_eq!(stream.next(&mut sampler).unwrap()[0], "[2]");
    // A new take begins: the generator grows once.
    assert_eq!(stream.next(&mut sampler).unwrap()[0], "[2, 2]");
    assert_eq!(stream.next(&mut sampler).unwrap()[0], "[2, 2]");
    assert!(stream.next(&mut sampler).is_none());
}
