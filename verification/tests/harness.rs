use time_analyzer::configs::{ArrayConfig, Config, RangeConfig};
use time_analyzer::domain::{ConfigError, Sampler, Value};
use time_analyzer::program::{validate_settings, Error, ErrorKind, Program, Session};
use time_analyzer::size::Range;

fn range_program(gens: usize, iters: usize) -> Program {
    let args = vec![Config::Range(RangeConfig::new(Range {
        start: 1,
        end: 8,
        multiplier: 2,
    }))];
    Program::new(
        String::from("target"),
        String::from("tmp"),
        args,
        gens,
        iters,
    )
}

#[test]
fn validate_test() {
    let args = vec![Config::Array(ArrayConfig::new(
        Value::Int {
            min: i64::MIN,
            max: i64::MAX,
        },
        Range {
            start: 10,
            end: usize::MAX,
            multiplier: 2,
        },
    ))];
    let okay = validate_settings(&args, 1, 1);

    assert!(okay.is_ok())
}

#[test]
fn validate_test_2() {
    let args: Vec<Config> = vec![];
    let okay = validate_settings(&args, 1, 1);

    assert!(okay.is_ok())
}

#[test]
fn validate_test_failed() {
    let args: Vec<Config> = vec![];
    let error = validate_settings(&args, 0, 1);

    assert!(error.is_err())
}

#[test]
fn validate_test_failed_2() {
    let args = vec![Config::Array(ArrayConfig::new(
        Value::Int { min: 10, max: 0 },
        Range {
            start: 0,
            end: usize::MAX,
            multiplier: 2,
        },
    ))];
    let error = validate_settings(&args, 1, 1);

    assert!(error.is_err());
}

#[test]
fn validate_reports_the_failing_part() {
    let args: Vec<Config> = vec![];
    assert_eq!(validate_settings(&args, 1, 0), Err(ConfigError::InvalidCount));
    let bad_domain = vec![Config::Array(ArrayConfig::new(
        Value::Float { min: 5, max: 4 },
        Range { start: 1, end: 2, multiplier: 2 },
    ))];
    assert_eq!(
        validate_settings(&bad_domain, 1, 1),
        Err(ConfigError::InvalidDomain)
    );
    let bad_range = vec![Config::Range(RangeConfig::new(Range {
        start: 4,
        end: 2,
        multiplier: 2,
    }))];
    assert_eq!(
        validate_settings(&bad_range, 1, 1),
        Err(ConfigError::InvalidSizeRange)
    );
}

#[test]
fn session_collects_per_generation_statistics() {
    let mut sampler = Sampler::from_entropy();
    let mut session = Session::new(range_program(2, 2));

    let req = session.next_request(&mut sampler).unwrap();
    assert_eq!((req.gen, req.iter), (0, 0));
    assert_eq!(req.file_path, "tmp/generation_0_iteration_0.txt");
    assert_eq!(req.payload, "1");
    session.record_duration(30);

    let req = session.next_request(&mut sampler).unwrap();
    assert_eq!((req.gen, req.iter), (0, 1));
    session.record_duration(10);

    let req = session.next_request(&mut sampler).unwrap();
    assert_eq!((req.gen, req.iter), (1, 0));
    assert_eq!(req.payload, "2");
    session.record_duration(40);

    let req = session.next_request(&mut sampler).unwrap();
    assert_eq!((req.gen, req.iter), (1, 1));
    session.record_duration(60);

    assert!(session.next_request(&mut sampler).is_none());
    let runs = session.finish().unwrap();
    assert_eq!(runs.len(), 2);
    assert_eq!((runs[0].min, runs[0].max, runs[0].avg, runs[0].len), (10, 30, 20, 1));
    assert_eq!((runs[1].min, runs[1].max, runs[1].avg, runs[1].len), (40, 60, 50, 2));
}

#[test]
fn failure_aborts_the_whole_run() {
    // The target exits with code 2 on the second iteration of the third
    // generation: the run fails as a whole and hands out no statistics, not
    // even those of the first two generations.
    let mut sampler = Sampler::from_entropy();
    let mut session = Session::new(range_program(4, 2));
    for _ in 0..2 {
        for _ in 0..2 {
            let _req = session.next_request(&mut sampler).unwrap();
            session.record_duration(10);
        }
    }
    let req = session.next_request(&mut sampler).unwrap();
    assert_eq!((req.gen, req.iter), (2, 0));
    session.record_duration(10);
    let req = session.next_request(&mut sampler).unwrap();
    assert_eq!((req.gen, req.iter), (2, 1));
    session.record_failure(Error::not_successful(Some(2)));

    assert!(session.next_request(&mut sampler).is_none());
    let outcome = session.finish();
    assert_eq!(
        outcome,
        Err(Error::not_successful(Some(2)))
    );
    assert_eq!(
        outcome.unwrap_err().kind,
        ErrorKind::NotSuccessful(Some(2))
    );
}

#[test]
fn a_spawn_failure_aborts_too() {
    let mut sampler = Sampler::from_entropy();
    let mut session = Session::new(range_program(1, 1));
    let _req = session.next_request(&mut sampler).unwrap();
    session.record_failure(Error::failed_to_start());
    assert_eq!(session.finish(), Err(Error::failed_to_start()));
}

#[test]
fn error_messages() {
    assert_eq!(
        Error::failed_to_start().message(),
        "Failed to start program"
    );
    assert_eq!(
        Error::cant_write_args().message(),
        "Can't write arguments to temporary file"
    );
    assert_eq!(
        Error::not_successful(Some(2)).message(),
        "Program finished not successful. Exiting code '2'"
    );
    assert_eq!(
        Error::not_successful(None).message(),
        "Program terminated by signal"
    );
    assert_eq!(Error::timed_out().message(), "Program timed out");
}

#[test]
fn program_exposes_its_target_path() {
    let program = range_program(1, 1);
    assert_eq!(program.path(), "target");
}

#[test]
fn payloads_are_joined_with_spaces() {
    let args = vec![
        Config::Range(RangeConfig::new(Range { start: 3, end: 6, multiplier: 2 })),
        Config::Array(ArrayConfig::new(
            Value::Int { min: 1, max: 1 },
            Range { start: 2, end: 4, multiplier: 2 },
        )),
    ];
    let program = Program::new(String::from("t"), String::from("d"), args, 1, 1);
    let mut sampler = Sampler::from_entropy();
    let mut session = Session::new(program);
    let req = session.next_request(&mut sampler).unwrap();
    assert_eq!(req.payload, "3 2 1 1");
}
