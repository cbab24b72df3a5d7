use time_analyzer::complexity::{
    within_fit_bounds, Complexity, FitError, LeastSquares, FIT_LEN_LIMIT, FIT_TIME_LIMIT, LOG_ONE,
};
use time_analyzer::run::Run;

fn runs_with(lens_and_mins: &[(usize, u64)]) -> Vec<Run> {
    lens_and_mins
        .iter()
        .map(|&(len, min)| Run { min, max: min, avg: min, len })
        .collect()
}

#[test]
fn curve_values_are_exact() {
    assert_eq!(Complexity::O1.curve(100), 1);
    assert_eq!(Complexity::ON.curve(5), 5);
    assert_eq!(Complexity::ONSquared.curve(5), 25);
    assert_eq!(Complexity::ONCubed.curve(5), 125);
    assert_eq!(Complexity::Unknown.curve(9), 1);
}

#[test]
fn logarithm_is_exact_at_powers_of_two() {
    assert_eq!(Complexity::OLogN.curve(1), 0);
    assert_eq!(Complexity::OLogN.curve(2), LOG_ONE as u128);
    assert_eq!(Complexity::OLogN.curve(8), 3 * LOG_ONE as u128);
    assert_eq!(Complexity::OLogN.curve(1024), 10 * LOG_ONE as u128);
    assert_eq!(Complexity::ONLogN.curve(4), 4 * 2 * LOG_ONE as u128);
}

#[test]
fn logarithm_is_monotone_between_powers() {
    let at_8 = Complexity::OLogN.curve(8);
    let at_11 = Complexity::OLogN.curve(11);
    let at_16 = Complexity::OLogN.curve(16);
    assert!(at_8 < at_11 && at_11 < at_16);
}

#[test]
fn curve_labels() {
    assert_eq!(Complexity::O1.text(), "O(1)");
    assert_eq!(Complexity::OLogN.text(), "O(logN)");
    assert_eq!(Complexity::ON.text(), "O(N)");
    assert_eq!(Complexity::ONLogN.text(), "O(NlogN)");
    assert_eq!(Complexity::ONSquared.text(), "O(N^2)");
    assert_eq!(Complexity::ONCubed.text(), "O(N^3)");
    assert_eq!(Complexity::Unknown.text(), "Unknown");
}

#[test]
fn perfectly_linear_timings_select_the_linear_curve() {
    let runs = runs_with(&[(10, 30), (20, 60), (40, 120), (80, 240)]);
    let fit = LeastSquares::computate_big_o(&runs).unwrap();
    assert_eq!(fit.complexity, Complexity::ON);
    // The coefficient is exactly three nanoseconds per element.
    assert_eq!(fit.coef_num, 3 * fit.coef_den);
    // A perfect fit leaves no residual at all.
    assert_eq!(fit.rms2_num, 0);
    assert!(fit.rms2_den > 0);
}

#[test]
fn perfectly_quadratic_timings_select_the_quadratic_curve() {
    let runs = runs_with(&[(10, 200), (20, 800), (40, 3200), (80, 12800)]);
    let fit = LeastSquares::computate_big_o(&runs).unwrap();
    assert_eq!(fit.complexity, Complexity::ONSquared);
    // The coefficient is exactly two nanoseconds per squared element.
    assert_eq!(fit.coef_num, 2 * fit.coef_den);
    // The quadratic residual vanishes, so it is strictly below every other
    // candidate's.
    assert_eq!(fit.rms2_num, 0);
    let linear = LeastSquares::minimal_least_squares(&runs, Complexity::ON);
    let cubic = LeastSquares::minimal_least_squares(&runs, Complexity::ONCubed);
    assert!(linear.rms2_num > 0);
    assert!(cubic.rms2_num > 0);
}

#[test]
fn constant_timings_select_the_constant_curve() {
    let runs = runs_with(&[(10, 50), (20, 50), (40, 50), (80, 50)]);
    let fit = LeastSquares::computate_big_o(&runs).unwrap();
    assert_eq!(fit.complexity, Complexity::O1);
    assert_eq!(fit.coef_num, 50 * fit.coef_den);
    assert_eq!(fit.rms2_num, 0);
}

#[test]
fn single_measurement_is_degenerate() {
    let runs = runs_with(&[(10, 30)]);
    assert_eq!(
        LeastSquares::computate_big_o(&runs),
        Err(FitError::DegenerateInput)
    );
}

#[test]
fn identical_lengths_are_degenerate() {
    let runs = runs_with(&[(7, 30), (7, 60), (7, 90)]);
    assert_eq!(
        LeastSquares::computate_big_o(&runs),
        Err(FitError::DegenerateInput)
    );
}

#[test]
fn no_measurements_is_degenerate() {
    let runs: Vec<Run> = Vec::new();
    assert_eq!(
        LeastSquares::computate_big_o(&runs),
        Err(FitError::DegenerateInput)
    );
}

#[test]
fn vanishing_curve_is_degenerate() {
    // At lengths zero and one the logarithmic curve is zero everywhere, so
    // its sum of squares vanishes.
    let runs = runs_with(&[(0, 30), (1, 60)]);
    assert_eq!(
        LeastSquares::computate_big_o(&runs),
        Err(FitError::DegenerateInput)
    );
}

#[test]
fn minimal_least_squares_reports_the_exact_fraction() {
    let runs = runs_with(&[(2, 10), (4, 20)]);
    let fit = LeastSquares::minimal_least_squares(&runs, Complexity::ON);
    assert_eq!(fit.complexity, Complexity::Unknown);
    // sum(min * len) = 2*10 + 4*20 = 100; sum(len^2) = 4 + 16 = 20.
    assert_eq!(fit.coef_num, 100);
    assert_eq!(fit.coef_den, 20);
    // The fit is exact: min = 5 * len.
    assert_eq!(fit.rms2_num, 0);
    // The error denominator is the squared duration total.
    assert_eq!(fit.rms2_den, 30 * 30);
}

#[test]
fn fit_bounds_are_checked_exactly() {
    let fine = runs_with(&[(10, 30), (20, 60)]);
    assert!(within_fit_bounds(&fine));
    let too_long = runs_with(&[(10, 30), (FIT_LEN_LIMIT as usize + 1, 60)]);
    assert!(!within_fit_bounds(&too_long));
    let too_slow = runs_with(&[(10, 30), (20, FIT_TIME_LIMIT + 1)]);
    assert!(!within_fit_bounds(&too_slow));
}
