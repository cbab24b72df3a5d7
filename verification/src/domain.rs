//! Primitive value domains that generated arguments draw their samples from.

use vstd::prelude::*;
use crate::text::{fixed_text, int_text, dec_text, i64_text, fixed_point_text, u64_text};

verus! {

/// Why a configuration was rejected before any measurement began.
#[derive(Debug, Clone, Copy, PartialEq, Eq, Structural)]
pub enum ConfigError {
    /// A value domain whose lower bound lies above its upper bound.
    InvalidDomain,
    /// A size range that starts at zero, multiplies by less than two, or
    /// ends below its start.
    InvalidSizeRange,
    /// A generation or iteration count of zero.
    InvalidCount,
}

/// The space one generated value is drawn from.
///
/// `Float` bounds are fixed-point values scaled by
/// [`crate::text::FRACTION_SCALE`], so the whole domain lives on a uniform
/// grid of millionths.
#[derive(Debug, Clone, Copy, PartialEq, Eq, Structural)]
pub enum Value {
    /// A bounded integer; both bounds are inclusive.
    Int { min: i64, max: i64 },
    /// A bounded fixed-point number in millionths; both bounds are inclusive.
    Float { min: i64, max: i64 },
    /// One alphanumeric character: a-z, A-Z or 0-9.
    Char,
    /// A truth value, rendered as 0 or 1.
    Bool,
}

/// Whether `c` is an ASCII letter or digit.
pub open spec fn is_alnum(c: char) -> bool {
    ('a' <= c && c <= 'z') || ('A' <= c && c <= 'Z') || ('0' <= c && c <= '9')
}

/// What the text of one value sampled from domain `v` can be.
pub open spec fn value_text_ok(v: Value, s: Seq<char>) -> bool {
    match v {
        Value::Int { min, max } => exists|k: int| min <= k <= max && s == int_text(k),
        Value::Float { min, max } => exists|k: int| min <= k <= max && s == fixed_text(k),
        Value::Char => s.len() == 1 && is_alnum(s[0]),
        Value::Bool => s == dec_text(0) || s == dec_text(1),
    }
}

impl Value {
    /// A domain is valid when its lower bound does not exceed its upper one.
    pub open spec fn valid(self) -> bool {
        match self {
            Value::Int { min, max } => min <= max,
            Value::Float { min, max } => min <= max,
            Value::Char => true,
            Value::Bool => true,
        }
    }

    /// Checks the domain's invariant: rejected exactly when a bounded domain
    /// has its lower bound above its upper bound.
    pub fn validate(&self) -> (r: Result<(), ConfigError>)
        ensures
            r is Ok <==> self.valid(),
            r is Err ==> r == Result::<(), ConfigError>::Err(ConfigError::InvalidDomain),
    {
        match self {
            Value::Int { min, max } => {
                if min <= max {
                    Ok(())
                } else {
                    Err(ConfigError::InvalidDomain)
                }
            },
            Value::Float { min, max } => {
                if min <= max {
                    Ok(())
                } else {
                    Err(ConfigError::InvalidDomain)
                }
            },
            _ => Ok(()),
        }
    }

    /// Default lower bound of an integer domain.
    pub fn int_min() -> (v: i64)
        ensures
            v == i64::MIN,
    {
        i64::MIN
    }

    /// Default upper bound of an integer domain.
    pub fn int_max() -> (v: i64)
        ensures
            v == i64::MAX,
    {
        i64::MAX
    }

    /// Draws one fresh sample from the domain through `sampler` and renders
    /// it as text.
    pub fn sample_text(&self, sampler: &mut Sampler) -> (s: String)
        requires
            self.valid(),
        ensures
            value_text_ok(*self, s@),
    {
        match self {
            Value::Int { min, max } => {
                let k = sampler.sample_i64(*min, *max);
                let s = i64_text(k);
                proof {
                    assert(*min <= k as int <= *max && s@ == int_text(k as int));
                }
                s
            },
            Value::Float { min, max } => {
                let k = sampler.sample_i64(*min, *max);
                let s = fixed_point_text(k);
                proof {
                    assert(*min <= k as int <= *max && s@ == fixed_text(k as int));
                }
                s
            },
            Value::Char => sampler.sample_alnum_text(),
            Value::Bool => {
                let k = sampler.sample_i64(0, 1);
                u64_text(k as u64)
            },
        }
    }
}

/// In a degenerate domain whose bounds coincide, sampling is deterministic:
/// the only text a sample can render to is that of the single bound.
pub proof fn law_degenerate_int_text(v: i64, s: Seq<char>)
    requires
        value_text_ok(Value::Int { min: v, max: v }, s),
    ensures
        s == int_text(v as int),
{
}

/// The random-number generator rand's standard generator carries.
#[verifier::external_type_specification]
#[verifier::external_body]
pub struct ExStdRng(rand::rngs::StdRng);

/// An explicitly owned random source that all sampling draws from: seeded
/// for reproducible payloads in tests, from fresh entropy in production.
/// What a sample will be is never promised; only its bounds are.
#[derive(Debug)]
pub struct Sampler {
    rng: rand::rngs::StdRng,
}

impl Sampler {
    /// A reproducible source: relies on `rand::SeedableRng::seed_from_u64`,
    /// which derives the generator's full state from the seed alone.
    #[verifier::external_body]
    pub fn from_seed(seed: u64) -> (s: Sampler)
    {
        Sampler { rng: <rand::rngs::StdRng as rand::SeedableRng>::seed_from_u64(seed) }
    }

    /// A fresh source: relies on `rand::SeedableRng::from_entropy`, which
    /// seeds the generator from the system's entropy.
    #[verifier::external_body]
    pub fn from_entropy() -> (s: Sampler)
    {
        Sampler { rng: <rand::rngs::StdRng as rand::SeedableRng>::from_entropy() }
    }

    /// Relies on `rand::distributions::Uniform::new_inclusive` and
    /// `rand::Rng::sample`: the sample is uniform over the inclusive range
    /// `[min, max]`, so it never falls outside those bounds. `new_inclusive`
    /// panics when `min > max`, which the precondition rules out.
    #[verifier::external_body]
    pub(crate) fn sample_i64(&mut self, min: i64, max: i64) -> (r: i64)
        requires
            min <= max,
        ensures
            min <= r <= max,
    {
        rand::Rng::sample(
            &mut self.rng,
            rand::distributions::Uniform::new_inclusive(min, max),
        )
    }

    /// Relies on `rand::distributions::Alphanumeric`: every sample is one
    /// byte out of the charset a-z, A-Z, 0-9.
    #[verifier::external_body]
    pub(crate) fn sample_alnum_text(&mut self) -> (s: String)
        ensures
            s@.len() == 1,
            is_alnum(s@[0]),
    {
        let byte: u8 = rand::Rng::sample(&mut self.rng, rand::distributions::Alphanumeric);
        (byte as char).to_string()
    }
}

} // verus!
