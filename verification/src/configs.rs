//! Argument kinds: the closed set of per-argument generators that produce a
//! serialized payload for the current generation and grow their own size
//! state on request.

use vstd::prelude::*;
use crate::domain::{ConfigError, Sampler, Value, value_text_ok};
use crate::size::Range;
use crate::text::{dec_text, usize_text};

verus! {

/// The texts of a row of sampled values, each preceded by one space.
pub open spec fn values_text(texts: Seq<Seq<char>>) -> Seq<char>
    decreases texts.len(),
{
    if texts.len() == 0 {
        Seq::<char>::empty()
    } else {
        values_text(texts.drop_last()) + seq![' '] + texts.last()
    }
}

/// Every entry is a possible sample text of domain `v`.
pub open spec fn all_values_ok(v: Value, texts: Seq<Seq<char>>) -> bool {
    forall|i: int| 0 <= i < texts.len() ==> value_text_ok(v, #[trigger] texts[i])
}

/// What an array payload can be: the element count, then that many sampled
/// values, space separated.
pub open spec fn array_payload_ok(v: Value, n: int, s: Seq<char>) -> bool {
    exists|texts: Seq<Seq<char>>|
        #[trigger] all_values_ok(v, texts) && texts.len() == n && s == dec_text(n as nat)
            + values_text(texts)
}

/// `a * b` clamped at the machine word: the element count of a matrix whose
/// true size does not fit is pinned at `usize::MAX`.
pub open spec fn sat_mul(a: int, b: int) -> int {
    if a * b > usize::MAX {
        usize::MAX as int
    } else {
        a * b
    }
}

/// What a matrix payload can be: the two dimension prefixes, then
/// `rows * columns` sampled values (clamped at the machine word), row major,
/// space separated.
pub open spec fn matrix_payload_ok(v: Value, rows: int, columns: int, s: Seq<char>) -> bool {
    exists|texts: Seq<Seq<char>>|
        #[trigger] all_values_ok(v, texts) && texts.len() == sat_mul(rows, columns) && s
            == dec_text(rows as nat) + seq![' '] + dec_text(columns as nat) + values_text(texts)
}

/// Appends `n` freshly sampled values of domain `v` to `out`, each preceded
/// by one space.
fn append_values(v: &Value, n: usize, out: String, sampler: &mut Sampler) -> (r: String)
    requires
        v.valid(),
    ensures
        exists|texts: Seq<Seq<char>>|
            #[trigger] all_values_ok(*v, texts) && texts.len() == n && r@ == out@ + values_text(
                texts,
            ),
{
    let mut s = out;
    let ghost prefix = s@;
    let ghost mut texts: Seq<Seq<char>> = Seq::empty();
    proof {
        assert(values_text(texts) =~= Seq::<char>::empty());
        assert(s@ =~= prefix + values_text(texts));
    }
    let mut i: usize = 0;
    while i < n
        invariant
            i <= n,
            v.valid(),
            texts.len() == i,
            all_values_ok(*v, texts),
            s@ == prefix + values_text(texts),
        decreases n - i,
    {
        let t = v.sample_text(sampler);
        proof {
            reveal_strlit(" ");
        }
        s = s.concat(" ").concat(t.as_str());
        proof {
            let grown = texts.push(t@);
            assert(grown.drop_last() =~= texts);
            assert(s@ =~= prefix + values_text(grown));
            texts = grown;
        }
        i = i + 1;
    }
    s
}

/// Builds an array payload of `n` samples from `v`: the length prefix, then
/// the samples.
pub fn generate_array(n: usize, v: &Value, sampler: &mut Sampler) -> (s: String)
    requires
        v.valid(),
    ensures
        array_payload_ok(*v, n as int, s@),
{
    let head = usize_text(n);
    let s = append_values(v, n, head, sampler);
    proof {
        let texts = choose|texts: Seq<Seq<char>>|
            #[trigger] all_values_ok(*v, texts) && texts.len() == n && s@ == dec_text(n as nat)
                + values_text(texts);
        assert(all_values_ok(*v, texts) && texts.len() == n as int && s@ == dec_text(n as nat)
            + values_text(texts));
    }
    s
}

/// Builds a matrix payload: both dimension prefixes, then `rows * columns`
/// samples from `v`, row major.
pub fn generate_matrix(rows: usize, columns: usize, v: &Value, sampler: &mut Sampler) -> (s: String)
    requires
        v.valid(),
        rows * columns <= usize::MAX,
    ensures
        matrix_payload_ok(*v, rows as int, columns as int, s@),
{
    proof {
        reveal_strlit(" ");
    }
    let head = usize_text(rows).concat(" ").concat(usize_text(columns).as_str());
    let count = rows * columns;
    let s = append_values(v, count, head, sampler);
    proof {
        let texts = choose|texts: Seq<Seq<char>>|
            #[trigger] all_values_ok(*v, texts) && texts.len() == count && s@ == head@
                + values_text(texts);
        assert(s@ =~= dec_text(rows as nat) + seq![' '] + dec_text(columns as nat) + values_text(
            texts,
        ));
    }
    s
}

/// An array argument: a growing row of samples from one domain.
#[derive(Debug, Clone, Copy, PartialEq, Eq, Structural)]
pub struct ArrayConfig {
    /// The domain the elements are sampled from.
    pub value: Value,
    /// The size state the length follows.
    pub range: Range,
}

impl ArrayConfig {
    /// Builds an array argument over domain `value` whose length follows
    /// `range`.
    pub fn new(value: Value, range: Range) -> (c: ArrayConfig)
        ensures
            c.spec_value() == value,
            c.spec_range() == range,
    {
        ArrayConfig { value, range }
    }

    /// The domain the elements are sampled from.
    pub fn value(&self) -> (v: Value)
        ensures
            v == self.spec_value(),
    {
        self.value
    }

    /// The size state the length follows.
    pub fn range(&self) -> (r: Range)
        ensures
            r == self.spec_range(),
    {
        self.range
    }

    /// The domain, in spec contexts.
    pub open spec fn spec_value(self) -> Value {
        self.value
    }

    /// The size state, in spec contexts.
    pub open spec fn spec_range(self) -> Range {
        self.range
    }
}

impl Default for ArrayConfig {
    /// The default array argument: the full integer domain, sizes from 10 to
    /// 2000, doubling.
    fn default() -> (c: ArrayConfig)
        ensures
            c.spec_value() == (Value::Int { min: i64::MIN, max: i64::MAX }),
            c.spec_range() == (Range { start: 10, end: 2000, multiplier: 2 }),
    {
        ArrayConfig {
            value: Value::Int { min: i64::MIN, max: i64::MAX },
            range: Range { start: 10, end: 2000, multiplier: 2 },
        }
    }
}

/// A matrix argument: rows and columns each follow their own size state.
#[derive(Debug, Clone, Copy, PartialEq, Eq, Structural)]
pub struct MatrixConfig {
    /// The domain the elements are sampled from.
    pub value: Value,
    /// The size state of the row count.
    pub rows: Range,
    /// The size state of the column count.
    pub columns: Range,
}

impl MatrixConfig {
    /// Builds a matrix argument over domain `value` with independent row and
    /// column size states.
    pub fn new(value: Value, rows: Range, columns: Range) -> (c: MatrixConfig)
        ensures
            c.spec_value() == value,
            c.spec_rows() == rows,
            c.spec_columns() == columns,
    {
        MatrixConfig { value, rows, columns }
    }

    /// The domain, in spec contexts.
    pub open spec fn spec_value(self) -> Value {
        self.value
    }

    /// The row size state, in spec contexts.
    pub open spec fn spec_rows(self) -> Range {
        self.rows
    }

    /// The column size state, in spec contexts.
    pub open spec fn spec_columns(self) -> Range {
        self.columns
    }
}

/// A bare range argument: the payload is the current size itself, for
/// programs parameterized directly by N.
#[derive(Debug, Clone, Copy, PartialEq, Eq, Structural)]
pub struct RangeConfig {
    /// The size state whose current value is the payload.
    pub range: Range,
}

impl RangeConfig {
    /// Builds a range argument following `range`.
    pub fn new(range: Range) -> (c: RangeConfig)
        ensures
            c.spec_range() == range,
    {
        RangeConfig { range }
    }

    /// The size state, in spec contexts.
    pub open spec fn spec_range(self) -> Range {
        self.range
    }
}

/// A scalar argument: one sample from a domain, never growing.
#[derive(Debug, Clone, Copy, PartialEq, Eq, Structural)]
pub struct NumberConf {
    /// The domain the scalar is sampled from.
    pub value: Value,
}

impl NumberConf {
    /// Builds a scalar argument over domain `value`.
    pub fn new(value: Value) -> (c: NumberConf)
        ensures
            c.value == value,
    {
        NumberConf { value }
    }
}

/// The closed set of argument kinds. Every kind owns its growth state and
/// exposes the same capabilities: current length, one growth step, and a
/// fresh payload for the current state.
#[derive(Debug, Clone, Copy, PartialEq, Eq, Structural)]
pub enum Config {
    /// A growing row of samples.
    Array(ArrayConfig),
    /// A matrix with independently growing dimensions.
    Matrix(MatrixConfig),
    /// A bare size value.
    Range(RangeConfig),
    /// A single scalar sample.
    Number(NumberConf),
}

impl Config {
    /// The element count the argument contributes at its current size:
    /// 1 for a scalar, the length for an array, rows times columns for a
    /// matrix, the current size for a range.
    pub open spec fn spec_len(self) -> int {
        match self {
            Config::Array(a) => a.spec_range().start as int,
            Config::Matrix(m) => sat_mul(m.spec_rows().start as int, m.spec_columns().start as int),
            Config::Range(r) => r.spec_range().start as int,
            Config::Number(_) => 1,
        }
    }

    /// The argument after one growth step: every size state it owns grows by
    /// its own rule; a scalar never changes.
    pub open spec fn spec_grown(self) -> Config {
        match self {
            Config::Array(a) => Config::Array(
                ArrayConfig {
                    value: a.spec_value(),
                    range: Range {
                        start: a.spec_range().grown_start() as usize,
                        end: a.spec_range().end,
                        multiplier: a.spec_range().multiplier,
                    },
                },
            ),
            Config::Matrix(m) => Config::Matrix(
                MatrixConfig {
                    value: m.spec_value(),
                    rows: Range {
                        start: m.spec_rows().grown_start() as usize,
                        end: m.spec_rows().end,
                        multiplier: m.spec_rows().multiplier,
                    },
                    columns: Range {
                        start: m.spec_columns().grown_start() as usize,
                        end: m.spec_columns().end,
                        multiplier: m.spec_columns().multiplier,
                    },
                },
            ),
            Config::Range(r) => Config::Range(
                RangeConfig {
                    range: Range {
                        start: r.spec_range().grown_start() as usize,
                        end: r.spec_range().end,
                        multiplier: r.spec_range().multiplier,
                    },
                },
            ),
            Config::Number(n) => Config::Number(n),
        }
    }

    /// What a payload of this argument at its current size can be.
    pub open spec fn payload_ok(self, s: Seq<char>) -> bool {
        match self {
            Config::Array(a) => array_payload_ok(a.spec_value(), a.spec_range().start as int, s),
            Config::Matrix(m) => matrix_payload_ok(
                m.spec_value(),
                m.spec_rows().start as int,
                m.spec_columns().start as int,
                s,
            ),
            Config::Range(r) => s == dec_text(r.spec_range().start as nat),
            Config::Number(n) => value_text_ok(n.value, s),
        }
    }

    /// Every domain the argument samples from is valid and every size state
    /// it owns is valid.
    pub open spec fn valid(self) -> bool {
        match self {
            Config::Array(a) => a.spec_value().valid() && a.spec_range().valid(),
            Config::Matrix(m) => m.spec_value().valid() && m.spec_rows().valid()
                && m.spec_columns().valid(),
            Config::Range(r) => r.spec_range().valid(),
            Config::Number(n) => n.value.valid(),
        }
    }

    /// Checks the argument's invariants: all domain bounds ordered, all size
    /// ranges well formed.
    pub fn validate(&self) -> (r: Result<(), ConfigError>)
        ensures
            r is Ok <==> self.valid(),
    {
        match self {
            Config::Array(a) => {
                a.value.validate()?;
                check_range(&a.range)
            },
            Config::Matrix(m) => {
                m.value.validate()?;
                check_range(&m.rows)?;
                check_range(&m.columns)
            },
            Config::Range(r) => check_range(&r.range),
            Config::Number(n) => n.value.validate(),
        }
    }

    /// The element count at the current size, without growing it.
    pub fn len(&self) -> (n: usize)
        ensures
            n == self.spec_len(),
    {
        match self {
            Config::Array(a) => a.range.start,
            Config::Matrix(m) => {
                match m.rows.start.checked_mul(m.columns.start) {
                    Some(p) => p,
                    None => usize::MAX,
                }
            },
            Config::Range(r) => r.range.start,
            Config::Number(_) => 1,
        }
    }

    /// Applies one growth step to every size state the argument owns and
    /// returns the new element count. A matrix grows its rows and columns
    /// independently; a scalar stays at 1.
    pub fn next_len(&mut self) -> (n: usize)
        ensures
            *final(self) == old(self).spec_grown(),
            n == final(self).spec_len(),
    {
        match self {
            Config::Array(a) => {
                a.range.next()
            },
            Config::Matrix(m) => {
                let r = m.rows.next();
                let c = m.columns.next();
                match r.checked_mul(c) {
                    Some(p) => p,
                    None => usize::MAX,
                }
            },
            Config::Range(r) => {
                r.range.next()
            },
            Config::Number(_) => 1,
        }
    }

    /// Builds a fresh payload for the current size without growing it. Every
    /// call draws fresh samples from `sampler`.
    pub fn generate(&self, sampler: &mut Sampler) -> (s: String)
        requires
            self.valid(),
        ensures
            self.payload_ok(s@),
    {
        match self {
            Config::Array(a) => generate_array(a.range.start, &a.value, sampler),
            Config::Matrix(m) => {
                if m.rows.start.checked_mul(m.columns.start).is_some() {
                    generate_matrix(m.rows.start, m.columns.start, &m.value, sampler)
                } else {
                    // A matrix too large for the address space cannot be
                    // materialized; render the largest count the machine can
                    // express. The payload keeps both true dimension
                    // prefixes.
                    proof {
                        reveal_strlit(" ");
                    }
                    let head = usize_text(m.rows.start).concat(" ").concat(
                        usize_text(m.columns.start).as_str(),
                    );
                    let s = append_values(&m.value, usize::MAX, head, sampler);
                    proof {
                        let texts = choose|texts: Seq<Seq<char>>|
                            #[trigger] all_values_ok(m.spec_value(), texts) && texts.len()
                                == usize::MAX && s@ == head@ + values_text(texts);
                        assert(s@ =~= dec_text(m.spec_rows().start as nat) + seq![' '] + dec_text(
                            m.spec_columns().start as nat,
                        ) + values_text(texts));
                    }
                    s
                }
            },
            Config::Range(r) => usize_text(r.range.start),
            Config::Number(n) => n.value.sample_text(sampler),
        }
    }
}

/// One growth step keeps a valid argument spec valid.
pub proof fn lemma_grown_config_valid(c: Config)
    requires
        c.valid(),
    ensures
        c.spec_grown().valid(),
{
    match c {
        Config::Array(a) => {
            crate::size::lemma_grown_range_valid(a.spec_range());
        },
        Config::Matrix(m) => {
            crate::size::lemma_grown_range_valid(m.spec_rows());
            crate::size::lemma_grown_range_valid(m.spec_columns());
        },
        Config::Range(r) => {
            crate::size::lemma_grown_range_valid(r.spec_range());
        },
        Config::Number(_) => {},
    }
}

/// Over a degenerate integer domain whose bounds coincide, an array payload
/// is deterministic regardless of sampling: it can only be the length
/// prefix followed by the single admissible value, repeated.
pub proof fn law_degenerate_domain_array(v: i64, n: int, s: Seq<char>)
    requires
        n >= 0,
        array_payload_ok(Value::Int { min: v, max: v }, n, s),
    ensures
        s == dec_text(n as nat) + values_text(
            Seq::new(n as nat, |i: int| crate::text::int_text(v as int)),
        ),
{
    let texts = choose|texts: Seq<Seq<char>>|
        #[trigger] all_values_ok(Value::Int { min: v, max: v }, texts) && texts.len() == n && s
            == dec_text(n as nat) + values_text(texts);
    assert forall|i: int| 0 <= i < texts.len() implies texts[i] == crate::text::int_text(
        v as int,
    ) by {
        crate::domain::law_degenerate_int_text(v, texts[i]);
    }
    assert(texts =~= Seq::new(n as nat, |i: int| crate::text::int_text(v as int)));
}

/// Checks a size range's invariant: rejected exactly when the start is zero,
/// the multiplier is below two, or the ceiling lies below the start.
pub fn check_range(r: &Range) -> (res: Result<(), ConfigError>)
    ensures
        res is Ok <==> r.valid(),
        res is Err ==> res == Result::<(), ConfigError>::Err(ConfigError::InvalidSizeRange),
{
    if r.start >= 1 && r.multiplier >= 2 && r.end >= r.start {
        Ok(())
    } else {
        Err(ConfigError::InvalidSizeRange)
    }
}

} // verus!
