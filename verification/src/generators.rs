//! The step-policy generator family: argument generators whose sizes follow
//! an additive or multiplicative step clamped to a fixed band, and whose
//! payloads are rendered as debug-style lists.

use vstd::prelude::*;
use crate::configs::{all_values_ok, NumberConf};
use crate::domain::{Sampler, Value, value_text_ok};
use crate::text::{int_text, i64_text};

verus! {

/// How a size parameter changes between generations.
#[derive(Debug, Clone, Copy, PartialEq, Eq, Structural)]
pub enum Step {
    /// The size never changes.
    Keep,
    /// The size grows by a fixed amount each step.
    Fixed(usize),
    /// The size is multiplied by a factor each step.
    Multiply(usize),
}

/// One growing dimension of a generated argument: the current size together
/// with the band it is clamped to and the step policy it follows.
#[derive(Debug, Clone, Copy, PartialEq, Eq, Structural)]
pub struct Row {
    /// Smallest admissible size.
    pub min_len: usize,
    /// Largest admissible size.
    pub max_len: usize,
    /// Current size; always inside the band.
    pub cur_len: usize,
    /// How the size changes on a step.
    pub step: Step,
}

impl Row {
    /// The band is ordered and the current size lies inside it.
    pub open spec fn valid(self) -> bool {
        self.min_len <= self.cur_len <= self.max_len
    }

    /// The size after one step: the policy applied to the current size,
    /// clamped to the band.
    pub open spec fn stepped_len(self) -> int {
        let next = match self.step {
            Step::Keep => self.cur_len as int,
            Step::Fixed(v) => self.cur_len + v,
            Step::Multiply(m) => self.cur_len * m,
        };
        if next < self.min_len {
            self.min_len as int
        } else if next > self.max_len {
            self.max_len as int
        } else {
            next
        }
    }

    /// Builds a dimension that starts at the bottom of its band.
    pub fn new(min_len: usize, max_len: usize, step: Step) -> (r: Row)
        requires
            min_len <= max_len,
        ensures
            r == (Row { min_len, max_len, cur_len: min_len, step }),
            r.valid(),
    {
        Row { min_len, max_len, cur_len: min_len, step }
    }

    /// Applies one step: the policy's next size, clamped to the band.
    pub fn next_step(&mut self)
        requires
            old(self).valid(),
        ensures
            final(self).cur_len == old(self).stepped_len(),
            final(self).min_len == old(self).min_len,
            final(self).max_len == old(self).max_len,
            final(self).step == old(self).step,
            final(self).valid(),
    {
        let next: usize = match self.step {
            Step::Keep => self.cur_len,
            Step::Fixed(v) => self.cur_len.saturating_add(v),
            Step::Multiply(m) => {
                match self.cur_len.checked_mul(m) {
                    Some(p) => p,
                    None => usize::MAX,
                }
            },
        };
        // Saturation at the machine word is invisible after the clamp: a
        // true size beyond the word is also beyond the band's top.
        self.cur_len = if next < self.min_len {
            self.min_len
        } else if next > self.max_len {
            self.max_len
        } else {
            next
        };
    }
}

/// Why a generator could not be built from its configuration.
#[derive(Debug, Clone, PartialEq, Eq)]
pub enum GenError {
    /// The configuration's value domain does not match the numeric kind the
    /// generator expects.
    WrongConfig(String),
}

/// The mismatch error every constructor of this family reports.
pub open spec fn wrong_config_text() -> Seq<char> {
    "Wrong configs value type"@
}

fn wrong_config() -> (e: GenError)
    ensures
        e matches GenError::WrongConfig(s) && s@ == wrong_config_text(),
{
    GenError::WrongConfig(String::from_str("Wrong configs value type"))
}

/// A list payload: the value texts between brackets, comma separated, as a
/// debug-printed vector renders.
pub open spec fn list_text(texts: Seq<Seq<char>>) -> Seq<char> {
    seq!['['] + comma_joined(texts) + seq![']']
}

/// The texts joined with a comma and a space between neighbours.
pub open spec fn comma_joined(texts: Seq<Seq<char>>) -> Seq<char>
    decreases texts.len(),
{
    if texts.len() == 0 {
        Seq::<char>::empty()
    } else if texts.len() == 1 {
        texts[0]
    } else {
        comma_joined(texts.drop_last()) + ", "@ + texts.last()
    }
}

/// What a list payload of `n` samples from the integer domain
/// `[min, max]` can be.
pub open spec fn int_list_ok(min: i64, max: i64, n: int, s: Seq<char>) -> bool {
    exists|texts: Seq<Seq<char>>|
        #[trigger] all_values_ok(Value::Int { min, max }, texts) && texts.len() == n && s
            == list_text(texts)
}

/// Renders `n` fresh samples from `[min, max]` as a bracketed,
/// comma-separated list.
fn generate_int_list(min: i64, max: i64, n: usize, sampler: &mut Sampler) -> (s: String)
    requires
        min <= max,
    ensures
        int_list_ok(min, max, n as int, s@),
{
    proof {
        reveal_strlit("[");
        reveal_strlit("]");
        reveal_strlit(", ");
    }
    let mut body = String::new();
    let ghost mut texts: Seq<Seq<char>> = Seq::empty();
    proof {
        assert(comma_joined(texts) =~= Seq::<char>::empty());
        assert(body@ =~= comma_joined(texts));
    }
    let mut i: usize = 0;
    while i < n
        invariant
            i <= n,
            min <= max,
            texts.len() == i,
            all_values_ok(Value::Int { min, max }, texts),
            body@ == comma_joined(texts),
        decreases n - i,
    {
        let k = sampler.sample_i64(min, max);
        let t = i64_text(k);
        proof {
            assert(min <= k as int <= max && t@ == int_text(k as int));
            assert(value_text_ok(Value::Int { min, max }, t@));
        }
        if i > 0 {
            body = body.concat(", ").concat(t.as_str());
        } else {
            body = t;
        }
        proof {
            reveal_strlit(", ");
            let grown = texts.push(t@);
            assert(grown.drop_last() =~= texts);
            assert(body@ =~= comma_joined(grown));
            texts = grown;
        }
        i = i + 1;
    }
    let s = String::from_str("[").concat(body.as_str()).concat("]");
    proof {
        assert(s@ =~= list_text(texts));
    }
    s
}

/// An array generator over a bounded integer domain whose length follows a
/// step policy.
#[derive(Debug, Clone, Copy, PartialEq, Eq, Structural)]
pub struct ArrayGen {
    /// Smallest sample value.
    pub min: i64,
    /// Largest sample value.
    pub max: i64,
    /// The growing length.
    pub row: Row,
}

impl ArrayGen {
    /// Bounds ordered and the length inside its band.
    pub open spec fn valid(self) -> bool {
        self.min <= self.max && self.row.valid()
    }

    /// Builds an array generator from a domain and a length band. Fails
    /// with a domain mismatch when the domain is not the integer one this
    /// generator samples from.
    pub fn new(value: Value, min_len: usize, max_len: usize, step: Step) -> (r: Result<
        ArrayGen,
        GenError,
    >)
        requires
            min_len <= max_len,
        ensures
            r is Ok <==> value is Int,
            match r {
                Result::Ok(g) => value matches Value::Int { min, max } && g == (ArrayGen {
                    min,
                    max,
                    row: Row { min_len, max_len, cur_len: min_len, step },
                }) && (value.valid() ==> g.valid()),
                Result::Err(e) => e matches GenError::WrongConfig(s) && s@ == wrong_config_text(),
            },
    {
        match value {
            Value::Int { min, max } => Ok(ArrayGen { min, max, row: Row::new(min_len, max_len, step) }),
            _ => Err(wrong_config()),
        }
    }

    /// The generator after one length step.
    pub open spec fn stepped(self) -> ArrayGen {
        ArrayGen { row: Row { cur_len: self.row.stepped_len() as usize, ..self.row }, ..self }
    }

    /// Renders a fresh list payload at the current length.
    pub fn generate(&self, sampler: &mut Sampler) -> (s: String)
        requires
            self.valid(),
        ensures
            int_list_ok(self.min, self.max, self.row.cur_len as int, s@),
    {
        generate_int_list(self.min, self.max, self.row.cur_len, sampler)
    }

    /// Applies one length step, then renders a fresh payload at the new
    /// length.
    pub fn generate_next(&mut self, sampler: &mut Sampler) -> (s: String)
        requires
            old(self).valid(),
        ensures
            final(self).valid(),
            *final(self) == old(self).stepped(),
            int_list_ok(final(self).min, final(self).max, final(self).row.cur_len as int, s@),
    {
        self.row.next_step();
        self.generate(sampler)
    }
}

/// A matrix generator over a bounded integer domain whose two dimensions
/// follow independent step policies.
#[derive(Debug, Clone, Copy, PartialEq, Eq, Structural)]
pub struct MatrixGen {
    /// Smallest sample value.
    pub min: i64,
    /// Largest sample value.
    pub max: i64,
    /// The growing row count.
    pub rows: Row,
    /// The growing column count.
    pub columns: Row,
}

impl MatrixGen {
    /// Bounds ordered and both dimensions inside their bands.
    pub open spec fn valid(self) -> bool {
        self.min <= self.max && self.rows.valid() && self.columns.valid()
    }

    /// The current element count, clamped at the machine word.
    pub open spec fn spec_count(self) -> int {
        crate::configs::sat_mul(self.rows.cur_len as int, self.columns.cur_len as int)
    }

    /// Builds a matrix generator from a domain and two dimension bands.
    /// Fails with a domain mismatch when the domain is not the integer one
    /// this generator samples from.
    pub fn new(
        value: Value,
        min_rows: usize,
        max_rows: usize,
        step_rows: Step,
        min_columns: usize,
        max_columns: usize,
        step_columns: Step,
    ) -> (r: Result<MatrixGen, GenError>)
        requires
            min_rows <= max_rows,
            min_columns <= max_columns,
        ensures
            r is Ok <==> value is Int,
            match r {
                Result::Ok(g) => value matches Value::Int { min, max } && g == (MatrixGen {
                    min,
                    max,
                    rows: Row { min_len: min_rows, max_len: max_rows, cur_len: min_rows, step: step_rows },
                    columns: Row {
                        min_len: min_columns,
                        max_len: max_columns,
                        cur_len: min_columns,
                        step: step_columns,
                    },
                }) && (value.valid() ==> g.valid()),
                Result::Err(e) => e matches GenError::WrongConfig(s) && s@ == wrong_config_text(),
            },
    {
        match value {
            Value::Int { min, max } => Ok(
                MatrixGen {
                    min,
                    max,
                    rows: Row::new(min_rows, max_rows, step_rows),
                    columns: Row::new(min_columns, max_columns, step_columns),
                },
            ),
            _ => Err(wrong_config()),
        }
    }

    /// Applies one step to each dimension, independently: the rows' policy
    /// never touches the columns and the other way round, so one dimension
    /// reaching its ceiling does not stop the other from growing.
    pub fn next_step(&mut self)
        requires
            old(self).valid(),
        ensures
            final(self).valid(),
            final(self).min == old(self).min,
            final(self).max == old(self).max,
            final(self).rows.cur_len == old(self).rows.stepped_len(),
            final(self).columns.cur_len == old(self).columns.stepped_len(),
            final(self).rows.min_len == old(self).rows.min_len,
            final(self).rows.max_len == old(self).rows.max_len,
            final(self).rows.step == old(self).rows.step,
            final(self).columns.min_len == old(self).columns.min_len,
            final(self).columns.max_len == old(self).columns.max_len,
            final(self).columns.step == old(self).columns.step,
    {
        self.rows.next_step();
        self.columns.next_step();
    }

    /// Renders a fresh list payload of `rows * columns` samples, row major.
    pub fn generate(&self, sampler: &mut Sampler) -> (s: String)
        requires
            self.valid(),
        ensures
            int_list_ok(self.min, self.max, self.spec_count(), s@),
    {
        let count = match self.rows.cur_len.checked_mul(self.columns.cur_len) {
            Some(p) => p,
            None => usize::MAX,
        };
        generate_int_list(self.min, self.max, count, sampler)
    }

    /// The generator after one step of each dimension.
    pub open spec fn stepped(self) -> MatrixGen {
        MatrixGen {
            rows: Row { cur_len: self.rows.stepped_len() as usize, ..self.rows },
            columns: Row { cur_len: self.columns.stepped_len() as usize, ..self.columns },
            ..self
        }
    }

    /// Applies one step to each dimension, then renders a fresh payload at
    /// the new element count.
    pub fn generate_next(&mut self, sampler: &mut Sampler) -> (s: String)
        requires
            old(self).valid(),
        ensures
            final(self).valid(),
            *final(self) == old(self).stepped(),
            int_list_ok(final(self).min, final(self).max, final(self).spec_count(), s@),
    {
        self.next_step();
        self.generate(sampler)
    }
}

/// A scalar generator over a bounded integer domain; it has no size state,
/// so stepping never changes it.
#[derive(Debug, Clone, Copy, PartialEq, Eq, Structural)]
pub struct NumberGen {
    /// Smallest sample value.
    pub min: i64,
    /// Largest sample value.
    pub max: i64,
}

impl NumberGen {
    /// Bounds ordered.
    pub open spec fn valid(self) -> bool {
        self.min <= self.max
    }

    /// Builds a scalar generator from a scalar configuration. Fails with a
    /// domain mismatch when the domain is not the integer one this
    /// generator samples from.
    pub fn new(conf: NumberConf) -> (r: Result<NumberGen, GenError>)
        ensures
            r is Ok <==> conf.value is Int,
            match r {
                Result::Ok(g) => conf.value matches Value::Int { min, max } && g == (NumberGen {
                    min,
                    max,
                }) && (conf.value.valid() ==> g.valid()),
                Result::Err(e) => e matches GenError::WrongConfig(s) && s@ == wrong_config_text(),
            },
    {
        match conf.value {
            Value::Int { min, max } => Ok(NumberGen { min, max }),
            _ => Err(wrong_config()),
        }
    }

    /// Renders one fresh sample as text.
    pub fn generate(&self, sampler: &mut Sampler) -> (s: String)
        requires
            self.valid(),
        ensures
            value_text_ok(Value::Int { min: self.min, max: self.max }, s@),
    {
        let k = sampler.sample_i64(self.min, self.max);
        let s = i64_text(k);
        proof {
            assert(self.min <= k as int <= self.max && s@ == int_text(k as int));
        }
        s
    }

    /// A scalar has no size state: stepping just renders a fresh sample.
    pub fn generate_next(&mut self, sampler: &mut Sampler) -> (s: String)
        requires
            old(self).valid(),
        ensures
            *final(self) == *old(self),
            value_text_ok(Value::Int { min: old(self).min, max: old(self).max }, s@),
    {
        self.generate(sampler)
    }
}

} // verus!
