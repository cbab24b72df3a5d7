//! A finite stream of argument payload rows: a fixed number of takes, each
//! repeated for a fixed number of iterations, growing every generator once
//! between takes.

use vstd::prelude::*;
use crate::domain::{Sampler, Value, value_text_ok};
use crate::generators::{ArrayGen, int_list_ok, MatrixGen, NumberGen};

verus! {

/// One argument generator of the step-policy family.
#[derive(Debug, Clone, Copy, PartialEq, Eq, Structural)]
pub enum Generator {
    /// A growing list of integer samples.
    Array(ArrayGen),
    /// A growing matrix of integer samples.
    Matrix(MatrixGen),
    /// A single integer sample.
    Number(NumberGen),
}

impl Generator {
    /// The generator's own invariant.
    pub open spec fn valid(self) -> bool {
        match self {
            Generator::Array(g) => g.valid(),
            Generator::Matrix(g) => g.valid(),
            Generator::Number(g) => g.valid(),
        }
    }

    /// The generator after one growth step; a scalar never changes.
    pub open spec fn stepped(self) -> Generator {
        match self {
            Generator::Array(g) => Generator::Array(g.stepped()),
            Generator::Matrix(g) => Generator::Matrix(g.stepped()),
            Generator::Number(g) => Generator::Number(g),
        }
    }

    /// What a payload of this generator at its current size can be.
    pub open spec fn payload_ok(self, s: Seq<char>) -> bool {
        match self {
            Generator::Array(g) => int_list_ok(g.min, g.max, g.row.cur_len as int, s),
            Generator::Matrix(g) => int_list_ok(g.min, g.max, g.spec_count(), s),
            Generator::Number(g) => value_text_ok(Value::Int { min: g.min, max: g.max }, s),
        }
    }

    /// Renders a fresh payload at the current size.
    pub fn generate(&self, sampler: &mut Sampler) -> (s: String)
        requires
            self.valid(),
        ensures
            self.payload_ok(s@),
    {
        match self {
            Generator::Array(g) => g.generate(sampler),
            Generator::Matrix(g) => g.generate(sampler),
            Generator::Number(g) => g.generate(sampler),
        }
    }

    /// Applies one growth step, then renders a fresh payload.
    pub fn generate_next(&mut self, sampler: &mut Sampler) -> (s: String)
        requires
            old(self).valid(),
        ensures
            *final(self) == old(self).stepped(),
            final(self).valid(),
            final(self).payload_ok(s@),
    {
        match self {
            Generator::Array(g) => g.generate_next(sampler),
            Generator::Matrix(g) => g.generate_next(sampler),
            Generator::Number(g) => g.generate_next(sampler),
        }
    }
}

/// The payload rows of one whole run: `takes` generations, each rendered
/// `iterations` times, every generator growing once between generations.
#[derive(Debug)]
pub struct AppArgs {
    /// The argument generators, one payload each per row.
    pub args: Vec<Generator>,
    /// How many generations the stream covers.
    pub takes: u8,
    /// How many rows each generation yields.
    pub iterations: u8,
    /// How many rows are still to come.
    pub remain_iter: u16,
}

impl AppArgs {
    /// At most `takes * iterations` rows left, and every generator valid.
    pub open spec fn wf(self) -> bool {
        &&& self.remain_iter <= self.takes * self.iterations
        &&& forall|i: int| 0 <= i < self.args@.len() ==> (#[trigger] self.args@[i]).valid()
    }

    /// Builds the stream: `takes * iterations` rows in total.
    pub fn new(args: Vec<Generator>, takes: u8, iterations: u8) -> (a: AppArgs)
        requires
            forall|i: int| 0 <= i < args@.len() ==> (#[trigger] args@[i]).valid(),
        ensures
            a.wf(),
            a.args == args,
            a.takes == takes,
            a.iterations == iterations,
            a.remain_iter == takes * iterations,
    {
        proof {
            assert((takes as int) * (iterations as int) <= 255 * 255) by (nonlinear_arith)
                requires takes <= 255 && iterations <= 255;
        }
        let remain_iter = (takes as u16) * (iterations as u16);
        AppArgs { args, takes, iterations, remain_iter }
    }

    /// The next payload row, or nothing once all rows are spent.
    ///
    /// The first row of each generation except the very first grows every
    /// generator once; all other rows render fresh payloads at the current
    /// sizes.
    pub fn next(&mut self, sampler: &mut Sampler) -> (r: Option<Vec<String>>)
        requires
            old(self).wf(),
        ensures
            final(self).wf(),
            final(self).takes == old(self).takes,
            final(self).iterations == old(self).iterations,
            match r {
                None => *final(self) == *old(self) && old(self).remain_iter == 0,
                Some(row) => {
                    &&& old(self).remain_iter > 0
                    &&& final(self).remain_iter == old(self).remain_iter - 1
                    &&& row@.len() == old(self).args@.len()
                    &&& final(self).args@.len() == old(self).args@.len()
                    &&& (if old(self).remain_iter % (old(self).iterations as u16) == 0 && old(
                        self,
                    ).remain_iter != old(self).takes * old(self).iterations {
                        forall|i: int|
                            0 <= i < old(self).args@.len() ==> final(self).args@[i] == (
                            #[trigger] old(self).args@[i]).stepped()
                    } else {
                        final(self).args == old(self).args
                    })
                    &&& forall|i: int|
                        0 <= i < row@.len() ==> (#[trigger] final(self).args@[i]).payload_ok(
                            row@[i]@,
                        )
                },
            },
    {
        if self.remain_iter == 0 {
            return None;
        }
        proof {
            if self.iterations == 0 {
                assert((self.takes as int) * 0 == 0) by (nonlinear_arith);
            }
            assert((self.takes as int) * (self.iterations as int) <= 255 * 255) by (nonlinear_arith)
                requires self.takes <= 255 && self.iterations <= 255;
        }
        let max: u16 = (self.takes as u16) * (self.iterations as u16);
        let advance = self.remain_iter % (self.iterations as u16) == 0 && self.remain_iter != max;
        let mut row: Vec<String> = Vec::new();
        let mut i: usize = 0;
        if advance {
            while i < self.args.len()
                invariant
                    i <= self.args@.len(),
                    row@.len() == i,
                    self.args@.len() == old(self).args@.len(),
                    self.takes == old(self).takes,
                    self.iterations == old(self).iterations,
                    self.remain_iter == old(self).remain_iter,
                    forall|j: int|
                        i <= j < self.args@.len() ==> self.args@[j] == old(self).args@[j],
                    forall|j: int|
                        0 <= j < i ==> self.args@[j] == (#[trigger] old(self).args@[j]).stepped(),
                    forall|j: int| 0 <= j < self.args@.len() ==> (#[trigger] self.args@[j]).valid(),
                    forall|j: int|
                        0 <= j < i ==> (#[trigger] self.args@[j]).payload_ok(row@[j]@),
                decreases self.args@.len() - i,
            {
                let mut g = self.args[i];
                let s = g.generate_next(sampler);
                self.args.set(i, g);
                row.push(s);
                i = i + 1;
            }
        } else {
            while i < self.args.len()
                invariant
                    i <= self.args@.len(),
                    row@.len() == i,
                    *self == *old(self),
                    forall|j: int| 0 <= j < self.args@.len() ==> (#[trigger] self.args@[j]).valid(),
                    forall|j: int|
                        0 <= j < i ==> (#[trigger] self.args@[j]).payload_ok(row@[j]@),
                decreases self.args@.len() - i,
            {
                let s = self.args[i].generate(sampler);
                row.push(s);
                i = i + 1;
            }
        }
        self.remain_iter = self.remain_iter - 1;
        Some(row)
    }
}

} // verus!
