//! A list of preconditions as written on one declaration: the items in the
//! order they were specified, and the same items in the canonical order,
//! which is what every encoder consumes.

use vstd::prelude::*;

use crate::annot::{parse_precondition_list, spec_parse_precondition_list};
use crate::encode::{clauses_of, sort_preconditions, sorted_clauses};
use crate::parse::ParseError;
use crate::precondition::{CfgPrecondition, Clause, Precondition};

verus! {

/// A parsed, ordered list of preconditions.
#[derive(Debug)]
pub struct PreconditionList {
    /// The preconditions, in the order they were specified.
    pub preconditions: Vec<Precondition>,
}

impl View for PreconditionList {
    type V = Seq<Clause>;

    open spec fn view(&self) -> Seq<Clause> {
        self.preconditions@.map_values(|p: Precondition| p@)
    }
}

impl PreconditionList {
    /// Parses a comma-separated precondition list; a trailing comma is
    /// allowed.
    pub fn parse(s: &str) -> (r: Result<PreconditionList, ParseError>)
        ensures
            match r {
                Ok(list) => spec_parse_precondition_list(s@) == Ok::<_, ParseError>(list@),
                Err(e) => spec_parse_precondition_list(s@) == Err::<Seq<Clause>, _>(e),
            },
    {
        match parse_precondition_list(s) {
            Ok(preconditions) => Ok(PreconditionList { preconditions }),
            Err(e) => Err(e),
        }
    }

    /// How many preconditions the list holds.
    pub fn len(&self) -> (r: usize)
        ensures
            r == self@.len(),
    {
        proof {
            assert(self@.len() == self.preconditions@.len());
        }
        self.preconditions.len()
    }

    /// The preconditions, in the order they were specified.
    pub fn items(&self) -> (r: &Vec<Precondition>)
        ensures
            r@.map_values(|p: Precondition| p@) == self@,
    {
        &self.preconditions
    }

    /// The preconditions in the canonical order: the same preconditions in
    /// a different order yield the same sequence here.
    pub fn sorted_items(&self) -> (r: Vec<Precondition>)
        ensures
            r@.map_values(|p: Precondition| p@) == sorted_clauses(self@),
    {
        let mut wrapped: Vec<CfgPrecondition> = Vec::new();
        let mut i: usize = 0;
        while i < self.preconditions.len()
            invariant
                i <= self.preconditions@.len(),
                clauses_of(wrapped@) == self@.take(i as int),
            decreases self.preconditions@.len() - i,
        {
            let ghost old_wrapped = wrapped@;
            wrapped.push(
                CfgPrecondition { precondition: self.preconditions[i].duplicate(), cfg: None },
            );
            proof {
                let f = |p: CfgPrecondition| p@.clause;
                assert(clauses_of(wrapped@) =~= clauses_of(old_wrapped).push(
                    self.preconditions@[i as int]@,
                ));
                assert(self@.take(i as int + 1) =~= self@.take(i as int).push(
                    self@[i as int],
                ));
            }
            i = i + 1;
        }
        proof {
            assert(self@.take(self@.len() as int) =~= self@);
            assert(clauses_of(wrapped@) =~= self@);
        }
        let sorted = sort_preconditions(wrapped);
        let mut out: Vec<Precondition> = Vec::new();
        let mut k: usize = 0;
        while k < sorted.len()
            invariant
                k <= sorted@.len(),
                out@.map_values(|p: Precondition| p@) == clauses_of(sorted@).take(k as int),
            decreases sorted@.len() - k,
        {
            let ghost old_out = out@;
            out.push(sorted[k].precondition.duplicate());
            proof {
                let f = |p: Precondition| p@;
                assert(out@.map_values(f) =~= old_out.map_values(f).push(
                    sorted@[k as int]@.clause,
                ));
                assert(clauses_of(sorted@)[k as int] == sorted@[k as int]@.clause);
                assert(clauses_of(sorted@).take(k as int + 1) =~= clauses_of(sorted@).take(
                    k as int,
                ).push(clauses_of(sorted@)[k as int]));
            }
            k = k + 1;
        }
        proof {
            assert(clauses_of(sorted@).take(sorted@.len() as int) =~= clauses_of(sorted@));
        }
        out
    }
}

} // verus!
