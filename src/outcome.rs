use vstd::prelude::*;

use crate::response::{first_address, first_address_of, AnswerRecord, QueryError};

verus! {

/// How one (source server, target name) check ended.
#[derive(Clone, Copy, Debug, PartialEq, Eq, Structural)]
pub enum CheckOutcome {
    /// The source resolved the target name to the expected address.
    Matched,
    /// The source resolved the target name to this other address.
    Mismatched(u32),
    /// The query produced no address.
    QueryFailed(QueryError),
}

/// The outcome of comparing a resolved address with the expected one.
pub open spec fn verify_spec(resolved: u32, expected: u32) -> CheckOutcome {
    if resolved == expected {
        CheckOutcome::Matched
    } else {
        CheckOutcome::Mismatched(resolved)
    }
}

/// The outcome of a check whose query gave `result`.
pub open spec fn outcome_of(result: Result<u32, QueryError>, expected: u32) -> CheckOutcome {
    match result {
        Ok(a) => verify_spec(a, expected),
        Err(e) => CheckOutcome::QueryFailed(e),
    }
}

/// The query result carried by a response: the transport's error, or what the
/// answer records resolve the name to.
pub open spec fn query_result_of(response: Result<Seq<AnswerRecord>, QueryError>) -> Result<
    u32,
    QueryError,
> {
    match response {
        Ok(answers) => first_address_of(answers),
        Err(e) => Err(e),
    }
}

/// The view of a response as handed over by the transport.
pub open spec fn response_view(response: Result<Vec<AnswerRecord>, QueryError>) -> Result<
    Seq<AnswerRecord>,
    QueryError,
> {
    match response {
        Ok(answers) => Ok(answers@),
        Err(e) => Err(e),
    }
}

impl CheckOutcome {
    /// Whether this outcome counts as a passed check.
    pub open spec fn is_pass(self) -> bool {
        self is Matched
    }

    /// Whether the check passed.
    pub fn passed(&self) -> (r: bool)
        ensures
            r == self.is_pass(),
    {
        match self {
            CheckOutcome::Matched => true,
            _ => false,
        }
    }
}

/// Compares a resolved address with the expected one.
pub fn verify(resolved: u32, expected: u32) -> (r: CheckOutcome)
    ensures
        r == verify_spec(resolved, expected),
{
    if resolved == expected {
        CheckOutcome::Matched
    } else {
        CheckOutcome::Mismatched(resolved)
    }
}

/// Classifies a query result against the expected address: a failed query is
/// a failed check, an address is verified.
pub fn classify(result: Result<u32, QueryError>, expected: u32) -> (r: CheckOutcome)
    ensures
        r == outcome_of(result, expected),
{
    match result {
        Ok(a) => verify(a, expected),
        Err(e) => CheckOutcome::QueryFailed(e),
    }
}

/// Classifies the response that a server gave to the query for a name whose
/// expected address is `expected`.
pub fn check(response: &Result<Vec<AnswerRecord>, QueryError>, expected: u32) -> (r: CheckOutcome)
    ensures
        r == outcome_of(query_result_of(response_view(*response)), expected),
        (*response matches Ok(answers) && answers@.len() == 0) ==> r == CheckOutcome::QueryFailed(
            QueryError::NoAnswer,
        ),
{
    match response {
        Ok(answers) => classify(first_address(answers), expected),
        Err(e) => CheckOutcome::QueryFailed(*e),
    }
}

} // verus!
