use vstd::prelude::*;

verus! {

/// Port on which nameservers listen for queries over UDP.
pub const DNS_PORT: u16 = 53;

/// Bound, in seconds, on the wait for the answer to one query.
pub const QUERY_TIMEOUT_SECS: u64 = 5;

/// Why one address query did not yield an address.
#[derive(Clone, Copy, Debug, PartialEq, Eq, Structural)]
pub enum QueryError {
    /// The server could not be reached, the exchange failed or timed out, or
    /// the response could not be decoded.
    Network,
    /// The response carried no answer records.
    NoAnswer,
    /// The first answer record is not an IPv4 address record.
    UnexpectedRecordType,
}

/// One answer record of a response, reduced to what the check reads.
#[derive(Clone, Copy, Debug, PartialEq, Eq, Structural)]
pub enum AnswerRecord {
    /// An address (type A) record holding this IPv4 address.
    Address(u32),
    /// A record of any other type.
    Other,
}

/// What a response with these answer records resolves the queried name to:
/// the address of the first answer, which must be an address record.
pub open spec fn first_address_of(answers: Seq<AnswerRecord>) -> Result<u32, QueryError> {
    if answers.len() == 0 {
        Err(QueryError::NoAnswer)
    } else {
        match answers[0] {
            AnswerRecord::Address(a) => Ok(a),
            AnswerRecord::Other => Err(QueryError::UnexpectedRecordType),
        }
    }
}

/// Reads the resolved address out of the answer section of a response.
/// Only the first record is consulted; an empty answer section is an error,
/// never an index out of bounds.
pub fn first_address(answers: &Vec<AnswerRecord>) -> (r: Result<u32, QueryError>)
    ensures
        r == first_address_of(answers@),
        answers@.len() == 0 ==> r == Err::<u32, QueryError>(QueryError::NoAnswer),
{
    if answers.len() == 0 {
        Err(QueryError::NoAnswer)
    } else {
        match answers[0] {
            AnswerRecord::Address(a) => Ok(a),
            AnswerRecord::Other => Err(QueryError::UnexpectedRecordType),
        }
    }
}

} // verus!
