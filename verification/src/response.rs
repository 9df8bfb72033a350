//! The service's reply to an injection request, as a typed value. A
//! `Response` is only ever produced by parsing the reply body; a successful
//! parse still requires the caller to inspect `error_code` for an
//! application-level rejection.

use vstd::prelude::*;

verus! {

/// The parsed reply of the Injection API: an overall error code, an optional
/// transaction receipt, and one outcome code per submitted message, in
/// submission order.
#[derive(Debug, Clone, PartialEq)]
pub struct Response {
    pub error_code: String,
    pub transaction_receipt: Option<String>,
    pub message_results: Vec<String>,
}

/// The mathematical value of a `Response`.
pub struct ResponseView {
    pub error_code: Seq<char>,
    pub transaction_receipt: Option<Seq<char>>,
    pub message_results: Seq<Seq<char>>,
}

impl View for Response {
    type V = ResponseView;

    open spec fn view(&self) -> ResponseView {
        ResponseView {
            error_code: self.error_code@,
            transaction_receipt: match self.transaction_receipt {
                Some(ref r) => Some(r@),
                None => None,
            },
            message_results: self.message_results@.map_values(|s: String| s@),
        }
    }
}

} // verus!
