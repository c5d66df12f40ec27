//! Error values that are traced rather than propagated: each carries
//! what a log line needs, and renders that line exactly.

use vstd::prelude::*;
use vstd::string::*;

use crate::text::{spec_dec, u64_dec};

verus! {

/// An error destined for the log: a structured broker error, a failure
/// during a named phase, or a failure of a named kind.
#[derive(Debug)]
pub enum TracedError {
    Centrifugo { code: u16, message: String },
    During { during: String, err: String },
    Kind { kind: String, err: String },
}

/// The log line a traced error renders to.
pub open spec fn spec_trace_line(e: TracedError) -> Seq<char> {
    match e {
        TracedError::Centrifugo { code, message } => "kind=from Centrifugo code="@ + spec_dec(
            code as int,
        ) + " message="@ + message@,
        TracedError::During { during, err } => "during="@ + during@ + " err="@ + err@,
        TracedError::Kind { kind, err } => "kind="@ + kind@ + " err="@ + err@,
    }
}

impl TracedError {
    /// A failure of a named kind.
    pub fn from_kind(kind: &str, err: &str) -> (r: Self)
        ensures
            r is Kind,
            r->Kind_kind@ == kind@,
            r->Kind_err@ == err@,
    {
        TracedError::Kind { kind: kind.to_owned(), err: err.to_owned() }
    }

    /// A structured error reported by the broker.
    pub fn from_centrifugo_error(code: u16, message: &str) -> (r: Self)
        ensures
            r is Centrifugo,
            r->Centrifugo_code == code,
            r->Centrifugo_message@ == message@,
    {
        TracedError::Centrifugo { code, message: message.to_owned() }
    }

    /// A failure during a named phase.
    pub fn from_during(during: &str, err: &str) -> (r: Self)
        ensures
            r is During,
            r->During_during@ == during@,
            r->During_err@ == err@,
    {
        TracedError::During { during: during.to_owned(), err: err.to_owned() }
    }

    /// Renders the log line this error is traced as.
    pub fn trace_error(&self) -> (r: String)
        ensures
            r@ == spec_trace_line(*self),
    {
        let mut out = String::new();
        match self {
            TracedError::Centrifugo { code, message } => {
                out.append("kind=from Centrifugo code=");
                let rendered = u64_dec(*code as u64);
                out.append(rendered.as_str());
                out.append(" message=");
                out.append(message.as_str());
            },
            TracedError::During { during, err } => {
                out.append("during=");
                out.append(during.as_str());
                out.append(" err=");
                out.append(err.as_str());
            },
            TracedError::Kind { kind, err } => {
                out.append("kind=");
                out.append(kind.as_str());
                out.append(" err=");
                out.append(err.as_str());
            },
        }
        proof {
            assert(out@ =~= spec_trace_line(*self));
        }
        out
    }
}

} // verus!
