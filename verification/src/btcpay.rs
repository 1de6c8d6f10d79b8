//! Taking in a signed status update: the request is screened, its signature
//! checked, and the status written to the store.

use vstd::prelude::*;
use vstd::string::*;
use vstd::utf8::encode_utf8;
use crate::invoice::{InvoiceCommands, InvoiceError};
use crate::state::{verdict, verify, SignatureError, State};

verus! {

/// A status update, as the payment processor sends it: the field `type`
/// holds the status, the field `invoiceId` the invoice.
#[derive(Debug, Clone)]
pub struct InvoiceUpdate {
    pub status: String,
    pub invoice_id: String,
}

/// How the handling of an update ended.
#[derive(Debug, Clone, Copy, PartialEq, Eq, Structural)]
pub enum WebhookOutcome {
    /// The request's body could not be read.
    MissingBody,
    /// The body is not an update.
    InvalidBody,
    /// The request carries no signature header.
    MissingSignature,
    /// The signature header is not of the form `<algorithm>=<digest>`.
    MalformedSignature,
    /// The signature names an algorithm other than the supported one.
    UnsupportedAlgorithm,
    /// The digest is not that of the body under the shared secret.
    BadSignature,
    /// The store did not take the write.
    StoreFailure,
    /// The status was written.
    Synced,
}

impl WebhookOutcome {
    /// The HTTP status that answers the request.
    pub open spec fn code(self) -> u16 {
        match self {
            WebhookOutcome::MissingBody => 400,
            WebhookOutcome::InvalidBody => 400,
            WebhookOutcome::MissingSignature => 400,
            WebhookOutcome::MalformedSignature => 401,
            WebhookOutcome::UnsupportedAlgorithm => 401,
            WebhookOutcome::BadSignature => 401,
            WebhookOutcome::StoreFailure => 500,
            WebhookOutcome::Synced => 200,
        }
    }

    /// The JSON text that answers the request; empty where the answer has no body.
    pub open spec fn reply(self) -> Seq<char> {
        match self {
            WebhookOutcome::MissingBody => "{\"message\":\"missing body\"}"@,
            WebhookOutcome::InvalidBody => "{\"message\":\"invalid body\"}"@,
            WebhookOutcome::MissingSignature => "{\"detail\":\"missing BTCPAY-SIG header\"}"@,
            WebhookOutcome::MalformedSignature => "{\"detail\":\"invalid BTCPAY-SIG\"}"@,
            WebhookOutcome::UnsupportedAlgorithm => "{\"detail\":\"invalid hmac operation\"}"@,
            WebhookOutcome::BadSignature => "{\"detail\":\"invalid hmac\"}"@,
            WebhookOutcome::StoreFailure => Seq::empty(),
            WebhookOutcome::Synced => "{\"message\":\"update synced\"}"@,
        }
    }

    /// The HTTP status that answers the request.
    pub fn status_code(&self) -> (code: u16)
        ensures
            code == self.code(),
    {
        match self {
            WebhookOutcome::MissingBody
            | WebhookOutcome::InvalidBody
            | WebhookOutcome::MissingSignature => 400,
            WebhookOutcome::MalformedSignature
            | WebhookOutcome::UnsupportedAlgorithm
            | WebhookOutcome::BadSignature => 401,
            WebhookOutcome::StoreFailure => 500,
            WebhookOutcome::Synced => 200,
        }
    }

    /// The JSON text that answers the request; empty where the answer has no body.
    pub fn body(&self) -> (text: String)
        ensures
            text@ == self.reply(),
    {
        match self {
            WebhookOutcome::MissingBody => String::from_str("{\"message\":\"missing body\"}"),
            WebhookOutcome::InvalidBody => String::from_str("{\"message\":\"invalid body\"}"),
            WebhookOutcome::MissingSignature => String::from_str(
                "{\"detail\":\"missing BTCPAY-SIG header\"}",
            ),
            WebhookOutcome::MalformedSignature => String::from_str(
                "{\"detail\":\"invalid BTCPAY-SIG\"}",
            ),
            WebhookOutcome::UnsupportedAlgorithm => String::from_str(
                "{\"detail\":\"invalid hmac operation\"}",
            ),
            WebhookOutcome::BadSignature => String::from_str("{\"detail\":\"invalid hmac\"}"),
            WebhookOutcome::StoreFailure => String::new(),
            WebhookOutcome::Synced => String::from_str("{\"message\":\"update synced\"}"),
        }
    }
}

/// The name of the header that carries the signature.
pub fn signature_header() -> (name: &'static str)
    ensures
        name@ == "BTCPAY-SIG"@,
{
    "BTCPAY-SIG"
}

/// Why a request is turned away before anything is written, if it is: the
/// first of the checks that fails, in the order body, update, header,
/// signature. `None` where the request passes them all.
pub open spec fn refusal(
    secret: Seq<char>,
    body: Option<Seq<char>>,
    parsed: bool,
    signature: Option<Seq<char>>,
) -> Option<WebhookOutcome> {
    match body {
        None => Some(WebhookOutcome::MissingBody),
        Some(text) => if !parsed {
            Some(WebhookOutcome::InvalidBody)
        } else {
            match signature {
                None => Some(WebhookOutcome::MissingSignature),
                Some(header) => match verdict(encode_utf8(text), header, encode_utf8(secret)) {
                    Err(SignatureError::Malformed) => Some(WebhookOutcome::MalformedSignature),
                    Err(SignatureError::UnsupportedAlgorithm) => Some(
                        WebhookOutcome::UnsupportedAlgorithm,
                    ),
                    Ok(false) => Some(WebhookOutcome::BadSignature),
                    Ok(true) => None,
                },
            }
        },
    }
}

/// The outcome of a request that passed every check, from what the store
/// said of the write.
pub fn outcome_of_write(written: Result<(), InvoiceError>) -> (outcome: WebhookOutcome)
    ensures
        outcome == match written {
            Ok(_) => WebhookOutcome::Synced,
            Err(_) => WebhookOutcome::StoreFailure,
        },
{
    match written {
        Ok(_) => WebhookOutcome::Synced,
        Err(_) => WebhookOutcome::StoreFailure,
    }
}

/// Handles one status update.
///
/// `body` is the request's body if it could be read, `update` what the body
/// holds if it is an update, `signature` the value of the signature header if
/// there is one. A request that fails a check is answered with the reason and
/// leaves the store as it was. One that passes has its status written for its
/// invoice; the answer then tells whether the store took the write.
pub fn handle_btcpay<T: InvoiceCommands>(
    state: &mut State<T>,
    body: Option<String>,
    update: Option<InvoiceUpdate>,
    signature: Option<String>,
) -> (outcome: WebhookOutcome)
    ensures
        final(state).hmac == old(state).hmac,
        match refusal(
            old(state).hmac@,
            match body {
                Some(text) => Some(text@),
                None => None,
            },
            update is Some,
            match signature {
                Some(header) => Some(header@),
                None => None,
            },
        ) {
            Some(reason) => outcome == reason && final(state).db == old(state).db,
            None => {
                ||| outcome == WebhookOutcome::StoreFailure
                ||| {
                    &&& outcome == WebhookOutcome::Synced
                    &&& old(state).db.modelled() ==> final(state).db.modelled()
                    &&& old(state).db.modelled() ==> final(state).db.records() == old(state).db.records().insert(update->0.invoice_id@, update->0.status@)
                }
            },
        },
{
    let text = match body {
        Some(text) => text,
        None => {
            return WebhookOutcome::MissingBody;
        },
    };
    let update = match update {
        Some(update) => update,
        None => {
            return WebhookOutcome::InvalidBody;
        },
    };
    let header = match signature {
        Some(header) => header,
        None => {
            return WebhookOutcome::MissingSignature;
        },
    };
    match verify(text.as_str().as_bytes(), header.as_str(), state.hmac.as_str().as_bytes()) {
        Err(SignatureError::Malformed) => WebhookOutcome::MalformedSignature,
        Err(SignatureError::UnsupportedAlgorithm) => WebhookOutcome::UnsupportedAlgorithm,
        Ok(false) => WebhookOutcome::BadSignature,
        Ok(true) => {
            let written = state.db.set_invoice_status(update.invoice_id, update.status);
            outcome_of_write(written)
        },
    }
}

} // verus!
