use btcpay_ws::btcpay::{handle_btcpay, outcome_of_write, signature_header, InvoiceUpdate, WebhookOutcome};
use btcpay_ws::invoice::{InvoiceCommands, InvoiceError};
use btcpay_ws::memory::MemoryDb;
use btcpay_ws::state::State;
use hmac::{Hmac, Mac, NewMac};

type HmacSha256 = Hmac<sha2::Sha256>;

#[derive(Clone)]
struct DownDb;

impl InvoiceCommands for DownDb {
    fn get_invoice_status(&self, _invoice_id: String) -> Result<String, InvoiceError> {
        Err(InvoiceError::DbConnection)
    }

    fn set_invoice_status(&mut self, _invoice_id: String, _status: String) -> Result<(), InvoiceError> {
        Err(InvoiceError::DbConnection)
    }
}

fn update_in(body: &str) -> Option<InvoiceUpdate> {
    let value: serde_json::Value = serde_json::from_str(body).ok()?;
    Some(InvoiceUpdate {
        status: value.get("type")?.as_str()?.to_string(),
        invoice_id: value.get("invoiceId")?.as_str()?.to_string(),
    })
}

fn signed(secret: &str, body: &str) -> String {
    let mut hmac_sig = HmacSha256::new_varkey(secret.as_bytes()).unwrap();
    hmac_sig.update(body.as_bytes());
    format!("sha256={}", hex::encode(hmac_sig.finalize().into_bytes()))
}

fn post<T: InvoiceCommands>(state: &mut State<T>, body: &str, signature: Option<String>) -> WebhookOutcome {
    handle_btcpay(state, Some(body.to_string()), update_in(body), signature)
}

const BODY: &str = "{\"invoiceId\":\"bob\",\"type\":\"InvoiceCreated\"}";

#[test]
fn test_btcpay() {
    let mut state = State { db: MemoryDb::new(), hmac: "bob".to_string() };

    let mut update = serde_json::Map::new();
    update.insert("invoiceId".to_string(), serde_json::Value::String("bob".to_string()));
    update.insert("type".to_string(), serde_json::Value::String("InvoiceCreated".to_string()));
    let update = serde_json::Value::Object(update);

    let mut hmac_sig = HmacSha256::new_varkey("bob".to_string().as_bytes()).unwrap();
    hmac_sig.update(update.to_string().as_bytes());

    let sig_string = hex::encode(hmac_sig.finalize().into_bytes());

    let outcome = post(&mut state, &update.to_string(), Some(format!("sha256={}", sig_string)));
    let response: serde_json::Value = match serde_json::from_str(&outcome.body()) {
        Ok(res) => res,
        Err(_) => {
            assert!(false);
            return;
        }
    };

    let mut expected = serde_json::Map::new();
    expected.insert("message".to_string(), serde_json::Value::String("update synced".to_string()));
    assert_eq!(response, serde_json::Value::Object(expected));

    assert_eq!(state.db.get_invoice_status("bob".to_string()).unwrap(), "InvoiceCreated");
}

#[test]
fn signed_update_is_synced() {
    let mut state = State { db: MemoryDb::new(), hmac: "bob".to_string() };
    let outcome = post(&mut state, BODY, Some(signed("bob", BODY)));
    assert_eq!(outcome, WebhookOutcome::Synced);
    assert_eq!(outcome.status_code(), 200);
    assert_eq!(outcome.body(), "{\"message\":\"update synced\"}");
    assert_eq!(state.db.get_invoice_status("bob".to_string()), Ok("InvoiceCreated".to_string()));
    assert_eq!(state.hmac, "bob");
}

#[test]
fn redelivered_update_is_synced_again() {
    let mut state = State { db: MemoryDb::new(), hmac: "bob".to_string() };
    for _ in 0..3 {
        assert_eq!(post(&mut state, BODY, Some(signed("bob", BODY))), WebhookOutcome::Synced);
        assert_eq!(state.db.get_invoice_status("bob".to_string()), Ok("InvoiceCreated".to_string()));
    }
}

#[test]
fn unknown_status_is_written_as_it_is() {
    let body = "{\"type\":\"Bogus\",\"invoiceId\":\"inv1\",\"more\":1}";
    let mut state = State { db: MemoryDb::new(), hmac: "bob".to_string() };
    assert_eq!(post(&mut state, body, Some(signed("bob", body))), WebhookOutcome::Synced);
    assert_eq!(state.db.get_invoice_status("inv1".to_string()), Ok("Bogus".to_string()));
}

#[test]
fn other_algorithm_is_refused_and_nothing_is_written() {
    let mut state = State { db: MemoryDb::new(), hmac: "bob".to_string() };
    let outcome = post(&mut state, BODY, Some("md5=deadbeef".to_string()));
    assert_eq!(outcome, WebhookOutcome::UnsupportedAlgorithm);
    assert_eq!(outcome.status_code(), 401);
    assert_eq!(outcome.body(), "{\"detail\":\"invalid hmac operation\"}");
    assert_eq!(state.db.get_invoice_status("bob".to_string()), Err(InvoiceError::DoesNotExist));
}

#[test]
fn missing_body_is_refused() {
    let mut state = State { db: MemoryDb::new(), hmac: "bob".to_string() };
    let outcome = handle_btcpay(&mut state, None, None, Some(signed("bob", BODY)));
    assert_eq!(outcome, WebhookOutcome::MissingBody);
    assert_eq!(outcome.status_code(), 400);
    assert_eq!(outcome.body(), "{\"message\":\"missing body\"}");
    let outcome = handle_btcpay(&mut state, None, update_in(BODY), Some(signed("bob", BODY)));
    assert_eq!(outcome, WebhookOutcome::MissingBody);
    assert_eq!(state.db.get_invoice_status("bob".to_string()), Err(InvoiceError::DoesNotExist));
}

#[test]
fn body_that_is_no_update_is_refused() {
    let mut state = State { db: MemoryDb::new(), hmac: "bob".to_string() };
    for body in ["", "not json", "{\"type\":\"InvoiceCreated\"}", "{\"invoiceId\":\"bob\"}", "[]"] {
        let outcome = post(&mut state, body, Some(signed("bob", body)));
        assert_eq!(outcome, WebhookOutcome::InvalidBody);
        assert_eq!(outcome.status_code(), 400);
        assert_eq!(outcome.body(), "{\"message\":\"invalid body\"}");
    }
    let outcome = post(&mut state, "not json", None);
    assert_eq!(outcome, WebhookOutcome::InvalidBody);
    assert_eq!(state.db.get_invoice_status("bob".to_string()), Err(InvoiceError::DoesNotExist));
}

#[test]
fn missing_signature_is_refused() {
    let mut state = State { db: MemoryDb::new(), hmac: "bob".to_string() };
    let outcome = post(&mut state, BODY, None);
    assert_eq!(outcome, WebhookOutcome::MissingSignature);
    assert_eq!(outcome.status_code(), 400);
    assert_eq!(outcome.body(), "{\"detail\":\"missing BTCPAY-SIG header\"}");
    assert_eq!(state.db.get_invoice_status("bob".to_string()), Err(InvoiceError::DoesNotExist));
}

#[test]
fn malformed_signature_is_refused() {
    let mut state = State { db: MemoryDb::new(), hmac: "bob".to_string() };
    let bare = signed("bob", BODY).replace("sha256=", "");
    for header in [bare, String::new(), "sha256".to_string(), format!("{}=", signed("bob", BODY))] {
        let outcome = post(&mut state, BODY, Some(header));
        assert_eq!(outcome, WebhookOutcome::MalformedSignature);
        assert_eq!(outcome.status_code(), 401);
        assert_eq!(outcome.body(), "{\"detail\":\"invalid BTCPAY-SIG\"}");
    }
    assert_eq!(state.db.get_invoice_status("bob".to_string()), Err(InvoiceError::DoesNotExist));
}

#[test]
fn wrong_signature_is_refused() {
    let mut state = State { db: MemoryDb::new(), hmac: "bob".to_string() };
    let other_body = "{\"invoiceId\":\"bob\",\"type\":\"InvoicePayed\"}";
    for header in [
        signed("alice", BODY),
        signed("bob", other_body),
        "sha256=deadbeef".to_string(),
        "sha256=".to_string(),
        "sha256=not hexadecimal".to_string(),
    ] {
        let outcome = post(&mut state, BODY, Some(header));
        assert_eq!(outcome, WebhookOutcome::BadSignature);
        assert_eq!(outcome.status_code(), 401);
        assert_eq!(outcome.body(), "{\"detail\":\"invalid hmac\"}");
    }
    assert_eq!(state.db.get_invoice_status("bob".to_string()), Err(InvoiceError::DoesNotExist));
}

#[test]
fn refused_update_leaves_the_stored_status() {
    let mut state = State { db: MemoryDb::new(), hmac: "bob".to_string() };
    assert_eq!(post(&mut state, BODY, Some(signed("bob", BODY))), WebhookOutcome::Synced);
    let later = "{\"invoiceId\":\"bob\",\"type\":\"InvoicePayed\"}";
    assert_eq!(post(&mut state, later, Some(signed("alice", later))), WebhookOutcome::BadSignature);
    assert_eq!(post(&mut state, later, Some("md5=deadbeef".to_string())), WebhookOutcome::UnsupportedAlgorithm);
    assert_eq!(post(&mut state, later, None), WebhookOutcome::MissingSignature);
    assert_eq!(state.db.get_invoice_status("bob".to_string()), Ok("InvoiceCreated".to_string()));
    assert_eq!(post(&mut state, later, Some(signed("bob", later))), WebhookOutcome::Synced);
    assert_eq!(state.db.get_invoice_status("bob".to_string()), Ok("InvoicePayed".to_string()));
}

#[test]
fn failing_store_is_answered_with_an_empty_500() {
    let mut state = State { db: DownDb, hmac: "bob".to_string() };
    let outcome = post(&mut state, BODY, Some(signed("bob", BODY)));
    assert_eq!(outcome, WebhookOutcome::StoreFailure);
    assert_eq!(outcome.status_code(), 500);
    assert_eq!(outcome.body(), "");
    assert_eq!(post(&mut state, BODY, Some("md5=deadbeef".to_string())), WebhookOutcome::UnsupportedAlgorithm);
    assert!(state.db.get_invoice_status("bob".to_string()).is_err());
}

#[test]
fn outcome_follows_the_write() {
    assert_eq!(outcome_of_write(Ok(())), WebhookOutcome::Synced);
    assert_eq!(outcome_of_write(Err(InvoiceError::DbConnection)), WebhookOutcome::StoreFailure);
    assert_eq!(outcome_of_write(Err(InvoiceError::DoesNotExist)), WebhookOutcome::StoreFailure);
}

#[test]
fn signature_travels_in_its_header() {
    assert_eq!(signature_header(), "BTCPAY-SIG");
}
