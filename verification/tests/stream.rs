use btcpay_ws::invoice::{InvoiceCommands, InvoiceError};
use btcpay_ws::memory::MemoryDb;
use btcpay_ws::websocket::{advance, is_final_status, StreamEvent, StreamMessage, StreamState, POLL_SECONDS};

fn status(text: &str) -> StreamMessage {
    StreamMessage::Status(text.to_string())
}

fn read(db: &MemoryDb, invoice_id: &str) -> StreamEvent {
    StreamEvent::Read(db.get_invoice_status(invoice_id.to_string()))
}

#[test]
fn watcher_is_sent_the_first_status_and_the_final_one() {
    let mut db = MemoryDb::new();
    db.set_invoice_status("inv1".to_string(), "InvoiceCreated".to_string()).unwrap();
    let mut sent: Vec<StreamMessage> = Vec::new();

    let (state, batch) = advance(StreamState::new(), read(&db, "inv1"));
    assert_eq!(batch, vec![status("InvoiceCreated")]);
    assert_eq!(state, StreamState::Watching { last_sent: "InvoiceCreated".to_string() });
    sent.extend(batch);

    let (state, batch) = advance(state, read(&db, "inv1"));
    assert_eq!(batch, vec![]);
    assert!(!state.is_terminated());

    db.set_invoice_status("inv1".to_string(), "InvoicePayed".to_string()).unwrap();
    let (state, batch) = advance(state, read(&db, "inv1"));
    assert_eq!(batch, vec![status("InvoicePayed")]);
    assert_eq!(state, StreamState::Terminated);
    assert!(state.is_terminated());
    sent.extend(batch);

    db.set_invoice_status("inv1".to_string(), "InvoiceCreated".to_string()).unwrap();
    let (state, batch) = advance(state, read(&db, "inv1"));
    assert_eq!(batch, vec![]);
    assert_eq!(state, StreamState::Terminated);

    assert_eq!(sent, vec![status("InvoiceCreated"), status("InvoicePayed")]);
}

#[test]
fn unknown_status_breaks_the_stream_off() {
    let mut db = MemoryDb::new();
    db.set_invoice_status("inv1".to_string(), "InvoiceCreated".to_string()).unwrap();
    let (state, _) = advance(StreamState::new(), read(&db, "inv1"));

    db.set_invoice_status("inv1".to_string(), "Bogus".to_string()).unwrap();
    let (state, batch) = advance(state, read(&db, "inv1"));
    assert_eq!(batch, vec![status("Bogus"), StreamMessage::Failure]);
    assert_eq!(batch.iter().filter(|message| !matches!(message, StreamMessage::Status(_))).count(), 1);
    assert_eq!(state, StreamState::Terminated);
    assert_eq!(db.get_invoice_status("inv1".to_string()), Ok("Bogus".to_string()));

    let (state, batch) = advance(state, read(&db, "inv1"));
    assert_eq!(batch, vec![]);
    assert_eq!(state, StreamState::Terminated);
}

#[test]
fn stream_on_an_unknown_invoice_ends_at_once() {
    let db = MemoryDb::new();
    let (state, batch) = advance(StreamState::new(), read(&db, "inv1"));
    assert_eq!(batch, vec![StreamMessage::NotFound]);
    assert_eq!(state, StreamState::Terminated);
}

#[test]
fn any_failure_of_the_first_read_is_reported_as_not_found() {
    for error in [InvoiceError::DbConnection, InvoiceError::DbAuthentication, InvoiceError::DoesNotExist] {
        let (state, batch) = advance(StreamState::Connecting, StreamEvent::Read(Err(error)));
        assert_eq!(batch, vec![StreamMessage::NotFound]);
        assert_eq!(state, StreamState::Terminated);
    }
}

#[test]
fn stream_that_opens_on_a_terminal_status_sends_it_once_and_ends() {
    for name in ["InvoicePayed", "InvoiceExpired"] {
        let (state, batch) = advance(StreamState::new(), StreamEvent::Read(Ok(name.to_string())));
        assert_eq!(batch, vec![status(name)]);
        assert_eq!(state, StreamState::Terminated);
    }
}

#[test]
fn stream_that_opens_on_another_status_sends_it_and_watches() {
    for name in ["InvoiceCreated", "InvoiceRecievedPayment", "Bogus", ""] {
        let (state, batch) = advance(StreamState::new(), StreamEvent::Read(Ok(name.to_string())));
        assert_eq!(batch, vec![status(name)]);
        assert_eq!(state, StreamState::Watching { last_sent: name.to_string() });
    }
}

#[test]
fn unchanged_status_is_not_sent_again() {
    for name in ["InvoiceCreated", "InvoiceRecievedPayment", "Bogus"] {
        let watching = StreamState::Watching { last_sent: name.to_string() };
        let (state, batch) = advance(watching.clone(), StreamEvent::Read(Ok(name.to_string())));
        assert_eq!(batch, vec![]);
        assert_eq!(state, watching);
    }
}

#[test]
fn change_to_a_status_that_goes_on_is_sent_and_watched() {
    let watching = StreamState::Watching { last_sent: "InvoiceCreated".to_string() };
    let (state, batch) = advance(watching, StreamEvent::Read(Ok("InvoiceRecievedPayment".to_string())));
    assert_eq!(batch, vec![status("InvoiceRecievedPayment")]);
    assert_eq!(state, StreamState::Watching { last_sent: "InvoiceRecievedPayment".to_string() });
    let (state, batch) = advance(state, StreamEvent::Read(Ok("InvoiceCreated".to_string())));
    assert_eq!(batch, vec![status("InvoiceCreated")]);
    assert_eq!(state, StreamState::Watching { last_sent: "InvoiceCreated".to_string() });
}

#[test]
fn change_to_expired_ends_the_stream() {
    let watching = StreamState::Watching { last_sent: "InvoiceRecievedPayment".to_string() };
    let (state, batch) = advance(watching, StreamEvent::Read(Ok("InvoiceExpired".to_string())));
    assert_eq!(batch, vec![status("InvoiceExpired")]);
    assert_eq!(state, StreamState::Terminated);
}

#[test]
fn failed_read_while_watching_is_reported_and_ends_the_stream() {
    for error in [InvoiceError::DbConnection, InvoiceError::DoesNotExist] {
        let watching = StreamState::Watching { last_sent: "InvoiceCreated".to_string() };
        let (state, batch) = advance(watching, StreamEvent::Read(Err(error)));
        assert_eq!(batch, vec![StreamMessage::Failure]);
        assert_eq!(state, StreamState::Terminated);
    }
}

#[test]
fn disconnected_watcher_ends_the_stream_in_silence() {
    let watching = StreamState::Watching { last_sent: "InvoiceCreated".to_string() };
    for state in [StreamState::Connecting, watching, StreamState::Terminated] {
        let (state, batch) = advance(state, StreamEvent::Disconnected);
        assert_eq!(batch, vec![]);
        assert_eq!(state, StreamState::Terminated);
    }
}

#[test]
fn terminated_stream_stays_silent() {
    let events = vec![
        StreamEvent::Read(Ok("InvoiceCreated".to_string())),
        StreamEvent::Read(Ok("InvoicePayed".to_string())),
        StreamEvent::Read(Ok("Bogus".to_string())),
        StreamEvent::Read(Err(InvoiceError::DbConnection)),
        StreamEvent::Disconnected,
    ];
    let mut state = StreamState::Terminated;
    for event in events {
        let (next, batch) = advance(state, event);
        assert_eq!(batch, vec![]);
        assert_eq!(next, StreamState::Terminated);
        state = next;
    }
}

#[test]
fn only_payed_and_expired_are_final() {
    assert!(is_final_status("InvoicePayed"));
    assert!(is_final_status("InvoiceExpired"));
    assert!(!is_final_status("InvoiceCreated"));
    assert!(!is_final_status("InvoiceRecievedPayment"));
    assert!(!is_final_status("Bogus"));
    assert!(!is_final_status(""));
}

#[test]
fn notices_have_their_fixed_texts() {
    assert_eq!(StreamMessage::NotFound.notice_text(), "status not found");
    assert_eq!(StreamMessage::Failure.notice_text(), "An error occured");
    assert_eq!(status("InvoicePayed").notice_text(), "");
}

#[test]
fn store_is_polled_every_second() {
    assert_eq!(POLL_SECONDS, 1);
}
