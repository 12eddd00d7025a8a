use lightning::types::payment::PaymentSecret;
use lightning::util::ser::{BigSize, Writeable};
use pq_ldk_sample::payment_table::{
    InboundPaymentInfoStorage, OutboundPaymentInfoStorage, PaymentTable,
};
use pq_ldk_sample::payments::{HTLCStatus, MillisatAmount, PaymentInfo};
use pq_ldk_sample::wire::DecodeError;

fn info(status: HTLCStatus, amt: Option<u64>) -> PaymentInfo {
    PaymentInfo { preimage: None, secret: Some([7; 32]), status, amt_msat: MillisatAmount(amt) }
}

fn same(a: &PaymentInfo, b: &PaymentInfo) -> bool {
    a.preimage == b.preimage
        && a.secret == b.secret
        && a.status == b.status
        && a.amt_msat == b.amt_msat
}

/// The bytes of a payment, put together with the serialization of the Lightning library.
fn expected_bytes(p: &PaymentInfo) -> Vec<u8> {
    let mut fields = Vec::new();
    let preimage = p.preimage.map(PaymentSecret).encode();
    let secret = p.secret.map(PaymentSecret).encode();
    let status = vec![
        match p.status {
            HTLCStatus::Pending => 0u8,
            HTLCStatus::Succeeded => 1,
            HTLCStatus::Failed => 2,
        },
        0,
    ];
    let amount = p.amt_msat.0.encode();
    for (kind, value) in [(0u64, preimage), (2, secret), (4, status), (6, amount)] {
        fields.extend(BigSize(kind).encode());
        fields.extend(BigSize(value.len() as u64).encode());
        fields.extend(value);
    }
    let mut out = BigSize(fields.len() as u64).encode();
    out.extend(fields);
    out
}

#[test]
fn amounts_are_written_like_the_lightning_library_writes_them() {
    for amt in [None, Some(0u64), Some(1), Some(u64::MAX), Some(123_456_789)] {
        let mut bytes = Vec::new();
        MillisatAmount(amt).write(&mut bytes);
        assert_eq!(bytes, amt.encode());
        assert_eq!(MillisatAmount::read(&bytes), Ok((MillisatAmount(amt), bytes.len())));
    }
}

#[test]
fn amounts_are_shown() {
    assert_eq!(MillisatAmount(Some(1500)).fmt(), "1500");
    assert_eq!(MillisatAmount(None).fmt(), "unknown");
}

#[test]
fn payments_are_written_like_the_lightning_library_writes_them() {
    let payments = [
        info(HTLCStatus::Pending, Some(1)),
        info(HTLCStatus::Succeeded, None),
        PaymentInfo {
            preimage: Some([9; 32]),
            secret: None,
            status: HTLCStatus::Failed,
            amt_msat: MillisatAmount(Some(u64::MAX)),
        },
    ];
    for p in payments {
        let mut bytes = Vec::new();
        p.write(&mut bytes);
        assert_eq!(bytes, expected_bytes(&p));
        bytes.push(0xff);
        let (back, used) = PaymentInfo::read(&bytes).unwrap();
        assert!(same(&back, &p));
        assert_eq!(used, bytes.len() - 1);
    }
}

#[test]
fn a_store_with_one_payment_has_known_bytes() {
    let mut store = OutboundPaymentInfoStorage::new();
    store.record_pending([5; 32], None, 42);
    let body = expected_bytes(&PaymentInfo {
        preimage: None,
        secret: None,
        status: HTLCStatus::Pending,
        amt_msat: MillisatAmount(Some(42)),
    });
    let mut table = vec![0u8, 1];
    table.extend([5u8; 32]);
    table.extend(body);
    let mut stream = BigSize(0).encode();
    stream.extend(BigSize(table.len() as u64).encode());
    stream.extend(table);
    let mut expected = BigSize(stream.len() as u64).encode();
    expected.extend(stream);
    assert_eq!(store.encode(), expected);
}

#[test]
fn a_store_is_remembered_after_a_restart() {
    let mut store = OutboundPaymentInfoStorage::new();
    for i in 0..40u8 {
        store.record_pending([i; 32], Some([i; 32]), i as u64 * 1000);
    }
    store.mark_failed([3; 32]);
    store.mark_sent([4; 32], [44; 32]);
    let back = OutboundPaymentInfoStorage::from_bytes(&store.encode());
    assert_eq!(back.payments.entries().len(), 40);
    for i in 0..40u8 {
        let before = store.payments.get(&[i; 32]).unwrap();
        let after = back.payments.get(&[i; 32]).unwrap();
        assert!(same(&before, &after));
    }
    assert_eq!(back.payments.get(&[3; 32]).unwrap().status, HTLCStatus::Failed);
    assert_eq!(back.payments.get(&[4; 32]).unwrap().preimage, Some([44; 32]));
}

#[test]
fn an_unreadable_store_holds_nothing() {
    assert!(InboundPaymentInfoStorage::from_bytes(&[]).payments.is_empty());
    assert!(InboundPaymentInfoStorage::from_bytes(&[0xff, 1, 2]).payments.is_empty());
    let mut store = InboundPaymentInfoStorage::new();
    store.record_pending([1; 32], None, 5);
    let bytes = store.encode();
    assert!(InboundPaymentInfoStorage::from_bytes(&bytes[..bytes.len() - 1]).payments.is_empty());
}

#[test]
fn decode_errors_are_told_apart() {
    assert_eq!(PaymentTable::read(&[]).err(), Some(DecodeError::ShortRead));
    // The table is missing.
    assert_eq!(PaymentTable::read(&[0]).err(), Some(DecodeError::InvalidValue));
    // A record of an even kind that is not known.
    assert_eq!(
        PaymentTable::read(&[6, 0, 2, 0, 0, 2, 0]).err(),
        Some(DecodeError::UnknownRequiredFeature)
    );
    // A record of an odd kind that is not known is passed over.
    assert!(PaymentTable::read(&[7, 0, 2, 0, 0, 3, 1, 9]).is_ok());
    // The same payment twice.
    let mut one = OutboundPaymentInfoStorage::new();
    one.record_pending([5; 32], None, 42);
    let bytes = one.encode();
    let entry = bytes[5..].to_vec();
    let mut table = vec![0u8, 2];
    table.extend(&entry);
    table.extend(&entry);
    let mut stream = vec![0u8];
    stream.extend(BigSize(table.len() as u64).encode());
    stream.extend(table);
    let mut twice = BigSize(stream.len() as u64).encode();
    twice.extend(stream);
    assert_eq!(PaymentTable::read(&twice).err(), Some(DecodeError::InvalidValue));
}

#[test]
fn a_claimed_payment_keeps_the_amount_it_was_asked_for() {
    let mut store = InboundPaymentInfoStorage::new();
    store.record_pending([1; 32], Some([2; 32]), 1000);
    store.mark_claimed([1; 32], Some([3; 32]), None, 999);
    let p = store.payments.get(&[1; 32]).unwrap();
    assert_eq!(p.status, HTLCStatus::Succeeded);
    assert_eq!(p.amt_msat, MillisatAmount(Some(1000)));
    assert_eq!(p.preimage, Some([3; 32]));
    assert_eq!(p.secret, None);
    store.mark_claimed([9; 32], None, Some([8; 32]), 77);
    let q = store.payments.get(&[9; 32]).unwrap();
    assert_eq!(q.amt_msat, MillisatAmount(Some(77)));
    assert_eq!(q.secret, Some([8; 32]));
}

#[test]
fn only_known_payments_arrive_or_fail() {
    let mut store = OutboundPaymentInfoStorage::new();
    assert_eq!(store.mark_sent([1; 32], [2; 32]), None);
    store.mark_failed([1; 32]);
    assert!(store.payments.is_empty());
    store.record_pending([1; 32], None, 5);
    assert_eq!(store.mark_sent([1; 32], [2; 32]), Some(MillisatAmount(Some(5))));
    assert!(!store.payments.is_empty());
}

#[test]
fn a_restart_gives_up_forgotten_payments() {
    let mut store = OutboundPaymentInfoStorage::new();
    for i in 0..4u8 {
        store.record_pending([i; 32], None, i as u64);
    }
    store.mark_sent([0; 32], [9; 32]);
    store.fail_forgotten(&vec![[1; 32], [77; 32]]);
    let status = |i: u8| store.payments.get(&[i; 32]).unwrap().status;
    assert_eq!(status(0), HTLCStatus::Succeeded);
    assert_eq!(status(1), HTLCStatus::Pending);
    assert_eq!(status(2), HTLCStatus::Failed);
    assert_eq!(status(3), HTLCStatus::Failed);
    store.fail_forgotten(&vec![[1; 32]]);
    assert_eq!(store.payments.get(&[1; 32]).unwrap().status, HTLCStatus::Pending);
    assert_eq!(store.payments.entries().len(), 4);
}
