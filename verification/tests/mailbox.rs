use messenger_backend::constants::{MAILBOX_MAX_MESSAGES_PER_USER, MAILBOX_MESSAGE_TTL_DAYS};
use messenger_backend::errors::MessengerError;
use messenger_backend::network::mailbox::cleanup::cleanup_once;
use messenger_backend::network::mailbox::storage::InMemoryMailboxStore;
use messenger_backend::network::mailbox::MailboxService;
use messenger_backend::storage::mailbox_store::MailboxStore;
use std::time::{Duration, Instant};

fn test_service() -> MailboxService<InMemoryMailboxStore> {
    MailboxService::new(InMemoryMailboxStore::new())
}

#[test]
fn cleanup_removes_only_expired() {
    let mut store = InMemoryMailboxStore::new();
    store.insert(&"bob".to_string(), b"old".to_vec(), 0).unwrap();
    store
        .insert(&"bob".to_string(), b"fresh".to_vec(), 3600)
        .unwrap();

    let start = Instant::now();
    while start.elapsed() < Duration::from_millis(1100) {}

    let deleted = cleanup_once(&mut store).unwrap();
    assert_eq!(deleted, 1);

    let remaining = store.fetch_all(&"bob".to_string()).unwrap();
    assert_eq!(remaining.len(), 1);
    assert_eq!(remaining[0].encrypted_blob, b"fresh");
}

#[test]
fn storage_store_and_fetch_roundtrip() {
    let mut store = InMemoryMailboxStore::new();
    let bob = "bob".to_string();

    store.insert(&bob, b"1".to_vec(), 3600).unwrap();
    store.insert(&bob, b"2".to_vec(), 3600).unwrap();

    let fetched = store.fetch_all(&bob).unwrap();
    assert_eq!(fetched.len(), 2);

    let ids: Vec<i64> = fetched.iter().map(|e| e.id).collect();
    store.delete(&bob, &ids).unwrap();

    let after = store.fetch_all(&bob).unwrap();
    assert_eq!(after.len(), 0);
}

#[test]
fn service_store_and_fetch_roundtrip() {
    let mut service = test_service();
    let bob = "bob".to_string();

    service.store_message(&bob, b"msg1".to_vec()).unwrap();
    service.store_message(&bob, b"msg2".to_vec()).unwrap();

    let pending = service.fetch_pending(&bob).unwrap();
    assert_eq!(pending.len(), 2);

    let pending_again = service.fetch_pending(&bob).unwrap();
    assert_eq!(pending_again.len(), 2);

    service.acknowledge_delivered(&bob).unwrap();
    let pending_after_ack = service.fetch_pending(&bob).unwrap();
    assert_eq!(pending_after_ack.len(), 0);
}

#[test]
fn rejects_over_limit() {
    let mut service = test_service();
    let bob = "bob".to_string();

    for i in 0..MAILBOX_MAX_MESSAGES_PER_USER {
        service
            .store_message(&bob, format!("msg{i}").into_bytes())
            .unwrap();
    }

    let result = service.store_message(&bob, b"overflow".to_vec());
    assert!(matches!(result, Err(MessengerError::MailboxFull { .. })));
}

#[test]
fn mail_is_handed_out_in_order_and_to_its_owner_only() {
    let mut service = test_service();
    let bob = "bob".to_string();
    let carol = "carol".to_string();
    service.store_message(&bob, b"first".to_vec()).unwrap();
    service.store_message(&carol, b"other".to_vec()).unwrap();
    service.store_message(&bob, b"second".to_vec()).unwrap();
    assert_eq!(
        service.fetch_pending(&bob).unwrap(),
        vec![b"first".to_vec(), b"second".to_vec()]
    );
    service.acknowledge_delivered(&bob).unwrap();
    assert_eq!(service.fetch_pending(&carol).unwrap(), vec![b"other".to_vec()]);
}

#[test]
fn mail_lasts_as_long_as_it_should() {
    let mut store = InMemoryMailboxStore::new();
    let bob = "bob".to_string();
    store.insert_at(&bob, b"x".to_vec(), 100, 5000).unwrap();
    let entry = &store.fetch_all(&bob).unwrap()[0];
    assert_eq!(entry.stored_at_unix, 5000);
    assert_eq!(entry.expires_at_unix, 5100);
    assert_eq!(store.count_for_user(&bob).unwrap(), 1);
    store.insert_at(&bob, b"y".to_vec(), u64::MAX, 5000).unwrap();
    assert_eq!(store.fetch_all(&bob).unwrap()[1].expires_at_unix, u64::MAX);

    let mut service = test_service();
    service.store_message(&bob, b"z".to_vec()).unwrap();
    let entry = &service.store.fetch_all(&bob).unwrap()[0];
    assert_eq!(
        entry.expires_at_unix - entry.stored_at_unix,
        MAILBOX_MESSAGE_TTL_DAYS as u64 * 24 * 60 * 60
    );
}

#[test]
fn deleting_spares_the_mail_of_others() {
    let mut store = InMemoryMailboxStore::new();
    let bob = "bob".to_string();
    store.insert(&bob, b"1".to_vec(), 3600).unwrap();
    let id = store.fetch_all(&bob).unwrap()[0].id;
    store.delete(&"carol".to_string(), &vec![id]).unwrap();
    assert_eq!(store.fetch_all(&bob).unwrap().len(), 1);
}

#[test]
fn late_mail_outlives_the_acknowledgement() {
    let mut service = test_service();
    let bob = "bob".to_string();
    let carol = "carol".to_string();
    service.store_message(&bob, b"early".to_vec()).unwrap();
    service.store_message(&carol, b"hers".to_vec()).unwrap();
    assert_eq!(service.fetch_pending(&bob).unwrap(), vec![b"early".to_vec()]);

    service.store_message(&bob, b"late".to_vec()).unwrap();
    service.acknowledge_delivered(&bob).unwrap();
    assert_eq!(service.fetch_pending(&bob).unwrap(), vec![b"late".to_vec()]);
    assert_eq!(service.fetch_pending(&carol).unwrap(), vec![b"hers".to_vec()]);

    service.acknowledge_delivered(&bob).unwrap();
    assert!(service.fetch_pending(&bob).unwrap().is_empty());
}

#[test]
fn nothing_is_acknowledged_before_it_was_handed_out() {
    let mut service = test_service();
    let bob = "bob".to_string();
    service.store_message(&bob, b"unseen".to_vec()).unwrap();
    service.acknowledge_delivered(&bob).unwrap();
    assert_eq!(service.fetch_pending(&bob).unwrap(), vec![b"unseen".to_vec()]);
}
