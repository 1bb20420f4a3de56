use lunch_list::crypto::fingerprint;
use lunch_list::registry::{same_bytes, SessionRegistry};

#[test]
fn fingerprints_are_digests() {
    let a = fingerprint("token-a");
    assert_eq!(a.len(), 64);
    assert_ne!(a.as_slice(), "token-a".as_bytes());
    assert_eq!(a, fingerprint("token-a"));
    assert_ne!(a, fingerprint("token-b"));
}

#[test]
fn register_redeem_revoke() {
    let mut r = SessionRegistry::new();
    r.register(1, "t1");
    r.register(1, "t2");
    r.register(2, "t3");
    assert!(r.contains(1, &fingerprint("t1")));
    assert!(!r.contains(2, &fingerprint("t1")));
    assert!(r.redeem(1, "t1"));
    assert!(!r.redeem(1, "t1"));
    assert!(r.contains(1, &fingerprint("t2")));
    r.revoke_one(1, "t9");
    assert!(r.contains(1, &fingerprint("t2")));
    r.revoke_one(1, "t2");
    assert!(!r.contains(1, &fingerprint("t2")));
    r.register(1, "t4");
    r.register(1, "t5");
    r.revoke_all(1);
    assert!(!r.redeem(1, "t4"));
    assert!(!r.redeem(1, "t5"));
    assert!(r.redeem(2, "t3"));
}

#[test]
fn registering_twice_redeems_once() {
    let mut r = SessionRegistry::new();
    r.register(1, "t1");
    r.register(1, "t1");
    assert!(r.redeem(1, "t1"));
    assert!(!r.redeem(1, "t1"));
}

#[test]
fn byte_equality() {
    assert!(same_bytes(b"abc", b"abc"));
    assert!(!same_bytes(b"abc", b"abd"));
    assert!(!same_bytes(b"abc", b"ab"));
    assert!(same_bytes(b"", b""));
}
