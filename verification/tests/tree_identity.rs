use std::sync::atomic::{AtomicU64, Ordering};

use boxdd::dynamic_tree::{TreeProxyNonce, TreeToken};
use boxdd::Error;

#[test]
fn tree_identity_and_proxy_nonce_exhaustion_do_not_wrap() {
    let next_tree = AtomicU64::new(u64::MAX);
    assert_eq!(
        TreeToken::allocate_from(&next_tree).err(),
        Some(Error::TreeIdentityExhausted)
    );
    assert_eq!(next_tree.load(Ordering::Relaxed), u64::MAX);

    let mut last_nonce = u64::MAX;
    assert_eq!(
        TreeProxyNonce::allocate(&mut last_nonce).err(),
        Some(Error::ObjectIdentityExhausted)
    );
    assert_eq!(last_nonce, u64::MAX);
}
