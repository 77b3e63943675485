use std::sync::atomic::AtomicU64;

use boxdd::dynamic_tree::{
    check_proxy_capacity, check_proxy_node_reserve_fields, checked_native_proxy_count,
    checked_native_rebuild_count, checked_native_tree_byte_count, checked_native_tree_height,
    max_proxy_capacity, maximum_proxy_capacity_for, maximum_tree_node_capacity_for,
    native_tree_sizes, validate_created_proxy_state, validate_initial_dynamic_tree,
    NativeTreeState, QueryProgress, TreeOwner, TreeProxyRegistry, TreeStats, TreeToken,
};
use boxdd::callback::CallbackDepth;
use boxdd::Error;

fn initial_tree_raw(proxy_capacity: i32) -> NativeTreeState {
    NativeTreeState {
        nodes_null: false,
        nodes_aligned: true,
        root: -1,
        node_count: 0,
        node_capacity: proxy_capacity.max(16) * 2 - 1,
        free_list: 0,
        proxy_count: 0,
        rebuild_capacity: 0,
        rebuild_buffers_null: true,
    }
}

#[test]
fn initial_native_tree_layout_is_validated_before_owner_publication() {
    let valid = initial_tree_raw(16);
    assert!(validate_initial_dynamic_tree("test", &valid, 16).is_ok());

    let mut invalid_pointer = valid;
    invalid_pointer.nodes_null = true;
    assert!(matches!(
        validate_initial_dynamic_tree("test", &invalid_pointer, 16),
        Err(Error::InvalidNativeDynamicTreeState { field: "nodes", .. })
    ));

    let mut invalid_capacity = valid;
    invalid_capacity.node_capacity += 1;
    assert!(matches!(
        validate_initial_dynamic_tree("test", &invalid_capacity, 16),
        Err(Error::InvalidNativeDynamicTreeState {
            field: "nodeCapacity",
            ..
        })
    ));

    let mut invalid_rebuild_pointer = valid;
    invalid_rebuild_pointer.rebuild_buffers_null = false;
    assert!(matches!(
        validate_initial_dynamic_tree("test", &invalid_rebuild_pointer, 16),
        Err(Error::InvalidNativeDynamicTreeState {
            field: "rebuild_buffers",
            ..
        })
    ));

    let mut created = valid;
    created.root = 0;
    created.node_count = 1;
    created.proxy_count = 1;
    created.free_list = 1;
    assert!(validate_created_proxy_state(&created, 0, 1, false).is_ok());
    assert!(matches!(
        validate_created_proxy_state(&created, 0, 1, true),
        Err(Error::InvalidNativeDynamicTreeState {
            field: "proxy_slot",
            ..
        })
    ));

    let mut invalid_proxy_count = created;
    invalid_proxy_count.proxy_count = 2;
    assert!(matches!(
        validate_created_proxy_state(&invalid_proxy_count, 0, 1, false),
        Err(Error::InvalidNativeDynamicTreeState {
            field: "proxyCount",
            ..
        })
    ));
}

#[test]
fn native_tree_outputs_reject_invalid_scalars_and_relationships() {
    assert!(matches!(
        TreeStats::from_native("test", 0, 0, 1),
        Err(Error::InvalidNativeOutput {
            output: "tree_stats.node_visits",
            ..
        })
    ));
    assert!(matches!(
        TreeStats::from_native("test", 4, 1, 2),
        Err(Error::InvalidNativeOutput {
            output: "tree_stats.node_visits",
            ..
        })
    ));
    assert!(matches!(
        TreeStats::from_native("test", 3, 3, 2),
        Err(Error::InvalidNativeOutput {
            output: "tree_stats.leaf_visits",
            ..
        })
    ));
    assert!(checked_native_tree_height("test", 0, 0).is_ok());
    assert!(checked_native_tree_height("test", 0, 1).is_ok());
    assert!(checked_native_tree_height("test", 1, 2).is_ok());
    assert!(checked_native_tree_height("test", -1, 0).is_err());
    assert!(checked_native_tree_height("test", 0, 2).is_err());
    assert!(checked_native_tree_height("test", 2, 2).is_err());
    assert!(checked_native_proxy_count("test", -1, 0).is_err());
    assert!(checked_native_proxy_count("test", 1, 0).is_err());
    assert!(checked_native_rebuild_count("test", -1, 0, false).is_err());
    assert!(checked_native_rebuild_count("test", 0, 1, false).is_err());
    assert!(checked_native_rebuild_count("test", 2, 1, false).is_err());
    assert!(checked_native_rebuild_count("test", 0, 1, true).is_err());
}

#[test]
fn native_tree_byte_count_rejects_signed_overflow_and_mismatches() {
    let sizes = native_tree_sizes();
    assert!(checked_native_tree_byte_count("test", -1, 0, 0, sizes).is_err());
    assert!(checked_native_tree_byte_count("test", 16, -1, 0, sizes).is_err());
    assert!(checked_native_tree_byte_count("test", i32::MAX, i32::MAX, 0, sizes).is_err());

    let node_capacity = 16;
    let rebuild_capacity = 4;
    let expected = sizes.tree
        + sizes.node * node_capacity as usize
        + (sizes.int + sizes.aabb + sizes.vec2 + sizes.int) * rebuild_capacity as usize;
    let expected = i32::try_from(expected).unwrap();
    assert_eq!(
        checked_native_tree_byte_count("test", node_capacity, rebuild_capacity, expected, sizes),
        Ok(expected)
    );
    assert!(
        checked_native_tree_byte_count("test", node_capacity, rebuild_capacity, expected + 1, sizes)
            .is_err()
    );
}

#[test]
fn proxy_capacity_guard_accounts_for_native_arithmetic_and_allocation() {
    let maximum = max_proxy_capacity();
    assert_eq!(check_proxy_capacity(maximum), Ok(maximum as i32));
    assert_eq!(
        check_proxy_capacity(maximum + 1),
        Err(Error::invalid_argument(
            "DynamicTree::with_capacity",
            "proxy_capacity",
            "a capacity supported by native allocation and signed-index arithmetic",
        ))
    );
    assert!(2_i32.checked_mul(maximum as i32).is_some());

    let node_size = native_tree_sizes().node;
    let node_count = 2 * maximum - 1;
    assert!(node_count <= i32::MAX as usize);
    assert!(node_count
        .checked_mul(node_size)
        .is_some_and(|bytes| bytes <= isize::MAX as usize));
}

#[test]
fn proxy_capacity_formula_is_safe_for_a_32_bit_address_model() {
    let address_limit = i32::MAX as usize;
    let node_size = native_tree_sizes().node;
    let maximum = maximum_proxy_capacity_for(address_limit, node_size);
    let max_nodes = 2 * maximum - 1;

    assert!(max_nodes * node_size <= address_limit);
    let next_nodes = 2 * (maximum + 1) - 1;
    assert!(
        next_nodes > i32::MAX as usize || next_nodes * node_size > address_limit,
        "the formula must select the largest safe proxy capacity"
    );
}

#[test]
fn proxy_creation_rejects_an_unsafe_native_growth_step() {
    let maximum = maximum_tree_node_capacity_for(isize::MAX as usize, native_tree_sizes().node);
    assert!(matches!(
        check_proxy_node_reserve_fields(maximum as i32, maximum as i32, 1),
        Err(Error::InvalidNativeDynamicTreeState {
            operation: "DynamicTree::create_proxy",
            field: "grown nodeCapacity",
            constraint: "a value supported by native pointer and signed-index arithmetic",
            ..
        })
    ));
}

#[test]
fn proxy_creation_rejects_inconsistent_native_capacity_state() {
    assert_eq!(
        check_proxy_node_reserve_fields(0, 0, 0),
        Err(Error::InvalidNativeDynamicTreeState {
            operation: "DynamicTree::create_proxy",
            field: "nodeCapacity",
            value: 0,
            constraint: "a positive native capacity",
        })
    );
    assert_eq!(
        check_proxy_node_reserve_fields(16, 1, 2),
        Err(Error::InvalidNativeDynamicTreeState {
            operation: "DynamicTree::create_proxy",
            field: "proxyCount",
            value: 2,
            constraint: "a count no greater than nodeCount",
        })
    );
    assert_eq!(
        check_proxy_node_reserve_fields(1, 1, 1),
        Err(Error::InvalidNativeDynamicTreeState {
            operation: "DynamicTree::create_proxy",
            field: "nodeCapacity",
            value: 1,
            constraint: "a capacity whose native growth step increases capacity",
        })
    );
}

#[test]
fn recycled_native_slots_do_not_revive_stale_proxy_ids() {
    let next = AtomicU64::new(1);
    let mut proxies = TreeProxyRegistry::new(TreeToken::allocate_from(&next).unwrap());
    let stale_nonce = proxies.allocate_nonce().unwrap();
    let stale = proxies.register(0, stale_nonce);
    proxies.unregister(0);
    let live_nonce = proxies.allocate_nonce().unwrap();
    let live = proxies.register(0, live_nonce);
    assert_eq!(stale.raw_slot(), live.raw_slot());
    assert_ne!(stale, live);

    assert!(!proxies.contains_proxy(stale));
    assert!(proxies.contains_proxy(live));
    assert_eq!(proxies.check_proxy(stale), Err(Error::InvalidTreeProxyId));
    assert_eq!(proxies.check_proxy(live), Ok(0));
    assert_eq!(proxies.resolve(0), Some(live));
}

#[test]
fn equal_native_slots_from_another_tree_are_rejected_before_native_access() {
    let next = AtomicU64::new(1);
    let mut first = TreeProxyRegistry::new(TreeToken::allocate_from(&next).unwrap());
    let foreign_nonce = first.allocate_nonce().unwrap();
    let foreign = first.register(0, foreign_nonce);
    let mut second = TreeProxyRegistry::new(TreeToken::allocate_from(&next).unwrap());
    let local_nonce = second.allocate_nonce().unwrap();
    let local = second.register(0, local_nonce);
    assert_eq!(foreign.raw_slot(), local.raw_slot());

    assert!(!second.contains_proxy(foreign));
    assert_eq!(second.check_proxy(foreign), Err(Error::WrongTree));
    assert_eq!(second.check_proxy(local), Ok(0));
    assert_eq!(second.len(), 1);
}

#[test]
fn dropping_a_tree_cannot_rebind_its_proxy_to_a_new_tree() {
    let next = AtomicU64::new(1);
    let (stale, stale_slot) = {
        let mut dropped = TreeProxyRegistry::new(TreeToken::allocate_from(&next).unwrap());
        let nonce = dropped.allocate_nonce().unwrap();
        let proxy = dropped.register(0, nonce);
        (proxy, proxy.raw_slot())
    };

    let mut replacement = TreeProxyRegistry::new(TreeToken::allocate_from(&next).unwrap());
    let nonce = replacement.allocate_nonce().unwrap();
    let live = replacement.register(0, nonce);
    assert_eq!(stale_slot, live.raw_slot());
    assert_eq!(replacement.check_proxy(stale), Err(Error::WrongTree));
    assert_eq!(replacement.check_proxy(live), Ok(0));
    assert_eq!(replacement.resolve(0), Some(live));
}

#[test]
fn tree_stats_report_their_visits() {
    let stats = TreeStats::new(3, 2).unwrap();
    assert_eq!(stats.node_visits(), 3);
    assert_eq!(stats.leaf_visits(), 2);
    assert!(stats.validate().is_ok());
    assert!(TreeStats::new(-1, 0).is_err());
    assert!(TreeStats::new(1, 2).is_err());
}

/// The tree state after the `count`-th proxy was created in `slot`.
fn after_creation(count: i32, slot: i32, root: i32) -> NativeTreeState {
    NativeTreeState {
        root,
        node_count: 2 * count - 1,
        proxy_count: count,
        free_list: 5,
        ..initial_tree_raw(16)
    }
}

#[test]
fn a_tree_owner_registers_proxies_the_native_tree_confirms() {
    let next = AtomicU64::new(1);
    let mut owner = TreeOwner::new(TreeToken::allocate_from(&next).unwrap());
    let depth = CallbackDepth::new();

    let first = owner
        .create_proxy(&depth, initial_tree_raw(16), || (0, after_creation(1, 0, 0)))
        .unwrap();
    let second = owner
        .create_proxy(&depth, after_creation(1, 0, 0), || (1, after_creation(2, 1, 2)))
        .unwrap();
    assert_eq!(owner.proxies().len(), 2);
    assert!(owner.proxies().contains_proxy(first));
    assert!(owner.proxies().contains_proxy(second));

    assert_eq!(owner.destroy_proxy(&depth, first, |slot| {
        assert_eq!(slot, 0);
        1
    }), Ok(()));
    assert!(!owner.proxies().contains_proxy(first));
    assert_eq!(owner.destroy_proxy(&depth, first, |_| 0), Err(Error::InvalidTreeProxyId));
    assert_eq!(owner.rebuild(&depth, || 1, |_| 1, true), Ok(1));
    assert!(owner.should_destroy_native());
}

#[test]
fn a_tree_owner_refuses_operations_inside_a_callback_before_native_access() {
    let next = AtomicU64::new(1);
    let mut owner = TreeOwner::new(TreeToken::allocate_from(&next).unwrap());
    let mut depth = CallbackDepth::new();
    depth.enter();

    let result = owner.create_proxy(&depth, initial_tree_raw(16), || panic!("no native call inside a callback"));
    assert_eq!(result.map(|_| ()), Err(Error::InCallback));
    assert_eq!(owner.rebuild(&depth, || panic!("no native call"), |_| 0, false), Err(Error::InCallback));
    assert_eq!(owner.terminal_error(), None);
}

#[test]
fn terminal_tree_never_reenters_native_destroy() {
    let next = AtomicU64::new(1);
    let mut owner = TreeOwner::new(TreeToken::allocate_from(&next).unwrap());
    let depth = CallbackDepth::new();
    let live = owner
        .create_proxy(&depth, initial_tree_raw(16), || (0, after_creation(1, 0, 0)))
        .unwrap();

    // The native tree reports a proxy count that disagrees with the registry.
    let refused = owner.create_proxy(&depth, after_creation(1, 0, 0), || (1, after_creation(3, 1, 2)));
    let error = refused.map(|_| ()).unwrap_err();
    assert!(matches!(error, Error::InvalidNativeDynamicTreeState { field: "proxyCount", .. }));
    assert_eq!(owner.terminal_error(), Some(error));
    assert!(!owner.should_destroy_native());

    assert_eq!(owner.check_available(&depth), Err(error));
    assert_eq!(owner.destroy_proxy(&depth, live, |_| panic!("a terminal tree is not touched")), Err(error));
    assert!(owner.proxies().contains_proxy(live));
}

#[test]
fn a_query_stops_for_good_once_it_ends() {
    let next = AtomicU64::new(1);
    let mut proxies = TreeProxyRegistry::new(TreeToken::allocate_from(&next).unwrap());
    let nonce = proxies.allocate_nonce().unwrap();
    let live = proxies.register(3, nonce);

    let mut progress = QueryProgress::new();
    assert_eq!(progress.next_proxy(&proxies, 3), Some(live));
    assert!(progress.record(true));
    assert_eq!(progress.next_proxy(&proxies, 3), Some(live));
    assert!(!progress.record(false));
    assert_eq!(progress.next_proxy(&proxies, 3), None);
    assert_eq!(progress.error(), None);

    let mut progress = QueryProgress::new();
    assert_eq!(progress.next_proxy(&proxies, 4), None);
    assert_eq!(progress.error(), Some(Error::InvalidTreeProxyId));
    assert_eq!(progress.next_proxy(&proxies, 3), None);

    let mut progress = QueryProgress::new();
    progress.record_panic();
    assert_eq!(progress.next_proxy(&proxies, 3), None);
    assert_eq!(progress.error(), None);
}

#[test]
fn default_tree_stats_pass_validation() {
    let stats = TreeStats::default();
    assert_eq!(stats.validate(), Ok(()));
    assert_eq!(TreeStats::new(0, 0), Ok(stats));
}

#[test]
fn an_unsafe_growth_step_never_reaches_native_creation() {
    let next = AtomicU64::new(1);
    let mut owner = TreeOwner::new(TreeToken::allocate_from(&next).unwrap());
    let depth = CallbackDepth::new();
    let full = NativeTreeState {
        node_capacity: 1,
        node_count: 1,
        proxy_count: 1,
        ..initial_tree_raw(16)
    };
    let result = owner.create_proxy(&depth, full, || panic!("no native creation after a refused reserve"));
    assert!(matches!(
        result,
        Err(Error::InvalidNativeDynamicTreeState { field: "nodeCapacity", .. })
    ));
    assert_eq!(owner.proxies().len(), 0);
    assert_eq!(owner.terminal_error(), None);
}

#[test]
fn native_layout_sizes_are_the_stated_ones() {
    assert_eq!(boxdd::dynamic_tree::NATIVE_TREE_NODE_SIZE, core::mem::size_of::<boxdd_sys::ffi::b2TreeNode>());
    let sizes = native_tree_sizes();
    assert_eq!(sizes.node, 40);
    assert_eq!(sizes.aabb, core::mem::size_of::<boxdd_sys::ffi::b2AABB>());
    assert_eq!(sizes.aabb, 16);
    assert_eq!(sizes.vec2, 8);
    assert!(sizes.tree > 0);
    assert_eq!(max_proxy_capacity(), maximum_proxy_capacity_for(isize::MAX as usize, 40));
}
