//! Bookkeeping and output validation for Box2D dynamic trees.
//!
//! A proxy id is bound to one tree registration and carries a nonce that is never reused, so a
//! recycled native slot cannot revive a stale id. Every native count, height and layout a tree
//! reports is checked against what the safe owner knows before it is trusted.

use std::collections::HashMap;
use std::sync::atomic::AtomicU64;
use std::sync::atomic::Ordering;

use vstd::prelude::*;

use crate::callback::CallbackDepth;
use crate::error::{Error, Result};

verus! {

broadcast use vstd::std_specs::hash::group_hash_axioms;

/// Proxy capacity of a tree created without a hint.
pub const DEFAULT_PROXY_CAPACITY: usize = 16;

/// Largest native `int`.
pub const NATIVE_INT_MAX: i32 = 0x7fff_ffff;

/// The successor of `current`, unless it would overflow.
pub fn checked_successor(current: u64) -> (r: Option<u64>)
    ensures
        r == if current < u64::MAX {
            Some((current + 1) as u64)
        } else {
            None::<u64>
        },
{
    current.checked_add(1)
}

/// Calls `AtomicU64::fetch_update` with a closure that applies [`checked_successor`].
///
/// Trusted: `Ok(previous)` means `previous` was below `u64::MAX` and was replaced by its
/// successor; `Err(previous)` means `previous` was `u64::MAX` and nothing was stored. Which value
/// is observed depends on concurrent allocations and is not stated.
#[verifier::external_body]
fn fetch_increment(next: &AtomicU64) -> (r: core::result::Result<u64, u64>)
    ensures
        r matches Ok(previous) ==> previous < u64::MAX,
        r matches Err(previous) ==> previous == u64::MAX,
{
    next.fetch_update(Ordering::Relaxed, Ordering::Relaxed, |current| checked_successor(current))
}

/// Identity of one dynamic-tree registration; never zero.
#[derive(Copy, Clone, Debug, PartialEq, Eq, Structural, Hash)]
pub struct TreeToken {
    value: u64,
}

impl TreeToken {
    pub closed spec fn value_spec(self) -> u64 {
        self.value
    }

    /// Take the next token from the process-wide counter `next`.
    pub fn allocate_from(next: &AtomicU64) -> (r: Result<TreeToken>)
        ensures
            r matches Ok(t) ==> t.value_spec() != 0 && t.value_spec() < u64::MAX,
            r matches Err(e) ==> e == Error::TreeIdentityExhausted,
    {
        let value = match fetch_increment(next) {
            Ok(previous) => previous,
            Err(_) => return Err(Error::TreeIdentityExhausted),
        };
        if value == 0 {
            return Err(Error::TreeIdentityExhausted);
        }
        Ok(TreeToken { value })
    }

    /// The token's value.
    pub fn value(self) -> (v: u64)
        ensures
            v == self.value_spec(),
    {
        self.value
    }
}

/// Registration nonce of one proxy within its tree; never zero.
#[derive(Copy, Clone, Debug, PartialEq, Eq, Structural, Hash)]
pub struct TreeProxyNonce {
    value: u64,
}

impl TreeProxyNonce {
    pub closed spec fn value_spec(self) -> u64 {
        self.value
    }

    /// Allocate the nonce after `last` and record it as the last one.
    pub fn allocate(last: &mut u64) -> (r: Result<TreeProxyNonce>)
        ensures
            r matches Ok(n) ==> n.value_spec() == *old(last) + 1 && *final(last) == n.value_spec(),
            r matches Err(e) ==> e == Error::ObjectIdentityExhausted && *final(last) == *old(last),
            r is Ok <==> *old(last) < u64::MAX,
    {
        let value = match last.checked_add(1) {
            Some(v) => v,
            None => return Err(Error::ObjectIdentityExhausted),
        };
        *last = value;
        Ok(TreeProxyNonce { value })
    }
}

/// A live proxy identifier bound to one dynamic-tree registration.
#[derive(Copy, Clone, Debug, PartialEq, Eq, Structural, Hash)]
pub struct TreeProxyId {
    tree: TreeToken,
    slot: i32,
    nonce: TreeProxyNonce,
}

impl TreeProxyId {
    pub closed spec fn tree_spec(self) -> TreeToken {
        self.tree
    }

    pub closed spec fn slot_spec(self) -> i32 {
        self.slot
    }

    pub closed spec fn nonce_spec(self) -> TreeProxyNonce {
        self.nonce
    }

    /// The id of the proxy in `slot` of tree `tree`, registered with `nonce`.
    pub(crate) fn bind(tree: TreeToken, slot: i32, nonce: TreeProxyNonce) -> (id: Self)
        ensures
            id.tree_spec() == tree,
            id.slot_spec() == slot,
            id.nonce_spec() == nonce,
    {
        TreeProxyId { tree, slot, nonce }
    }

    /// The native slot of the proxy.
    pub fn raw_slot(self) -> (s: i32)
        ensures
            s == self.slot_spec(),
    {
        self.slot
    }
}

/// Dynamic tree traversal performance counters.
#[derive(Copy, Clone, Debug, PartialEq, Eq, Structural)]
pub struct TreeStats {
    node_visits: i32,
    leaf_visits: i32,
}

impl Default for TreeStats {
    /// No visits; the default counters pass validation.
    fn default() -> (s: Self)
        ensures
            s.node_visits_spec() == 0,
            s.leaf_visits_spec() == 0,
            stats_valid(s.node_visits_spec(), s.leaf_visits_spec()),
    {
        TreeStats { node_visits: 0, leaf_visits: 0 }
    }
}

/// Whether `node_visits` and `leaf_visits` are valid traversal counters.
pub open spec fn stats_valid(node_visits: i32, leaf_visits: i32) -> bool {
    0 <= leaf_visits <= node_visits
}

/// The error reported for counters that are not valid, naming `operation`.
pub open spec fn stats_error(operation: &'static str, node_visits: i32, leaf_visits: i32) -> Error {
    if node_visits < 0 {
        Error::InvalidArgument { operation, argument: "node_visits", constraint: "a non-negative native int" }
    } else if leaf_visits < 0 {
        Error::InvalidArgument {
            operation,
            argument: "leaf_visits",
            constraint: "a non-negative native int no greater than node_visits",
        }
    } else {
        Error::InvalidArgument { operation, argument: "leaf_visits", constraint: "a count no greater than node_visits" }
    }
}

/// The error of a native tree output.
pub open spec fn native_output_error(operation: &'static str, output: &'static str, constraint: &'static str) -> Error {
    Error::InvalidNativeOutput { operation, output, constraint }
}

impl TreeStats {
    pub closed spec fn node_visits_spec(self) -> i32 {
        self.node_visits
    }

    pub closed spec fn leaf_visits_spec(self) -> i32 {
        self.leaf_visits
    }

    /// Construct traversal counters after validating their relationships.
    pub fn new(node_visits: i32, leaf_visits: i32) -> (r: Result<Self>)
        ensures
            r is Ok <==> stats_valid(node_visits, leaf_visits),
            r matches Ok(s) ==> s.node_visits_spec() == node_visits && s.leaf_visits_spec() == leaf_visits,
            r matches Err(e) ==> e == stats_error("TreeStats::new", node_visits, leaf_visits),
    {
        let stats = TreeStats { node_visits, leaf_visits };
        stats.validate_for("TreeStats::new")?;
        Ok(stats)
    }

    /// Convert native traversal counters into the safe value type.
    pub fn from_raw(node_visits: i32, leaf_visits: i32) -> (r: Result<Self>)
        ensures
            r is Ok <==> stats_valid(node_visits, leaf_visits),
            r matches Ok(s) ==> s.node_visits_spec() == node_visits && s.leaf_visits_spec() == leaf_visits,
            r matches Err(e) ==> e == stats_error("TreeStats::from_raw", node_visits, leaf_visits),
    {
        let stats = TreeStats { node_visits, leaf_visits };
        stats.validate_for("TreeStats::from_raw")?;
        Ok(stats)
    }

    /// Validate the traversal-counter relationships.
    pub fn validate(&self) -> (r: Result<()>)
        ensures
            r is Ok <==> stats_valid(self.node_visits_spec(), self.leaf_visits_spec()),
            r matches Err(e) ==> e == stats_error("TreeStats::validate", self.node_visits_spec(), self.leaf_visits_spec()),
    {
        self.validate_for("TreeStats::validate")
    }

    /// Validate the traversal-counter relationships, naming `operation` in the error.
    pub fn validate_for(&self, operation: &'static str) -> (r: Result<()>)
        ensures
            r is Ok <==> stats_valid(self.node_visits_spec(), self.leaf_visits_spec()),
            r matches Err(e) ==> e == stats_error(operation, self.node_visits_spec(), self.leaf_visits_spec()),
    {
        if self.node_visits < 0 {
            return Err(Error::invalid_argument(operation, "node_visits", "a non-negative native int"));
        }
        if self.leaf_visits < 0 {
            return Err(
                Error::invalid_argument(
                    operation,
                    "leaf_visits",
                    "a non-negative native int no greater than node_visits",
                ),
            );
        }
        if self.leaf_visits > self.node_visits {
            return Err(Error::invalid_argument(operation, "leaf_visits", "a count no greater than node_visits"));
        }
        Ok(())
    }

    /// Validate native traversal counters against a tree holding `proxy_count` proxies: a
    /// traversal visits no more than `2 * proxy_count - 1` nodes, no nodes exactly when the tree
    /// is empty, and no more leaves than proxies.
    pub fn from_native(operation: &'static str, node_visits: i32, leaf_visits: i32, proxy_count: usize) -> (r: Result<Self>)
        ensures
            r is Ok <==> stats_valid(node_visits, leaf_visits) && (proxy_count == 0) == (node_visits == 0)
                && (proxy_count > 0 ==> 2 * proxy_count <= usize::MAX && node_visits <= 2 * proxy_count - 1)
                && leaf_visits <= proxy_count,
            r matches Ok(s) ==> s.node_visits_spec() == node_visits && s.leaf_visits_spec() == leaf_visits,
            r matches Err(e) ==> e is InvalidNativeOutput,
            r matches Err(e) ==> !stats_valid(node_visits, leaf_visits) ==> e == native_output_error(
                operation,
                "tree_stats",
                "non-negative visit counts with leaf_visits no greater than node_visits",
            ),
            r matches Err(e) ==> stats_valid(node_visits, leaf_visits) && leaf_visits <= proxy_count ==> e
                == native_output_error(
                operation,
                "tree_stats.node_visits",
                if proxy_count > 0 && 2 * proxy_count > usize::MAX {
                    "a count bounded by the tree's representable node capacity"
                } else if (proxy_count == 0) != (node_visits == 0) {
                    "zero exactly when the tree has no proxies"
                } else {
                    "a count no greater than the tree's node count"
                },
            ),
    {
        let stats = match TreeStats::from_raw(node_visits, leaf_visits) {
            Ok(s) => s,
            Err(_) => {
                return Err(
                    Error::InvalidNativeOutput {
                        operation,
                        output: "tree_stats",
                        constraint: "non-negative visit counts with leaf_visits no greater than node_visits",
                    },
                );
            },
        };
        let maximum_node_visits: usize = if proxy_count == 0 {
            0
        } else {
            match proxy_count.checked_mul(2) {
                Some(twice) => twice - 1,
                None => {
                    return Err(
                        Error::InvalidNativeOutput {
                            operation,
                            output: "tree_stats.node_visits",
                            constraint: "a count bounded by the tree's representable node capacity",
                        },
                    );
                },
            }
        };
        let nodes = node_visits as usize;
        let leaves = leaf_visits as usize;
        if (proxy_count == 0) != (nodes == 0) {
            return Err(
                Error::InvalidNativeOutput {
                    operation,
                    output: "tree_stats.node_visits",
                    constraint: "zero exactly when the tree has no proxies",
                },
            );
        }
        if nodes > maximum_node_visits {
            return Err(
                Error::InvalidNativeOutput {
                    operation,
                    output: "tree_stats.node_visits",
                    constraint: "a count no greater than the tree's node count",
                },
            );
        }
        if leaves > proxy_count {
            return Err(
                Error::InvalidNativeOutput {
                    operation,
                    output: "tree_stats.leaf_visits",
                    constraint: "a count no greater than the tree's proxy count",
                },
            );
        }
        Ok(stats)
    }

    /// The number of visited tree nodes.
    pub fn node_visits(self) -> (n: i32)
        ensures
            n == self.node_visits_spec(),
    {
        self.node_visits
    }

    /// The number of visited leaf nodes.
    pub fn leaf_visits(self) -> (n: i32)
        ensures
            n == self.leaf_visits_spec(),
    {
        self.leaf_visits
    }
}

/// Check a native proxy count against the safe registry's `expected` length.
pub fn checked_native_proxy_count(operation: &'static str, value: i32, expected: usize) -> (r: Result<i32>)
    ensures
        r is Ok <==> expected <= NATIVE_INT_MAX && value == expected,
        r matches Ok(v) ==> v == value,
        r matches Err(e) ==> e == native_output_error(
            operation,
            "proxy_count",
            if expected > NATIVE_INT_MAX {
                "a non-negative count representable by a native int"
            } else {
                "a non-negative count equal to the safe proxy registry length"
            },
        ),
{
    if expected > 0x7fff_ffff {
        return Err(
            Error::InvalidNativeOutput {
                operation,
                output: "proxy_count",
                constraint: "a non-negative count representable by a native int",
            },
        );
    }
    let expected = expected as i32;
    if value == expected {
        Ok(value)
    } else {
        Err(
            Error::InvalidNativeOutput {
                operation,
                output: "proxy_count",
                constraint: "a non-negative count equal to the safe proxy registry length",
            },
        )
    }
}

/// Whether `height` is a plausible height of a tree holding `proxy_count` proxies.
pub open spec fn height_valid(height: i32, proxy_count: i32) -> bool {
    if proxy_count <= 1 {
        height == 0
    } else {
        0 < height < proxy_count
    }
}

/// Check a native tree height: zero for at most one proxy, otherwise positive and below the
/// proxy count.
pub fn checked_native_tree_height(operation: &'static str, height: i32, proxy_count: i32) -> (r: Result<i32>)
    ensures
        r is Ok <==> height_valid(height, proxy_count),
        r matches Ok(h) ==> h == height,
        proxy_count >= 2 && 0 < height && height < proxy_count ==> r == Ok::<i32, Error>(height),
        proxy_count <= 1 && height == 0 ==> r == Ok::<i32, Error>(0),
        proxy_count <= 1 && height != 0 ==> r is Err,
        proxy_count >= 2 && (height <= 0 || height >= proxy_count) ==> r is Err,
        r matches Err(e) ==> e == native_output_error(
            operation,
            "height",
            "zero for at most one proxy, otherwise positive and less than proxy_count",
        ),
{
    let valid = if proxy_count <= 1 {
        height == 0
    } else {
        height > 0 && height < proxy_count
    };
    if valid {
        Ok(height)
    } else {
        Err(
            Error::InvalidNativeOutput {
                operation,
                output: "height",
                constraint: "zero for at most one proxy, otherwise positive and less than proxy_count",
            },
        )
    }
}

/// A tree of two or more proxies may be of any height from one up to one less than its proxy
/// count: every such height is valid, so the check accepts it and hands it back unchanged. A tree
/// of at most one proxy has height zero and no other.
pub proof fn lemma_every_height_below_the_proxy_count_is_valid(height: i32, proxy_count: i32)
    ensures
        proxy_count >= 2 && 0 < height && height < proxy_count ==> height_valid(height, proxy_count),
        proxy_count >= 2 && height >= proxy_count ==> !height_valid(height, proxy_count),
        height <= 0 && proxy_count >= 2 ==> !height_valid(height, proxy_count),
        proxy_count <= 1 ==> (height_valid(height, proxy_count) <==> height == 0),
{
}

/// The valid heights of a tree holding `proxy_count >= 2` proxies are exactly the `proxy_count - 1`
/// values `1..proxy_count`; one more proxy admits exactly one more height.
pub proof fn lemma_one_more_proxy_admits_one_more_height(height: i32, proxy_count: i32)
    requires
        2 <= proxy_count < i32::MAX,
    ensures
        height_valid(height, proxy_count) ==> height_valid(height, (proxy_count + 1) as i32),
        height_valid(height, (proxy_count + 1) as i32) && !height_valid(height, proxy_count) <==> height == proxy_count,
{
}

/// A partial rebuild of a non-empty tree may rebuild any number of its proxies from one up to all
/// of them: every such count is valid, so the check accepts it and hands it back unchanged; it is
/// not required to rebuild every proxy. A full rebuild rebuilds exactly every proxy.
pub proof fn lemma_partial_rebuild_counts(rebuilt: i32, proxy_count: i32)
    ensures
        proxy_count > 0 && 0 < rebuilt && rebuilt <= proxy_count ==> rebuild_valid(rebuilt, proxy_count, false),
        proxy_count > 0 && rebuilt < proxy_count && 0 < rebuilt ==> rebuild_valid(rebuilt, proxy_count, false)
            && !rebuild_valid(rebuilt, proxy_count, true),
        rebuild_valid(rebuilt, proxy_count, true) <==> rebuilt == proxy_count,
        proxy_count > 0 && (rebuilt <= 0 || rebuilt > proxy_count) ==> !rebuild_valid(rebuilt, proxy_count, false),
{
}

/// Whether `rebuilt` is a plausible rebuild count for a tree holding `proxy_count` proxies.
pub open spec fn rebuild_valid(rebuilt: i32, proxy_count: i32, full_build: bool) -> bool {
    if full_build {
        rebuilt == proxy_count
    } else if proxy_count == 0 {
        rebuilt == 0
    } else {
        0 < rebuilt <= proxy_count
    }
}

/// Check a native rebuild count: every proxy for a full rebuild, otherwise some but not more than
/// all of them.
pub fn checked_native_rebuild_count(operation: &'static str, rebuilt: i32, proxy_count: i32, full_build: bool) -> (r: Result<i32>)
    ensures
        r is Ok <==> rebuild_valid(rebuilt, proxy_count, full_build),
        r matches Ok(n) ==> n == rebuilt,
        !full_build && proxy_count > 0 && 0 < rebuilt && rebuilt <= proxy_count ==> r == Ok::<i32, Error>(rebuilt),
        !full_build && proxy_count > 0 && (rebuilt <= 0 || rebuilt > proxy_count) ==> r is Err,
        !full_build && proxy_count == 0 ==> (r is Ok <==> rebuilt == 0),
        full_build ==> (r is Ok <==> rebuilt == proxy_count),
        r matches Err(e) ==> e == native_output_error(
            operation,
            "rebuilt_proxy_count",
            "a count within proxy_count, equal to proxy_count for a full rebuild",
        ),
{
    let valid = if full_build {
        rebuilt == proxy_count
    } else if proxy_count == 0 {
        rebuilt == 0
    } else {
        rebuilt > 0 && rebuilt <= proxy_count
    };
    if valid {
        Ok(rebuilt)
    } else {
        Err(
            Error::InvalidNativeOutput {
                operation,
                output: "rebuilt_proxy_count",
                constraint: "a count within proxy_count, equal to proxy_count for a full rebuild",
            },
        )
    }
}

/// Sizes in bytes of the native structures a tree allocates.
#[derive(Copy, Clone, Debug, PartialEq, Eq, Structural)]
pub struct NativeTreeSizes {
    /// The tree header.
    pub tree: usize,
    /// One tree node.
    pub node: usize,
    /// One axis-aligned box.
    pub aabb: usize,
    /// One 2-vector.
    pub vec2: usize,
    /// One native `int`.
    pub int: usize,
}

/// The bytes a tree with the given capacities allocates.
pub open spec fn tree_byte_count(sizes: NativeTreeSizes, node_capacity: int, rebuild_capacity: int) -> int {
    sizes.tree + sizes.node * node_capacity + (sizes.int + sizes.aabb + sizes.vec2 + sizes.int) * rebuild_capacity
}

/// Check a native allocated byte count against the exact size of a tree with the given
/// capacities.
pub fn checked_native_tree_byte_count(
    operation: &'static str,
    node_capacity: i32,
    rebuild_capacity: i32,
    value: i32,
    sizes: NativeTreeSizes,
) -> (r: Result<i32>)
    ensures
        r is Ok <==> node_capacity > 0 && rebuild_capacity >= 0 && value == tree_byte_count(
            sizes,
            node_capacity as int,
            rebuild_capacity as int,
        ) && sizes.int + sizes.aabb + sizes.vec2 + sizes.int <= usize::MAX
            && sizes.node * node_capacity <= usize::MAX
            && tree_byte_count(sizes, node_capacity as int, rebuild_capacity as int) <= usize::MAX
            && (sizes.int + sizes.aabb + sizes.vec2 + sizes.int) * rebuild_capacity <= usize::MAX
            && sizes.tree + sizes.node * node_capacity <= usize::MAX,
        r matches Ok(v) ==> v == value,
        r matches Err(e) ==> e == native_output_error(
            operation,
            "byte_count",
            "the exact non-negative allocation size representable by a native int",
        ),
{
    if node_capacity <= 0 || rebuild_capacity < 0 {
        return Err(byte_count_error(operation));
    }
    let node_capacity = node_capacity as usize;
    let rebuild_capacity = rebuild_capacity as usize;
    let stride = match sizes.int.checked_add(sizes.aabb) {
        Some(s) => match s.checked_add(sizes.vec2) {
            Some(s) => match s.checked_add(sizes.int) {
                Some(s) => s,
                None => return Err(byte_count_error(operation)),
            },
            None => return Err(byte_count_error(operation)),
        },
        None => return Err(byte_count_error(operation)),
    };
    let nodes = match sizes.node.checked_mul(node_capacity) {
        Some(n) => n,
        None => return Err(byte_count_error(operation)),
    };
    let head = match sizes.tree.checked_add(nodes) {
        Some(h) => h,
        None => return Err(byte_count_error(operation)),
    };
    let rebuild = match stride.checked_mul(rebuild_capacity) {
        Some(r) => r,
        None => return Err(byte_count_error(operation)),
    };
    let expected = match head.checked_add(rebuild) {
        Some(e) => e,
        None => return Err(byte_count_error(operation)),
    };
    if expected > 0x7fff_ffff {
        return Err(byte_count_error(operation));
    }
    if value as usize == expected && value >= 0 {
        Ok(value)
    } else {
        Err(byte_count_error(operation))
    }
}

fn byte_count_error(operation: &'static str) -> (e: Error)
    ensures
        e == native_output_error(
            operation,
            "byte_count",
            "the exact non-negative allocation size representable by a native int",
        ),
{
    Error::InvalidNativeOutput {
        operation,
        output: "byte_count",
        constraint: "the exact non-negative allocation size representable by a native int",
    }
}

/// The fields of a native dynamic tree that ownership checks read.
#[derive(Copy, Clone, Debug, PartialEq, Eq, Structural)]
pub struct NativeTreeState {
    /// Whether the node array pointer is null.
    pub nodes_null: bool,
    /// Whether the node array pointer is aligned for a tree node.
    pub nodes_aligned: bool,
    pub root: i32,
    pub node_count: i32,
    pub node_capacity: i32,
    pub free_list: i32,
    pub proxy_count: i32,
    pub rebuild_capacity: i32,
    /// Whether all four rebuild buffer pointers are null.
    pub rebuild_buffers_null: bool,
}

/// The error of a native tree state field.
pub open spec fn tree_state_error(operation: &'static str, field: &'static str, value: i64, constraint: &'static str) -> Error {
    Error::InvalidNativeDynamicTreeState { operation, field, value, constraint }
}

/// The node capacity Box2D gives a fresh tree for a proxy capacity hint, if representable.
pub open spec fn initial_node_capacity(proxy_capacity: i32) -> Option<i32> {
    let hint: int = if proxy_capacity < 16 { 16 } else { proxy_capacity as int };
    if hint * 2 <= i32::MAX {
        Some((hint * 2 - 1) as i32)
    } else {
        None
    }
}

/// The first violation of the layout of a freshly created tree, if any.
pub open spec fn initial_tree_violation(operation: &'static str, tree: NativeTreeState, proxy_capacity: i32) -> Option<Error> {
    if initial_node_capacity(proxy_capacity) is None {
        Some(tree_state_error(operation, "nodeCapacity", tree.node_capacity as i64, "the exact initial capacity derived from proxy_capacity"))
    } else if tree.nodes_null || !tree.nodes_aligned {
        Some(tree_state_error(operation, "nodes", 0, "a non-null aligned initial node allocation"))
    } else if tree.root != -1 {
        Some(tree_state_error(operation, "root", tree.root as i64, "the null root index for an empty tree"))
    } else if tree.node_count != 0 {
        Some(tree_state_error(operation, "nodeCount", tree.node_count as i64, "zero for an empty tree"))
    } else if Some(tree.node_capacity) != initial_node_capacity(proxy_capacity) {
        Some(tree_state_error(operation, "nodeCapacity", tree.node_capacity as i64, "the exact initial capacity derived from proxy_capacity"))
    } else if tree.free_list != 0 {
        Some(tree_state_error(operation, "freeList", tree.free_list as i64, "the first initial free node"))
    } else if tree.proxy_count != 0 {
        Some(tree_state_error(operation, "proxyCount", tree.proxy_count as i64, "zero for an empty tree"))
    } else if tree.rebuild_capacity != 0 {
        Some(tree_state_error(operation, "rebuildCapacity", tree.rebuild_capacity as i64, "zero before the first rebuild"))
    } else if !tree.rebuild_buffers_null {
        Some(tree_state_error(operation, "rebuild_buffers", 1, "null pointers before the first rebuild"))
    } else {
        None
    }
}

/// Check the layout of a freshly created tree before the owner trusts it.
pub fn validate_initial_dynamic_tree(operation: &'static str, tree: &NativeTreeState, proxy_capacity: i32) -> (r: Result<()>)
    ensures
        r is Ok <==> initial_tree_violation(operation, *tree, proxy_capacity) is None,
        r matches Err(e) ==> initial_tree_violation(operation, *tree, proxy_capacity) == Some(e),
{
    let hint = if proxy_capacity < 16 {
        16
    } else {
        proxy_capacity
    };
    let expected_node_capacity = match hint.checked_mul(2) {
        Some(twice) => twice - 1,
        None => {
            return Err(
                Error::InvalidNativeDynamicTreeState {
                    operation,
                    field: "nodeCapacity",
                    value: tree.node_capacity as i64,
                    constraint: "the exact initial capacity derived from proxy_capacity",
                },
            );
        },
    };
    if tree.nodes_null || !tree.nodes_aligned {
        return Err(
            Error::InvalidNativeDynamicTreeState {
                operation,
                field: "nodes",
                value: 0,
                constraint: "a non-null aligned initial node allocation",
            },
        );
    }
    if tree.root != -1 {
        return Err(
            Error::InvalidNativeDynamicTreeState {
                operation,
                field: "root",
                value: tree.root as i64,
                constraint: "the null root index for an empty tree",
            },
        );
    }
    if tree.node_count != 0 {
        return Err(
            Error::InvalidNativeDynamicTreeState {
                operation,
                field: "nodeCount",
                value: tree.node_count as i64,
                constraint: "zero for an empty tree",
            },
        );
    }
    if tree.node_capacity != expected_node_capacity {
        return Err(
            Error::InvalidNativeDynamicTreeState {
                operation,
                field: "nodeCapacity",
                value: tree.node_capacity as i64,
                constraint: "the exact initial capacity derived from proxy_capacity",
            },
        );
    }
    if tree.free_list != 0 {
        return Err(
            Error::InvalidNativeDynamicTreeState {
                operation,
                field: "freeList",
                value: tree.free_list as i64,
                constraint: "the first initial free node",
            },
        );
    }
    if tree.proxy_count != 0 {
        return Err(
            Error::InvalidNativeDynamicTreeState {
                operation,
                field: "proxyCount",
                value: tree.proxy_count as i64,
                constraint: "zero for an empty tree",
            },
        );
    }
    if tree.rebuild_capacity != 0 {
        return Err(
            Error::InvalidNativeDynamicTreeState {
                operation,
                field: "rebuildCapacity",
                value: tree.rebuild_capacity as i64,
                constraint: "zero before the first rebuild",
            },
        );
    }
    if !tree.rebuild_buffers_null {
        return Err(
            Error::InvalidNativeDynamicTreeState {
                operation,
                field: "rebuild_buffers",
                value: 1,
                constraint: "null pointers before the first rebuild",
            },
        );
    }
    Ok(())
}

/// The operation named by proxy-creation checks.
pub const CREATE_PROXY: &'static str = "DynamicTree::create_proxy";

/// The first violation of the tree state after a proxy was created in `slot`, if any.
pub open spec fn created_proxy_violation(
    tree: NativeTreeState,
    slot: i32,
    expected_proxy_count: usize,
    slot_already_registered: bool,
) -> Option<Error> {
    if expected_proxy_count > i32::MAX {
        Some(tree_state_error(CREATE_PROXY, "proxyCount", i64::MAX, "the exact safe proxy registry length representable by a native int"))
    } else if slot < 0 || slot_already_registered {
        Some(tree_state_error(CREATE_PROXY, "proxy_slot", slot as i64, "a non-negative newly allocated slot"))
    } else if tree.nodes_null || !tree.nodes_aligned {
        Some(tree_state_error(CREATE_PROXY, "nodes", 0, "a non-null aligned node allocation"))
    } else if tree.node_capacity <= 0 || slot >= tree.node_capacity {
        Some(tree_state_error(CREATE_PROXY, "proxy_slot", slot as i64, "a newly allocated slot within nodeCapacity"))
    } else if tree.proxy_count != expected_proxy_count {
        Some(tree_state_error(CREATE_PROXY, "proxyCount", tree.proxy_count as i64, "the exact safe proxy registry length after creation"))
    } else if expected_proxy_count * 2 > i32::MAX {
        Some(tree_state_error(CREATE_PROXY, "nodeCount", tree.node_count as i64, "twice proxyCount minus one"))
    } else if tree.node_count != expected_proxy_count * 2 - 1 || tree.node_count > tree.node_capacity {
        Some(tree_state_error(CREATE_PROXY, "nodeCount", tree.node_count as i64, "twice proxyCount minus one and no greater than nodeCapacity"))
    } else if tree.root < 0 || tree.root >= tree.node_capacity {
        Some(tree_state_error(CREATE_PROXY, "root", tree.root as i64, "an allocated node index within nodeCapacity"))
    } else if (expected_proxy_count == 1 && tree.root != slot) || (expected_proxy_count > 1 && tree.root == slot) {
        Some(tree_state_error(CREATE_PROXY, "root", tree.root as i64, "the created leaf for the first proxy, otherwise a distinct internal node"))
    } else if tree.free_list < -1 || tree.free_list >= tree.node_capacity {
        Some(tree_state_error(CREATE_PROXY, "freeList", tree.free_list as i64, "the null index or a free node index within nodeCapacity"))
    } else if tree.free_list == slot {
        Some(tree_state_error(CREATE_PROXY, "freeList", tree.free_list as i64, "a free node distinct from the newly allocated slot"))
    } else {
        None
    }
}

/// Check the native tree state after a proxy was created in `slot`.
pub fn validate_created_proxy_state(
    tree: &NativeTreeState,
    slot: i32,
    expected_proxy_count: usize,
    slot_already_registered: bool,
) -> (r: Result<()>)
    ensures
        r is Ok <==> created_proxy_violation(*tree, slot, expected_proxy_count, slot_already_registered) is None,
        r matches Err(e) ==> created_proxy_violation(*tree, slot, expected_proxy_count, slot_already_registered) == Some(e),
{
    if expected_proxy_count > 0x7fff_ffff {
        return Err(
            Error::InvalidNativeDynamicTreeState {
                operation: CREATE_PROXY,
                field: "proxyCount",
                value: i64::MAX,
                constraint: "the exact safe proxy registry length representable by a native int",
            },
        );
    }
    let expected = expected_proxy_count as i32;
    if slot < 0 || slot_already_registered {
        return Err(
            Error::InvalidNativeDynamicTreeState {
                operation: CREATE_PROXY,
                field: "proxy_slot",
                value: slot as i64,
                constraint: "a non-negative newly allocated slot",
            },
        );
    }
    if tree.nodes_null || !tree.nodes_aligned {
        return Err(
            Error::InvalidNativeDynamicTreeState {
                operation: CREATE_PROXY,
                field: "nodes",
                value: 0,
                constraint: "a non-null aligned node allocation",
            },
        );
    }
    if tree.node_capacity <= 0 || slot >= tree.node_capacity {
        return Err(
            Error::InvalidNativeDynamicTreeState {
                operation: CREATE_PROXY,
                field: "proxy_slot",
                value: slot as i64,
                constraint: "a newly allocated slot within nodeCapacity",
            },
        );
    }
    if tree.proxy_count != expected {
        return Err(
            Error::InvalidNativeDynamicTreeState {
                operation: CREATE_PROXY,
                field: "proxyCount",
                value: tree.proxy_count as i64,
                constraint: "the exact safe proxy registry length after creation",
            },
        );
    }
    let expected_node_count = match expected.checked_mul(2) {
        Some(twice) => twice - 1,
        None => {
            return Err(
                Error::InvalidNativeDynamicTreeState {
                    operation: CREATE_PROXY,
                    field: "nodeCount",
                    value: tree.node_count as i64,
                    constraint: "twice proxyCount minus one",
                },
            );
        },
    };
    if tree.node_count != expected_node_count || tree.node_count > tree.node_capacity {
        return Err(
            Error::InvalidNativeDynamicTreeState {
                operation: CREATE_PROXY,
                field: "nodeCount",
                value: tree.node_count as i64,
                constraint: "twice proxyCount minus one and no greater than nodeCapacity",
            },
        );
    }
    if tree.root < 0 || tree.root >= tree.node_capacity {
        return Err(
            Error::InvalidNativeDynamicTreeState {
                operation: CREATE_PROXY,
                field: "root",
                value: tree.root as i64,
                constraint: "an allocated node index within nodeCapacity",
            },
        );
    }
    if (expected == 1 && tree.root != slot) || (expected > 1 && tree.root == slot) {
        return Err(
            Error::InvalidNativeDynamicTreeState {
                operation: CREATE_PROXY,
                field: "root",
                value: tree.root as i64,
                constraint: "the created leaf for the first proxy, otherwise a distinct internal node",
            },
        );
    }
    if tree.free_list < -1 || tree.free_list >= tree.node_capacity {
        return Err(
            Error::InvalidNativeDynamicTreeState {
                operation: CREATE_PROXY,
                field: "freeList",
                value: tree.free_list as i64,
                constraint: "the null index or a free node index within nodeCapacity",
            },
        );
    }
    if tree.free_list == slot {
        return Err(
            Error::InvalidNativeDynamicTreeState {
                operation: CREATE_PROXY,
                field: "freeList",
                value: tree.free_list as i64,
                constraint: "a free node distinct from the newly allocated slot",
            },
        );
    }
    Ok(())
}

/// The largest node capacity whose allocation fits `address_limit` bytes and whose indices fit a
/// native `int`.
pub open spec fn max_node_capacity_spec(address_limit: usize, node_size: usize) -> int {
    let byte_limited = address_limit as int / node_size as int;
    if byte_limited < i32::MAX {
        byte_limited
    } else {
        i32::MAX as int
    }
}

/// The largest node capacity whose allocation fits `address_limit` bytes and whose indices fit a
/// native `int`.
pub fn maximum_tree_node_capacity_for(address_limit: usize, node_size: usize) -> (r: usize)
    requires
        node_size > 0,
    ensures
        r == max_node_capacity_spec(address_limit, node_size),
        r * node_size <= address_limit,
        r <= i32::MAX,
{
    let byte_limited = address_limit / node_size;
    proof {
        let a: int = address_limit as int;
        let n: int = node_size as int;
        vstd::arithmetic::div_mod::lemma_fundamental_div_mod(a, n);
        assert(byte_limited * n <= a) by (nonlinear_arith)
            requires
                byte_limited == a / n,
                a == n * (a / n) + a % n,
                0 <= a % n,
        ;
    }
    if byte_limited < 0x7fff_ffff {
        byte_limited
    } else {
        proof {
            assert(0x7fff_ffff * node_size <= byte_limited * node_size) by (nonlinear_arith)
                requires
                    byte_limited >= 0x7fff_ffff,
                    node_size > 0,
            ;
        }
        0x7fff_ffff
    }
}

/// Half of the largest native `int`: more proxies would overflow Box2D's node arithmetic.
pub const ARITHMETIC_PROXY_LIMIT: usize = 0x3fff_ffff;

/// The largest proxy capacity for nodes of `node_size` bytes within `address_limit`: half of the
/// largest node capacity, rounded up, unless the arithmetic limit is smaller.
pub open spec fn max_proxy_capacity_spec(address_limit: usize, node_size: usize) -> int {
    let byte_limited = (max_node_capacity_spec(address_limit, node_size) + 1) / 2;
    if byte_limited < ARITHMETIC_PROXY_LIMIT {
        byte_limited
    } else {
        ARITHMETIC_PROXY_LIMIT as int
    }
}

/// The largest proxy capacity whose worst-case node count fits both the allocation limit and
/// native index arithmetic.
///
/// A tree of `p` proxies holds up to `2 * p - 1` nodes; the result is the largest `p` whose node
/// allocation fits, unless the arithmetic limit is smaller.
pub fn maximum_proxy_capacity_for(address_limit: usize, node_size: usize) -> (r: usize)
    requires
        node_size > 0,
    ensures
        r == max_proxy_capacity_spec(address_limit, node_size),
        r <= ARITHMETIC_PROXY_LIMIT,
        r > 0 ==> (2 * r - 1) * node_size <= address_limit,
        r == ARITHMETIC_PROXY_LIMIT || 2 * r + 1 > i32::MAX || (2 * r + 1) * node_size > address_limit,
{
    let max_nodes = maximum_tree_node_capacity_for(address_limit, node_size);
    let byte_limited = (max_nodes + 1) / 2;
    proof {
        assert(2 * byte_limited - 1 <= max_nodes);
        assert(2 * byte_limited + 1 > max_nodes);
    }
    let r = if byte_limited < ARITHMETIC_PROXY_LIMIT {
        byte_limited
    } else {
        ARITHMETIC_PROXY_LIMIT
    };
    proof {
        if r > 0 {
            assert((2 * r - 1) * node_size <= max_nodes * node_size) by (nonlinear_arith)
                requires
                    2 * r - 1 <= max_nodes,
                    r > 0,
                    node_size > 0,
            ;
        }
        if r != ARITHMETIC_PROXY_LIMIT && 2 * r + 1 <= i32::MAX {
            let m: int = max_nodes as int;
            let a: int = address_limit as int;
            let n: int = node_size as int;
            assert(m == a / n);
            vstd::arithmetic::div_mod::lemma_fundamental_div_mod(a, n);
            assert((2 * r + 1) * n > a) by (nonlinear_arith)
                requires
                    2 * r + 1 >= m + 1,
                    a == n * m + a % n,
                    a % n < n,
                    n > 0,
            ;
        }
    }
    r
}

/// Calls `core::mem::size_of` on `boxdd_sys::ffi::b2TreeNode`.
///
/// Trusted: the node is a `repr(C)` struct of fixed-width fields only (a 16-byte box, a `u64`, an
/// 8-byte union, a 4-byte union and two `u16`s, in that order), so its size is 40 bytes on every
/// target.
#[verifier::external_body]
fn native_tree_node_size() -> (n: usize)
    ensures
        n == NATIVE_TREE_NODE_SIZE,
{
    core::mem::size_of::<boxdd_sys::ffi::b2TreeNode>()
}

/// Calls `core::mem::size_of` on `boxdd_sys::ffi::b2DynamicTree`.
///
/// Trusted: the header holds pointers, so its size depends on the target; it has fields, so the
/// size is positive. Nothing more is stated.
#[verifier::external_body]
fn native_tree_header_size() -> (n: usize)
    ensures
        n > 0,
{
    core::mem::size_of::<boxdd_sys::ffi::b2DynamicTree>()
}

/// Calls `core::mem::size_of` on `boxdd_sys::ffi::b2AABB`.
///
/// Trusted: a `repr(C)` pair of two-`f32` vectors, 16 bytes on every target.
#[verifier::external_body]
fn native_aabb_size() -> (n: usize)
    ensures
        n == 16,
{
    core::mem::size_of::<boxdd_sys::ffi::b2AABB>()
}

/// Calls `core::mem::size_of` on `boxdd_sys::ffi::b2Vec2`.
///
/// Trusted: a `repr(C)` pair of `f32`s, 8 bytes on every target.
#[verifier::external_body]
fn native_vec2_size() -> (n: usize)
    ensures
        n == 8,
{
    core::mem::size_of::<boxdd_sys::ffi::b2Vec2>()
}

/// The size in bytes of a native tree node.
pub const NATIVE_TREE_NODE_SIZE: usize = 40;

/// The sizes of the native structures a tree allocates, on this platform.
pub fn native_tree_sizes() -> (s: NativeTreeSizes)
    ensures
        s.int == 4,
        s.node == NATIVE_TREE_NODE_SIZE,
        s.aabb == 16,
        s.vec2 == 8,
        s.tree > 0,
{
    NativeTreeSizes {
        tree: native_tree_header_size(),
        node: native_tree_node_size(),
        aabb: native_aabb_size(),
        vec2: native_vec2_size(),
        int: 4,
    }
}

/// The largest proxy capacity this platform's native allocation and index arithmetic support.
pub fn max_proxy_capacity() -> (r: usize)
    ensures
        r <= ARITHMETIC_PROXY_LIMIT,
        r == max_proxy_capacity_spec(isize::MAX as usize, NATIVE_TREE_NODE_SIZE),
{
    maximum_proxy_capacity_for(isize::MAX as usize, native_tree_node_size())
}

/// The first reason the native tree cannot take one more proxy without an unsafe growth step, if
/// any; `maximum` is the largest node capacity the platform supports.
pub open spec fn reserve_violation(node_capacity: i32, node_count: i32, proxy_count: i32, maximum: usize) -> Option<Error> {
    if node_capacity == 0 {
        Some(tree_state_error(CREATE_PROXY, "nodeCapacity", node_capacity as i64, "a positive native capacity"))
    } else if node_capacity < 0 {
        Some(tree_state_error(CREATE_PROXY, "nodeCapacity", node_capacity as i64, "a non-negative native int"))
    } else if node_count < 0 {
        Some(tree_state_error(CREATE_PROXY, "nodeCount", node_count as i64, "a non-negative native int no greater than nodeCapacity"))
    } else if proxy_count < 0 {
        Some(tree_state_error(CREATE_PROXY, "proxyCount", proxy_count as i64, "a non-negative native int"))
    } else if proxy_count > node_count {
        Some(tree_state_error(CREATE_PROXY, "proxyCount", proxy_count as i64, "a count no greater than nodeCount"))
    } else if node_count > node_capacity {
        Some(tree_state_error(CREATE_PROXY, "nodeCount", node_count as i64, "a value no greater than nodeCapacity"))
    } else if node_capacity - node_count >= (if proxy_count == 0 { 1int } else { 2int }) {
        None
    } else if node_capacity + node_capacity / 2 <= node_capacity {
        Some(tree_state_error(CREATE_PROXY, "nodeCapacity", node_capacity as i64,
            "a capacity whose native growth step increases capacity"))
    } else if node_capacity + node_capacity / 2 <= maximum {
        None
    } else {
        Some(tree_state_error(CREATE_PROXY, "grown nodeCapacity", (node_capacity + node_capacity / 2) as i64,
            "a value supported by native pointer and signed-index arithmetic"))
    }
}

/// Check that creating one more proxy cannot drive Box2D into an unsafe growth step, given the
/// largest node capacity `maximum` the platform supports.
pub fn check_proxy_node_reserve_within(node_capacity: i32, node_count: i32, proxy_count: i32, maximum: usize) -> (r: Result<()>)
    requires
        maximum <= i32::MAX,
    ensures
        r is Ok <==> reserve_violation(node_capacity, node_count, proxy_count, maximum) is None,
        r matches Err(e) ==> reserve_violation(node_capacity, node_count, proxy_count, maximum) == Some(e),
{
    if node_capacity == 0 {
        return Err(
            Error::InvalidNativeDynamicTreeState {
                operation: CREATE_PROXY,
                field: "nodeCapacity",
                value: node_capacity as i64,
                constraint: "a positive native capacity",
            },
        );
    }
    if node_capacity < 0 {
        return Err(
            Error::InvalidNativeDynamicTreeState {
                operation: CREATE_PROXY,
                field: "nodeCapacity",
                value: node_capacity as i64,
                constraint: "a non-negative native int",
            },
        );
    }
    if node_count < 0 {
        return Err(
            Error::InvalidNativeDynamicTreeState {
                operation: CREATE_PROXY,
                field: "nodeCount",
                value: node_count as i64,
                constraint: "a non-negative native int no greater than nodeCapacity",
            },
        );
    }
    if proxy_count < 0 {
        return Err(
            Error::InvalidNativeDynamicTreeState {
                operation: CREATE_PROXY,
                field: "proxyCount",
                value: proxy_count as i64,
                constraint: "a non-negative native int",
            },
        );
    }
    if proxy_count > node_count {
        return Err(
            Error::InvalidNativeDynamicTreeState {
                operation: CREATE_PROXY,
                field: "proxyCount",
                value: proxy_count as i64,
                constraint: "a count no greater than nodeCount",
            },
        );
    }
    let capacity = node_capacity as usize;
    let count = node_count as usize;
    if count > capacity {
        return Err(
            Error::InvalidNativeDynamicTreeState {
                operation: CREATE_PROXY,
                field: "nodeCount",
                value: count as i64,
                constraint: "a value no greater than nodeCapacity",
            },
        );
    }
    let available = capacity - count;
    let required: usize = if proxy_count == 0 {
        1
    } else {
        2
    };
    if available >= required {
        return Ok(());
    }
    let grown = capacity + capacity / 2;
    if grown <= capacity {
        return Err(
            Error::InvalidNativeDynamicTreeState {
                operation: CREATE_PROXY,
                field: "nodeCapacity",
                value: capacity as i64,
                constraint: "a capacity whose native growth step increases capacity",
            },
        );
    }
    if grown <= maximum {
        Ok(())
    } else {
        Err(
            Error::InvalidNativeDynamicTreeState {
                operation: CREATE_PROXY,
                field: "grown nodeCapacity",
                value: grown as i64,
                constraint: "a value supported by native pointer and signed-index arithmetic",
            },
        )
    }
}

/// Check that creating one more proxy cannot drive Box2D into an unsafe growth step on this
/// platform.
pub fn check_proxy_node_reserve_fields(node_capacity: i32, node_count: i32, proxy_count: i32) -> (r: Result<()>)
    ensures
        r is Ok <==> reserve_violation(node_capacity, node_count, proxy_count, native_node_capacity_limit()) is None,
        r matches Err(e) ==> reserve_violation(node_capacity, node_count, proxy_count, native_node_capacity_limit()) == Some(e),
        r matches Err(e) ==> e is InvalidNativeDynamicTreeState,
        node_capacity > 0 && 0 <= proxy_count <= node_count && node_capacity - node_count >= (if proxy_count == 0 { 1int } else { 2int }) ==> r is Ok,
{
    let node_size = native_tree_node_size();
    let maximum = maximum_tree_node_capacity_for(isize::MAX as usize, node_size);
    check_proxy_node_reserve_within(node_capacity, node_count, proxy_count, maximum)
}

/// The largest node capacity this platform's native allocation and index arithmetic support.
pub open spec fn native_node_capacity_limit() -> usize {
    max_node_capacity_spec(isize::MAX as usize, NATIVE_TREE_NODE_SIZE) as usize
}

/// The error of an unsupported proxy capacity hint.
pub open spec fn proxy_capacity_error() -> Error {
    Error::InvalidArgument {
        operation: "DynamicTree::with_capacity",
        argument: "proxy_capacity",
        constraint: "a capacity supported by native allocation and signed-index arithmetic",
    }
}

/// Accept a proxy capacity hint no greater than `maximum`, as a native `int`.
pub fn check_proxy_capacity_within(proxy_capacity: usize, maximum: usize) -> (r: Result<i32>)
    requires
        maximum <= ARITHMETIC_PROXY_LIMIT,
    ensures
        r is Ok <==> proxy_capacity <= maximum,
        r matches Ok(c) ==> c == proxy_capacity,
        r matches Err(e) ==> e == proxy_capacity_error(),
{
    if proxy_capacity > maximum {
        return Err(
            Error::invalid_argument(
                "DynamicTree::with_capacity",
                "proxy_capacity",
                "a capacity supported by native allocation and signed-index arithmetic",
            ),
        );
    }
    Ok(proxy_capacity as i32)
}

/// Accept a proxy capacity hint this platform supports, as a native `int`.
pub fn check_proxy_capacity(proxy_capacity: usize) -> (r: Result<i32>)
    ensures
        r is Ok <==> proxy_capacity <= max_proxy_capacity_spec(isize::MAX as usize, NATIVE_TREE_NODE_SIZE),
        r matches Ok(c) ==> c == proxy_capacity,
        r matches Err(e) ==> e == proxy_capacity_error(),
{
    let maximum = max_proxy_capacity();
    check_proxy_capacity_within(proxy_capacity, maximum)
}

/// The safe owner's record of the proxies of one tree.
pub struct TreeProxyRegistry {
    tree: TreeToken,
    proxies: HashMap<i32, TreeProxyNonce>,
    last_proxy_nonce: u64,
    issued: Ghost<Set<u64>>,
}

impl TreeProxyRegistry {
    pub closed spec fn tree_spec(&self) -> TreeToken {
        self.tree
    }

    /// Registered slots and their nonces.
    pub closed spec fn proxies(&self) -> Map<i32, TreeProxyNonce> {
        self.proxies@
    }

    /// The last nonce allocated.
    pub closed spec fn last_nonce(&self) -> u64 {
        self.last_proxy_nonce
    }

    /// Nonces handed to proxy ids so far.
    pub closed spec fn issued(&self) -> Set<u64> {
        self.issued@
    }

    /// Every registered nonce was issued, and every issued nonce was allocated.
    pub closed spec fn wf(&self) -> bool {
        &&& forall|slot: i32| #[trigger] self.proxies@.contains_key(slot) ==> self.issued@.contains(self.proxies@[slot].value_spec())
        &&& forall|n: u64| #[trigger] self.issued@.contains(n) ==> 0 < n <= self.last_proxy_nonce
    }

    /// Whether `proxy` names a live proxy of this registry.
    pub open spec fn live(&self, proxy: TreeProxyId) -> bool {
        &&& proxy.tree_spec() == self.tree_spec()
        &&& self.proxies().contains_key(proxy.slot_spec())
        &&& self.proxies()[proxy.slot_spec()] == proxy.nonce_spec()
    }

    /// `new` is a successor of `old`: every registration of `new` was registered in `old` or has
    /// a nonce `old` had not allocated.
    pub open spec fn evolves(old: &Self, new: &Self) -> bool {
        &&& old.tree_spec() == new.tree_spec()
        &&& old.last_nonce() <= new.last_nonce()
        &&& old.issued().subset_of(new.issued())
        &&& forall|slot: i32| #[trigger] new.proxies().contains_key(slot) ==> (old.proxies().contains_key(slot)
            && old.proxies()[slot] == new.proxies()[slot]) || !old.issued().contains(new.proxies()[slot].value_spec())
    }

    /// An empty registry for tree `tree`.
    pub fn new(tree: TreeToken) -> (r: Self)
        ensures
            r.wf(),
            r.tree_spec() == tree,
            r.proxies().is_empty(),
            r.issued().is_empty(),
            r.last_nonce() == 0,
    {
        TreeProxyRegistry { tree, proxies: HashMap::new(), last_proxy_nonce: 0, issued: Ghost(Set::empty()) }
    }

    /// The number of live proxies.
    pub fn len(&self) -> (n: usize)
        ensures
            n == self.proxies().len(),
    {
        self.proxies.len()
    }

    /// The native slot of `proxy` if it is live here.
    pub fn check_proxy(&self, proxy: TreeProxyId) -> (r: Result<i32>)
        ensures
            r is Ok <==> self.live(proxy),
            r matches Ok(slot) ==> slot == proxy.slot_spec(),
            r matches Err(e) ==> e == if proxy.tree_spec() != self.tree_spec() {
                Error::WrongTree
            } else {
                Error::InvalidTreeProxyId
            },
    {
        if proxy.tree != self.tree {
            return Err(Error::WrongTree);
        }
        match self.proxies.get(&proxy.slot) {
            Some(nonce) => {
                if *nonce == proxy.nonce {
                    Ok(proxy.slot)
                } else {
                    Err(Error::InvalidTreeProxyId)
                }
            },
            None => Err(Error::InvalidTreeProxyId),
        }
    }

    /// Whether `proxy` is live here.
    pub fn contains_proxy(&self, proxy: TreeProxyId) -> (r: bool)
        ensures
            r == self.live(proxy),
    {
        self.check_proxy(proxy).is_ok()
    }

    /// The live proxy id of native `slot`, as reported by a traversal.
    pub fn resolve(&self, slot: i32) -> (r: Option<TreeProxyId>)
        ensures
            r is Some <==> self.proxies().contains_key(slot),
            r matches Some(id) ==> self.live(id) && id.slot_spec() == slot,
    {
        match self.proxies.get(&slot) {
            Some(nonce) => Some(TreeProxyId::bind(self.tree, slot, *nonce)),
            None => None,
        }
    }

    /// Allocate the nonce of the next proxy.
    pub fn allocate_nonce(&mut self) -> (r: Result<TreeProxyNonce>)
        requires
            old(self).wf(),
        ensures
            final(self).wf(),
            Self::evolves(old(self), final(self)),
            final(self).proxies() == old(self).proxies(),
            final(self).issued() == old(self).issued(),
            r matches Ok(n) ==> n.value_spec() == old(self).last_nonce() + 1 && final(self).last_nonce() == n.value_spec()
                && !final(self).issued().contains(n.value_spec()),
            r matches Err(e) ==> e == Error::ObjectIdentityExhausted && final(self).last_nonce() == old(self).last_nonce(),
            r is Ok <==> old(self).last_nonce() < u64::MAX,
    {
        TreeProxyNonce::allocate(&mut self.last_proxy_nonce)
    }

    /// Register the proxy the native tree created in `slot` under the freshly allocated `nonce`.
    pub fn register(&mut self, slot: i32, nonce: TreeProxyNonce) -> (id: TreeProxyId)
        requires
            old(self).wf(),
            !old(self).proxies().contains_key(slot),
            !old(self).issued().contains(nonce.value_spec()),
            0 < nonce.value_spec() <= old(self).last_nonce(),
        ensures
            final(self).wf(),
            Self::evolves(old(self), final(self)),
            final(self).proxies() == old(self).proxies().insert(slot, nonce),
            final(self).issued() == old(self).issued().insert(nonce.value_spec()),
            final(self).last_nonce() == old(self).last_nonce(),
            final(self).live(id),
            id.slot_spec() == slot,
            id.nonce_spec() == nonce,
    {
        self.proxies.insert(slot, nonce);
        proof {
            self.issued@ = self.issued@.insert(nonce.value_spec());
        }
        TreeProxyId::bind(self.tree, slot, nonce)
    }

    /// Forget the proxy in `slot` after the native tree destroyed it.
    pub fn unregister(&mut self, slot: i32)
        requires
            old(self).wf(),
        ensures
            final(self).wf(),
            Self::evolves(old(self), final(self)),
            final(self).proxies() == old(self).proxies().remove(slot),
            final(self).issued() == old(self).issued(),
            final(self).last_nonce() == old(self).last_nonce(),
    {
        self.proxies.remove(&slot);
    }

    /// A stale proxy id stays stale: once an allocated id is not live, no successor registry
    /// makes it live again, even if the native tree reuses its slot.
    pub proof fn lemma_stale_proxy_stays_stale(old: &Self, new: &Self, proxy: TreeProxyId)
        requires
            Self::evolves(old, new),
            !old.live(proxy),
            old.issued().contains(proxy.nonce_spec().value_spec()),
        ensures
            !new.live(proxy),
    {
    }

    /// Evolution composes: a successor of a successor is a successor.
    pub proof fn lemma_evolves_transitive(a: &Self, b: &Self, c: &Self)
        requires
            Self::evolves(a, b),
            Self::evolves(b, c),
        ensures
            Self::evolves(a, c),
    {
        assert forall|slot: i32| #[trigger] c.proxies().contains_key(slot) implies (a.proxies().contains_key(slot)
            && a.proxies()[slot] == c.proxies()[slot]) || !a.issued().contains(c.proxies()[slot].value_spec()) by {
            if b.proxies().contains_key(slot) && b.proxies()[slot] == c.proxies()[slot] {
                assert(b.proxies().contains_key(slot));
            }
        }
    }
}

/// Whether `native_create` can report `slot` with a tree state that accepts it as the proxy
/// bringing the count to `expected`.
pub open spec fn accepted_creation<N: FnOnce() -> (i32, NativeTreeState)>(native_create: N, slot: i32, expected: usize) -> bool {
    exists|after: NativeTreeState| #[trigger] native_create.ensures((), (slot, after))
        && created_proxy_violation(after, slot, expected, false) is None
}

/// The safe owner's state of one native tree: its proxies and, once a native output broke an
/// invariant, the error that refuses every later operation. A tree in that state is never handed
/// back to the native destructor.
pub struct TreeOwner {
    proxies: TreeProxyRegistry,
    terminal_error: Option<Error>,
}

impl TreeOwner {
    pub closed spec fn proxies_spec(&self) -> TreeProxyRegistry {
        self.proxies
    }

    pub closed spec fn terminal_spec(&self) -> Option<Error> {
        self.terminal_error
    }

    pub open spec fn wf(&self) -> bool {
        self.proxies_spec().wf()
    }

    /// What [`check_available`](Self::check_available) answers.
    pub open spec fn availability(&self, depth: &CallbackDepth) -> Result<()> {
        if depth.depth_spec() > 0 {
            Err(Error::InCallback)
        } else {
            match self.terminal_spec() {
                Some(e) => Err(e),
                None => Ok(()),
            }
        }
    }

    /// A usable owner of the empty tree `tree`.
    pub fn new(tree: TreeToken) -> (o: Self)
        ensures
            o.wf(),
            o.proxies_spec().tree_spec() == tree,
            o.proxies_spec().proxies().is_empty(),
            o.proxies_spec().last_nonce() == 0,
            o.terminal_spec() is None,
    {
        TreeOwner { proxies: TreeProxyRegistry::new(tree), terminal_error: None }
    }

    /// The proxies of the tree.
    pub fn proxies(&self) -> (r: &TreeProxyRegistry)
        ensures
            *r == self.proxies_spec(),
    {
        &self.proxies
    }

    /// The error that made the tree unusable, if any.
    pub fn terminal_error(&self) -> (e: Option<Error>)
        ensures
            e == self.terminal_spec(),
    {
        self.terminal_error
    }

    /// Whether the native tree may be destroyed: not once a native output was refused.
    pub fn should_destroy_native(&self) -> (b: bool)
        ensures
            b == self.terminal_spec() is None,
    {
        self.terminal_error.is_none()
    }

    /// Refuses an operation from inside a callback, then on an unusable tree.
    pub fn check_available(&self, depth: &CallbackDepth) -> (r: Result<()>)
        ensures
            r == self.availability(depth),
    {
        depth.check_not_in_callback()?;
        match self.terminal_error {
            Some(e) => Err(e),
            None => Ok(()),
        }
    }

    /// Creates a proxy: after the checks, `native_create` creates it natively and reports its slot
    /// and the tree's state; a state that breaks an invariant makes the tree unusable.
    pub fn create_proxy<N: FnOnce() -> (i32, NativeTreeState)>(
        &mut self,
        depth: &CallbackDepth,
        before: NativeTreeState,
        native_create: N,
    ) -> (r: Result<TreeProxyId>)
        requires
            old(self).wf(),
            native_create.requires(()),
        ensures
            final(self).wf(),
            TreeProxyRegistry::evolves(&old(self).proxies_spec(), &final(self).proxies_spec()),
            old(self).availability(depth) matches Err(e) ==> r == Err::<TreeProxyId, Error>(e)
                && final(self).proxies_spec().proxies() == old(self).proxies_spec().proxies()
                && final(self).terminal_spec() == old(self).terminal_spec(),
            r matches Ok(id) ==> old(self).availability(depth) is Ok && final(self).terminal_spec() is None
                && final(self).proxies_spec().live(id),
            r matches Ok(id) ==> final(self).proxies_spec().proxies() == old(self).proxies_spec().proxies().insert(
                id.slot_spec(),
                id.nonce_spec(),
            ),
            r matches Ok(id) ==> accepted_creation(native_create, id.slot_spec(), (old(self).proxies_spec().proxies().len() + 1) as usize),
            old(self).availability(depth) is Ok ==> match reserve_violation(before.node_capacity, before.node_count,
                before.proxy_count, native_node_capacity_limit()) {
                Some(e) => r == Err::<TreeProxyId, Error>(e) && final(self).proxies_spec().proxies() == old(self).proxies_spec().proxies()
                    && final(self).terminal_spec() == old(self).terminal_spec(),
                None => true,
            },
            r matches Err(e) ==> final(self).proxies_spec().proxies() == old(self).proxies_spec().proxies() && (
                final(self).terminal_spec() == old(self).terminal_spec() || (old(self).terminal_spec() is None
                    && final(self).terminal_spec() == Some(e) && exists|slot: i32, after: NativeTreeState|
                    native_create.ensures((), (slot, after)) && created_proxy_violation(after, slot,
                    (old(self).proxies_spec().proxies().len() + 1) as usize,
                    old(self).proxies_spec().proxies().contains_key(slot)) == Some(e))),
    {
        self.check_available(depth)?;
        check_proxy_node_reserve_fields(before.node_capacity, before.node_count, before.proxy_count)?;
        if !crate::reserve::try_reserve_map(&mut self.proxies.proxies, 1) {
            return Err(Error::IdentityTrackingAllocationFailed);
        }
        let nonce = self.proxies.allocate_nonce()?;
        let len = self.proxies.len();
        if len == usize::MAX {
            return Err(Error::InvalidNativeDynamicTreeState {
                operation: CREATE_PROXY,
                field: "proxyCount",
                value: 0x7fff_ffff_ffff_ffff,
                constraint: "the exact safe proxy registry length",
            });
        }
        let expected = len + 1;
        let (slot, after) = native_create();
        let registered = self.proxies.proxies.contains_key(&slot);
        if let Err(e) = validate_created_proxy_state(&after, slot, expected, registered) {
            self.terminal_error = Some(e);
            return Err(e);
        }
        let ghost before_register = self.proxies.proxies();
        let id = self.proxies.register(slot, nonce);
        proof {
            assert(!registered);
            assert(native_create.ensures((), (id.slot_spec(), after)));
            assert(before_register.len() == old(self).proxies_spec().proxies().len());
            assert(expected == (old(self).proxies_spec().proxies().len() + 1) as usize);
            assert(created_proxy_violation(after, id.slot_spec(), expected, false) is None);
            assert(accepted_creation(native_create, id.slot_spec(), expected));
        }
        Ok(id)
    }

    /// Destroys a live proxy: after the checks, `native_destroy` destroys it natively and reports
    /// the tree's proxy count, which must have dropped by one or the tree becomes unusable.
    pub fn destroy_proxy<N: FnOnce(i32) -> i32>(&mut self, depth: &CallbackDepth, proxy: TreeProxyId, native_destroy: N) -> (r: Result<()>)
        requires
            old(self).wf(),
            native_destroy.requires((proxy.slot_spec(),)),
        ensures
            final(self).wf(),
            TreeProxyRegistry::evolves(&old(self).proxies_spec(), &final(self).proxies_spec()),
            !old(self).proxies_spec().live(proxy) ==> r == Err::<(), Error>(if proxy.tree_spec() != old(self).proxies_spec().tree_spec() {
                Error::WrongTree
            } else {
                Error::InvalidTreeProxyId
            }) && final(self).proxies_spec().proxies() == old(self).proxies_spec().proxies()
                && final(self).terminal_spec() == old(self).terminal_spec(),
            old(self).proxies_spec().live(proxy) && old(self).availability(depth) is Err ==> r == old(self).availability(depth)
                && final(self).proxies_spec().proxies() == old(self).proxies_spec().proxies()
                && final(self).terminal_spec() == old(self).terminal_spec(),
            r is Ok ==> old(self).proxies_spec().live(proxy) && old(self).availability(depth) is Ok
                && final(self).proxies_spec().proxies() == old(self).proxies_spec().proxies().remove(proxy.slot_spec())
                && final(self).terminal_spec() is None
                && native_destroy.ensures((proxy.slot_spec(),), (old(self).proxies_spec().proxies().len() - 1) as i32),
            r matches Err(e) ==> final(self).proxies_spec().proxies() == old(self).proxies_spec().proxies() && (
                final(self).terminal_spec() == old(self).terminal_spec()
                || (old(self).terminal_spec() is None && final(self).terminal_spec() == Some(e))),
    {
        let slot = self.proxies.check_proxy(proxy)?;
        self.check_available(depth)?;
        let expected = self.proxies.len() - 1;
        let count = native_destroy(slot);
        if let Err(e) = checked_native_proxy_count("DynamicTree::destroy_proxy", count, expected) {
            self.terminal_error = Some(e);
            return Err(e);
        }
        self.proxies.unregister(slot);
        Ok(())
    }

    /// Rebuilds the tree: the proxy count `native_count` reports must match the registry before and
    /// after `native_rebuild` runs, and the rebuilt count must fit it; a mismatch after the native
    /// rebuild makes the tree unusable.
    pub fn rebuild<C: Fn() -> i32, N: FnOnce(bool) -> i32>(
        &mut self,
        depth: &CallbackDepth,
        native_count: C,
        native_rebuild: N,
        full_build: bool,
    ) -> (r: Result<i32>)
        requires
            old(self).wf(),
            native_count.requires(()),
            native_rebuild.requires((full_build,)),
        ensures
            final(self).wf(),
            final(self).proxies_spec() == old(self).proxies_spec(),
            old(self).availability(depth) matches Err(e) ==> r == Err::<i32, Error>(e)
                && final(self).terminal_spec() == old(self).terminal_spec(),
            r matches Ok(n) ==> old(self).availability(depth) is Ok && final(self).terminal_spec() is None
                && native_rebuild.ensures((full_build,), n)
                && rebuild_valid(n, old(self).proxies_spec().proxies().len() as i32, full_build),
            r matches Err(e) ==> final(self).terminal_spec() == old(self).terminal_spec()
                || (old(self).terminal_spec() is None && final(self).terminal_spec() == Some(e)),
    {
        self.check_available(depth)?;
        let expected = self.proxies.len();
        let proxy_count = checked_native_proxy_count("DynamicTree::rebuild", native_count(), expected)?;
        let rebuilt = native_rebuild(full_build);
        let result = match checked_native_proxy_count("DynamicTree::rebuild", native_count(), expected) {
            Ok(_) => checked_native_rebuild_count("DynamicTree::rebuild", rebuilt, proxy_count, full_build),
            Err(e) => Err(e),
        };
        if let Err(e) = result {
            self.terminal_error = Some(e);
        }
        result
    }
}

/// The progress of one tree query, decided between native callbacks: once the visitor stops it,
/// a visitor panics, or the native tree reports a slot that names no live proxy, every later
/// callback is answered with "stop" and no visitor runs again.
pub struct QueryProgress {
    stopped_early: bool,
    panicked: bool,
    error: Option<Error>,
}

impl QueryProgress {
    pub closed spec fn stopped_spec(&self) -> bool {
        self.stopped_early
    }

    pub closed spec fn panicked_spec(&self) -> bool {
        self.panicked
    }

    pub closed spec fn error_spec(&self) -> Option<Error> {
        self.error
    }

    /// Whether the query has ended.
    pub open spec fn ended(&self) -> bool {
        self.stopped_spec() || self.panicked_spec() || self.error_spec() is Some
    }

    /// A query that has visited nothing.
    pub fn new() -> (p: Self)
        ensures
            !p.stopped_spec() && !p.panicked_spec() && p.error_spec() is None,
    {
        QueryProgress { stopped_early: false, panicked: false, error: None }
    }

    /// The proxy id to hand to the visitor for native `slot`; `None` when the query has ended or
    /// `slot` names no live proxy of `proxies`, which ends it with `InvalidTreeProxyId`.
    pub fn next_proxy(&mut self, proxies: &TreeProxyRegistry, slot: i32) -> (r: Option<TreeProxyId>)
        ensures
            old(self).ended() ==> r is None && *final(self) == *old(self),
            !old(self).ended() && !proxies.proxies().contains_key(slot) ==> r is None
                && final(self).error_spec() == Some(Error::InvalidTreeProxyId)
                && final(self).stopped_spec() == old(self).stopped_spec()
                && final(self).panicked_spec() == old(self).panicked_spec(),
            !old(self).ended() && proxies.proxies().contains_key(slot) ==> (r matches Some(id) && proxies.live(id)
                && id.slot_spec() == slot) && *final(self) == *old(self),
    {
        if self.stopped_early || self.panicked || self.error.is_some() {
            return None;
        }
        match proxies.resolve(slot) {
            Some(id) => Some(id),
            None => {
                self.error = Some(Error::InvalidTreeProxyId);
                None
            },
        }
    }

    /// Records the visitor's answer and returns it: `false` stops the query.
    pub fn record(&mut self, keep_going: bool) -> (r: bool)
        ensures
            r == keep_going,
            final(self).stopped_spec() == (old(self).stopped_spec() || !keep_going),
            final(self).panicked_spec() == old(self).panicked_spec(),
            final(self).error_spec() == old(self).error_spec(),
    {
        if !keep_going {
            self.stopped_early = true;
        }
        keep_going
    }

    /// Records that the visitor panicked; the query stops.
    pub fn record_panic(&mut self)
        ensures
            final(self).panicked_spec(),
            final(self).stopped_spec() == old(self).stopped_spec(),
            final(self).error_spec() == old(self).error_spec(),
    {
        self.panicked = true;
    }

    /// The error the query ended with, if any.
    pub fn error(&self) -> (e: Option<Error>)
        ensures
            e == self.error_spec(),
    {
        self.error
    }
}

} // verus!
