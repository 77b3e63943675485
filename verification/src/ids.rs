//! Identifiers handed out by the safe API.
//!
//! A native Box2D id (`index1`, `world0`, `generation`) is not a safe identity on its own:
//! snapshot restore may reintroduce an old native tuple. Every safe id therefore also carries the
//! brand of the world that issued it and the registration nonce of the exact registration it names.

use vstd::prelude::*;

use crate::error::{Error, Result};

verus! {

/// The slot part of a native object id: its 1-based index and its generation.
#[derive(Copy, Clone, Debug, PartialEq, Eq, Structural, Hash, PartialOrd, Ord)]
pub struct RawKey {
    pub index1: i32,
    pub generation: u16,
}

/// Number of distinct generations; a key code is `(index1 + 2^31) * GENERATIONS + generation`.
pub const GENERATIONS: u64 = 65536;

/// Exclusive upper bound of every key code.
pub const KEY_CODE_LIMIT: u64 = 0x1_0000_0000_0000;

impl RawKey {
    pub fn new(index1: i32, generation: u16) -> (k: Self)
        ensures
            k.index1 == index1,
            k.generation == generation,
    {
        RawKey { index1, generation }
    }

    /// The integer under which this key is stored in hash tables.
    pub open spec fn code_spec(self) -> u64 {
        ((self.index1 + 2147483648int) * 65536 + self.generation) as u64
    }

    /// Encode this key as an integer; distinct keys get distinct codes.
    pub fn code(self) -> (c: u64)
        ensures
            c == self.code_spec(),
            c < KEY_CODE_LIMIT,
    {
        let shifted = (self.index1 as i64 + 2147483648i64) as u64;
        assert(0 <= shifted < 4294967296u64);
        assert(shifted * 65536 + self.generation < 0x1_0000_0000_0000) by (nonlinear_arith)
            requires
                0 <= shifted < 4294967296u64,
                self.generation < 65536,
        ;
        shifted * GENERATIONS + self.generation as u64
    }

    /// The key with code `c`.
    pub open spec fn decode_spec(c: u64) -> RawKey {
        RawKey {
            index1: ((c / 65536) as int - 2147483648int) as i32,
            generation: (c % 65536) as u16,
        }
    }

    /// Decode a key code produced by [`RawKey::code`].
    pub fn decode(c: u64) -> (k: RawKey)
        requires
            c < KEY_CODE_LIMIT,
        ensures
            k == Self::decode_spec(c),
            k.code_spec() == c,
    {
        let high = c / GENERATIONS;
        let low = c % GENERATIONS;
        assert(high < 4294967296u64) by (nonlinear_arith)
            requires
                high == c / 65536,
                c < 0x1_0000_0000_0000,
        ;
        assert(high * 65536 + low == c) by (nonlinear_arith)
            requires
                high == c / 65536,
                low == c % 65536,
        ;
        let index1 = (high as i64 - 2147483648i64) as i32;
        let generation = low as u16;
        RawKey { index1, generation }
    }

    /// Distinct keys have distinct codes, and decoding a code gives the key back.
    pub proof fn lemma_code_roundtrip(self)
        ensures
            Self::decode_spec(self.code_spec()) == self,
            self.code_spec() < KEY_CODE_LIMIT,
    {
        let shifted: int = self.index1 + 2147483648int;
        let g: int = self.generation as int;
        assert(0 <= shifted < 4294967296);
        assert(0 <= shifted * 65536 + g < 0x1_0000_0000_0000) by (nonlinear_arith)
            requires
                0 <= shifted < 4294967296,
                0 <= g < 65536,
        ;
        let c: int = shifted * 65536 + g;
        assert(c / 65536 == shifted && c % 65536 == g) by (nonlinear_arith)
            requires
                c == shifted * 65536 + g,
                0 <= g < 65536,
                0 <= shifted,
        ;
    }

    /// Key codes are injective.
    pub proof fn lemma_code_injective(a: RawKey, b: RawKey)
        ensures
            a.code_spec() == b.code_spec() <==> a == b,
    {
        a.lemma_code_roundtrip();
        b.lemma_code_roundtrip();
    }
}

/// A native object id (body, shape, joint or chain): slot, owning world slot and generation.
#[derive(Copy, Clone, Debug, PartialEq, Eq, Structural, Hash)]
pub struct RawId {
    pub index1: i32,
    pub world0: u16,
    pub generation: u16,
}

impl RawId {
    pub open spec fn key_spec(self) -> RawKey {
        RawKey { index1: self.index1, generation: self.generation }
    }

    /// The slot key of this id.
    pub fn key(self) -> (k: RawKey)
        ensures
            k == self.key_spec(),
    {
        RawKey { index1: self.index1, generation: self.generation }
    }

    /// The id of the object in slot `key` of world `world0`.
    pub open spec fn from_key_spec(key: RawKey, world0: u16) -> RawId {
        RawId { index1: key.index1, world0, generation: key.generation }
    }

    pub fn from_key(key: RawKey, world0: u16) -> (r: RawId)
        ensures
            r == Self::from_key_spec(key, world0),
    {
        RawId { index1: key.index1, world0, generation: key.generation }
    }
}

/// A native world id.
#[derive(Copy, Clone, Debug, PartialEq, Eq, Structural, Hash)]
pub struct RawWorldId {
    pub index1: u16,
    pub generation: u16,
}

/// Process-unique identity of one Rust-owned world.
#[derive(Copy, Clone, Debug, PartialEq, Eq, Structural, Hash)]
pub struct WorldToken {
    value: u64,
}

impl WorldToken {
    pub closed spec fn value_spec(self) -> u64 {
        self.value
    }

    /// A token with the given non-zero value.
    pub fn new(value: u64) -> (r: Option<WorldToken>)
        ensures
            r matches Some(t) <==> value != 0,
            r matches Some(t) ==> t.value_spec() == value,
    {
        if value == 0 {
            None
        } else {
            Some(WorldToken { value })
        }
    }

    pub fn value(self) -> (v: u64)
        ensures
            v == self.value_spec(),
    {
        self.value
    }
}

/// The brand of one world: its native world slot and its Rust token.
#[derive(Copy, Clone, Debug, PartialEq, Eq, Structural, Hash)]
pub struct IdBrand {
    world: RawWorldId,
    token: WorldToken,
}

impl IdBrand {
    pub closed spec fn world_spec(self) -> RawWorldId {
        self.world
    }

    pub closed spec fn token_spec(self) -> WorldToken {
        self.token
    }

    /// The `world0` value that native ids of this world carry.
    pub open spec fn world0_spec(self) -> u16 {
        if self.world_spec().index1 == 0 {
            0
        } else {
            (self.world_spec().index1 - 1) as u16
        }
    }

    /// Brand a native world; native world ids are 1-based, so index 0 is rejected.
    pub fn new(world: RawWorldId, token: WorldToken) -> (r: Result<IdBrand>)
        ensures
            r matches Ok(b) <==> world.index1 > 0,
            r matches Ok(b) ==> b.world_spec() == world && b.token_spec() == token,
            r matches Err(e) ==> e == Error::WorldCreationFailed,
    {
        if world.index1 == 0 {
            Err(Error::WorldCreationFailed)
        } else {
            Ok(IdBrand { world, token })
        }
    }

    pub fn world0(self) -> (w: u16)
        ensures
            w == self.world0_spec(),
    {
        if self.world.index1 == 0 {
            0u16
        } else {
            self.world.index1 - 1
        }
    }

    pub fn token(self) -> (t: WorldToken)
        ensures
            t == self.token_spec(),
    {
        self.token
    }

    /// Whether a native object id names a slot of this brand's world.
    pub open spec fn owns_raw(self, raw: RawId) -> bool {
        self.world_spec().index1 > 0 && raw.world0 == self.world0_spec()
    }

    /// Reject a native object id that belongs to another world.
    pub fn check_raw(self, raw: RawId) -> (r: Result<()>)
        ensures
            r is Ok <==> self.owns_raw(raw),
            r matches Err(e) ==> e == Error::WrongWorld,
    {
        if self.world.index1 > 0 && raw.world0 == self.world0() {
            Ok(())
        } else {
            Err(Error::WrongWorld)
        }
    }
}

/// A non-zero registration nonce; each registration of a world gets a fresh one.
#[derive(Copy, Clone, Debug, PartialEq, Eq, Structural, Hash, PartialOrd, Ord)]
pub struct RegistrationNonce {
    value: u64,
}

impl RegistrationNonce {
    pub closed spec fn value_spec(self) -> u64 {
        self.value
    }

    /// The nonce with the given value; zero is not a nonce.
    pub fn new(value: u64) -> (r: Result<RegistrationNonce>)
        ensures
            r matches Ok(n) <==> value != 0,
            r matches Ok(n) ==> n.value_spec() == value,
            r matches Err(e) ==> e == Error::ObjectIdentityExhausted,
    {
        if value == 0 {
            Err(Error::ObjectIdentityExhausted)
        } else {
            Ok(RegistrationNonce { value })
        }
    }

    pub(crate) fn from_positive(value: u64) -> (n: RegistrationNonce)
        requires
            value > 0,
        ensures
            n.value_spec() == value,
    {
        RegistrationNonce { value }
    }

    pub fn value(self) -> (v: u64)
        ensures
            v == self.value_spec(),
    {
        self.value
    }
}

/// A safe body id.
#[derive(Copy, Clone, Debug, PartialEq, Eq, Structural, Hash)]
pub struct BodyId {
    raw: RawId,
    brand: IdBrand,
    nonce: RegistrationNonce,
}

/// A safe shape id.
#[derive(Copy, Clone, Debug, PartialEq, Eq, Structural, Hash)]
pub struct ShapeId {
    raw: RawId,
    brand: IdBrand,
    nonce: RegistrationNonce,
}

/// A safe joint id.
#[derive(Copy, Clone, Debug, PartialEq, Eq, Structural, Hash)]
pub struct JointId {
    raw: RawId,
    brand: IdBrand,
    nonce: RegistrationNonce,
}

/// A safe chain id.
#[derive(Copy, Clone, Debug, PartialEq, Eq, Structural, Hash)]
pub struct ChainId {
    raw: RawId,
    brand: IdBrand,
    nonce: RegistrationNonce,
}

impl BodyId {
    pub closed spec fn raw_spec(self) -> RawId {
        self.raw
    }

    pub closed spec fn brand_spec(self) -> IdBrand {
        self.brand
    }

    pub closed spec fn nonce_spec(self) -> RegistrationNonce {
        self.nonce
    }

    pub(crate) fn issue(brand: IdBrand, raw: RawId, nonce: RegistrationNonce) -> (id: Self)
        ensures
            id.raw_spec() == raw,
            id.brand_spec() == brand,
            id.nonce_spec() == nonce,
    {
        BodyId { raw, brand, nonce }
    }

    pub fn into_raw(self) -> (r: RawId)
        ensures
            r == self.raw_spec(),
    {
        self.raw
    }

    pub fn brand(self) -> (b: IdBrand)
        ensures
            b == self.brand_spec(),
    {
        self.brand
    }

    pub fn registration_nonce(self) -> (n: RegistrationNonce)
        ensures
            n == self.nonce_spec(),
    {
        self.nonce
    }
}

impl ShapeId {
    pub closed spec fn raw_spec(self) -> RawId {
        self.raw
    }

    pub closed spec fn brand_spec(self) -> IdBrand {
        self.brand
    }

    pub closed spec fn nonce_spec(self) -> RegistrationNonce {
        self.nonce
    }

    pub(crate) fn issue(brand: IdBrand, raw: RawId, nonce: RegistrationNonce) -> (id: Self)
        ensures
            id.raw_spec() == raw,
            id.brand_spec() == brand,
            id.nonce_spec() == nonce,
    {
        ShapeId { raw, brand, nonce }
    }

    pub fn into_raw(self) -> (r: RawId)
        ensures
            r == self.raw_spec(),
    {
        self.raw
    }

    pub fn brand(self) -> (b: IdBrand)
        ensures
            b == self.brand_spec(),
    {
        self.brand
    }

    pub fn registration_nonce(self) -> (n: RegistrationNonce)
        ensures
            n == self.nonce_spec(),
    {
        self.nonce
    }
}

impl JointId {
    pub closed spec fn raw_spec(self) -> RawId {
        self.raw
    }

    pub closed spec fn brand_spec(self) -> IdBrand {
        self.brand
    }

    pub closed spec fn nonce_spec(self) -> RegistrationNonce {
        self.nonce
    }

    pub(crate) fn issue(brand: IdBrand, raw: RawId, nonce: RegistrationNonce) -> (id: Self)
        ensures
            id.raw_spec() == raw,
            id.brand_spec() == brand,
            id.nonce_spec() == nonce,
    {
        JointId { raw, brand, nonce }
    }

    pub fn into_raw(self) -> (r: RawId)
        ensures
            r == self.raw_spec(),
    {
        self.raw
    }

    pub fn brand(self) -> (b: IdBrand)
        ensures
            b == self.brand_spec(),
    {
        self.brand
    }

    pub fn registration_nonce(self) -> (n: RegistrationNonce)
        ensures
            n == self.nonce_spec(),
    {
        self.nonce
    }
}

impl ChainId {
    pub closed spec fn raw_spec(self) -> RawId {
        self.raw
    }

    pub closed spec fn brand_spec(self) -> IdBrand {
        self.brand
    }

    pub closed spec fn nonce_spec(self) -> RegistrationNonce {
        self.nonce
    }

    pub(crate) fn issue(brand: IdBrand, raw: RawId, nonce: RegistrationNonce) -> (id: Self)
        ensures
            id.raw_spec() == raw,
            id.brand_spec() == brand,
            id.nonce_spec() == nonce,
    {
        ChainId { raw, brand, nonce }
    }

    pub fn into_raw(self) -> (r: RawId)
        ensures
            r == self.raw_spec(),
    {
        self.raw
    }

    pub fn brand(self) -> (b: IdBrand)
        ensures
            b == self.brand_spec(),
    {
        self.brand
    }

    pub fn registration_nonce(self) -> (n: RegistrationNonce)
        ensures
            n == self.nonce_spec(),
    {
        self.nonce
    }
}

} // verus!
