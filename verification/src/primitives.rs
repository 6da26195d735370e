//! Value types of the engine: 256-bit integers, hashes, addresses, bytecode,
//! logs, and account headers.

use vstd::prelude::*;
use tiny_keccak::Hasher;

verus! {

/// 2^256, the first value a 256-bit integer cannot hold.
pub open spec fn pow256() -> int {
    0x10000000000000000000000000000000000000000000000000000000000000000int
}

/// A 256-bit unsigned integer, stored as four 64-bit limbs, least significant
/// first.
#[derive(Clone, Copy, Debug, PartialEq, Eq, Structural, Hash)]
pub struct U256 {
    pub l0: u64,
    pub l1: u64,
    pub l2: u64,
    pub l3: u64,
}

impl U256 {
    /// The value this integer holds.
    pub open spec fn as_nat(self) -> nat {
        (self.l0 + self.l1 * 0x10000000000000000int
            + self.l2 * 0x100000000000000000000000000000000int
            + self.l3 * 0x1000000000000000000000000000000000000000000000000int) as nat
    }

    /// The zero value.
    pub fn zero() -> (r: U256)
        ensures
            r.as_nat() == 0,
    {
        U256 { l0: 0, l1: 0, l2: 0, l3: 0 }
    }

    /// The 256-bit value of a 64-bit integer.
    pub fn from_u64(v: u64) -> (r: U256)
        ensures
            r.as_nat() == v,
    {
        U256 { l0: v, l1: 0, l2: 0, l3: 0 }
    }

    /// The 256-bit value of a 128-bit integer.
    pub fn from_u128(v: u128) -> (r: U256)
        ensures
            r.as_nat() == v,
    {
        let lo = (v % 0x10000000000000000u128) as u64;
        let hi = (v / 0x10000000000000000u128) as u64;
        U256 { l0: lo, l1: hi, l2: 0, l3: 0 }
    }

    /// Whether this integer is zero.
    pub fn is_zero(&self) -> (r: bool)
        ensures
            r == (self.as_nat() == 0),
    {
        self.l0 == 0 && self.l1 == 0 && self.l2 == 0 && self.l3 == 0
    }

    /// Whether this integer is strictly below `other`.
    pub fn lt(&self, other: &U256) -> (r: bool)
        ensures
            r == (self.as_nat() < other.as_nat()),
    {
        if self.l3 != other.l3 {
            self.l3 < other.l3
        } else if self.l2 != other.l2 {
            self.l2 < other.l2
        } else if self.l1 != other.l1 {
            self.l1 < other.l1
        } else {
            self.l0 < other.l0
        }
    }

    /// The sum of the two integers, or nothing if it does not fit in 256
    /// bits.
    pub fn checked_add(self, rhs: U256) -> (r: Option<U256>)
        ensures
            match r {
                Some(v) => v.as_nat() == self.as_nat() + rhs.as_nat(),
                None => self.as_nat() + rhs.as_nat() >= pow256(),
            },
    {
        let s0: u128 = self.l0 as u128 + rhs.l0 as u128;
        let d0: u64 = (s0 % 0x10000000000000000u128) as u64;
        let c0: u64 = (s0 / 0x10000000000000000u128) as u64;
        let s1: u128 = self.l1 as u128 + rhs.l1 as u128 + c0 as u128;
        let d1: u64 = (s1 % 0x10000000000000000u128) as u64;
        let c1: u64 = (s1 / 0x10000000000000000u128) as u64;
        let s2: u128 = self.l2 as u128 + rhs.l2 as u128 + c1 as u128;
        let d2: u64 = (s2 % 0x10000000000000000u128) as u64;
        let c2: u64 = (s2 / 0x10000000000000000u128) as u64;
        let s3: u128 = self.l3 as u128 + rhs.l3 as u128 + c2 as u128;
        let d3: u64 = (s3 % 0x10000000000000000u128) as u64;
        let c3: u64 = (s3 / 0x10000000000000000u128) as u64;
        if c3 == 0 {
            Some(U256 { l0: d0, l1: d1, l2: d2, l3: d3 })
        } else {
            None
        }
    }

    /// The difference of the two integers, or nothing if `rhs` is larger
    /// than `self`.
    pub fn checked_sub(self, rhs: U256) -> (r: Option<U256>)
        ensures
            match r {
                Some(v) => {
                    &&& self.as_nat() >= rhs.as_nat()
                    &&& v.as_nat() == self.as_nat() - rhs.as_nat()
                },
                None => self.as_nat() < rhs.as_nat(),
            },
    {
        let m: u128 = 0x10000000000000000u128;
        let s0: u128 = m + self.l0 as u128 - rhs.l0 as u128;
        let d0: u64 = (s0 % m) as u64;
        let b0: u64 = 1 - (s0 / m) as u64;
        let s1: u128 = m + self.l1 as u128 - rhs.l1 as u128 - b0 as u128;
        let d1: u64 = (s1 % m) as u64;
        let b1: u64 = 1 - (s1 / m) as u64;
        let s2: u128 = m + self.l2 as u128 - rhs.l2 as u128 - b1 as u128;
        let d2: u64 = (s2 % m) as u64;
        let b2: u64 = 1 - (s2 / m) as u64;
        let s3: u128 = m + self.l3 as u128 - rhs.l3 as u128 - b2 as u128;
        let d3: u64 = (s3 % m) as u64;
        let b3: u64 = 1 - (s3 / m) as u64;
        if b3 == 0 {
            Some(U256 { l0: d0, l1: d1, l2: d2, l3: d3 })
        } else {
            None
        }
    }
}

/// The sum of two values, modulo 2^256.
pub open spec fn wrap_add256(a: int, b: int) -> int {
    (a + b) % pow256()
}

/// The difference of two values, modulo 2^256.
pub open spec fn wrap_sub256(a: int, b: int) -> int {
    (a - b) % pow256()
}

impl U256 {
    /// The sum of the two integers, modulo 2^256.
    pub fn wrapping_add(self, rhs: U256) -> (r: U256)
        ensures
            r.as_nat() as int == wrap_add256(self.as_nat() as int, rhs.as_nat() as int),
    {
        let s0: u128 = self.l0 as u128 + rhs.l0 as u128;
        let d0: u64 = (s0 % 0x10000000000000000u128) as u64;
        let c0: u64 = (s0 / 0x10000000000000000u128) as u64;
        let s1: u128 = self.l1 as u128 + rhs.l1 as u128 + c0 as u128;
        let d1: u64 = (s1 % 0x10000000000000000u128) as u64;
        let c1: u64 = (s1 / 0x10000000000000000u128) as u64;
        let s2: u128 = self.l2 as u128 + rhs.l2 as u128 + c1 as u128;
        let d2: u64 = (s2 % 0x10000000000000000u128) as u64;
        let c2: u64 = (s2 / 0x10000000000000000u128) as u64;
        let s3: u128 = self.l3 as u128 + rhs.l3 as u128 + c2 as u128;
        let d3: u64 = (s3 % 0x10000000000000000u128) as u64;
        let c3: u64 = (s3 / 0x10000000000000000u128) as u64;
        let r = U256 { l0: d0, l1: d1, l2: d2, l3: d3 };
        proof {
            vstd::arithmetic::div_mod::lemma_fundamental_div_mod_converse(
                self.as_nat() as int + rhs.as_nat() as int,
                pow256(),
                c3 as int,
                r.as_nat() as int,
            );
        }
        r
    }

    /// The difference of the two integers, modulo 2^256.
    pub fn wrapping_sub(self, rhs: U256) -> (r: U256)
        ensures
            r.as_nat() as int == wrap_sub256(self.as_nat() as int, rhs.as_nat() as int),
    {
        let m: u128 = 0x10000000000000000u128;
        let s0: u128 = m + self.l0 as u128 - rhs.l0 as u128;
        let d0: u64 = (s0 % m) as u64;
        let b0: u64 = 1 - (s0 / m) as u64;
        let s1: u128 = m + self.l1 as u128 - rhs.l1 as u128 - b0 as u128;
        let d1: u64 = (s1 % m) as u64;
        let b1: u64 = 1 - (s1 / m) as u64;
        let s2: u128 = m + self.l2 as u128 - rhs.l2 as u128 - b1 as u128;
        let d2: u64 = (s2 % m) as u64;
        let b2: u64 = 1 - (s2 / m) as u64;
        let s3: u128 = m + self.l3 as u128 - rhs.l3 as u128 - b2 as u128;
        let d3: u64 = (s3 % m) as u64;
        let b3: u64 = 1 - (s3 / m) as u64;
        let r = U256 { l0: d0, l1: d1, l2: d2, l3: d3 };
        proof {
            vstd::arithmetic::div_mod::lemma_fundamental_div_mod_converse(
                self.as_nat() as int - rhs.as_nat() as int,
                pow256(),
                -(b3 as int),
                r.as_nat() as int,
            );
        }
        r
    }
}

/// A 32-byte word, stored as two 128-bit halves, most significant first.
#[derive(Clone, Copy, Debug, PartialEq, Eq, Structural, Hash)]
pub struct B256 {
    pub hi: u128,
    pub lo: u128,
}

impl B256 {
    /// The all-zero word.
    pub fn zero() -> (r: B256)
        ensures
            r == (B256 { hi: 0, lo: 0 }),
    {
        B256 { hi: 0, lo: 0 }
    }
}

impl Default for B256 {
    /// The default word is all zero.
    fn default() -> (r: Self)
        ensures
            r == (B256 { hi: 0, lo: 0 }),
    {
        B256 { hi: 0, lo: 0 }
    }
}

/// The Keccak-256 hash of the empty byte string: the code hash of every
/// account without code.
pub open spec fn keccak_empty_spec() -> B256 {
    B256 { hi: 0xc5d2460186f7233c927e7db2dcc703c0u128, lo: 0xe500b653ca82273b7bfad8045d85a470u128 }
}

/// The Keccak-256 hash of the empty byte string.
pub fn keccak_empty() -> (r: B256)
    ensures
        r == keccak_empty_spec(),
{
    B256 { hi: 0xc5d2460186f7233c927e7db2dcc703c0u128, lo: 0xe500b653ca82273b7bfad8045d85a470u128 }
}

/// The Keccak-256 digest of a byte string; it depends on the bytes alone.
pub uninterp spec fn keccak_of(data: Seq<u8>) -> B256;

/// Relies on tiny_keccak's Keccak-256 (`Keccak::v256`, `update`, `finalize`):
/// the digest is a function of the input bytes alone, and the digest of the
/// empty string is the well-known empty hash.
#[verifier::external_body]
pub fn keccak256(data: &[u8]) -> (r: B256)
    ensures
        r == keccak_of(data@),
        data@.len() == 0 ==> r == keccak_empty_spec(),
{
    let mut hasher = tiny_keccak::Keccak::v256();
    hasher.update(data);
    let mut out = [0u8; 32];
    hasher.finalize(&mut out);
    let hi = u128::from_be_bytes(out[0..16].try_into().unwrap());
    let lo = u128::from_be_bytes(out[16..32].try_into().unwrap());
    B256 { hi, lo }
}

/// A 20-byte account address, stored as the 4 most significant bytes and the
/// 16 least significant bytes.
#[derive(Clone, Copy, Debug, PartialEq, Eq, Structural, Hash)]
pub struct Address {
    pub hi: u32,
    pub lo: u128,
}

impl Address {
    /// The address with the given most and least significant parts.
    pub fn new(hi: u32, lo: u128) -> (r: Address)
        ensures
            r == (Address { hi, lo }),
    {
        Address { hi, lo }
    }

    /// The all-zero address.
    pub fn zero() -> (r: Address)
        ensures
            r == (Address { hi: 0, lo: 0 }),
    {
        Address { hi: 0, lo: 0 }
    }
}

/// A copy of a byte vector.
pub fn copy_bytes(v: &Vec<u8>) -> (r: Vec<u8>)
    ensures
        r@ == v@,
{
    let mut out: Vec<u8> = Vec::new();
    let mut i: usize = 0;
    while i < v.len()
        invariant
            i <= v@.len(),
            out@ == v@.subrange(0, i as int),
        decreases v@.len() - i,
    {
        out.push(v[i]);
        i += 1;
    }
    proof {
        assert(out@ =~= v@);
    }
    out
}

/// Deployed contract code.
#[derive(Clone, Debug, PartialEq, Eq, Hash)]
pub struct Bytecode {
    pub bytes: Vec<u8>,
}

impl View for Bytecode {
    type V = Seq<u8>;

    open spec fn view(&self) -> Seq<u8> {
        self.bytes@
    }
}

impl Bytecode {
    /// Empty code.
    pub fn new() -> (r: Bytecode)
        ensures
            r@ == Seq::<u8>::empty(),
            r@.len() == 0,
    {
        let r = Bytecode { bytes: Vec::new() };
        proof {
            assert(r@ =~= Seq::<u8>::empty());
        }
        r
    }

    /// Code made of the given bytes.
    pub fn new_raw(bytes: Vec<u8>) -> (r: Bytecode)
        ensures
            r@ == bytes@,
    {
        Bytecode { bytes }
    }

    /// Whether the code is empty.
    pub fn is_empty(&self) -> (r: bool)
        ensures
            r == (self@.len() == 0),
    {
        self.bytes.len() == 0
    }

    /// Number of bytes of code.
    pub fn len(&self) -> (r: usize)
        ensures
            r == self@.len(),
    {
        self.bytes.len()
    }

    /// A copy of this code.
    pub fn duplicate(&self) -> (r: Bytecode)
        ensures
            r@ == self@,
    {
        Bytecode { bytes: copy_bytes(&self.bytes) }
    }

    /// The Keccak-256 hash of the code; empty code hashes to the well-known
    /// empty hash.
    pub fn hash_slow(&self) -> (r: B256)
        ensures
            r == keccak_of(self@),
            self@.len() == 0 ==> r == keccak_empty_spec(),
    {
        keccak256(self.bytes.as_slice())
    }
}

/// An account header: balance, nonce, code hash, and optionally the cached
/// code itself.
#[derive(Clone, Debug, PartialEq, Eq, Hash)]
pub struct AccountInfo {
    pub balance: U256,
    pub nonce: u64,
    pub code_hash: B256,
    pub code: Option<Bytecode>,
}

impl AccountInfo {
    /// The header of an account that holds nothing and has no code.
    pub fn empty() -> (r: AccountInfo)
        ensures
            r.balance.as_nat() == 0,
            r.nonce == 0,
            r.code_hash == keccak_empty_spec(),
            r.code matches Some(c) && c@ == Seq::<u8>::empty(),
    {
        AccountInfo {
            balance: U256::zero(),
            nonce: 0,
            code_hash: keccak_empty(),
            code: Some(Bytecode::new()),
        }
    }

    /// A copy of this header.
    pub fn duplicate(&self) -> (r: AccountInfo)
        ensures
            r.balance == self.balance,
            r.nonce == self.nonce,
            r.code_hash == self.code_hash,
            r.code is Some <==> self.code is Some,
            r.code matches Some(c) ==> self.code matches Some(sc) && c@ == sc@,
    {
        AccountInfo {
            balance: self.balance,
            nonce: self.nonce,
            code_hash: self.code_hash,
            code: match &self.code {
                Some(c) => Some(c.duplicate()),
                None => None,
            },
        }
    }
}

/// A log record emitted during execution.
#[derive(Clone, Debug, PartialEq, Eq, Hash)]
pub struct Log {
    pub address: Address,
    pub topics: Vec<B256>,
    pub data: Vec<u8>,
}

} // verus!
