//! Handles and the key strategies that mint them.
//!
//! A raw key is a 128-bit value, read big-endian from 16 bytes. The spec
//! functions here say how each [`Key`] variant derives its raw key, and
//! [`Id`] wraps a raw key together with a compile-time type tag.

use crate::map::ErgoMap;
use core::marker::PhantomData;
use std::hash::BuildHasher;
use vstd::prelude::*;
use vstd::std_specs::hash::builds_valid_hashers;

verus! {

/// How many random draws to attempt before falling back to a sweep of
/// small raw keys. Collisions at 128-bit width are astronomically unlikely,
/// so the cap is purely a defensive bound on the retry loop.
const RANDOM_RETRIES: usize = 64;

/// How many raw keys fit in `n` bytes: 256 to the power `n`.
pub open spec fn pow256(n: nat) -> nat
    decreases n,
{
    if n == 0 {
        1
    } else {
        256 * pow256((n - 1) as nat)
    }
}

/// The value of a byte sequence read as a big-endian integer.
pub open spec fn raw_key_nat(b: Seq<u8>) -> nat
    decreases b.len(),
{
    if b.len() == 0 {
        0
    } else {
        (raw_key_nat(b.drop_last()) * 256 + b.last()) as nat
    }
}

/// Bytes adjusted to the raw key width: truncated to 16 bytes if longer,
/// zero-padded on the right if shorter.
pub open spec fn padded16(b: Seq<u8>) -> Seq<u8> {
    if b.len() >= 16 {
        b.take(16)
    } else {
        b + Seq::new((16 - b.len()) as nat, |i: int| 0u8)
    }
}

/// The raw key held by 16 bytes, read big-endian.
pub open spec fn raw_of_16(b: Seq<u8>) -> u128
    recommends
        b.len() == 16,
{
    raw_key_nat(b) as u128
}

proof fn lemma_pow256_pos(n: nat)
    ensures
        pow256(n) >= 1,
    decreases n,
{
    if n > 0 {
        lemma_pow256_pos((n - 1) as nat);
    }
}

proof fn lemma_pow256_mono(m: nat, n: nat)
    requires
        m <= n,
    ensures
        pow256(m) <= pow256(n),
    decreases n,
{
    if m < n {
        lemma_pow256_mono(m, (n - 1) as nat);
        lemma_pow256_pos((n - 1) as nat);
    }
}

proof fn lemma_pow256_16()
    ensures
        pow256(16) == 0x1_0000_0000_0000_0000_0000_0000_0000_0000nat,
{
    reveal_with_fuel(pow256, 17);
}

proof fn lemma_raw_key_nat_bound(b: Seq<u8>)
    ensures
        raw_key_nat(b) < pow256(b.len()),
    decreases b.len(),
{
    if b.len() != 0 {
        lemma_raw_key_nat_bound(b.drop_last());
    }
}

/// Reads bytes as a big-endian raw key, truncating past the sixteenth byte
/// and treating missing bytes as zero.
fn raw_key_of_bytes(bytes: &[u8]) -> (r: u128)
    ensures
        r == raw_of_16(padded16(bytes@)),
{
    let ghost pb: Seq<u8> = padded16(bytes@);
    proof {
        assert(pb.len() == 16);
    }
    let mut r: u128 = 0;
    let mut i: usize = 0;
    while i < 16
        invariant
            i <= 16,
            pb == padded16(bytes@),
            pb.len() == 16,
            r == raw_key_nat(pb.take(i as int)),
        decreases 16 - i,
    {
        let b: u8 = if i < bytes.len() {
            bytes[i]
        } else {
            0
        };
        proof {
            assert(b == pb[i as int]);
            lemma_raw_key_nat_bound(pb.take(i as int));
            lemma_pow256_mono(i as nat, 15);
            lemma_pow256_16();
            assert(pow256(16) == 256 * pow256(15));
            assert(pb.take(i as int + 1).drop_last() =~= pb.take(i as int));
            assert(pb.take(i as int + 1).last() == pb[i as int]);
        }
        r = r * 256 + (b as u128);
        i = i + 1;
    }
    proof {
        assert(pb.take(16) =~= pb);
    }
    r
}

/// Relies on rand::random: draws a value from the thread-local generator.
/// Nothing can be promised of a random value, so there is no `ensures`.
pub assume_specification<T>[ rand::random::<T> ]() -> (r: T)
    where
        rand::distr::StandardUniform: rand::distr::Distribution<T>,
;

/// How an [`Id`]'s raw key is derived.
///
/// Constructors other than [`Key::Random`] derive the same raw key on every
/// execution and platform, so they suit values that must be re-inserted
/// idempotently.
pub enum Key {
    /// Draws a fresh 128-bit raw key from a random source.
    Random,
    /// Uses a 128-bit integer as the raw key.
    Value(u128),
    /// Uses 16 bytes, read big-endian, as the raw key.
    Array([u8; 16]),
    /// Uses the UTF-8 bytes of a string, truncated to 16 bytes if longer and
    /// zero-padded on the right if shorter. Strings that agree on their first
    /// 16 UTF-8 bytes, or differ only where the padding sits, collide by
    /// design.
    Str(String),
}

impl Key {
    /// The raw key this strategy determines, if it determines one:
    /// [`Key::Random`] leaves the choice to the random source.
    pub open spec fn derived(self) -> Option<u128> {
        match self {
            Key::Random => None,
            Key::Value(v) => Some(v),
            Key::Array(a) => Some(raw_of_16(a@)),
            Key::Str(s) => Some(raw_of_16(padded16(vstd::utf8::encode_utf8(s@)))),
        }
    }
}

/// An opaque handle to one value stored in an [`ErgoMap`](crate::map::ErgoMap).
///
/// A handle holds a raw 128-bit key plus a compile-time type tag that never
/// exists at run time; two handles are equal exactly when their raw keys are
/// equal. Handles have no public constructor: they are minted by the map, so
/// a key that was never stored cannot be written down. A handle stays
/// copyable after its entry is removed, but then no longer resolves.
#[derive(Debug, Hash)]
pub struct Id<T> {
    pub(crate) key: u128,
    pub(crate) tag: PhantomData<T>,
}

impl<T> View for Id<T> {
    type V = u128;

    /// A handle is abstractly its raw key.
    closed spec fn view(&self) -> u128 {
        self.key
    }
}

impl<T> PartialEq for Id<T> {
    fn eq(&self, other: &Self) -> bool {
        self.key == other.key
    }
}

impl<T> Eq for Id<T> {}

impl<T> vstd::std_specs::cmp::PartialEqSpecImpl for Id<T> {
    open spec fn obeys_eq_spec() -> bool {
        true
    }

    open spec fn eq_spec(&self, other: &Self) -> bool {
        self@ == other@
    }
}

impl<T> Clone for Id<T> {
    /// Copying a handle is a plain value copy with no effect on any map.
    fn clone(&self) -> (r: Self)
        ensures
            r == *self,
    {
        Id { key: self.key, tag: PhantomData }
    }
}

impl<T> Copy for Id<T> {}

impl<T> Id<T> {
    /// The handle carrying the given raw key, as a specification value.
    pub closed spec fn spec_from_raw(raw: u128) -> Id<T> {
        Id { key: raw, tag: PhantomData }
    }

    /// Two handles are equal exactly when their raw keys are equal: the type
    /// tag has no run-time representation and plays no part in equality.
    pub proof fn lemma_eq_iff_raw_eq(a: Id<T>, b: Id<T>)
        ensures
            (a == b) <==> (a@ == b@),
    {
    }

    /// The handle carrying a given raw key has that raw key as its view.
    pub broadcast proof fn lemma_spec_from_raw_view(raw: u128)
        ensures
            (#[trigger] Id::<T>::spec_from_raw(raw))@ == raw,
    {
    }

    pub(crate) fn raw(&self) -> (r: u128)
        ensures
            r == self@,
    {
        self.key
    }

    pub(crate) fn from_raw(raw: u128) -> (id: Self)
        ensures
            id@ == raw,
            id == Id::<T>::spec_from_raw(raw),
    {
        Id { key: raw, tag: PhantomData }
    }

    /// Mints a handle whose raw key the given strategy derives; a
    /// [`Key::Random`] strategy draws the key from the random source instead.
    pub(crate) fn new(key: Key) -> (id: Self)
        ensures
            match key.derived() {
                Some(raw) => id@ == raw,
                None => true,
            },
    {
        let raw: u128 = match key {
            Key::Random => rand::random::<u128>(),
            Key::Value(v) => v,
            Key::Array(a) => {
                let r = raw_key_of_bytes(a.as_slice());
                proof {
                    assert(padded16(a@) =~= a@);
                }
                r
            },
            Key::Str(s) => raw_key_of_bytes(s.as_str().as_bytes()),
        };
        Id { key: raw, tag: PhantomData }
    }
}

/// A map whose keys all lie below `c` holds at least `c` entries.
proof fn lemma_prefix_in_dom<T>(m: Map<u128, T>, c: u128)
    requires
        m.dom().finite(),
        forall|k: u128| k < c ==> m.contains_key(k),
    ensures
        m.dom().len() >= c,
    decreases c,
{
    if c > 0 {
        let last: u128 = (c - 1) as u128;
        let m2 = m.remove(last);
        assert forall|k: u128| k < last implies m2.contains_key(k) by {
            assert(m.contains_key(k));
        }
        lemma_prefix_in_dom(m2, last);
        assert(m.contains_key(last));
        assert(m.dom().len() == m2.dom().len() + 1);
    }
}

impl<T> Id<T> {
    /// Mints a handle that the given map does not currently use: random
    /// draws first and, should those all collide, a sweep of small raw
    /// keys. The sweep tries one more key than the map holds entries, so
    /// it always reaches a free one.
    pub(crate) fn new_for<S: BuildHasher>(map: &ErgoMap<T, S>) -> (id: Self)
        ensures
            builds_valid_hashers::<S>() && map@.dom().finite() ==> !map@.contains_key(id@),
    {
        let mut tries: usize = 0;
        while tries < RANDOM_RETRIES
            invariant
                tries <= RANDOM_RETRIES,
            decreases RANDOM_RETRIES - tries,
        {
            let id = Id::new(Key::Random);
            if !map.contains_id(&id) {
                return id;
            }
            tries = tries + 1;
        }
        let n: usize = map.len();
        let bound: u128 = n as u128;
        let mut c: u128 = 0;
        while c <= bound
            invariant
                bound == n as u128,
                c <= bound + 1,
                builds_valid_hashers::<S>() ==> n == map@.len(),
                builds_valid_hashers::<S>() ==> forall|k: u128| k < c ==> map@.contains_key(k),
            decreases bound + 1 - c,
        {
            let id = Id::from_raw(c);
            if !map.contains_id(&id) {
                return id;
            }
            c = c + 1;
        }
        proof {
            if builds_valid_hashers::<S>() && map@.dom().finite() {
                lemma_prefix_in_dom(map@, (bound + 1) as u128);
                assert(false);
            }
        }
        Id::from_raw(0)
    }
}

/// Values that derive their own [`Key`] from their content, so that the same
/// value yields the same handle across executions and platforms.
pub trait BuildId {
    /// The raw key this value's [`Key`] determines, if it determines one.
    spec fn key_spec(&self) -> Option<u128>;

    /// Returns the [`Key`] used to make an [`Id`] for this value.
    ///
    /// The returned key should be unique among the values entered into one
    /// map, and constant across executions and platforms.
    fn get_key(&self) -> (k: Key)
        ensures
            k.derived() == self.key_spec(),
    ;
}

} // verus!
