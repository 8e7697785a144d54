//! Exclusive ownership of sensitive bytes.  A [`Protected`] value hands its
//! contents out only through an explicit accessor, renders as `[REDACTED]`
//! wherever a boundary prints it, and erases its storage on demand; the
//! rest of the crate wipes every secret it owns before returning.

use vstd::prelude::*;

verus! {

/// Relies on zeroize::Zeroize::zeroize for Vec<u8>: zeroes every byte of
/// the allocation, including spare capacity, then clears the vector; the
/// write is one the compiler will not elide.
#[verifier::external_body]
fn wipe_vec(v: &mut Vec<u8>)
    ensures
        final(v)@.len() == 0,
{
    zeroize::Zeroize::zeroize(v);
}

/// Relies on zeroize::Zeroize::zeroize for String: zeroes the whole
/// allocation, then clears the string.
#[verifier::external_body]
fn wipe_string(s: &mut String)
    ensures
        final(s)@.len() == 0,
{
    zeroize::Zeroize::zeroize(s);
}

/// Relies on zeroize::Zeroize::zeroize for [u8; 32]: overwrites the array
/// with zeroes through a write the compiler will not elide.
#[verifier::external_body]
fn wipe_arr32(a: &mut [u8; 32])
    ensures
        final(a)@ =~= Seq::new(32, |i: int| 0u8),
{
    zeroize::Zeroize::zeroize(a);
}

/// Relies on zeroize::Zeroize::zeroize for [u8; 48]: overwrites the array
/// with zeroes through a write the compiler will not elide.
#[verifier::external_body]
fn wipe_arr48(a: &mut [u8; 48])
    ensures
        final(a)@ =~= Seq::new(48, |i: int| 0u8),
{
    zeroize::Zeroize::zeroize(a);
}

/// Sensitive storage that knows how to erase itself in place.
pub trait Zeroizable {
    /// The storage holds nothing readable any more: emptied, for
    /// growable containers, or all zero, for fixed arrays.
    spec fn spec_wiped(&self) -> bool;

    /// Overwrite the contents with zeroes.
    fn wipe(&mut self)
        ensures
            final(self).spec_wiped(),
    ;
}

impl Zeroizable for Vec<u8> {
    open spec fn spec_wiped(&self) -> bool {
        self@.len() == 0
    }

    fn wipe(&mut self) {
        wipe_vec(self);
    }
}

impl Zeroizable for String {
    open spec fn spec_wiped(&self) -> bool {
        self@.len() == 0
    }

    fn wipe(&mut self) {
        wipe_string(self);
    }
}

impl Zeroizable for [u8; 32] {
    open spec fn spec_wiped(&self) -> bool {
        forall|i: int| 0 <= i < 32 ==> self@[i] == 0
    }

    fn wipe(&mut self) {
        wipe_arr32(self);
    }
}

impl Zeroizable for [u8; 48] {
    open spec fn spec_wiped(&self) -> bool {
        forall|i: int| 0 <= i < 48 ==> self@[i] == 0
    }

    fn wipe(&mut self) {
        wipe_arr48(self);
    }
}

/// A wrapper that owns a sensitive value.
///
/// The value leaves the wrapper only through `expose` (borrowed) or
/// `into_inner` (moved); `wipe` erases it in place.  Every function of
/// this crate that consumes a wrapper wipes it before returning, on
/// success and on error alike.  The wrapper has no destructor of its
/// own, so a caller that drops one without calling `wipe` — or that
/// takes the value out with `into_inner` — owns the erasure duty.
pub struct Protected<T: Zeroizable> {
    data: T,
}

impl<T: Zeroizable> Protected<T> {
    /// The wrapped value.
    pub closed spec fn spec_inner(&self) -> T {
        self.data
    }

    /// Wraps a sensitive value.
    pub fn new(value: T) -> (r: Self)
        ensures
            r.spec_inner() == value,
    {
        Protected { data: value }
    }

    /// Grants read access to the wrapped value.
    pub fn expose(&self) -> (r: &T)
        ensures
            *r == self.spec_inner(),
    {
        &self.data
    }

    /// Consumes the wrapper and hands the value back to the caller, who
    /// becomes responsible for erasing it.
    pub fn into_inner(self) -> (r: T)
        ensures
            r == self.spec_inner(),
    {
        self.data
    }

    /// Overwrites the wrapped value with zeroes in place.
    pub fn wipe(&mut self)
        ensures
            final(self).spec_inner().spec_wiped(),
    {
        self.data.wipe();
    }

    /// What any debug rendering of the wrapper shows in place of the value.
    pub fn redacted(&self) -> (r: &'static str)
        ensures
            r@ == "[REDACTED]"@,
    {
        "[REDACTED]"
    }
}

impl Clone for Protected<Vec<u8>> {
    /// An independent, equally protected copy of the secret bytes.
    fn clone(&self) -> (r: Self)
        ensures
            r.spec_inner()@ == self.spec_inner()@,
    {
        Protected { data: clone_bytes(&self.data) }
    }
}

/// Wraps a copy of the given bytes.
pub fn protected_bytes(data: &[u8]) -> (r: Protected<Vec<u8>>)
    ensures
        r.spec_inner()@ == data@,
{
    let mut copy: Vec<u8> = Vec::new();
    let mut i: usize = 0;
    while i < data.len()
        invariant
            i <= data@.len(),
            copy@ == data@.subrange(0, i as int),
        decreases data@.len() - i,
    {
        copy.push(data[i]);
        i = i + 1;
    }
    proof {
        assert(copy@ =~= data@);
    }
    Protected::new(copy)
}

/// Wraps a copy of the given string.
pub fn protected_string(data: &str) -> (r: Protected<String>)
    ensures
        r.spec_inner()@ == data@,
{
    Protected::new(data.to_owned())
}

/// A byte-for-byte copy of a vector.
pub(crate) fn clone_bytes(v: &Vec<u8>) -> (r: Vec<u8>)
    ensures
        r@ == v@,
{
    let mut out: Vec<u8> = Vec::new();
    let mut i: usize = 0;
    while i < v.len()
        invariant
            i <= v@.len(),
            out@ == v@.subrange(0, i as int),
        decreases v@.len() - i,
    {
        out.push(v[i]);
        i = i + 1;
    }
    proof {
        assert(out@ =~= v@);
    }
    out
}

} // verus!
