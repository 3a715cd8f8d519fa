//! Identifiers of declarations.
//!
//! An identifier is eight lower-case hexadecimal digits: the upper half of
//! a 64-bit hash of the package key, the file, the declaration's name, its
//! first line and its kind tag. The hash is the standard library's default
//! hasher, fed the five values in that order. Two declarations may share an
//! identifier; the catalog decides what happens then.

use crate::text::{hex_fixed, push_hex};
use std::collections::hash_map::DefaultHasher;
use std::hash::{Hash, Hasher};
use vstd::prelude::*;
use vstd::std_specs::hash::DefaultHasherAdditionalSpecFns;

verus! {

/// What hashing the text `s` feeds to a hasher.
pub uninterp spec fn str_hash_writes(s: Seq<char>) -> Seq<Seq<u8>>;

/// What hashing the number `n` feeds to a hasher.
pub uninterp spec fn usize_hash_writes(n: usize) -> Seq<Seq<u8>>;

/// `<str as Hash>::hash`: feeds the hasher a run of writes that depends on
/// the text alone, after whatever the hasher was fed before.
#[verifier::external_body]
fn hash_str(s: &str, state: &mut DefaultHasher)
    ensures
        final(state)@ == old(state)@ + str_hash_writes(s@),
{
    s.hash(state)
}

/// `<usize as Hash>::hash`: feeds the hasher a run of writes that depends
/// on the number alone, after whatever the hasher was fed before.
#[verifier::external_body]
fn hash_usize(n: usize, state: &mut DefaultHasher)
    ensures
        final(state)@ == old(state)@ + usize_hash_writes(n),
{
    n.hash(state)
}

/// Everything the hasher is fed for one declaration.
pub open spec fn identity_stream(
    package: Seq<char>,
    file: Seq<char>,
    name: Seq<char>,
    line: usize,
    kind: Seq<char>,
) -> Seq<Seq<u8>> {
    str_hash_writes(package) + str_hash_writes(file) + str_hash_writes(name) + usize_hash_writes(
        line,
    ) + str_hash_writes(kind)
}

/// The 64-bit hash of one declaration.
pub open spec fn identity_hash(
    package: Seq<char>,
    file: Seq<char>,
    name: Seq<char>,
    line: usize,
    kind: Seq<char>,
) -> u64 {
    DefaultHasher::spec_finish(identity_stream(package, file, name, line, kind))
}

/// The identifier of one declaration: the upper 32 bits of its hash as
/// eight hexadecimal digits.
pub open spec fn identifier(
    package: Seq<char>,
    file: Seq<char>,
    name: Seq<char>,
    line: usize,
    kind: Seq<char>,
) -> Seq<char> {
    hex_fixed(identity_hash(package, file, name, line, kind) as nat / 0x1_0000_0000, 8)
}

/// A number written with a fixed count of digits has that many characters.
pub proof fn lemma_hex_fixed_len(n: nat, width: nat)
    ensures
        hex_fixed(n, width).len() == width,
    decreases width,
{
    if width > 0 {
        lemma_hex_fixed_len(n / 16, (width - 1) as nat);
    }
}

/// The identifier of the declaration `name` of kind `kind` that starts at
/// `line` of `file` in `package`. Equal inputs give equal identifiers.
pub fn generate_id(package: &str, file: &str, name: &str, line: usize, kind: &str) -> (r: String)
    ensures
        r@ == identifier(package@, file@, name@, line, kind@),
        r@.len() == 8,
{
    let mut hasher = DefaultHasher::new();
    hash_str(package, &mut hasher);
    hash_str(file, &mut hasher);
    hash_str(name, &mut hasher);
    hash_usize(line, &mut hasher);
    hash_str(kind, &mut hasher);
    assert(hasher@ =~= identity_stream(package@, file@, name@, line, kind@));
    let h = hasher.finish();
    let mut out = String::new();
    push_hex(&mut out, h / 0x1_0000_0000, 8);
    proof {
        lemma_hex_fixed_len(h as nat / 0x1_0000_0000, 8);
        assert(Seq::<char>::empty() + hex_fixed(h as nat / 0x1_0000_0000, 8) == hex_fixed(
            h as nat / 0x1_0000_0000,
            8,
        ));
    }
    out
}

} // verus!
