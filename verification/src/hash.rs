//! The structural hash of a node: 64-bit FNV-1a over the UTF-8 bytes of its
//! type, label and children's hashes, written in hexadecimal.
use vstd::prelude::*;
use vstd::utf8::encode_utf8;

use crate::node::SemanticNode;
use crate::text::push_char;

verus! {

pub const FNV_OFFSET_BASIS: u64 = 0xcbf29ce484222325u64;

pub const FNV_PRIME: u64 = 0x100000001b3u64;

/// The 64-bit FNV-1a hash of `bytes`.
pub open spec fn fnv1a(bytes: Seq<u8>) -> u64
    decreases bytes.len(),
{
    if bytes.len() == 0 {
        FNV_OFFSET_BASIS
    } else {
        let h = fnv1a(bytes.drop_last()) ^ (bytes.last() as u64);
        ((h as nat * FNV_PRIME as nat) % 0x1_0000_0000_0000_0000) as u64
    }
}

pub open spec fn hex_char(d: nat) -> char {
    if d < 10 {
        crate::text::digit_char(d)
    } else if d == 10 {
        'a'
    } else if d == 11 {
        'b'
    } else if d == 12 {
        'c'
    } else if d == 13 {
        'd'
    } else if d == 14 {
        'e'
    } else {
        'f'
    }
}

/// The `n` lowest hexadecimal digits of `h`, most significant first.
pub open spec fn hex_digits(h: nat, n: nat) -> Seq<char>
    decreases n,
{
    if n == 0 {
        seq![]
    } else {
        hex_digits(h / 16, (n - 1) as nat).push(hex_char(h % 16))
    }
}

/// `format!("{h:016x}")`: sixteen lowercase hexadecimal digits.
pub open spec fn hex16(h: u64) -> Seq<char> {
    hex_digits(h as nat, 16)
}

/// The text that is hashed for a node: its type, a colon, its label, and
/// then, for each child, a bar followed by that child's hash.
pub open spec fn hash_input(
    node_type: Seq<char>,
    label: Seq<char>,
    child_hashes: Seq<Seq<char>>,
) -> Seq<char>
    decreases child_hashes.len(),
{
    if child_hashes.len() == 0 {
        node_type + seq![':'] + label
    } else {
        hash_input(node_type, label, child_hashes.drop_last()).push('|') + child_hashes.last()
    }
}

/// The structural hash of a node: the FNV-1a hash of the UTF-8 bytes of its
/// hash input, in sixteen hexadecimal digits.
pub open spec fn structural_hash(
    node_type: Seq<char>,
    label: Seq<char>,
    child_hashes: Seq<Seq<char>>,
) -> Seq<char> {
    hex16(fnv1a(encode_utf8(hash_input(node_type, label, child_hashes))))
}

/// The structural hashes of a sequence of nodes.
pub open spec fn hashes_of(children: Seq<SemanticNode>) -> Seq<Seq<char>> {
    Seq::new(children.len(), |i: int| children[i].structural_hash@)
}

/// Appends the `n` lowest hexadecimal digits of `h` to `out`.
fn push_hex_digits(out: &mut String, h: u64, n: u32)
    ensures
        final(out)@ == old(out)@ + hex_digits(h as nat, n as nat),
    decreases n,
{
    if n > 0 {
        push_hex_digits(out, h / 16, n - 1);
        let d = h % 16;
        let c = if d == 0 { '0' }
            else if d == 1 { '1' }
            else if d == 2 { '2' }
            else if d == 3 { '3' }
            else if d == 4 { '4' }
            else if d == 5 { '5' }
            else if d == 6 { '6' }
            else if d == 7 { '7' }
            else if d == 8 { '8' }
            else if d == 9 { '9' }
            else if d == 10 { 'a' }
            else if d == 11 { 'b' }
            else if d == 12 { 'c' }
            else if d == 13 { 'd' }
            else if d == 14 { 'e' }
            else { 'f' };
        push_char(out, c);
        assert(final(out)@ =~= old(out)@ + hex_digits(h as nat, n as nat));
    } else {
        assert(final(out)@ =~= old(out)@ + hex_digits(h as nat, n as nat));
    }
}

/// The FNV-1a hash of `bytes`.
pub fn fnv1a_hash(bytes: &[u8]) -> (h: u64)
    ensures
        h == fnv1a(bytes@),
{
    let mut hash: u64 = FNV_OFFSET_BASIS;
    let mut i: usize = 0;
    assert(bytes@.take(0) =~= Seq::<u8>::empty());
    while i < bytes.len()
        invariant
            i <= bytes@.len(),
            hash == fnv1a(bytes@.take(i as int)),
        decreases bytes@.len() - i,
    {
        hash = hash ^ (bytes[i] as u64);
        hash = hash.wrapping_mul(FNV_PRIME);
        i = i + 1;
        assert(bytes@.take(i as int).drop_last() =~= bytes@.take(i - 1));
    }
    assert(bytes@.take(i as int) =~= bytes@);
    hash
}

/// The structural hash of a node with the given type, label and children.
pub fn stable_hash(node_type: &str, label: &str, children: &[SemanticNode]) -> (r: String)
    ensures
        r@ == structural_hash(node_type@, label@, hashes_of(children@)),
{
    let mut value = String::new();
    value.append(node_type);
    push_char(&mut value, ':');
    value.append(label);
    let mut i: usize = 0;
    assert(hashes_of(children@).take(0) =~= Seq::<Seq<char>>::empty());
    assert(value@ =~= node_type@ + seq![':'] + label@);
    while i < children.len()
        invariant
            i <= children@.len(),
            value@ == hash_input(node_type@, label@, hashes_of(children@).take(i as int)),
        decreases children@.len() - i,
    {
        push_char(&mut value, '|');
        value.append(children[i].structural_hash.as_str());
        i = i + 1;
        assert(hashes_of(children@).take(i as int).drop_last() =~= hashes_of(children@).take(
            i - 1,
        ));
        assert(value@ =~= hash_input(node_type@, label@, hashes_of(children@).take(i as int)));
    }
    assert(hashes_of(children@).take(i as int) =~= hashes_of(children@));
    let h = fnv1a_hash(value.as_str().as_bytes());
    let mut out = String::new();
    push_hex_digits(&mut out, h, 16);
    assert(out@ =~= hex16(h));
    reveal(structural_hash);
    out
}

} // verus!
