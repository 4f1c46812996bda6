//! Text forms of iroh endpoint ids (ed25519 public keys, 32 bytes): the lower-case hex that
//! `PublicKey`'s `Display` writes, and the z-base-32 form users exchange to join each other.
use vstd::prelude::*;
use vstd::string::StringSliceAdditionalSpecFns;

verus! {

/// The lower-case hexadecimal digit of a nibble.
pub open spec fn hex_digit(n: u8) -> char
    recommends
        n < 16,
{
    if n < 10 {
        (48 + n) as char
    } else {
        (87 + n) as char
    }
}

/// Lower-case hexadecimal text of a byte string: two digits per byte, high nibble first.
pub open spec fn hex_lower(b: Seq<u8>) -> Seq<char>
    decreases b.len(),
{
    if b.len() == 0 {
        Seq::empty()
    } else {
        hex_lower(b.drop_last()) + seq![hex_digit(b.last() / 16), hex_digit(b.last() % 16)]
    }
}

/// The text of one hexadecimal digit.
fn hex_digit_str(n: u8) -> (s: &'static str)
    requires
        n < 16,
    ensures
        s@ == seq![hex_digit(n)],
{
    proof {
        reveal_strlit("0");
        reveal_strlit("1");
        reveal_strlit("2");
        reveal_strlit("3");
        reveal_strlit("4");
        reveal_strlit("5");
        reveal_strlit("6");
        reveal_strlit("7");
        reveal_strlit("8");
        reveal_strlit("9");
        reveal_strlit("a");
        reveal_strlit("b");
        reveal_strlit("c");
        reveal_strlit("d");
        reveal_strlit("e");
        reveal_strlit("f");
    }
    match n {
        0 => "0",
        1 => "1",
        2 => "2",
        3 => "3",
        4 => "4",
        5 => "5",
        6 => "6",
        7 => "7",
        8 => "8",
        9 => "9",
        10 => "a",
        11 => "b",
        12 => "c",
        13 => "d",
        14 => "e",
        _ => "f",
    }
}

/// Lower-case hexadecimal text of a byte string.
pub fn hex_encode(bytes: &[u8]) -> (s: String)
    ensures
        s@ == hex_lower(bytes@),
{
    let mut out = String::new();
    let mut i: usize = 0;
    while i < bytes.len()
        invariant
            i <= bytes@.len(),
            out@ == hex_lower(bytes@.take(i as int)),
        decreases bytes@.len() - i,
    {
        let b = bytes[i];
        out.append(hex_digit_str(b / 16));
        out.append(hex_digit_str(b % 16));
        proof {
            assert(bytes@.take(i as int + 1).drop_last() =~= bytes@.take(i as int));
            assert(bytes@.take(i as int + 1).last() == b);
        }
        i = i + 1;
    }
    proof {
        assert(bytes@.take(bytes@.len() as int) =~= bytes@);
    }
    out
}

/// How an endpoint's public key is displayed: `PublicKey`'s `Display` writes the lower-case
/// hex of its 32 bytes.
pub fn public_key_hex(key: &[u8; 32]) -> (s: String)
    ensures
        s@ == hex_lower(key@),
{
    hex_encode(key)
}

/// The bytes of the endpoint id that a z-base-32 text names, as iroh's
/// `PublicKey::from_z32` finds them (`None` when the text is no valid key).
pub uninterp spec fn z32_endpoint_id(text: Seq<char>) -> Option<Seq<u8>>;

/// Whether iroh's `PublicKey::from_bytes` takes the 32 bytes as an ed25519 key.
pub uninterp spec fn endpoint_key_valid(id: Seq<u8>) -> bool;

/// The z-base-32 text iroh's `PublicKey::to_z32` writes for the key with these bytes.
pub uninterp spec fn key_z32_text(id: Seq<u8>) -> Seq<char>;

/// The z-base-32 text of an endpoint id; `None` when the bytes are no valid key.
pub open spec fn endpoint_id_z32(id: Seq<u8>) -> Option<Seq<char>> {
    if endpoint_key_valid(id) {
        Some(key_z32_text(id))
    } else {
        None
    }
}

/// Whether iroh's z-base-32 decoder takes `text` at all: the decoder of `data-encoding`
/// behind `PublicKey::from_z32` asserts that its input is at most `usize::MAX / 8` bytes.
pub open spec fn z32_decodable_len(text: &str) -> bool {
    text.spec_bytes().len() <= usize::MAX / 8
}

/// Calls iroh's `PublicKey::from_z32` and keeps the 32 bytes of the key. Claimed: the
/// result is the key iroh decodes from the text, `None` exactly when iroh refuses the text.
/// The decoder asserts the length bound of `z32_decodable_len`, so that is required.
#[verifier::external_body]
pub(crate) fn z32_to_key_bytes(text: &str) -> (r: Option<[u8; 32]>)
    requires
        z32_decodable_len(text),
    ensures
        match z32_endpoint_id(text@) {
            Some(b) => r matches Some(k) && k@ == b,
            None => r is None,
        },
{
    match iroh::PublicKey::from_z32(text) {
        Ok(key) => Some(*key.as_bytes()),
        Err(_) => None,
    }
}

/// Calls iroh's `PublicKey::from_bytes`. Claimed: the result says whether iroh takes the
/// bytes as a key.
#[verifier::external_body]
fn is_endpoint_key(id: &[u8; 32]) -> (b: bool)
    ensures
        b == endpoint_key_valid(id@),
{
    iroh::PublicKey::from_bytes(id).is_ok()
}

/// Calls iroh's `PublicKey::to_z32` on the key with these bytes (the bytes become a
/// `PublicKey` by `from_bytes`, which takes them by the `requires`). Claimed: the result is
/// iroh's z-base-32 text of the key.
#[verifier::external_body]
fn key_to_z32(id: &[u8; 32]) -> (s: String)
    requires
        endpoint_key_valid(id@),
    ensures
        s@ == key_z32_text(id@),
{
    iroh::PublicKey::from_bytes(id).expect("the bytes are a valid key").to_z32()
}

/// The z-base-32 text of an endpoint id; `None` when the bytes are no valid key.
pub(crate) fn key_bytes_to_z32(id: &[u8; 32]) -> (r: Option<String>)
    ensures
        match endpoint_id_z32(id@) {
            Some(t) => r matches Some(s) && s@ == t,
            None => r is None,
        },
{
    if is_endpoint_key(id) {
        Some(key_to_z32(id))
    } else {
        None
    }
}

} // verus!
