//! Names of the sockets through which a later `mdsight <file>` brings an open window to the front.
use vstd::prelude::*;
use crate::text::push_char;

verus! {

pub const FNV_OFFSET: u64 = 0xcbf2_9ce4_8422_2325;

pub const FNV_PRIME: u64 = 0x0100_0000_01b3;

/// FNV-1a (64 bit) over `bytes`.
pub open spec fn fnv1a(bytes: Seq<u8>) -> u64
    decreases bytes.len(),
{
    if bytes.len() == 0 {
        FNV_OFFSET
    } else {
        (fnv1a(bytes.drop_last()) ^ (bytes.last() as u64)).wrapping_mul(FNV_PRIME)
    }
}

/// A lower-case hexadecimal digit.
pub open spec fn hex_digit(d: u64) -> char {
    if d < 10 {
        (('0' as u64) + d) as char
    } else {
        (('a' as u64) + d - 10) as char
    }
}

/// The last `n` hexadecimal digits of `h`, most significant first.
pub open spec fn hex_digits(h: u64, n: nat) -> Seq<char>
    decreases n,
{
    if n == 0 {
        Seq::empty()
    } else {
        hex_digits(h / 16, (n - 1) as nat).push(hex_digit(h % 16))
    }
}

/// The socket name for a document path: its FNV-1a hash as 16 hexadecimal digits, then `.sock`.
pub open spec fn socket_name_of(path: Seq<char>) -> Seq<char> {
    hex_digits(fnv1a(vstd::utf8::encode_utf8(path)), 16) + ".sock"@
}

/// FNV-1a over the bytes, computed left to right.
pub fn fnv1a_hash(bytes: &[u8]) -> (h: u64)
    ensures
        h == fnv1a(bytes@),
{
    let mut hash: u64 = FNV_OFFSET;
    let mut i: usize = 0;
    while i < bytes.len()
        invariant
            i <= bytes@.len(),
            hash == fnv1a(bytes@.subrange(0, i as int)),
        decreases bytes.len() - i,
    {
        assert(bytes@.subrange(0, i + 1).drop_last() =~= bytes@.subrange(0, i as int));
        hash = (hash ^ (bytes[i] as u64)).wrapping_mul(FNV_PRIME);
        i = i + 1;
    }
    assert(bytes@.subrange(0, i as int) =~= bytes@);
    hash
}

fn digit(d: u64) -> (c: char)
    requires
        d < 16,
    ensures
        c == hex_digit(d),
{
    if d < 10 {
        ((48u8 + d as u8) as char)
    } else {
        ((97u8 + (d - 10) as u8) as char)
    }
}

/// Appends the last `n` hexadecimal digits of `h`.
fn push_hex(out: &mut String, h: u64, n: u32)
    ensures
        final(out)@ == old(out)@ + hex_digits(h, n as nat),
    decreases n,
{
    if n == 0 {
        assert(old(out)@ + hex_digits(h, 0) =~= old(out)@);
        return;
    }
    push_hex(out, h / 16, n - 1);
    push_char(out, digit(h % 16));
    assert(old(out)@ + hex_digits(h, n as nat) =~= old(out)@ + hex_digits(h / 16, (n - 1) as nat)
        + seq![hex_digit(h % 16)]);
}

/// The socket name for the (canonical, absolute) path of a document. The same name comes out
/// of every build of mdsight, so that different versions find each other's windows.
pub fn socket_name(document: &str) -> (name: String)
    ensures
        name@ == socket_name_of(document@),
{
    let hash = fnv1a_hash(document.as_bytes());
    let mut name = String::new();
    push_hex(&mut name, hash, 16);
    name.append(".sock");
    name
}

/// The one request a window accepts on its socket.
pub open spec fn raise_request() -> Seq<u8> {
    seq![0x72u8, 0x61u8, 0x69u8, 0x73u8, 0x65u8, 0x0au8]
}

/// Whether the bytes read from a connection are the request to come to the front (`raise\n`).
pub fn is_raise_request(received: &[u8]) -> (r: bool)
    ensures
        r == (received@ == raise_request()),
{
    if received.len() != 6 {
        return false;
    }
    let ok = received[0] == 0x72u8 && received[1] == 0x61u8 && received[2] == 0x69u8 && received[3]
        == 0x73u8 && received[4] == 0x65u8 && received[5] == 0x0au8;
    if ok {
        assert(received@ =~= raise_request());
    }
    ok
}

/// Whether the socket directory may be used: a directory owned by this user that no one else
/// can read, write or enter.
pub fn dir_is_private(is_dir: bool, owner: u32, uid: u32, mode: u32) -> (r: bool)
    ensures
        r == (is_dir && owner == uid && mode & 0o077u32 == 0),
{
    is_dir && owner == uid && mode & 0o077u32 == 0
}

/// Socket names are always 16 hexadecimal digits followed by `.sock`.
pub proof fn law_socket_name_shape(path: Seq<char>)
    ensures
        socket_name_of(path).len() == 21,
{
    lemma_hex_digits_len(fnv1a(vstd::utf8::encode_utf8(path)), 16);
    reveal_strlit(".sock");
}

/// FNV-1a (64 bit) folds the bytes from first to last: it starts from the offset basis
/// 0xcbf29ce484222325, and each further byte is xor-ed in and then multiplied by the prime
/// 0x100000001b3, modulo 2^64.
pub proof fn law_fnv1a_folds_left(bytes: Seq<u8>, b: u8)
    ensures
        fnv1a(Seq::empty()) == 0xcbf2_9ce4_8422_2325u64,
        fnv1a(bytes.push(b)) == ((fnv1a(bytes) ^ (b as u64)) as int * 0x0100_0000_01b3int)
            % 0x1_0000_0000_0000_0000int,
{
    assert(bytes.push(b).drop_last() =~= bytes);
}

/// Hexadecimal digits are written in lower case: 0 to 9, then a to f.
pub proof fn law_hex_digits_lower_case(d: u64)
    requires
        d < 16,
    ensures
        hex_digit(d) == "0123456789abcdef"@[d as int],
{
    reveal_strlit("0123456789abcdef");
}

/// The name's digits are the hash's, most significant first: the last digit is the hash's
/// lowest four bits, and those before it are the digits of the rest.
pub proof fn law_hex_digits_most_significant_first(h: u64, n: nat)
    requires
        n > 0,
    ensures
        hex_digits(h, n).last() == hex_digit(h % 16),
        hex_digits(h, n).drop_last() == hex_digits(h / 16, (n - 1) as nat),
{
    assert(hex_digits(h, n).drop_last() =~= hex_digits(h / 16, (n - 1) as nat));
}

proof fn lemma_hex_digits_len(h: u64, n: nat)
    ensures
        hex_digits(h, n).len() == n,
    decreases n,
{
    if n > 0 {
        lemma_hex_digits_len(h / 16, (n - 1) as nat);
    }
}

/// The socket of the window showing `document`, inside the private socket directory `dir`.
pub fn socket_path(dir: &str, document: &str) -> (r: String)
    ensures
        r@ == crate::image::joined_path(dir@, socket_name_of(document@)),
{
    let name = socket_name(document);
    crate::image::path_join(dir, name.as_str())
}

} // verus!
