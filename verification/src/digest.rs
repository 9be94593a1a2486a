//! Domain-separated SHA-256 digests rendered as `sha256:<64 lowercase hex>`.
use vstd::prelude::*;

use crate::text::push_char;

verus! {

/// What SHA-256 returns for a byte string.
pub uninterp spec fn sha256_spec(data: Seq<u8>) -> Seq<u8>;

/// Calls `sha2::Sha256::digest`.  The result is named by `sha256_spec`; the
/// function produces 32 bytes, as SHA-256 always does.
#[verifier::external_body]
fn sha256(data: &[u8]) -> (r: Vec<u8>)
    ensures
        r@ == sha256_spec(data@),
        r@.len() == 32,
{
    <sha2::Sha256 as sha2::Digest>::digest(data).to_vec()
}

/// A SHA-256 hasher fed in pieces.  It holds a `sha2::Sha256` privately:
/// Verus does not take that type's declaration, whose generics it cannot
/// match, so the hasher is opaque and `sha256_fed` names its contents.
#[verifier::external_body]
pub struct Sha256Stream {
    state: sha2::Sha256,
}

/// The bytes a hasher has been fed since it was made, in order.
pub uninterp spec fn sha256_fed(h: Sha256Stream) -> Seq<u8>;

/// Calls `sha2::Digest::new` for `sha2::Sha256`: a hasher fed nothing yet.
#[verifier::external_body]
pub(crate) fn sha256_stream() -> (h: Sha256Stream)
    ensures
        sha256_fed(h) == Seq::<u8>::empty(),
{
    Sha256Stream { state: <sha2::Sha256 as sha2::Digest>::new() }
}

/// Calls `sha2::Digest::update`: the hasher has now been fed `data` after
/// what it had been fed before.
#[verifier::external_body]
pub(crate) fn sha256_feed(h: &mut Sha256Stream, data: &[u8])
    ensures
        sha256_fed(*final(h)) == sha256_fed(*old(h)) + data@,
{
    sha2::Digest::update(&mut h.state, data)
}

/// Calls `sha2::Digest::finalize`: the SHA-256 of everything the hasher was
/// fed, which is what `Digest::digest` returns for those bytes at once, 32
/// bytes long.
#[verifier::external_body]
fn sha256_finish(h: Sha256Stream) -> (r: Vec<u8>)
    ensures
        r@ == sha256_spec(sha256_fed(h)),
        r@.len() == 32,
{
    sha2::Digest::finalize(h.state).to_vec()
}

pub open spec fn hex_digit(n: u8) -> char {
    if n < 10 {
        (('0' as u32) + (n as u32)) as char
    } else {
        (('a' as u32) + (n as u32) - 10) as char
    }
}

pub open spec fn is_lower_hex(c: char) -> bool {
    ('0' <= c && c <= '9') || ('a' <= c && c <= 'f')
}

pub open spec fn hex_byte(b: u8) -> Seq<char> {
    seq![hex_digit(b / 16), hex_digit(b % 16)]
}

/// Lower-case hexadecimal rendering of a byte string, two digits per byte.
pub open spec fn hex_lower(bytes: Seq<u8>) -> Seq<char>
    decreases bytes.len(),
{
    if bytes.len() == 0 {
        Seq::empty()
    } else {
        hex_lower(bytes.drop_last()) + hex_byte(bytes.last())
    }
}

pub open spec fn sha256_prefix() -> Seq<char> {
    seq!['s', 'h', 'a', '2', '5', '6', ':']
}

/// The textual digest of a 32-byte hash value.
pub open spec fn digest_text(hash: Seq<u8>) -> Seq<char> {
    sha256_prefix() + hex_lower(hash)
}

/// The digest of `payload` in the hashing domain `domain` (a NUL-terminated
/// label that keeps digests of different record kinds apart).
pub open spec fn domain_digest(domain: Seq<u8>, payload: Seq<u8>) -> Seq<char> {
    digest_text(sha256_spec(domain + payload))
}

/// A canonical digest: `sha256:` followed by exactly 64 lower-case hex digits.
pub open spec fn is_sha256_digest(s: Seq<char>) -> bool {
    &&& s.len() == 71
    &&& s.subrange(0, 7) == sha256_prefix()
    &&& forall|i: int| 7 <= i < 71 ==> #[trigger] is_lower_hex(s[i])
}

pub fn hex_digit_exec(n: u8) -> (c: char)
    requires
        n < 16,
    ensures
        c == hex_digit(n),
{
    if n < 10 {
        ((('0' as u32) + (n as u32)) as u8) as char
    } else {
        ((('a' as u32) + (n as u32) - 10) as u8) as char
    }
}

proof fn lemma_hex_lower_len(bytes: Seq<u8>)
    ensures
        hex_lower(bytes).len() == 2 * bytes.len(),
        forall|i: int| 0 <= i < hex_lower(bytes).len() ==> #[trigger] is_lower_hex(hex_lower(bytes)[i]),
    decreases bytes.len(),
{
    if bytes.len() > 0 {
        lemma_hex_lower_len(bytes.drop_last());
        let b = bytes.last();
        assert(b / 16 < 16 && b % 16 < 16);
        let h = hex_lower(bytes);
        assert forall|i: int| 0 <= i < h.len() implies #[trigger] is_lower_hex(h[i]) by {
            let prev = hex_lower(bytes.drop_last());
            if i < prev.len() {
                assert(h[i] == prev[i]);
            } else {
                assert(h[i] == hex_byte(b)[i - prev.len()]);
            }
        }
    }
}

/// Every digest text of a 32-byte hash is a canonical digest.
pub proof fn lemma_digest_text_is_canonical(hash: Seq<u8>)
    requires
        hash.len() == 32,
    ensures
        is_sha256_digest(digest_text(hash)),
{
    lemma_hex_lower_len(hash);
    let d = digest_text(hash);
    assert(d.subrange(0, 7) =~= sha256_prefix());
    assert forall|i: int| 7 <= i < 71 implies #[trigger] is_lower_hex(d[i]) by {
        assert(d[i] == hex_lower(hash)[i - 7]);
    }
}

/// Appends the lower-case hexadecimal rendering of `bytes`.
pub fn push_hex(out: &mut String, bytes: &[u8])
    ensures
        final(out)@ == old(out)@ + hex_lower(bytes@),
{
    let ghost start = out@;
    let mut i: usize = 0;
    proof {
        assert(bytes@.subrange(0, 0) =~= Seq::<u8>::empty());
        assert(start + hex_lower(Seq::<u8>::empty()) =~= start);
    }
    while i < bytes.len()
        invariant
            0 <= i <= bytes@.len(),
            out@ == start + hex_lower(bytes@.subrange(0, i as int)),
        decreases bytes.len() - i,
    {
        let b = bytes[i];
        push_char(out, hex_digit_exec(b / 16));
        push_char(out, hex_digit_exec(b % 16));
        proof {
            let pre = bytes@.subrange(0, i as int);
            let next = bytes@.subrange(0, i + 1);
            assert(next.drop_last() =~= pre);
            assert(next.last() == b);
            assert(out@ =~= start + hex_lower(next));
        }
        i += 1;
    }
    proof {
        assert(bytes@.subrange(0, bytes@.len() as int) =~= bytes@);
    }
}

/// Renders `sha256:` and the hexadecimal digest of `hash`.
pub fn digest_string(hash: &[u8]) -> (r: String)
    ensures
        r@ == digest_text(hash@),
{
    let mut out = String::new();
    push_char(&mut out, 's');
    push_char(&mut out, 'h');
    push_char(&mut out, 'a');
    push_char(&mut out, '2');
    push_char(&mut out, '5');
    push_char(&mut out, '6');
    push_char(&mut out, ':');
    proof {
        assert(out@ =~= sha256_prefix());
    }
    push_hex(&mut out, hash);
    out
}

/// SHA-256 over `domain` followed by `payload`, rendered as a canonical digest.
pub fn hash_with_domain(domain: &str, payload: &[u8]) -> (r: String)
    ensures
        r@ == domain_digest(vstd::utf8::encode_utf8(domain@), payload@),
        is_sha256_digest(r@),
{
    let mut input: Vec<u8> = Vec::new();
    input.extend_from_slice(domain.as_bytes());
    input.extend_from_slice(payload);
    proof {
        assert(input@ =~= vstd::utf8::encode_utf8(domain@) + payload@);
    }
    let hash = sha256(input.as_slice());
    proof {
        lemma_digest_text_is_canonical(hash@);
    }
    digest_string(hash.as_slice())
}

/// The canonical digest of everything a hasher was fed.
pub fn finish_digest(h: Sha256Stream) -> (r: String)
    ensures
        r@ == digest_text(sha256_spec(sha256_fed(h))),
        is_sha256_digest(r@),
{
    let hash = sha256_finish(h);
    proof {
        lemma_digest_text_is_canonical(hash@);
    }
    digest_string(hash.as_slice())
}

/// The canonical digest of the bare bytes, with no domain label.
pub fn content_digest(data: &[u8]) -> (r: String)
    ensures
        r@ == digest_text(sha256_spec(data@)),
        is_sha256_digest(r@),
{
    let hash = sha256(data);
    proof {
        lemma_digest_text_is_canonical(hash@);
    }
    digest_string(hash.as_slice())
}

/// The digest of the bare bytes (no domain label), rendered as hex only.
pub fn sha256_hex(data: &[u8]) -> (r: String)
    ensures
        r@ == hex_lower(sha256_spec(data@)),
{
    let hash = sha256(data);
    let mut out = String::new();
    push_hex(&mut out, hash.as_slice());
    proof {
        assert(out@ =~= hex_lower(sha256_spec(data@)));
    }
    out
}

/// `validate_digest`'s rule: `sha256:` then 64 lower-case hexadecimal digits.
pub fn is_canonical_digest(s: &str) -> (b: bool)
    ensures
        b == is_sha256_digest(s@),
{
    let v = crate::text::chars_of(s);
    if v.len() != 71 {
        return false;
    }
    let prefix_ok = v[0] == 's' && v[1] == 'h' && v[2] == 'a' && v[3] == '2' && v[4] == '5' && v[5]
        == '6' && v[6] == ':';
    proof {
        if prefix_ok {
            assert(v@.subrange(0, 7) =~= sha256_prefix());
        } else {
            if v@.subrange(0, 7) == sha256_prefix() {
                assert(v@.subrange(0, 7)[0] == 's');
                assert(v@.subrange(0, 7)[1] == 'h');
                assert(v@.subrange(0, 7)[2] == 'a');
                assert(v@.subrange(0, 7)[3] == '2');
                assert(v@.subrange(0, 7)[4] == '5');
                assert(v@.subrange(0, 7)[5] == '6');
                assert(v@.subrange(0, 7)[6] == ':');
            }
        }
    }
    if !prefix_ok {
        return false;
    }
    let mut i: usize = 7;
    while i < 71
        invariant
            v@ == s@,
            v@.len() == 71,
            7 <= i <= 71,
            forall|j: int| 7 <= j < i ==> #[trigger] is_lower_hex(v@[j]),
        decreases 71 - i,
    {
        let c = v[i];
        if !(('0' <= c && c <= '9') || ('a' <= c && c <= 'f')) {
            assert(!is_lower_hex(s@[i as int]));
            return false;
        }
        i += 1;
    }
    true
}

} // verus!
