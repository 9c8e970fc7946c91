//! Digests of what is stored and sent, and the text of raw output.
use sha2::{Digest, Sha256};
use vstd::prelude::*;
use vstd::utf8::{decode_utf8, valid_utf8};

use crate::text::{digit_char, digit_value, lemma_digit_char_injective};

verus! {

/// The most bytes that a digest can be taken of: their number of bits has to
/// fit in 64 bits.
pub const MAX_DIGEST_BYTES: u64 = 0x1fff_ffff_ffff_ffff;

/// A SHA-256 computation under way.
#[verifier::external_type_specification]
#[verifier::external_body]
pub struct ExSha256(Sha256);

/// The bytes that a computation has taken in so far, in order.
pub uninterp spec fn absorbed(hasher: Sha256) -> Seq<u8>;

/// The SHA-256 digest of some bytes.
pub uninterp spec fn sha256(data: Seq<u8>) -> Seq<u8>;

/// Calls `Digest::new` of `Sha256`: a computation that has taken in nothing.
#[verifier::external_body]
fn sha256_start() -> (hasher: Sha256)
    ensures
        absorbed(hasher) == Seq::<u8>::empty(),
{
    Sha256::new()
}

/// Calls `Digest::update` of `Sha256`, which takes in the given bytes behind
/// those it has.
#[verifier::external_body]
fn sha256_absorb(hasher: &mut Sha256, data: &[u8])
    requires
        absorbed(*old(hasher)).len() + data@.len() <= MAX_DIGEST_BYTES,
    ensures
        absorbed(*final(hasher)) == absorbed(*old(hasher)) + data@,
{
    hasher.update(data);
}

/// Calls `Digest::finalize` of `Sha256`, which gives the digest of what was
/// taken in, 32 bytes that depend on nothing else.
#[verifier::external_body]
fn sha256_finish(hasher: Sha256) -> (digest: Vec<u8>)
    requires
        absorbed(hasher).len() <= MAX_DIGEST_BYTES,
    ensures
        digest@ == sha256(absorbed(hasher)),
        digest@.len() == 32,
{
    hasher.finalize().to_vec()
}

/// Bytes in hexadecimal, two lower-case digits for each.
pub open spec fn hex_digits(data: Seq<u8>) -> Seq<char> {
    Seq::new(
        2 * data.len(),
        |i: int|
            digit_char(
                if i % 2 == 0 {
                    data[i / 2] as nat / 16
                } else {
                    data[i / 2] as nat % 16
                },
            ),
    )
}

/// Calls `hex::encode`, which writes each byte as two lower-case hexadecimal
/// digits, the high one first.
#[verifier::external_body]
fn hex_encode(data: &[u8]) -> (text: String)
    ensures
        text@ == hex_digits(data@),
{
    hex::encode(data)
}

/// Takes in bytes piece by piece and gives the digest of them all.
pub struct RunningDigest {
    hasher: Sha256,
    count: u64,
}

impl View for RunningDigest {
    type V = Seq<u8>;

    closed spec fn view(&self) -> Seq<u8> {
        absorbed(self.hasher)
    }
}

impl RunningDigest {
    /// What every digest keeps: it knows how many bytes it took in, and they
    /// are not too many.
    pub closed spec fn wf(&self) -> bool {
        self@.len() == self.count && self.count <= MAX_DIGEST_BYTES
    }

    /// A digest of nothing yet.
    pub fn new() -> (digest: Self)
        ensures
            digest.wf(),
            digest@ == Seq::<u8>::empty(),
    {
        RunningDigest { hasher: sha256_start(), count: 0 }
    }

    /// How many bytes were taken in.
    pub fn count(&self) -> (n: u64)
        requires
            self.wf(),
        ensures
            n == self@.len(),
            n <= MAX_DIGEST_BYTES,
    {
        self.count
    }

    /// Takes in `data` behind what was taken in before.
    pub fn absorb(&mut self, data: &[u8])
        requires
            old(self).wf(),
            old(self)@.len() + data@.len() <= MAX_DIGEST_BYTES,
        ensures
            final(self).wf(),
            final(self)@ == old(self)@ + data@,
    {
        sha256_absorb(&mut self.hasher, data);
        self.count = self.count + data.len() as u64;
    }

    /// The digest of all that was taken in, in hexadecimal.
    pub fn finish(self) -> (text: String)
        requires
            self.wf(),
        ensures
            text@ == sha256_text(self@),
            text@.len() == 64,
    {
        hex_encode(sha256_finish(self.hasher).as_slice())
    }
}

/// The SHA-256 digest of some bytes, in hexadecimal.
pub open spec fn sha256_text(data: Seq<u8>) -> Seq<char> {
    hex_digits(sha256(data))
}

/// The SHA-256 digest of `data`, in hexadecimal.
pub fn sha256_hex(data: &[u8]) -> (text: String)
    requires
        data@.len() <= MAX_DIGEST_BYTES,
    ensures
        text@ == sha256_text(data@),
        text@.len() == 64,
{
    let mut digest = RunningDigest::new();
    digest.absorb(data);
    assert(digest@ =~= data@);
    digest.finish()
}

/// The text of bytes, with every ill-formed piece replaced.
pub uninterp spec fn lossy_text(data: Seq<u8>) -> Seq<char>;

/// Calls `String::from_utf8_lossy`, which decodes UTF-8 and puts U+FFFD where
/// bytes are ill-formed. Stated is that bytes that are well-formed UTF-8 come
/// out as the text that they encode; which ill-formed bytes are replaced
/// together is left unsaid.
#[verifier::external_body]
pub(crate) fn text_of_output(data: &[u8]) -> (text: String)
    ensures
        text@ == lossy_text(data@),
        valid_utf8(data@) ==> text@ == decode_utf8(data@),
{
    String::from_utf8_lossy(data).into_owned()
}

/// Two byte strings with the same hexadecimal text are the same.
pub proof fn law_hex_tells_bytes_apart(a: Seq<u8>, b: Seq<u8>)
    requires
        hex_digits(a) == hex_digits(b),
    ensures
        a == b,
{
    let x = hex_digits(a);
    let y = hex_digits(b);
    assert(x.len() == y.len());
    assert forall|i: int| 0 <= i < a.len() implies a[i] == b[i] by {
        assert(x[2 * i] == y[2 * i]);
        assert(x[2 * i + 1] == y[2 * i + 1]);
        lemma_digit_char_injective(a[i] as nat / 16, b[i] as nat / 16);
        lemma_digit_char_injective(a[i] as nat % 16, b[i] as nat % 16);
    }
    assert(a =~= b);
}

/// Bytes in hexadecimal read back as the bytes: two digits for each, the high one
/// first.
pub proof fn law_hex_reads_back(data: Seq<u8>, i: int)
    requires
        0 <= i < data.len(),
    ensures
        hex_digits(data).len() == 2 * data.len(),
        digit_value(hex_digits(data)[2 * i]) * 16 + digit_value(hex_digits(data)[2 * i + 1])
            == data[i],
        forall|k: int|
            0 <= k < hex_digits(data).len() ==> {
                let c = #[trigger] hex_digits(data)[k];
                '0' <= c <= '9' || 'a' <= c <= 'f'
            },
{
    assert((2 * i) / 2 == i && (2 * i) % 2 == 0);
    assert((2 * i + 1) / 2 == i && (2 * i + 1) % 2 == 1);
}

/// The digest of bytes is the SHA-256 of all of them in hexadecimal, taken at once
/// or piece by piece.
pub proof fn law_digest_is_of_all_the_bytes(
    data: &[u8],
    at_once: String,
    taken: RunningDigest,
    in_pieces: String,
)
    requires
        taken@ == data@,
        call_ensures(sha256_hex, (data,), at_once),
        call_ensures(RunningDigest::finish, (taken,), in_pieces),
    ensures
        at_once@ == hex_digits(sha256(data@)),
        in_pieces@ == at_once@,
        at_once@.len() == 64,
{
}

/// A digest takes in bytes behind those it has, all of them, and counts them.
pub proof fn law_digest_takes_everything_in(data: &[u8])
    ensures
        forall|digest: &mut RunningDigest| #[trigger]
            call_ensures(RunningDigest::absorb, (digest, data), ()) ==> final(digest)@ == digest@
                + data@,
        forall|digest: &RunningDigest, n: u64| #[trigger]
            call_ensures(RunningDigest::count, (digest,), n) ==> n == digest@.len(),
        forall|digest: RunningDigest| #[trigger]
            call_ensures(RunningDigest::new, (), digest) ==> digest@.len() == 0,
{
}

} // verus!
