//! Content fingerprints in the blob scheme of the remote host.
//!
//! The remote host names a file's content by the SHA-1 digest of the bytes
//! `blob `, the content's length in decimal, a zero byte, and the content
//! itself, written as forty lowercase hexadecimal digits. A local file whose
//! fingerprint equals the one the host reports has the same content, so it
//! need not be downloaded.

use vstd::prelude::*;
use vstd::slice::slice_subrange;

verus! {

/// How many bytes of content are handed to the hasher at a time.
pub const CHUNK_SIZE: usize = 1024;

/// The decimal digits of `n` as ASCII bytes, most significant first.
pub open spec fn decimal(n: nat) -> Seq<u8>
    decreases n,
{
    if n < 10 {
        seq![(48 + n) as u8]
    } else {
        decimal(n / 10).push((48 + n % 10) as u8)
    }
}

/// The bytes that precede the content of a blob of `len` bytes.
pub open spec fn blob_header(len: nat) -> Seq<u8> {
    seq![98u8, 108u8, 111u8, 98u8, 32u8] + decimal(len) + seq![0u8]
}

/// The lowercase hexadecimal digit for a value below sixteen.
pub open spec fn hex_digit(nibble: int) -> char {
    if nibble == 0 {
        '0'
    } else if nibble == 1 {
        '1'
    } else if nibble == 2 {
        '2'
    } else if nibble == 3 {
        '3'
    } else if nibble == 4 {
        '4'
    } else if nibble == 5 {
        '5'
    } else if nibble == 6 {
        '6'
    } else if nibble == 7 {
        '7'
    } else if nibble == 8 {
        '8'
    } else if nibble == 9 {
        '9'
    } else if nibble == 10 {
        'a'
    } else if nibble == 11 {
        'b'
    } else if nibble == 12 {
        'c'
    } else if nibble == 13 {
        'd'
    } else if nibble == 14 {
        'e'
    } else {
        'f'
    }
}

/// Two lowercase hexadecimal digits for each byte, high digit first.
pub open spec fn hex_text(bytes: Seq<u8>) -> Seq<char> {
    Seq::new(
        2 * bytes.len(),
        |i: int|
            if i % 2 == 0 {
                hex_digit(bytes[i / 2] as int / 16)
            } else {
                hex_digit(bytes[i / 2] as int % 16)
            },
    )
}

/// The SHA-1 digest of a message, as the `sha1` crate computes it.
pub uninterp spec fn sha1_digest(message: Seq<u8>) -> Seq<u8>;

/// The fingerprint that the remote host gives to a file with this content.
pub open spec fn blob_fingerprint(content: Seq<u8>) -> Seq<char> {
    hex_text(sha1_digest(blob_header(content.len()) + content))
}

/// A running SHA-1 computation: `sha1::Sha1`, held opaquely. The crate's
/// type is an alias of a generic type whose bounds cannot be declared to
/// the verifier, so it stands in a field that the verifier does not read.
/// What is known of it is the bytes fed so far, named by `sha1_input`.
#[verifier::external_body]
pub struct Sha1State {
    inner: sha1::Sha1,
}

/// The bytes that a running computation has been fed so far.
pub uninterp spec fn sha1_input(state: Sha1State) -> Seq<u8>;

/// `sha1::Sha1::new`: a computation that has been fed nothing yet.
#[verifier::external_body]
fn sha1_new() -> (state: Sha1State)
    ensures
        sha1_input(state) == Seq::<u8>::empty(),
{
    Sha1State { inner: <sha1::Sha1 as sha1::Digest>::new() }
}

/// `sha1::Digest::update`: the data is appended to what was fed before.
#[verifier::external_body]
fn sha1_update(state: &mut Sha1State, data: &[u8])
    ensures
        sha1_input(*final(state)) == sha1_input(*old(state)) + data@,
    no_unwind
{
    sha1::Digest::update(&mut state.inner, data)
}

/// `sha1::Digest::finalize`: the digest of all that was fed, twenty bytes.
/// It depends on those bytes alone, not on how they were cut into pieces.
#[verifier::external_body]
fn sha1_finalize(state: Sha1State) -> (digest: Vec<u8>)
    ensures
        digest@ == sha1_digest(sha1_input(state)),
        digest@.len() == 20,
{
    sha1::Digest::finalize(state.inner).to_vec()
}

/// `hex::encode`: each byte becomes two lowercase hexadecimal digits.
#[verifier::external_body]
fn hex_encode(bytes: &[u8]) -> (text: String)
    ensures
        text@ == hex_text(bytes@),
{
    hex::encode(bytes)
}

/// Writes `n` in decimal.
pub fn decimal_digits(n: u64) -> (digits: Vec<u8>)
    ensures
        digits@ == decimal(n as nat),
{
    let mut reversed: Vec<u8> = Vec::new();
    let mut rest: u64 = n;
    while rest >= 10
        invariant
            decimal(n as nat) == decimal(rest as nat) + reversed@.reverse(),
        decreases rest,
    {
        let digit: u8 = 48 + (rest % 10) as u8;
        proof {
            let before = reversed@;
            let after = before.push(digit);
            assert(after.reverse() =~= seq![digit] + before.reverse());
            assert(decimal(rest as nat) == decimal((rest / 10) as nat).push(digit));
            assert(decimal((rest / 10) as nat).push(digit) + before.reverse() =~= decimal(
                (rest / 10) as nat,
            ) + after.reverse());
        }
        reversed.push(digit);
        rest = rest / 10;
    }
    let last: u8 = 48 + rest as u8;
    proof {
        let before = reversed@;
        assert(before.push(last).reverse() =~= seq![last] + before.reverse());
    }
    reversed.push(last);
    let mut digits: Vec<u8> = Vec::new();
    let mut i: usize = reversed.len();
    while i > 0
        invariant
            i <= reversed.len(),
            digits@ == reversed@.reverse().take(reversed.len() - i),
        decreases i,
    {
        i -= 1;
        digits.push(reversed[i]);
        assert(digits@ =~= reversed@.reverse().take(reversed.len() - i));
    }
    assert(digits@ =~= reversed@.reverse());
    digits
}

/// The header of a blob whose content has `len` bytes.
pub fn blob_header_bytes(len: u64) -> (header: Vec<u8>)
    ensures
        header@ == blob_header(len as nat),
{
    let mut header: Vec<u8> = Vec::new();
    header.push(98u8);
    header.push(108u8);
    header.push(111u8);
    header.push(98u8);
    header.push(32u8);
    let mut digits = decimal_digits(len);
    header.append(&mut digits);
    header.push(0u8);
    assert(header@ =~= blob_header(len as nat));
    header
}

/// Computes a blob fingerprint from content that arrives in pieces, so that a
/// large file never has to be held in memory whole.
///
/// The length of the content is declared at the start, as the header needs
/// it before the first byte. The fingerprint is that of a blob exactly when
/// as many bytes are fed as were declared.
pub struct BlobHasher {
    state: Sha1State,
    declared: u64,
}

impl BlobHasher {
    #[verifier::type_invariant]
    spec fn well_formed(self) -> bool {
        blob_header(self.declared as nat).is_prefix_of(sha1_input(self.state))
    }

    /// The length that was declared when the computation began.
    pub closed spec fn declared_len(self) -> nat {
        self.declared as nat
    }

    /// The content fed so far.
    pub closed spec fn fed(self) -> Seq<u8> {
        sha1_input(self.state).skip(blob_header(self.declared as nat).len() as int)
    }

    /// Begins the fingerprint of a file of `len` bytes.
    pub fn new(len: u64) -> (hasher: BlobHasher)
        ensures
            hasher.declared_len() == len,
            hasher.fed() == Seq::<u8>::empty(),
    {
        let header = blob_header_bytes(len);
        let mut state = sha1_new();
        sha1_update(&mut state, header.as_slice());
        assert(sha1_input(state) =~= blob_header(len as nat));
        let hasher = BlobHasher { state, declared: len };
        assert(hasher.fed() =~= Seq::<u8>::empty());
        hasher
    }

    /// Feeds the next piece of content.
    pub fn update(&mut self, chunk: &[u8])
        ensures
            final(self).declared_len() == old(self).declared_len(),
            final(self).fed() == old(self).fed() + chunk@,
    {
        proof {
            use_type_invariant(&*self);
        }
        let ghost before = sha1_input(self.state);
        let ghost skipped = blob_header(self.declared as nat).len() as int;
        sha1_update(&mut self.state, chunk);
        proof {
            let after = sha1_input(self.state);
            assert(after == before + chunk@);
            assert(after.skip(skipped) =~= before.skip(skipped) + chunk@);
        }
    }

    /// Ends the computation and gives the fingerprint.
    pub fn finish(self) -> (fingerprint: String)
        ensures
            fingerprint@ == hex_text(sha1_digest(blob_header(self.declared_len()) + self.fed())),
            self.fed().len() == self.declared_len() ==> fingerprint@ == blob_fingerprint(
                self.fed(),
            ),
            fingerprint@.len() == 40,
    {
        proof {
            use_type_invariant(&self);
            let header = blob_header(self.declared as nat);
            let input = sha1_input(self.state);
            assert(input =~= input.take(header.len() as int) + input.skip(header.len() as int));
        }
        let digest = sha1_finalize(self.state);
        hex_encode(digest.as_slice())
    }
}

/// The fingerprint of a file with the given content: the SHA-1 digest of the
/// blob header followed by the content, in lowercase hexadecimal.
pub fn calculate_github_sha1(content: &[u8]) -> (fingerprint: String)
    ensures
        fingerprint@ == blob_fingerprint(content@),
        fingerprint@.len() == 40,
{
    let total: usize = content.len();
    let mut hasher = BlobHasher::new(total as u64);
    let mut done: usize = 0;
    while done < total
        invariant
            total == content@.len(),
            done <= total,
            hasher.declared_len() == total,
            hasher.fed() == content@.take(done as int),
        decreases total - done,
    {
        let end: usize = if total - done > CHUNK_SIZE {
            done + CHUNK_SIZE
        } else {
            total
        };
        let chunk = slice_subrange(content, done, end);
        hasher.update(chunk);
        assert(content@.take(done as int) + chunk@ =~= content@.take(end as int));
        done = end;
    }
    assert(content@.take(total as int) =~= content@);
    hasher.finish()
}

} // verus!
