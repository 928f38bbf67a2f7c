//! Checksums of downloads.

use vstd::prelude::*;

verus! {

/// The SHA-1 hasher of `sha1`.
#[verifier::external_type_specification]
#[verifier::external_body]
pub struct ExSha1(sha1::Sha1);

/// The SHA-512 hasher of `sha2`.
#[verifier::external_type_specification]
#[verifier::external_body]
pub struct ExSha512(sha2::Sha512);

/// The bytes that a SHA-1 hasher has taken in.
pub uninterp spec fn sha1_input(h: sha1::Sha1) -> Seq<u8>;

/// The bytes that a SHA-512 hasher has taken in.
pub uninterp spec fn sha512_input(h: sha2::Sha512) -> Seq<u8>;

/// The SHA-1 checksum of bytes.
pub uninterp spec fn sha1_sum(b: Seq<u8>) -> Seq<u8>;

/// The SHA-512 checksum of bytes.
pub uninterp spec fn sha512_sum(b: Seq<u8>) -> Seq<u8>;

/// `sha1::Sha1::new`: a hasher that has taken in nothing.
#[verifier::external_body]
fn sha1_new() -> (h: sha1::Sha1)
    ensures
        sha1_input(h).len() == 0,
{
    sha1::Digest::new()
}

/// `Digest::update` of SHA-1: the bytes are taken in behind those before.
#[verifier::external_body]
fn sha1_update(h: &mut sha1::Sha1, b: &[u8])
    ensures
        sha1_input(*final(h)) == sha1_input(*old(h)) + b@,
{
    sha1::Digest::update(h, b)
}

/// `Digest::finalize` of SHA-1: the checksum of all that was taken in.
#[verifier::external_body]
fn sha1_finish(h: sha1::Sha1) -> (r: Vec<u8>)
    ensures
        r@ == sha1_sum(sha1_input(h)),
        r@.len() == 20,
{
    sha1::Digest::finalize(h).to_vec()
}

/// `sha2::Sha512::new`: a hasher that has taken in nothing.
#[verifier::external_body]
fn sha512_new() -> (h: sha2::Sha512)
    ensures
        sha512_input(h).len() == 0,
{
    sha2::Digest::new()
}

/// `Digest::update` of SHA-512: the bytes are taken in behind those before.
#[verifier::external_body]
fn sha512_update(h: &mut sha2::Sha512, b: &[u8])
    ensures
        sha512_input(*final(h)) == sha512_input(*old(h)) + b@,
{
    sha2::Digest::update(h, b)
}

/// `Digest::finalize` of SHA-512: the checksum of all that was taken in.
#[verifier::external_body]
fn sha512_finish(h: sha2::Sha512) -> (r: Vec<u8>)
    ensures
        r@ == sha512_sum(sha512_input(h)),
        r@.len() == 64,
{
    sha2::Digest::finalize(h).to_vec()
}

/// The hexadecimal digit with value `d`.
pub open spec fn hex_digit(d: nat) -> char {
    if d < 10 {
        (48 + d) as char
    } else {
        (87 + d) as char
    }
}

/// Bytes in hexadecimal, two lower-case digits each.
pub open spec fn hex(b: Seq<u8>) -> Seq<char>
    decreases b.len(),
{
    if b.len() == 0 {
        Seq::empty()
    } else {
        hex(b.drop_last()).push(hex_digit((b.last() / 16) as nat)).push(
            hex_digit((b.last() % 16) as nat),
        )
    }
}

fn hex_char(d: u8) -> (r: char)
    requires
        d < 16,
    ensures
        r == hex_digit(d as nat),
{
    if d < 10 {
        (48 + d) as char
    } else {
        (87 + d) as char
    }
}

/// Writes bytes in hexadecimal.
pub fn to_hex(b: &Vec<u8>) -> (r: String)
    ensures
        r@ == hex(b@),
{
    let mut r = String::new();
    assert(b@.take(0) =~= Seq::<u8>::empty());
    for i in 0..b.len()
        invariant
            r@ == hex(b@.take(i as int)),
    {
        assert(b@.take(i + 1).drop_last() =~= b@.take(i as int));
        r.push(hex_char(b[i] / 16));
        r.push(hex_char(b[i] % 16));
    }
    assert(b@.take(b@.len() as int) =~= b@);
    r
}

/// Two checksums with the same hexadecimal form are equal.
pub proof fn lemma_hex_injective(a: Seq<u8>, b: Seq<u8>)
    requires
        hex(a) == hex(b),
    ensures
        a == b,
    decreases a.len() + b.len(),
{
    lemma_hex_len(a);
    lemma_hex_len(b);
    if a.len() == 0 {
        assert(a =~= b);
    } else {
        let x = hex(a);
        let n = x.len() as int;
        assert(x.drop_last().drop_last() =~= hex(a.drop_last()));
        assert(hex(b).drop_last().drop_last() =~= hex(b.drop_last()));
        lemma_hex_injective(a.drop_last(), b.drop_last());
        assert(x[n - 1] == hex_digit((a.last() % 16) as nat));
        assert(x[n - 2] == hex_digit((a.last() / 16) as nat));
        assert(hex(b)[n - 1] == hex_digit((b.last() % 16) as nat));
        assert(hex(b)[n - 2] == hex_digit((b.last() / 16) as nat));
        assert(a =~= a.drop_last().push(a.last()));
        assert(b =~= b.drop_last().push(b.last()));
    }
}

proof fn lemma_hex_len(b: Seq<u8>)
    ensures
        hex(b).len() == 2 * b.len(),
    decreases b.len(),
{
    if b.len() > 0 {
        lemma_hex_len(b.drop_last());
    }
}

/// A download in progress: its checksums and its size so far.
pub struct Download {
    pub sha1: sha1::Sha1,
    pub sha512: sha2::Sha512,
    pub size: u64,
}

impl Download {
    /// The bytes that have come in.
    pub open spec fn bytes(self) -> Seq<u8> {
        sha1_input(self.sha1)
    }

    /// Whether both checksums and the size are of the same bytes.
    pub open spec fn wf(self) -> bool {
        &&& sha512_input(self.sha512) == self.bytes()
        &&& self.size == self.bytes().len()
    }

    /// A download of which nothing has come in.
    pub fn new() -> (r: Download)
        ensures
            r.wf(),
            r.bytes() == Seq::<u8>::empty(),
    {
        let r = Download { sha1: sha1_new(), sha512: sha512_new(), size: 0 };
        assert(sha512_input(r.sha512) =~= r.bytes());
        r
    }

    /// Takes in the next bytes.
    pub fn absorb(&mut self, chunk: &[u8])
        requires
            old(self).wf(),
            old(self).size + chunk@.len() <= u64::MAX,
        ensures
            final(self).wf(),
            final(self).bytes() == old(self).bytes() + chunk@,
    {
        sha1_update(&mut self.sha1, chunk);
        sha512_update(&mut self.sha512, chunk);
        self.size = self.size + chunk.len() as u64;
    }

    /// The checksums of all that has come in, in hexadecimal.
    pub fn finish(self) -> (r: (String, String))
        requires
            self.wf(),
        ensures
            r.0@ == hex(sha1_sum(self.bytes())),
            r.1@ == hex(sha512_sum(self.bytes())),
    {
        let a = sha1_finish(self.sha1);
        let b = sha512_finish(self.sha512);
        (to_hex(&a), to_hex(&b))
    }
}

} // verus!
