use vstd::prelude::*;
use vstd::string::StringExecFns;
use md5::Md5;
use sha1::Sha1;
use sha2::Digest;
use sha2::Sha256;
use super::tools::concat2;
use super::tools::str_eq;
use super::Error;

verus! {

/// The digest algorithms a library can be created with.
#[derive(Debug, Clone, Copy, PartialEq, Eq, Structural)]
pub enum HashAlgo {
    MD5,
    SHA1,
    SHA256,
    BLAKE3,
}

/// The MD5 digest of `data`.
pub uninterp spec fn md5_digest(data: Seq<u8>) -> Seq<u8>;

/// The SHA-1 digest of `data`.
pub uninterp spec fn sha1_digest(data: Seq<u8>) -> Seq<u8>;

/// The SHA-256 digest of `data`.
pub uninterp spec fn sha256_digest(data: Seq<u8>) -> Seq<u8>;

/// The BLAKE3 digest of `data`.
pub uninterp spec fn blake3_digest(data: Seq<u8>) -> Seq<u8>;

/// `Md5::digest`: the digest depends on the bytes alone and has 16 bytes.
#[verifier::external_body]
fn md5_of(data: &[u8]) -> (r: Vec<u8>)
    ensures
        r@ == md5_digest(data@),
        r@.len() == 16,
{
    Md5::digest(data).to_vec()
}

/// `Sha1::digest`: the digest depends on the bytes alone and has 20 bytes.
#[verifier::external_body]
fn sha1_of(data: &[u8]) -> (r: Vec<u8>)
    ensures
        r@ == sha1_digest(data@),
        r@.len() == 20,
{
    Sha1::digest(data).to_vec()
}

/// `Sha256::digest`: the digest depends on the bytes alone and has 32 bytes.
#[verifier::external_body]
fn sha256_of(data: &[u8]) -> (r: Vec<u8>)
    ensures
        r@ == sha256_digest(data@),
        r@.len() == 32,
{
    Sha256::digest(data).to_vec()
}

/// `blake3::hash`: the digest depends on the bytes alone and has 32 bytes.
#[verifier::external_body]
fn blake3_of(data: &[u8]) -> (r: Vec<u8>)
    ensures
        r@ == blake3_digest(data@),
        r@.len() == 32,
{
    blake3::hash(data).as_bytes().to_vec()
}

/// `Md5::output_size`: an MD5 digest has 16 bytes.
#[verifier::external_body]
fn md5_size() -> (r: usize)
    ensures
        r == 16,
{
    Md5::output_size()
}

/// `Sha1::output_size`: a SHA-1 digest has 20 bytes.
#[verifier::external_body]
fn sha1_size() -> (r: usize)
    ensures
        r == 20,
{
    Sha1::output_size()
}

/// `Sha256::output_size`: a SHA-256 digest has 32 bytes.
#[verifier::external_body]
fn sha256_size() -> (r: usize)
    ensures
        r == 32,
{
    Sha256::output_size()
}

/// `blake3::OUT_LEN`: a BLAKE3 digest has 32 bytes.
#[verifier::external_body]
fn blake3_size() -> (r: usize)
    ensures
        r == 32,
{
    blake3::OUT_LEN
}

/// The upper-case hexadecimal digit for `n`, which must be below 16.
pub open spec fn hex_char(n: nat) -> char {
    if n == 0 {
        '0'
    } else if n == 1 {
        '1'
    } else if n == 2 {
        '2'
    } else if n == 3 {
        '3'
    } else if n == 4 {
        '4'
    } else if n == 5 {
        '5'
    } else if n == 6 {
        '6'
    } else if n == 7 {
        '7'
    } else if n == 8 {
        '8'
    } else if n == 9 {
        '9'
    } else if n == 10 {
        'A'
    } else if n == 11 {
        'B'
    } else if n == 12 {
        'C'
    } else if n == 13 {
        'D'
    } else if n == 14 {
        'E'
    } else {
        'F'
    }
}

/// Whether `c` is one of `0`-`9`, `A`-`F`.
pub open spec fn is_hex_char(c: char) -> bool {
    exists|n: nat| n < 16 && c == #[trigger] hex_char(n)
}

/// Two upper-case hexadecimal digits for each byte, high digit first.
pub open spec fn hex_upper(data: Seq<u8>) -> Seq<char>
    decreases data.len(),
{
    if data.len() == 0 {
        Seq::<char>::empty()
    } else {
        hex_upper(data.drop_last()).push(hex_char((data.last() / 16) as nat)).push(
            hex_char((data.last() % 16) as nat),
        )
    }
}

/// Whether `s` consists of upper-case hexadecimal digits only.
pub open spec fn is_upper_hex(s: Seq<char>) -> bool {
    forall|i: int| 0 <= i < s.len() ==> is_hex_char(#[trigger] s[i])
}

/// The hexadecimal text of `data` is twice as long as `data` and made of
/// hexadecimal digits.
pub proof fn lemma_hex_upper(data: Seq<u8>)
    ensures
        hex_upper(data).len() == 2 * data.len(),
        is_upper_hex(hex_upper(data)),
    decreases data.len(),
{
    if data.len() > 0 {
        lemma_hex_upper(data.drop_last());
        let hi = (data.last() / 16) as nat;
        let lo = (data.last() % 16) as nat;
        assert(is_hex_char(hex_char(hi)));
        assert(is_hex_char(hex_char(lo)));
    }
}

/// Different bytes have different hexadecimal texts.
pub proof fn lemma_hex_upper_distinct(x: Seq<u8>, y: Seq<u8>)
    requires
        hex_upper(x) == hex_upper(y),
    ensures
        x == y,
    decreases x.len(),
{
    lemma_hex_upper(x);
    lemma_hex_upper(y);
    if x.len() > 0 {
        let hx = hex_upper(x);
        let hy = hex_upper(y);
        let px = hex_upper(x.drop_last());
        let py = hex_upper(y.drop_last());
        assert(hx.drop_last().drop_last() =~= px);
        assert(hy.drop_last().drop_last() =~= py);
        assert(hx[hx.len() - 1] == hex_char((x.last() % 16) as nat));
        assert(hy[hy.len() - 1] == hex_char((y.last() % 16) as nat));
        assert(hx[hx.len() - 2] == hex_char((x.last() / 16) as nat));
        assert(hy[hy.len() - 2] == hex_char((y.last() / 16) as nat));
        assert(x.last() % 16 == y.last() % 16);
        assert(x.last() / 16 == y.last() / 16);
        assert(x.last() == y.last());
        lemma_hex_upper_distinct(x.drop_last(), y.drop_last());
        assert(x =~= x.drop_last().push(x.last()));
        assert(y =~= y.drop_last().push(y.last()));
    } else {
        assert(x =~= y);
    }
}

fn hex_digit_str(n: u8) -> (r: &'static str)
    requires
        n < 16,
    ensures
        r@ == seq![hex_char(n as nat)],
{
    proof {
        reveal_strlit("0");
        reveal_strlit("1");
        reveal_strlit("2");
        reveal_strlit("3");
        reveal_strlit("4");
        reveal_strlit("5");
        reveal_strlit("6");
        reveal_strlit("7");
        reveal_strlit("8");
        reveal_strlit("9");
        reveal_strlit("A");
        reveal_strlit("B");
        reveal_strlit("C");
        reveal_strlit("D");
        reveal_strlit("E");
        reveal_strlit("F");
    }
    let r = if n == 0 {
        "0"
    } else if n == 1 {
        "1"
    } else if n == 2 {
        "2"
    } else if n == 3 {
        "3"
    } else if n == 4 {
        "4"
    } else if n == 5 {
        "5"
    } else if n == 6 {
        "6"
    } else if n == 7 {
        "7"
    } else if n == 8 {
        "8"
    } else if n == 9 {
        "9"
    } else if n == 10 {
        "A"
    } else if n == 11 {
        "B"
    } else if n == 12 {
        "C"
    } else if n == 13 {
        "D"
    } else if n == 14 {
        "E"
    } else {
        "F"
    };
    assert(r@ =~= seq![hex_char(n as nat)]);
    r
}

/// Renders `data` as upper-case hexadecimal text.
pub fn to_hex_upper(data: &[u8]) -> (r: String)
    ensures
        r@ == hex_upper(data@),
{
    let mut out = String::new();
    let n: usize = data.len();
    let mut i: usize = 0;
    while i < n
        invariant
            n == data@.len(),
            i <= n,
            out@ == hex_upper(data@.take(i as int)),
        decreases n - i,
    {
        let b: u8 = data[i];
        out.append(hex_digit_str(b / 16));
        out.append(hex_digit_str(b % 16));
        proof {
            let next = data@.take(i + 1);
            assert(next.drop_last() =~= data@.take(i as int));
            assert(next.last() == b);
            assert(out@ =~= hex_upper(next));
        }
        i += 1;
    }
    assert(data@.take(n as int) =~= data@);
    out
}

impl HashAlgo {
    /// The algorithm's name.
    pub open spec fn name(&self) -> Seq<char> {
        match self {
            HashAlgo::MD5 => "MD5"@,
            HashAlgo::SHA1 => "SHA1"@,
            HashAlgo::SHA256 => "SHA256"@,
            HashAlgo::BLAKE3 => "BLAKE3"@,
        }
    }

    /// The algorithm that `name` names, if any.
    pub open spec fn named(name: Seq<char>) -> Option<HashAlgo> {
        if name == "MD5"@ {
            Some(HashAlgo::MD5)
        } else if name == "SHA1"@ {
            Some(HashAlgo::SHA1)
        } else if name == "SHA256"@ {
            Some(HashAlgo::SHA256)
        } else if name == "BLAKE3"@ {
            Some(HashAlgo::BLAKE3)
        } else {
            None
        }
    }

    /// Number of bytes in a digest.
    pub open spec fn size(&self) -> nat {
        match self {
            HashAlgo::MD5 => 16,
            HashAlgo::SHA1 => 20,
            HashAlgo::SHA256 => 32,
            HashAlgo::BLAKE3 => 32,
        }
    }

    /// The digest of `data`.
    pub open spec fn digest(&self, data: Seq<u8>) -> Seq<u8> {
        match self {
            HashAlgo::MD5 => md5_digest(data),
            HashAlgo::SHA1 => sha1_digest(data),
            HashAlgo::SHA256 => sha256_digest(data),
            HashAlgo::BLAKE3 => blake3_digest(data),
        }
    }

    /// The content hash of `data`: its digest as upper-case hexadecimal text.
    pub open spec fn hash_of(&self, data: Seq<u8>) -> Seq<char> {
        hex_upper(self.digest(data))
    }

    /// Whether `hash` has the shape of a content hash of this algorithm.
    pub open spec fn is_hash(&self, hash: Seq<char>) -> bool {
        hash.len() == 2 * self.size() && is_upper_hex(hash)
    }

    pub fn to_string(&self) -> (r: String)
        ensures
            r@ == self.name(),
    {
        match self {
            HashAlgo::MD5 => String::from_str("MD5"),
            HashAlgo::SHA1 => String::from_str("SHA1"),
            HashAlgo::SHA256 => String::from_str("SHA256"),
            HashAlgo::BLAKE3 => String::from_str("BLAKE3"),
        }
    }

    /// Looks an algorithm up by name; an unknown name is `NotExists`.
    pub fn from_string(s: String) -> (r: Result<HashAlgo, Error>)
        ensures
            match HashAlgo::named(s@) {
                Some(a) => r == Ok::<HashAlgo, Error>(a),
                None => r matches Err(Error::NotExists(m)) && m@ == "Hash algo not exists: "@ + s@,
            },
    {
        if str_eq(s.as_str(), "MD5") {
            Ok(HashAlgo::MD5)
        } else if str_eq(s.as_str(), "SHA1") {
            Ok(HashAlgo::SHA1)
        } else if str_eq(s.as_str(), "SHA256") {
            Ok(HashAlgo::SHA256)
        } else if str_eq(s.as_str(), "BLAKE3") {
            Ok(HashAlgo::BLAKE3)
        } else {
            Err(Error::NotExists(concat2("Hash algo not exists: ", s.as_str())))
        }
    }

    /// Hashes `data`. Never fails.
    pub fn do_hash(&self, data: &[u8]) -> (r: Result<String, Error>)
        ensures
            r matches Ok(h) && h@ == self.hash_of(data@) && self.is_hash(h@),
    {
        Ok(self.hash_bytes(data))
    }

    /// The content hash of `data`.
    pub fn hash_bytes(&self, data: &[u8]) -> (h: String)
        ensures
            h@ == self.hash_of(data@),
            self.is_hash(h@),
    {
        let digest = match self {
            HashAlgo::MD5 => md5_of(data),
            HashAlgo::SHA1 => sha1_of(data),
            HashAlgo::SHA256 => sha256_of(data),
            HashAlgo::BLAKE3 => blake3_of(data),
        };
        proof {
            lemma_hex_upper(digest@);
        }
        to_hex_upper(digest.as_slice())
    }

    /// Hashes the UTF-8 bytes of `s`. Never fails.
    pub fn do_hash_str(&self, s: &str) -> (r: Result<String, Error>)
        ensures
            r matches Ok(h) && h@ == self.hash_of(vstd::utf8::encode_utf8(s@)) && self.is_hash(h@),
    {
        self.do_hash(s.as_bytes())
    }

    /// Number of bytes in a digest of this algorithm.
    pub fn get_size(&self) -> (r: usize)
        ensures
            r == self.size(),
    {
        match self {
            HashAlgo::MD5 => md5_size(),
            HashAlgo::SHA1 => sha1_size(),
            HashAlgo::SHA256 => sha256_size(),
            HashAlgo::BLAKE3 => blake3_size(),
        }
    }
}

/// Every algorithm is found again under its own name.
pub proof fn law_name_round_trip(algo: HashAlgo)
    ensures
        HashAlgo::named(algo.name()) == Some(algo),
{
    reveal_strlit("MD5");
    reveal_strlit("SHA1");
    reveal_strlit("SHA256");
    reveal_strlit("BLAKE3");
    assert("MD5"@.len() == 3);
    assert("SHA1"@.len() == 4);
    assert("SHA256"@.len() == 6);
    assert("BLAKE3"@.len() == 6);
    assert("SHA256"@[0] == 'S');
    assert("BLAKE3"@[0] == 'B');
}

} // verus!
