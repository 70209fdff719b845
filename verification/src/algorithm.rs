//! The closed set of digest algorithms a manifest can be built with, together
//! with their canonical lowercase names and fixed hex digest widths.

use vstd::prelude::*;

verus! {

/// A digest algorithm supported by the manifest format.
#[derive(Debug, Clone, Copy, PartialEq, Eq, Structural)]
pub enum HashAlgorithm {
    Sha256,
    Md5,
    Crc32,
    Blake2,
    Xxh3,
}

impl HashAlgorithm {
    /// Width, in hex characters, of every digest this algorithm produces.
    pub open spec fn spec_hex_width(self) -> nat {
        match self {
            HashAlgorithm::Sha256 => 64,
            HashAlgorithm::Md5 => 32,
            HashAlgorithm::Crc32 => 8,
            HashAlgorithm::Blake2 => 64,
            HashAlgorithm::Xxh3 => 16,
        }
    }

    pub fn hex_width(self) -> (w: usize)
        ensures
            w == self.spec_hex_width(),
    {
        match self {
            HashAlgorithm::Sha256 => 64,
            HashAlgorithm::Md5 => 32,
            HashAlgorithm::Crc32 => 8,
            HashAlgorithm::Blake2 => 64,
            HashAlgorithm::Xxh3 => 16,
        }
    }

    /// The canonical lowercase name recorded in a manifest.
    pub open spec fn spec_name(self) -> Seq<char> {
        match self {
            HashAlgorithm::Sha256 => "sha256"@,
            HashAlgorithm::Md5 => "md5"@,
            HashAlgorithm::Crc32 => "crc32"@,
            HashAlgorithm::Blake2 => "blake2"@,
            HashAlgorithm::Xxh3 => "xxh3"@,
        }
    }

    pub fn name(self) -> (r: String)
        ensures
            r@ == self.spec_name(),
    {
        match self {
            HashAlgorithm::Sha256 => "sha256".to_owned(),
            HashAlgorithm::Md5 => "md5".to_owned(),
            HashAlgorithm::Crc32 => "crc32".to_owned(),
            HashAlgorithm::Blake2 => "blake2".to_owned(),
            HashAlgorithm::Xxh3 => "xxh3".to_owned(),
        }
    }

    /// Which algorithm, if any, a manifest naming `name` selects.
    pub open spec fn spec_of_name(name: Seq<char>) -> Option<HashAlgorithm> {
        if name == "sha256"@ {
            Some(HashAlgorithm::Sha256)
        } else if name == "md5"@ {
            Some(HashAlgorithm::Md5)
        } else if name == "crc32"@ {
            Some(HashAlgorithm::Crc32)
        } else if name == "blake2"@ {
            Some(HashAlgorithm::Blake2)
        } else if name == "xxh3"@ {
            Some(HashAlgorithm::Xxh3)
        } else {
            None
        }
    }

    pub fn from_name(name: &str) -> (r: Option<HashAlgorithm>)
        ensures
            r == Self::spec_of_name(name@),
    {
        let n = name.to_owned();
        if n == "sha256".to_owned() {
            Some(HashAlgorithm::Sha256)
        } else if n == "md5".to_owned() {
            Some(HashAlgorithm::Md5)
        } else if n == "crc32".to_owned() {
            Some(HashAlgorithm::Crc32)
        } else if n == "blake2".to_owned() {
            Some(HashAlgorithm::Blake2)
        } else if n == "xxh3".to_owned() {
            Some(HashAlgorithm::Xxh3)
        } else {
            None
        }
    }

    /// An unknown algorithm name in a loaded manifest degrades to SHA-256
    /// instead of aborting the run.
    pub fn from_name_or_default(name: &str) -> (r: HashAlgorithm)
        ensures
            r == match Self::spec_of_name(name@) {
                Some(a) => a,
                None => HashAlgorithm::Sha256,
            },
    {
        match Self::from_name(name) {
            Some(a) => a,
            None => HashAlgorithm::Sha256,
        }
    }

    /// Law: the canonical name of every algorithm parses back to that same
    /// algorithm, so a generated manifest never degrades to the fallback.
    pub proof fn lemma_name_round_trip(self)
        ensures
            Self::spec_of_name(self.spec_name()) == Some(self),
    {
        reveal_strlit("sha256");
        reveal_strlit("md5");
        reveal_strlit("crc32");
        reveal_strlit("blake2");
        reveal_strlit("xxh3");
        assert("sha256"@.len() == 6);
        assert("md5"@.len() == 3);
        assert("crc32"@.len() == 5);
        assert("blake2"@.len() == 6);
        assert("xxh3"@.len() == 4);
        assert("blake2"@ != "sha256"@) by {
            assert("blake2"@[0] == 'b' && "sha256"@[0] == 's');
        }
        match self {
            HashAlgorithm::Sha256 => {
                assert(Self::spec_of_name("sha256"@) == Some(HashAlgorithm::Sha256));
            },
            HashAlgorithm::Md5 => {
                assert(Self::spec_of_name("md5"@) == Some(HashAlgorithm::Md5));
            },
            HashAlgorithm::Crc32 => {
                assert(Self::spec_of_name("crc32"@) == Some(HashAlgorithm::Crc32));
            },
            HashAlgorithm::Blake2 => {
                assert(Self::spec_of_name("blake2"@) == Some(HashAlgorithm::Blake2));
            },
            HashAlgorithm::Xxh3 => {
                assert(Self::spec_of_name("xxh3"@) == Some(HashAlgorithm::Xxh3));
            },
        }
    }
}

} // verus!
