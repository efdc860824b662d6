//! The request record of the content-download endpoint: which repository,
//! and which content identifier.  The identifier arrives as text; parsing
//! it into the fixed-size content hash is the part of the endpoint that
//! computes, so it lives here.

use vstd::prelude::*;
use vstd::string::StrSliceExecFns;

verus! {

/// How many bytes a content identifier has.
pub const CONTENT_ID_BYTES: usize = 32;

/// `c` is a lower- or upper-case hexadecimal digit.
pub open spec fn is_hex_digit(c: char) -> bool {
    ('0' <= c && c <= '9') || ('a' <= c && c <= 'f') || ('A' <= c && c <= 'F')
}

/// The value of a hexadecimal digit.
pub open spec fn hex_val(c: char) -> int {
    if '0' <= c && c <= '9' {
        c as int - '0' as int
    } else if 'a' <= c && c <= 'f' {
        c as int - 'a' as int + 10
    } else {
        c as int - 'A' as int + 10
    }
}

/// `s` spells a content identifier: exactly two hexadecimal digits per
/// byte of the hash.
pub open spec fn valid_content_id(s: Seq<char>) -> bool {
    s.len() == 2 * CONTENT_ID_BYTES && forall|i: int| 0 <= i < s.len() ==> is_hex_digit(#[trigger] s[i])
}

/// The bytes a valid content identifier spells.
pub open spec fn spec_content_id_bytes(s: Seq<char>) -> Seq<u8> {
    Seq::new(CONTENT_ID_BYTES as nat, |i: int| (16 * hex_val(s[2 * i]) + hex_val(s[2 * i + 1])) as u8)
}

/// Parameters of a download request.
#[derive(Debug)]
pub struct DownloadParams {
    repository: String,
    content_id: String,
}

impl DownloadParams {
    pub fn new(repository: String, content_id: String) -> (r: DownloadParams)
        ensures
            r.spec_repository() == repository@,
            r.spec_content_id() == content_id@,
    {
        DownloadParams { repository, content_id }
    }

    /// The repository the request addresses.
    pub closed spec fn spec_repository(self) -> Seq<char> {
        self.repository@
    }

    /// The textual content identifier the request carries.
    pub closed spec fn spec_content_id(self) -> Seq<char> {
        self.content_id@
    }

    pub fn repository(&self) -> (r: &str)
        ensures
            r@ == self.spec_repository(),
    {
        self.repository.as_str()
    }

    /// Parse the textual content identifier into the fixed-size hash it
    /// spells; a request whose identifier is not exactly two hexadecimal
    /// digits per byte is invalid.
    pub fn parse_content_id(&self) -> (r: Option<Vec<u8>>)
        ensures
            valid_content_id(self.spec_content_id()) ==> (r matches Some(b) && b@
                == spec_content_id_bytes(self.spec_content_id())),
            !valid_content_id(self.spec_content_id()) ==> r is None,
    {
        let s = self.content_id.as_str();
        let n = s.unicode_len();
        if n != 2 * CONTENT_ID_BYTES {
            return None;
        }
        let mut bytes: Vec<u8> = Vec::new();
        let mut i: usize = 0;
        while i < CONTENT_ID_BYTES
            invariant
                i <= CONTENT_ID_BYTES,
                s@ == self.spec_content_id(),
                s@.len() == 2 * CONTENT_ID_BYTES,
                bytes@.len() == i,
                forall|j: int| 0 <= j < 2 * i ==> is_hex_digit(#[trigger] s@[j]),
                forall|j: int|
                    0 <= j < i ==> bytes@[j] == (16 * hex_val(s@[2 * j]) + hex_val(
                        s@[2 * j + 1],
                    )) as u8,
            decreases CONTENT_ID_BYTES - i,
    {
            let hi = match hex_digit_val(s.get_char(2 * i)) {
                Some(v) => v,
                None => {
                    return None;
                },
            };
            let lo = match hex_digit_val(s.get_char(2 * i + 1)) {
                Some(v) => v,
                None => {
                    return None;
                },
            };
            bytes.push(16 * hi + lo);
            i += 1;
        }
        proof {
            assert(bytes@ =~= spec_content_id_bytes(self.spec_content_id()));
        }
        Some(bytes)
    }
}

/// The value of one hexadecimal digit, or nothing for any other
/// character.
fn hex_digit_val(c: char) -> (r: Option<u8>)
    ensures
        is_hex_digit(c) ==> (r matches Some(v) && v == hex_val(c) && v < 16),
        !is_hex_digit(c) ==> r is None,
{
    if c >= '0' && c <= '9' {
        Some((c as u8) - 48)
    } else if c >= 'a' && c <= 'f' {
        Some((c as u8) - 97 + 10)
    } else if c >= 'A' && c <= 'F' {
        Some((c as u8) - 65 + 10)
    } else {
        None
    }
}

} // verus!
