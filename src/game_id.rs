//! Game ids of the lobby service: six characters, each a digit from 1 to 9.

use vstd::prelude::*;
use vstd::string::{is_ascii_spec_bytes, StringSliceAdditionalSpecFns};

verus! {

/// Length of a game id.
pub const ID_LEN: usize = 6;

/// Whether a character may appear in a game id: a digit from 1 to 9.
pub open spec fn valid_id_char(c: char) -> bool {
    '1' <= c <= '9'
}

/// Whether the characters form a game id.
pub open spec fn valid_id(chars: Seq<char>) -> bool {
    &&& chars.len() == ID_LEN
    &&& forall|i: int| 0 <= i < chars.len() ==> valid_id_char(#[trigger] chars[i])
}

/// Why a string is not a game id.
#[derive(Debug, Clone, Copy, PartialEq, Eq, Structural)]
pub enum ParseError {
    /// The string is not six bytes long; this is its length in bytes.
    InvalidLength(usize),
    /// A character is not a digit from 1 to 9.
    InvalidChars,
}

/// Relies on nanoid's `format` with nanoid's default random source: `size`
/// characters, each taken from the alphabet. It panics on an alphabet longer
/// than 255 characters, never returns for an empty alphabet or a size of 0,
/// and counts the size in bytes, so the alphabet here is ASCII.
#[verifier::external_body]
fn nanoid_format(alphabet: &Vec<char>, size: usize) -> (r: String)
    requires
        0 < alphabet@.len() <= 255,
        forall|i: int| 0 <= i < alphabet@.len() ==> '\0' <= #[trigger] alphabet@[i] <= '\u{7f}',
        size > 0,
    ensures
        r@.len() == size,
        forall|i: int| 0 <= i < r@.len() ==> alphabet@.contains(#[trigger] r@[i]),
{
    nanoid::format(nanoid::rngs::default, alphabet.as_slice(), size)
}

/// The characters of game ids.
fn id_alphabet() -> (r: Vec<char>)
    ensures
        r@.len() == 9,
        forall|c: char| r@.contains(c) <==> valid_id_char(c),
{
    let mut r: Vec<char> = Vec::new();
    r.push('1');
    r.push('2');
    r.push('3');
    r.push('4');
    r.push('5');
    r.push('6');
    r.push('7');
    r.push('8');
    r.push('9');
    assert forall|c: char| r@.contains(c) <==> valid_id_char(c) by {
        if valid_id_char(c) {
            let k = (c as u32 - 49) as int;
            assert(r@[k] == c);
        }
    }
    r
}

/// A game id.
#[derive(Debug, Clone, PartialEq, Eq)]
pub struct Id(String);

impl View for Id {
    type V = Seq<char>;

    closed spec fn view(&self) -> Seq<char> {
        self.0@
    }
}

impl Id {
    /// Length of a game id.
    pub const LEN: usize = 6;

    /// Well-formed: six characters from 1 to 9.
    pub open spec fn wf(&self) -> bool {
        valid_id(self@)
    }

    /// A new random id.
    pub fn new() -> (r: Id)
        ensures
            r.wf(),
    {
        let alphabet = id_alphabet();
        assert forall|i: int| 0 <= i < alphabet@.len() implies '\0' <= #[trigger] alphabet@[i]
            <= '\u{7f}' by {
            assert(alphabet@.contains(alphabet@[i]));
            assert(valid_id_char(alphabet@[i]));
            assert((alphabet@[i] as u32) <= 57);
        }
        let s = nanoid_format(&alphabet, ID_LEN);
        assert forall|i: int| 0 <= i < s@.len() implies valid_id_char(#[trigger] s@[i]) by {
            assert(alphabet@.contains(s@[i]));
        }
        Id(s)
    }

    pub fn as_str(&self) -> (r: &str)
        ensures
            r@ == self@,
    {
        self.0.as_str()
    }

    /// Reads a game id: its length in bytes must be six, then every character
    /// must be a digit from 1 to 9.
    pub fn parse(s: &str) -> (r: Result<Id, ParseError>)
        ensures
            s.spec_bytes().len() != ID_LEN ==> r == Err::<Id, ParseError>(
                ParseError::InvalidLength(s.spec_bytes().len() as usize),
            ),
            s.spec_bytes().len() == ID_LEN && !valid_id(s@) ==> r == Err::<Id, ParseError>(
                ParseError::InvalidChars,
            ),
            s.spec_bytes().len() == ID_LEN && valid_id(s@) ==> (r matches Ok(id) && id@ == s@
                && id.wf()),
    {
        let bytes = s.as_bytes();
        let len = bytes.len();
        if len != ID_LEN {
            proof {
                if valid_id(s@) {
                    assert(vstd::string::is_ascii(s));
                    is_ascii_spec_bytes(s);
                }
            }
            return Err(ParseError::InvalidLength(len));
        }
        if !s.is_ascii() {
            proof {
                if valid_id(s@) {
                    assert(vstd::string::is_ascii(s));
                }
            }
            return Err(ParseError::InvalidChars);
        }
        proof {
            is_ascii_spec_bytes(s);
        }
        let mut i: usize = 0;
        while i < ID_LEN
            invariant
                i <= ID_LEN,
                bytes@ == s.spec_bytes(),
                bytes@.len() == ID_LEN,
                s@.len() == ID_LEN,
                vstd::string::is_ascii(s),
                forall|k: int| 0 <= k < s@.len() ==> #[trigger] bytes@[k] == s@[k] as u8,
                forall|k: int| 0 <= k < i ==> valid_id_char(#[trigger] s@[k]),
            decreases ID_LEN - i,
        {
            let b = bytes[i];
            if b < 49 || b > 57 {
                proof {
                    assert('\0' <= s@[i as int] <= '\u{7f}');
                }
                return Err(ParseError::InvalidChars);
            }
            proof {
                assert('\0' <= s@[i as int] <= '\u{7f}');
            }
            i = i + 1;
        }
        Ok(Id(s.to_owned()))
    }
}

impl std::str::FromStr for Id {
    type Err = ParseError;

    fn from_str(s: &str) -> Result<Id, ParseError> {
        Id::parse(s)
    }
}

} // verus!
