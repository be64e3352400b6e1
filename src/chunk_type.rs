//! The four-byte chunk type. Its letters are ASCII, and bit 5 of each one
//! (the case bit) carries one property of the chunk.
use vstd::prelude::*;
use vstd::string::*;
use vstd::utf8::*;
use crate::wire::string_from_utf8;

verus! {

broadcast use {is_ascii_spec_bytes, is_ascii_chars_encode_utf8, encode_utf8_valid_utf8, encode_utf8_decode_utf8};

pub open spec fn is_upper(b: u8) -> bool {
    65 <= b <= 90
}

pub open spec fn is_lower(b: u8) -> bool {
    97 <= b <= 122
}

pub open spec fn is_alpha(b: u8) -> bool {
    is_upper(b) || is_lower(b)
}

pub open spec fn is_alpha_char(c: char) -> bool {
    ('A' <= c <= 'Z') || ('a' <= c <= 'z')
}

/// Four ASCII letters: the bytes of a chunk type.
pub open spec fn valid_tag(t: Seq<u8>) -> bool {
    t.len() == 4 && forall|i: int| 0 <= i < 4 ==> #[trigger] is_alpha(t[i])
}

/// The bytes of a text made of ASCII characters.
pub open spec fn ascii_bytes(s: Seq<char>) -> Seq<u8> {
    Seq::new(s.len(), |i: int| s[i] as u8)
}

/// The characters of a sequence of ASCII bytes.
pub open spec fn ascii_chars(b: Seq<u8>) -> Seq<char> {
    Seq::new(b.len(), |i: int| b[i] as char)
}

proof fn lemma_ascii_letter(c: char)
    requires
        '\0' <= c <= '\u{7f}',
    ensures
        is_alpha(c as u8) <==> is_alpha_char(c),
{
}

proof fn lemma_letter_is_ascii(b: u8)
    requires
        is_alpha(b),
    ensures
        '\0' <= (b as char) <= '\u{7f}',
        (b as char) as u8 == b,
{
}

/// Whether the case bit (bit 5) of the letter `b` is clear, which for a
/// letter means that it is uppercase.
fn case_bit_clear(b: u8) -> (r: bool)
    requires
        is_alpha(b),
    ensures
        r == is_upper(b),
{
    assert(is_alpha(b) ==> ((b & 0x20 == 0) <==> is_upper(b))) by (bit_vector);
    b & 0x20 == 0
}

fn is_alpha_byte(b: u8) -> (r: bool)
    ensures
        r == is_alpha(b),
{
    (65 <= b && b <= 90) || (97 <= b && b <= 122)
}

#[derive(Debug, Clone, Copy)]
pub struct ChunkType([u8; 4]);

#[derive(Debug, Clone, Copy, PartialEq, Eq)]
pub enum ChunkTypeError {
    /// A byte of the array is not an ASCII letter.
    InvalidArray,
    /// The text is not four ASCII letters.
    InvalidString,
}

impl View for ChunkType {
    type V = Seq<u8>;

    closed spec fn view(&self) -> Seq<u8> {
        self.0@
    }
}

impl ChunkType {
    #[verifier::type_invariant]
    spec fn inv(self) -> bool {
        valid_tag(self.0@)
    }

    /// Builds the chunk type `value`, which must be four ASCII letters.
    pub fn try_from(value: [u8; 4]) -> (r: Result<ChunkType, ChunkTypeError>)
        ensures
            r is Ok <==> valid_tag(value@),
            r matches Ok(t) ==> t@ == value@,
            r matches Err(e) ==> e == ChunkTypeError::InvalidArray,
    {
        let mut i: usize = 0;
        while i < 4
            invariant
                0 <= i <= 4,
                value@.len() == 4,
                forall|j: int| 0 <= j < i ==> #[trigger] is_alpha(value@[j]),
            decreases 4 - i,
        {
            if !is_alpha_byte(value[i]) {
                return Err(ChunkTypeError::InvalidArray);
            }
            i = i + 1;
        }
        Ok(ChunkType(value))
    }

    /// Builds the chunk type spelled by `s`, which must be four ASCII letters.
    pub fn from_str(s: &str) -> (r: Result<ChunkType, ChunkTypeError>)
        ensures
            r is Ok <==> (s@.len() == 4 && forall|i: int| 0 <= i < 4 ==> #[trigger] is_alpha_char(s@[i])),
            r matches Ok(t) ==> t@ == ascii_bytes(s@),
            r matches Err(e) ==> e == ChunkTypeError::InvalidString,
    {
        if !s.is_ascii() {
            proof {
                let k = choose|k: int| 0 <= k < s@.len() && !('\0' <= #[trigger] s@[k] <= '\u{7f}');
                if s@.len() == 4 {
                    assert(!is_alpha_char(s@[k]));
                }
            }
            return Err(ChunkTypeError::InvalidString);
        }
        let b = s.as_bytes();
        assert(b@ =~= ascii_bytes(s@));
        if b.len() != 4 {
            return Err(ChunkTypeError::InvalidString);
        }
        let mut i: usize = 0;
        while i < 4
            invariant
                0 <= i <= 4,
                b@ == ascii_bytes(s@),
                s@.len() == 4,
                is_ascii_chars(s@),
                forall|j: int| 0 <= j < i ==> #[trigger] is_alpha_char(s@[j]),
            decreases 4 - i,
        {
            assert(s@[i as int] as u8 == b@[i as int]);
            proof { lemma_ascii_letter(s@[i as int]); }
            if !is_alpha_byte(b[i]) {
                return Err(ChunkTypeError::InvalidString);
            }
            i = i + 1;
        }
        let value: [u8; 4] = [b[0], b[1], b[2], b[3]];
        assert(value@ =~= ascii_bytes(s@));
        assert forall|j: int| 0 <= j < 4 implies #[trigger] is_alpha(value@[j]) by {
            lemma_ascii_letter(s@[j]);
        }
        Ok(ChunkType(value))
    }

    /// The four bytes of the chunk type.
    pub fn bytes(&self) -> (r: [u8; 4])
        ensures
            r@ == self@,
            valid_tag(r@),
    {
        proof { use_type_invariant(self); }
        self.0
    }

    /// A critical chunk has an uppercase first letter.
    pub fn is_critical(&self) -> (r: bool)
        ensures
            r == is_upper(self@[0]),
    {
        proof { use_type_invariant(self); }
        case_bit_clear(self.0[0])
    }

    /// A public chunk has an uppercase second letter.
    pub fn is_public(&self) -> (r: bool)
        ensures
            r == is_upper(self@[1]),
    {
        proof { use_type_invariant(self); }
        case_bit_clear(self.0[1])
    }

    /// The third letter is reserved and must be uppercase.
    pub fn is_reserved_bit_valid(&self) -> (r: bool)
        ensures
            r == is_upper(self@[2]),
    {
        proof { use_type_invariant(self); }
        case_bit_clear(self.0[2])
    }

    /// A chunk that is safe to copy has a lowercase fourth letter.
    pub fn is_safe_to_copy(&self) -> (r: bool)
        ensures
            r == is_lower(self@[3]),
    {
        proof { use_type_invariant(self); }
        !case_bit_clear(self.0[3])
    }

    /// Four ASCII letters with an uppercase reserved letter.
    pub fn is_valid(&self) -> (r: bool)
        ensures
            r == (valid_tag(self@) && is_upper(self@[2])),
    {
        proof { use_type_invariant(self); }
        let all_alpha = is_alpha_byte(self.0[0]) && is_alpha_byte(self.0[1])
            && is_alpha_byte(self.0[2]) && is_alpha_byte(self.0[3]);
        all_alpha && self.is_reserved_bit_valid()
    }

    /// The four letters as text.
    pub fn to_string(&self) -> (r: String)
        ensures
            r@ == ascii_chars(self@),
    {
        proof { use_type_invariant(self); }
        let mut v: Vec<u8> = Vec::new();
        v.push(self.0[0]);
        v.push(self.0[1]);
        v.push(self.0[2]);
        v.push(self.0[3]);
        let ghost chars = ascii_chars(self@);
        proof {
            assert forall|j: int| 0 <= j < 4 implies '\0' <= #[trigger] chars[j] <= '\u{7f}'
                && chars[j] as u8 == v@[j] by {
                lemma_letter_is_ascii(self@[j]);
            }
            assert(is_ascii_chars(chars));
            assert(encode_utf8(chars) =~= v@);
        }
        match string_from_utf8(v) {
            Some(s) => s,
            None => String::new(),
        }
    }
}

impl PartialEq for ChunkType {
    fn eq(&self, other: &ChunkType) -> (r: bool) {
        let r = self.0[0] == other.0[0] && self.0[1] == other.0[1] && self.0[2] == other.0[2]
            && self.0[3] == other.0[3];
        proof {
            if r {
                assert(self@ =~= other@);
            }
        }
        r
    }
}

impl vstd::std_specs::cmp::PartialEqSpecImpl for ChunkType {
    open spec fn obeys_eq_spec() -> bool {
        true
    }

    open spec fn eq_spec(&self, other: &ChunkType) -> bool {
        self@ == other@
    }
}

impl Eq for ChunkType {

}

} // verus!
