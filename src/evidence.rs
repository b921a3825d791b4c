//! Evidence of malfeasance by validators (signing conflicting votes), carried
//! as opaque bytes with a lossless base64 text form.
use vstd::prelude::*;

verus! {

/// Byte of the base64 padding character.
pub const PAD: u8 = 61;

/// What base64 encoding (RFC 4648, padded) makes of the given bytes.
pub uninterp spec fn base64_of(b: Seq<u8>) -> Seq<u8>;

/// What base64 decoding makes of the given text: the bytes, or `None` where
/// the text is not valid base64.
pub uninterp spec fn base64_decoded(s: Seq<u8>) -> Option<Seq<u8>>;

/// Start of the last group of (at most) four characters that a base64
/// decoder reads from a text of `n > 0` characters.
pub open spec fn last_group_start(n: int) -> int {
    n - ((n - 1) % 4 + 1)
}

/// The text is empty, or its last group starts with a non-padding character
/// and, once padding starts, holds nothing but padding.
pub open spec fn well_padded(s: Seq<u8>) -> bool {
    s.len() == 0 || (s[last_group_start(s.len() as int)] != PAD && forall|j: int|
        last_group_start(s.len() as int) < j < s.len() && #[trigger] s[j - 1] == PAD ==> s[j]
            == PAD)
}

/// A byte of the padded base64 alphabet: `A-Z`, `a-z`, `0-9`, `+`, `/`
/// and the padding `=`.
pub open spec fn is_base64_byte(c: u8) -> bool {
    (65 <= c <= 90) || (97 <= c <= 122) || (48 <= c <= 57) || c == 43 || c == 47 || c == PAD
}

/// Declares the decoder's error so that it can be mapped to this library's.
#[verifier::external_type_specification]
#[verifier::external_body]
pub struct ExEncodingError(subtle_encoding::Error);

/// Relies on `subtle_encoding::base64::encode`: padded base64 of the bytes.
/// Its output is made of bytes of the base64 alphabet, in whole groups of
/// four with padding only at the end of the last one, and decoding it gives
/// the bytes back.
#[verifier::external_body]
fn encode_base64(b: &Vec<u8>) -> (r: Vec<u8>)
    requires
        b@.len() <= usize::MAX / 4,
    ensures
        r@ == base64_of(b@),
        forall|i: int| 0 <= i < r@.len() ==> is_base64_byte(#[trigger] r@[i]),
        well_padded(r@),
        base64_decoded(r@) == Some(b@),
{
    subtle_encoding::base64::encode(b)
}

/// Relies on `subtle_encoding::base64::decode`. It panics on some texts that
/// are not well padded, which are therefore left out.
#[verifier::external_body]
fn decode_base64(s: &Vec<u8>) -> (r: Result<Vec<u8>, subtle_encoding::Error>)
    requires
        well_padded(s@),
    ensures
        match r {
            Ok(d) => base64_decoded(s@) == Some(d@),
            Err(_) => base64_decoded(s@) is None,
        },
{
    subtle_encoding::base64::decode(s)
}

/// Why a text could not be turned into evidence.
#[derive(Debug, PartialEq, Eq)]
pub enum DecodeError {
    /// The text's padding is misplaced.
    Padding,
    /// The text is not valid base64; holds the decoder's diagnostic.
    Encoding(subtle_encoding::Error),
}

/// Evidence of malfeasance by validators, kept as the raw bytes of its
/// encoded message.
#[derive(Clone, Debug)]
pub struct Evidence(Vec<u8>);

impl View for Evidence {
    type V = Seq<u8>;

    closed spec fn view(&self) -> Seq<u8> {
        self.0@
    }
}

/// Checks the shape that the decoder needs, character by character.
fn check_padding(s: &Vec<u8>) -> (r: bool)
    ensures
        r == well_padded(s@),
{
    let n = s.len();
    if n == 0 {
        return true;
    }
    let start: usize = n - ((n - 1) % 4 + 1);
    if s[start] == PAD {
        return false;
    }
    let mut j: usize = start + 1;
    while j < n
        invariant
            start < j <= n,
            n == s@.len(),
            start == last_group_start(n as int),
            forall|k: int| start < k < j && #[trigger] s@[k - 1] == PAD ==> s@[k] == PAD,
        decreases n - j,
    {
        if s[j - 1] == PAD && s[j] != PAD {
            return false;
        }
        j = j + 1;
    }
    true
}

/// The evidence that a base64 text decodes to, if it is well padded and
/// valid.
pub open spec fn evidence_of_text(s: Seq<u8>) -> Option<Seq<u8>> {
    if well_padded(s) {
        base64_decoded(s)
    } else {
        None
    }
}

impl Evidence {
    /// Wraps raw evidence bytes.
    pub fn new(bytes: Vec<u8>) -> (r: Evidence)
        ensures
            r@ == bytes@,
    {
        Evidence(bytes)
    }

    /// The raw bytes of the evidence message.
    pub fn to_amino_bytes(&self) -> (r: Vec<u8>)
        ensures
            r@ == self@,
    {
        self.0.clone()
    }

    /// The base64 text form of the evidence, made of base64 characters
    /// only; reading it back gives the same bytes.
    pub fn to_base64(&self) -> (r: Vec<u8>)
        requires
            self@.len() <= usize::MAX / 4,
        ensures
            r@ == base64_of(self@),
            forall|i: int| 0 <= i < r@.len() ==> is_base64_byte(#[trigger] r@[i]),
            evidence_of_text(r@) == Some(self@),
    {
        encode_base64(&self.0)
    }

    /// Reads evidence from its base64 text form.
    pub fn from_base64(text: &Vec<u8>) -> (r: Result<Evidence, DecodeError>)
        ensures
            match r {
                Ok(e) => evidence_of_text(text@) == Some(e@),
                Err(DecodeError::Padding) => !well_padded(text@),
                Err(DecodeError::Encoding(_)) => well_padded(text@) && base64_decoded(text@) is None,
            },
    {
        if !check_padding(text) {
            return Err(DecodeError::Padding);
        }
        match decode_base64(text) {
            Ok(bytes) => Ok(Evidence(bytes)),
            Err(e) => Err(DecodeError::Encoding(e)),
        }
    }
}

/// A list of evidence, possibly absent on the wire.
#[derive(Clone, Debug)]
pub struct Data {
    evidence: Option<Vec<Evidence>>,
}

impl View for Data {
    type V = Option<Seq<Evidence>>;

    closed spec fn view(&self) -> Option<Seq<Evidence>> {
        match self.evidence {
            Some(v) => Some(v@),
            None => None,
        }
    }
}

/// The evidence a collection holds, in order; an absent list holds none.
pub open spec fn data_items(d: Option<Seq<Evidence>>) -> Seq<Evidence> {
    match d {
        Some(s) => s,
        None => Seq::empty(),
    }
}

impl Default for Data {
    /// A collection whose list is absent.
    fn default() -> (r: Data)
        ensures
            r@ is None,
            data_items(r@).len() == 0,
    {
        Data { evidence: None }
    }
}

impl Data {
    /// A collection holding the given evidence, in order; the list is
    /// present even when empty.
    pub fn new(evidence: Vec<Evidence>) -> (r: Data)
        ensures
            r@ == Some(evidence@),
    {
        Data { evidence: Some(evidence) }
    }

    /// The collection's evidence, in order.
    pub fn into_vec(self) -> (r: Vec<Evidence>)
        ensures
            r@ == data_items(self@),
    {
        match self.evidence {
            Some(v) => v,
            None => Vec::new(),
        }
    }

    /// Whether the list is present, as opposed to absent.
    pub fn is_present(&self) -> (r: bool)
        ensures
            r == self@ is Some,
    {
        self.evidence.is_some()
    }

    /// A read-only view of the collection's evidence, in order.
    pub fn iter(&self) -> (r: &[Evidence])
        ensures
            r@ == data_items(self@),
    {
        match &self.evidence {
            Some(v) => v.as_slice(),
            None => &[],
        }
    }
}

/// Evidence collection parameters.
#[derive(Clone, Copy, Debug, PartialEq, Eq, Structural)]
pub struct Params {
    /// Maximum allowed age for evidence to be collected.
    pub max_age: u64,
}

} // verus!
