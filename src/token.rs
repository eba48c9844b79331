use vstd::prelude::*;
use vstd::string::*;
use vstd::utf8::is_ascii_chars;
use crate::error::VerificationError;

verus! {

/// The one signature algorithm this verifier accepts: RSASSA-PKCS1-v1_5
/// with SHA-256, the algorithm bound to the provider's RSA keys.
pub open spec fn allowed_algorithm() -> Seq<char> {
    seq!['R', 'S', '2', '5', '6']
}

/// Position of the first `.` of `s` at or after `from`, or `s.len()` if none.
pub open spec fn next_dot(s: Seq<char>, from: int) -> int
    decreases s.len() - from,
{
    if from < 0 || from >= s.len() {
        s.len() as int
    } else if s[from] == '.' {
        from
    } else {
        next_dot(s, from + 1)
    }
}

pub open spec fn first_dot(s: Seq<char>) -> int {
    next_dot(s, 0)
}

pub open spec fn second_dot(s: Seq<char>) -> int {
    next_dot(s, first_dot(s) + 1)
}

/// A compact token: ASCII, exactly two dots, three non-empty segments.
pub open spec fn well_framed(s: Seq<char>) -> bool {
    &&& is_ascii_chars(s)
    &&& 0 < first_dot(s)
    &&& first_dot(s) + 1 < second_dot(s)
    &&& second_dot(s) + 1 < s.len()
    &&& next_dot(s, second_dot(s) + 1) == s.len()
}

/// The header and payload segments with the dot between them: the bytes
/// that the signature covers.
pub open spec fn signing_input_of(s: Seq<char>) -> Seq<char> {
    s.subrange(0, second_dot(s))
}

pub open spec fn payload_of(s: Seq<char>) -> Seq<char> {
    s.subrange(first_dot(s) + 1, second_dot(s))
}

pub open spec fn signature_of(s: Seq<char>) -> Seq<char> {
    s.subrange(second_dot(s) + 1, s.len() as int)
}

pub open spec fn opt_view(o: Option<String>) -> Option<Seq<char>> {
    match o {
        Some(s) => Some(s@),
        None => None,
    }
}

/// What `jsonwebtoken::decode_header` reads from a token: the name of the
/// declared algorithm and the key id, if the header segment decodes.
pub uninterp spec fn jwt_header(token: Seq<char>) -> Option<(Seq<char>, Option<Seq<char>>)>;

/// The untrusted header of a token.
pub struct TokenHeader {
    pub alg: String,
    pub kid: Option<String>,
}

impl View for TokenHeader {
    type V = (Seq<char>, Option<Seq<char>>);

    open spec fn view(&self) -> (Seq<char>, Option<Seq<char>>) {
        (self.alg@, opt_view(self.kid))
    }
}

#[verifier::external_type_specification]
#[verifier::external_body]
pub struct ExJwtError(jsonwebtoken::errors::Error);

/// Relies on jsonwebtoken::decode_header: base64url-decodes and parses the
/// header segment without checking the signature. The algorithm is rendered
/// by its variant name, which is its name in the header ("RS256").
#[verifier::external_body]
fn decode_header(token: &str) -> (r: Result<TokenHeader, jsonwebtoken::errors::Error>)
    ensures
        r is Ok <==> jwt_header(token@) is Some,
        r is Ok ==> r->Ok_0@ == jwt_header(token@)->Some_0,
{
    match jsonwebtoken::decode_header(token) {
        Ok(h) => Ok(TokenHeader { alg: format!("{:?}", h.alg), kid: h.kid }),
        Err(e) => Err(e),
    }
}

/// The parts of a token that later steps need, once its framing, algorithm
/// and key id have been checked.
pub struct ParsedToken {
    pub kid: String,
    pub signing_input: String,
    pub payload: String,
    pub signature: String,
}

/// Model of a parsed token.
pub struct TokenParts {
    pub kid: Seq<char>,
    pub signing_input: Seq<char>,
    pub payload: Seq<char>,
    pub signature: Seq<char>,
}

impl View for ParsedToken {
    type V = TokenParts;

    open spec fn view(&self) -> TokenParts {
        TokenParts {
            kid: self.kid@,
            signing_input: self.signing_input@,
            payload: self.payload@,
            signature: self.signature@,
        }
    }
}

/// The first checks of a verification: framing, header and algorithm, and
/// the key id that key selection needs.
pub open spec fn parse_outcome(s: Seq<char>) -> Result<TokenParts, VerificationError> {
    if !well_framed(s) || jwt_header(s) is None {
        Err(VerificationError::MalformedToken)
    } else if jwt_header(s)->Some_0.0 != allowed_algorithm() {
        Err(VerificationError::AlgorithmMismatch)
    } else if jwt_header(s)->Some_0.1 is None {
        Err(VerificationError::MissingKid)
    } else {
        Ok(
            TokenParts {
                kid: jwt_header(s)->Some_0.1->Some_0,
                signing_input: signing_input_of(s),
                payload: payload_of(s),
                signature: signature_of(s),
            },
        )
    }
}

proof fn lemma_next_dot_skip(s: Seq<char>, from: int, i: int)
    requires
        0 <= from <= i <= s.len(),
        forall|k: int| from <= k < i ==> s[k] != '.',
    ensures
        next_dot(s, from) == next_dot(s, i),
    decreases i - from,
{
    if from < i {
        lemma_next_dot_skip(s, from + 1, i);
    }
}

/// Position of the first `.` at or after `from`.
fn find_dot(s: &str, len: usize, from: usize) -> (r: usize)
    requires
        s.is_ascii(),
        len == s@.len(),
        from <= len,
    ensures
        r == next_dot(s@, from as int),
{
    let mut i = from;
    while i < len
        invariant
            s.is_ascii(),
            len == s@.len(),
            from <= i <= len,
            forall|k: int| from <= k < i ==> s@[k] != '.',
        decreases len - i,
    {
        let b = s.get_ascii(i);
        if b == 46u8 {
            assert(s@[i as int] == '.') by {
                assert('\0' <= s@[i as int] <= '\u{7f}');
            }
            proof {
                lemma_next_dot_skip(s@, from as int, i as int);
            }
            return i;
        }
        assert(s@[i as int] != '.');
        i = i + 1;
    }
    proof {
        lemma_next_dot_skip(s@, from as int, i as int);
    }
    len
}

/// Splits and checks a raw token: its framing, its algorithm and the
/// presence of a key id. Nothing of it is trusted yet.
pub fn parse_token(raw: &str) -> (r: Result<ParsedToken, VerificationError>)
    ensures
        r matches Ok(t) ==> parse_outcome(raw@) == Ok::<TokenParts, VerificationError>(t@),
        r matches Err(e) ==> parse_outcome(raw@) == Err::<TokenParts, VerificationError>(e),
{
    if !raw.is_ascii() {
        return Err(VerificationError::MalformedToken);
    }
    let len = raw.unicode_len();
    let d1 = find_dot(raw, len, 0);
    if d1 == 0 || d1 >= len {
        return Err(VerificationError::MalformedToken);
    }
    let d2 = find_dot(raw, len, d1 + 1);
    if d2 <= d1 + 1 || d2 >= len || d2 + 1 >= len {
        return Err(VerificationError::MalformedToken);
    }
    let d3 = find_dot(raw, len, d2 + 1);
    if d3 != len {
        return Err(VerificationError::MalformedToken);
    }
    assert(well_framed(raw@));
    let header = match decode_header(raw) {
        Ok(h) => h,
        Err(_) => {
            return Err(VerificationError::MalformedToken);
        },
    };
    let expected = String::from_str("RS256");
    proof {
        reveal_strlit("RS256");
    }
    assert(expected@ =~= allowed_algorithm());
    if !(header.alg == expected) {
        return Err(VerificationError::AlgorithmMismatch);
    }
    let kid = match header.kid {
        Some(k) => k,
        None => {
            return Err(VerificationError::MissingKid);
        },
    };
    let signing_input = raw.substring_ascii(0, d2).to_owned();
    let payload = raw.substring_ascii(d1 + 1, d2).to_owned();
    let signature = raw.substring_ascii(d2 + 1, len).to_owned();
    let t = ParsedToken { kid, signing_input, payload, signature };
    assert(t@ == parse_outcome(raw@)->Ok_0);
    Ok(t)
}

} // verus!
