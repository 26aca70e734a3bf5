//! Signed, versioned, expiring credential tokens: a base64 payload and a
//! base64 keyed-hash signature, joined by a dot.

use vstd::prelude::*;

verus! {

use vstd::bytes::{spec_u32_from_le_bytes, spec_u32_to_le_bytes, spec_u64_from_le_bytes, spec_u64_to_le_bytes};
use vstd::string::{StrSliceExecFns, StringExecFns, StringSliceAdditionalSpecFns};
use vstd::utf8::{decode_utf8, encode_utf8, valid_utf8};

use crate::bytes::{ByteReader, ByteReadError, ByteWriter};
use crate::hmac_signer::{keyed_hash_of, HmacSigner};
use crate::multi_color::{find_char, spec_find};

/// The token format version this issuer writes and accepts.
pub const TOKEN_VERSION: u8 = 2;

/// The byte capacity of a token's decoded payload.
pub const TOKEN_DATA_BUFFER: usize = 1024;

/// The byte capacity of a username carried in a token.
pub const TOKEN_USERNAME_CAPACITY: usize = 16;

/// The byte budget of a freshly generated token's payload.
pub const TOKEN_PAYLOAD_BUDGET: usize = 64;

/// The url-safe, unpadded base64 text of a byte sequence.
pub uninterp spec fn b64_url_of(b: Seq<u8>) -> Seq<char>;

/// Relies on base64's `URL_SAFE_NO_PAD` engine: `encode` returns the
/// url-safe unpadded encoding of the input bytes, a function of the bytes
/// alone, four characters for every three bytes, drawn from an alphabet
/// (letters, digits, `-` and `_`) that holds no dot.
#[verifier::external_body]
fn b64_url_encode(data: &[u8]) -> (r: String)
    ensures
        r@ == b64_url_of(data@),
        r@.len() == (data@.len() * 4 + 2) / 3,
        forall|j: int| 0 <= j < r@.len() ==> #[trigger] r@[j] != '.',
{
    base64::Engine::encode(&base64::engine::general_purpose::URL_SAFE_NO_PAD, data)
}

/// Relies on base64's `URL_SAFE_NO_PAD` engine: `decode` rejects padding
/// and nonzero trailing bits, so it accepts exactly the encodings that
/// `encode` produces, and inverts them.
#[verifier::external_body]
fn b64_url_decode(s: &str) -> (r: Result<Vec<u8>, ()>)
    ensures
        r matches Ok(d) ==> b64_url_of(d@) == s@,
        r matches Ok(v) ==> forall|d: Seq<u8>| #[trigger] b64_url_of(d) == s@ ==> v@ == d,
        r is Err ==> forall|d: Seq<u8>| #[trigger] b64_url_of(d) != s@,
{
    match base64::Engine::decode(&base64::engine::general_purpose::URL_SAFE_NO_PAD, s) {
        Ok(v) => Ok(v),
        Err(_) => Err(()),
    }
}

/// Relies on `std::time::SystemTime::now` for the wall clock, as whole
/// seconds since the epoch; nothing is promised of the value.
#[verifier::external_body]
fn unix_now_secs() -> u64 {
    std::time::SystemTime::now().duration_since(std::time::UNIX_EPOCH).map(
        |d| d.as_secs(),
    ).unwrap_or(0)
}

/// Issues and validates tokens under one signer and expiry window.
pub struct TokenIssuer {
    signer: HmacSigner,
    token_expiry: u64,
}

/// What a validated token certifies.
#[derive(Clone, Debug, PartialEq)]
pub struct TokenData {
    pub account_id: i32,
    pub user_id: i32,
    pub username: String,
    pub roles_str: Option<String>,
}

/// What a validated token certifies, with strings as character sequences.
pub struct TokenDataView {
    pub account_id: i32,
    pub user_id: i32,
    pub username: Seq<char>,
    pub roles_str: Option<Seq<char>>,
}

impl View for TokenData {
    type V = TokenDataView;

    open spec fn view(&self) -> TokenDataView {
        TokenDataView {
            account_id: self.account_id,
            user_id: self.user_id,
            username: self.username@,
            roles_str: match self.roles_str {
                Some(ref s) => Some(s@),
                None => None,
            },
        }
    }
}

/// Why a token failed validation.
#[derive(Clone, Copy, PartialEq, Eq, Structural, Debug)]
pub enum TokenValidationError {
    /// The token is not two dot-separated parts.
    InvalidFormat,
    /// A part is not valid base64, or the payload exceeds its buffer.
    InvalidBase64,
    /// The payload's binary structure is invalid.
    InvalidBinary(ByteReadError),
    /// The payload names a version this issuer does not accept.
    UnsupportedVersion(u8),
    /// The username exceeds its fixed capacity.
    UsernameTooLong,
    /// The signature does not match the payload.
    InvalidSignature,
    /// The token certifies a different account.
    AccountMismatch,
    /// The clock lies outside the token's validity window.
    Expired,
}

/// The binary payload of a token: version, issue time, the two account
/// identifiers, and the two length-prefixed strings.
pub open spec fn spec_token_payload(
    issued_at: u64,
    account_id: i32,
    user_id: i32,
    username: Seq<char>,
    roles: Seq<char>,
) -> Seq<u8> {
    seq![TOKEN_VERSION] + spec_u64_to_le_bytes(issued_at) + spec_u32_to_le_bytes(
        account_id as u32,
    ) + spec_u32_to_le_bytes(user_id as u32) + seq![encode_utf8(username).len() as u8]
        + encode_utf8(username) + vstd::bytes::spec_u16_to_le_bytes(
        encode_utf8(roles).len() as u16,
    ) + encode_utf8(roles)
}

/// Parses and checks a token's decoded payload against the clock and the
/// expiry window: the version must match, the structure must parse, the
/// username must fit its capacity, and `now` must lie within the window
/// that starts at the issue time.
pub open spec fn spec_parse_token(data: Seq<u8>, now: u64, expiry: u64) -> Result<
    TokenDataView,
    TokenValidationError,
> {
    if data.len() < 1 {
        Err(TokenValidationError::InvalidBinary(ByteReadError::OutOfBounds))
    } else if data[0] != TOKEN_VERSION {
        Err(TokenValidationError::UnsupportedVersion(data[0]))
    } else if data.len() < 18 {
        Err(TokenValidationError::InvalidBinary(ByteReadError::OutOfBounds))
    } else {
        let issued_at = spec_u64_from_le_bytes(data.subrange(1, 9)) as i64;
        let account_id = spec_u32_from_le_bytes(data.subrange(9, 13)) as i32;
        let user_id = spec_u32_from_le_bytes(data.subrange(13, 17)) as i32;
        let ulen = data[17] as int;
        if data.len() < 18 + ulen {
            Err(TokenValidationError::InvalidBinary(ByteReadError::OutOfBounds))
        } else if !valid_utf8(data.subrange(18, 18 + ulen)) {
            Err(TokenValidationError::InvalidBinary(ByteReadError::InvalidUtf8))
        } else if ulen > TOKEN_USERNAME_CAPACITY {
            Err(TokenValidationError::UsernameTooLong)
        } else if data.len() < 18 + ulen + 2 {
            Err(TokenValidationError::InvalidBinary(ByteReadError::OutOfBounds))
        } else {
            let rlen = vstd::bytes::spec_u16_from_le_bytes(
                data.subrange(18 + ulen, 20 + ulen),
            ) as int;
            if data.len() < 20 + ulen + rlen {
                Err(TokenValidationError::InvalidBinary(ByteReadError::OutOfBounds))
            } else if !valid_utf8(data.subrange(20 + ulen, 20 + ulen + rlen)) {
                Err(TokenValidationError::InvalidBinary(ByteReadError::InvalidUtf8))
            } else if now < issued_at || now > issued_at + expiry {
                Err(TokenValidationError::Expired)
            } else {
                let roles = decode_utf8(data.subrange(20 + ulen, 20 + ulen + rlen));
                Ok(
                    TokenDataView {
                        account_id,
                        user_id,
                        username: decode_utf8(data.subrange(18, 18 + ulen)),
                        roles_str: if rlen > 0 {
                            Some(roles)
                        } else {
                            None
                        },
                    },
                )
            }
        }
    }
}

/// Token round trip: parsing a freshly built payload at any clock value
/// inside its validity window certifies exactly the identity the payload
/// was built from.
pub proof fn lemma_token_round_trip(
    issued_at: u64,
    account_id: i32,
    user_id: i32,
    username: Seq<char>,
    roles: Seq<char>,
    now: u64,
    expiry: u64,
)
    requires
        encode_utf8(username).len() <= TOKEN_USERNAME_CAPACITY,
        encode_utf8(roles).len() <= u16::MAX,
        issued_at <= i64::MAX,
        issued_at <= now <= issued_at + expiry,
    ensures
        spec_parse_token(
            spec_token_payload(issued_at, account_id, user_id, username, roles),
            now,
            expiry,
        ) == Ok::<TokenDataView, TokenValidationError>(
            TokenDataView {
                account_id,
                user_id,
                username,
                roles_str: if roles.len() == 0 {
                    None
                } else {
                    Some(roles)
                },
            },
        ),
{
    vstd::bytes::lemma_auto_spec_u64_to_from_le_bytes();
    vstd::bytes::lemma_auto_spec_u32_to_from_le_bytes();
    vstd::bytes::lemma_auto_spec_u16_to_from_le_bytes();
    vstd::utf8::encode_utf8_valid_utf8(username);
    vstd::utf8::encode_utf8_valid_utf8(roles);
    vstd::utf8::encode_utf8_decode_utf8(username);
    vstd::utf8::encode_utf8_decode_utf8(roles);
    let ub = encode_utf8(username);
    let rb = encode_utf8(roles);
    let ulen = ub.len() as int;
    let rlen = rb.len() as int;
    let data = spec_token_payload(issued_at, account_id, user_id, username, roles);
    assert(data.len() == 20 + ulen + rlen);
    assert(data[0] == TOKEN_VERSION);
    assert(data.subrange(1, 9) =~= spec_u64_to_le_bytes(issued_at));
    assert(data.subrange(9, 13) =~= spec_u32_to_le_bytes(account_id as u32));
    assert(data.subrange(13, 17) =~= spec_u32_to_le_bytes(user_id as u32));
    assert(data[17] == ulen as u8);
    assert(data.subrange(18, 18 + ulen) =~= ub);
    assert(data.subrange(18 + ulen, 20 + ulen) =~= vstd::bytes::spec_u16_to_le_bytes(
        rlen as u16,
    ));
    assert(data.subrange(20 + ulen, 20 + ulen + rlen) =~= rb);
    assert(issued_at as i64 >= 0 && (issued_at as i64) as u64 == issued_at) by (bit_vector)
        requires
            issued_at <= i64::MAX as u64,
    ;
    assert((account_id as u32) as i32 == account_id) by (bit_vector);
    assert((user_id as u32) as i32 == user_id) by (bit_vector);
    if roles.len() > 0 {
        assert(rb.len() > 0);
    }
}

/// Parses and checks a token's decoded payload. The whole check is a
/// function of the payload bytes, the clock value, and the expiry window.
pub fn parse_token_payload(data: &[u8], now: u64, expiry: u64) -> (r: Result<
    TokenData,
    TokenValidationError,
>)
    ensures
        match r {
            Ok(td) => spec_parse_token(data@, now, expiry) == Ok::<
                TokenDataView,
                TokenValidationError,
            >(td@),
            Err(e) => spec_parse_token(data@, now, expiry) == Err::<
                TokenDataView,
                TokenValidationError,
            >(e),
        },
{
    let mut reader = ByteReader::new(data);
    proof {
        assert(reader.remaining() =~= data@);
    }
    let version = match reader.read_u8() {
        Ok(v) => v,
        Err(e) => {
            return Err(TokenValidationError::InvalidBinary(e));
        },
    };
    if version != TOKEN_VERSION {
        return Err(TokenValidationError::UnsupportedVersion(version));
    }
    proof {
        assert(reader.remaining() =~= data@.skip(1));
    }
    let issued_at = match reader.read_i64() {
        Ok(v) => v,
        Err(e) => {
            return Err(TokenValidationError::InvalidBinary(e));
        },
    };
    proof {
        assert(data@.skip(1).take(8) =~= data@.subrange(1, 9));
        assert(reader.remaining() =~= data@.skip(9));
    }
    let account_id = match reader.read_i32() {
        Ok(v) => v,
        Err(e) => {
            return Err(TokenValidationError::InvalidBinary(e));
        },
    };
    proof {
        assert(data@.skip(9).take(4) =~= data@.subrange(9, 13));
        assert(reader.remaining() =~= data@.skip(13));
    }
    let user_id = match reader.read_i32() {
        Ok(v) => v,
        Err(e) => {
            return Err(TokenValidationError::InvalidBinary(e));
        },
    };
    proof {
        assert(data@.skip(13).take(4) =~= data@.subrange(13, 17));
        assert(reader.remaining() =~= data@.skip(17));
    }
    let ghost ulen = data@[17] as int;
    proof {
        if data@.len() >= 18 {
            assert(data@.skip(17)[0] == data@[17]);
            if data@.len() >= 18 + ulen {
                assert(data@.skip(17).subrange(1, 1 + ulen) =~= data@.subrange(18, 18 + ulen));
            }
        }
    }
    let username = match reader.read_string_u8() {
        Ok(s) => s,
        Err(e) => {
            return Err(TokenValidationError::InvalidBinary(e));
        },
    };
    if username.as_str().len() > TOKEN_USERNAME_CAPACITY {
        proof {
            vstd::utf8::decode_utf8_encode_utf8(data@.subrange(18, 18 + ulen));
        }
        return Err(TokenValidationError::UsernameTooLong);
    }
    proof {
        vstd::utf8::decode_utf8_encode_utf8(data@.subrange(18, 18 + ulen));
        assert(reader.remaining() =~= data@.skip(18 + ulen));
        if data@.len() >= 20 + ulen {
            assert(data@.skip(18 + ulen).take(2) =~= data@.subrange(18 + ulen, 20 + ulen));
        }
    }
    let ghost rlen = vstd::bytes::spec_u16_from_le_bytes(
        data@.subrange(18 + ulen, 20 + ulen),
    ) as int;
    proof {
        if data@.len() >= 20 + ulen + rlen {
            assert(data@.skip(18 + ulen).subrange(2, 2 + rlen) =~= data@.subrange(
                20 + ulen,
                20 + ulen + rlen,
            ));
        }
    }
    let roles_str = match reader.read_string_u16() {
        Ok(s) => s,
        Err(e) => {
            return Err(TokenValidationError::InvalidBinary(e));
        },
    };
    let expired = if (now as i128) < (issued_at as i128) {
        true
    } else {
        (now as i128) > (issued_at as i128) + (expiry as i128)
    };
    if expired {
        return Err(TokenValidationError::Expired);
    }
    proof {
        vstd::utf8::decode_utf8_encode_utf8(data@.subrange(20 + ulen, 20 + ulen + rlen));
    }
    let roles_str = if roles_str.as_str().len() > 0 {
        Some(roles_str)
    } else {
        None
    };
    Ok(TokenData { account_id, user_id, username, roles_str })
}

impl TokenIssuer {
    /// The issuer's signing key bytes.
    pub closed spec fn spec_key(&self) -> Seq<u8> {
        self.signer.spec_key()
    }

    /// The issuer's expiry window, in seconds.
    pub closed spec fn spec_expiry(&self) -> u64 {
        self.token_expiry
    }

    /// Builds an issuer from a 256-bit hex secret key and an expiry
    /// window in seconds.
    pub fn new(secret_key: &str, token_expiry_secs: u64) -> (r: Result<TokenIssuer, &'static str>)
        ensures
            r is Ok <==> (secret_key@.len() == 64 && forall|i: int|
                0 <= i < 64 ==> crate::multi_color::spec_is_hex_digit(#[trigger] secret_key@[i])),
            r matches Ok(t) ==> t.spec_expiry() == token_expiry_secs,
            r matches Ok(t) ==> t.spec_key().len() == 32 && forall|i: int|
                0 <= i < 32 ==> #[trigger] t.spec_key()[i] == crate::multi_color::spec_hex_val(
                    secret_key@[2 * i],
                ) * 16 + crate::multi_color::spec_hex_val(secret_key@[2 * i + 1]),
    {
        match HmacSigner::new(secret_key) {
            Ok(signer) => Ok(TokenIssuer { signer, token_expiry: token_expiry_secs }),
            Err(e) => Err(e),
        }
    }

    /// Validates a token against the given clock value: splits it at the
    /// dot, checks the signature over the decoded payload, then parses
    /// and checks the payload itself.
    pub fn validate_at(&self, token: &str, now: u64) -> (r: Result<TokenData, TokenValidationError>)
        ensures
            spec_find(token@, '.') is None ==> r == Err::<TokenData, TokenValidationError>(
                TokenValidationError::InvalidFormat,
            ),
            (spec_find(token@, '.') matches Some(i) && (forall|d: Seq<u8>|
                #[trigger] b64_url_of(d) != token@.take(i))) ==> r == Err::<
                TokenData,
                TokenValidationError,
            >(TokenValidationError::InvalidBase64),
            r matches Ok(td) ==> exists|data: Seq<u8>, sig: Seq<u8>|
                #![trigger b64_url_of(data), b64_url_of(sig)]
                {
                    &&& b64_url_of(data) + seq!['.'] + b64_url_of(sig) == token@
                    &&& data.len() <= TOKEN_DATA_BUFFER
                    &&& sig.len() == 32
                    &&& sig == keyed_hash_of(self.spec_key(), data)
                    &&& spec_parse_token(data, now, self.spec_expiry()) == Ok::<
                        TokenDataView,
                        TokenValidationError,
                    >(td@)
                },
            forall|d: Seq<u8>, sg: Seq<u8>|
                #![trigger b64_url_of(d), b64_url_of(sg)]
                (spec_find(token@, '.') matches Some(i) && b64_url_of(d) == token@.take(i)
                    && b64_url_of(sg) == token@.skip(i + 1) && d.len() <= TOKEN_DATA_BUFFER
                    && sg.len() == 32 && sg == keyed_hash_of(self.spec_key(), d)) ==> (
                match spec_parse_token(d, now, self.spec_expiry()) {
                    Ok(v) => r matches Ok(td) && td@ == v,
                    Err(e) => r == Err::<TokenData, TokenValidationError>(e),
                }),
            r matches Err(e) ==> e != TokenValidationError::AccountMismatch,
    {
        let n = token.unicode_len();
        let dot = match find_char(token, '.') {
            Some(i) => i,
            None => {
                return Err(TokenValidationError::InvalidFormat);
            },
        };
        proof {
            crate::multi_color::lemma_find_characterization(token@, '.');
        }
        let data_str = token.substring_char(0, dot);
        let sig_str = token.substring_char(dot + 1, n);
        proof {
            assert(data_str@ =~= token@.take(dot as int));
            assert(sig_str@ =~= token@.skip(dot + 1));
        }
        let data = match b64_url_decode(data_str) {
            Ok(v) => v,
            Err(_) => {
                return Err(TokenValidationError::InvalidBase64);
            },
        };
        if data.len() > TOKEN_DATA_BUFFER {
            return Err(TokenValidationError::InvalidBase64);
        }
        let sig = match b64_url_decode(sig_str) {
            Ok(v) => v,
            Err(_) => {
                return Err(TokenValidationError::InvalidBase64);
            },
        };
        if sig.len() > 32 {
            return Err(TokenValidationError::InvalidBase64);
        }
        if sig.len() != 32 {
            return Err(TokenValidationError::InvalidSignature);
        }
        if !self.signer.validate(data.as_slice(), sig.as_slice()) {
            return Err(TokenValidationError::InvalidSignature);
        }
        let r = parse_token_payload(data.as_slice(), now, self.token_expiry);
        proof {
            if r is Ok {
                assert(token@ =~= b64_url_of(data@) + seq!['.'] + b64_url_of(sig@));
            }
        }
        r
    }

    /// Validates a token against the current clock.
    pub fn validate(&self, token: &str) -> (r: Result<TokenData, TokenValidationError>)
        ensures
            spec_find(token@, '.') is None ==> r == Err::<TokenData, TokenValidationError>(
                TokenValidationError::InvalidFormat,
            ),
            (spec_find(token@, '.') matches Some(i) && (forall|d: Seq<u8>|
                #[trigger] b64_url_of(d) != token@.take(i))) ==> r == Err::<
                TokenData,
                TokenValidationError,
            >(TokenValidationError::InvalidBase64),
            r matches Err(e) ==> e != TokenValidationError::AccountMismatch,
            r matches Ok(td) ==> exists|now: u64, data: Seq<u8>, sig: Seq<u8>|
                #![trigger b64_url_of(data), b64_url_of(sig), spec_parse_token(data, now, self.spec_expiry())]
                {
                    &&& b64_url_of(data) + seq!['.'] + b64_url_of(sig) == token@
                    &&& data.len() <= TOKEN_DATA_BUFFER
                    &&& sig.len() == 32
                    &&& sig == keyed_hash_of(self.spec_key(), data)
                    &&& spec_parse_token(data, now, self.spec_expiry()) == Ok::<
                        TokenDataView,
                        TokenValidationError,
                    >(td@)
                },
    {
        let now = unix_now_secs();
        self.validate_at(token, now)
    }

    /// Like `validate_at`, but also checks that the token certifies the
    /// given account: a valid token naming another account is rejected
    /// with `AccountMismatch`, and every validation error propagates
    /// unchanged.
    pub fn validate_match_at(&self, token: &str, account_id: i32, now: u64) -> (r: Result<
        TokenData,
        TokenValidationError,
    >)
        ensures
            spec_find(token@, '.') is None ==> r == Err::<TokenData, TokenValidationError>(
                TokenValidationError::InvalidFormat,
            ),
            (spec_find(token@, '.') matches Some(i) && (forall|d: Seq<u8>|
                #[trigger] b64_url_of(d) != token@.take(i))) ==> r == Err::<
                TokenData,
                TokenValidationError,
            >(TokenValidationError::InvalidBase64),
            r matches Ok(td) ==> td.account_id == account_id,
            r matches Ok(td) ==> exists|data: Seq<u8>, sig: Seq<u8>|
                #![trigger b64_url_of(data), b64_url_of(sig)]
                {
                    &&& b64_url_of(data) + seq!['.'] + b64_url_of(sig) == token@
                    &&& data.len() <= TOKEN_DATA_BUFFER
                    &&& sig.len() == 32
                    &&& sig == keyed_hash_of(self.spec_key(), data)
                    &&& spec_parse_token(data, now, self.spec_expiry()) == Ok::<
                        TokenDataView,
                        TokenValidationError,
                    >(td@)
                },
            r == Err::<TokenData, TokenValidationError>(TokenValidationError::AccountMismatch)
                ==> exists|data: Seq<u8>, sig: Seq<u8>|
                #![trigger b64_url_of(data), b64_url_of(sig)]
                {
                    &&& b64_url_of(data) + seq!['.'] + b64_url_of(sig) == token@
                    &&& data.len() <= TOKEN_DATA_BUFFER
                    &&& sig.len() == 32
                    &&& sig == keyed_hash_of(self.spec_key(), data)
                    &&& (spec_parse_token(data, now, self.spec_expiry()) matches Ok(v)
                        && v.account_id != account_id)
                },
            forall|d: Seq<u8>, sg: Seq<u8>|
                #![trigger b64_url_of(d), b64_url_of(sg)]
                (spec_find(token@, '.') matches Some(i) && b64_url_of(d) == token@.take(i)
                    && b64_url_of(sg) == token@.skip(i + 1) && d.len() <= TOKEN_DATA_BUFFER
                    && sg.len() == 32 && sg == keyed_hash_of(self.spec_key(), d)) ==> (
                match spec_parse_token(d, now, self.spec_expiry()) {
                    Ok(v) => (if v.account_id == account_id {
                        r matches Ok(td) && td@ == v
                    } else {
                        r == Err::<TokenData, TokenValidationError>(
                            TokenValidationError::AccountMismatch,
                        )
                    }),
                    Err(e) => r == Err::<TokenData, TokenValidationError>(e),
                }),
    {
        let data = match self.validate_at(token, now) {
            Ok(d) => d,
            Err(e) => {
                return Err(e);
            },
        };
        if data.account_id != account_id {
            return Err(TokenValidationError::AccountMismatch);
        }
        Ok(data)
    }

    /// Like `validate`, but also checks that the token certifies the
    /// given account: a valid token naming another account is rejected
    /// with `AccountMismatch`, and every validation error propagates
    /// unchanged.
    pub fn validate_match(&self, token: &str, account_id: i32) -> (r: Result<
        TokenData,
        TokenValidationError,
    >)
        ensures
            spec_find(token@, '.') is None ==> r == Err::<TokenData, TokenValidationError>(
                TokenValidationError::InvalidFormat,
            ),
            (spec_find(token@, '.') matches Some(i) && (forall|d: Seq<u8>|
                #[trigger] b64_url_of(d) != token@.take(i))) ==> r == Err::<
                TokenData,
                TokenValidationError,
            >(TokenValidationError::InvalidBase64),
            r matches Ok(td) ==> td.account_id == account_id,
            r matches Ok(td) ==> exists|now: u64, data: Seq<u8>, sig: Seq<u8>|
                #![trigger b64_url_of(data), b64_url_of(sig), spec_parse_token(data, now, self.spec_expiry())]
                {
                    &&& b64_url_of(data) + seq!['.'] + b64_url_of(sig) == token@
                    &&& data.len() <= TOKEN_DATA_BUFFER
                    &&& sig.len() == 32
                    &&& sig == keyed_hash_of(self.spec_key(), data)
                    &&& spec_parse_token(data, now, self.spec_expiry()) == Ok::<
                        TokenDataView,
                        TokenValidationError,
                    >(td@)
                },
            r == Err::<TokenData, TokenValidationError>(TokenValidationError::AccountMismatch)
                ==> exists|now: u64, data: Seq<u8>, sig: Seq<u8>|
                #![trigger b64_url_of(data), b64_url_of(sig), spec_parse_token(data, now, self.spec_expiry())]
                {
                    &&& b64_url_of(data) + seq!['.'] + b64_url_of(sig) == token@
                    &&& data.len() <= TOKEN_DATA_BUFFER
                    &&& sig.len() == 32
                    &&& sig == keyed_hash_of(self.spec_key(), data)
                    &&& (spec_parse_token(data, now, self.spec_expiry()) matches Ok(v)
                        && v.account_id != account_id)
                },
    {
        let now = unix_now_secs();
        self.validate_match_at(token, account_id, now)
    }

    /// Generates a token for the given identity at the current clock: the
    /// base64 payload and the base64 signature over it, joined by a dot.
    /// The identity must fit the payload's fixed byte budget.
    pub fn generate(&self, account_id: i32, user_id: i32, username: &str, roles_str: &str) -> (r:
        String)
        requires
            1 + 8 + 4 + 4 + 1 + username.spec_bytes().len() + 2 + roles_str.spec_bytes().len()
                <= TOKEN_PAYLOAD_BUDGET,
        ensures
            exists|now: u64|
                #![trigger spec_token_payload(now, account_id, user_id, username@, roles_str@)]
                {
                    let data = spec_token_payload(
                        now,
                        account_id,
                        user_id,
                        username@,
                        roles_str@,
                    );
                    &&& r@ == b64_url_of(data) + seq!['.'] + b64_url_of(
                        keyed_hash_of(self.spec_key(), data),
                    )
                    &&& keyed_hash_of(self.spec_key(), data).len() == 32
                    &&& spec_find(r@, '.') == Some(b64_url_of(data).len() as int)
                    &&& r@.len() == b64_url_of(data).len() + 44
                    &&& forall|j: int|
                        b64_url_of(data).len() < j < r@.len() ==> #[trigger] r@[j] != '.'
                },
    {
        let now = unix_now_secs();
        let mut w = ByteWriter::new();
        w.write_u8(TOKEN_VERSION);
        w.write_i64(now as i64);
        w.write_i32(account_id);
        w.write_i32(user_id);
        w.write_string_u8(username);
        w.write_string_u16(roles_str);
        proof {
            assert((now as i64) as u64 == now) by (bit_vector);
            assert(w@ =~= spec_token_payload(now, account_id, user_id, username@, roles_str@));
        }
        let sig = self.signer.sign(w.written());
        let data_part = b64_url_encode(w.written());
        let sig_part = b64_url_encode(sig.as_slice());
        proof {
            reveal_strlit(".");
        }
        let r = data_part.concat(".").concat(sig_part.as_str());
        proof {
            assert(r@ =~= b64_url_of(w@) + seq!['.'] + b64_url_of(
                keyed_hash_of(self.spec_key(), w@),
            ));
            crate::multi_color::lemma_find_characterization(r@, '.');
            let dlen = data_part@.len() as int;
            assert(r@[dlen] == '.');
            assert forall|j: int| 0 <= j < dlen implies r@[j] != '.' by {
                assert(r@[j] == data_part@[j]);
            }
            assert(spec_find(r@, '.') == Some(dlen));
            assert(sig_part@.len() == 43);
            assert forall|j: int| dlen < j < r@.len() implies r@[j] != '.' by {
                assert(r@[j] == sig_part@[j - dlen - 1]);
            }
        }
        r
    }
}

} // verus!
