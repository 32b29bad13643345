//! Session tokens: a bearer credential that names a user, the moment it was
//! issued and the moment it expires, signed with a secret of the server.
//!
//! A token is four fields with a dot between neighbours: the user's
//! identifier, the moment of issue and the moment of expiry, all three in
//! decimal, and the HMAC-SHA256 tag of the text before the last dot, in
//! hexadecimal. Moments are seconds since the Unix epoch.

use vstd::prelude::*;
use vstd::string::*;
use vstd::utf8::encode_utf8;
use hmac::Mac;
use crate::errors::{ok_view, AppError};
use crate::ident::UserId;
use crate::text::{
    chars_of, decimal_text, decimal_value, free_of, hex_text, is_decimal, is_digit,
    join, lemma_decimal_round_trip, lemma_signed_round_trip, lemma_split_join, matches_at,
    parse_decimal_from, parse_i64, push_chars, push_decimal, push_hex, push_signed, same_chars,
    signed_text, signed_value, split, split_chars, string_of, views,
};

verus! {

/// The HMAC-SHA256 tag of `msg` under `key`, or `None` where the key is
/// refused.
pub uninterp spec fn hmac_sha256(key: Seq<u8>, msg: Seq<u8>) -> Option<Seq<u8>>;

/// Computes a tag with `hmac::Hmac<sha2::Sha256>`: `new_from_slice` on the
/// key, `update` with the message, `finalize`. The tag depends on the key and
/// the message alone.
#[verifier::external_body]
fn hmac_sha256_tag(key: &[u8], msg: &[u8]) -> (r: Option<Vec<u8>>)
    ensures
        match r {
            Some(tag) => hmac_sha256(key@, msg@) == Some(tag@),
            None => hmac_sha256(key@, msg@) is None,
        },
{
    match hmac::Hmac::<sha2::Sha256>::new_from_slice(key) {
        Ok(mut mac) => {
            mac.update(msg);
            Some(mac.finalize().into_bytes().to_vec())
        },
        Err(_) => None,
    }
}

/// What a token states.
#[derive(Clone, Copy, Debug, PartialEq, Eq, Structural)]
pub struct Claims {
    /// The user the token was issued to.
    pub subject: UserId,
    /// When it was issued.
    pub issued_at: i64,
    /// The first moment at which it is no longer good.
    pub expires_at: i64,
}

/// The signed part of a token: identifier, issue and expiry.
pub open spec fn payload_fields(subject: u128, issued_at: int, expires_at: int) -> Seq<Seq<char>> {
    seq![decimal_text(subject as nat), signed_text(issued_at), signed_text(expires_at)]
}

/// The text that the tag is computed over.
pub open spec fn payload_text(subject: u128, issued_at: int, expires_at: int) -> Seq<char> {
    join(payload_fields(subject, issued_at, expires_at), '.')
}

/// The token with the given claims and tag.
pub open spec fn token_text(subject: u128, issued_at: int, expires_at: int, tag: Seq<u8>) -> Seq<
    char,
> {
    join(payload_fields(subject, issued_at, expires_at).push(hex_text(tag)), '.')
}

/// The claims that the first three of four fields state, if they state any.
pub open spec fn claims_of(fields: Seq<Seq<char>>) -> Option<Claims> {
    if fields.len() == 4 && is_decimal(fields[0]) && decimal_value(fields[0]) <= u128::MAX {
        match (signed_value(fields[1]), signed_value(fields[2])) {
            (Some(iat), Some(exp)) => if i64::MIN <= iat <= i64::MAX && i64::MIN <= exp
                <= i64::MAX {
                Some(
                    Claims {
                        subject: UserId { value: decimal_value(fields[0]) as u128 },
                        issued_at: iat as i64,
                        expires_at: exp as i64,
                    },
                )
            } else {
                None
            },
            _ => None,
        }
    } else {
        None
    }
}

/// True when the last of four fields is the tag, under `secret`, of the three
/// before it.
pub open spec fn signed_by(secret: Seq<char>, fields: Seq<Seq<char>>) -> bool {
    match hmac_sha256(encode_utf8(secret), encode_utf8(join(fields.take(3), '.'))) {
        Some(tag) => fields[3] == hex_text(tag),
        None => false,
    }
}

/// What issuing gives: the token, or `Signing` where the key is refused.
pub open spec fn spec_issue(secret: Seq<char>, lifetime: int, subject: u128, now: int) -> Result<
    Seq<char>,
    AppError,
> {
    match hmac_sha256(
        encode_utf8(secret),
        encode_utf8(payload_text(subject, now, now + lifetime)),
    ) {
        Some(tag) => Ok(token_text(subject, now, now + lifetime, tag)),
        None => Err(AppError::Signing),
    }
}

/// What checking gives: the subject when the token is well formed, its tag
/// is the one that `secret` gives and `now` is before its expiry; else
/// `InvalidToken`.
pub open spec fn spec_verify(secret: Seq<char>, token: Seq<char>, now: int) -> Result<
    UserId,
    AppError,
> {
    let fields = split(token, '.');
    match claims_of(fields) {
        Some(claims) => if signed_by(secret, fields) && now < claims.expires_at {
            Ok(claims.subject)
        } else {
            Err(AppError::InvalidToken)
        },
        None => Err(AppError::InvalidToken),
    }
}

/// Reads the claims out of the fields of a token.
pub fn parse_claims(fields: &Vec<Vec<char>>) -> (r: Option<Claims>)
    ensures
        r == claims_of(views(fields@)),
{
    if fields.len() != 4 {
        return None;
    }
    proof {
        assert(views(fields@)[0] == fields@[0]@);
        assert(views(fields@)[1] == fields@[1]@);
        assert(views(fields@)[2] == fields@[2]@);
        assert(fields@[0]@.skip(0) =~= fields@[0]@);
    }
    let subject: u128 = match parse_decimal_from(&fields[0], 0, u128::MAX) {
        Some(v) => v,
        None => {
            return None;
        },
    };
    let issued_at: i64 = match parse_i64(&fields[1]) {
        Some(v) => v,
        None => {
            return None;
        },
    };
    let expires_at: i64 = match parse_i64(&fields[2]) {
        Some(v) => v,
        None => {
            return None;
        },
    };
    Some(Claims { subject: UserId { value: subject }, issued_at, expires_at })
}

/// The characters of the three fields before the tag, with the dots between
/// them.
pub fn payload_of(fields: &Vec<Vec<char>>) -> (r: Vec<char>)
    requires
        fields.len() == 4,
    ensures
        r@ == join(views(fields@).take(3), '.'),
{
    let mut out: Vec<char> = Vec::new();
    push_chars(&mut out, &fields[0]);
    out.push('.');
    push_chars(&mut out, &fields[1]);
    out.push('.');
    push_chars(&mut out, &fields[2]);
    proof {
        let f = views(fields@).take(3);
        assert(f[0] == fields@[0]@ && f[1] == fields@[1]@ && f[2] == fields@[2]@);
        lemma_join_three(f, '.');
        assert(out@ =~= (f[0].push('.') + f[1]).push('.') + f[2]);
    }
    out
}

/// Three fields put together are the first, the separator, the second, the
/// separator and the third.
pub proof fn lemma_join_three(f: Seq<Seq<char>>, sep: char)
    requires
        f.len() == 3,
    ensures
        join(f, sep) == (f[0].push(sep) + f[1]).push(sep) + f[2],
{
    let f2 = f.drop_last();
    let f1 = f2.drop_last();
    assert(f1.len() == 1 && f1[0] == f[0]);
    assert(join(f1, sep) == f[0]);
    assert(f2.last() == f[1]);
    assert(join(f2, sep) == f[0].push(sep) + f[1]);
    assert(f.last() == f[2]);
}

/// Issues and checks session tokens with one secret and one lifetime.
pub struct TokenService {
    secret: String,
    lifetime: i64,
}

impl TokenService {
    /// The secret that tags are computed with.
    pub closed spec fn secret(&self) -> Seq<char> {
        self.secret@
    }

    /// How long a token is good for, in seconds.
    pub closed spec fn lifetime(&self) -> int {
        self.lifetime as int
    }

    /// A service that signs with `secret` and issues tokens that are good for
    /// `lifetime` seconds.
    pub fn new(secret: String, lifetime: i64) -> (r: TokenService)
        ensures
            r.secret() == secret@,
            r.lifetime() == lifetime,
    {
        TokenService { secret, lifetime }
    }

    /// The lifetime of the tokens, in seconds.
    pub fn lifetime_seconds(&self) -> (r: i64)
        ensures
            r == self.lifetime(),
    {
        self.lifetime
    }

    /// Whether a token issued at the moment `now` expires at a moment that
    /// fits in 64 bits: only then can it be issued.
    pub fn can_issue_at(&self, now: i64) -> (r: bool)
        ensures
            r == (i64::MIN <= now + self.lifetime() <= i64::MAX),
    {
        let expires: i128 = now as i128 + self.lifetime as i128;
        -0x8000_0000_0000_0000 <= expires && expires <= 0x7fff_ffff_ffff_ffff
    }

    /// Puts a token together from its claims and its tag.
    pub fn assemble(claims: &Claims, tag: &Vec<u8>) -> (r: String)
        ensures
            r@ == token_text(
                claims.subject.value,
                claims.issued_at as int,
                claims.expires_at as int,
                tag@,
            ),
    {
        let mut out: Vec<char> = Self::payload(claims);
        out.push('.');
        push_hex(&mut out, tag);
        proof {
            let p = payload_fields(
                claims.subject.value,
                claims.issued_at as int,
                claims.expires_at as int,
            );
            assert(p.push(hex_text(tag@)).drop_last() =~= p);
        }
        string_of(&out)
    }

    /// The text that the tag of a token with these claims is computed over.
    pub fn payload(claims: &Claims) -> (r: Vec<char>)
        ensures
            r@ == payload_text(
                claims.subject.value,
                claims.issued_at as int,
                claims.expires_at as int,
            ),
    {
        let mut out: Vec<char> = Vec::new();
        push_decimal(&mut out, claims.subject.value);
        out.push('.');
        push_signed(&mut out, claims.issued_at);
        out.push('.');
        push_signed(&mut out, claims.expires_at);
        proof {
            let f = payload_fields(
                claims.subject.value,
                claims.issued_at as int,
                claims.expires_at as int,
            );
            lemma_join_three(f, '.');
            assert(out@ =~= (f[0].push('.') + f[1]).push('.') + f[2]);
        }
        out
    }

    /// Issues a token for `user_id` at the moment `now`: it expires
    /// `lifetime` seconds later. Fails with `Signing` where the key is
    /// refused, and on nothing else.
    pub fn issue(&self, user_id: UserId, now: i64) -> (r: Result<String, AppError>)
        requires
            i64::MIN <= now + self.lifetime() <= i64::MAX,
        ensures
            ok_view(r) == spec_issue(self.secret(), self.lifetime(), user_id.value, now as int),
    {
        let claims = Claims { subject: user_id, issued_at: now, expires_at: now + self.lifetime };
        let payload: String = string_of(&Self::payload(&claims));
        match hmac_sha256_tag(self.secret.as_str().as_bytes(), payload.as_str().as_bytes()) {
            Some(tag) => Ok(Self::assemble(&claims, &tag)),
            None => Err(AppError::Signing),
        }
    }

    /// Checks a token at the moment `now` and gives the user it was issued
    /// to. The token is refused when it is not four fields that state claims,
    /// when its tag is not the one that the secret gives, and from the moment
    /// of its expiry on.
    pub fn verify(&self, token: &str, now: i64) -> (r: Result<UserId, AppError>)
        ensures
            r == spec_verify(self.secret(), token@, now as int),
    {
        let chars: Vec<char> = chars_of(token);
        let fields: Vec<Vec<char>> = split_chars(&chars, '.');
        let claims: Claims = match parse_claims(&fields) {
            Some(c) => c,
            None => {
                return Err(AppError::InvalidToken);
            },
        };
        let payload: String = string_of(&payload_of(&fields));
        let tag_ok: bool = match hmac_sha256_tag(
            self.secret.as_str().as_bytes(),
            payload.as_str().as_bytes(),
        ) {
            Some(tag) => {
                let mut expected: Vec<char> = Vec::new();
                push_hex(&mut expected, &tag);
                proof {
                    assert(expected@ =~= hex_text(tag@));
                    assert(views(fields@)[3] == fields@[3]@);
                }
                same_chars(&fields[3], &expected)
            },
            None => false,
        };
        if tag_ok && now < claims.expires_at {
            Ok(claims.subject)
        } else {
            Err(AppError::InvalidToken)
        }
    }
}

/// No field of a token holds a dot.
pub proof fn lemma_fields_free_of_dot(subject: u128, issued_at: int, expires_at: int, tag: Seq<u8>)
    ensures
        forall|i: int|
            0 <= i < 4 ==> free_of(
                #[trigger] payload_fields(subject, issued_at, expires_at).push(hex_text(tag))[i],
                '.',
            ),
{
    let f = payload_fields(subject, issued_at, expires_at).push(hex_text(tag));
    lemma_decimal_round_trip(subject as nat);
    lemma_signed_free_of_dot(issued_at);
    lemma_signed_free_of_dot(expires_at);
    assert(free_of(f[0], '.')) by {
        assert forall|k: int| 0 <= k < f[0].len() implies #[trigger] f[0][k] != '.' by {
            assert(is_digit(f[0][k]));
        }
    }
    assert(free_of(f[3], '.')) by {
        assert forall|k: int| 0 <= k < f[3].len() implies #[trigger] f[3][k] != '.' by {
            let b = tag[k / 2];
            assert(b / 16 < 16 && b % 16 < 16);
        }
    }
    assert forall|i: int| 0 <= i < 4 implies free_of(#[trigger] f[i], '.') by {
        if i == 1 {
        } else if i == 2 {
        }
    }
}

/// The numeral of a whole number holds no dot.
pub proof fn lemma_signed_free_of_dot(n: int)
    ensures
        free_of(signed_text(n), '.'),
{
    let s = signed_text(n);
    if n < 0 {
        let d = decimal_text((-n) as nat);
        lemma_decimal_round_trip((-n) as nat);
        assert forall|k: int| 0 <= k < s.len() implies #[trigger] s[k] != '.' by {
            if k > 0 {
                assert(s[k] == d[k - 1]);
                assert(is_digit(d[k - 1]));
            }
        }
    } else {
        lemma_decimal_round_trip(n as nat);
        assert forall|k: int| 0 <= k < s.len() implies #[trigger] s[k] != '.' by {
            assert(is_digit(s[k]));
        }
    }
}

/// A token that was issued is good, under the secret that signed it, at every
/// moment before its expiry, and at no moment from its expiry on.
pub proof fn lemma_issued_token_lifetime(
    secret: Seq<char>,
    lifetime: int,
    subject: u128,
    issued: int,
    now: int,
)
    requires
        i64::MIN <= issued <= i64::MAX,
        i64::MIN <= issued + lifetime <= i64::MAX,
        spec_issue(secret, lifetime, subject, issued) is Ok,
    ensures
        spec_verify(secret, spec_issue(secret, lifetime, subject, issued)->Ok_0, now) == (if now
            < issued + lifetime {
            Ok::<UserId, AppError>(UserId { value: subject })
        } else {
            Err::<UserId, AppError>(AppError::InvalidToken)
        }),
{
    let expires = issued + lifetime;
    let payload = payload_fields(subject, issued, expires);
    let tag = hmac_sha256(encode_utf8(secret), encode_utf8(join(payload, '.')))->Some_0;
    let fields = payload.push(hex_text(tag));
    let token = join(fields, '.');
    assert(spec_issue(secret, lifetime, subject, issued) == Ok::<Seq<char>, AppError>(token));
    lemma_fields_free_of_dot(subject, issued, expires, tag);
    lemma_split_join(fields, '.');
    assert(split(token, '.') == fields);
    lemma_decimal_round_trip(subject as nat);
    lemma_signed_round_trip(issued);
    lemma_signed_round_trip(expires);
    assert(fields.take(3) =~= payload);
    assert(claims_of(fields) == Some(
        Claims {
            subject: UserId { value: subject },
            issued_at: issued as i64,
            expires_at: expires as i64,
        },
    ));
    assert(signed_by(secret, fields));
}

/// What stands before the token in an `Authorization` header.
pub open spec fn bearer_prefix() -> Seq<char> {
    "Bearer "@
}

/// The token that an `Authorization` header carries: what follows the
/// prefix, where the header starts with it.
pub open spec fn spec_bearer_token(header: Seq<char>) -> Option<Seq<char>> {
    if bearer_prefix().is_prefix_of(header) {
        Some(header.skip(bearer_prefix().len() as int))
    } else {
        None
    }
}

/// Takes the token out of an `Authorization` header.
pub fn bearer_token(header: &str) -> (r: Option<String>)
    ensures
        match r {
            Some(token) => spec_bearer_token(header@) == Some(token@),
            None => spec_bearer_token(header@) is None,
        },
{
    let chars: Vec<char> = chars_of(header);
    let prefix: Vec<char> = chars_of("Bearer ");
    if prefix.len() > chars.len() {
        return None;
    }
    if !matches_at(&chars, &prefix, 0) {
        proof {
            assert(chars@.subrange(0, prefix@.len() as int) =~= chars@.take(prefix@.len() as int));
            if prefix@.is_prefix_of(chars@) {
                assert(chars@.subrange(0, prefix@.len() as int) =~= prefix@);
            }
        }
        return None;
    }
    let mut rest: Vec<char> = Vec::new();
    let mut i: usize = prefix.len();
    while i < chars.len()
        invariant
            prefix.len() <= i <= chars.len(),
            rest@ == chars@.subrange(prefix.len() as int, i as int),
        decreases chars.len() - i,
    {
        rest.push(chars[i]);
        proof {
            assert(rest@ =~= chars@.subrange(prefix.len() as int, i + 1));
        }
        i += 1;
    }
    proof {
        assert(chars@.subrange(0, prefix@.len() as int) =~= prefix@);
        assert(prefix@.is_prefix_of(chars@));
        assert(rest@ =~= chars@.skip(prefix.len() as int));
    }
    Some(string_of(&rest))
}

} // verus!
