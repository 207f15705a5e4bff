use vstd::prelude::*;
use vstd::utf8::*;
use vstd::string::StringSliceAdditionalSpecFns;
use argon2::PasswordVerifier;
use base64::Engine;
use secrecy::ExposeSecret;

verus! {

broadcast use vstd::utf8::group_utf8_lib;

/// A string that must stay out of logs and messages. It is held in secrecy's
/// `Secret`, whose `Debug` output redacts it, and is read only through
/// `expose_secret`.
#[verifier::external_body]
#[derive(Debug)]
pub struct SecretText {
    inner: secrecy::Secret<String>,
}

/// The text held inside a secret.
pub uninterp spec fn secret_text(s: SecretText) -> Seq<char>;

impl SecretText {
    /// Relies on secrecy's `Secret::new`: the secret holds the given text.
    #[verifier::external_body]
    fn wrap(s: String) -> (r: SecretText)
        ensures
            secret_text(r) == s@,
    {
        SecretText { inner: secrecy::Secret::new(s) }
    }

    /// Relies on secrecy's `ExposeSecret::expose_secret`: a reference to the held text.
    #[verifier::external_body]
    fn expose(&self) -> (r: &String)
        ensures
            r@ == secret_text(*self),
    {
        self.inner.expose_secret()
    }

    /// Keeps `s` as a secret.
    pub fn new(s: String) -> (r: SecretText)
        ensures
            secret_text(r) == s@,
    {
        SecretText::wrap(s)
    }

    /// The secret text itself: the one way to read it.
    pub fn expose_secret(&self) -> (r: &String)
        ensures
            r@ == secret_text(*self),
    {
        self.expose()
    }
}

/// What the padded standard base64 alphabet decodes `text` to, if it is such text.
pub uninterp spec fn base64_decoded(text: Seq<u8>) -> Option<Seq<u8>>;

/// Relies on base64's `STANDARD` engine and its `decode`: the decoded bytes, or
/// an error when the input is not valid padded standard base64.
#[verifier::external_body]
fn decode_base64(text: &[u8]) -> (r: Option<Vec<u8>>)
    ensures
        match r {
            Some(v) => base64_decoded(text@) == Some(v@),
            None => base64_decoded(text@) is None,
        },
{
    base64::engine::general_purpose::STANDARD.decode(text).ok()
}

/// Relies on `String::from_utf8`: the text that the bytes encode when they are
/// valid UTF-8, an error otherwise.
#[verifier::external_body]
fn utf8_text(bytes: Vec<u8>) -> (r: Option<String>)
    ensures
        match r {
            Some(s) => valid_utf8(bytes@) && s@ == decode_utf8(bytes@),
            None => !valid_utf8(bytes@),
        },
{
    String::from_utf8(bytes).ok()
}

/// The outcome of checking a password against a PHC-format hash string: `None`
/// when the string is not a well-formed PHC hash, otherwise whether the
/// password hashes, under the algorithm, parameters and salt that the string
/// names, to the digest that it holds.
pub uninterp spec fn phc_verification(password: Seq<char>, phc: Seq<char>) -> Option<bool>;

/// A decimal digit.
pub open spec fn is_ascii_digit(c: char) -> bool {
    '0' <= c && c <= '9'
}

/// At position `i` of `phc` stands `p=` followed by at least nine digits: a
/// parallelism parameter of 100000000 or more.
pub open spec fn long_parallelism_at(phc: Seq<char>, i: int) -> bool {
    &&& 0 <= i
    &&& i + 11 <= phc.len()
    &&& phc[i] == 'p'
    &&& phc[i + 1] == '='
    &&& forall|k: int| 0 <= k < 9 ==> is_ascii_digit(#[trigger] phc[i + 2 + k])
}

/// `phc` names no parallelism of nine digits or more. Argon2 refuses any
/// parallelism above 16777215, but it multiplies the value by eight in 32-bit
/// arithmetic before that test, which overflows from 536870912 on; a decimal
/// parameter value has no leading zero, so such a value has nine digits.
pub open spec fn parallelism_in_range(phc: Seq<char>) -> bool {
    forall|i: int| !long_parallelism_at(phc, i)
}

/// Relies on password_hash's `PasswordHash::new`, which parses a PHC string (and
/// refuses the empty one), and on argon2's `PasswordVerifier::verify_password`,
/// which recomputes the hash with the parameters and salt read from it. Only
/// the parse can fail, so whether the result is `None` depends on the hash
/// string alone, not on the password.
#[verifier::external_body]
fn check_password(password: &str, phc: &str) -> (r: Option<bool>)
    requires
        parallelism_in_range(phc@),
    ensures
        r == phc_verification(password@, phc@),
        phc@.len() == 0 ==> r is None,
        forall|q: Seq<char>| (#[trigger] phc_verification(q, phc@) is Some) == (r is Some),
{
    match argon2::PasswordHash::new(phc) {
        Ok(hash) => Some(argon2::Argon2::default().verify_password(password.as_bytes(), &hash).is_ok()),
        Err(_) => None,
    }
}

/// `phc` is a well-formed PHC hash string whose parallelism is in range:
/// checking any password against it gives a verdict rather than a fault.
pub open spec fn is_phc_hash(phc: Seq<char>) -> bool {
    &&& parallelism_in_range(phc)
    &&& forall|q: Seq<char>| #[trigger] phc_verification(q, phc) is Some
}

/// The characters of `s`.
fn chars_of(s: &str) -> (v: Vec<char>)
    ensures
        v@ == s@,
{
    let mut v: Vec<char> = Vec::new();
    for c in it: s.chars()
        invariant
            it.seq() == s@,
            v@ == it.seq().take(it.index() as int),
    {
        v.push(c);
    }
    v
}

/// Whether `phc` names no parallelism of nine digits or more.
fn check_parallelism(phc: &str) -> (r: bool)
    ensures
        r == parallelism_in_range(phc@),
{
    let v = chars_of(phc);
    let mut i: usize = 0;
    while i < v.len()
        invariant
            v@ == phc@,
            i <= v.len(),
            forall|j: int| 0 <= j < i ==> !long_parallelism_at(phc@, j),
        decreases v.len() - i,
    {
        if v.len() - i >= 11 && v[i] == 'p' && v[i + 1] == '=' {
            let mut k: usize = 0;
            while k < 9 && '0' <= v[i + 2 + k] && v[i + 2 + k] <= '9'
                invariant
                    v@ == phc@,
                    i + 11 <= v.len(),
                    k <= 9,
                    forall|m: int| 0 <= m < k ==> is_ascii_digit(#[trigger] phc@[i + 2 + m]),
                decreases 9 - k,
            {
                k = k + 1;
            }
            if k == 9 {
                assert(long_parallelism_at(phc@, i as int));
                return false;
            }
            assert(!is_ascii_digit(phc@[i + 2 + k]));
        }
        i = i + 1;
    }
    true
}

/// The hash that passwords for unknown usernames are checked against, so that
/// the check costs the same whether or not the user exists. It is made once
/// and only from a well-formed PHC string.
pub struct DummyHash {
    phc: String,
}

impl DummyHash {
    /// The hash string.
    pub closed spec fn phc(&self) -> Seq<char> {
        self.phc@
    }

    #[verifier::type_invariant]
    spec fn inv(&self) -> bool {
        is_phc_hash(self.phc@)
    }

    /// Accepts `phc` as the dummy hash if it is a well-formed PHC string.
    pub fn new(phc: String) -> (r: Option<DummyHash>)
        ensures
            match r {
                Some(d) => is_phc_hash(phc@) && d.phc() == phc@,
                None => !is_phc_hash(phc@),
            },
    {
        if !check_parallelism(phc.as_str()) {
            return None;
        }
        match check_password("", phc.as_str()) {
            Some(_) => Some(DummyHash { phc }),
            None => {
                assert(phc_verification(""@, phc@) is None);
                None
            },
        }
    }

    /// The hash string, which is well-formed.
    pub fn as_str(&self) -> (r: &str)
        ensures
            r@ == self.phc(),
            is_phc_hash(r@),
    {
        proof {
            use_type_invariant(self);
        }
        self.phc.as_str()
    }
}

/// An opaque, unique identifier of a registered user.
#[derive(Debug, Clone, Copy, PartialEq, Eq, Structural)]
pub struct UserId(pub u128);

/// A username and password pair offered by a caller. The password is kept in a
/// secret wrapper, whose formatting redacts it.
pub struct Credentials {
    pub username: String,
    pub password: SecretText,
}

/// What the credential store holds for a username: the user's identifier and
/// the PHC-format hash of their password.
pub struct StoredCredential {
    pub user_id: UserId,
    pub password_hash: SecretText,
}

/// Why the `Authorization` header did not yield credentials.
#[derive(Debug, Clone, Copy, PartialEq, Eq, Structural)]
pub enum CredentialsError {
    /// The request carries no `Authorization` header.
    MissingHeader,
    /// The header value holds a byte that is not visible ASCII or a tab.
    NotVisibleText,
    /// The authorization scheme is not `Basic`.
    NotBasicScheme,
    /// The credentials are not valid base64.
    NotBase64,
    /// The decoded credentials are not valid UTF-8.
    NotUtf8,
    /// The decoded credentials hold no `:` between username and password.
    MissingPassword,
    /// The decoded credentials start with `:`: the username is empty.
    MissingUsername,
}

/// A header byte that a header value may hold as text: visible ASCII or a tab.
pub open spec fn is_visible_ascii(b: u8) -> bool {
    (32 <= b && b < 127) || b == 9
}

/// The bytes of `Basic `, the prefix of the basic authorization scheme.
pub open spec fn basic_prefix() -> Seq<u8> {
    seq![66u8, 97u8, 115u8, 105u8, 99u8, 32u8]
}

/// The byte of `:`.
pub const COLON: u8 = 58;

/// `i` is the position of the first `:` in `d`.
pub open spec fn is_first_colon(d: Seq<u8>, i: int) -> bool {
    &&& 0 <= i < d.len()
    &&& d[i] == COLON
    &&& forall|j: int| 0 <= j < i ==> d[j] != COLON
}

/// What basic authentication makes of an `Authorization` header value: on
/// success the decoded credentials as bytes, split at their first `:`, with a
/// username that is not empty.
pub open spec fn basic_credentials(header: Option<Seq<u8>>) -> Result<(Seq<u8>, Seq<u8>), CredentialsError> {
    match header {
        None => Err(CredentialsError::MissingHeader),
        Some(h) => if !(forall|i: int| 0 <= i < h.len() ==> is_visible_ascii(#[trigger] h[i])) {
            Err(CredentialsError::NotVisibleText)
        } else if !(h.len() >= 6 && h.take(6) == basic_prefix()) {
            Err(CredentialsError::NotBasicScheme)
        } else {
            match base64_decoded(h.skip(6)) {
                None => Err(CredentialsError::NotBase64),
                Some(d) => if !valid_utf8(d) {
                    Err(CredentialsError::NotUtf8)
                } else if !(exists|i: int| is_first_colon(d, i)) {
                    Err(CredentialsError::MissingPassword)
                } else {
                    let i = choose|i: int| is_first_colon(d, i);
                    if i == 0 {
                        Err(CredentialsError::MissingUsername)
                    } else {
                        Ok((d.take(i), d.skip(i + 1)))
                    }
                },
            }
        },
    }
}

/// The bytes of a header value, if the header is present.
pub open spec fn header_bytes(authorization: Option<&[u8]>) -> Option<Seq<u8>> {
    match authorization {
        Some(h) => Some(h@),
        None => None,
    }
}

/// In valid UTF-8, the position right after an ASCII `:` starts a character.
proof fn lemma_boundary_after_colon(d: Seq<u8>, i: int)
    requires
        valid_utf8(d),
        0 <= i < d.len(),
        d[i] == COLON,
    ensures
        is_char_boundary(d, i),
        is_char_boundary(d, i + 1),
{
    is_char_boundary_iff_not_is_continuation_byte(d, i);
    valid_utf8_split(d, i);
    let s2 = d.subrange(i, d.len() as int);
    assert(s2[0] == COLON);
    assert(pop_first_scalar(s2) =~= d.subrange(i + 1, d.len() as int));
    if i + 1 < d.len() {
        let s3 = d.subrange(i + 1, d.len() as int);
        assert(valid_utf8(s3));
        assert(valid_first_scalar(s3));
        assert(s3[0] == d[i + 1]);
        assert(!is_continuation_byte(d[i + 1]));
    }
}

/// Reads basic-scheme credentials from the value of an `Authorization` header:
/// `Basic ` followed by the base64 encoding of `username:password`. The
/// username is what precedes the first `:` and must not be empty; the password
/// is all that follows it.
pub fn basic_authentication(authorization: Option<&[u8]>) -> (r: Result<Credentials, CredentialsError>)
    ensures
        ({
            let expected = basic_credentials(header_bytes(authorization));
            match r {
                Ok(c) => expected is Ok && c.username@ == decode_utf8(expected->Ok_0.0)
                    && secret_text(c.password) == decode_utf8(expected->Ok_0.1),
                Err(e) => expected == Err::<(Seq<u8>, Seq<u8>), CredentialsError>(e),
            }
        }),
{
    let h = match authorization {
        None => return Err(CredentialsError::MissingHeader),
        Some(h) => h,
    };
    let mut k: usize = 0;
    while k < h.len()
        invariant
            header_bytes(authorization) == Some(h@),
            k <= h@.len(),
            forall|i: int| 0 <= i < k ==> is_visible_ascii(#[trigger] h@[i]),
        decreases h@.len() - k,
    {
        let b = h[k];
        if !((32 <= b && b < 127) || b == 9) {
            assert(!is_visible_ascii(h@[k as int]));
            return Err(CredentialsError::NotVisibleText);
        }
        k = k + 1;
    }
    if !(h.len() >= 6 && h[0] == 66u8 && h[1] == 97u8 && h[2] == 115u8 && h[3] == 105u8 && h[4]
        == 99u8 && h[5] == 32u8) {
        proof {
            if h@.len() >= 6 && h@.take(6) == basic_prefix() {
                assert(h@.take(6)[0] == h@[0]);
                assert(h@.take(6)[1] == h@[1]);
                assert(h@.take(6)[2] == h@[2]);
                assert(h@.take(6)[3] == h@[3]);
                assert(h@.take(6)[4] == h@[4]);
                assert(h@.take(6)[5] == h@[5]);
            }
        }
        return Err(CredentialsError::NotBasicScheme);
    }
    assert(h@.take(6) =~= basic_prefix());
    let (_, encoded) = h.split_at(6);
    assert(encoded@ =~= h@.skip(6));
    let decoded = match decode_base64(encoded) {
        None => return Err(CredentialsError::NotBase64),
        Some(d) => d,
    };
    let ghost d = decoded@;
    let n = decoded.len();
    let mut colon: usize = 0;
    while colon < decoded.len() && decoded[colon] != COLON
        invariant
            colon <= d.len(),
            decoded@ == d,
            forall|j: int| 0 <= j < colon ==> d[j] != COLON,
        decreases d.len() - colon,
    {
        colon = colon + 1;
    }
    let text = match utf8_text(decoded) {
        None => return Err(CredentialsError::NotUtf8),
        Some(t) => t,
    };
    if colon == n {
        assert forall|i: int| !is_first_colon(d, i) by {}
        return Err(CredentialsError::MissingPassword);
    }
    assert(is_first_colon(d, colon as int));
    assert forall|i: int| is_first_colon(d, i) implies i == colon by {
        if i < colon {
        } else if i > colon {
            assert(d[colon as int] != COLON);
        }
    }
    if colon == 0 {
        return Err(CredentialsError::MissingUsername);
    }
    let s = text.as_str();
    assert(s.spec_bytes() == d);
    proof {
        lemma_boundary_after_colon(d, colon as int);
    }
    let (head, tail) = s.split_at(colon + 1);
    proof {
        valid_utf8_split(d, colon + 1);
        assert(head.spec_bytes() =~= d.take(colon + 1));
        assert(head.spec_bytes()[colon as int] == COLON);
        is_char_boundary_iff_not_is_continuation_byte(head.spec_bytes(), colon as int);
    }
    let (user, _) = head.split_at(colon);
    proof {
        assert(user.spec_bytes() =~= d.take(colon as int));
        assert(tail.spec_bytes() =~= d.skip(colon + 1));
    }
    let username = user.to_owned();
    let password = SecretText::new(tail.to_owned());
    Ok(Credentials { username, password })
}

/// A fault that kept the credentials from being checked.
#[derive(Debug, PartialEq, Eq)]
pub enum AuthFault {
    /// The credential store could not be read; its message.
    Store(String),
    /// The hash that the comparison was to run against is not a PHC string.
    MalformedHash,
    /// The worker that runs the comparison off the request path failed; its
    /// message.
    Worker(String),
}

/// Why credentials were not accepted.
#[derive(Debug, PartialEq, Eq)]
pub enum AuthError {
    /// The username is unknown or the password is wrong; which of the two is
    /// never told.
    InvalidCredentials,
    /// The check itself failed.
    UnexpectedError(AuthFault),
}

/// The hash that a password is compared against: the stored one when the
/// username was found, the dummy one otherwise.
pub open spec fn expected_hash(found: Option<StoredCredential>, dummy_hash: Seq<char>) -> Seq<char> {
    match found {
        Some(sc) => secret_text(sc.password_hash),
        None => dummy_hash,
    }
}

/// The verdict on `password`, given what the credential store answered for the
/// username and the dummy hash used when it holds no such user.
pub open spec fn verdict(
    password: Seq<char>,
    lookup: Result<Option<StoredCredential>, String>,
    dummy_hash: Seq<char>,
) -> Result<UserId, AuthError> {
    match lookup {
        Err(m) => Err(AuthError::UnexpectedError(AuthFault::Store(m))),
        Ok(found) => if !parallelism_in_range(expected_hash(found, dummy_hash)) {
            Err(AuthError::UnexpectedError(AuthFault::MalformedHash))
        } else {
            match phc_verification(password, expected_hash(found, dummy_hash)) {
                None => Err(AuthError::UnexpectedError(AuthFault::MalformedHash)),
                Some(matched) => match found {
                    Some(sc) => if matched {
                        Ok(sc.user_id)
                    } else {
                        Err(AuthError::InvalidCredentials)
                    },
                    None => Err(AuthError::InvalidCredentials),
                },
            }
        },
    }
}

/// Checks `credentials` against what the credential store answered for their
/// username (`lookup`). The password is compared against a hash whether or not
/// the username was found: the stored hash, or else `dummy_hash`, so that the
/// cost of the check does not tell whether the user exists. A store fault or a
/// malformed hash (one that does not parse, or that names a parallelism out of
/// range) is an unexpected error, distinct from a rejection.
pub fn verify_credentials(
    credentials: Credentials,
    lookup: Result<Option<StoredCredential>, String>,
    dummy_hash: &DummyHash,
) -> (r: Result<UserId, AuthError>)
    ensures
        r == verdict(secret_text(credentials.password), lookup, dummy_hash.phc()),
        is_phc_hash(dummy_hash.phc()),
{
    let dummy = dummy_hash.as_str();
    let found = match lookup {
        Err(m) => return Err(AuthError::UnexpectedError(AuthFault::Store(m))),
        Ok(found) => found,
    };
    let (user_id, expected): (Option<UserId>, &str) = match &found {
        Some(sc) => (Some(sc.user_id), sc.password_hash.expose_secret().as_str()),
        None => (None, dummy),
    };
    if !check_parallelism(expected) {
        return Err(AuthError::UnexpectedError(AuthFault::MalformedHash));
    }
    match check_password(credentials.password.expose_secret().as_str(), expected) {
        None => Err(AuthError::UnexpectedError(AuthFault::MalformedHash)),
        Some(matched) => match user_id {
            Some(id) => if matched {
                Ok(id)
            } else {
                Err(AuthError::InvalidCredentials)
            },
            None => Err(AuthError::InvalidCredentials),
        },
    }
}

/// A registered user who gives the password that their stored hash was made
/// from is accepted, and identified as that user (their stored hash names a
/// parallelism in range, as every hash this library accepts does).
pub proof fn registered_user_with_correct_password_is_accepted(
    password: Seq<char>,
    stored: StoredCredential,
    dummy_hash: Seq<char>,
)
    requires
        parallelism_in_range(secret_text(stored.password_hash)),
        phc_verification(password, secret_text(stored.password_hash)) == Some(true),
    ensures
        verdict(password, Ok(Some(stored)), dummy_hash) == Ok::<UserId, AuthError>(stored.user_id),
{
}

/// A wrong password for a registered user and any password for an unknown
/// username get the same answer, `InvalidCredentials`, so the answer does not
/// tell whether the username exists. The dummy hash is well-formed, as every
/// `DummyHash` is.
pub proof fn wrong_password_and_unknown_user_are_rejected_alike(
    password: Seq<char>,
    stored: StoredCredential,
    dummy_hash: Seq<char>,
)
    requires
        parallelism_in_range(secret_text(stored.password_hash)),
        phc_verification(password, secret_text(stored.password_hash)) == Some(false),
        is_phc_hash(dummy_hash),
    ensures
        verdict(password, Ok(Some(stored)), dummy_hash) == Err::<UserId, AuthError>(
            AuthError::InvalidCredentials,
        ),
        verdict(password, Ok(None), dummy_hash) == Err::<UserId, AuthError>(
            AuthError::InvalidCredentials,
        ),
{
}

} // verus!
