use vstd::prelude::*;

verus! {

/// Why a raw idempotency key was refused.
#[derive(Debug, Clone, Copy, PartialEq, Eq, Structural)]
pub enum ValidationError {
    /// The raw key holds no characters.
    Empty,
    /// The raw key holds fifty characters or more.
    TooLong,
}

/// The exclusive upper bound on the number of characters of a key.
pub const MAX_KEY_CHARS: usize = 50;

/// A token that identifies one submission of an action, so that a resubmission
/// can be recognised. Construction is the only validation gate: every value of
/// this type holds between one and forty-nine characters.
#[derive(Debug)]
pub struct IdempotencyKey(String);

impl View for IdempotencyKey {
    type V = Seq<char>;

    open spec fn view(&self) -> Seq<char> {
        self.text()@
    }
}

/// What validation makes of a raw key: the key itself when it holds between one
/// and forty-nine characters, otherwise the reason for refusing it.
pub open spec fn validate_key(raw: Seq<char>) -> Result<Seq<char>, ValidationError> {
    if raw.len() == 0 {
        Err(ValidationError::Empty)
    } else if raw.len() >= MAX_KEY_CHARS {
        Err(ValidationError::TooLong)
    } else {
        Ok(raw)
    }
}

/// Counts the characters of `s`, stopping at `cap`.
fn count_chars_up_to(s: &str, cap: usize) -> (n: usize)
    ensures
        n == if s@.len() < cap { s@.len() as int } else { cap as int },
{
    let mut n: usize = 0;
    for c in it: s.chars()
        invariant
            it.seq() == s@,
            n == if it.index() < cap { it.index() as int } else { cap as int },
    {
        if n < cap {
            n = n + 1;
        }
    }
    n
}

impl IdempotencyKey {
    /// The wrapped string.
    pub closed spec fn text(&self) -> String {
        self.0
    }

    #[verifier::type_invariant]
    spec fn inv(&self) -> bool {
        1 <= self.0@.len() < MAX_KEY_CHARS
    }

    /// Validates `s` and wraps it verbatim: fails with `Empty` on the empty
    /// string and with `TooLong` on fifty characters or more.
    pub fn try_from(s: String) -> (r: Result<IdempotencyKey, ValidationError>)
        ensures
            match validate_key(s@) {
                Ok(v) => r is Ok && r->Ok_0@ == v,
                Err(e) => r == Err::<IdempotencyKey, ValidationError>(e),
            },
    {
        let n = count_chars_up_to(s.as_str(), MAX_KEY_CHARS);
        if n == 0 {
            Err(ValidationError::Empty)
        } else if n >= MAX_KEY_CHARS {
            Err(ValidationError::TooLong)
        } else {
            Ok(IdempotencyKey(s))
        }
    }

    /// The wrapped text, read-only.
    pub fn as_ref(&self) -> (r: &str)
        ensures
            r@ == self@,
            1 <= r@.len() < MAX_KEY_CHARS,
    {
        proof {
            use_type_invariant(self);
        }
        self.0.as_str()
    }

    /// Gives the wrapped text back as a plain string.
    pub fn into_string(self) -> (r: String)
        ensures
            r@ == self@,
            1 <= r@.len() < MAX_KEY_CHARS,
    {
        proof {
            use_type_invariant(&self);
        }
        self.0
    }
}

/// A key can be made from exactly the texts of one to forty-nine characters,
/// and then holds that text unchanged; the empty text is refused as empty, and
/// a text of fifty characters or more as too long.
pub proof fn idempotency_key_round_trip(raw: Seq<char>)
    ensures
        1 <= raw.len() < MAX_KEY_CHARS ==> validate_key(raw) == Ok::<Seq<char>, ValidationError>(raw),
        raw.len() == 0 ==> validate_key(raw) == Err::<Seq<char>, ValidationError>(ValidationError::Empty),
        raw.len() >= MAX_KEY_CHARS ==> validate_key(raw) == Err::<Seq<char>, ValidationError>(
            ValidationError::TooLong,
        ),
{
}

impl From<IdempotencyKey> for String {
    fn from(key: IdempotencyKey) -> String {
        key.0
    }
}

impl vstd::std_specs::convert::FromSpecImpl<IdempotencyKey> for String {
    open spec fn obeys_from_spec() -> bool {
        true
    }

    open spec fn from_spec(key: IdempotencyKey) -> String {
        key.text()
    }
}

} // verus!
