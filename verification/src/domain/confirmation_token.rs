//! The token that confirms a subscription.

use crate::domain::text::chars_of;
use rand::Rng;
use vstd::arithmetic::power::{
    lemma_pow0, lemma_pow1, lemma_pow_adds, lemma_pow_multiplies, lemma_pow_positive,
    lemma_pow_strictly_increases, pow,
};
use vstd::prelude::*;
use vstd::string::StringExecFns;

verus! {

/// The number of characters of a token.
pub const TOKEN_LENGTH: usize = 25;

/// Whether `b` is the ASCII code of a letter or of a digit.
pub open spec fn is_alphanumeric_byte(b: u8) -> bool {
    (0x30 <= b <= 0x39) || (0x41 <= b <= 0x5a) || (0x61 <= b <= 0x7a)
}

/// Whether `c` is an ASCII letter or digit.
pub open spec fn is_token_char(c: char) -> bool {
    c as u32 <= 0x7f && is_alphanumeric_byte(c as u8)
}

/// What every token satisfies: `TOKEN_LENGTH` ASCII letters and digits.
pub open spec fn is_token(s: Seq<char>) -> bool {
    s.len() == TOKEN_LENGTH && forall|i: int| 0 <= i < s.len() ==> is_token_char(#[trigger] s[i])
}

/// The number of texts that have the shape of a token: each of the
/// `TOKEN_LENGTH` characters is one of 62.
pub open spec fn token_space() -> int {
    pow(62, TOKEN_LENGTH as nat)
}

/// There are more texts with the shape of a token than 128 bits can tell
/// apart.
pub proof fn lemma_token_space()
    ensures
        token_space() > pow(2, 128),
{
    lemma_pow1(62);
    lemma_square(62, 1, 62);
    lemma_square(62, 2, 3844);
    lemma_pow_adds(62, 4, 1);
    assert(pow(62, 5) == 916132832);
    lemma_pow1(2);
    lemma_square(2, 1, 2);
    lemma_square(2, 2, 4);
    lemma_square(2, 4, 16);
    lemma_square(2, 8, 256);
    lemma_pow_adds(2, 16, 8);
    assert(pow(2, 24) == 16777216);
    lemma_pow_adds(2, 24, 2);
    assert(pow(2, 26) == 67108864);
    lemma_pow_multiplies(62, 5, 5);
    lemma_pow_multiplies(2, 26, 5);
    lemma_pow_grows(67108864, 916132832, 5);
    lemma_pow_strictly_increases(2, 128, 130);
}

/// The power with twice the exponent is the square.
proof fn lemma_square(b: int, e: nat, value: int)
    requires
        pow(b, e) == value,
    ensures
        pow(b, 2 * e) == value * value,
{
    lemma_pow_adds(b, e, e);
    assert(e + e == 2 * e);
}

/// A power grows with its base.
proof fn lemma_pow_grows(a: int, b: int, n: nat)
    requires
        0 < a < b,
        n > 0,
    ensures
        pow(a, n) < pow(b, n),
    decreases n,
{
    lemma_pow_positive(a, (n - 1) as nat);
    lemma_pow1(a);
    lemma_pow1(b);
    lemma_pow_adds(a, 1, (n - 1) as nat);
    lemma_pow_adds(b, 1, (n - 1) as nat);
    if n > 1 {
        lemma_pow_grows(a, b, (n - 1) as nat);
        let x = pow(a, (n - 1) as nat);
        let y = pow(b, (n - 1) as nat);
        assert(a * x < b * y) by (nonlinear_arith)
            requires
                0 < a < b,
                0 < x < y,
        ;
    } else {
        lemma_pow0(a);
        lemma_pow0(b);
    }
}

/// Draws one byte from the thread's random generator (`rand::thread_rng`)
/// with `Rng::sample` over `rand::distributions::Alphanumeric`. Whatever is
/// drawn is the ASCII code of a letter or of a digit.
#[verifier::external_body]
fn random_alphanumeric() -> (b: u8)
    ensures
        is_alphanumeric_byte(b),
{
    rand::thread_rng().sample(rand::distributions::Alphanumeric)
}

/// `String::push` appends `c` to `s`.
pub assume_specification[ String::push ](s: &mut String, c: char)
    ensures
        final(s)@ == old(s)@.push(c),
;

/// Whether `c` is an ASCII letter or digit.
pub fn char_is_token_char(c: char) -> (b: bool)
    ensures
        b == is_token_char(c),
{
    let u: u32 = c as u32;
    (0x30 <= u && u <= 0x39) || (0x41 <= u && u <= 0x5a) || (0x61 <= u && u <= 0x7a)
}

/// An opaque token bound to one subscription: `TOKEN_LENGTH` ASCII letters
/// and digits.
#[derive(Debug)]
pub struct ConfirmationToken(String);

impl View for ConfirmationToken {
    type V = Seq<char>;

    closed spec fn view(&self) -> Seq<char> {
        self.0@
    }
}

impl ConfirmationToken {
    #[verifier::type_invariant]
    spec fn valid(self) -> bool {
        is_token(self.0@)
    }

    /// A fresh token, each character drawn at random.
    pub fn generate() -> (token: ConfirmationToken)
        ensures
            is_token(token@),
    {
        let mut s = String::new();
        let mut i: usize = 0;
        while i < TOKEN_LENGTH
            invariant
                i <= TOKEN_LENGTH,
                s@.len() == i,
                forall|j: int| 0 <= j < s@.len() ==> is_token_char(#[trigger] s@[j]),
            decreases TOKEN_LENGTH - i,
        {
            let b = random_alphanumeric();
            s.push(b as char);
            i += 1;
        }
        ConfirmationToken(s)
    }

    /// Takes `s` for a token where it has the shape of one.
    pub fn parse(s: String) -> (r: Option<ConfirmationToken>)
        ensures
            match r {
                Some(token) => is_token(s@) && token@ == s@,
                None => !is_token(s@),
            },
    {
        let chars = chars_of(s.as_str());
        if chars.len() != TOKEN_LENGTH {
            return None;
        }
        let mut i: usize = 0;
        while i < chars.len()
            invariant
                chars@ == s@,
                i <= chars@.len(),
                forall|j: int| 0 <= j < i ==> is_token_char(#[trigger] s@[j]),
            decreases chars@.len() - i,
        {
            if !char_is_token_char(chars[i]) {
                return None;
            }
            i += 1;
        }
        Some(ConfirmationToken(s))
    }

    /// Whether `s` is the text of this token.
    pub fn has_text(&self, s: &str) -> (same: bool)
        ensures
            same == (self@ == s@),
    {
        let other = String::from_str(s);
        self.0 == other
    }

    /// The text of the token.
    pub fn as_ref(&self) -> (s: &str)
        ensures
            s@ == self@,
            is_token(s@),
    {
        proof {
            use_type_invariant(self);
        }
        self.0.as_str()
    }
}

impl Clone for ConfirmationToken {
    fn clone(&self) -> (c: Self)
        ensures
            c@ == self@,
    {
        proof {
            use_type_invariant(self);
        }
        ConfirmationToken(self.0.clone())
    }
}

} // verus!
