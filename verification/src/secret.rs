//! Tokens, passwords and session secrets.

use rand::{Rng, RngCore};
use vstd::prelude::*;

use crate::hex::{hex, hex_text};
use crate::settings::{given, read_optional_env};
use crate::text::chars_of;

verus! {

/// How many characters a generated token has.
pub const TOKEN_LEN: usize = 128;

/// The characters that a generated token is made of.
pub const TOKEN_CHARS: &'static str = "0123456789abcdefghijklmnopqrstuvwxyzABCDEFGHIJKLMNOPQRSTUVWXYZ!@#$%^&*()-_=+[]{}:,.?/";

/// The token that a list of places in the alphabet spells.
pub open spec fn spelled(places: Seq<usize>) -> Seq<char> {
    Seq::new(places.len(), |i: int| TOKEN_CHARS@[places[i] as int])
}

/// Whether a text has the length and the alphabet of a generated token.
pub open spec fn is_token(s: Seq<char>) -> bool {
    &&& s.len() == TOKEN_LEN
    &&& forall|i: int| 0 <= i < s.len() ==> TOKEN_CHARS@.contains(#[trigger] s[i])
}

/// Whether a text is the hexadecimal text of 32 bytes.
pub open spec fn is_session_secret(s: Seq<char>) -> bool {
    exists|bytes: Seq<u8>| bytes.len() == 32 && s == #[trigger] hex(bytes)
}

/// `rand::Rng::gen_range` on `rand::rngs::OsRng`: a random number below the
/// bound.
#[verifier::external_body]
fn random_below(bound: usize) -> (r: usize)
    requires
        0 < bound,
    ensures
        r < bound,
{
    rand::rngs::OsRng.gen_range(0..bound)
}

/// `rand::RngCore::fill_bytes` on `rand::rngs::OsRng`: random bytes, of which
/// nothing is claimed.
#[verifier::external_body]
fn random_bytes() -> (r: [u8; 32]) {
    let mut bytes = [0u8; 32];
    rand::rngs::OsRng.fill_bytes(&mut bytes);
    bytes
}

/// The token that a list of places in the alphabet spells.
pub fn spell_token(places: &Vec<usize>) -> (r: String)
    requires
        forall|i: int| 0 <= i < places@.len() ==> #[trigger] places@[i] < TOKEN_CHARS@.len(),
    ensures
        r@ == spelled(places@),
{
    let alphabet = chars_of(TOKEN_CHARS);
    let mut out = String::new();
    let mut i: usize = 0;
    while i < places.len()
        invariant
            i <= places@.len(),
            alphabet@ == TOKEN_CHARS@,
            forall|j: int| 0 <= j < places@.len() ==> #[trigger] places@[j] < TOKEN_CHARS@.len(),
            out@ == spelled(places@.take(i as int)),
        decreases places@.len() - i,
    {
        out.push(alphabet[places[i]]);
        i = i + 1;
        assert(out@ == spelled(places@.take(i as int)));
    }
    assert(places@.take(places@.len() as int) == places@);
    out
}

/// A token of random characters.
pub fn generate_token() -> (r: String)
    ensures
        is_token(r@),
{
    proof {
        reveal_strlit(
            "0123456789abcdefghijklmnopqrstuvwxyzABCDEFGHIJKLMNOPQRSTUVWXYZ!@#$%^&*()-_=+[]{}:,.?/",
        );
    }
    let size: usize = chars_of(TOKEN_CHARS).len();
    let mut places: Vec<usize> = Vec::new();
    while places.len() < TOKEN_LEN
        invariant
            places@.len() <= TOKEN_LEN,
            0 < size == TOKEN_CHARS@.len(),
            forall|j: int| 0 <= j < places@.len() ==> #[trigger] places@[j] < size,
        decreases TOKEN_LEN - places@.len(),
    {
        let place: usize = random_below(size);
        places.push(place);
    }
    spell_token(&places)
}

/// The secret of the session that admin logins share: random bytes as
/// hexadecimal text.
pub fn generate_session_secret() -> (r: String)
    ensures
        is_session_secret(r@),
{
    let bytes = random_bytes();
    let out = hex_text(bytes.as_slice());
    assert(bytes@.len() == 32);
    out
}

/// The token that was configured; where none was, a generated one.
pub fn load_or_generate_token(value: Option<&str>) -> (r: String)
    ensures
        given(value.deep_view()) is Some ==> r@ == given(value.deep_view())->0,
        given(value.deep_view()) is None ==> is_token(r@),
{
    match read_optional_env(value) {
        Some(token) => token,
        None => generate_token(),
    }
}

/// The admin password that was configured; where none was, a generated one.
pub fn load_or_generate_admin_password(value: Option<&str>) -> (r: String)
    ensures
        given(value.deep_view()) is Some ==> r@ == given(value.deep_view())->0,
        given(value.deep_view()) is None ==> is_token(r@),
{
    match read_optional_env(value) {
        Some(password) => password,
        None => generate_token(),
    }
}

/// A token has a character for each place that was drawn, that of the alphabet at
/// the place, and the alphabet is the one given here. Different places spell
/// different tokens.
pub proof fn law_tokens_are_spelled_from_the_alphabet(places: Seq<usize>, others: Seq<usize>)
    requires
        forall|i: int| 0 <= i < places.len() ==> #[trigger] places[i] < 85,
        forall|i: int| 0 <= i < others.len() ==> #[trigger] others[i] < 85,
    ensures
        TOKEN_LEN == 128,
        spelled(places).len() == places.len(),
        forall|i: int|
            0 <= i < places.len() ==> #[trigger] spelled(places)[i]
                == "0123456789abcdefghijklmnopqrstuvwxyzABCDEFGHIJKLMNOPQRSTUVWXYZ!@#$%^&*()-_=+[]{}:,.?/"@[places[i] as int],
        spelled(places) == spelled(others) ==> places == others,
{
    if spelled(places) == spelled(others) {
        assert(spelled(places).len() == places.len());
        assert(spelled(others).len() == others.len());
        assert forall|i: int| 0 <= i < places.len() implies places[i] == others[i] by {
            assert(spelled(places)[i] == spelled(others)[i]);
            lemma_alphabet_has_no_twins(places[i] as int, others[i] as int);
        }
        assert(places =~= others);
    }
}

proof fn lemma_alphabet_has_no_twins(a: int, b: int)
    requires
        0 <= a < 85,
        0 <= b < 85,
        TOKEN_CHARS@[a] == TOKEN_CHARS@[b],
    ensures
        a == b,
{
    reveal_strlit(
        "0123456789abcdefghijklmnopqrstuvwxyzABCDEFGHIJKLMNOPQRSTUVWXYZ!@#$%^&*()-_=+[]{}:,.?/",
    );
}

/// A generated token has 128 characters, all of the alphabet; a session secret
/// has 64, all of them digits or letters from `a` to `f`.
pub proof fn law_secrets_have_their_lengths(s: Seq<char>)
    ensures
        is_token(s) ==> s.len() == 128,
        is_session_secret(s) ==> s.len() == 64,
{
}

} // verus!
