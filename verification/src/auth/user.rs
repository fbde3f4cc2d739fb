//! The user table's rows, session rows, and the generation of API tokens.
//!
//! The token only keeps a malicious page or extension on the same machine from
//! submitting downloads. It is stored and served in plain text on purpose.

use rand::seq::SliceRandom;
use rand::{RngCore, SeedableRng};
use vstd::prelude::*;

verus! {

/// The random generator that the store draws tokens from.
#[verifier::external_type_specification]
#[verifier::external_body]
pub struct ExChaCha20Rng(rand_chacha::ChaCha20Rng);

/// Seeds a generator from the operating system with
/// `SeedableRng::from_entropy`. Nothing is claimed about its state.
#[verifier::external_body]
pub(crate) fn seeded_generator() -> (rng: rand_chacha::ChaCha20Rng) {
    rand_chacha::ChaCha20Rng::from_entropy()
}

/// Picks one byte of `choices` with `SliceRandom::choose`.
///
/// Believed, not proved: the byte is one of `choices`. That method returns an
/// element of a slice that is not empty; which one depends on the generator.
#[verifier::external_body]
pub(crate) fn choose_byte(rng: &mut rand_chacha::ChaCha20Rng, choices: &[u8]) -> (byte: u8)
    requires
        choices@.len() > 0,
    ensures
        choices@.contains(byte),
{
    *choices.choose(rng).unwrap()
}

/// Draws 128 random bits with `RngCore::fill_bytes` and reads them as one
/// number, the first byte first. Nothing is claimed about the number.
#[verifier::external_body]
pub(crate) fn random_token(rng: &mut rand_chacha::ChaCha20Rng) -> (token: u128) {
    let mut token_bytes = [0u8; 16];
    rng.fill_bytes(&mut token_bytes);
    u128::from_be_bytes(token_bytes)
}

/// One row of the user table.
#[derive(Debug)]
pub struct User {
    user_id: u128,
    name: String,
    api_token: String,
}

/// The mathematical content of a [`User`].
pub ghost struct UserView {
    pub user_id: u128,
    pub name: Seq<char>,
    pub api_token: Seq<char>,
}

impl View for User {
    type V = UserView;

    closed spec fn view(&self) -> UserView {
        UserView { user_id: self.user_id, name: self.name@, api_token: self.api_token@ }
    }
}

/// The models of a run of users, in order.
pub open spec fn user_views(users: Seq<User>) -> Seq<UserView> {
    users.map_values(|u: User| u@)
}

impl Clone for User {
    fn clone(&self) -> (copy: Self)
        ensures
            copy == *self,
    {
        User {
            user_id: self.user_id,
            name: self.name.clone(),
            api_token: self.api_token.clone(),
        }
    }
}

impl Default for User {
    fn default() -> (user: Self)
        ensures
            user@ == (UserView { user_id: 0, name: Seq::empty(), api_token: Seq::empty() }),
    {
        User { user_id: 0, name: String::new(), api_token: String::new() }
    }
}

/// One row of the session table: a session token and the user it is bound to.
#[derive(Clone, Copy, Debug, PartialEq, Eq, Structural)]
pub struct Session {
    pub session_token: u128,
    pub user_id: u128,
}

/// The length of an API token, in characters.
pub const API_TOKEN_LENGTH: usize = 32;

/// Whether `byte` is an ASCII letter or digit: the alphabet of API tokens.
pub open spec fn is_token_character(byte: u8) -> bool {
    (0x61 <= byte <= 0x7a) || (0x41 <= byte <= 0x5a) || (0x30 <= byte <= 0x39)
}

/// Whether `ch` is an ASCII letter or digit.
pub open spec fn is_token_char(ch: char) -> bool {
    let code = ch as u32;
    (0x61 <= code <= 0x7a) || (0x41 <= code <= 0x5a) || (0x30 <= code <= 0x39)
}

/// The alphabet of API tokens: `a` to `z`, then `A` to `Z`, then `0` to `9`.
pub open spec fn token_alphabet() -> Seq<u8> {
    Seq::new(
        62,
        |k: int|
            if k < 26 {
                (0x61 + k) as u8
            } else if k < 52 {
                (0x41 + k - 26) as u8
            } else {
                (0x30 + k - 52) as u8
            },
    )
}

/// Whether `token` has the shape of an API token: 32 characters, each an ASCII
/// letter or digit.
pub open spec fn is_api_token(token: Seq<char>) -> bool {
    &&& token.len() == API_TOKEN_LENGTH
    &&& forall|i: int| 0 <= i < token.len() ==> is_token_char(#[trigger] token[i])
}

/// Lists the alphabet of API tokens.
pub fn token_characters() -> (alphabet: Vec<u8>)
    ensures
        alphabet@ == token_alphabet(),
        forall|i: int| 0 <= i < alphabet.len() ==> is_token_character(#[trigger] alphabet[i]),
{
    let mut alphabet: Vec<u8> = Vec::new();
    let mut k: u8 = 0;
    while k < 62
        invariant
            k <= 62,
            alphabet.len() == k,
            forall|i: int| 0 <= i < k ==> #[trigger] alphabet[i] == token_alphabet()[i],
            forall|i: int| 0 <= i < k ==> is_token_character(#[trigger] alphabet[i]),
        decreases 62 - k,
    {
        let byte: u8 = if k < 26 {
            0x61 + k
        } else if k < 52 {
            0x41 + (k - 26)
        } else {
            0x30 + (k - 52)
        };
        alphabet.push(byte);
        k += 1;
    }
    assert(alphabet@ =~= token_alphabet());
    alphabet
}

impl User {
    /// A user row.
    pub fn new(user_id: u128, name: String, api_token: String) -> (user: User)
        ensures
            user@ == (UserView { user_id, name: name@, api_token: api_token@ }),
    {
        User { user_id, name, api_token }
    }

    /// The name of the user that is provisioned at first start.
    pub fn admin_user_name() -> (name: &'static str)
        ensures
            name@ == "admin"@,
    {
        "admin"
    }

    /// Generates an API token: 32 characters drawn from the ASCII letters and
    /// digits.
    pub fn generate_api_token(rng: &mut rand_chacha::ChaCha20Rng) -> (token: String)
        ensures
            is_api_token(token@),
    {
        let alphabet = token_characters();
        let mut token = String::new();
        let mut n: usize = 0;
        while n < API_TOKEN_LENGTH
            invariant
                n <= API_TOKEN_LENGTH,
                token@.len() == n,
                alphabet@.len() == 62,
                forall|i: int| 0 <= i < alphabet.len() ==> is_token_character(#[trigger] alphabet[i]),
                forall|i: int| 0 <= i < token@.len() ==> is_token_char(#[trigger] token@[i]),
            decreases API_TOKEN_LENGTH - n,
        {
            let byte = choose_byte(rng, alphabet.as_slice());
            let ghost before = token@;
            token.push(byte as char);
            assert forall|i: int| 0 <= i < token@.len() implies is_token_char(
                #[trigger] token@[i],
            ) by {
                if i < before.len() {
                    assert(token@[i] == before[i]);
                } else {
                    let w = alphabet@.index_of(byte);
                    assert(is_token_character(alphabet[w]));
                    assert(token@[i] == byte as char);
                }
            }
            n += 1;
        }
        token
    }

    pub fn get_user_id(&self) -> (user_id: u128)
        ensures
            user_id == self@.user_id,
    {
        self.user_id
    }

    pub fn get_name(&self) -> (name: &str)
        ensures
            name@ == self@.name,
    {
        self.name.as_str()
    }

    pub fn get_api_token(&self) -> (api_token: &str)
        ensures
            api_token@ == self@.api_token,
    {
        self.api_token.as_str()
    }
}

} // verus!
