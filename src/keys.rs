//! Key material: the three secret keys of a board and the authority level
//! that a presented key grants.
use rand::Rng;
use vstd::prelude::*;

verus! {

/// Is `c` one of the 62 ASCII letters and digits.
pub open spec fn is_alphanumeric(c: char) -> bool {
    ('A' <= c && c <= 'Z') || ('a' <= c && c <= 'z') || ('0' <= c && c <= '9')
}

/// Length of the read and submit keys.
pub const SHORT_KEY_LEN: usize = 10;

/// Length of the admin key.
pub const LONG_KEY_LEN: usize = 20;

/// Relies on rand 0.8's `Alphanumeric` distribution sampled from the thread
/// generator: each sample is one of `A-Z`, `a-z`, `0-9`, and `take(length)`
/// of the endless sample stream yields exactly `length` of them.
#[verifier::external_body]
fn random_alphanumeric(length: usize) -> (r: String)
    ensures
        r@.len() == length,
        forall|i: int| 0 <= i < r@.len() ==> is_alphanumeric(#[trigger] r@[i]),
{
    rand::thread_rng().sample_iter(rand::distributions::Alphanumeric).take(length).map(
        char::from,
    ).collect()
}

/// One opaque secret key.
#[derive(Debug)]
pub struct StringKey(String);

impl View for StringKey {
    type V = Seq<char>;

    closed spec fn view(&self) -> Seq<char> {
        self.0@
    }
}

impl Clone for StringKey {
    fn clone(&self) -> (r: Self)
        ensures
            r@ == self@,
    {
        StringKey(self.0.clone())
    }
}

impl StringKey {
    /// Wraps a key that was stored earlier.
    pub fn new(key: String) -> (r: Self)
        ensures
            r@ == key@,
    {
        StringKey(key)
    }

    /// The key's text.
    pub fn inner(&self) -> (r: &str)
        ensures
            r@ == self@,
    {
        self.0.as_str()
    }

    /// A fresh random key of `length` alphanumeric characters.
    pub fn generate(length: usize) -> (r: Self)
        ensures
            r@.len() == length,
            forall|i: int| 0 <= i < r@.len() ==> is_alphanumeric(#[trigger] r@[i]),
    {
        StringKey(random_alphanumeric(length))
    }

    /// Is the key equal to the presented text.
    pub fn matches(&self, presented: &String) -> (r: bool)
        ensures
            r == (self@ == presented@),
    {
        self.0 == *presented
    }
}

/// The keys of a board, as plain text.
pub struct KeySet {
    pub read: Seq<char>,
    pub submit: Seq<char>,
    pub admin: Seq<char>,
}

/// The three keys of one board.
#[derive(Debug)]
pub struct BoardKeys {
    pub read: StringKey,
    pub submit: StringKey,
    pub admin: StringKey,
}

impl View for BoardKeys {
    type V = KeySet;

    open spec fn view(&self) -> KeySet {
        KeySet { read: self.read@, submit: self.submit@, admin: self.admin@ }
    }
}

impl Clone for BoardKeys {
    fn clone(&self) -> (r: Self)
        ensures
            r@ == self@,
    {
        BoardKeys { read: self.read.clone(), submit: self.submit.clone(), admin: self.admin.clone() }
    }
}

/// Privilege tiers, from least to most privileged.
#[derive(Clone, Copy, Debug, PartialEq, Eq, Structural, PartialOrd, Ord, Hash)]
pub enum AuthorityLevel {
    Unauthorized,
    Read,
    Submit,
    Admin,
}

impl AuthorityLevel {
    /// The tier's position in the order `Unauthorized < Read < Submit < Admin`.
    pub open spec fn rank(self) -> int {
        match self {
            AuthorityLevel::Unauthorized => 0,
            AuthorityLevel::Read => 1,
            AuthorityLevel::Submit => 2,
            AuthorityLevel::Admin => 3,
        }
    }

    /// Does this tier satisfy a requirement of `required`.
    pub fn at_least(self, required: AuthorityLevel) -> (r: bool)
        ensures
            r == (self.rank() >= required.rank()),
    {
        self.position() >= required.position()
    }

    fn position(self) -> (r: u8)
        ensures
            r as int == self.rank(),
    {
        match self {
            AuthorityLevel::Unauthorized => 0,
            AuthorityLevel::Read => 1,
            AuthorityLevel::Submit => 2,
            AuthorityLevel::Admin => 3,
        }
    }
}

/// The tier that `presented` grants against `keys`, highest tier first.
pub open spec fn authority_of(keys: KeySet, presented: Seq<char>) -> AuthorityLevel {
    if presented == keys.admin {
        AuthorityLevel::Admin
    } else if presented == keys.submit {
        AuthorityLevel::Submit
    } else if presented == keys.read {
        AuthorityLevel::Read
    } else {
        AuthorityLevel::Unauthorized
    }
}

/// The tier that an optional presented key grants: no key grants nothing.
pub open spec fn authority_of_option(keys: KeySet, presented: Option<Seq<char>>) -> AuthorityLevel {
    match presented {
        Some(p) => authority_of(keys, p),
        None => AuthorityLevel::Unauthorized,
    }
}

/// Are the keys as a fresh board gets them: read and submit keys of ten
/// alphanumeric characters, an admin key of twenty.
pub open spec fn fresh_keys(keys: KeySet) -> bool {
    &&& keys.read.len() == SHORT_KEY_LEN
    &&& keys.submit.len() == SHORT_KEY_LEN
    &&& keys.admin.len() == LONG_KEY_LEN
    &&& forall|i: int| 0 <= i < keys.read.len() ==> is_alphanumeric(#[trigger] keys.read[i])
    &&& forall|i: int| 0 <= i < keys.submit.len() ==> is_alphanumeric(#[trigger] keys.submit[i])
    &&& forall|i: int| 0 <= i < keys.admin.len() ==> is_alphanumeric(#[trigger] keys.admin[i])
}

impl BoardKeys {
    /// Fresh random keys for a new board.
    pub fn generate() -> (r: Self)
        ensures
            fresh_keys(r@),
    {
        BoardKeys {
            read: StringKey::generate(SHORT_KEY_LEN),
            submit: StringKey::generate(SHORT_KEY_LEN),
            admin: StringKey::generate(LONG_KEY_LEN),
        }
    }

    /// The tier that `presented` grants; the admin key is tested first, then
    /// the submit key, then the read key.
    pub fn check_authority(&self, presented: &String) -> (r: AuthorityLevel)
        ensures
            r == authority_of(self@, presented@),
    {
        if self.admin.matches(presented) {
            AuthorityLevel::Admin
        } else if self.submit.matches(presented) {
            AuthorityLevel::Submit
        } else if self.read.matches(presented) {
            AuthorityLevel::Read
        } else {
            AuthorityLevel::Unauthorized
        }
    }
}

/// A key presented with a request.
#[derive(Debug)]
pub struct ApiKey(pub String);

/// The tier that an optional presented key grants against `keys`.
pub fn authority_for(keys: &BoardKeys, presented: &Option<ApiKey>) -> (r: AuthorityLevel)
    ensures
        r == authority_of_option(
            keys@,
            match presented {
                Some(k) => Some(k.0@),
                None => None,
            },
        ),
{
    match presented {
        Some(key) => keys.check_authority(&key.0),
        None => AuthorityLevel::Unauthorized,
    }
}

} // verus!
