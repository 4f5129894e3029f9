//! Server settings and the random bearer-token generator.
//!
//! Reading and writing the configuration file is the runtime's business;
//! the library owns the settings record itself, the built-in values used
//! when no file can be read, and the shape of a freshly drawn token.

use vstd::prelude::*;
use vstd::string::StrSliceExecFns;

verus! {

/// Connection settings for a Postgres database.
pub struct PostgresConfig {
    pub host: String,
    pub port: u16,
    pub user: String,
    pub password: String,
    pub database: String,
}

impl Default for PostgresConfig {
    /// Empty coordinates: no host, port 0, no credentials.
    fn default() -> (r: PostgresConfig)
        ensures
            r.host@ == Seq::<char>::empty(),
            r.port == 0,
            r.user@ == Seq::<char>::empty(),
            r.password@ == Seq::<char>::empty(),
            r.database@ == Seq::<char>::empty(),
    {
        PostgresConfig {
            host: String::new(),
            port: 0,
            user: String::new(),
            password: String::new(),
            database: String::new(),
        }
    }
}

/// Server settings as the configuration file carries them.
pub struct ServerConfig {
    pub v4port: u16,
    pub v6port: u16,
    pub token: String,
    pub money_mode: String,
    pub sql_mode: String,
    pub postgres_config: PostgresConfig,
}

impl ServerConfig {
    /// The built-in settings used when no configuration file can be
    /// read: both ports 2000, the given (freshly drawn) token, and mode
    /// strings that list the available choices.
    pub fn with_token(token: String) -> (r: ServerConfig)
        ensures
            r.v4port == 2000,
            r.v6port == 2000,
            r.token@ == token@,
            r.money_mode@ == "single/multi"@,
            r.sql_mode@ == "sqlite/postgres/mongodb"@,
            r.postgres_config.host@ == Seq::<char>::empty(),
            r.postgres_config.port == 0,
            r.postgres_config.user@ == Seq::<char>::empty(),
            r.postgres_config.password@ == Seq::<char>::empty(),
            r.postgres_config.database@ == Seq::<char>::empty(),
    {
        ServerConfig {
            v4port: 2000,
            v6port: 2000,
            token,
            money_mode: "single/multi".to_owned(),
            sql_mode: "sqlite/postgres/mongodb".to_owned(),
            postgres_config: PostgresConfig::default(),
        }
    }
}

/// The alphabet keys are drawn from: mixed-case letters and digits.
pub open spec fn key_charset() -> Seq<char> {
    "QWERTYUIOPASDFGHJKLZXCVBNMabcdefghijklmnopqrstuvwxyz0123456789"@
}

/// The alphabet numeric keys are drawn from: the ten digits.
pub open spec fn digit_charset() -> Seq<char> {
    "0123456789"@
}

/// Relies on rand's `gen_range`: some index below the bound; nothing
/// more is assumed of a random draw.
#[verifier::external_body]
fn random_below(n: usize) -> (r: usize)
    requires
        n > 0,
    ensures
        r < n,
{
    rand::Rng::gen_range(&mut rand::thread_rng(), 0..n)
}

/// Relies on `String::push`: appends exactly the one character.
#[verifier::external_body]
fn push_char(s: &mut String, c: char)
    ensures
        final(s)@ == old(s)@.push(c),
{
    s.push(c);
}

/// A random key of the given length, every character drawn from the
/// letter-and-digit alphabet.
#[verifier::loop_isolation(false)]
pub fn generate_random(length: usize) -> (r: String)
    ensures
        r@.len() == length,
        forall|i: int| 0 <= i < r@.len() ==> key_charset().contains(#[trigger] r@[i]),
{
    let charset: &str = "QWERTYUIOPASDFGHJKLZXCVBNMabcdefghijklmnopqrstuvwxyz0123456789";
    proof {
        reveal_strlit("QWERTYUIOPASDFGHJKLZXCVBNMabcdefghijklmnopqrstuvwxyz0123456789");
    }
    let n = charset.unicode_len();
    let mut r = String::new();
    let mut i: usize = 0;
    while i < length
        invariant
            i <= length,
            r@.len() == i,
            forall|k: int| 0 <= k < i ==> key_charset().contains(#[trigger] r@[k]),
        decreases length - i,
    {
        let idx = random_below(n);
        let c = charset.get_char(idx);
        proof {
            assert(key_charset().contains(c)) by {
                assert(key_charset()[idx as int] == c);
            }
        }
        push_char(&mut r, c);
        i += 1;
    }
    r
}

/// A random key of the given length, every character a digit.
#[verifier::loop_isolation(false)]
pub fn _generate_random_number(length: usize) -> (r: String)
    ensures
        r@.len() == length,
        forall|i: int| 0 <= i < r@.len() ==> digit_charset().contains(#[trigger] r@[i]),
{
    let charset: &str = "0123456789";
    proof {
        reveal_strlit("0123456789");
    }
    let n = charset.unicode_len();
    let mut r = String::new();
    let mut i: usize = 0;
    while i < length
        invariant
            i <= length,
            r@.len() == i,
            forall|k: int| 0 <= k < i ==> digit_charset().contains(#[trigger] r@[k]),
        decreases length - i,
    {
        let idx = random_below(n);
        let c = charset.get_char(idx);
        proof {
            assert(digit_charset().contains(c)) by {
                assert(digit_charset()[idx as int] == c);
            }
        }
        push_char(&mut r, c);
        i += 1;
    }
    r
}

} // verus!
