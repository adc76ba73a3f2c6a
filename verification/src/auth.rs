//! HTTP Basic Authentication: the configured mode, the parsing of the
//! Authorization header, and the credential check. The comparisons run
//! in constant time through an outside library, and hashed passwords are
//! checked by argon2; both stand behind trusted wrappers, while every
//! decision around them is verified.

use vstd::prelude::*;

use argon2::PasswordVerifier;
use subtle::ConstantTimeEq;

use crate::config::AppConfig;
use crate::text::{has_prefix, str_eq, str_has_prefix};

verus! {

/// How inbound requests are authenticated.
#[derive(Clone)]
pub enum AuthConfig {
    Disabled,
    PlainText { username: String, password: String },
    Hashed { username: String, password_hash: String },
}

/// True when a nonempty auth username is configured.
pub open spec fn username_configured(cfg: &AppConfig) -> bool {
    match cfg.auth_username {
        Option::Some(u) => u@.len() > 0,
        Option::None => false,
    }
}

/// True when a nonempty password hash is configured.
pub open spec fn hash_configured(cfg: &AppConfig) -> bool {
    match cfg.auth_password_hash {
        Option::Some(h) => h@.len() > 0,
        Option::None => false,
    }
}

/// True when a nonempty plain password is configured.
pub open spec fn password_configured(cfg: &AppConfig) -> bool {
    match cfg.auth_password {
        Option::Some(p) => p@.len() > 0,
        Option::None => false,
    }
}

/// The configured auth username's text.
pub open spec fn spec_username(cfg: &AppConfig) -> Seq<char> {
    match cfg.auth_username {
        Option::Some(u) => u@,
        Option::None => Seq::<char>::empty(),
    }
}

/// The configured password hash's text.
pub open spec fn spec_hash(cfg: &AppConfig) -> Seq<char> {
    match cfg.auth_password_hash {
        Option::Some(h) => h@,
        Option::None => Seq::<char>::empty(),
    }
}

/// The configured plain password's text.
pub open spec fn spec_password(cfg: &AppConfig) -> Seq<char> {
    match cfg.auth_password {
        Option::Some(p) => p@,
        Option::None => Seq::<char>::empty(),
    }
}

impl AuthConfig {
    /// Reads the auth mode from the configuration: disabled without a
    /// nonempty username or without any nonempty secret; hashed when a
    /// nonempty hash is set; plain-text otherwise.
    pub fn from_config(cfg: &AppConfig) -> (r: Self)
        ensures
            r is Disabled <==> !username_configured(cfg) || (!hash_configured(cfg)
                && !password_configured(cfg)),
            r is Hashed <==> username_configured(cfg) && hash_configured(cfg),
            r is PlainText <==> username_configured(cfg) && !hash_configured(cfg)
                && password_configured(cfg),
            r matches AuthConfig::Hashed { username, password_hash } ==> username@
                == spec_username(cfg) && password_hash@ == spec_hash(cfg),
            r matches AuthConfig::PlainText { username, password } ==> username@ == spec_username(
                cfg,
            ) && password@ == spec_password(cfg),
    {
        let username = match &cfg.auth_username {
            Option::Some(u) => {
                if u.as_str().is_empty() {
                    return AuthConfig::Disabled;
                }
                u.clone()
            },
            Option::None => {
                return AuthConfig::Disabled;
            },
        };
        match &cfg.auth_password_hash {
            Option::Some(h) => {
                if !h.as_str().is_empty() {
                    return AuthConfig::Hashed { username, password_hash: h.clone() };
                }
            },
            Option::None => {},
        }
        match &cfg.auth_password {
            Option::Some(p) => {
                if !p.as_str().is_empty() {
                    return AuthConfig::PlainText { username, password: p.clone() };
                }
            },
            Option::None => {},
        }
        AuthConfig::Disabled
    }

    /// The configured username. Meaningless when auth is disabled, so
    /// that case is ruled out.
    pub fn username(&self) -> (r: &str)
        requires
            !(self is Disabled),
        ensures
            match self {
                AuthConfig::PlainText { username, .. } => r@ == username@,
                AuthConfig::Hashed { username, .. } => r@ == username@,
                AuthConfig::Disabled => false,
            },
    {
        match self {
            AuthConfig::PlainText { username, .. } => username.as_str(),
            AuthConfig::Hashed { username, .. } => username.as_str(),
            AuthConfig::Disabled => unreached(),
        }
    }
}

/// What the base64 STANDARD engine encodes the given text's UTF-8 bytes
/// to.
pub uninterp spec fn base64_std_of(s: Seq<char>) -> Seq<char>;

/// Relies on base64's STANDARD engine `encode`: standard alphabet with
/// padding, a function of the input bytes alone.
#[verifier::external_body]
fn base64_encode(s: &str) -> (r: String)
    ensures
        r@ == base64_std_of(s@),
{
    base64::Engine::encode(&base64::engine::general_purpose::STANDARD, s.as_bytes())
}

/// What the base64 STANDARD engine decodes the given text to, read back
/// as UTF-8; nothing when the text is not base64 or the bytes are not
/// UTF-8.
pub uninterp spec fn base64_std_decoded(s: Seq<char>) -> Option<Seq<char>>;

/// Relies on base64's STANDARD engine `decode` and `String::from_utf8`:
/// both are functions of the input alone.
#[verifier::external_body]
fn base64_decode_utf8(s: &str) -> (r: Option<String>)
    ensures
        match r {
            Option::Some(d) => base64_std_decoded(s@) == Option::Some(d@),
            Option::None => base64_std_decoded(s@) is None,
        },
{
    match base64::Engine::decode(&base64::engine::general_purpose::STANDARD, s.as_bytes()) {
        Ok(bytes) => String::from_utf8(bytes).ok(),
        Err(_) => None,
    }
}

/// Relies on subtle's `ConstantTimeEq` for byte slices: a constant-time
/// equality test of the two byte strings; byte-equal strings are exactly
/// the character-equal ones, UTF-8 being injective.
#[verifier::external_body]
fn constant_time_str_eq(a: &str, b: &str) -> (r: bool)
    ensures
        r == (a@ == b@),
{
    a.as_bytes().ct_eq(b.as_bytes()).unwrap_u8() == 1
}

/// Whether argon2 accepts the password against the PHC-format hash
/// string.
pub uninterp spec fn argon2_accepts(password: Seq<char>, phc_hash: Seq<char>) -> bool;

/// Relies on argon2's `PasswordVerifier<str>::verify_password`: parsing
/// the PHC hash string and checking the password against it is a
/// function of the two arguments alone; any failure, a malformed hash
/// included, is a rejection.
#[verifier::external_body]
fn argon2_verify(password: &str, phc_hash: &str) -> (r: bool)
    ensures
        r == argon2_accepts(password@, phc_hash@),
{
    argon2::Argon2::default().verify_password(password.as_bytes(), phc_hash).is_ok()
}

/// The Authorization header value carrying the given credentials.
pub fn basic_auth_header(username: &str, password: &str) -> (r: String)
    ensures
        r@ == "Basic "@ + base64_std_of(username@ + ":"@ + password@),
{
    let mut creds = username.to_owned();
    creds.append(":");
    creds.append(password);
    let mut r = String::new();
    r.append("Basic ");
    let encoded = base64_encode(creds.as_str());
    r.append(encoded.as_str());
    r
}

/// The position of the first `':'` in `s` at or after `i`.
pub open spec fn find_colon(s: Seq<char>, i: int) -> Option<int>
    decreases s.len() - i,
{
    if i < 0 || i >= s.len() {
        None
    } else if s[i] == ':' {
        Some(i)
    } else {
        find_colon(s, i + 1)
    }
}

/// The credentials carried by an Authorization header value: the
/// base64-decoded text after `"Basic "`, split at its first colon.
pub open spec fn spec_basic_credentials(h: Seq<char>) -> Option<(Seq<char>, Seq<char>)> {
    if has_prefix(h, "Basic "@) {
        match base64_std_decoded(h.skip("Basic "@.len() as int)) {
            Option::None => Option::None,
            Option::Some(d) => match find_colon(d, 0) {
                Option::None => Option::None,
                Option::Some(i) => Option::Some((d.subrange(0, i), d.skip(i + 1))),
            },
        }
    } else {
        Option::None
    }
}

/// Extracts the username and password of an Authorization header value;
/// nothing when the scheme is not Basic, the payload is not base64 or
/// not UTF-8, or no colon separates the two.
pub fn parse_basic_credentials(header_value: &str) -> (r: Option<(String, String)>)
    ensures
        match r {
            Option::Some(c) => spec_basic_credentials(header_value@) == Option::Some(
                (c.0@, c.1@),
            ),
            Option::None => spec_basic_credentials(header_value@) is None,
        },
{
    proof {
        reveal_strlit("Basic ");
    }
    if !str_has_prefix(header_value, "Basic ") {
        return None;
    }
    let len = header_value.unicode_len();
    let encoded = header_value.substring_char(6, len);
    proof {
        assert(encoded@ =~= header_value@.skip(6));
    }
    let decoded = match base64_decode_utf8(encoded) {
        Option::Some(d) => d,
        Option::None => {
            return None;
        },
    };
    let d = decoded.as_str();
    let d_len = d.unicode_len();
    let mut i: usize = 0;
    while i < d_len
        invariant
            i <= d_len,
            d_len == d@.len(),
            "Basic "@.len() == 6,
            has_prefix(header_value@, "Basic "@),
            base64_std_decoded(header_value@.skip(6)) == Option::Some(d@),
            find_colon(d@, 0) == find_colon(d@, i as int),
        decreases d_len - i,
    {
        if d.get_char(i) == ':' {
            let user = d.substring_char(0, i).to_owned();
            let pass = d.substring_char(i + 1, d_len).to_owned();
            proof {
                reveal_strlit("Basic ");
                assert(user@ =~= d@.subrange(0, i as int));
                assert(pass@ =~= d@.skip(i + 1));
                assert(find_colon(d@, i as int) == Option::Some(i as int));
                assert(spec_basic_credentials(header_value@) == Option::Some(
                    (d@.subrange(0, i as int), d@.skip(i + 1)),
                ));
            }
            return Some((user, pass));
        }
        i += 1;
    }
    None
}

/// Whether the check lets the supplied credentials through: with auth
/// disabled every request passes; in plain-text mode both the username
/// and the password must match the configured ones; in hashed mode the
/// username must match and argon2 must accept the password against the
/// configured hash.
pub open spec fn spec_authorized(config: &AuthConfig, user: Seq<char>, pass: Seq<char>) -> bool {
    match config {
        AuthConfig::Disabled => true,
        AuthConfig::PlainText { username, password } => user == username@ && pass == password@,
        AuthConfig::Hashed { username, password_hash } => user == username@ && argon2_accepts(
            pass,
            password_hash@,
        ),
    }
}

/// Checks the supplied credentials against the configured auth mode.
pub fn check_credentials(config: &AuthConfig, user: &str, pass: &str) -> (r: bool)
    ensures
        r == spec_authorized(config, user@, pass@),
{
    match config {
        AuthConfig::Disabled => true,
        AuthConfig::PlainText { username, password } => {
            let user_ok = constant_time_str_eq(user, username.as_str());
            if !user_ok {
                return false;
            }
            constant_time_str_eq(pass, password.as_str())
        },
        AuthConfig::Hashed { username, password_hash } => {
            let user_ok = constant_time_str_eq(user, username.as_str());
            if !user_ok {
                return false;
            }
            argon2_verify(pass, password_hash.as_str())
        },
    }
}

/// True for the paths that skip authentication.
pub fn is_auth_exempt(path: &str) -> (r: bool)
    ensures
        r == (path@ == "/api/health"@),
{
    str_eq(path, "/api/health")
}

} // verus!
