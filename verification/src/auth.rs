//! Credentials for the API.

use vstd::prelude::*;
use vstd::string::*;
use crate::json::{member, text, Json, JsonView, Members};
use crate::ordered::{precedes, StringSet};
use crate::paths::{absolute, join_path, under};
use crate::seal::{base64_bytes, base64_bytes_of, base64_text, base64_text_of, pair_views, TextPair};
use crate::text::{
    ascii_alnum, blank, cat, cat3, contains, ends, failure, given, is_ascii_alnum, is_blank,
    is_white_space, lowered, occurs, owned, replace, replaced, same, starts, starts_with,
    text_between, texts, to_chars, to_lower, trim, trimmed, white_space, Error,
};

verus! {

/// The variable with the issuer id.
pub const ISSUER_ID_ENV: &'static str = "ASC_ISSUER_ID";

/// The variable with the key id.
pub const KEY_ID_ENV: &'static str = "ASC_KEY_ID";

/// The variable with the private key.
pub const PRIVATE_KEY_ENV: &'static str = "ASC_PRIVATE_KEY";

/// The variable with the path of the private key.
pub const PRIVATE_KEY_PATH_ENV: &'static str = "ASC_PRIVATE_KEY_PATH";

/// Credentials as they are stored.
#[derive(Debug)]
pub struct StoredAuthRecord {
    pub display_name: String,
    pub issuer_id: String,
    pub key_id: String,
    pub private_key_pem: String,
}

/// What credentials hold.
pub struct RecordView {
    pub display_name: Seq<char>,
    pub issuer_id: Seq<char>,
    pub key_id: Seq<char>,
    pub private_key_pem: Seq<char>,
}

impl View for StoredAuthRecord {
    type V = RecordView;

    open spec fn view(&self) -> RecordView {
        RecordView {
            display_name: self.display_name@,
            issuer_id: self.issuer_id@,
            key_id: self.key_id@,
            private_key_pem: self.private_key_pem@,
        }
    }
}

/// Credentials whose key can sign.
#[derive(Debug)]
pub struct AuthContext {
    issuer_id: String,
    key_id: String,
    private_key_pem: String,
}

/// A text is a PKCS#8 EC private key in PEM form, as `jsonwebtoken` reads one.
pub uninterp spec fn ec_pem(pem: Seq<char>) -> bool;

/// How many characters of base64 a key has at most.
pub const LONGEST_KEY: usize = 1024;

/// A character of the standard alphabet of base64, or of its padding.
pub open spec fn key_letter(c: char) -> bool {
    is_ascii_alnum(c) || c == '+' || c == '/' || c == '='
}

/// How many characters of base64 stand at the end of the first `n` characters, with nothing but
/// white space between them.
pub open spec fn key_run(pem: Seq<char>, n: nat) -> nat
    decreases n,
{
    if n == 0 || n > pem.len() {
        0
    } else if key_letter(pem[n - 1]) {
        key_run(pem, (n - 1) as nat) + 1
    } else if is_white_space(pem[n - 1]) {
        key_run(pem, (n - 1) as nat)
    } else {
        0
    }
}

/// Nowhere do more characters of base64 stand together than a key has.
pub open spec fn short_keys(pem: Seq<char>) -> bool {
    forall|n: nat| n <= pem.len() ==> #[trigger] key_run(pem, n) <= LONGEST_KEY
}

/// A text is a key that can sign. One with more base64 than any key has is none.
pub open spec fn signing_key(pem: Seq<char>) -> bool {
    short_keys(pem) && ec_pem(pem)
}

fn has_short_keys(pem: &str) -> (result: bool)
    ensures
        result == short_keys(pem@),
{
    let chars = to_chars(pem);
    let mut run: usize = 0;
    let mut i: usize = 0;
    while i < chars.len()
        invariant
            i <= chars.len(),
            chars@ == pem@,
            run == key_run(pem@, i as nat),
            run <= LONGEST_KEY,
            forall|n: nat| n <= i ==> #[trigger] key_run(pem@, n) <= LONGEST_KEY,
        decreases chars.len() - i,
    {
        let c = chars[i];
        if ascii_alnum(c) || c == '+' || c == '/' || c == '=' {
            if run == LONGEST_KEY {
                proof {
                    assert(key_run(pem@, (i + 1) as nat) > LONGEST_KEY);
                }
                return false;
            }
            run += 1;
        } else if !white_space(c) {
            run = 0;
        }
        i += 1;
        proof {
            assert(run == key_run(pem@, i as nat));
        }
    }
    true
}

/// Whether `jsonwebtoken::EncodingKey::from_ec_pem` takes a text. The answer rests on the text
/// alone. What it reads stands together as base64, and values in it that lie in each other are read
/// by a function that calls itself: there are not enough characters for more of them than the stack
/// holds.
#[verifier::external_body]
pub(crate) fn is_ec_pem(pem: &str) -> (result: bool)
    requires
        short_keys(pem@),
    ensures
        result == ec_pem(pem@),
{
    jsonwebtoken::EncodingKey::from_ec_pem(pem.as_bytes()).is_ok()
}

/// A numeric claim.
pub type NumberClaim = (String, u64);

/// The views of numeric claims.
pub open spec fn number_views(claims: Seq<NumberClaim>) -> Seq<(Seq<char>, u64)> {
    claims.map_values(|claim: NumberClaim| (claim.0@, claim.1))
}

/// A token is one that `jsonwebtoken` may sign with an EC key: ES256, a key id in its header, and
/// the given claims.
pub uninterp spec fn token_of(
    pem: Seq<char>,
    key_id: Seq<char>,
    words: Seq<(Seq<char>, Seq<char>)>,
    numbers: Seq<(Seq<char>, u64)>,
    token: Seq<char>,
) -> bool;

/// Signs claims with `jsonwebtoken::encode` and the key that `EncodingKey::from_ec_pem` reads. A
/// token is one for the arguments; whether there is one rests on the process's crypto provider too.
/// The base64 of the key is bounded as for `is_ec_pem`.
#[verifier::external_body]
pub(crate) fn sign(
    pem: &str,
    key_id: &str,
    words: &Vec<TextPair>,
    numbers: &Vec<NumberClaim>,
) -> (token: Option<String>)
    requires
        short_keys(pem@),
    ensures
        token is Some ==> token_of(
            pem@,
            key_id@,
            pair_views(words@),
            number_views(numbers@),
            token->0@,
        ),
{
    let key = jsonwebtoken::EncodingKey::from_ec_pem(pem.as_bytes()).ok()?;
    let mut header = jsonwebtoken::Header::new(jsonwebtoken::Algorithm::ES256);
    header.kid = Some(key_id.to_owned());
    let mut claims: std::collections::BTreeMap<String, serde_json::Value> = words.iter().map(
        |pair| (pair.0.clone(), serde_json::Value::from(pair.1.clone())),
    ).collect();
    claims.extend(numbers.iter().map(|pair| (pair.0.clone(), serde_json::Value::from(pair.1))));
    jsonwebtoken::encode(&header, &claims, &key).ok()
}

impl StoredAuthRecord {
    /// The record as JSON.
    pub open spec fn json_of(self) -> JsonView {
        JsonView::Object(
            map![
                "displayName"@ => JsonView::Text(self.display_name@),
                "issuerId"@ => JsonView::Text(self.issuer_id@),
                "keyId"@ => JsonView::Text(self.key_id@),
                "privateKeyPem"@ => JsonView::Text(self.private_key_pem@)
            ],
        )
    }

    /// The record as JSON.
    pub fn to_json(&self) -> (value: Json)
        ensures
            value@ == self.json_of(),
    {
        let mut members = Members::new();
        members.put("displayName", text(self.display_name.as_str()));
        members.put("issuerId", text(self.issuer_id.as_str()));
        members.put("keyId", text(self.key_id.as_str()));
        members.put("privateKeyPem", text(self.private_key_pem.as_str()));
        members.into_json()
    }

    /// Credentials that can sign.
    pub fn into_context(self) -> (result: Result<AuthContext, Error>)
        ensures
            if signing_key(self.private_key_pem@) {
                result matches Ok(context) && context.parts() == (
                    self.issuer_id@,
                    self.key_id@,
                    self.private_key_pem@,
                )
            } else {
                result matches Err(error) && error@ == bad_key()
            },
    {
        AuthContext::from_pem(self.issuer_id, self.key_id, self.private_key_pem)
    }
}

/// The message of a key that cannot be read.
pub open spec fn bad_key() -> Seq<char> {
    "failed to parse App Store Connect private key as PKCS#8 EC key"@
}

/// The claims of a token that are texts.
pub open spec fn word_claims(issuer_id: Seq<char>) -> Seq<(Seq<char>, Seq<char>)> {
    seq![("iss"@, issuer_id), ("aud"@, "appstoreconnect-v1"@)]
}

/// The claims of a token that are instants: it holds from now on for five minutes.
pub open spec fn instant_claims(now: u64) -> Seq<(Seq<char>, u64)> {
    seq![("iat"@, now), ("exp"@, (now + 300) as u64)]
}

impl AuthContext {
    /// The issuer id, the key id and the private key.
    pub closed spec fn parts(self) -> (Seq<char>, Seq<char>, Seq<char>) {
        (self.issuer_id@, self.key_id@, self.private_key_pem@)
    }

    #[verifier::type_invariant]
    spec fn holds_key(self) -> bool {
        signing_key(self.private_key_pem@)
    }

    /// Credentials with a key that can sign.
    pub fn from_pem(issuer_id: String, key_id: String, private_key_pem: String) -> (result: Result<
        AuthContext,
        Error,
    >)
        ensures
            if signing_key(private_key_pem@) {
                result matches Ok(context) && context.parts() == (
                    issuer_id@,
                    key_id@,
                    private_key_pem@,
                )
            } else {
                result matches Err(error) && error@ == bad_key()
            },
    {
        if has_short_keys(private_key_pem.as_str()) && is_ec_pem(private_key_pem.as_str()) {
            Ok(AuthContext { issuer_id, key_id, private_key_pem })
        } else {
            Err(
                failure(
                    "failed to parse App Store Connect private key as PKCS#8 EC key".to_owned(),
                ),
            )
        }
    }

    /// A token that holds from `now`, in seconds since 1970, for five minutes.
    pub fn bearer_token(&self, now: u64) -> (result: Result<String, Error>)
        requires
            now + 300 <= u64::MAX,
        ensures
            match result {
                Ok(token) => token_of(
                    self.parts().2,
                    self.parts().1,
                    word_claims(self.parts().0),
                    instant_claims(now),
                    token@,
                ),
                Err(error) => error@ == "failed to sign ASC JWT"@,
            },
    {
        let mut words: Vec<TextPair> = Vec::new();
        words.push(("iss".to_owned(), self.issuer_id.clone()));
        words.push(("aud".to_owned(), "appstoreconnect-v1".to_owned()));
        let mut numbers: Vec<NumberClaim> = Vec::new();
        numbers.push(("iat".to_owned(), now));
        numbers.push(("exp".to_owned(), now + 300));
        proof {
            use_type_invariant(self);
            assert(pair_views(words@) =~= word_claims(self.issuer_id@));
            assert(number_views(numbers@) =~= instant_claims(now));
        }
        match sign(self.private_key_pem.as_str(), self.key_id.as_str(), &words, &numbers) {
            Some(token) => Ok(token),
            None => Err(failure("failed to sign ASC JWT".to_owned())),
        }
    }
}

/// The key that an entry of the keychain holds itself. A blank one is none: then the entry names the
/// file of the key.
pub fn given_key(pem: String) -> (key: Option<String>)
    ensures
        owned(key) == (if blank(pem@) {
            None
        } else {
            Some(pem@)
        }),
{
    if is_blank(pem.as_str()) {
        None
    } else {
        Some(pem)
    }
}

/// A path with the home directory in place of its leading `~`.
pub open spec fn home_path(path: Seq<char>, home: Option<Seq<char>>) -> Result<
    Seq<char>,
    Seq<char>,
> {
    if starts(path, "~/"@) {
        match home {
            Some(directory) => Ok(under(directory, path.skip(2))),
            None => Err("HOME is not set"@),
        }
    } else {
        Ok(path)
    }
}

/// A text or a message.
pub open spec fn gives(result: Result<String, Error>, value: Result<Seq<char>, Seq<char>>) -> bool {
    match value {
        Ok(text) => result matches Ok(found) && found@ == text,
        Err(message) => result matches Err(error) && error@ == message,
    }
}

/// A path with the home directory in place of its leading `~`.
pub fn expand_home(path: &str, home: Option<&str>) -> (result: Result<String, Error>)
    ensures
        gives(result, home_path(path@, given(home))),
{
    if starts_with(path, "~/") {
        proof {
            reveal_strlit("~/");
        }
        match home {
            Some(directory) => {
                let chars = to_chars(path);
                let rest = text_between(&chars, 2, chars.len());
                proof {
                    assert(path@.skip(2) =~= path@.subrange(2, path@.len() as int));
                }
                Ok(join_path(directory, rest.as_str()))
            },
            None => Err(failure("HOME is not set".to_owned())),
        }
    } else {
        Ok(path.to_owned())
    }
}

/// A path that was typed: `~` is the home directory, and other paths are below the current one.
pub fn resolve_input_path(path: &str, home: Option<&str>, current: &str) -> (result: Result<
    String,
    Error,
>)
    ensures
        match home_path(path@, given(home)) {
            Ok(expanded) => result matches Ok(found) && found@ == (if absolute(path@) {
                expanded
            } else {
                under(current@, expanded)
            }),
            Err(message) => result matches Err(error) && error@ == message,
        },
{
    match expand_home(path, home) {
        Ok(expanded) => if starts_with(path, "/") {
            Ok(expanded)
        } else {
            Ok(join_path(current, expanded.as_str()))
        },
        Err(error) => Err(error),
    }
}

/// The message of a team without credentials.
pub open spec fn no_auth_message(team_id: Seq<char>) -> Seq<char> {
    "no App Store Connect auth configured for team "@ + team_id
        + "; run `asc-sync auth import` or set "@ + ISSUER_ID_ENV@ + ", "@ + KEY_ID_ENV@
        + ", and one of "@ + PRIVATE_KEY_ENV@ + "/"@ + PRIVATE_KEY_PATH_ENV@
}

/// The credentials of a team: the stored ones, else those of the environment.
pub fn resolve_auth_record(
    team_id: &str,
    stored: Option<StoredAuthRecord>,
    environment: Option<StoredAuthRecord>,
) -> (result: Result<StoredAuthRecord, Error>)
    ensures
        match (stored, environment) {
            (Some(record), _) => result == Ok::<StoredAuthRecord, Error>(record),
            (None, Some(record)) => result == Ok::<StoredAuthRecord, Error>(record),
            (None, None) => result matches Err(error) && error@ == no_auth_message(team_id@),
        },
{
    match (stored, environment) {
        (Some(record), _) => Ok(record),
        (None, Some(record)) => Ok(record),
        (None, None) => Err(
            failure(
                cat3(
                    "no App Store Connect auth configured for team ",
                    team_id,
                    "; run `asc-sync auth import` or set ",
                ).concat(ISSUER_ID_ENV).concat(", ").concat(KEY_ID_ENV).concat(
                    ", and one of ",
                ).concat(PRIVATE_KEY_ENV).concat("/").concat(PRIVATE_KEY_PATH_ENV),
            ),
        ),
    }
}

/// A key of the environment: written on one line, its line ends are `\\n`.
pub open spec fn normalized_key(value: Seq<char>) -> Seq<char> {
    if occurs(value, "\\n"@) && !value.contains('\n') {
        replaced(value, "\\n"@, "\n"@)
    } else {
        value
    }
}

fn has_line_end(chars: &Vec<char>) -> (result: bool)
    ensures
        result == chars@.contains('\n'),
{
    let mut i: usize = 0;
    while i < chars.len()
        invariant
            i <= chars.len(),
            forall|k: int| 0 <= k < i ==> chars@[k] != '\n',
        decreases chars.len() - i,
    {
        if chars[i] == '\n' {
            return true;
        }
        i += 1;
    }
    false
}

/// A key of the environment: written on one line, its line ends are `\\n`.
pub fn normalize_env_private_key(value: String) -> (key: String)
    ensures
        key@ == normalized_key(value@),
{
    let chars = to_chars(value.as_str());
    if contains(value.as_str(), "\\n") && !has_line_end(&chars) {
        proof {
            reveal_strlit("\\n");
        }
        replace(value.as_str(), "\\n", "\n")
    } else {
        value
    }
}

/// Credentials of the environment.
#[derive(Debug)]
pub enum EnvironmentAuth {
    /// There are none.
    Missing,
    /// The key is there.
    Inline(StoredAuthRecord),
    /// The key is in a file.
    File { issuer_id: String, key_id: String, path: String },
}

/// The message of credentials of the environment that are not complete.
pub open spec fn environment_message(
    issuer_id: Option<Seq<char>>,
    key_id: Option<Seq<char>>,
    private_key: Option<Seq<char>>,
    private_key_path: Option<Seq<char>>,
) -> Option<Seq<char>> {
    if issuer_id is None && key_id is None && private_key is None && private_key_path is None {
        None
    } else if issuer_id is None {
        Some(ISSUER_ID_ENV@ + " is required"@)
    } else if key_id is None {
        Some(KEY_ID_ENV@ + " is required"@)
    } else if private_key is None && private_key_path is None {
        Some(
            "either "@ + PRIVATE_KEY_ENV@ + " or "@ + PRIVATE_KEY_PATH_ENV@
                + " must be set for App Store Connect auth"@,
        )
    } else {
        None
    }
}

/// The credentials of the environment.
pub fn load_env_auth_record(
    issuer_id: Option<String>,
    key_id: Option<String>,
    private_key: Option<String>,
    private_key_path: Option<String>,
) -> (result: Result<EnvironmentAuth, Error>)
    ensures
        match environment_message(
            owned(issuer_id),
            owned(key_id),
            owned(private_key),
            owned(private_key_path),
        ) {
            Some(message) => result matches Err(error) && error@ == message,
            None => match (issuer_id, key_id, private_key, private_key_path) {
                (Some(issuer), Some(key), Some(pem), _) => result matches Ok(
                    EnvironmentAuth::Inline(record),
                ) && record@ == (RecordView {
                    display_name: seq![],
                    issuer_id: issuer@,
                    key_id: key@,
                    private_key_pem: normalized_key(pem@),
                }),
                (Some(issuer), Some(key), None, Some(file)) => result matches Ok(
                    EnvironmentAuth::File { issuer_id: i, key_id: k, path: p },
                ) && i@ == issuer@ && k@ == key@ && p@ == file@,
                _ => result matches Ok(EnvironmentAuth::Missing),
            },
        },
{
    if issuer_id.is_none() && key_id.is_none() && private_key.is_none()
        && private_key_path.is_none() {
        return Ok(EnvironmentAuth::Missing);
    }
    let issuer = match issuer_id {
        Some(value) => value,
        None => {
            return Err(failure(cat(ISSUER_ID_ENV, " is required")));
        },
    };
    let key = match key_id {
        Some(value) => value,
        None => {
            return Err(failure(cat(KEY_ID_ENV, " is required")));
        },
    };
    match (private_key, private_key_path) {
        (Some(pem), _) => {
            let record = StoredAuthRecord {
                display_name: String::new(),
                issuer_id: issuer,
                key_id: key,
                private_key_pem: normalize_env_private_key(pem),
            };
            proof {
                assert(record@.display_name =~= seq![]);
            }
            Ok(EnvironmentAuth::Inline(record))
        },
        (None, Some(path)) => Ok(EnvironmentAuth::File { issuer_id: issuer, key_id: key, path }),
        (None, None) => Err(
            failure(
                cat3("either ", PRIVATE_KEY_ENV, " or ").concat(PRIVATE_KEY_PATH_ENV).concat(
                    " must be set for App Store Connect auth",
                ),
            ),
        ),
    }
}

/// Credentials as they are stored: their JSON as text.
pub fn store_auth_record(team_id: &str, json: &Vec<u8>) -> (result: Result<String, Error>)
    ensures
        if blank(team_id@) {
            result matches Err(error) && error@ == "team ID cannot be empty"@
        } else {
            result matches Ok(stored) && stored@ == base64_text_of(json@) && base64_bytes_of(
                stored@,
            ) == Some(json@)
        },
{
    if is_blank(team_id) {
        return Err(failure("team ID cannot be empty".to_owned()));
    }
    Ok(base64_text(json))
}

/// The JSON of stored credentials.
pub fn load_auth_record(stored: &str) -> (result: Result<Vec<u8>, Error>)
    ensures
        match base64_bytes_of(stored@) {
            Some(json) => result matches Ok(found) && found@ == json,
            None => result matches Err(error) && error@
                == "stored App Store Connect auth is not valid base64"@,
        },
{
    match base64_bytes(stored) {
        Some(json) => Ok(json),
        None => Err(failure("stored App Store Connect auth is not valid base64".to_owned())),
    }
}

/// The configuration of another tool that keeps credentials.
#[derive(Debug)]
pub struct AscCliConfig {
    pub key_id: String,
    pub issuer_id: String,
    pub private_key_path: String,
    pub default_key_name: String,
    pub keys: Vec<AscCliKeyEntry>,
    pub keychain_metadata: Vec<AscCliKeychainMetadata>,
}

/// Named credentials of that tool.
#[derive(Debug)]
pub struct AscCliKeyEntry {
    pub name: String,
    pub key_id: String,
    pub issuer_id: String,
    pub private_key_path: String,
}

/// The name of credentials that are in the keychain.
#[derive(Debug)]
pub struct AscCliKeychainMetadata {
    pub name: String,
}

/// Credentials without a name.
pub open spec fn legacy(config: AscCliConfig) -> bool {
    &&& !blank(config.key_id@)
    &&& !blank(config.issuer_id@)
    &&& !blank(config.private_key_path@)
}

/// Whether there are credentials without a name.
pub fn has_asc_cli_legacy_credentials(config: &AscCliConfig) -> (result: bool)
    ensures
        result == legacy(*config),
{
    !is_blank(config.key_id.as_str()) && !is_blank(config.issuer_id.as_str()) && !is_blank(
        config.private_key_path.as_str(),
    )
}

/// A name that credentials go by.
pub open spec fn is_profile(config: AscCliConfig, name: Seq<char>) -> bool {
    ||| !blank(config.default_key_name@) && name == trimmed(config.default_key_name@)
    ||| exists|i: int|
        0 <= i < config.keys@.len() && !blank((#[trigger] config.keys@[i]).name@) && name
            == trimmed(config.keys@[i].name@)
    ||| exists|i: int|
        0 <= i < config.keychain_metadata@.len() && !blank(
            (#[trigger] config.keychain_metadata@[i]).name@,
        ) && name == trimmed(config.keychain_metadata@[i].name@)
    ||| legacy(config) && name == "default"@
}

fn add_key_names(set: &mut StringSet, keys: &Vec<AscCliKeyEntry>)
    ensures
        forall|name: Seq<char>| #[trigger]
            final(set)@.contains(name) <==> old(set)@.contains(name) || (exists|i: int|
                0 <= i < keys@.len() && !blank((#[trigger] keys@[i]).name@) && name == trimmed(
                    keys@[i].name@,
                )),
{
    let ghost start = set@;
    let mut n: usize = 0;
    while n < keys.len()
        invariant
            n <= keys.len(),
            forall|name: Seq<char>| #[trigger]
                set@.contains(name) <==> start.contains(name) || (exists|i: int|
                    0 <= i < n && !blank((#[trigger] keys@[i]).name@) && name == trimmed(
                        keys@[i].name@,
                    )),
        decreases keys.len() - n,
    {
        let ghost before = set@;
        let name = keys[n].name.as_str();
        if !is_blank(name) {
            set.insert(trim(name).to_owned());
        }
        proof {
            assert forall|other: Seq<char>| #[trigger] set@.contains(other) <==> start.contains(
                other,
            ) || (exists|i: int|
                0 <= i < n + 1 && !blank((#[trigger] keys@[i]).name@) && other == trimmed(
                    keys@[i].name@,
                )) by {
                if before.contains(other) && !start.contains(other) {
                    let i = choose|i: int|
                        0 <= i < n && !blank((#[trigger] keys@[i]).name@) && other == trimmed(
                            keys@[i].name@,
                        );
                    assert(!blank(keys@[i].name@));
                }
                if !blank(keys@[n as int].name@) && other == trimmed(keys@[n as int].name@) {
                    assert(set@.contains(other));
                }
            }
        }
        n += 1;
    }
}

fn add_keychain_names(set: &mut StringSet, keys: &Vec<AscCliKeychainMetadata>)
    ensures
        forall|name: Seq<char>| #[trigger]
            final(set)@.contains(name) <==> old(set)@.contains(name) || (exists|i: int|
                0 <= i < keys@.len() && !blank((#[trigger] keys@[i]).name@) && name == trimmed(
                    keys@[i].name@,
                )),
{
    let ghost start = set@;
    let mut n: usize = 0;
    while n < keys.len()
        invariant
            n <= keys.len(),
            forall|name: Seq<char>| #[trigger]
                set@.contains(name) <==> start.contains(name) || (exists|i: int|
                    0 <= i < n && !blank((#[trigger] keys@[i]).name@) && name == trimmed(
                        keys@[i].name@,
                    )),
        decreases keys.len() - n,
    {
        let ghost before = set@;
        let name = keys[n].name.as_str();
        if !is_blank(name) {
            set.insert(trim(name).to_owned());
        }
        proof {
            assert forall|other: Seq<char>| #[trigger] set@.contains(other) <==> start.contains(
                other,
            ) || (exists|i: int|
                0 <= i < n + 1 && !blank((#[trigger] keys@[i]).name@) && other == trimmed(
                    keys@[i].name@,
                )) by {
                if before.contains(other) && !start.contains(other) {
                    let i = choose|i: int|
                        0 <= i < n && !blank((#[trigger] keys@[i]).name@) && other == trimmed(
                            keys@[i].name@,
                        );
                    assert(!blank(keys@[i].name@));
                }
                if !blank(keys@[n as int].name@) && other == trimmed(keys@[n as int].name@) {
                    assert(set@.contains(other));
                }
            }
        }
        n += 1;
    }
}

/// The names that credentials go by: each once, in the order of texts.
pub fn asc_cli_profiles(config: &AscCliConfig) -> (names: Vec<String>)
    ensures
        forall|name: Seq<char>| #[trigger]
            texts(names@).contains(name) <==> is_profile(*config, name),
        forall|i: int, j: int|
            0 <= i < j < names@.len() ==> precedes(
                (#[trigger] names@[i])@,
                (#[trigger] names@[j])@,
            ),
{
    let mut set = StringSet::new();
    if !is_blank(config.default_key_name.as_str()) {
        set.insert(trim(config.default_key_name.as_str()).to_owned());
    }
    add_key_names(&mut set, &config.keys);
    add_keychain_names(&mut set, &config.keychain_metadata);
    if has_asc_cli_legacy_credentials(config) {
        set.insert("default".to_owned());
    }
    let names = set.sorted();
    proof {
        assert forall|name: Seq<char>| #[trigger] texts(names@).contains(name) <==> is_profile(
            *config,
            name,
        ) by {
            assert(texts(names@).contains(name) == texts(names@).to_set().contains(name));
        }
    }
    names
}

/// The name that is proposed.
pub fn asc_cli_default_profile(config: &AscCliConfig, profiles: &Vec<String>) -> (name: Option<
    String,
>)
    ensures
        owned(name) == (if !blank(config.default_key_name@) {
            Some(trimmed(config.default_key_name@))
        } else if profiles@.len() == 1 {
            Some(profiles@[0]@)
        } else if legacy(*config) {
            Some("default"@)
        } else {
            None
        }),
{
    if !is_blank(config.default_key_name.as_str()) {
        return Some(trim(config.default_key_name.as_str()).to_owned());
    }
    if profiles.len() == 1 {
        return Some(profiles[0].clone());
    }
    if has_asc_cli_legacy_credentials(config) {
        return Some("default".to_owned());
    }
    None
}

/// Credentials whose key is in a file.
#[derive(Debug)]
pub struct FileCredentials {
    pub key_id: String,
    pub issuer_id: String,
    pub private_key_path: String,
}

/// The place of the first credentials with a name.
pub open spec fn first_named(keys: Seq<AscCliKeyEntry>, name: Seq<char>, i: int) -> Option<int>
    decreases keys.len() - i,
{
    if i < 0 || i >= keys.len() {
        None
    } else if keys[i].name@ == name {
        Some(i)
    } else {
        first_named(keys, name, i + 1)
    }
}

/// The credentials in files that go by a name, where the keychain has none.
pub fn asc_cli_file_profile(config: &AscCliConfig, profile: &str) -> (found: Option<
    FileCredentials,
>)
    ensures
        if profile@ == "default"@ && legacy(*config) {
            found matches Some(file) && file.key_id@ == config.key_id@ && file.issuer_id@
                == config.issuer_id@ && file.private_key_path@ == config.private_key_path@
        } else {
            match first_named(config.keys@, profile@, 0) {
                Some(i) => found matches Some(file) && file.key_id@ == config.keys@[i].key_id@
                    && file.issuer_id@ == config.keys@[i].issuer_id@ && file.private_key_path@
                    == config.keys@[i].private_key_path@,
                None => found is None,
            }
        },
{
    if same(profile, "default") && has_asc_cli_legacy_credentials(config) {
        return Some(
            FileCredentials {
                key_id: config.key_id.clone(),
                issuer_id: config.issuer_id.clone(),
                private_key_path: config.private_key_path.clone(),
            },
        );
    }
    let mut i: usize = 0;
    while i < config.keys.len()
        invariant
            i <= config.keys.len(),
            !(profile@ == "default"@ && legacy(*config)),
            first_named(config.keys@, profile@, 0) == first_named(
                config.keys@,
                profile@,
                i as int,
            ),
        decreases config.keys.len() - i,
    {
        let entry = &config.keys[i];
        if same(entry.name.as_str(), profile) {
            return Some(
                FileCredentials {
                    key_id: entry.key_id.clone(),
                    issuer_id: entry.issuer_id.clone(),
                    private_key_path: entry.private_key_path.clone(),
                },
            );
        }
        i += 1;
    }
    None
}

/// The keychain account of named credentials.
pub fn asc_cli_keychain_account(profile: &str) -> (account: String)
    ensures
        account@ == "asc:credential:"@ + profile@,
{
    cat("asc:credential:", profile)
}

/// What an answer to a yes-or-no question says; nothing where it has to be asked again.
pub open spec fn yes_or_no(answer: Seq<char>, default_yes: bool) -> Option<bool> {
    let word = lowered(trimmed(answer));
    if word.len() == 0 {
        Some(default_yes)
    } else if word == "y"@ || word == "yes"@ {
        Some(true)
    } else if word == "n"@ || word == "no"@ {
        Some(false)
    } else {
        None
    }
}

/// What an answer to a yes-or-no question says.
pub fn yes_no_answer(answer: &str, default_yes: bool) -> (result: Option<bool>)
    ensures
        result == yes_or_no(answer@, default_yes),
{
    let word = to_lower(trim(answer));
    let name = word.as_str();
    if name.is_empty() {
        Some(default_yes)
    } else if same(name, "y") || same(name, "yes") {
        Some(true)
    } else if same(name, "n") || same(name, "no") {
        Some(false)
    } else {
        None
    }
}

/// What was typed, without white space around it, else what was proposed; nothing where it has to
/// be asked again.
pub fn typed_or_default(typed: &str, default: Option<&str>) -> (value: Option<String>)
    ensures
        owned(value) == (if blank(typed@) {
            given(default)
        } else {
            Some(trimmed(typed@))
        }),
{
    if is_blank(typed) {
        match default {
            Some(proposed) => Some(proposed.to_owned()),
            None => None,
        }
    } else {
        Some(trim(typed).to_owned())
    }
}

/// A token says who issued it and for whom, and is good for five minutes from the instant it is made.
pub proof fn law_claims(issuer_id: Seq<char>, now: u64)
    requires
        now + 300 <= u64::MAX,
    ensures
        word_claims(issuer_id).len() == 2,
        word_claims(issuer_id).contains(("iss"@, issuer_id)),
        word_claims(issuer_id).contains(("aud"@, "appstoreconnect-v1"@)),
        instant_claims(now).len() == 2,
        instant_claims(now).contains(("iat"@, now)),
        exists|end: u64| #[trigger] instant_claims(now).contains(("exp"@, end)) && end - now == 300,
{
    assert(word_claims(issuer_id)[0] == ("iss"@, issuer_id));
    assert(word_claims(issuer_id)[1] == ("aud"@, "appstoreconnect-v1"@));
    assert(instant_claims(now)[0] == ("iat"@, now));
    assert(instant_claims(now)[1] == ("exp"@, (now + 300) as u64));
    assert(instant_claims(now).contains(("exp"@, (now + 300) as u64)));
}

/// Each member of a stored record is what its name says.
pub proof fn law_records_are_written(record: StoredAuthRecord)
    ensures
        member(record.json_of(), "displayName"@) == Some(JsonView::Text(record.display_name@)),
        member(record.json_of(), "issuerId"@) == Some(JsonView::Text(record.issuer_id@)),
        member(record.json_of(), "keyId"@) == Some(JsonView::Text(record.key_id@)),
        member(record.json_of(), "privateKeyPem"@) == Some(
            JsonView::Text(record.private_key_pem@),
        ),
{
    reveal_strlit("displayName");
    reveal_strlit("issuerId");
    reveal_strlit("keyId");
    reveal_strlit("privateKeyPem");
    assert("displayName"@.len() == 11 && "issuerId"@.len() == 8 && "keyId"@.len() == 5
        && "privateKeyPem"@.len() == 13);
}

/// A path that starts at the home directory leads there, and any other path stays.
pub proof fn law_home_paths(rest: Seq<char>, path: Seq<char>, home: Seq<char>)
    requires
        home.len() > 0,
        !starts(rest, "/"@),
        !ends(home, "/"@),
    ensures
        home_path("~/"@ + rest, Some(home)) == Ok::<Seq<char>, Seq<char>>(home + "/"@ + rest),
        home_path("~/"@ + rest, None) is Err,
        !starts(path, "~/"@) ==> home_path(path, Some(home)) == Ok::<Seq<char>, Seq<char>>(path)
            && home_path(path, None) == Ok::<Seq<char>, Seq<char>>(path),
{
    reveal_strlit("~/");
    let whole = "~/"@ + rest;
    assert(whole.take(2) =~= "~/"@);
    assert(whole.skip(2) =~= rest);
}

/// The environment gives a key where nothing of it is set, which is none, or all of it is: the issuer,
/// the key's id, and the key or its path.
pub proof fn law_environment_keys_are_whole(
    issuer_id: Option<Seq<char>>,
    key_id: Option<Seq<char>>,
    private_key: Option<Seq<char>>,
    private_key_path: Option<Seq<char>>,
)
    ensures
        environment_message(issuer_id, key_id, private_key, private_key_path) is None <==> (
        issuer_id is Some && key_id is Some && (private_key is Some || private_key_path is Some)) || (
        issuer_id is None && key_id is None && private_key is None && private_key_path is None),
{
}

/// The key that is found has the name and none before it has; where none is found, none has it.
pub proof fn law_keys_are_found_by_name(keys: Seq<AscCliKeyEntry>, name: Seq<char>, from: int)
    requires
        from >= 0,
    ensures
        match first_named(keys, name, from) {
            Some(i) => from <= i < keys.len() && keys[i].name@ == name && forall|j: int|
                from <= j < i ==> (#[trigger] keys[j]).name@ != name,
            None => forall|i: int| from <= i < keys.len() ==> (#[trigger] keys[i]).name@ != name,
        },
    decreases keys.len() - from,
{
    if from < keys.len() && keys[from].name@ != name {
        law_keys_are_found_by_name(keys, name, from + 1);
    }
}

/// An answer is taken by its first letters in any case, with space around it; no answer is the
/// default, and any other word is none.
pub proof fn law_answers_are_yes_or_no(answer: Seq<char>, default_yes: bool)
    ensures
        lowered(trimmed(answer)) == "yes"@ || lowered(trimmed(answer)) == "y"@ ==> yes_or_no(
            answer,
            default_yes,
        ) == Some(true),
        lowered(trimmed(answer)) == "no"@ || lowered(trimmed(answer)) == "n"@ ==> yes_or_no(
            answer,
            default_yes,
        ) == Some(false),
        trimmed(answer).len() == 0 ==> yes_or_no(answer, default_yes) == Some(default_yes),
        yes_or_no(answer, true) != yes_or_no(answer, false) ==> trimmed(answer).len() == 0,
{
    reveal_strlit("yes");
    reveal_strlit("y");
    reveal_strlit("no");
    reveal_strlit("n");
    assert("yes"@.len() == 3 && "y"@.len() == 1 && "no"@.len() == 2 && "n"@.len() == 1);
    assert("y"@[0] == 'y' && "n"@[0] == 'n');
}

/// A name is a profile just where it is, without the space around it, the default name, the name of a
/// key or of an entry of the keychain, or `default` where a key is given without a name.
pub proof fn law_profiles_of_the_other_tool(config: AscCliConfig, name: Seq<char>, i: int)
    ensures
        !blank(config.default_key_name@) ==> is_profile(config, trimmed(config.default_key_name@)),
        0 <= i < config.keys@.len() && !blank(config.keys@[i].name@) ==> is_profile(
            config,
            trimmed(config.keys@[i].name@),
        ),
        0 <= i < config.keychain_metadata@.len() && !blank(config.keychain_metadata@[i].name@)
            ==> is_profile(config, trimmed(config.keychain_metadata@[i].name@)),
        !blank(config.key_id@) && !blank(config.issuer_id@) && !blank(config.private_key_path@)
            ==> is_profile(config, "default"@),
        config.keys@.len() == 0 && config.keychain_metadata@.len() == 0 && blank(
            config.default_key_name@,
        ) && (blank(config.key_id@) || blank(config.issuer_id@) || blank(config.private_key_path@))
            ==> !is_profile(config, name),
{
}

} // verus!
