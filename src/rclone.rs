//! The adapter around the external transfer tool: where its configuration and
//! binary are, and how its textual progress reports read.

use vstd::prelude::*;
use vstd::string::StringSliceAdditionalSpecFns;
use vstd::utf8::{decode_utf8, valid_utf8};
use std::path::PathBuf;
use crate::text::{
    chars_of, size_of_chars, size_value, split_whitespace, strip_trailing, strip_trailing_commas, tokens,
};

verus! {

#[verifier::external_type_specification]
#[verifier::external_body]
pub struct ExPathBuf(PathBuf);

/// Relies on std's `Path::exists`: whether something is at the path. The
/// answer depends on the file system at the time of the call.
#[verifier::external_body]
fn path_exists(path: &PathBuf) -> bool {
    path.exists()
}

/// Length of the nonce that leads the encrypted configuration.
pub const NONCE_LEN: usize = 12;

/// The SHA-256 digest of `data`.
pub uninterp spec fn sha256_of(data: Seq<u8>) -> Seq<u8>;

/// The bytes that the standard, padded base64 text `text` encodes, or `None`
/// where it is no such text.
pub uninterp spec fn base64_decoded(text: Seq<char>) -> Option<Seq<u8>>;

/// The plaintext that AES-256-GCM recovers from `sealed` under `key` and
/// `nonce`, or `None` where authentication fails.
pub uninterp spec fn aes256_gcm_opened(key: Seq<u8>, nonce: Seq<u8>, sealed: Seq<u8>) -> Option<Seq<u8>>;

/// Relies on sha2's `Sha256::digest`: the 32-byte SHA-256 digest of `data`.
#[verifier::external_body]
fn sha256_digest(data: &[u8]) -> (r: Vec<u8>)
    ensures
        r@ == sha256_of(data@),
        r@.len() == 32,
{
    <sha2::Sha256 as sha2::Digest>::digest(data).to_vec()
}

/// Relies on base64's `Engine::decode` with the `STANDARD` engine: the bytes
/// that `text` encodes, or an error where it is not valid base64.
#[verifier::external_body]
fn decode_base64(text: &str) -> (r: Option<Vec<u8>>)
    ensures
        match r {
            Some(v) => base64_decoded(text@) == Some(v@),
            None => base64_decoded(text@) is None,
        },
{
    base64::Engine::decode(&base64::engine::general_purpose::STANDARD, text).ok()
}

/// Relies on aes-gcm's `Aes256Gcm`, keyed with `key`, and its `Aead::decrypt`:
/// the plaintext of `sealed`, or an error where authentication fails. The
/// key and nonce slices are read as arrays of their fixed lengths, which is
/// why those lengths are required.
#[verifier::external_body]
fn aes256_gcm_decrypt(key: &[u8], nonce: &[u8], sealed: &[u8]) -> (r: Option<Vec<u8>>)
    requires
        key@.len() == 32,
        nonce@.len() == NONCE_LEN,
    ensures
        match r {
            Some(v) => aes256_gcm_opened(key@, nonce@, sealed@) == Some(v@),
            None => aes256_gcm_opened(key@, nonce@, sealed@) is None,
        },
{
    let cipher = <aes_gcm::Aes256Gcm as aes_gcm::KeyInit>::new(aes_gcm::Key::<aes_gcm::Aes256Gcm>::from_slice(key));
    aes_gcm::aead::Aead::decrypt(&cipher, aes_gcm::Nonce::from_slice(nonce), sealed).ok()
}

/// Relies on std's `String::from_utf8`, which fails exactly on bytes that are
/// not UTF-8, and otherwise holds the characters they encode.
#[verifier::external_body]
fn utf8_string(bytes: Vec<u8>) -> (r: Option<String>)
    ensures
        match r {
            Some(s) => valid_utf8(bytes@) && s@ == decode_utf8(bytes@),
            None => !valid_utf8(bytes@),
        },
{
    String::from_utf8(bytes).ok()
}

/// Why the encrypted configuration could not be read.
#[derive(Debug, Clone, Copy, PartialEq, Eq, Structural)]
pub enum ConfigError {
    /// The text is not base64.
    Base64,
    /// The data is shorter than its nonce.
    TooShort,
    /// The key does not open the data, or the data was altered.
    Decrypt,
    /// The plaintext is not UTF-8.
    Utf8,
}

impl ConfigError {
    pub open spec fn text(&self) -> Seq<char> {
        match self {
            ConfigError::Base64 => "Failed to decode base64"@,
            ConfigError::TooShort => "Invalid encrypted data: too short"@,
            ConfigError::Decrypt => "Decryption failed - invalid key or corrupted data"@,
            ConfigError::Utf8 => "Decrypted data is not valid UTF-8"@,
        }
    }

    /// The message that a user is shown for this error.
    pub fn message(&self) -> (r: &'static str)
        ensures
            r@ == self.text(),
    {
        match self {
            ConfigError::Base64 => "Failed to decode base64",
            ConfigError::TooShort => "Invalid encrypted data: too short",
            ConfigError::Decrypt => "Decryption failed - invalid key or corrupted data",
            ConfigError::Utf8 => "Decrypted data is not valid UTF-8",
        }
    }
}

/// What reading the encrypted configuration `text` with password `key`
/// yields: the base64 text holds a nonce and then the sealed configuration,
/// opened with the SHA-256 digest of the password.
pub open spec fn decrypted(text: Seq<char>, key: Seq<u8>) -> Result<Seq<char>, ConfigError> {
    match base64_decoded(text) {
        None => Err(ConfigError::Base64),
        Some(data) => if data.len() < NONCE_LEN {
            Err(ConfigError::TooShort)
        } else {
            match aes256_gcm_opened(
                sha256_of(key),
                data.subrange(0, NONCE_LEN as int),
                data.subrange(NONCE_LEN as int, data.len() as int),
            ) {
                None => Err(ConfigError::Decrypt),
                Some(plain) => if valid_utf8(plain) {
                    Ok(decode_utf8(plain))
                } else {
                    Err(ConfigError::Utf8)
                },
            }
        },
    }
}

/// The bytes of `v` from `lo` up to `hi`.
fn byte_range(v: &Vec<u8>, lo: usize, hi: usize) -> (r: Vec<u8>)
    requires
        lo <= hi <= v@.len(),
    ensures
        r@ == v@.subrange(lo as int, hi as int),
{
    let mut r: Vec<u8> = Vec::new();
    let mut k: usize = lo;
    while k < hi
        invariant
            lo <= k <= hi <= v@.len(),
            r@ == v@.subrange(lo as int, k as int),
        decreases hi - k,
    {
        r.push(v[k]);
        k = k + 1;
        proof {
            assert(r@ =~= v@.subrange(lo as int, k as int));
        }
    }
    r
}

/// The position of the first token `/` at or after `from` that has a token on
/// either side.
pub open spec fn first_slash(toks: Seq<Seq<char>>, from: int) -> Option<int>
    decreases toks.len() - from,
{
    if from >= toks.len() {
        None
    } else if 0 < from < toks.len() - 1 && toks[from] == seq!['/'] {
        Some(from)
    } else {
        first_slash(toks, from + 1)
    }
}

/// The transferred and total bytes that a progress line such as
/// `Transferred:   10.5MiB / 100MiB, 10%, 5MiB/s, ETA 18s` reports: the
/// sizes on either side of the first lone `/`, the total without its
/// trailing commas. A line of fewer than five tokens reports nothing; one of
/// five or more without such a `/` reports zero of zero.
pub open spec fn progress_value(line: Seq<char>) -> Option<(u64, u64)> {
    let toks = tokens(line);
    if toks.len() < 5 {
        None
    } else {
        match first_slash(toks, 0) {
            None => Some((0, 0)),
            Some(i) => match (size_value(toks[i - 1]), size_value(strip_trailing(toks[i + 1], ','))) {
                (Some(a), Some(b)) => Some((a, b)),
                _ => None,
            },
        }
    }
}

/// Where the transfer tool's configuration is kept, and which binary runs it.
#[derive(Debug)]
pub struct RcloneManager {
    config_path: PathBuf,
    rclone_binary: PathBuf,
}

impl RcloneManager {
    /// An adapter that keeps the configuration at `config_path` and runs
    /// `rclone_binary`.
    pub fn new(config_path: PathBuf, rclone_binary: PathBuf) -> (r: RcloneManager)
        ensures
            r.config_path() == config_path,
            r.rclone_binary() == rclone_binary,
    {
        RcloneManager { config_path, rclone_binary }
    }

    pub closed spec fn config_path(&self) -> PathBuf {
        self.config_path
    }

    pub closed spec fn rclone_binary(&self) -> PathBuf {
        self.rclone_binary
    }

    /// The path of the configuration file.
    pub fn config_file(&self) -> (r: &PathBuf)
        ensures
            *r == self.config_path(),
    {
        &self.config_path
    }

    /// The path of the binary.
    pub fn binary(&self) -> (r: &PathBuf)
        ensures
            *r == self.rclone_binary(),
    {
        &self.rclone_binary
    }

    /// The transferred and total bytes of a progress line of the tool.
    pub fn parse_progress(line: &str) -> (r: Option<(u64, u64)>)
        ensures
            r == progress_value(line@),
    {
        let toks = split_whitespace(&chars_of(line));
        let n = toks.len();
        proof {
            assert(toks@.map_values(|t: Vec<char>| t@) == tokens(line@));
            assert(toks@.map_values(|t: Vec<char>| t@).len() == n);
        }
        if n < 5 {
            return None;
        }
        let ghost tv = tokens(line@);
        let mut i: usize = 0;
        while i < n
            invariant
                n == toks@.len() == tv.len(),
                n >= 5,
                tv == tokens(line@),
                tv == toks@.map_values(|t: Vec<char>| t@),
                i <= n,
                first_slash(tv, i as int) == first_slash(tv, 0),
            decreases n - i,
        {
            proof {
                assert(tv[i as int] == toks@[i as int]@);
            }
            if i > 0 && i < n - 1 && toks[i].len() == 1 && toks[i][0] == '/' {
                proof {
                    assert(tv[i as int] =~= seq!['/']);
                    assert(tv[i - 1] == toks@[i - 1]@);
                    assert(tv[i + 1] == toks@[i + 1]@);
                    assert(first_slash(tv, i as int) == Some(i as int));
                    assert(progress_value(line@) == match (size_value(tv[i - 1]), size_value(strip_trailing(tv[i + 1], ','))) {
                        (Some(a), Some(b)) => Some((a, b)),
                        _ => None::<(u64, u64)>,
                    });
                }
                let transferred = match size_of_chars(&toks[i - 1]) {
                    Some(v) => v,
                    None => return None,
                };
                let total = match size_of_chars(&strip_trailing_commas(&toks[i + 1])) {
                    Some(v) => v,
                    None => return None,
                };
                return Some((transferred, total));
            }
            proof {
                if 0 < i < n - 1 {
                    assert(tv[i as int] != seq!['/']) by {
                        if tv[i as int] == seq!['/'] {
                            assert(toks@[i as int]@.len() == 1);
                            assert(toks@[i as int]@[0] == '/');
                        }
                    }
                }
            }
            i = i + 1;
        }
        Some((0, 0))
    }

    /// The bytes that a size written by the tool stands for, such as `10.5MiB`.
    pub fn parse_size(s: &str) -> (r: Option<u64>)
        ensures
            r == size_value(s@),
    {
        size_of_chars(&chars_of(s))
    }

    /// Reads the encrypted configuration `encrypted_base64` with the password
    /// `key`.
    pub fn decrypt_config(&self, encrypted_base64: &str, key: &str) -> (r: Result<String, ConfigError>)
        ensures
            match decrypted(encrypted_base64@, key.spec_bytes()) {
                Ok(text) => (r matches Ok(s) && s@ == text),
                Err(e) => r == Err::<String, ConfigError>(e),
            },
    {
        let key_bytes = sha256_digest(key.as_bytes());
        let data = match decode_base64(encrypted_base64) {
            Some(d) => d,
            None => return Err(ConfigError::Base64),
        };
        if data.len() < NONCE_LEN {
            return Err(ConfigError::TooShort);
        }
        let nonce = byte_range(&data, 0, NONCE_LEN);
        let sealed = byte_range(&data, NONCE_LEN, data.len());
        let plain = match aes256_gcm_decrypt(key_bytes.as_slice(), nonce.as_slice(), sealed.as_slice()) {
            Some(p) => p,
            None => return Err(ConfigError::Decrypt),
        };
        match utf8_string(plain) {
            Some(text) => Ok(text),
            None => Err(ConfigError::Utf8),
        }
    }

    /// Whether a configuration file is present.
    pub fn config_exists(&self) -> bool {
        path_exists(&self.config_path)
    }
}

} // verus!
