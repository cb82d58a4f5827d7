//! The decisions of the store that keeps each user's list in files: where
//! the files are, how a password is salted and hashed, and when a password
//! is accepted. The files themselves are read and written by the caller.

use vstd::prelude::*;
use vstd::utf8::encode_utf8;
use rand::RngCore;
use sha2::Digest;
use crate::commands::RepoRequest;
use crate::item::{add_to_list, added, remove_from_list, update_in_list, updated, without_id, Item};
use crate::text::{has_prefix, push_str};

verus! {

/// The store of shopping lists kept in files under `base_dir`.
#[derive(Debug)]
pub struct FileBackedStore {
    pub base_dir: String,
}

impl Clone for FileBackedStore {
    fn clone(&self) -> (res: Self)
        ensures
            res == *self,
    {
        FileBackedStore { base_dir: self.base_dir.clone() }
    }
}

/// The salt of a user and the hash of their password, kept next to the
/// lists.
#[derive(Debug)]
pub struct UserMeta {
    pub salt: String,
    pub password_hash: String,
}

/// Why a store refuses a request.
#[derive(Debug, Clone, Copy, PartialEq, Eq, Structural)]
pub enum StoreError {
    /// The password does not match the one the user was created with.
    InvalidCredentials,
}

impl StoreError {
    /// The message of the error.
    pub fn message(&self) -> (res: String)
        ensures
            res@ == "Invalid username or password"@,
    {
        "Invalid username or password".to_owned()
    }
}

/// `s` ends with `t`.
pub open spec fn has_suffix(s: Seq<char>, t: Seq<char>) -> bool {
    t.len() <= s.len() && s.subrange(s.len() - t.len(), s.len() as int) == t
}

/// `name` is joined under `base` rather than replacing it: it is not empty,
/// does not start with a separator (`/` or `\`), holds no `:` (no drive or
/// other prefix), and `base` is not a Windows verbatim path (`\\?\...`,
/// which `Path::join` rewrites).
pub open spec fn joins_under(base: Seq<char>, name: Seq<char>) -> bool {
    &&& name.len() > 0
    &&& name[0] != '/'
    &&& name[0] != '\\'
    &&& !name.contains(':')
    &&& !is_verbatim(base)
}

/// `base` starts as a Windows verbatim path does (`\\?\`).
pub open spec fn is_verbatim(base: Seq<char>) -> bool {
    has_prefix(base, seq!['\\', '\\', '?', '\\'])
}

/// `path` is `name` in the directory `base`: `base`, at most one separator
/// (`/` or `\`, the platform's), then `name`.
pub open spec fn is_joined(path: Seq<char>, base: Seq<char>, name: Seq<char>) -> bool {
    &&& has_prefix(path, base)
    &&& has_suffix(path, name)
    &&& base.len() + name.len() <= path.len() <= base.len() + name.len() + 1
    &&& path.len() == base.len() + name.len() + 1 ==> (path[base.len() as int] == '/' || path[base.len() as int] == '\\')
}

/// `name` joined onto the directory `base` as a path (`Path::join`). Unless
/// `base` is verbatim, the result ends with `name`; when `name` joins under `base` (see
/// `joins_under`) it is `base`, the platform's separator when `base` does not
/// already end in one, and `name`. Which separator is used, and what an
/// absolute or prefixed `name` or a verbatim `base` gives beyond the suffix,
/// are the platform's and are left unsaid.
#[verifier::external_body]
fn join_path(base: &str, name: &str) -> (res: String)
    ensures
        !is_verbatim(base@) ==> has_suffix(res@, name@),
        joins_under(base@, name@) ==> is_joined(res@, base@, name@),
{
    std::path::Path::new(base).join(name).to_string_lossy().into_owned()
}

/// The name of the metadata file of `username`.
pub open spec fn meta_file_name(username: Seq<char>) -> Seq<char> {
    username + ".meta.json"@
}

/// The name of the list file of `username` with the hash `password_hash`.
pub open spec fn user_file_name(username: Seq<char>, password_hash: Seq<char>) -> Seq<char> {
    username + "__"@ + password_hash + ".json"@
}

impl FileBackedStore {
    /// A store kept under `base_dir`; the directory is made by the caller.
    pub fn new(base_dir: &str) -> (res: Self)
        ensures
            res.base_dir@ == base_dir@,
    {
        FileBackedStore { base_dir: base_dir.to_owned() }
    }

    /// The path of the metadata file of `username`: `<username>.meta.json`
    /// in the store's directory.
    pub fn meta_file(&self, username: &str) -> (res: String)
        ensures
            !is_verbatim(self.base_dir@) ==> has_suffix(res@, meta_file_name(username@)),
            joins_under(self.base_dir@, meta_file_name(username@)) ==> is_joined(
                res@,
                self.base_dir@,
                meta_file_name(username@),
            ),
    {
        let mut name = username.to_owned();
        push_str(&mut name, ".meta.json");
        join_path(self.base_dir.as_str(), name.as_str())
    }

    /// The path of the list file of `username`:
    /// `<username>__<password_hash>.json` in the store's directory.
    pub fn user_file(&self, username: &str, password_hash: &str) -> (res: String)
        ensures
            !is_verbatim(self.base_dir@) ==> has_suffix(
                res@,
                user_file_name(username@, password_hash@),
            ),
            joins_under(self.base_dir@, user_file_name(username@, password_hash@)) ==> is_joined(
                res@,
                self.base_dir@,
                user_file_name(username@, password_hash@),
            ),
    {
        let mut name = username.to_owned();
        push_str(&mut name, "__");
        push_str(&mut name, password_hash);
        push_str(&mut name, ".json");
        join_path(self.base_dir.as_str(), name.as_str())
    }
}

/// The lower-case hex digit of `n` (`0 <= n < 16`).
pub open spec fn hex_digit(n: int) -> char {
    if n < 10 {
        (n + 48) as char
    } else {
        (n + 87) as char
    }
}

/// Lower-case hex of `bytes`, two digits per byte, high half first.
pub open spec fn hex_text(bytes: Seq<u8>) -> Seq<char>
    decreases bytes.len(),
{
    if bytes.len() == 0 {
        Seq::empty()
    } else {
        hex_text(bytes.drop_last()) + seq![
            hex_digit(bytes.last() as int / 16),
            hex_digit(bytes.last() as int % 16),
        ]
    }
}

/// `hex::encode`: lower-case hex, two digits per byte.
#[verifier::external_body]
fn hex_encode(bytes: &[u8]) -> (res: String)
    ensures
        res@ == hex_text(bytes@),
{
    hex::encode(bytes)
}

/// The SHA-256 digest of `data`.
pub uninterp spec fn sha256(data: Seq<u8>) -> Seq<u8>;

/// `sha2::Sha256` over `data`: a digest of 32 bytes.
#[verifier::external_body]
fn sha256_digest(data: &[u8]) -> (res: Vec<u8>)
    ensures
        res@ == sha256(data@),
        res@.len() == 32,
{
    let mut hasher = sha2::Sha256::new();
    hasher.update(data);
    hasher.finalize().to_vec()
}

/// Sixteen random bytes from the thread's generator (`rand::rng`); nothing
/// is known of them.
#[verifier::external_body]
fn random_bytes() -> (res: [u8; 16]) {
    let mut bytes = [0u8; 16];
    rand::rng().fill_bytes(&mut bytes);
    bytes
}

/// The salted hash kept for `username` with `password` and `salt`: the hex
/// of SHA-256 over the UTF-8 of `username:password:salt`.
pub open spec fn password_hash(username: Seq<char>, password: Seq<char>, salt: Seq<char>) -> Seq<char> {
    hex_text(sha256(encode_utf8(username + ":"@ + password + ":"@ + salt)))
}

/// The salted hash of a password (see `password_hash`).
pub fn hash_password(username: &str, password: &str, salt: &str) -> (res: String)
    ensures
        res@ == password_hash(username@, password@, salt@),
{
    let mut text = username.to_owned();
    push_str(&mut text, ":");
    push_str(&mut text, password);
    push_str(&mut text, ":");
    push_str(&mut text, salt);
    let digest = sha256_digest(text.as_str().as_bytes());
    hex_encode(digest.as_slice())
}

/// `s` is lower-case hex.
pub open spec fn is_hex(s: Seq<char>) -> bool {
    forall|i: int| 0 <= i < s.len() ==> ('0' <= #[trigger] s[i] <= '9' || 'a' <= s[i] <= 'f')
}

/// Hex text is lower-case hex, two digits per byte.
proof fn lemma_hex_text(bytes: Seq<u8>)
    ensures
        hex_text(bytes).len() == 2 * bytes.len(),
        is_hex(hex_text(bytes)),
    decreases bytes.len(),
{
    if bytes.len() > 0 {
        lemma_hex_text(bytes.drop_last());
        let h = hex_text(bytes);
        let pre = hex_text(bytes.drop_last());
        let hi = bytes.last() as int / 16;
        let lo = bytes.last() as int % 16;
        assert forall|i: int| 0 <= i < h.len() implies ('0' <= #[trigger] h[i] <= '9' || 'a' <= h[i] <= 'f') by {
            if i < pre.len() {
                assert(h[i] == pre[i]);
            } else if i == pre.len() {
                assert(h[i] == hex_digit(hi));
            } else {
                assert(h[i] == hex_digit(lo));
            }
        }
    }
}

/// A fresh salt: the hex of sixteen random bytes.
pub fn generate_salt() -> (res: String)
    ensures
        res@.len() == 32,
        is_hex(res@),
{
    let bytes = random_bytes();
    let s = hex_encode(bytes.as_slice());
    proof {
        lemma_hex_text(bytes@);
    }
    s
}

/// What the store does with the metadata of a user.
#[derive(Debug)]
pub enum MetaDecision {
    /// The stored metadata matched the password and is used as it is.
    Existing(UserMeta),
    /// There was none: this new metadata is to be written.
    Created(UserMeta),
}

/// `meta` holds the hash of `password` for `username`.
pub open spec fn meta_accepts(meta: UserMeta, username: Seq<char>, password: Seq<char>) -> bool {
    meta.password_hash@ == password_hash(username, password, meta.salt@)
}

/// New metadata for `username` with `password` and the given salt.
pub fn new_meta(username: &str, password: &str, salt: String) -> (res: UserMeta)
    ensures
        res.salt@ == salt@,
        meta_accepts(res, username@, password@),
{
    let password_hash = hash_password(username, password, salt.as_str());
    UserMeta { salt, password_hash }
}

/// The stored metadata of a user, when the password matches it.
pub fn verify_meta(username: &str, password: &str, meta: UserMeta) -> (res: Result<UserMeta, StoreError>)
    ensures
        match res {
            Ok(m) => m == meta && meta_accepts(meta, username@, password@),
            Err(e) => e == StoreError::InvalidCredentials && !meta_accepts(meta, username@, password@),
        },
{
    let expected = hash_password(username, password, meta.salt.as_str());
    if expected != meta.password_hash {
        return Err(StoreError::InvalidCredentials);
    }
    Ok(meta)
}

impl FileBackedStore {
    /// The metadata of `username` given what is stored (`None` when there is
    /// no metadata file): the stored one when the password matches it, an
    /// error when it does not, and new metadata with a fresh salt, to be
    /// written, when there is none.
    pub fn load_or_create_meta(&self, username: &str, password: &str, stored: Option<UserMeta>) -> (res: Result<MetaDecision, StoreError>)
        ensures
            match stored {
                Some(m) => if meta_accepts(m, username@, password@) {
                    res == Ok::<MetaDecision, StoreError>(MetaDecision::Existing(m))
                } else {
                    res == Err::<MetaDecision, StoreError>(StoreError::InvalidCredentials)
                },
                None => match res {
                    Ok(MetaDecision::Created(m)) => meta_accepts(m, username@, password@) && m.salt@.len() == 32
                        && is_hex(m.salt@),
                    _ => false,
                },
            },
    {
        match stored {
            Some(m) => match verify_meta(username, password, m) {
                Ok(m) => Ok(MetaDecision::Existing(m)),
                Err(e) => Err(e),
            },
            None => {
                let salt = generate_salt();
                Ok(MetaDecision::Created(new_meta(username, password, salt)))
            },
        }
    }
}

/// The items of a stored list (`None` when there is no list file).
pub open spec fn stored_items(stored: Option<Vec<Item>>) -> Seq<Item> {
    match stored {
        Some(v) => v@,
        None => Seq::empty(),
    }
}

impl FileBackedStore {
    /// The list to write after `req`, given the stored list (`None` when
    /// there is no list file): an addition always writes the list with the
    /// new item (a new list when there was none); a removal or an update
    /// writes the changed list, and writes nothing (`None`) when there is no
    /// list file.
    pub fn change_list(&self, stored: Option<Vec<Item>>, req: RepoRequest) -> (res: Option<Vec<Item>>)
        requires
            req is Add ==> (stored_items(stored).len() as i32) < i32::MAX,
        ensures
            match req {
                RepoRequest::Add(c) => res matches Some(v) && v@ == added(stored_items(stored), c),
                RepoRequest::Remove { item_id, .. } => match stored {
                    Some(s) => res matches Some(v) && v@ == without_id(s@, item_id),
                    None => res is None,
                },
                RepoRequest::Update { item_id, update } => match stored {
                    Some(s) => res matches Some(v) && v@ == updated(s@, item_id, update),
                    None => res is None,
                },
            },
    {
        match req {
            RepoRequest::Add(c) => {
                let mut items = match stored {
                    Some(v) => v,
                    None => Vec::new(),
                };
                add_to_list(&mut items, c);
                Some(items)
            },
            RepoRequest::Remove { item_id, .. } => match stored {
                Some(mut items) => {
                    remove_from_list(&mut items, item_id);
                    Some(items)
                },
                None => None,
            },
            RepoRequest::Update { item_id, update } => match stored {
                Some(mut items) => {
                    update_in_list(&mut items, item_id, update);
                    Some(items)
                },
                None => None,
            },
        }
    }
}

} // verus!
