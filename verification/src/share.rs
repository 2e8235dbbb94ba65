//! `dove share`: uploads a file and hands out an expiring link. In the simple tier
//! that is a presigned URL; in the full tier the file is always encrypted, its
//! download policy is registered, and the link leads to the access gate.

use vstd::prelude::*;

use crate::aws::{given_at, maybe, Call, CallView, Complaint, ComplaintView, Reply, ReplyView};
use crate::base64url::base64url;
use crate::config::{Config, ConfigView};
use crate::crypto::{fragment_key, key_to_fragment, law_fragment_round_trip, CryptoError};
use crate::duration::{
    complaint, counted, human_long, in_words, parse, secs_written, within_presign_limit,
    Duration, DurationError, PRESIGN_MAX,
};
use crate::json::{json_contents, json_written, nothing, text, to_text, with, Json};
use crate::ledger::ShareRecord;
use crate::random::random_bytes;
use crate::script::{lemma_sole, ItemView, Script, ScriptView};
use crate::search::{has_text, stands_at};
use crate::text::{
    decimal, decimal_text, digits_value, hex, hex_text, is_digit, is_hex_digit,
    lemma_decimal_shape, lemma_hex_injective, lemma_hex_shape, trim, trimmed,
};

verus! {

// ── identifiers ───────────────────────────────────────────────────────────

/// The share id that a draw of random bytes makes: the bytes in hex, where the
/// operating system gave any.
pub fn id_drawn(drawn: Result<[u8; 8], getrandom::Error>) -> (r: Option<String>)
    ensures
        match drawn {
            Ok(tag) => r is Some && r->0@ == hex(tag@),
            Err(_) => r is None,
        },
{
    match drawn {
        Ok(tag) => Some(hex_text(&tag)),
        Err(_) => None,
    }
}

/// A 16-digit share id: the access token in the URL. Unguessable, so that a
/// share's downloads cannot be used up by guessing ids. `None` where the system
/// has no randomness to give.
pub fn random_id() -> (r: Option<String>)
    ensures
        r is Some ==> exists|tag: [u8; 8]| r->0@ == #[trigger] hex(tag@),
{
    id_drawn(random_bytes::<8>())
}

/// The key of a share's object: a tag in hex, and the file's name.
pub open spec fn keyed(tag: Seq<u8>, filename: Seq<char>) -> Seq<char> {
    hex(tag) + "/"@ + filename
}

/// The key of a share's object under a tag.
pub fn key_under(tag: &[u8], filename: &str) -> (r: String)
    ensures
        r@ == keyed(tag@, filename@),
{
    hex_text(tag).concat("/").concat(filename)
}

/// The key of a share's object whose tag is drawn at random, where the operating
/// system gave a tag.
pub fn share_key_drawn(drawn: Result<[u8; 4], getrandom::Error>, filename: &str) -> (r: Option<
    String,
>)
    ensures
        match drawn {
            Ok(tag) => r is Some && r->0@ == keyed(tag@, filename@),
            Err(_) => r is None,
        },
{
    match drawn {
        Ok(tag) => Some(key_under(&tag, filename)),
        Err(_) => None,
    }
}

/// A key for a share's object: a random prefix of eight hex digits, so that names
/// neither collide nor expose a guessable listing, and the file's name.
pub fn share_key(filename: &str) -> (r: Option<String>)
    ensures
        r is Some ==> exists|tag: [u8; 4]| r->0@ == #[trigger] keyed(tag@, filename@),
{
    share_key_drawn(random_bytes::<4>(), filename)
}

/// The number that four bytes are, the least significant first.
pub open spec fn le32(bytes: Seq<u8>) -> nat {
    (bytes[0] + 0x100 * bytes[1] + 0x1_0000 * bytes[2] + 0x100_0000 * bytes[3]) as nat
}

/// As many zeros.
pub open spec fn zeros(n: int) -> Seq<char> {
    Seq::new(
        if n > 0 {
            n as nat
        } else {
            0
        },
        |i: int| '0',
    )
}

/// Six digits out of four random bytes.
pub open spec fn pin_text(bytes: Seq<u8>) -> Seq<char> {
    let n = decimal(le32(bytes) % 1_000_000);
    zeros(6 - n.len()) + n
}

/// The PIN that four random bytes make: six digits, zero-padded. Uniform enough
/// for a second factor that the access gate checks and limits the rate of.
pub fn pin_of(bytes: &[u8; 4]) -> (r: String)
    ensures
        r@ == pin_text(bytes@),
{
    let n: u32 = bytes[0] as u32 + 0x100 * (bytes[1] as u32) + 0x1_0000 * (bytes[2] as u32)
        + 0x100_0000 * (bytes[3] as u32);
    let digits = decimal_text((n % 1_000_000) as u64);
    let len = crate::text::chars_of(digits.as_str()).len();
    let mut front = String::new();
    let mut i: usize = len;
    assert(front@ =~= zeros(0));
    while i < 6
        invariant
            len <= i,
            len == digits@.len(),
            i > len ==> i <= 6,
            front@ == zeros(i - len),
        decreases 6 - i,
    {
        proof {
            reveal_strlit("0");
            assert(zeros(i - len) + "0"@ =~= zeros(i + 1 - len));
        }
        front = front.concat("0");
        i += 1;
    }
    assert(zeros(i - len) =~= zeros(6 - digits@.len()));
    front.concat(digits.as_str())
}

/// The PIN that a draw of random bytes makes, where the operating system gave any.
pub fn pin_drawn(drawn: Result<[u8; 4], getrandom::Error>) -> (r: Option<String>)
    ensures
        match drawn {
            Ok(bytes) => r is Some && r->0@ == pin_text(bytes@),
            Err(_) => r is None,
        },
{
    match drawn {
        Ok(bytes) => Some(pin_of(&bytes)),
        Err(_) => None,
    }
}

/// A random PIN. `None` where the system has no randomness to give.
pub fn gen_pin() -> (r: Option<String>)
    ensures
        r is Some ==> exists|bytes: [u8; 4]| r->0@ == #[trigger] pin_text(bytes@),
{
    pin_drawn(random_bytes::<4>())
}

/// The PIN of a share: the one that was set, or the one that the bytes make where
/// it was left open.
pub open spec fn resolved_pin(pin: Option<Seq<char>>, bytes: Seq<u8>) -> Option<Seq<char>> {
    match pin {
        Some(p) => if trimmed(p).len() == 0 {
            Some(pin_text(bytes))
        } else {
            Some(trimmed(p))
        },
        None => None,
    }
}

/// Resolves a share's PIN.
pub fn resolve_pin(pin: &Option<String>, bytes: &[u8; 4]) -> (r: Option<String>)
    ensures
        maybe(r) == resolved_pin(maybe(*pin), bytes@),
{
    match pin {
        Some(p) => {
            let set = trim(p.as_str());
            if set.is_empty() {
                Some(pin_of(bytes))
            } else {
                Some(set.to_string())
            }
        },
        None => None,
    }
}

// ── what is uploaded ──────────────────────────────────────────────────────

/// What a path leads to.
#[derive(Clone, Copy, PartialEq, Eq, Structural)]
pub enum PathKind {
    File,
    Directory,
    Other,
}

/// What is uploaded: under which name, and whether it is zipped first.
pub struct Upload {
    pub name: String,
    pub zipped: bool,
}

/// What is uploaded.
pub struct UploadView {
    pub name: Seq<char>,
    pub zipped: bool,
}

impl View for Upload {
    type V = UploadView;

    open spec fn view(&self) -> UploadView {
        UploadView { name: self.name@, zipped: self.zipped }
    }
}

/// A file is uploaded as it is, a directory zipped.
pub open spec fn upload_of(path: Seq<char>, kind: PathKind, last: Option<Seq<char>>) -> Result<
    UploadView,
    Seq<char>,
> {
    match kind {
        PathKind::File => match last {
            Some(name) => Ok(UploadView { name, zipped: false }),
            None => Err(path + " has no usable filename"@),
        },
        PathKind::Directory => match last {
            Some(name) => Ok(UploadView { name: name + ".zip"@, zipped: true }),
            None => Err(path + " has no usable directory name"@),
        },
        PathKind::Other => Err("not a file or directory: "@ + path),
    }
}

/// Resolves what to upload for a path, of which `last` is the last part.
pub fn prepare_upload(path: &str, kind: PathKind, last: &Option<String>) -> (r: Result<
    Upload,
    String,
>)
    ensures
        match r {
            Ok(upload) => upload_of(path@, kind, maybe(*last)) == Ok::<UploadView, Seq<char>>(
                upload@,
            ),
            Err(why) => upload_of(path@, kind, maybe(*last)) == Err::<UploadView, Seq<char>>(why@),
        },
{
    match kind {
        PathKind::File => match last {
            Some(name) => Ok(Upload { name: name.clone(), zipped: false }),
            None => Err(path.to_string().concat(" has no usable filename")),
        },
        PathKind::Directory => match last {
            Some(name) => Ok(Upload { name: name.clone().concat(".zip"), zipped: true }),
            None => Err(path.to_string().concat(" has no usable directory name")),
        },
        PathKind::Other => Err("not a file or directory: ".to_string().concat(path)),
    }
}

// ── the policy ────────────────────────────────────────────────────────────

/// A string attribute of a table's item.
pub open spec fn string_attribute(s: Seq<char>) -> Json {
    Json::nothing().with("S"@, Json::Text(s))
}

/// A number attribute of a table's item.
pub open spec fn number_attribute(s: Seq<char>) -> Json {
    Json::nothing().with("N"@, Json::Text(s))
}

/// What the table holds of a share: where it is, how often it may be downloaded
/// and until when, and, where it has a PIN, the PIN's hash and the count of wrong
/// guesses.
pub struct Policy {
    pub id: String,
    pub s3_key: String,
    pub downloads: u32,
    pub expires_at: u64,
    pub created_at: u64,
    pub size: u64,
    pub pin_hash: Option<String>,
}

/// What the table holds of a share.
pub struct PolicyView {
    pub id: Seq<char>,
    pub s3_key: Seq<char>,
    pub downloads: nat,
    pub expires_at: nat,
    pub created_at: nat,
    pub size: nat,
    pub pin_hash: Option<Seq<char>>,
}

impl View for Policy {
    type V = PolicyView;

    open spec fn view(&self) -> PolicyView {
        PolicyView {
            id: self.id@,
            s3_key: self.s3_key@,
            downloads: self.downloads as nat,
            expires_at: self.expires_at as nat,
            created_at: self.created_at as nat,
            size: self.size as nat,
            pin_hash: maybe(self.pin_hash),
        }
    }
}

impl PolicyView {
    /// The item of the table.
    pub open spec fn item(self) -> Json {
        let item = Json::nothing().with("id"@, string_attribute(self.id)).with(
            "s3_key"@,
            string_attribute(self.s3_key),
        ).with("downloads_remaining"@, number_attribute(decimal(self.downloads))).with(
            "downloads_total"@,
            number_attribute(decimal(self.downloads)),
        ).with("expires_at"@, number_attribute(decimal(self.expires_at))).with(
            "created_at"@,
            number_attribute(decimal(self.created_at)),
        ).with("size"@, number_attribute(decimal(self.size)));
        match self.pin_hash {
            Some(hash) => item.with("pin_hash"@, string_attribute(hash)).with(
                "pin_attempts"@,
                number_attribute("0"@),
            ),
            None => item,
        }
    }

    /// The call that puts the item into a table.
    pub open spec fn call(self, table: Seq<char>) -> CallView {
        CallView::aws("dynamodb"@, "put-item"@).option("--table-name"@, table).option(
            "--item"@,
            json_written(self.item()),
        ).complaining(
            ComplaintView::Named {
                call: "dynamodb put-item"@,
                text: "registering the share policy failed"@,
            },
        )
    }
}

fn string_of(s: &str) -> (r: serde_json::Value)
    ensures
        json_contents(r) == string_attribute(s@),
{
    with(nothing(), "S", text(s))
}

fn number_of(s: &str) -> (r: serde_json::Value)
    ensures
        json_contents(r) == number_attribute(s@),
{
    with(nothing(), "N", text(s))
}

/// The call that writes a share's policy to the table.
pub fn put_policy_item(table: &str, policy: &Policy) -> (r: Call)
    ensures
        r@ == policy@.call(table@),
{
    let downloads = decimal_text(policy.downloads as u64);
    let named = with(nothing(), "id", string_of(policy.id.as_str()));
    let placed = with(named, "s3_key", string_of(policy.s3_key.as_str()));
    let left = with(placed, "downloads_remaining", number_of(downloads.as_str()));
    let counted = with(left, "downloads_total", number_of(downloads.as_str()));
    let expires = decimal_text(policy.expires_at);
    let limited = with(counted, "expires_at", number_of(expires.as_str()));
    let created = decimal_text(policy.created_at);
    let dated = with(limited, "created_at", number_of(created.as_str()));
    let size = decimal_text(policy.size);
    let sized = with(dated, "size", number_of(size.as_str()));
    let item = match &policy.pin_hash {
        Some(hash) => {
            let locked = with(sized, "pin_hash", string_of(hash.as_str()));
            with(locked, "pin_attempts", number_of("0"))
        },
        None => sized,
    };
    Call::aws("dynamodb", "put-item").option("--table-name", table).option(
        "--item",
        to_text(&item).as_str(),
    ).complaining(
        Complaint::Named {
            call: "dynamodb put-item".to_string(),
            text: "registering the share policy failed".to_string(),
        },
    )
}

// ── a run ─────────────────────────────────────────────────────────────────

/// What is asked for on the command line.
pub struct ShareArgs {
    pub expires: String,
    pub encrypt: bool,
    pub downloads: Option<u32>,
    pub pin: Option<String>,
    pub from: Option<String>,
    pub message: Option<String>,
}

/// What is asked for on the command line.
pub struct ShareArgsView {
    pub expires: Seq<char>,
    pub encrypt: bool,
    pub downloads: Option<u32>,
    pub pin: Option<Seq<char>>,
    pub from: Option<Seq<char>>,
    pub message: Option<Seq<char>>,
}

impl View for ShareArgs {
    type V = ShareArgsView;

    open spec fn view(&self) -> ShareArgsView {
        ShareArgsView {
            expires: self.expires@,
            encrypt: self.encrypt,
            downloads: self.downloads,
            pin: maybe(self.pin),
            from: maybe(self.from),
            message: maybe(self.message),
        }
    }
}

/// The random bytes of a share: for its id, for its key's prefix, for the secret
/// in its link, and for a PIN.
#[derive(Clone, Copy)]
pub struct Draws {
    pub id: [u8; 8],
    pub prefix: [u8; 4],
    pub secret: [u8; 32],
    pub pin: [u8; 4],
}

/// A share's random bytes out of one draw for each: all four as they are, where the
/// operating system gave each of them.
pub fn draws_drawn(
    id: Result<[u8; 8], getrandom::Error>,
    prefix: Result<[u8; 4], getrandom::Error>,
    secret: Result<[u8; 32], getrandom::Error>,
    pin: Result<[u8; 4], getrandom::Error>,
) -> (r: Option<Draws>)
    ensures
        r == (match (id, prefix, secret, pin) {
            (Ok(id), Ok(prefix), Ok(secret), Ok(pin)) => Some(Draws { id, prefix, secret, pin }),
            _ => None,
        }),
{
    match (id, prefix, secret, pin) {
        (Ok(id), Ok(prefix), Ok(secret), Ok(pin)) => Some(Draws { id, prefix, secret, pin }),
        _ => None,
    }
}

/// Draws a share's random bytes. `None` where the system has none to give. Nothing
/// holds of every draw: which bytes come, and whether any do, is left to chance.
pub fn draw() -> (r: Option<Draws>) {
    draws_drawn(random_bytes::<8>(), random_bytes::<4>(), random_bytes::<32>(), random_bytes::<4>())
}

/// How far a share has come.
#[derive(Clone, Copy, PartialEq, Eq, Structural)]
pub enum ShareStage {
    /// Looking for the configuration.
    Config,
    /// Opening the store.
    Store,
    /// Preparing what is uploaded.
    Source,
    /// Encrypting, where that is asked for.
    Encrypt,
    /// Uploading.
    Upload,
    /// Signing the link.
    Sign,
    /// In the full tier.
    Full(FullShareStage),
    /// The link can be shown.
    Done,
}

/// How far a share has come in the full tier.
#[derive(Clone, Copy, PartialEq, Eq, Structural)]
pub enum FullShareStage {
    /// Deriving the content key from the PIN.
    Derive,
    /// Encrypting.
    Encrypt,
    /// Uploading.
    Upload,
    /// Sealing the name and the trust metadata for the link.
    Seal,
    /// Registering the policy.
    Register,
    /// Writing the share down locally.
    Record,
}

/// What is known of a share.
pub struct ShareFacts {
    pub args: ShareArgs,
    pub draws: Draws,
    pub ttl: Duration,
    pub config: Option<Config>,
    /// The name of what is shared.
    pub name: String,
    pub content_key: [u8; 32],
    pub pin_hash: Option<String>,
    /// The size of what was uploaded.
    pub size: u64,
    pub now: u64,
    /// The sealed metadata.
    pub meta: String,
    /// The presigned URL.
    pub url: String,
}

/// What is known of a share.
pub struct ShareFactsView {
    pub args: ShareArgsView,
    pub draws: Draws,
    pub ttl: Duration,
    pub config: Option<ConfigView>,
    pub name: Seq<char>,
    pub content_key: [u8; 32],
    pub pin_hash: Option<Seq<char>>,
    pub size: u64,
    pub now: u64,
    pub meta: Seq<char>,
    pub url: Seq<char>,
}

impl View for ShareFacts {
    type V = ShareFactsView;

    open spec fn view(&self) -> ShareFactsView {
        ShareFactsView {
            args: self.args@,
            draws: self.draws,
            ttl: self.ttl,
            config: match self.config {
                Some(config) => Some(config@),
                None => None,
            },
            name: self.name@,
            content_key: self.content_key,
            pin_hash: maybe(self.pin_hash),
            size: self.size,
            now: self.now,
            meta: self.meta@,
            url: self.url@,
        }
    }
}

/// What happened.
pub enum ShareEvent {
    /// The configuration was looked for.
    Config(Result<Config, String>),
    /// The store was opened.
    Opened(Result<(), String>),
    /// The file, or the zipped directory, of this name is at hand.
    Prepared(Result<String, String>),
    /// The content key that the PIN and the secret make, and the hash of the PIN.
    Derived { key: [u8; 32], pin_hash: String },
    /// It was encrypted.
    Encrypted(Result<(), String>),
    /// So many bytes were uploaded.
    Uploaded(Result<u64, String>),
    /// The link was signed.
    Signed(String),
    /// The metadata was sealed, and this is the time, in seconds.
    Sealed { meta: String, now: u64 },
    /// The script is through, and this was its last reply.
    Replied(Reply),
    /// The share was written down, or could not be.
    Recorded,
}

/// What happened.
pub enum ShareEventView {
    Config(Result<ConfigView, Seq<char>>),
    Opened(Result<(), Seq<char>>),
    Prepared(Result<Seq<char>, Seq<char>>),
    Derived { key: [u8; 32], pin_hash: Seq<char> },
    Encrypted(Result<(), Seq<char>>),
    Uploaded(Result<u64, Seq<char>>),
    Signed(Seq<char>),
    Sealed { meta: Seq<char>, now: u64 },
    Replied(ReplyView),
    Recorded,
}

impl View for ShareEvent {
    type V = ShareEventView;

    open spec fn view(&self) -> ShareEventView {
        match self {
            ShareEvent::Config(found) => ShareEventView::Config(
                match found {
                    Ok(config) => Ok(config@),
                    Err(why) => Err(why@),
                },
            ),
            ShareEvent::Opened(result) => ShareEventView::Opened(
                match result {
                    Ok(_) => Ok(()),
                    Err(why) => Err(why@),
                },
            ),
            ShareEvent::Prepared(result) => ShareEventView::Prepared(
                match result {
                    Ok(name) => Ok(name@),
                    Err(why) => Err(why@),
                },
            ),
            ShareEvent::Derived { key, pin_hash } => ShareEventView::Derived {
                key: *key,
                pin_hash: pin_hash@,
            },
            ShareEvent::Encrypted(result) => ShareEventView::Encrypted(
                match result {
                    Ok(_) => Ok(()),
                    Err(why) => Err(why@),
                },
            ),
            ShareEvent::Uploaded(result) => ShareEventView::Uploaded(
                match result {
                    Ok(size) => Ok(*size),
                    Err(why) => Err(why@),
                },
            ),
            ShareEvent::Signed(url) => ShareEventView::Signed(url@),
            ShareEvent::Sealed { meta, now } => ShareEventView::Sealed { meta: meta@, now: *now },
            ShareEvent::Replied(reply) => ShareEventView::Replied(reply@),
            ShareEvent::Recorded => ShareEventView::Recorded,
        }
    }
}

/// What is to be done.
pub enum ShareAct {
    LoadConfig,
    OpenStore,
    /// Resolve the path, and zip a directory.
    Prepare,
    /// Derive the content key from the PIN and the secret, and hash the PIN with
    /// the id.
    Derive { pin: String, secret: [u8; 32], id: String },
    /// Encrypt under this key.
    Encrypt([u8; 32]),
    /// Upload to this key.
    Upload(String),
    /// Sign a link to this key, for so long.
    Sign { key: String, ttl: Duration },
    /// Seal this text under the secret.
    Seal { secret: [u8; 32], text: String },
    /// Walk a script and hand back its last reply.
    Walk(Script),
    /// Write this down, if it can be.
    Record(ShareRecord),
    /// Show the link.
    Finished,
}

/// What is to be done.
pub enum ShareActView {
    LoadConfig,
    OpenStore,
    Prepare,
    Derive { pin: Seq<char>, secret: [u8; 32], id: Seq<char> },
    Encrypt([u8; 32]),
    Upload(Seq<char>),
    Sign { key: Seq<char>, ttl: Duration },
    Seal { secret: [u8; 32], text: Seq<char> },
    Walk(ScriptView),
    Record(RecordView),
    Finished,
}

/// What is written down of a share.
pub struct RecordView {
    pub id: Seq<char>,
    pub name: Seq<char>,
    pub from: Option<Seq<char>>,
    pub created_at: u64,
    pub expires_at: u64,
    pub downloads: u32,
}

/// What a record says.
pub open spec fn recorded(record: ShareRecord) -> RecordView {
    RecordView {
        id: record.id@,
        name: record.name@,
        from: maybe(record.from),
        created_at: record.created_at,
        expires_at: record.expires_at,
        downloads: record.downloads,
    }
}

impl View for ShareAct {
    type V = ShareActView;

    open spec fn view(&self) -> ShareActView {
        match self {
            ShareAct::LoadConfig => ShareActView::LoadConfig,
            ShareAct::OpenStore => ShareActView::OpenStore,
            ShareAct::Prepare => ShareActView::Prepare,
            ShareAct::Derive { pin, secret, id } => ShareActView::Derive {
                pin: pin@,
                secret: *secret,
                id: id@,
            },
            ShareAct::Encrypt(key) => ShareActView::Encrypt(*key),
            ShareAct::Upload(key) => ShareActView::Upload(key@),
            ShareAct::Sign { key, ttl } => ShareActView::Sign { key: key@, ttl: *ttl },
            ShareAct::Seal { secret, text } => ShareActView::Seal { secret: *secret, text: text@ },
            ShareAct::Walk(script) => ShareActView::Walk(script@),
            ShareAct::Record(record) => ShareActView::Record(recorded(*record)),
            ShareAct::Finished => ShareActView::Finished,
        }
    }
}

impl ShareFactsView {
    /// What is known at the start.
    pub open spec fn of(args: ShareArgsView, draws: Draws, ttl: Duration) -> ShareFactsView {
        ShareFactsView {
            args,
            draws,
            ttl,
            config: None,
            name: Seq::empty(),
            content_key: draws.secret,
            pin_hash: None,
            size: 0,
            now: 0,
            meta: Seq::empty(),
            url: Seq::empty(),
        }
    }

    /// The share's id.
    pub open spec fn id(self) -> Seq<char> {
        hex(self.draws.id@)
    }

    /// The PIN, where there is one.
    pub open spec fn pin(self) -> Option<Seq<char>> {
        resolved_pin(self.args.pin, self.draws.pin@)
    }

    /// The configuration is of the full tier.
    pub open spec fn is_full(self) -> bool {
        self.config is Some && self.config->0.is_full()
    }

    /// The key of the uploaded object. In the full tier it holds no name.
    pub open spec fn object_key(self) -> Seq<char> {
        if self.is_full() {
            self.id()
        } else {
            keyed(self.draws.prefix@, self.name)
        }
    }

    /// How often the share may be downloaded.
    pub open spec fn downloads(self) -> u32 {
        match self.args.downloads {
            Some(n) => n,
            None => 100,
        }
    }

    /// When the share expires.
    pub open spec fn expires_at(self) -> nat {
        (self.now + self.ttl.secs) as nat
    }

    /// What is sealed for the link.
    pub open spec fn metadata(self) -> Json {
        Json::nothing().with("name"@, Json::Text(self.name)).with(
            "from"@,
            Json::Text(
                match self.args.from {
                    Some(s) => s,
                    None => ""@,
                },
            ),
        ).with(
            "msg"@,
            Json::Text(
                match self.args.message {
                    Some(s) => s,
                    None => ""@,
                },
            ),
        )
    }

    /// The policy that is registered.
    pub open spec fn policy(self) -> PolicyView {
        PolicyView {
            id: self.id(),
            s3_key: self.id(),
            downloads: self.downloads() as nat,
            expires_at: self.expires_at(),
            created_at: self.now as nat,
            size: self.size as nat,
            pin_hash: self.pin_hash,
        }
    }

    /// What is written down locally.
    pub open spec fn record(self) -> RecordView {
        RecordView {
            id: self.id(),
            name: self.name,
            from: self.args.from,
            created_at: self.now,
            expires_at: self.expires_at() as u64,
            downloads: self.downloads(),
        }
    }

    /// What was fetched is complete enough for the stage: a configuration from
    /// the moment on that one was found, in each tier's stages one of that tier,
    /// and a PIN to derive from.
    pub open spec fn ready_for(self, stage: ShareStage) -> bool {
        match stage {
            ShareStage::Config => true,
            ShareStage::Full(at) => {
                &&& self.is_full()
                &&& at == FullShareStage::Derive ==> self.args.pin is Some
                &&& at == FullShareStage::Register || at == FullShareStage::Record
                    ==> self.expires_at() <= u64::MAX
            },
            ShareStage::Encrypt => self.config is Some && !self.is_full(),
            ShareStage::Upload => self.config is Some && !self.is_full(),
            ShareStage::Sign => self.config is Some && !self.is_full(),
            _ => self.config is Some,
        }
    }

    /// The registration of the policy. Where there is no table to register it in, the
    /// step begins and then fails.
    pub open spec fn register_script(self) -> ScriptView {
        match self.config->0.table {
            Some(table) => ScriptView::nothing().step(
                "registering policy"@,
                self.policy().call(table),
            ),
            None => ScriptView::nothing().begin("registering policy"@),
        }
    }

    /// What is to be done at each stage.
    pub open spec fn act(self, stage: ShareStage) -> ShareActView {
        match stage {
            ShareStage::Config => ShareActView::LoadConfig,
            ShareStage::Store => ShareActView::OpenStore,
            ShareStage::Source => ShareActView::Prepare,
            ShareStage::Encrypt => ShareActView::Encrypt(self.content_key),
            ShareStage::Upload => ShareActView::Upload(self.object_key()),
            ShareStage::Sign => ShareActView::Sign { key: self.object_key(), ttl: self.ttl },
            ShareStage::Full(FullShareStage::Derive) => ShareActView::Derive {
                pin: self.pin()->0,
                secret: self.draws.secret,
                id: self.id(),
            },
            ShareStage::Full(FullShareStage::Encrypt) => ShareActView::Encrypt(self.content_key),
            ShareStage::Full(FullShareStage::Upload) => ShareActView::Upload(self.object_key()),
            ShareStage::Full(FullShareStage::Seal) => ShareActView::Seal {
                secret: self.draws.secret,
                text: json_written(self.metadata()),
            },
            ShareStage::Full(FullShareStage::Register) => ShareActView::Walk(
                self.register_script(),
            ),
            ShareStage::Full(FullShareStage::Record) => ShareActView::Record(self.record()),
            ShareStage::Done => ShareActView::Finished,
        }
    }

    /// Where an event leads from a stage, up to where the tiers part.
    pub open spec fn after(self, stage: ShareStage, event: ShareEventView) -> Result<
        (ShareFactsView, ShareStage),
        Seq<char>,
    > {
        match stage {
            ShareStage::Config => match event->Config_0 {
                Err(why) => Err(why),
                Ok(config) => if self.args.pin is Some && !config.is_full() {
                    Err(
                        "--pin is a full-tier feature: it's checked at the "@
                            + "gate, which the simple tier doesn't have. Provision it with `dove provision full`."@,
                    )
                } else if (self.args.from is Some || self.args.message is Some)
                    && !config.is_full() {
                    Err(
                        "--from/--message ride an encrypted metadata blob in the full-tier link. Provision it with `dove provision full`."@,
                    )
                } else {
                    Ok((ShareFactsView { config: Some(config), ..self }, ShareStage::Store))
                },
            },
            ShareStage::Store => match event->Opened_0 {
                Err(why) => Err(why),
                Ok(_) => Ok((self, ShareStage::Source)),
            },
            ShareStage::Source => match event->Prepared_0 {
                Err(why) => Err(why),
                Ok(name) => {
                    let next = ShareFactsView { name, ..self };
                    if self.is_full() {
                        Ok(
                            (
                                next,
                                ShareStage::Full(
                                    if self.args.pin is Some {
                                        FullShareStage::Derive
                                    } else {
                                        FullShareStage::Encrypt
                                    },
                                ),
                            ),
                        )
                    } else if !self.short_enough() {
                        Err(
                            "--expires "@ + self.args.expires
                                + " is over the 7-day limit for the simple tier's presigned links.\nUse 7d or less. Longer-lived shares and download limits are the full tier — provision it with `dove provision full`."@,
                        )
                    } else if self.args.encrypt {
                        Ok((next, ShareStage::Encrypt))
                    } else {
                        Ok((next, ShareStage::Upload))
                    }
                },
            },
            ShareStage::Encrypt => match event->Encrypted_0 {
                Err(why) => Err(why),
                Ok(_) => Ok((self, ShareStage::Upload)),
            },
            ShareStage::Upload => match event->Uploaded_0 {
                Err(why) => Err(why),
                Ok(size) => Ok((ShareFactsView { size, ..self }, ShareStage::Sign)),
            },
            ShareStage::Sign => Ok(
                (ShareFactsView { url: event->Signed_0, ..self }, ShareStage::Done),
            ),
            ShareStage::Full(at) => self.after_full(at, event),
            ShareStage::Done => Ok((self, ShareStage::Done)),
        }
    }

    /// A presigned link can live as long as is asked for.
    pub open spec fn short_enough(self) -> bool {
        self.ttl.secs < PRESIGN_MAX || (self.ttl.secs == PRESIGN_MAX && self.ttl.nanos == 0)
    }

    /// Where an event leads from a stage in the full tier.
    pub open spec fn after_full(self, stage: FullShareStage, event: ShareEventView) -> Result<
        (ShareFactsView, ShareStage),
        Seq<char>,
    > {
        match stage {
            FullShareStage::Derive => Ok(
                (
                    ShareFactsView {
                        content_key: event->key,
                        pin_hash: Some(event->pin_hash),
                        ..self
                    },
                    ShareStage::Full(FullShareStage::Encrypt),
                ),
            ),
            FullShareStage::Encrypt => match event->Encrypted_0 {
                Err(why) => Err(why),
                Ok(_) => Ok((self, ShareStage::Full(FullShareStage::Upload))),
            },
            FullShareStage::Upload => match event->Uploaded_0 {
                Err(why) => Err(why),
                Ok(size) => Ok(
                    (
                        ShareFactsView { size, ..self },
                        ShareStage::Full(FullShareStage::Seal),
                    ),
                ),
            },
            FullShareStage::Seal => Ok(
                (
                    ShareFactsView { meta: event->meta, now: event->now, ..self },
                    ShareStage::Full(FullShareStage::Register),
                ),
            ),
            FullShareStage::Register => match self.register_script().objection(event->Replied_0) {
                Some(why) => Err(why),
                None => if self.config->0.table is None {
                    Err("no table in config"@)
                } else {
                    Ok((self, ShareStage::Full(FullShareStage::Record)))
                },
            },
            FullShareStage::Record => Ok((self, ShareStage::Done)),
        }
    }

    /// The event answers what the stage asks for. The expiry is a time that there
    /// are numbers for.
    pub open spec fn fits(self, stage: ShareStage, event: ShareEventView) -> bool {
        match stage {
            ShareStage::Config => event is Config,
            ShareStage::Store => event is Opened,
            ShareStage::Source => event is Prepared,
            ShareStage::Encrypt => event is Encrypted,
            ShareStage::Upload => event is Uploaded,
            ShareStage::Sign => event is Signed,
            ShareStage::Full(FullShareStage::Derive) => event is Derived,
            ShareStage::Full(FullShareStage::Encrypt) => event is Encrypted,
            ShareStage::Full(FullShareStage::Upload) => event is Uploaded,
            ShareStage::Full(FullShareStage::Seal) => event is Sealed && event->now + self.ttl.secs
                <= u64::MAX,
            ShareStage::Full(FullShareStage::Register) => event is Replied,
            ShareStage::Full(FullShareStage::Record) => event is Recorded,
            ShareStage::Done => false,
        }
    }

    /// The link. In the full tier it leads to the access gate, with the secret and the
    /// sealed metadata in the fragment, which no server sees; in the simple tier
    /// it is the presigned URL, with the key in the fragment where it is
    /// encrypted.
    pub open spec fn link(self) -> Seq<char> {
        if self.is_full() {
            self.config->0.gate_url->0 + "/d/"@ + self.id() + "#"@ + base64url(self.draws.secret@)
                + "."@ + self.meta
        } else if self.args.encrypt {
            self.url + "#"@ + base64url(self.content_key@)
        } else {
            self.url
        }
    }

    /// The link of the full tier up to the sealed metadata.
    pub open spec fn link_head(self) -> Seq<char> {
        self.config->0.gate_url->0 + "/d/"@ + self.id() + "#"@ + base64url(self.draws.secret@) + "."@
    }

    /// The line under the link.
    pub open spec fn note(self) -> Seq<char> {
        if self.is_full() {
            "expires in "@ + in_words(self.ttl.secs as nat) + " · "@ + decimal(
                self.downloads() as nat,
            ) + " download"@ + (if self.downloads() == 1 {
                ""@
            } else {
                "s"@
            })
        } else {
            "expires in "@ + in_words(self.ttl.secs as nat)
        }
    }
}

/// Starts a share: what is known at first, or what is wrong with the duration.
pub fn start(args: ShareArgs, draws: Draws) -> (r: Result<ShareFacts, String>)
    ensures
        match r {
            Ok(facts) => {
                &&& secs_written(args.expires@) == Ok::<nat, DurationError>(
                    facts@.ttl.secs as nat,
                )
                &&& facts@ == ShareFactsView::of(
                    args@,
                    draws,
                    (Duration { secs: facts@.ttl.secs, nanos: 0 }),
                )
            },
            Err(why) => secs_written(args.expires@) is Err && why@ == complaint(
                secs_written(args.expires@)->Err_0,
                args.expires@,
            ),
        },
{
    match parse(args.expires.as_str()) {
        Ok(ttl) => Ok(
            ShareFacts {
                args,
                draws,
                ttl,
                config: None,
                name: String::new(),
                content_key: draws.secret,
                pin_hash: None,
                size: 0,
                now: 0,
                meta: String::new(),
                url: String::new(),
            },
        ),
        Err(e) => Err(e.message(args.expires.as_str())),
    }
}

fn copied(s: &Option<String>) -> (r: Option<String>)
    ensures
        maybe(r) == maybe(*s),
{
    match s {
        Some(s) => Some(s.clone()),
        None => None,
    }
}

impl ShareFacts {
    fn is_full(&self) -> (r: bool)
        ensures
            r == self@.is_full(),
    {
        match &self.config {
            Some(config) => config.is_full(),
            None => false,
        }
    }

    fn downloads(&self) -> (r: u32)
        ensures
            r == self@.downloads(),
    {
        match self.args.downloads {
            Some(n) => n,
            None => 100,
        }
    }

    fn object_key(&self) -> (r: String)
        ensures
            r@ == self@.object_key(),
    {
        if self.is_full() {
            hex_text(&self.draws.id)
        } else {
            key_under(&self.draws.prefix, self.name.as_str())
        }
    }

    /// The PIN, where there is one.
    pub fn pin(&self) -> (r: Option<String>)
        ensures
            maybe(r) == self@.pin(),
    {
        resolve_pin(&self.args.pin, &self.draws.pin)
    }

    fn metadata(&self) -> (r: String)
        ensures
            r@ == json_written(self@.metadata()),
    {
        let from = match &self.args.from {
            Some(s) => s.as_str(),
            None => "",
        };
        let message = match &self.args.message {
            Some(s) => s.as_str(),
            None => "",
        };
        let named = with(nothing(), "name", text(self.name.as_str()));
        to_text(&with(with(named, "from", text(from)), "msg", text(message)))
    }

    /// What to do at a stage.
    pub fn act(&self, stage: ShareStage) -> (r: ShareAct)
        requires
            self@.ready_for(stage),
        ensures
            r@ == self@.act(stage),
    {
        match stage {
            ShareStage::Config => ShareAct::LoadConfig,
            ShareStage::Store => ShareAct::OpenStore,
            ShareStage::Source => ShareAct::Prepare,
            ShareStage::Encrypt => ShareAct::Encrypt(self.content_key),
            ShareStage::Upload => ShareAct::Upload(self.object_key()),
            ShareStage::Sign => ShareAct::Sign { key: self.object_key(), ttl: self.ttl },
            ShareStage::Full(at) => self.act_full(at),
            ShareStage::Done => ShareAct::Finished,
        }
    }

    fn table(&self) -> (r: Option<String>)
        requires
            self@.config is Some,
        ensures
            maybe(r) == self@.config->0.table,
    {
        match &self.config {
            Some(config) => copied(&config.table),
            None => None,
        }
    }

    fn register_script(&self) -> (r: Script)
        requires
            self@.config is Some,
            self@.expires_at() <= u64::MAX,
        ensures
            r@ == self@.register_script(),
    {
        match self.table() {
            Some(table) => {
                let policy = Policy {
                    id: hex_text(&self.draws.id),
                    s3_key: hex_text(&self.draws.id),
                    downloads: self.downloads(),
                    expires_at: self.now + self.ttl.as_secs(),
                    created_at: self.now,
                    size: self.size,
                    pin_hash: copied(&self.pin_hash),
                };
                Script::nothing().step(
                    "registering policy",
                    put_policy_item(table.as_str(), &policy),
                )
            },
            None => Script::nothing().begin("registering policy"),
        }
    }

    fn act_full(&self, stage: FullShareStage) -> (r: ShareAct)
        requires
            self@.ready_for(ShareStage::Full(stage)),
        ensures
            r@ == self@.act(ShareStage::Full(stage)),
    {
        match stage {
            FullShareStage::Derive => {
                let pin = match self.pin() {
                    Some(pin) => pin,
                    None => String::new(),
                };
                ShareAct::Derive { pin, secret: self.draws.secret, id: hex_text(&self.draws.id) }
            },
            FullShareStage::Encrypt => ShareAct::Encrypt(self.content_key),
            FullShareStage::Upload => ShareAct::Upload(self.object_key()),
            FullShareStage::Seal => ShareAct::Seal {
                secret: self.draws.secret,
                text: self.metadata(),
            },
            FullShareStage::Register => ShareAct::Walk(self.register_script()),
            FullShareStage::Record => ShareAct::Record(
                ShareRecord {
                    id: hex_text(&self.draws.id),
                    name: self.name.clone(),
                    from: copied(&self.args.from),
                    created_at: self.now,
                    expires_at: self.now + self.ttl.as_secs(),
                    downloads: self.downloads(),
                },
            ),
        }
    }

    /// The link to show.
    pub fn link(&self) -> (r: String)
        requires
            self@.config is Some,
        ensures
            r@ == self@.link(),
    {
        if let Some(config) = &self.config {
            if let Some(gate) = &config.gate_url {
                return gate.clone().concat("/d/").concat(hex_text(&self.draws.id).as_str()).concat(
                    "#",
                ).concat(key_to_fragment(&self.draws.secret).as_str()).concat(".").concat(
                    self.meta.as_str(),
                );
            }
        }
        if self.args.encrypt {
            self.url.clone().concat("#").concat(key_to_fragment(&self.content_key).as_str())
        } else {
            self.url.clone()
        }
    }

    /// The line to show under the link.
    pub fn note(&self) -> (r: String)
        ensures
            r@ == self@.note(),
    {
        let lifetime = "expires in ".to_string().concat(human_long(self.ttl).as_str());
        if self.is_full() {
            let n = self.downloads();
            lifetime.concat(" · ").concat(decimal_text(n as u64).as_str()).concat(
                " download",
            ).concat(
                if n == 1 {
                    ""
                } else {
                    "s"
                },
            )
        } else {
            lifetime
        }
    }
}

/// Shares a file: the move from a stage that `event` answers. The first stage is
/// `Config`, and at `Done` the link can be shown. Whether the flags fit the tier
/// is found out before anything is zipped, encrypted or uploaded.
pub fn run(facts: &mut ShareFacts, stage: ShareStage, event: ShareEvent) -> (r: Result<
    ShareStage,
    String,
>)
    requires
        old(facts)@.fits(stage, event@),
        old(facts)@.ready_for(stage),
    ensures
        match r {
            Ok(next) => {
                &&& old(facts)@.after(stage, event@) == Ok::<
                    (ShareFactsView, ShareStage),
                    Seq<char>,
                >((final(facts)@, next))
                &&& final(facts)@.ready_for(next)
            },
            Err(why) => {
                &&& old(facts)@.after(stage, event@) == Err::<
                    (ShareFactsView, ShareStage),
                    Seq<char>,
                >(why@)
                &&& final(facts)@ == old(facts)@
            },
        },
{
    match stage {
        ShareStage::Config => match event {
            ShareEvent::Config(Ok(config)) => {
                if facts.args.pin.is_some() && !config.is_full() {
                    return Err(
                        "--pin is a full-tier feature: it's checked at the ".to_string().concat(
                            "gate, which the simple tier doesn't have. Provision it with `dove provision full`.",
                        ),
                    );
                }
                if (facts.args.from.is_some() || facts.args.message.is_some())
                    && !config.is_full() {
                    return Err(
                        "--from/--message ride an encrypted metadata blob in the full-tier link. Provision it with `dove provision full`.".to_string(),
                    );
                }
                facts.config = Some(config);
                Ok(ShareStage::Store)
            },
            ShareEvent::Config(Err(why)) => Err(why),
            _ => Ok(stage),
        },
        ShareStage::Store => match event {
            ShareEvent::Opened(Ok(_)) => Ok(ShareStage::Source),
            ShareEvent::Opened(Err(why)) => Err(why),
            _ => Ok(stage),
        },
        ShareStage::Source => match event {
            ShareEvent::Prepared(Ok(name)) => {
                if facts.is_full() {
                    facts.name = name;
                    return Ok(
                        ShareStage::Full(
                            if facts.args.pin.is_some() {
                                FullShareStage::Derive
                            } else {
                                FullShareStage::Encrypt
                            },
                        ),
                    );
                }
                if !within_presign_limit(facts.ttl) {
                    return Err(
                        "--expires ".to_string().concat(facts.args.expires.as_str()).concat(
                            " is over the 7-day limit for the simple tier's presigned links.\nUse 7d or less. Longer-lived shares and download limits are the full tier — provision it with `dove provision full`.",
                        ),
                    );
                }
                facts.name = name;
                if facts.args.encrypt {
                    Ok(ShareStage::Encrypt)
                } else {
                    Ok(ShareStage::Upload)
                }
            },
            ShareEvent::Prepared(Err(why)) => Err(why),
            _ => Ok(stage),
        },
        ShareStage::Encrypt => match event {
            ShareEvent::Encrypted(Ok(_)) => Ok(ShareStage::Upload),
            ShareEvent::Encrypted(Err(why)) => Err(why),
            _ => Ok(stage),
        },
        ShareStage::Upload => match event {
            ShareEvent::Uploaded(Ok(size)) => {
                facts.size = size;
                Ok(ShareStage::Sign)
            },
            ShareEvent::Uploaded(Err(why)) => Err(why),
            _ => Ok(stage),
        },
        ShareStage::Sign => match event {
            ShareEvent::Signed(url) => {
                facts.url = url;
                Ok(ShareStage::Done)
            },
            _ => Ok(stage),
        },
        ShareStage::Full(at) => share_full(facts, at, event),
        ShareStage::Done => Ok(stage),
    }
}

/// Shares a file in the full tier: always encrypted, under a key that rides the
/// link's fragment or is derived from it and a PIN; uploaded under a key that
/// holds no name; and registered before the link is shown.
pub fn share_full(facts: &mut ShareFacts, stage: FullShareStage, event: ShareEvent) -> (r: Result<
    ShareStage,
    String,
>)
    requires
        old(facts)@.fits(ShareStage::Full(stage), event@),
        old(facts)@.ready_for(ShareStage::Full(stage)),
    ensures
        match r {
            Ok(next) => {
                &&& old(facts)@.after_full(stage, event@) == Ok::<
                    (ShareFactsView, ShareStage),
                    Seq<char>,
                >((final(facts)@, next))
                &&& final(facts)@.ready_for(next)
            },
            Err(why) => {
                &&& old(facts)@.after_full(stage, event@) == Err::<
                    (ShareFactsView, ShareStage),
                    Seq<char>,
                >(why@)
                &&& final(facts)@ == old(facts)@
            },
        },
{
    match event {
        ShareEvent::Derived { key, pin_hash } => {
            facts.content_key = key;
            facts.pin_hash = Some(pin_hash);
            Ok(ShareStage::Full(FullShareStage::Encrypt))
        },
        ShareEvent::Encrypted(Ok(_)) => Ok(ShareStage::Full(FullShareStage::Upload)),
        ShareEvent::Encrypted(Err(why)) => Err(why),
        ShareEvent::Uploaded(Ok(size)) => {
            facts.size = size;
            Ok(ShareStage::Full(FullShareStage::Seal))
        },
        ShareEvent::Uploaded(Err(why)) => Err(why),
        ShareEvent::Sealed { meta, now } => {
            facts.meta = meta;
            facts.now = now;
            Ok(ShareStage::Full(FullShareStage::Register))
        },
        ShareEvent::Replied(reply) => match facts.register_script().object(&reply) {
            Some(why) => Err(why),
            None => match facts.table() {
                Some(_) => Ok(ShareStage::Full(FullShareStage::Record)),
                None => Err("no table in config".to_string()),
            },
        },
        _ => Ok(ShareStage::Done),
    }
}

// ── laws ──────────────────────────────────────────────────────────────────

/// The server learns neither the secret nor the name nor who sends it and what
/// they say: the key that is uploaded to and the policy that is registered are
/// the same whatever these are.
pub proof fn law_server_learns_nothing(a: ShareFactsView, b: ShareFactsView)
    requires
        a.is_full(),
        a.config == b.config,
        a.draws.id == b.draws.id,
        a.args.downloads == b.args.downloads,
        a.ttl == b.ttl,
        a.now == b.now,
        a.size == b.size,
        a.pin_hash == b.pin_hash,
    ensures
        a.object_key() == b.object_key(),
        a.policy() == b.policy(),
        a.act(ShareStage::Full(FullShareStage::Register)) == b.act(
            ShareStage::Full(FullShareStage::Register),
        ),
{
}

/// No link is shown before what it leads to is there: a run is done only once a
/// presigned link was signed after the upload, or once the policy was registered.
pub proof fn law_link_comes_last(facts: ShareFactsView, stage: ShareStage, event: ShareEventView)
    requires
        facts.fits(stage, event),
        facts.after(stage, event) is Ok,
    ensures
        ({
            let next = (facts.after(stage, event)->Ok_0).1;
            &&& next == ShareStage::Done ==> stage == ShareStage::Sign || stage == ShareStage::Full(
                FullShareStage::Record,
            )
            &&& next == ShareStage::Sign ==> stage == ShareStage::Upload && event->Uploaded_0 is Ok
            &&& next == ShareStage::Full(FullShareStage::Record) ==> stage == ShareStage::Full(
                FullShareStage::Register,
            ) && facts.config->0.table is Some && facts.register_script().objection(
                event->Replied_0,
            ) is None
            &&& next == ShareStage::Full(FullShareStage::Register) ==> stage == ShareStage::Full(
                FullShareStage::Seal,
            )
            &&& next == ShareStage::Full(FullShareStage::Seal) ==> stage == ShareStage::Full(
                FullShareStage::Upload,
            ) && event->Uploaded_0 is Ok
        }),
{
}

/// A registration that there is nothing against has passed: `aws` ran, and the policy
/// is in the table.
pub proof fn law_registered_means_passed(facts: ShareFactsView, reply: ReplyView)
    requires
        facts.config is Some,
        facts.config->0.table is Some,
        facts.register_script().objection(reply) is None,
    ensures
        facts.policy().call(facts.config->0.table->0).judged(0, reply) is Passed,
        reply.succeeded(),
{
    let script = facts.register_script();
    let shorter = ScriptView { items: script.items.drop_last() };
    let call = facts.policy().call(facts.config->0.table->0);
    assert(script.items.last() is End);
    assert(shorter.items.last() == ItemView::Run(call));
    reveal_with_fuel(ScriptView::last_call, 3);
    assert(script.last_call() == Some(call));
}

/// In the full tier nothing is uploaded that was not encrypted.
pub proof fn law_full_tier_encrypts(
    facts: ShareFactsView,
    stage: ShareStage,
    event: ShareEventView,
)
    requires
        facts.ready_for(stage),
        facts.fits(stage, event),
        facts.is_full(),
        facts.after(stage, event) is Ok,
        facts.act((facts.after(stage, event)->Ok_0).1) is Upload,
    ensures
        stage == ShareStage::Full(FullShareStage::Encrypt),
        event->Encrypted_0 is Ok,
{
}

/// The simple tier hands out no link that is to live longer than a presigned URL
/// can: past the preparation, the duration is at most seven days.
pub proof fn law_simple_links_are_short(facts: ShareFactsView, event: ShareEventView)
    requires
        facts.ready_for(ShareStage::Source),
        facts.fits(ShareStage::Source, event),
        !facts.is_full(),
        facts.after(ShareStage::Source, event) is Ok,
    ensures
        facts.ttl.secs <= PRESIGN_MAX,
{
}

/// A PIN, a sender and a message are refused outside the full tier, before
/// anything else is done.
pub proof fn law_gate_features_need_the_gate(facts: ShareFactsView, config: ConfigView)
    requires
        facts.args.pin is Some || facts.args.from is Some || facts.args.message is Some,
        !config.is_full(),
    ensures
        facts.after(ShareStage::Config, ShareEventView::Config(Ok(config))) is Err,
{
}

/// What of a link a server sees: all of it up to the fragment.
pub open spec fn public_part(facts: ShareFactsView) -> Seq<char> {
    if facts.is_full() {
        facts.config->0.gate_url->0 + "/d/"@ + facts.id() + "#"@
    } else if facts.args.encrypt {
        facts.url + "#"@
    } else {
        facts.url
    }
}

/// The key rides the fragment alone: a link starts with its public part, behind
/// which everything is fragment, and in the full tier that part is the same
/// whatever the secret, the PIN, the name and the metadata are.
pub proof fn law_key_rides_the_fragment(a: ShareFactsView, b: ShareFactsView)
    requires
        a.config == b.config,
        a.draws.id == b.draws.id,
    ensures
        public_part(a).is_prefix_of(a.link()),
        a.is_full() ==> public_part(a) == public_part(b) && a.link().skip(
            public_part(a).len() as int,
        ) == base64url(a.draws.secret@) + "."@ + a.meta,
{
    let p = public_part(a);
    if a.is_full() {
        let rest = base64url(a.draws.secret@) + "."@ + a.meta;
        assert(a.link() =~= p + rest);
        assert(a.link().skip(p.len() as int) =~= rest);
        assert(p =~= a.link().subrange(0, p.len() as int));
    } else if a.args.encrypt {
        assert(a.link() =~= p + base64url(a.content_key@));
        assert(p =~= a.link().subrange(0, p.len() as int));
    } else {
        assert(p =~= a.link().subrange(0, p.len() as int));
    }
}

/// A share so far: it goes on at a stage, or it stopped for a reason. What does
/// not answer the stage is none.
pub enum ShareCourse {
    At(ShareFactsView, ShareStage),
    Stopped(Seq<char>),
    Astray,
}

/// The share that events make, from the first stage on.
pub open spec fn share_course(facts: ShareFactsView, events: Seq<ShareEventView>) -> ShareCourse
    decreases events.len(),
{
    if events.len() == 0 {
        ShareCourse::At(facts, ShareStage::Config)
    } else {
        match share_course(facts, events.drop_last()) {
            ShareCourse::At(known, stage) => if !known.fits(stage, events.last()) {
                ShareCourse::Astray
            } else {
                match known.after(stage, events.last()) {
                    Ok((next, to)) => ShareCourse::At(next, to),
                    Err(why) => ShareCourse::Stopped(why),
                }
            },
            stopped => stopped,
        }
    }
}

/// The `i`-th event was an upload that succeeded.
pub open spec fn uploaded_at(events: Seq<ShareEventView>, i: int) -> bool {
    0 <= i < events.len() && (events[i] matches ShareEventView::Uploaded(result) && result is Ok)
}

/// The `i`-th event was an encryption that succeeded.
pub open spec fn encrypted_at(events: Seq<ShareEventView>, i: int) -> bool {
    0 <= i < events.len() && (events[i] matches ShareEventView::Encrypted(result) && result is Ok)
}

/// The `i`-th event was a reply that passed the policy's registration.
pub open spec fn registered_at(
    facts: ShareFactsView,
    events: Seq<ShareEventView>,
    i: int,
) -> bool {
    &&& 0 <= i < events.len()
    &&& share_course(facts, events.take(i)) matches ShareCourse::At(known, stage) && stage
        == ShareStage::Full(FullShareStage::Register) && known.config->0.table is Some && (
    events[i] matches ShareEventView::Replied(reply) && known.register_script().objection(
        reply,
    ) is None)
}

/// A stage behind the encryption, in the full tier.
pub open spec fn past_encryption(stage: ShareStage) -> bool {
    stage is Full && stage->Full_0 != FullShareStage::Derive && stage->Full_0
        != FullShareStage::Encrypt
}

/// A stage behind the upload.
pub open spec fn past_upload(stage: ShareStage) -> bool {
    stage == ShareStage::Sign || stage == ShareStage::Done || (past_encryption(stage)
        && stage->Full_0 != FullShareStage::Upload)
}

/// Every link that is shown leads to something: the share was uploaded; and in the
/// full tier it was encrypted before that, and its policy was registered.
pub proof fn law_shown_links_lead_somewhere(facts: ShareFactsView, events: Seq<ShareEventView>)
    requires
        facts.config is None,
    ensures
        share_course(facts, events) matches ShareCourse::At(known, stage) ==> {
            &&& stage == ShareStage::Config || known.config is Some
            &&& stage is Full ==> known.is_full()
            &&& stage == ShareStage::Encrypt || stage == ShareStage::Upload || stage
                == ShareStage::Sign ==> !known.is_full()
            &&& past_upload(stage) ==> exists|i: int| uploaded_at(events, i)
            &&& past_encryption(stage) || (stage == ShareStage::Done && known.is_full())
                ==> exists|i: int| encrypted_at(events, i)
            &&& stage == ShareStage::Full(FullShareStage::Record) || (stage == ShareStage::Done
                && known.is_full()) ==> exists|i: int| registered_at(facts, events, i)
        },
    decreases events.len(),
{
    if events.len() > 0 {
        let earlier = events.drop_last();
        law_shown_links_lead_somewhere(facts, earlier);
        if let ShareCourse::At(known, stage) = share_course(facts, earlier) {
            let n = events.len() - 1;
            assert(events.take(n) =~= earlier);
            assert(events[n] == events.last());
            if events.last() is Uploaded && events.last()->Uploaded_0 is Ok {
                assert(uploaded_at(events, n));
            }
            if events.last() is Encrypted && events.last()->Encrypted_0 is Ok {
                assert(encrypted_at(events, n));
            }
            if stage == ShareStage::Full(FullShareStage::Register) && share_course(
                facts,
                events,
            ) is At {
                assert(registered_at(facts, events, n));
            }
            if exists|i: int| uploaded_at(earlier, i) {
                let i = choose|i: int| uploaded_at(earlier, i);
                assert(uploaded_at(events, i));
            }
            if exists|i: int| encrypted_at(earlier, i) {
                let i = choose|i: int| encrypted_at(earlier, i);
                assert(encrypted_at(events, i));
            }
            if exists|i: int| registered_at(facts, earlier, i) {
                let i = choose|i: int| registered_at(facts, earlier, i);
                assert(earlier.take(i) =~= events.take(i));
                assert(registered_at(facts, events, i));
            }
        }
    }
}

/// Shares of the full tier that differ in nothing but the name, who sends it, what
/// they say, and what these are sealed to.
pub open spec fn alike(a: ShareFactsView, b: ShareFactsView) -> bool {
    &&& b == (ShareFactsView {
        name: b.name,
        meta: b.meta,
        args: ShareArgsView { from: b.args.from, message: b.args.message, ..a.args },
        ..a
    })
    &&& a.config is Some ==> a.is_full()
}

/// Events of the full tier that differ in nothing but the name and what is sealed.
pub open spec fn events_alike(a: ShareEventView, b: ShareEventView) -> bool {
    match (a, b) {
        (ShareEventView::Config(Ok(x)), ShareEventView::Config(Ok(y))) => x == y && x.is_full(),
        (ShareEventView::Prepared(Ok(_)), ShareEventView::Prepared(Ok(_))) => true,
        (
            ShareEventView::Sealed { now: x, .. },
            ShareEventView::Sealed { now: y, .. },
        ) => x == y,
        _ => a == b,
    }
}

/// What leaves the machine does not depend on the name, on who sends it, or on what
/// they say: two shares of the full tier that differ in nothing else come through the
/// same stages, and all that is encrypted under, uploaded to and registered on the way
/// is the same. The name is only sealed for the link and written down locally, and
/// their links are the same up to what is sealed.
pub proof fn law_names_stay_at_home(
    a: ShareFactsView,
    b: ShareFactsView,
    of_a: Seq<ShareEventView>,
    of_b: Seq<ShareEventView>,
)
    requires
        a.config is None,
        alike(a, b),
        of_a.len() == of_b.len(),
        forall|i: int| 0 <= i < of_a.len() ==> events_alike(#[trigger] of_a[i], of_b[i]),
    ensures
        match (share_course(a, of_a), share_course(b, of_b)) {
            (ShareCourse::At(x, at), ShareCourse::At(y, to)) => {
                &&& at == to
                &&& alike(x, y)
                &&& at != ShareStage::Config ==> x.config is Some
                &&& at != ShareStage::Full(FullShareStage::Seal) && at != ShareStage::Full(
                    FullShareStage::Record,
                ) ==> x.act(at) == y.act(at)
                &&& x.config is Some ==> x.link_head() == y.link_head() && x.link() == x.link_head()
                    + x.meta && y.link() == y.link_head() + y.meta
            },
            (ShareCourse::Stopped(x), ShareCourse::Stopped(y)) => x == y,
            (ShareCourse::Astray, ShareCourse::Astray) => true,
            _ => false,
        },
    decreases of_a.len(),
{
    if of_a.len() > 0 {
        let (ea, eb) = (of_a.drop_last(), of_b.drop_last());
        assert forall|i: int| 0 <= i < ea.len() implies events_alike(#[trigger] ea[i], eb[i]) by {
            assert(events_alike(of_a[i], of_b[i]));
        }
        law_names_stay_at_home(a, b, ea, eb);
        assert(events_alike(of_a[of_a.len() - 1], of_b[of_a.len() - 1]));
    }
}

/// What is asked for once these many of the events have happened.
pub open spec fn asked(
    facts: ShareFactsView,
    events: Seq<ShareEventView>,
    i: int,
) -> Option<ShareActView> {
    match share_course(facts, events.take(i)) {
        ShareCourse::At(known, stage) => Some(known.act(stage)),
        _ => None,
    }
}

/// What a share knows is what it was asked for, what was drawn, and what happened; and
/// the stage that it stands at is the one behind these many events.
spec fn grown(
    start: ShareFactsView,
    events: Seq<ShareEventView>,
    known: ShareFactsView,
    stage: ShareStage,
) -> bool {
    let n = events.len();
    let e: int = if start.args.encrypt {
        1
    } else {
        0
    };
    let p: int = if start.args.pin is Some {
        1
    } else {
        0
    };
    &&& known.args == start.args
    &&& known.draws == start.draws
    &&& known.ttl == start.ttl
    &&& n == 0 ==> known.config is None
    &&& n > 0 ==> known.config is Some && events[0] == ShareEventView::Config(
        Ok(known.config->0),
    )
    &&& n > 2 ==> events[2] == ShareEventView::Prepared(Ok(known.name))
    &&& stage == ShareStage::Config <==> n == 0
    &&& stage == ShareStage::Store <==> n == 1
    &&& stage == ShareStage::Source <==> n == 2
    &&& n > 2 && !known.is_full() ==> {
        &&& known.content_key == start.draws.secret
        &&& start.ttl.secs <= PRESIGN_MAX
        &&& n <= 5 + e
        &&& stage == ShareStage::Encrypt <==> n == 3 && e == 1
        &&& stage == ShareStage::Upload <==> n == 3 + e
        &&& stage == ShareStage::Sign <==> n == 4 + e
        &&& stage == ShareStage::Done <==> n == 5 + e
        &&& e == 1 && n > 3 ==> encrypted_at(events, 3)
        &&& n > 3 + e ==> events[3 + e] == ShareEventView::Uploaded(Ok(known.size))
        &&& n > 4 + e ==> events[4 + e] == ShareEventView::Signed(known.url)
    }
    &&& n > 2 && known.is_full() ==> {
        &&& n <= 8 + p
        &&& stage == ShareStage::Full(FullShareStage::Derive) <==> n == 3 && p == 1
        &&& stage == ShareStage::Full(FullShareStage::Encrypt) <==> n == 3 + p
        &&& stage == ShareStage::Full(FullShareStage::Upload) <==> n == 4 + p
        &&& stage == ShareStage::Full(FullShareStage::Seal) <==> n == 5 + p
        &&& stage == ShareStage::Full(FullShareStage::Register) <==> n == 6 + p
        &&& stage == ShareStage::Full(FullShareStage::Record) <==> n == 7 + p
        &&& stage == ShareStage::Done <==> n == 8 + p
        &&& p == 0 ==> known.content_key == start.draws.secret && known.pin_hash is None
        &&& p == 1 && n > 3 ==> known.pin_hash is Some && events[3] == (ShareEventView::Derived {
            key: known.content_key,
            pin_hash: known.pin_hash->0,
        })
        &&& n > 3 + p ==> encrypted_at(events, 3 + p)
        &&& n > 4 + p ==> events[4 + p] == ShareEventView::Uploaded(Ok(known.size))
        &&& n > 5 + p ==> events[5 + p] == (ShareEventView::Sealed {
            meta: known.meta,
            now: known.now,
        })
    }
    &&& n <= 2 ==> known.content_key == start.draws.secret && known.pin_hash is None
}

proof fn lemma_grown(
    args: ShareArgsView,
    draws: Draws,
    ttl: Duration,
    events: Seq<ShareEventView>,
)
    ensures
        ({
            let start = ShareFactsView::of(args, draws, ttl);
            share_course(start, events) matches ShareCourse::At(known, stage) ==> grown(
                start,
                events,
                known,
                stage,
            )
        }),
    decreases events.len(),
{
    let start = ShareFactsView::of(args, draws, ttl);
    if events.len() > 0 {
        let earlier = events.drop_last();
        lemma_grown(args, draws, ttl, earlier);
        if let ShareCourse::At(known, stage) = share_course(start, earlier) {
            assert forall|i: int| 0 <= i < earlier.len() implies earlier[i] == events[i] by {}
            assert(events[events.len() - 1] == events.last());
            if let ShareCourse::At(next, to) = share_course(start, events) {
                assert(known.after(stage, events.last()) == Ok::<
                    (ShareFactsView, ShareStage),
                    Seq<char>,
                >((next, to)));
                assert(known.fits(stage, events.last()));
            }
        }
    }
}

proof fn lemma_came(facts: ShareFactsView, events: Seq<ShareEventView>, i: int)
    requires
        share_course(facts, events) is At,
        0 <= i <= events.len(),
    ensures
        share_course(facts, events.take(i)) is At,
    decreases events.len(),
{
    if i < events.len() {
        lemma_came(facts, events.drop_last(), i);
        assert(events.drop_last().take(i) =~= events.take(i));
    } else {
        assert(events.take(i) =~= events);
    }
}

/// A share of the simple tier delivers the file. What the link was signed for, and for
/// how long, is what was uploaded and how long was asked for, under the name of the
/// file. It is encrypted if and only if that was asked for, and then the link's
/// fragment is the key that it was encrypted under.
pub proof fn law_simple_share_delivers(
    args: ShareArgsView,
    draws: Draws,
    ttl: Duration,
    events: Seq<ShareEventView>,
    known: ShareFactsView,
)
    requires
        share_course(ShareFactsView::of(args, draws, ttl), events) == ShareCourse::At(
            known,
            ShareStage::Done,
        ),
        !known.is_full(),
    ensures
        ({
            let start = ShareFactsView::of(args, draws, ttl);
            let sent: int = if args.encrypt {
                4
            } else {
                3
            };
            let key = asked(start, events, sent)->0->Upload_0;
            let name = events[2]->Prepared_0->Ok_0;
            let url = events[sent + 1]->Signed_0;
            let under = asked(start, events, 3)->0->Encrypt_0;
            &&& args.encrypt <==> exists|i: int| encrypted_at(events, i)
            &&& args.encrypt ==> {
                &&& asked(start, events, 3) == Some(ShareActView::Encrypt(under))
                &&& encrypted_at(events, 3)
                &&& known.link() == url + "#"@ + base64url(under@)
                &&& fragment_key(base64url(under@)) == Ok::<Seq<u8>, CryptoError>(under@)
            }
            &&& !args.encrypt ==> known.link() == url
            &&& asked(start, events, sent) == Some(ShareActView::Upload(key))
            &&& uploaded_at(events, sent)
            &&& asked(start, events, sent + 1) == Some(ShareActView::Sign { key, ttl })
            &&& events == events.take(sent + 1).push(ShareEventView::Signed(url))
            &&& events[2] == ShareEventView::Prepared(Ok(name))
            &&& key.len() == 9 + name.len() && key[8] == '/' && key.skip(9) == name
            &&& key.take(8) == hex(draws.prefix@)
            &&& known.note() == "expires in "@ + in_words(ttl.secs as nat)
        }),
{
    let start = ShareFactsView::of(args, draws, ttl);
    lemma_grown(args, draws, ttl, events);
    let e: int = if args.encrypt {
        1
    } else {
        0
    };
    let sent = 3 + e;
    lemma_step(args, draws, ttl, events, 3);
    lemma_step(args, draws, ttl, events, sent);
    lemma_step(args, draws, ttl, events, sent + 1);
    law_share_key_keeps_the_name(draws.prefix@, known.name);
    lemma_hex_shape(draws.prefix@);
    assert(keyed(draws.prefix@, known.name).take(8) =~= hex(draws.prefix@));
    law_fragment_round_trip(draws.secret@);
    assert(events =~= events.take(sent + 1).push(events[sent + 1]));
    if args.encrypt {
        assert(encrypted_at(events, 3));
    } else {
        assert(events[0] is Config && events[2] is Prepared && events[3] is Uploaded
            && events[4] is Signed);
        lemma_step(args, draws, ttl, events, 1);
        assert(events[1] is Opened);
        assert forall|i: int| !encrypted_at(events, i) by {}
    }
}

/// A share of the full tier can be opened by whoever has the link, and the PIN if it
/// has one. The link leads to the object that was uploaded, and carries the secret. Of a
/// share without a PIN that is the key that it was encrypted under; of one with a PIN,
/// the key is what was derived from the two. The name, the sender and the message are
/// sealed under the secret, and what they were sealed to stands behind it in the link.
pub proof fn law_full_share_opens(
    args: ShareArgsView,
    draws: Draws,
    ttl: Duration,
    events: Seq<ShareEventView>,
    known: ShareFactsView,
)
    requires
        share_course(ShareFactsView::of(args, draws, ttl), events) == ShareCourse::At(
            known,
            ShareStage::Done,
        ),
        known.is_full(),
    ensures
        ({
            let start = ShareFactsView::of(args, draws, ttl);
            let p: int = if args.pin is Some {
                1
            } else {
                0
            };
            let config = events[0]->Config_0->Ok_0;
            let name = events[2]->Prepared_0->Ok_0;
            let under = asked(start, events, 3 + p)->0->Encrypt_0;
            let key = asked(start, events, 4 + p)->0->Upload_0;
            let meta = events[5 + p]->meta;
            let secret = draws.secret;
            let sealed = Json::nothing().with("name"@, Json::Text(name)).with(
                "from"@,
                Json::Text(or_nothing(args.from)),
            ).with("msg"@, Json::Text(or_nothing(args.message)));
            &&& events[0] == ShareEventView::Config(Ok(config)) && config.gate_url is Some
            &&& events[2] == ShareEventView::Prepared(Ok(name))
            &&& asked(start, events, 3 + p) == Some(ShareActView::Encrypt(under))
            &&& encrypted_at(events, 3 + p)
            &&& asked(start, events, 4 + p) == Some(ShareActView::Upload(key))
            &&& uploaded_at(events, 4 + p)
            &&& known.link() == config.gate_url->0 + "/d/"@ + key + "#"@ + base64url(secret@) + "."@
                + meta
            &&& fragment_key(base64url(secret@)) == Ok::<Seq<u8>, CryptoError>(secret@)
            &&& args.pin is None ==> under == secret
            &&& args.pin matches Some(pin) ==> {
                &&& events[3] is Derived && events[3]->key == under
                &&& asked(start, events, 3) == Some(
                    ShareActView::Derive {
                        pin: if trimmed(pin).len() == 0 {
                            pin_text(draws.pin@)
                        } else {
                            trimmed(pin)
                        },
                        secret,
                        id: key,
                    },
                )
            }
            &&& asked(start, events, 5 + p) == Some(
                ShareActView::Seal { secret, text: json_written(sealed) },
            )
        }),
{
    let start = ShareFactsView::of(args, draws, ttl);
    lemma_grown(args, draws, ttl, events);
    let p: int = if args.pin is Some {
        1
    } else {
        0
    };
    lemma_step(args, draws, ttl, events, 3);
    lemma_step(args, draws, ttl, events, 3 + p);
    lemma_step(args, draws, ttl, events, 4 + p);
    lemma_step(args, draws, ttl, events, 5 + p);
    law_fragment_round_trip(draws.secret@);
}

/// The text, or none.
pub open spec fn or_nothing(text: Option<Seq<char>>) -> Seq<char> {
    match text {
        Some(s) => s,
        None => ""@,
    }
}

/// An item of the table says this of a share: where it is, until when and how often it
/// may be downloaded, and, where it has a PIN, that PIN's hash, and that nobody guessed
/// wrong yet.
pub open spec fn policy_says(
    item: Json,
    key: Seq<char>,
    expires_at: nat,
    created_at: nat,
    downloads: nat,
    size: nat,
    pin_hash: Option<Seq<char>>,
) -> bool {
    &&& item.inner_text("id"@, "S"@) == Some(key)
    &&& item.inner_text("s3_key"@, "S"@) == Some(key)
    &&& item.inner_text("expires_at"@, "N"@) == Some(decimal(expires_at))
    &&& item.inner_text("created_at"@, "N"@) == Some(decimal(created_at))
    &&& item.inner_text("downloads_remaining"@, "N"@) == Some(decimal(downloads))
    &&& item.inner_text("downloads_total"@, "N"@) == Some(decimal(downloads))
    &&& item.inner_text("size"@, "N"@) == Some(decimal(size))
    &&& item.inner_text("pin_hash"@, "S"@) == pin_hash
    &&& item.get("pin_hash"@) is Some <==> pin_hash is Some
    &&& item.get("pin_attempts"@) is Some <==> pin_hash is Some
    &&& pin_hash is Some ==> item.inner_text("pin_attempts"@, "N"@) == Some(decimal(0))
}

/// The policy that is registered is that of the share: before the link is shown, the
/// table of the configuration has an item under the id that the link leads to, for the
/// object that was uploaded. It expires as long after its registration as was asked
/// for, allows as many downloads as were asked for, a hundred where none were, and
/// demands a PIN, of the hash that was derived, if and only if the share has one. What
/// is shown and what is written down say the same.
pub proof fn law_full_share_is_registered(
    args: ShareArgsView,
    draws: Draws,
    ttl: Duration,
    events: Seq<ShareEventView>,
    known: ShareFactsView,
)
    requires
        share_course(ShareFactsView::of(args, draws, ttl), events) == ShareCourse::At(
            known,
            ShareStage::Done,
        ),
        known.is_full(),
    ensures
        ({
            let start = ShareFactsView::of(args, draws, ttl);
            let p: int = if args.pin is Some {
                1
            } else {
                0
            };
            let config = events[0]->Config_0->Ok_0;
            let key = asked(start, events, 4 + p)->0->Upload_0;
            let now = events[5 + p]->now;
            let downloads = match args.downloads {
                Some(n) => n,
                None => 100u32,
            };
            let script = asked(start, events, 6 + p)->0->Walk_0;
            let put = script.call_of("dynamodb"@, "put-item"@);
            let record = asked(start, events, 7 + p)->0->Record_0;
            &&& config.table is Some
            &&& asked(start, events, 6 + p) == Some(ShareActView::Walk(script))
            &&& script.asks("dynamodb"@, "put-item"@)
            &&& events[6 + p] is Replied && (events[6 + p]->Replied_0).succeeded()
            &&& put.gives("--table-name"@, config.table->0)
            &&& exists|item: Json|
                put.gives("--item"@, #[trigger] json_written(item)) && policy_says(
                    item,
                    key,
                    (now + ttl.secs) as nat,
                    now as nat,
                    downloads as nat,
                    events[4 + p]->Uploaded_0->Ok_0 as nat,
                    if args.pin is Some {
                        Some(events[3]->pin_hash)
                    } else {
                        None
                    },
                )
            &&& asked(start, events, 7 + p) == Some(ShareActView::Record(record))
            &&& record.id == key
            &&& record.name == events[2]->Prepared_0->Ok_0
            &&& record.from == args.from
            &&& record.created_at == now
            &&& record.expires_at == now + ttl.secs
            &&& record.downloads == downloads
            &&& known.note() == "expires in "@ + in_words(ttl.secs as nat) + " · "@ + counted(
                downloads as nat,
                "download"@,
            )
        }),
{
    let start = ShareFactsView::of(args, draws, ttl);
    lemma_grown(args, draws, ttl, events);
    let p: int = if args.pin is Some {
        1
    } else {
        0
    };
    lemma_step(args, draws, ttl, events, 4 + p);
    lemma_step(args, draws, ttl, events, 5 + p);
    lemma_step(args, draws, ttl, events, 6 + p);
    lemma_step(args, draws, ttl, events, 7 + p);
    lemma_item(known.policy());
    let script = known.register_script();
    if let ShareCourse::At(there, stage) = share_course(start, events.take(6 + p)) {
        assert(there.policy() == known.policy());
        assert(there.register_script() == script);
        assert(events.take(7 + p).drop_last() =~= events.take(6 + p));
        assert(events.take(7 + p).last() == events[6 + p]);
        law_registered_means_passed(there, events[6 + p]->Replied_0);
    }
    let put = known.policy().call(known.config->0.table->0);
    assert(script.items[1] == ItemView::Run(put));
    lemma_sole(script, "dynamodb"@, "put-item"@, 1);
    assert(given_at(put.words, 2, "--table-name"@, known.config->0.table->0));
    assert(given_at(put.words, 4, "--item"@, json_written(known.policy().item())));
    let d = known.downloads() as nat;
    assert(known.note() =~= "expires in "@ + in_words(ttl.secs as nat) + " · "@ + counted(
        d,
        "download"@,
    )) by {
        reveal_strlit("");
        reveal_strlit("s");
        reveal_strlit(" ");
        reveal_strlit("download");
        reveal_strlit(" download");
    }
}

/// A share stops only for a reason: something that was asked for failed, or the policy
/// has no table to go into; or, in the simple tier, it was to have a PIN, a sender or a
/// message, or to live for more than seven days.
pub proof fn law_shares_stop_for_a_reason(
    args: ShareArgsView,
    draws: Draws,
    ttl: Duration,
    events: Seq<ShareEventView>,
    why: Seq<char>,
)
    requires
        events.len() > 0,
        share_course(ShareFactsView::of(args, draws, ttl), events.drop_last()) is At,
        share_course(ShareFactsView::of(args, draws, ttl), events) == ShareCourse::Stopped(why),
    ensures
        ({
            let full = events[0] matches ShareEventView::Config(Ok(config)) && config.gate_url is Some;
            let table = (events[0]->Config_0->Ok_0).table;
            match events.last() {
                ShareEventView::Config(Ok(_)) => !full && (args.pin is Some || args.from is Some
                    || args.message is Some),
                ShareEventView::Config(Err(said)) => why == said,
                ShareEventView::Opened(result) => result is Err && why == result->Err_0,
                ShareEventView::Prepared(Ok(_)) => !full && (ttl.secs > 7 * 24 * 60 * 60 || (ttl.secs
                    == 7 * 24 * 60 * 60 && ttl.nanos > 0)),
                ShareEventView::Prepared(Err(said)) => why == said,
                ShareEventView::Encrypted(result) => result is Err && why == result->Err_0,
                ShareEventView::Uploaded(result) => result is Err && why == result->Err_0,
                ShareEventView::Replied(reply) => full && (table is None || !reply.succeeded()),
                _ => false,
            }
        }),
{
    let start = ShareFactsView::of(args, draws, ttl);
    let earlier = events.drop_last();
    lemma_grown(args, draws, ttl, earlier);
    if let ShareCourse::At(known, stage) = share_course(start, earlier) {
        assert(known.fits(stage, events.last()));
        if earlier.len() > 0 {
            assert(earlier[0] == events[0]);
        } else {
            assert(events.last() == events[0]);
        }
        if let ShareEventView::Replied(reply) = events.last() {
            if known.config->0.table is Some && reply.succeeded() {
                let script = known.register_script();
                let shorter = ScriptView { items: script.items.drop_last() };
                let call = known.policy().call(known.config->0.table->0);
                assert(script.items.last() is End);
                assert(shorter.items.last() == ItemView::Run(call));
                reveal_with_fuel(ScriptView::last_call, 3);
                assert(script.last_call() == Some(call));
            }
        }
    }
}

/// Where a share stood once these many of the events had happened.
proof fn lemma_step(
    args: ShareArgsView,
    draws: Draws,
    ttl: Duration,
    events: Seq<ShareEventView>,
    i: int,
)
    requires
        share_course(ShareFactsView::of(args, draws, ttl), events) is At,
        0 <= i <= events.len(),
    ensures
        ({
            let start = ShareFactsView::of(args, draws, ttl);
            share_course(start, events.take(i)) matches ShareCourse::At(known, stage) && {
                &&& grown(start, events.take(i), known, stage)
                &&& asked(start, events, i) == Some(known.act(stage))
                &&& i < events.len() ==> known.fits(stage, events[i])
            }
        }),
{
    let start = ShareFactsView::of(args, draws, ttl);
    lemma_came(start, events, i);
    lemma_grown(args, draws, ttl, events.take(i));
    if i < events.len() {
        lemma_came(start, events, i + 1);
        assert(events.take(i + 1).drop_last() =~= events.take(i));
        assert(events.take(i + 1).last() == events[i]);
    }
}

/// What the attributes of a policy's item are, by their names.
proof fn lemma_item(policy: PolicyView)
    ensures
        policy.item().inner_text("id"@, "S"@) == Some(policy.id),
        policy.item().inner_text("s3_key"@, "S"@) == Some(policy.s3_key),
        policy.item().inner_text("downloads_remaining"@, "N"@) == Some(decimal(policy.downloads)),
        policy.item().inner_text("downloads_total"@, "N"@) == Some(decimal(policy.downloads)),
        policy.item().inner_text("expires_at"@, "N"@) == Some(decimal(policy.expires_at)),
        policy.item().inner_text("created_at"@, "N"@) == Some(decimal(policy.created_at)),
        policy.item().inner_text("size"@, "N"@) == Some(decimal(policy.size)),
        policy.item().inner_text("pin_hash"@, "S"@) == policy.pin_hash,
        policy.pin_hash is None ==> policy.item().get("pin_hash"@) is None
            && policy.item().get("pin_attempts"@) is None,
        policy.pin_hash is Some ==> policy.item().inner_text("pin_attempts"@, "N"@) == Some(
            decimal(0),
        ),
{
    reveal_strlit("id");
    reveal_strlit("s3_key");
    reveal_strlit("downloads_remaining");
    reveal_strlit("downloads_total");
    reveal_strlit("expires_at");
    reveal_strlit("created_at");
    reveal_strlit("size");
    reveal_strlit("pin_hash");
    reveal_strlit("pin_attempts");
    reveal_strlit("0");
    assert("id"@.len() == 2 && "s3_key"@.len() == 6 && "downloads_remaining"@.len() == 19
        && "downloads_total"@.len() == 15 && "size"@.len() == 4 && "pin_hash"@.len() == 8
        && "pin_attempts"@.len() == 12 && "expires_at"@.len() == 10 && "created_at"@.len() == 10);
    assert("expires_at"@[0] != "created_at"@[0]);
    assert(decimal(0) =~= "0"@) by {
        reveal_with_fuel(decimal, 2);
    }
}

/// Different random bytes make different ids.
pub proof fn law_ids_differ(a: Seq<u8>, b: Seq<u8>)
    requires
        a != b,
    ensures
        hex(a) != hex(b),
{
    if hex(a) == hex(b) {
        lemma_hex_injective(a, b);
    }
}

/// A share's key is eight hex digits, a slash, and the file's name as it is.
pub proof fn law_share_key_keeps_the_name(tag: Seq<u8>, filename: Seq<char>)
    requires
        tag.len() == 4,
    ensures
        keyed(tag, filename).len() == 9 + filename.len(),
        keyed(tag, filename).skip(9) == filename,
        keyed(tag, filename)[8] == '/',
        forall|i: int| 0 <= i < 8 ==> is_hex_digit(#[trigger] keyed(tag, filename)[i]),
{
    reveal_strlit("/");
    lemma_hex_shape(tag);
    assert(keyed(tag, filename).skip(9) =~= filename);
    assert forall|i: int| 0 <= i < 8 implies is_hex_digit(#[trigger] keyed(tag, filename)[i]) by {
        assert(keyed(tag, filename)[i] == hex(tag)[i]);
    }
}

proof fn lemma_decimal_len(n: nat, k: nat)
    requires
        n < pow10(k),
        k >= 1,
    ensures
        decimal(n).len() <= k,
    decreases k,
{
    reveal_with_fuel(pow10, 2);
    if n >= 10 {
        assert(k > 1);
        lemma_decimal_len(n / 10, (k - 1) as nat);
    }
}

/// Ten to the `k`-th.
pub open spec fn pow10(k: nat) -> nat
    decreases k,
{
    if k == 0 {
        1
    } else {
        10 * pow10((k - 1) as nat)
    }
}

/// A PIN that is made up has six digits.
pub proof fn law_pins_have_six_digits(bytes: Seq<u8>)
    requires
        bytes.len() == 4,
    ensures
        pin_text(bytes).len() == 6,
        forall|i: int| 0 <= i < 6 ==> crate::text::is_digit(#[trigger] pin_text(bytes)[i]),
{
    let n = le32(bytes) % 1_000_000;
    reveal_with_fuel(pow10, 7);
    assert(pow10(6) == 1_000_000);
    lemma_decimal_len(n, 6);
    lemma_decimal_shape(n);
    let front = zeros(6 - decimal(n).len());
    assert forall|i: int| 0 <= i < 6 implies crate::text::is_digit(
        #[trigger] pin_text(bytes)[i],
    ) by {
        if i >= front.len() {
            assert(pin_text(bytes)[i] == decimal(n)[i - front.len()]);
        }
    }
}

/// A share has a PIN if and only if one was asked for: the one that was given, without
/// the space around it, and one of six drawn digits where none was given.
pub proof fn law_pins_are_as_asked(pin: Option<Seq<char>>, bytes: Seq<u8>)
    requires
        bytes.len() == 4,
    ensures
        resolved_pin(pin, bytes) is Some <==> pin is Some,
        pin is Some && trimmed(pin->0).len() > 0 ==> resolved_pin(pin, bytes) == Some(
            trimmed(pin->0),
        ),
        pin is Some && trimmed(pin->0).len() == 0 ==> {
            &&& resolved_pin(pin, bytes)->0.len() == 6
            &&& forall|i: int| 0 <= i < 6 ==> is_digit(#[trigger] resolved_pin(pin, bytes)->0[i])
            &&& digits_value(resolved_pin(pin, bytes)->0) == le32(bytes) % 1_000_000
        },
{
    law_pins_have_six_digits(bytes);
    if pin is Some && trimmed(pin->0).len() == 0 {
        lemma_pin_value(bytes);
    }
}

/// Zeros in front do not change the number that digits write.
proof fn lemma_zeros_in_front(k: int, s: Seq<char>)
    ensures
        digits_value(zeros(k) + s) == digits_value(s),
    decreases k, s.len(),
{
    let all = zeros(k) + s;
    if s.len() > 0 {
        lemma_zeros_in_front(k, s.drop_last());
        assert(all.drop_last() =~= zeros(k) + s.drop_last());
    } else if k > 0 {
        lemma_zeros_in_front(k - 1, s);
        assert(all.drop_last() =~= zeros(k - 1) + s);
    } else {
        assert(all =~= s);
    }
}

/// A PIN that is made up writes the number that was drawn.
proof fn lemma_pin_value(bytes: Seq<u8>)
    ensures
        digits_value(pin_text(bytes)) == le32(bytes) % 1_000_000,
{
    let n = le32(bytes) % 1_000_000;
    lemma_decimal_shape(n);
    lemma_zeros_in_front(6 - decimal(n).len(), decimal(n));
}

/// A share is called what is shared: a file by its own name, a directory, which is
/// zipped, by its name and `.zip`. Nothing else is shared.
pub proof fn law_shares_are_called_what_is_shared(
    path: Seq<char>,
    kind: PathKind,
    last: Option<Seq<char>>,
)
    ensures
        upload_of(path, kind, last) is Ok <==> last is Some && !(kind is Other),
        upload_of(path, kind, last) is Ok ==> {
            let upload = upload_of(path, kind, last)->Ok_0;
            &&& upload.zipped <==> kind is Directory
            &&& last->0.is_prefix_of(upload.name)
            &&& upload.name.skip(last->0.len() as int) == if upload.zipped {
                ".zip"@
            } else {
                ""@
            }
        },
        upload_of(path, kind, last) is Err ==> has_text(upload_of(path, kind, last)->Err_0, path),
{
    reveal_strlit("");
    match upload_of(path, kind, last) {
        Ok(upload) => {
            let name = last->0;
            assert(name =~= upload.name.subrange(0, name.len() as int));
        },
        Err(why) => {
            let at: int = if kind is Other {
                "not a file or directory: "@.len() as int
            } else {
                0
            };
            assert(why.subrange(at, at + path.len()) =~= path);
            assert(stands_at(why, path, at));
        },
    }
}

/// A share begins as it was asked for, with what was drawn for it, if and only if the
/// duration is one: the secret that was drawn is what it would encrypt under at first.
pub proof fn law_shares_begin_as_asked(
    args: ShareArgs,
    draws: Draws,
    begun: Result<ShareFacts, String>,
)
    requires
        call_ensures(start, (args, draws), begun),
    ensures
        begun is Ok <==> secs_written(args.expires@) is Ok,
        begun matches Ok(facts) ==> {
            let ttl = facts@.ttl;
            &&& secs_written(args.expires@) == Ok::<nat, DurationError>(ttl.secs as nat)
            &&& ttl.nanos == 0
            &&& facts@.args == args@
            &&& facts@.draws == draws
            &&& facts@.content_key == draws.secret
            &&& facts@.pin_hash is None
            &&& share_course(facts@, Seq::empty()) == ShareCourse::At(
                ShareFactsView::of(args@, draws, ttl),
                ShareStage::Config,
            )
        },
{
}

/// What is run is the course of the share, event by event.
pub proof fn law_running_follows_the_course(
    first: ShareFactsView,
    events: Seq<ShareEventView>,
    facts: &mut ShareFacts,
    stage: ShareStage,
    event: ShareEvent,
    then: Result<ShareStage, String>,
)
    requires
        share_course(first, events) == ShareCourse::At(old(facts)@, stage),
        old(facts)@.fits(stage, event@),
        call_ensures(run, (facts, stage, event), then),
    ensures
        then matches Ok(next) ==> share_course(first, events.push(event@)) == ShareCourse::At(
            final(facts)@,
            next,
        ),
        then matches Err(why) ==> share_course(first, events.push(event@)) == ShareCourse::Stopped(
            why@,
        ) && final(facts)@ == old(facts)@,
{
    assert(events.push(event@).drop_last() =~= events);
}

/// What is done at a stage is what the course of the share asks for there, and what is
/// shown in the end is what is known then.
pub proof fn law_what_is_done_is_asked_for(
    first: ShareFactsView,
    events: Seq<ShareEventView>,
    facts: ShareFacts,
    stage: ShareStage,
    act: ShareAct,
    link: String,
    note: String,
)
    requires
        share_course(first, events) == ShareCourse::At(facts@, stage),
        call_ensures(ShareFacts::act, (&facts, stage), act),
        call_ensures(ShareFacts::link, (&facts,), link),
        call_ensures(ShareFacts::note, (&facts,), note),
    ensures
        asked(first, events, events.len() as int) == Some(act@),
        link@ == facts@.link(),
        note@ == facts@.note(),
{
    assert(events.take(events.len() as int) =~= events);
}

/// Each draw goes where it belongs, and there is no share without all four.
pub proof fn law_draws_go_where_they_belong(
    id: Result<[u8; 8], getrandom::Error>,
    prefix: Result<[u8; 4], getrandom::Error>,
    secret: Result<[u8; 32], getrandom::Error>,
    pin: Result<[u8; 4], getrandom::Error>,
    drawn: Option<Draws>,
)
    requires
        call_ensures(draws_drawn, (id, prefix, secret, pin), drawn),
    ensures
        drawn is Some <==> id is Ok && prefix is Ok && secret is Ok && pin is Ok,
        drawn matches Some(draws) ==> id == Ok::<[u8; 8], getrandom::Error>(draws.id) && prefix
            == Ok::<[u8; 4], getrandom::Error>(draws.prefix) && secret == Ok::<
            [u8; 32],
            getrandom::Error,
        >(draws.secret) && pin == Ok::<[u8; 4], getrandom::Error>(draws.pin),
{
}

} // verus!
