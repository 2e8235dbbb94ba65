//! The object store: signed URLs for what is uploaded, handed out, deleted and
//! listed, and what the answers mean.

use vstd::prelude::*;

use rusty_s3::S3Action;

use crate::aws::{given_at, maybe, texts, Call, CallView, Reply, ReplyView};
use crate::config::{Config, ConfigView};
use crate::duration::Duration;
use crate::json::{json_read, parse, text_of};
use crate::search::{has_text, stands_at};
use crate::text::{decimal, decimal_text, is_digit, lemma_decimal_shape, trim, trimmed};

verus! {

/// How long the URLs live that are signed and used at once, never handed out.
pub const OP_TTL: u64 = 60;

/// Where a bucket is reached.
pub struct Site {
    pub endpoint: String,
    /// The bucket stands in the path, not in the host.
    pub path_style: bool,
    pub bucket: String,
    pub region: String,
}

/// Where a bucket is reached.
pub struct SiteView {
    pub endpoint: Seq<char>,
    pub path_style: bool,
    pub bucket: Seq<char>,
    pub region: Seq<char>,
}

impl View for Site {
    type V = SiteView;

    open spec fn view(&self) -> SiteView {
        SiteView {
            endpoint: self.endpoint@,
            path_style: self.path_style,
            bucket: self.bucket@,
            region: self.region@,
        }
    }
}

/// What signs: an access key, with a session's token where it is temporary.
pub struct Keys {
    pub access: String,
    pub secret: String,
    pub token: Option<String>,
}

/// What signs.
pub struct KeysView {
    pub access: Seq<char>,
    pub secret: Seq<char>,
    pub token: Option<Seq<char>>,
}

impl View for Keys {
    type V = KeysView;

    open spec fn view(&self) -> KeysView {
        KeysView { access: self.access@, secret: self.secret@, token: maybe(self.token) }
    }
}

/// Why a site is refused.
pub enum SiteError {
    /// The endpoint is no URL.
    Endpoint,
    /// The endpoint cannot serve the bucket.
    Bucket(String),
}

/// Why a site is refused.
pub enum SiteErrorView {
    Endpoint,
    Bucket(Seq<char>),
}

impl View for SiteError {
    type V = SiteErrorView;

    open spec fn view(&self) -> SiteErrorView {
        match self {
            SiteError::Endpoint => SiteErrorView::Endpoint,
            SiteError::Bucket(why) => SiteErrorView::Bucket(why@),
        }
    }
}

// ── rusty-s3 ──────────────────────────────────────────────────────────────

/// The scheme of the URL that `rusty_s3` gives a site's bucket, or what it holds
/// against the site.
pub uninterp spec fn bucket_scheme(site: SiteView) -> Result<Seq<char>, SiteErrorView>;

/// The URL that `rusty_s3` signs for reading an object, at a time. `None` where
/// the object's key makes no URL.
pub uninterp spec fn signed_get(
    site: SiteView,
    keys: KeysView,
    object: Seq<char>,
    secs: nat,
    now: int,
) -> Option<Seq<char>>;

/// The URL that `rusty_s3` signs for writing an object, at a time.
pub uninterp spec fn signed_put(
    site: SiteView,
    keys: KeysView,
    object: Seq<char>,
    secs: nat,
    now: int,
) -> Option<Seq<char>>;

/// The URL that `rusty_s3` signs for deleting an object, at a time.
pub uninterp spec fn signed_delete(
    site: SiteView,
    keys: KeysView,
    object: Seq<char>,
    secs: nat,
    now: int,
) -> Option<Seq<char>>;

/// The URL that `rusty_s3` signs for listing the keys with a prefix, from a token
/// on, at a time.
pub uninterp spec fn signed_list(
    site: SiteView,
    keys: KeysView,
    prefix: Seq<char>,
    token: Option<Seq<char>>,
    secs: nat,
    now: int,
) -> Seq<char>;

/// What `rusty_s3` reads in a listing, or its complaint.
pub uninterp spec fn listing_read(document: Seq<char>) -> Result<PageView, Seq<char>>;

/// A scheme that requests are made by.
pub open spec fn is_web(scheme: Seq<char>) -> bool {
    scheme == "http"@ || scheme == "https"@
}

/// The bucket has a URL, and one that can be signed. In path style the bucket's name
/// is joined to the endpoint as a reference, and may bring a scheme of its own.
/// Signing panics on a scheme other than these two.
pub open spec fn addressable(site: SiteView) -> bool {
    bucket_scheme(site) matches Ok(scheme) && is_web(scheme)
}

/// Made of letters and digits, as an access id is.
pub open spec fn is_plain(s: Seq<char>) -> bool {
    forall|i: int|
        0 <= i < s.len() ==> ('0' <= #[trigger] s[i] <= '9' || 'A' <= s[i] <= 'Z' || 'a' <= s[i]
            <= 'z')
}

/// The endpoint's parse as a URL, `rusty_s3::Bucket::new` over it, and the scheme of
/// the bucket's `base_url`: with what complaint the site is refused, or the scheme.
/// An endpoint that is not refused has one of the two schemes of requests, and only
/// a name with a colon, in path style, brings another.
#[verifier::external_body]
fn check_site(site: &Site) -> (r: Result<String, SiteError>)
    ensures
        match r {
            Ok(scheme) => {
                &&& bucket_scheme(site@) == Ok::<Seq<char>, SiteErrorView>(scheme@)
                &&& !site.path_style || !site.bucket@.contains(':') ==> is_web(scheme@)
            },
            Err(e) => bucket_scheme(site@) == Err::<Seq<char>, SiteErrorView>(e@),
        },
{
    let style = if site.path_style {
        rusty_s3::UrlStyle::Path
    } else {
        rusty_s3::UrlStyle::VirtualHost
    };
    let url = site.endpoint.parse().or(Err(SiteError::Endpoint))?;
    rusty_s3::Bucket::new(url, style, site.bucket.clone(), site.region.clone()).map(
        |bucket| bucket.base_url().scheme().to_string(),
    ).map_err(|e| SiteError::Bucket(e.to_string()))
}

/// `rusty_s3::Bucket::get_object` over a site that can be signed for, signed for so
/// many seconds from now on. The URL is `signed_get` at the present time, and it
/// states the seconds, and the access id, which a query writes as it is where it is
/// made of letters and digits; `None` where `Bucket::object_url` makes no URL of the
/// key.
#[verifier::external_body]
fn sign_get(site: &Site, keys: &Keys, object: &str, secs: u64) -> (r: Option<String>)
    requires
        addressable(site@),
    ensures
        exists|now: int| maybe(r) == #[trigger] signed_get(site@, keys@, object@, secs as nat, now),
        r is Some ==> has_text(r->0@, "X-Amz-Expires="@ + decimal(secs as nat) + "&"@),
        r is Some && is_plain(keys.access@) ==> has_text(
            r->0@,
            "X-Amz-Credential="@ + keys.access@ + "%2F"@,
        ),
{
    let style = if site.path_style { rusty_s3::UrlStyle::Path } else { rusty_s3::UrlStyle::VirtualHost };
    let url = site.endpoint.parse().unwrap();
    let bucket = rusty_s3::Bucket::new(url, style, site.bucket.clone(), site.region.clone()).unwrap();
    let creds = match &keys.token {
        Some(token) => rusty_s3::Credentials::new_with_token(&keys.access, &keys.secret, token),
        None => rusty_s3::Credentials::new(&keys.access, &keys.secret),
    };
    bucket.object_url(object).ok()?;
    let ttl = std::time::Duration::from_secs(secs);
    Some(bucket.get_object(Some(&creds), object).sign(ttl).to_string())
}

/// `rusty_s3::Bucket::put_object`, signed likewise.
#[verifier::external_body]
fn sign_put(site: &Site, keys: &Keys, object: &str, secs: u64) -> (r: Option<String>)
    requires
        addressable(site@),
    ensures
        exists|now: int| maybe(r) == #[trigger] signed_put(site@, keys@, object@, secs as nat, now),
{
    let style = if site.path_style { rusty_s3::UrlStyle::Path } else { rusty_s3::UrlStyle::VirtualHost };
    let url = site.endpoint.parse().unwrap();
    let bucket = rusty_s3::Bucket::new(url, style, site.bucket.clone(), site.region.clone()).unwrap();
    let creds = match &keys.token {
        Some(token) => rusty_s3::Credentials::new_with_token(&keys.access, &keys.secret, token),
        None => rusty_s3::Credentials::new(&keys.access, &keys.secret),
    };
    bucket.object_url(object).ok()?;
    let ttl = std::time::Duration::from_secs(secs);
    Some(bucket.put_object(Some(&creds), object).sign(ttl).to_string())
}

/// `rusty_s3::Bucket::delete_object`, signed likewise.
#[verifier::external_body]
fn sign_delete(site: &Site, keys: &Keys, object: &str, secs: u64) -> (r: Option<String>)
    requires
        addressable(site@),
    ensures
        exists|now: int|
            maybe(r) == #[trigger] signed_delete(site@, keys@, object@, secs as nat, now),
{
    let style = if site.path_style { rusty_s3::UrlStyle::Path } else { rusty_s3::UrlStyle::VirtualHost };
    let url = site.endpoint.parse().unwrap();
    let bucket = rusty_s3::Bucket::new(url, style, site.bucket.clone(), site.region.clone()).unwrap();
    let creds = match &keys.token {
        Some(token) => rusty_s3::Credentials::new_with_token(&keys.access, &keys.secret, token),
        None => rusty_s3::Credentials::new(&keys.access, &keys.secret),
    };
    bucket.object_url(object).ok()?;
    let ttl = std::time::Duration::from_secs(secs);
    Some(bucket.delete_object(Some(&creds), object).sign(ttl).to_string())
}

/// `rusty_s3::Bucket::list_objects_v2` with a prefix, and with a continuation
/// token where there is one, signed likewise.
#[verifier::external_body]
fn sign_list(site: &Site, keys: &Keys, prefix: &str, from: &Option<String>, secs: u64) -> (r: String)
    requires
        addressable(site@),
    ensures
        exists|now: int|
            r@ == #[trigger] signed_list(site@, keys@, prefix@, maybe(*from), secs as nat, now),
{
    let style = if site.path_style { rusty_s3::UrlStyle::Path } else { rusty_s3::UrlStyle::VirtualHost };
    let url = site.endpoint.parse().unwrap();
    let bucket = rusty_s3::Bucket::new(url, style, site.bucket.clone(), site.region.clone()).unwrap();
    let creds = match &keys.token {
        Some(token) => rusty_s3::Credentials::new_with_token(&keys.access, &keys.secret, token),
        None => rusty_s3::Credentials::new(&keys.access, &keys.secret),
    };
    let mut action = bucket.list_objects_v2(Some(&creds));
    action.with_prefix(prefix);
    if let Some(token) = from {
        action.with_continuation_token(token);
    }
    action.sign(std::time::Duration::from_secs(secs)).to_string()
}

/// A page of a listing: keys, and the token of the next page.
pub struct Page {
    pub keys: Vec<String>,
    pub next: Option<String>,
}

/// A page of a listing.
pub struct PageView {
    pub keys: Seq<Seq<char>>,
    pub next: Option<Seq<char>>,
}

impl View for Page {
    type V = PageView;

    open spec fn view(&self) -> PageView {
        PageView { keys: texts(self.keys@), next: maybe(self.next) }
    }
}

/// `rusty_s3`'s `ListObjectsV2::parse_response`: the keys of the contents and the
/// next page's token, the error taken as its text. Both are functions of the text.
#[verifier::external_body]
fn parse_listing(document: &str) -> (r: Result<Page, String>)
    ensures
        match r {
            Ok(page) => listing_read(document@) == Ok::<PageView, Seq<char>>(page@),
            Err(why) => listing_read(document@) == Err::<PageView, Seq<char>>(why@),
        },
{
    match rusty_s3::actions::ListObjectsV2::parse_response(document) {
        Ok(read) => Ok(
            Page {
                keys: read.contents.into_iter().map(|object| object.key).collect(),
                next: read.next_continuation_token,
            },
        ),
        Err(e) => Err(e.to_string()),
    }
}

// ── credentials ───────────────────────────────────────────────────────────

/// The call that asks for a profile's credentials.
pub open spec fn credentials_call(profile: Option<Seq<char>>) -> CallView {
    let call = CallView::aws("configure"@, "export-credentials"@).option("--format"@, "process"@);
    match profile {
        Some(p) => call.option("--profile"@, p),
        None => call,
    }
}

/// The call that asks for a profile's credentials, so that whatever the
/// operator's shell can use, dove can.
pub fn ask_credentials(profile: &Option<String>) -> (r: Call)
    ensures
        r@ == credentials_call(maybe(*profile)),
{
    let call = Call::aws("configure", "export-credentials").option("--format", "process");
    match profile {
        Some(p) => call.option("--profile", p.as_str()),
        None => call,
    }
}

/// The keys that the parts make. An empty token counts as none.
pub open spec fn keys_of(
    access: Option<Seq<char>>,
    secret: Option<Seq<char>>,
    token: Option<Seq<char>>,
) -> Result<KeysView, Seq<char>> {
    match access {
        None => Err("no AccessKeyId in AWS credentials"@),
        Some(access) => match secret {
            None => Err("no SecretAccessKey in AWS credentials"@),
            Some(secret) => Ok(
                KeysView {
                    access,
                    secret,
                    token: match token {
                        Some(token) => if token.len() == 0 {
                            None
                        } else {
                            Some(token)
                        },
                        None => None,
                    },
                },
            ),
        },
    }
}

/// Makes keys of their parts.
pub fn make_keys(access: Option<String>, secret: Option<String>, token: Option<String>) -> (r:
    Result<Keys, String>)
    ensures
        match r {
            Ok(keys) => keys_of(maybe(access), maybe(secret), maybe(token)) == Ok::<
                KeysView,
                Seq<char>,
            >(keys@),
            Err(why) => keys_of(maybe(access), maybe(secret), maybe(token)) == Err::<
                KeysView,
                Seq<char>,
            >(why@),
        },
{
    match access {
        None => Err("no AccessKeyId in AWS credentials".to_string()),
        Some(access) => match secret {
            None => Err("no SecretAccessKey in AWS credentials".to_string()),
            Some(secret) => {
                let token = match token {
                    Some(token) => if token.as_str().is_empty() {
                        None
                    } else {
                        Some(token)
                    },
                    None => None,
                };
                Ok(Keys { access, secret, token })
            },
        },
    }
}

/// The keys in the reply to `credentials_call`.
pub open spec fn keys_in(reply: ReplyView) -> Result<KeysView, Seq<char>> {
    match reply {
        ReplyView::NotRun(why) => Err(
            "running `aws configure export-credentials` (is the AWS CLI installed?): "@ + why,
        ),
        ReplyView::Ran { success, stdout, stderr } => if !success {
            Err("couldn't resolve AWS credentials: "@ + trimmed(stderr))
        } else {
            match json_read(stdout) {
                Err(why) => Err("parsing AWS credentials JSON: "@ + why),
                Ok(value) => keys_of(
                    value.text("AccessKeyId"@),
                    value.text("SecretAccessKey"@),
                    value.text("SessionToken"@),
                ),
            }
        },
    }
}

/// Reads the keys out of the reply to `ask_credentials`.
pub fn resolve_credentials(reply: &Reply) -> (r: Result<Keys, String>)
    ensures
        match r {
            Ok(keys) => keys_in(reply@) == Ok::<KeysView, Seq<char>>(keys@),
            Err(why) => keys_in(reply@) == Err::<KeysView, Seq<char>>(why@),
        },
{
    match reply {
        Reply::NotRun(why) => Err(
            "running `aws configure export-credentials` (is the AWS CLI installed?): ".to_string().concat(
                why.as_str(),
            ),
        ),
        Reply::Ran { success, stdout, stderr } => {
            if !*success {
                return Err(
                    "couldn't resolve AWS credentials: ".to_string().concat(
                        trim(stderr.as_str()),
                    ),
                );
            }
            match parse(stdout.as_slice()) {
                Err(why) => Err(
                    "parsing AWS credentials JSON: ".to_string().concat(why.as_str()),
                ),
                Ok(value) => make_keys(
                    text_of(&value, "AccessKeyId"),
                    text_of(&value, "SecretAccessKey"),
                    text_of(&value, "SessionToken"),
                ),
            }
        },
    }
}

// ── the store ─────────────────────────────────────────────────────────────

/// The site of a configuration: its endpoint, with the bucket in the path, or S3
/// in its region, with the bucket in the host.
pub open spec fn site_of(config: ConfigView) -> SiteView {
    SiteView {
        endpoint: match config.endpoint {
            Some(endpoint) => endpoint,
            None => "https://s3."@ + config.region + ".amazonaws.com"@,
        },
        path_style: config.endpoint is Some,
        bucket: config.bucket,
        region: config.region,
    }
}

/// A bucket and what signs for it.
pub struct Store {
    site: Site,
    keys: Keys,
}

/// A bucket and what signs for it.
pub struct StoreView {
    pub site: SiteView,
    pub keys: KeysView,
}

impl View for Store {
    type V = StoreView;

    closed spec fn view(&self) -> StoreView {
        StoreView { site: self.site@, keys: self.keys@ }
    }
}

/// The store that a configuration and the reply to `credentials_call` make.
pub open spec fn store_of(config: ConfigView, reply: ReplyView) -> Result<StoreView, Seq<char>> {
    match bucket_scheme(site_of(config)) {
        Err(SiteErrorView::Endpoint) => Err("parsing S3 endpoint URL"@),
        Err(SiteErrorView::Bucket(why)) => Err("bucket config: "@ + why),
        Ok(scheme) => if !is_web(scheme) {
            Err("bucket config: the bucket's name brings another scheme"@)
        } else {
            match keys_in(reply) {
                Ok(keys) => Ok(StoreView { site: site_of(config), keys }),
                Err(why) => Err(why),
            }
        },
    }
}

impl Store {
    #[verifier::type_invariant]
    spec fn wf(self) -> bool {
        addressable(self.site@)
    }

    /// The store of a configuration, signing with the keys in the reply to
    /// `ask_credentials`.
    pub fn new(cfg: &Config, reply: &Reply) -> (r: Result<Store, String>)
        ensures
            match r {
                Ok(store) => store_of(cfg@, reply@) == Ok::<StoreView, Seq<char>>(store@),
                Err(why) => store_of(cfg@, reply@) == Err::<StoreView, Seq<char>>(why@),
            },
            cfg@.endpoint is None || !cfg@.bucket.contains(':') ==> bucket_scheme(
                site_of(cfg@),
            ) is Err || addressable(site_of(cfg@)),
    {
        let site = Site {
            endpoint: match &cfg.endpoint {
                Some(endpoint) => endpoint.clone(),
                None => "https://s3.".to_string().concat(cfg.region.as_str()).concat(
                    ".amazonaws.com",
                ),
            },
            path_style: cfg.endpoint.is_some(),
            bucket: cfg.bucket.clone(),
            region: cfg.region.clone(),
        };
        match check_site(&site) {
            Err(SiteError::Endpoint) => return Err("parsing S3 endpoint URL".to_string()),
            Err(SiteError::Bucket(why)) => return Err(
                "bucket config: ".to_string().concat(why.as_str()),
            ),
            Ok(scheme) => if scheme != "http".to_string() && scheme != "https".to_string() {
                return Err("bucket config: the bucket's name brings another scheme".to_string());
            },
        }
        match resolve_credentials(reply) {
            Ok(keys) => Ok(Store { site, keys }),
            Err(why) => Err(why),
        }
    }

    /// A presigned URL for reading `key`, valid for `ttl`: the link that is handed
    /// to a recipient. `None` where the key makes no URL.
    pub fn presign_get(&self, key: &str, ttl: Duration) -> (r: Option<String>)
        ensures
            exists|now: int|
                maybe(r) == #[trigger] signed_get(
                    self@.site,
                    self@.keys,
                    key@,
                    ttl.secs as nat,
                    now,
                ),
            r is Some ==> has_text(r->0@, "X-Amz-Expires="@ + decimal(ttl.secs as nat) + "&"@),
            r is Some && is_plain(self@.keys.access) ==> has_text(
                r->0@,
                "X-Amz-Credential="@ + self@.keys.access + "%2F"@,
            ),
    {
        proof {
            use_type_invariant(self);
            assert(self@.site == self.site@ && self@.keys == self.keys@);
        }
        sign_get(&self.site, &self.keys, key, ttl.as_secs())
    }

    /// The URL to upload `key` to.
    pub fn put_object(&self, key: &str) -> (r: Option<String>)
        ensures
            exists|now: int|
                maybe(r) == #[trigger] signed_put(
                    self@.site,
                    self@.keys,
                    key@,
                    OP_TTL as nat,
                    now,
                ),
    {
        proof {
            use_type_invariant(self);
            assert(self@.site == self.site@ && self@.keys == self.keys@);
        }
        sign_put(&self.site, &self.keys, key, OP_TTL)
    }

    /// The URL to delete `key` by, which is how a share is revoked early.
    pub fn delete_object(&self, key: &str) -> (r: Option<String>)
        ensures
            exists|now: int|
                maybe(r) == #[trigger] signed_delete(
                    self@.site,
                    self@.keys,
                    key@,
                    OP_TTL as nat,
                    now,
                ),
    {
        proof {
            use_type_invariant(self);
            assert(self@.site == self.site@ && self@.keys == self.keys@);
        }
        sign_delete(&self.site, &self.keys, key, OP_TTL)
    }

    /// The URL of the next page of a listing of the keys under `prefix`.
    pub fn list(&self, prefix: &str, listing: &Listing) -> (r: String)
        ensures
            exists|now: int|
                r@ == #[trigger] signed_list(
                    self@.site,
                    self@.keys,
                    prefix@,
                    listing@.token,
                    OP_TTL as nat,
                    now,
                ),
    {
        proof {
            use_type_invariant(self);
            assert(self@.site == self.site@ && self@.keys == self.keys@);
        }
        assert(listing@.token == maybe(listing.token));
        sign_list(&self.site, &self.keys, prefix, &listing.token, OP_TTL)
    }
}

// ── listing ───────────────────────────────────────────────────────────────

/// A listing as it grows: the keys so far, and the token of the next page.
pub struct Listing {
    keys: Vec<String>,
    token: Option<String>,
    more: bool,
}

/// A listing as it grows.
pub struct ListingView {
    pub keys: Seq<Seq<char>>,
    pub token: Option<Seq<char>>,
    pub more: bool,
}

impl View for Listing {
    type V = ListingView;

    closed spec fn view(&self) -> ListingView {
        ListingView { keys: texts(self.keys@), token: maybe(self.token), more: self.more }
    }
}

impl ListingView {
    /// The listing that has nothing yet.
    pub open spec fn start() -> ListingView {
        ListingView { keys: Seq::empty(), token: None, more: true }
    }

    /// The listing with a page taken in. A token that is not empty leads on.
    pub open spec fn with(self, page: PageView) -> ListingView {
        let keys = self.keys + page.keys;
        if page.next matches Some(token) && token.len() > 0 {
            ListingView { keys, token: page.next, more: true }
        } else {
            ListingView { keys, token: self.token, more: false }
        }
    }

    /// The listing with pages taken in one by one.
    pub open spec fn with_all(self, pages: Seq<PageView>) -> ListingView
        decreases pages.len(),
    {
        if pages.len() == 0 {
            self
        } else {
            self.with_all(pages.drop_last()).with(pages.last())
        }
    }
}

impl Listing {
    /// A listing that has nothing yet.
    pub fn start() -> (r: Listing)
        ensures
            r@ == ListingView::start(),
    {
        let listing = Listing { keys: Vec::new(), token: None, more: true };
        assert(listing@.keys =~= Seq::<Seq<char>>::empty());
        listing
    }

    /// Is there another page?
    pub fn more(&self) -> (r: bool)
        ensures
            r == self@.more,
    {
        self.more
    }

    /// The keys.
    pub fn into_keys(self) -> (r: Vec<String>)
        ensures
            texts(r@) == self@.keys,
    {
        self.keys
    }

    /// Takes a page in.
    pub fn add_page(&mut self, page: Page)
        ensures
            final(self)@ == old(self)@.with(page@),
    {
        let ghost before = self@;
        let mut i: usize = 0;
        assert(texts(page.keys@).take(0) =~= Seq::<Seq<char>>::empty());
        assert(before.keys + Seq::<Seq<char>>::empty() =~= before.keys);
        while i < page.keys.len()
            invariant
                i <= page.keys.len(),
                texts(self.keys@) == before.keys + texts(page.keys@).take(i as int),
                maybe(self.token) == before.token,
            decreases page.keys.len() - i,
        {
            let ghost had = self.keys@;
            self.keys.push(page.keys[i].clone());
            assert(texts(self.keys@) =~= texts(had).push(page.keys@[i as int]@));
            assert(texts(page.keys@).take(i + 1) =~= texts(page.keys@).take(i as int).push(
                page.keys@[i as int]@,
            ));
            i += 1;
        }
        assert(texts(page.keys@).take(page.keys@.len() as int) =~= texts(page.keys@));
        self.more = false;
        if let Some(token) = page.next {
            if !token.as_str().is_empty() {
                self.token = Some(token);
                self.more = true;
            }
        }
    }

    /// Takes in the page that an answer holds.
    pub fn add_answer(&mut self, text: &str) -> (r: Result<(), String>)
        ensures
            match r {
                Ok(_) => listing_read(text@) is Ok && final(self)@ == old(self)@.with(
                    listing_read(text@)->Ok_0,
                ),
                Err(why) => listing_read(text@) is Err && why@
                    == "parsing ListObjectsV2 response: "@ + listing_read(text@)->Err_0
                    && final(self)@ == old(self)@,
            },
    {
        match parse_listing(text) {
            Ok(page) => {
                self.add_page(page);
                Ok(())
            },
            Err(why) => Err("parsing ListObjectsV2 response: ".to_string().concat(why.as_str())),
        }
    }
}

/// The keys of pages, in their order.
pub open spec fn all_keys(pages: Seq<PageView>) -> Seq<Seq<char>>
    decreases pages.len(),
{
    if pages.len() == 0 {
        Seq::empty()
    } else {
        all_keys(pages.drop_last()) + pages.last().keys
    }
}

/// No key is dropped: a listing holds the keys of every page, in order, and goes
/// on exactly while the last page names a next one, which is the one that it goes on to.
pub proof fn law_listing_keeps_every_key(pages: Seq<PageView>)
    ensures
        ListingView::start().with_all(pages).keys == all_keys(pages),
        pages.len() > 0 ==> ListingView::start().with_all(pages).more == (pages.last().next is Some
            && pages.last().next->0.len() > 0),
        pages.len() > 0 && ListingView::start().with_all(pages).more
            ==> ListingView::start().with_all(pages).token == pages.last().next,
        pages.len() == 0 ==> ListingView::start().with_all(pages).more
            && ListingView::start().with_all(pages).token is None,
    decreases pages.len(),
{
    if pages.len() > 0 {
        law_listing_keeps_every_key(pages.drop_last());
    }
}

// ── answers ───────────────────────────────────────────────────────────────

/// Why a request failed.
pub enum HttpFailure {
    /// It was answered with this status.
    Status(u16),
    /// It was not answered, for a reason of this kind.
    Transport(String),
}

/// Why a request failed.
pub enum HttpFailureView {
    Status(nat),
    Transport(Seq<char>),
}

impl View for HttpFailure {
    type V = HttpFailureView;

    open spec fn view(&self) -> HttpFailureView {
        match self {
            HttpFailure::Status(code) => HttpFailureView::Status(*code as nat),
            HttpFailure::Transport(kind) => HttpFailureView::Transport(kind@),
        }
    }
}

#[verifier::external_type_specification]
#[verifier::external_body]
pub struct ExHttpError(ureq::Error);

/// What a `ureq::Error` is: the status of the answer, or the text of the transport
/// error's kind.
pub uninterp spec fn failure_held(e: ureq::Error) -> HttpFailureView;

/// A text that names a kind of transport error.
pub open spec fn names_a_kind(s: Seq<char>) -> bool {
    ||| s == "Bad URL"@
    ||| s == "Unknown Scheme"@
    ||| s == "Dns Failed"@
    ||| s == "Insecure request attempted with https_only set"@
    ||| s == "Connection Failed"@
    ||| s == "Too Many Redirects"@
    ||| s == "Bad Status"@
    ||| s == "Bad Header"@
    ||| s == "Network Error"@
    ||| s == "Malformed proxy"@
    ||| s == "Proxy failed to connect"@
    ||| s == "Provided proxy credentials are incorrect"@
    ||| s == "HTTP status error"@
}

/// The variants of `ureq::Error`: the status, or the text of the transport
/// error's kind, which is one of a few fixed ones and holds nothing of the URL.
#[verifier::external_body]
fn http_failure(e: ureq::Error) -> (r: HttpFailure)
    ensures
        r@ == failure_held(e),
        r matches HttpFailure::Transport(kind) ==> names_a_kind(kind@),
{
    match e {
        ureq::Error::Status(code, _response) => HttpFailure::Status(code),
        ureq::Error::Transport(transport) => HttpFailure::Transport(transport.kind().to_string()),
    }
}

/// A failure in words.
pub open spec fn failure_text(failure: HttpFailureView) -> Seq<char> {
    match failure {
        HttpFailureView::Status(code) => "HTTP "@ + decimal(code),
        HttpFailureView::Transport(kind) => kind,
    }
}

/// A failure in words.
pub fn describe(failure: &HttpFailure) -> (r: String)
    ensures
        r@ == failure_text(failure@),
{
    match failure {
        HttpFailure::Status(code) => "HTTP ".to_string().concat(
            decimal_text(*code as u64).as_str(),
        ),
        HttpFailure::Transport(kind) => kind.clone(),
    }
}

/// An error in words, without the signed URL that the request went to: either a
/// status, or the name of a kind.
pub fn s3_err(e: ureq::Error) -> (r: String)
    ensures
        r@ == failure_text(failure_held(e)),
        names_a_kind(r@) || exists|code: nat| r@ == "HTTP "@ + #[trigger] decimal(code),
{
    let failure = http_failure(e);
    let text = describe(&failure);
    proof {
        if let HttpFailure::Status(code) = failure {
            assert(text@ == "HTTP "@ + decimal(code as nat));
        }
    }
    text
}

/// Text that holds no `X`.
pub open spec fn lacks_x(s: Seq<char>) -> bool {
    forall|i: int| 0 <= i < s.len() ==> #[trigger] s[i] != 'X'
}

/// An error in words never shows a parameter of the signed URL: these all start
/// with `X-Amz`.
pub proof fn law_errors_show_no_signature(text: Seq<char>)
    requires
        names_a_kind(text) || exists|code: nat| text == "HTTP "@ + #[trigger] decimal(code),
    ensures
        !has_text(text, "X-Amz"@),
{
    reveal_strlit("Bad URL");
    reveal_strlit("Unknown Scheme");
    reveal_strlit("Dns Failed");
    reveal_strlit("Insecure request attempted with https_only set");
    reveal_strlit("Connection Failed");
    reveal_strlit("Too Many Redirects");
    reveal_strlit("Bad Status");
    reveal_strlit("Bad Header");
    reveal_strlit("Network Error");
    reveal_strlit("Malformed proxy");
    reveal_strlit("Proxy failed to connect");
    reveal_strlit("Provided proxy credentials are incorrect");
    reveal_strlit("HTTP status error");
    reveal_strlit("HTTP ");
    reveal_strlit("X-Amz");
    if !names_a_kind(text) {
        let code = choose|code: nat| text == "HTTP "@ + #[trigger] decimal(code);
        lemma_decimal_shape(code);
        assert forall|i: int| 0 <= i < text.len() implies #[trigger] text[i] != 'X' by {
            if i >= 5 {
                assert(text[i] == decimal(code)[i - 5]);
                assert(is_digit(decimal(code)[i - 5]));
            }
        }
    }
    assert(lacks_x(text));
    assert forall|i: int| !#[trigger] stands_at(text, "X-Amz"@, i) by {
        if stands_at(text, "X-Amz"@, i) {
            assert(text.subrange(i, i + 5)[0] == text[i]);
            assert("X-Amz"@[0] == 'X');
        }
    }
}

/// How a request came out.
pub enum Outcome {
    /// It was answered, with this status.
    Answered(u16),
    Failed(HttpFailure),
}

/// What is wrong with how a request came out, if anything: it failed, or its
/// status is no success.
pub open spec fn trouble(what: Seq<char>, outcome: Outcome) -> Option<Seq<char>> {
    match outcome {
        Outcome::Failed(failure) => Some(what + " failed: "@ + failure_text(failure@)),
        Outcome::Answered(status) => if status >= 300 {
            Some(what + ": HTTP "@ + decimal(status as nat))
        } else {
            None
        },
    }
}

/// Judges how the request `what` came out.
pub fn settle(what: &str, outcome: &Outcome) -> (r: Result<(), String>)
    ensures
        match r {
            Ok(_) => trouble(what@, *outcome) is None,
            Err(why) => trouble(what@, *outcome) == Some(why@),
        },
{
    match outcome {
        Outcome::Failed(failure) => Err(
            what.to_string().concat(" failed: ").concat(describe(failure).as_str()),
        ),
        Outcome::Answered(status) => if *status >= 300 {
            Err(
                what.to_string().concat(": HTTP ").concat(decimal_text(*status as u64).as_str()),
            )
        } else {
            Ok(())
        },
    }
}

// ── laws ──────────────────────────────────────────────────────────────────

/// A store signs with the operator's credentials, as the reply states them: the access
/// id is what it has as `AccessKeyId`, the secret what it has as `SecretAccessKey`, and
/// the token, where it has one that is not empty, is there too. And it signs for the
/// bucket that the configuration names, in its region, at S3 itself where no other
/// endpoint is set.
pub proof fn law_stores_sign_as_the_operator(config: ConfigView, reply: ReplyView)
    requires
        store_of(config, reply) is Ok,
    ensures
        ({
            let store = store_of(config, reply)->Ok_0;
            let value = json_read(reply.output())->Ok_0;
            &&& reply.succeeded() && json_read(reply.output()) is Ok
            &&& value.text("AccessKeyId"@) == Some(store.keys.access)
            &&& value.text("SecretAccessKey"@) == Some(store.keys.secret)
            &&& store.keys.token is Some ==> value.text("SessionToken"@) == store.keys.token
            &&& store.keys.token is None ==> value.text("SessionToken"@) is None || value.text(
                "SessionToken"@,
            )->0.len() == 0
            &&& store.site.bucket == config.bucket
            &&& store.site.region == config.region
            &&& config.endpoint matches Some(endpoint) ==> store.site.endpoint == endpoint
                && store.site.path_style
            &&& config.endpoint is None ==> store.site.endpoint == "https://s3."@ + config.region
                + ".amazonaws.com"@ && !store.site.path_style
        }),
{
}

/// The same of the keys alone: what is taken for the access id and for the secret are
/// what `aws` gave as these.
pub proof fn law_keys_are_the_operators(
    access: Option<Seq<char>>,
    secret: Option<Seq<char>>,
    token: Option<Seq<char>>,
)
    ensures
        match keys_of(access, secret, token) {
            Ok(keys) => {
                &&& access == Some(keys.access)
                &&& secret == Some(keys.secret)
                &&& keys.token is Some ==> token == keys.token && keys.token->0.len() > 0
                &&& keys.token is None ==> token is None || token->0.len() == 0
            },
            Err(_) => access is None || secret is None,
        },
{
}

/// The credentials that are asked for are those of the profile that is set.
pub proof fn law_credentials_are_the_profiles(profile: Option<Seq<char>>)
    ensures
        credentials_call(profile).calls("configure"@, "export-credentials"@),
        profile matches Some(p) ==> credentials_call(profile).gives("--profile"@, p),
        profile is None ==> credentials_call(profile).words.len() == 4,
        credentials_call(profile).gives("--format"@, "process"@),
{
    let call = credentials_call(profile);
    assert(given_at(call.words, 2, "--format"@, "process"@));
    if let Some(p) = profile {
        assert(given_at(call.words, 4, "--profile"@, p));
    }
}

/// A request is settled if and only if it was answered with a status below 300.
pub proof fn law_only_success_settles(what: Seq<char>, outcome: Outcome)
    ensures
        trouble(what, outcome) is None <==> (outcome matches Outcome::Answered(status) && status
            < 300),
        trouble(what, outcome) matches Some(why) ==> what.is_prefix_of(why),
        outcome matches Outcome::Answered(status) ==> (status >= 300 ==> decimal(
            status as nat,
        ).is_suffix_of(trouble(what, outcome)->0)),
{
    if let Some(why) = trouble(what, outcome) {
        assert(what =~= why.subrange(0, what.len() as int));
        if let Outcome::Answered(status) = outcome {
            let d = decimal(status as nat);
            assert(d =~= why.subrange(why.len() - d.len(), why.len() as int));
        }
    }
}

/// Keys are made of their own parts, and the credentials of a reply are read by their
/// names: neither half of the key stands for the other.
pub proof fn law_made_keys_are_their_parts(
    access: Option<String>,
    secret: Option<String>,
    token: Option<String>,
    made: Result<Keys, String>,
    reply: Reply,
    resolved: Result<Keys, String>,
)
    requires
        call_ensures(make_keys, (access, secret, token), made),
        call_ensures(resolve_credentials, (&reply,), resolved),
    ensures
        made is Ok <==> access is Some && secret is Some,
        made matches Ok(keys) ==> {
            &&& keys@.access == access->0@
            &&& keys@.secret == secret->0@
            &&& keys@.token is Some <==> token is Some && token->0@.len() > 0
            &&& keys@.token is Some ==> keys@.token->0 == token->0@
        },
        resolved matches Ok(keys) ==> {
            let value = json_read(reply@.output())->Ok_0;
            &&& reply@.succeeded()
            &&& json_read(reply@.output()) is Ok
            &&& value.text("AccessKeyId"@) == Some(keys@.access)
            &&& value.text("SecretAccessKey"@) == Some(keys@.secret)
            &&& keys@.token is Some ==> value.text("SessionToken"@) == keys@.token
            &&& keys@.token is None ==> value.text("SessionToken"@) is None || value.text(
                "SessionToken"@,
            )->0.len() == 0
        },
{
}

/// What is written, deleted and handed out is the object of the key, in the bucket of the
/// store, signed with the store's keys; a listing goes on from its token; and what is
/// signed for dove itself is good for a minute.
pub proof fn law_stores_sign_for_their_objects(
    store: Store,
    key: &str,
    ttl: Duration,
    listing: Listing,
    put: Option<String>,
    delete: Option<String>,
    link: Option<String>,
    page: String,
)
    requires
        call_ensures(Store::put_object, (&store, key), put),
        call_ensures(Store::delete_object, (&store, key), delete),
        call_ensures(Store::presign_get, (&store, key, ttl), link),
        call_ensures(Store::list, (&store, key, &listing), page),
    ensures
        exists|now: int|
            maybe(put) == #[trigger] signed_put(store@.site, store@.keys, key@, 60, now),
        exists|now: int|
            maybe(delete) == #[trigger] signed_delete(store@.site, store@.keys, key@, 60, now),
        exists|now: int|
            maybe(link) == #[trigger] signed_get(
                store@.site,
                store@.keys,
                key@,
                ttl.secs as nat,
                now,
            ),
        exists|now: int|
            page@ == #[trigger] signed_list(
                store@.site,
                store@.keys,
                key@,
                listing@.token,
                60,
                now,
            ),
        link is Some ==> has_text(link->0@, "X-Amz-Expires="@ + decimal(ttl.secs as nat) + "&"@),
{
}

} // verus!
