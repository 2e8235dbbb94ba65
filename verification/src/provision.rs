//! `dove provision`: stands up what dove shares from, with the `aws` command line
//! and the operator's own credentials. The simple tier is a private bucket whose
//! objects delete themselves, and a least-privilege user that signs links; the
//! full tier adds the access gate in front.

use vstd::prelude::*;

use crate::aws::{
    given_at, lemma_done_by, maybe, texts, Call, CallView, Complaint, ComplaintView, Reply, ReplyView,
};
use crate::apigw::ApiStage;
use crate::breaker::BreakerStage;
use crate::cloudfront::FrontStage;
use crate::config::{Config, ConfigView};
use crate::full::{
    law_the_full_tier_is_one, lemma_names_its_table, provision_full, walked_at, wired, FullAct,
    FullActView, FullEvent, FullEventView, FullFacts, FullFactsView, FullStage,
};
use crate::json::{get, json_contents, json_read, parse, text_of, Json};
use crate::script::{
    every_call_passed, law_walked_means_passed, lemma_sole, walked, ItemView, Script, ScriptView,
};
use crate::search::{
    contains, find_from, has_text, lemma_across, lemma_first, lemma_found_before,
    lemma_found_behind, lemma_place, lemma_suffix_grows, place, stands_at,
};
use crate::secrets::{Secrets, SecretsView};
use crate::text::{
    chars_of, debug_quoted, decimal, decimal_text, digits_value, is_digit, lemma_decimal_shape,
    lemma_trimmed_tight, quote, read_digits, trim, trimmed,
};
use crate::ui::{bold, bolded, dim, dimmed, Terminal};

verus! {

/// Bucket CORS: any origin may `GET`, so that the browser decryptor can fetch
/// ciphertext from a presigned URL. Reads stay gated by the signature.
pub const BUCKET_CORS: &'static str = "{\"CORSRules\":[{\"AllowedOrigins\":[\"*\"],\"AllowedMethods\":[\"GET\"],\"AllowedHeaders\":[\"*\"],\"MaxAgeSeconds\":3000}]}";

/// All four public-access-block switches on.
pub const PUBLIC_ACCESS_BLOCK: &'static str = "BlockPublicAcls=true,IgnorePublicAcls=true,BlockPublicPolicy=true,RestrictPublicBuckets=true";

/// Which tier to stand up.
#[derive(Debug, Clone, Copy, PartialEq, Eq, Structural)]
pub enum Tier {
    /// A bucket whose objects expire: presigned links of at most seven days, and
    /// no servers.
    Simple,
    /// Encrypted and limited in downloads, with an optional custom domain.
    Full,
}

// ── policies ──────────────────────────────────────────────────────────────

/// The lifecycle configuration that expires every object after so many days.
pub open spec fn lifecycle_text(days: nat) -> Seq<char> {
    "{\"Rules\":[{\"ID\":\"dove-expire\",\"Status\":\"Enabled\",\"Filter\":{},\"Expiration\":{\"Days\":"@
        + decimal(days) + "}}]}"@
}

/// The lifecycle configuration: expire every object `days` after its creation.
pub fn lifecycle_config(days: u32) -> (r: String)
    ensures
        r@ == lifecycle_text(days as nat),
{
    "{\"Rules\":[{\"ID\":\"dove-expire\",\"Status\":\"Enabled\",\"Filter\":{},\"Expiration\":{\"Days\":".to_string().concat(
        decimal_text(days as u64).as_str(),
    ).concat("}}]}")
}

/// The policy of the user that signs: objects of this bucket, and its listing.
pub open spec fn share_policy_text(bucket: Seq<char>) -> Seq<char> {
    "{\"Version\":\"2012-10-17\",\"Statement\":[{\"Effect\":\"Allow\",\"Action\":[\"s3:PutObject\",\"s3:GetObject\",\"s3:DeleteObject\"],\"Resource\":\"arn:aws:s3:::"@
        + bucket
        + "/*\"},{\"Effect\":\"Allow\",\"Action\":[\"s3:ListBucket\"],\"Resource\":\"arn:aws:s3:::"@
        + bucket + "\"}]}"@
}

/// The least-privilege policy of dove's signing user: read, write, delete and
/// list in this one bucket, and nothing else in the account.
pub fn share_policy(bucket: &str) -> (r: String)
    ensures
        r@ == share_policy_text(bucket@),
{
    "{\"Version\":\"2012-10-17\",\"Statement\":[{\"Effect\":\"Allow\",\"Action\":[\"s3:PutObject\",\"s3:GetObject\",\"s3:DeleteObject\"],\"Resource\":\"arn:aws:s3:::".to_string().concat(
        bucket,
    ).concat(
        "/*\"},{\"Effect\":\"Allow\",\"Action\":[\"s3:ListBucket\"],\"Resource\":\"arn:aws:s3:::",
    ).concat(bucket).concat("\"}]}")
}

/// The policy of the access gate's role.
pub open spec fn gate_role_text(
    account: Seq<char>,
    region: Seq<char>,
    table: Seq<char>,
    bucket: Seq<char>,
) -> Seq<char> {
    "{\"Version\":\"2012-10-17\",\"Statement\":[{\"Effect\":\"Allow\",\"Action\":[\"logs:CreateLogGroup\",\"logs:CreateLogStream\",\"logs:PutLogEvents\"],\"Resource\":\"arn:aws:logs:*:"@
        + account
        + ":*\"},{\"Effect\":\"Allow\",\"Action\":[\"dynamodb:GetItem\",\"dynamodb:UpdateItem\"],\"Resource\":\"arn:aws:dynamodb:"@
        + region + ":"@ + account + ":table/"@ + table
        + "\"},{\"Effect\":\"Allow\",\"Action\":\"s3:GetObject\",\"Resource\":\"arn:aws:s3:::"@
        + bucket
        + "/*\"},{\"Effect\":\"Allow\",\"Action\":\"ssm:GetParameter\",\"Resource\":\"arn:aws:ssm:"@
        + region + ":"@ + account + ":parameter/dove/"@ + bucket
        + "/gate-secret\"},{\"Effect\":\"Allow\",\"Action\":\"kms:Decrypt\",\"Resource\":\"arn:aws:kms:"@
        + region + ":"@ + account
        + ":key/*\",\"Condition\":{\"StringEquals\":{\"kms:ViaService\":\"ssm."@ + region
        + ".amazonaws.com\"},\"ForAnyValue:StringEquals\":{\"kms:ResourceAliases\":\"alias/aws/ssm\"}}}]}"@
}

/// The access gate role's inline policy: log, count down in the one table, presign from
/// the one bucket, and read the access gate's secret, which the parameter store keeps
/// under the account's default key. Nothing else.
pub fn gate_role_policy(account: &str, region: &str, table: &str, bucket: &str) -> (r: String)
    ensures
        r@ == gate_role_text(account@, region@, table@, bucket@),
{
    "{\"Version\":\"2012-10-17\",\"Statement\":[{\"Effect\":\"Allow\",\"Action\":[\"logs:CreateLogGroup\",\"logs:CreateLogStream\",\"logs:PutLogEvents\"],\"Resource\":\"arn:aws:logs:*:".to_string().concat(
        account,
    ).concat(
        ":*\"},{\"Effect\":\"Allow\",\"Action\":[\"dynamodb:GetItem\",\"dynamodb:UpdateItem\"],\"Resource\":\"arn:aws:dynamodb:",
    ).concat(region).concat(":").concat(account).concat(":table/").concat(table).concat(
        "\"},{\"Effect\":\"Allow\",\"Action\":\"s3:GetObject\",\"Resource\":\"arn:aws:s3:::",
    ).concat(bucket).concat(
        "/*\"},{\"Effect\":\"Allow\",\"Action\":\"ssm:GetParameter\",\"Resource\":\"arn:aws:ssm:",
    ).concat(region).concat(":").concat(account).concat(":parameter/dove/").concat(bucket).concat(
        "/gate-secret\"},{\"Effect\":\"Allow\",\"Action\":\"kms:Decrypt\",\"Resource\":\"arn:aws:kms:",
    ).concat(region).concat(":").concat(account).concat(
        ":key/*\",\"Condition\":{\"StringEquals\":{\"kms:ViaService\":\"ssm.",
    ).concat(region).concat(
        ".amazonaws.com\"},\"ForAnyValue:StringEquals\":{\"kms:ResourceAliases\":\"alias/aws/ssm\"}}}]}",
    )
}

/// No quotation mark stands before a star, nor at the end.
pub open spec fn starless(s: Seq<char>) -> bool {
    &&& forall|i: int| 0 <= i < s.len() - 1 ==> !(#[trigger] s[i] == '"' && s[i + 1] == '*')
    &&& s.len() > 0 ==> s.last() != '"'
}

/// Texts in which no quotation mark stands before a star can be joined.
pub proof fn lemma_starless(a: Seq<char>, b: Seq<char>)
    requires
        starless(a),
        starless(b),
    ensures
        starless(a + b),
{
    let s = a + b;
    assert forall|i: int| 0 <= i < s.len() - 1 implies !(#[trigger] s[i] == '"' && s[i + 1]
        == '*') by {
        if i + 1 < a.len() {
            assert(!(a[i] == '"' && a[i + 1] == '*'));
        } else if i + 1 == a.len() {
            assert(a[i] == a.last());
        } else {
            assert(!(b[i - a.len()] == '"' && b[i - a.len() + 1] == '*'));
        }
    }
}

/// Text without quotation marks.
pub open spec fn unquoted(s: Seq<char>) -> bool {
    forall|i: int| 0 <= i < s.len() ==> #[trigger] s[i] != '"'
}

/// A policy in which no quotation mark stands before a star grants nothing on
/// everything.
pub proof fn lemma_starless_scope(s: Seq<char>)
    requires
        starless(s),
    ensures
        !has_text(s, "\"Resource\":\"*\""@),
{
    reveal_strlit("\"Resource\":\"*\"");
    let everything = "\"Resource\":\"*\""@;
    assert forall|i: int| !#[trigger] stands_at(s, everything, i) by {
        if stands_at(s, everything, i) {
            let found = s.subrange(i, i + everything.len());
            assert(found[11] == s[i + 11] && found[12] == s[i + 12]);
            assert(s[i + 11] == '"' && s[i + 11 + 1] == '*');
        }
    }
}

/// The access gate's role is granted nothing on every resource, whatever account,
/// region, table and bucket are named.
pub proof fn law_gate_role_is_scoped(
    account: Seq<char>,
    region: Seq<char>,
    table: Seq<char>,
    bucket: Seq<char>,
)
    requires
        unquoted(account),
        unquoted(region),
        unquoted(table),
        unquoted(bucket),
    ensures
        !has_text(gate_role_text(account, region, table, bucket), "\"Resource\":\"*\""@),
{
    reveal_strlit("{\"Version\":\"2012-10-17\",\"Statement\":[{\"Effect\":\"Allow\",\"Action\":[\"logs:CreateLogGroup\",\"logs:CreateLogStream\",\"logs:PutLogEvents\"],\"Resource\":\"arn:aws:logs:*:");
    reveal_strlit(":*\"},{\"Effect\":\"Allow\",\"Action\":[\"dynamodb:GetItem\",\"dynamodb:UpdateItem\"],\"Resource\":\"arn:aws:dynamodb:");
    reveal_strlit(":");
    reveal_strlit(":table/");
    reveal_strlit("\"},{\"Effect\":\"Allow\",\"Action\":\"s3:GetObject\",\"Resource\":\"arn:aws:s3:::");
    reveal_strlit("/*\"},{\"Effect\":\"Allow\",\"Action\":\"ssm:GetParameter\",\"Resource\":\"arn:aws:ssm:");
    reveal_strlit(":parameter/dove/");
    reveal_strlit("/gate-secret\"},{\"Effect\":\"Allow\",\"Action\":\"kms:Decrypt\",\"Resource\":\"arn:aws:kms:");
    reveal_strlit(":key/*\",\"Condition\":{\"StringEquals\":{\"kms:ViaService\":\"ssm.");
    reveal_strlit(".amazonaws.com\"},\"ForAnyValue:StringEquals\":{\"kms:ResourceAliases\":\"alias/aws/ssm\"}}}]}");
    let t0 = "{\"Version\":\"2012-10-17\",\"Statement\":[{\"Effect\":\"Allow\",\"Action\":[\"logs:CreateLogGroup\",\"logs:CreateLogStream\",\"logs:PutLogEvents\"],\"Resource\":\"arn:aws:logs:*:"@;
    let t1 = t0 + account;
    lemma_starless(t0, account);
    let t2 = t1 + ":*\"},{\"Effect\":\"Allow\",\"Action\":[\"dynamodb:GetItem\",\"dynamodb:UpdateItem\"],\"Resource\":\"arn:aws:dynamodb:"@;
    lemma_starless(t1, ":*\"},{\"Effect\":\"Allow\",\"Action\":[\"dynamodb:GetItem\",\"dynamodb:UpdateItem\"],\"Resource\":\"arn:aws:dynamodb:"@);
    let t3 = t2 + region;
    lemma_starless(t2, region);
    let t4 = t3 + ":"@;
    lemma_starless(t3, ":"@);
    let t5 = t4 + account;
    lemma_starless(t4, account);
    let t6 = t5 + ":table/"@;
    lemma_starless(t5, ":table/"@);
    let t7 = t6 + table;
    lemma_starless(t6, table);
    let t8 = t7 + "\"},{\"Effect\":\"Allow\",\"Action\":\"s3:GetObject\",\"Resource\":\"arn:aws:s3:::"@;
    lemma_starless(t7, "\"},{\"Effect\":\"Allow\",\"Action\":\"s3:GetObject\",\"Resource\":\"arn:aws:s3:::"@);
    let t9 = t8 + bucket;
    lemma_starless(t8, bucket);
    let t10 = t9 + "/*\"},{\"Effect\":\"Allow\",\"Action\":\"ssm:GetParameter\",\"Resource\":\"arn:aws:ssm:"@;
    lemma_starless(t9, "/*\"},{\"Effect\":\"Allow\",\"Action\":\"ssm:GetParameter\",\"Resource\":\"arn:aws:ssm:"@);
    let t11 = t10 + region;
    lemma_starless(t10, region);
    let t12 = t11 + ":"@;
    lemma_starless(t11, ":"@);
    let t13 = t12 + account;
    lemma_starless(t12, account);
    let t14 = t13 + ":parameter/dove/"@;
    lemma_starless(t13, ":parameter/dove/"@);
    let t15 = t14 + bucket;
    lemma_starless(t14, bucket);
    let t16 = t15 + "/gate-secret\"},{\"Effect\":\"Allow\",\"Action\":\"kms:Decrypt\",\"Resource\":\"arn:aws:kms:"@;
    lemma_starless(t15, "/gate-secret\"},{\"Effect\":\"Allow\",\"Action\":\"kms:Decrypt\",\"Resource\":\"arn:aws:kms:"@);
    let t17 = t16 + region;
    lemma_starless(t16, region);
    let t18 = t17 + ":"@;
    lemma_starless(t17, ":"@);
    let t19 = t18 + account;
    lemma_starless(t18, account);
    let t20 = t19 + ":key/*\",\"Condition\":{\"StringEquals\":{\"kms:ViaService\":\"ssm."@;
    lemma_starless(t19, ":key/*\",\"Condition\":{\"StringEquals\":{\"kms:ViaService\":\"ssm."@);
    let t21 = t20 + region;
    lemma_starless(t20, region);
    let t22 = t21 + ".amazonaws.com\"},\"ForAnyValue:StringEquals\":{\"kms:ResourceAliases\":\"alias/aws/ssm\"}}}]}"@;
    lemma_starless(t21, ".amazonaws.com\"},\"ForAnyValue:StringEquals\":{\"kms:ResourceAliases\":\"alias/aws/ssm\"}}}]}"@);
    lemma_starless_scope(t22);
}

/// The user that signs is granted nothing on every resource.
pub proof fn law_share_policy_is_scoped(bucket: Seq<char>)
    requires
        unquoted(bucket),
    ensures
        !has_text(share_policy_text(bucket), "\"Resource\":\"*\""@),
{
    reveal_strlit("{\"Version\":\"2012-10-17\",\"Statement\":[{\"Effect\":\"Allow\",\"Action\":[\"s3:PutObject\",\"s3:GetObject\",\"s3:DeleteObject\"],\"Resource\":\"arn:aws:s3:::");
    reveal_strlit("/*\"},{\"Effect\":\"Allow\",\"Action\":[\"s3:ListBucket\"],\"Resource\":\"arn:aws:s3:::");
    reveal_strlit("\"}]}");
    let t0 = "{\"Version\":\"2012-10-17\",\"Statement\":[{\"Effect\":\"Allow\",\"Action\":[\"s3:PutObject\",\"s3:GetObject\",\"s3:DeleteObject\"],\"Resource\":\"arn:aws:s3:::"@;
    let t1 = t0 + bucket;
    lemma_starless(t0, bucket);
    let t2 = t1 + "/*\"},{\"Effect\":\"Allow\",\"Action\":[\"s3:ListBucket\"],\"Resource\":\"arn:aws:s3:::"@;
    lemma_starless(t1, "/*\"},{\"Effect\":\"Allow\",\"Action\":[\"s3:ListBucket\"],\"Resource\":\"arn:aws:s3:::"@);
    let t3 = t2 + bucket;
    lemma_starless(t2, bucket);
    let t4 = t3 + "\"}]}"@;
    lemma_starless(t3, "\"}]}"@);
    lemma_starless_scope(t4);
}

// ── the access key ────────────────────────────────────────────────────────

/// What a `create-access-key` reply says: whether it holds a key at all, and the
/// key's parts where they are strings.
pub struct KeyReply {
    pub key: bool,
    pub id: Option<String>,
    pub secret: Option<String>,
}

/// What a `create-access-key` reply says.
pub struct KeyReplyView {
    pub key: bool,
    pub id: Option<Seq<char>>,
    pub secret: Option<Seq<char>>,
}

impl View for KeyReply {
    type V = KeyReplyView;

    open spec fn view(&self) -> KeyReplyView {
        KeyReplyView { key: self.key, id: maybe(self.id), secret: maybe(self.secret) }
    }
}

/// The id and the secret of the key that a reply holds.
pub open spec fn key_in(reply: KeyReplyView) -> Result<(Seq<char>, Seq<char>), Seq<char>> {
    if !reply.key {
        Err("create-access-key output missing AccessKey"@)
    } else {
        match reply.id {
            None => Err("create-access-key output missing AccessKeyId"@),
            Some(id) => match reply.secret {
                None => Err("create-access-key output missing SecretAccessKey"@),
                Some(secret) => Ok((id, secret)),
            },
        }
    }
}

/// Takes the id and the secret out of a reply.
pub fn take_key(reply: KeyReply) -> (r: Result<(String, String), String>)
    ensures
        match r {
            Ok((id, secret)) => key_in(reply@) == Ok::<(Seq<char>, Seq<char>), Seq<char>>(
                (id@, secret@),
            ),
            Err(why) => key_in(reply@) == Err::<(Seq<char>, Seq<char>), Seq<char>>(why@),
        },
{
    if !reply.key {
        return Err("create-access-key output missing AccessKey".to_string());
    }
    match reply.id {
        None => Err("create-access-key output missing AccessKeyId".to_string()),
        Some(id) => match reply.secret {
            None => Err("create-access-key output missing SecretAccessKey".to_string()),
            Some(secret) => Ok((id, secret)),
        },
    }
}

/// What the reply in a document says of the key.
pub open spec fn key_reply(value: Json) -> KeyReplyView {
    KeyReplyView {
        key: value.get("AccessKey"@) is Some,
        id: value.inner_text("AccessKey"@, "AccessKeyId"@),
        secret: value.inner_text("AccessKey"@, "SecretAccessKey"@),
    }
}

/// The id and the secret of the key in a `create-access-key` reply.
pub open spec fn access_key_in(document: Seq<u8>) -> Result<(Seq<char>, Seq<char>), Seq<char>> {
    match json_read(document) {
        Ok(value) => key_in(key_reply(value)),
        Err(why) => Err("parsing create-access-key output: "@ + why),
    }
}

/// Reads the id and the secret out of `iam create-access-key` JSON.
pub fn parse_access_key(json_bytes: &[u8]) -> (r: Result<(String, String), String>)
    ensures
        match r {
            Ok((id, secret)) => access_key_in(json_bytes@) == Ok::<
                (Seq<char>, Seq<char>),
                Seq<char>,
            >((id@, secret@)),
            Err(why) => access_key_in(json_bytes@) == Err::<(Seq<char>, Seq<char>), Seq<char>>(
                why@,
            ),
        },
{
    match parse(json_bytes) {
        Ok(value) => {
            let reply = match get(&value, "AccessKey") {
                Some(key) => KeyReply {
                    key: true,
                    id: text_of(key, "AccessKeyId"),
                    secret: text_of(key, "SecretAccessKey"),
                },
                None => KeyReply { key: false, id: None, secret: None },
            };
            assert(reply@ == key_reply(json_contents(value)));
            take_key(reply)
        },
        Err(why) => Err("parsing create-access-key output: ".to_string().concat(why.as_str())),
    }
}

// ── choosing a profile ────────────────────────────────────────────────────

/// The name on a line, where there is one.
pub open spec fn name_on(line: Seq<char>) -> Seq<Seq<char>> {
    if trimmed(line).len() == 0 {
        Seq::empty()
    } else {
        Seq::empty().push(trimmed(line))
    }
}

/// The names in a text, one to a line.
pub open spec fn names_in(text: Seq<char>) -> Seq<Seq<char>>
    decreases text.len(),
{
    if !has_text(text, "\n"@) {
        name_on(text)
    } else {
        proof {
            reveal_strlit("\n");
            lemma_first(text, "\n"@);
        }
        name_on(text.take(place(text, "\n"@))) + names_in(text.skip(place(text, "\n"@) + 1))
    }
}

/// Reads the profile names that `aws configure list-profiles` lists.
pub fn list_profiles(text: &str) -> (r: Vec<String>)
    ensures
        texts(r@) == names_in(text@),
{
    proof {
        reveal_strlit("\n");
    }
    let chars = chars_of(text);
    let mark = chars_of("\n");
    let mut names: Vec<String> = Vec::new();
    let mut from: usize = 0;
    assert(text@.skip(0) =~= text@);
    assert(texts(names@) + names_in(text@) =~= names_in(text@));
    loop
        invariant
            chars@ == text@,
            mark@ == "\n"@,
            "\n"@.len() == 1,
            from <= chars.len(),
            texts(names@) + names_in(text@.skip(from as int)) == names_in(text@),
        decreases chars.len() - from,
    {
        let ghost rest = text@.skip(from as int);
        let ghost before = texts(names@);
        let at = find_from(&chars, &mark, from);
        let to: usize = match at {
            Some(at) => at,
            None => chars.len(),
        };
        let line = text.substring_char(from, to);
        let name = trim(line);
        let ghost kept = names@;
        if !name.is_empty() {
            names.push(name.to_string());
        }
        proof {
            assert(texts(names@) =~= before + name_on(line@));
            if at is Some {
                lemma_place(rest, "\n"@, to - from);
                assert(line@ =~= rest.take(to - from));
                assert(rest.skip(to - from + 1) =~= text@.skip(to + 1));
                assert(before + (name_on(line@) + names_in(text@.skip(to + 1))) =~= texts(names@)
                    + names_in(text@.skip(to + 1)));
            } else {
                assert(line@ =~= rest);
            }
        }
        if at.is_none() {
            return names;
        }
        from = to + 1;
    }
}

/// A number may be written with a plus before it.
pub open spec fn unsigned(s: Seq<char>) -> Seq<char> {
    if s.len() > 1 && s[0] == '+' {
        s.skip(1)
    } else {
        s
    }
}

/// A run of digits, at least one.
pub open spec fn is_number(s: Seq<char>) -> bool {
    s.len() > 0 && forall|i: int| 0 <= i < s.len() ==> is_digit(#[trigger] s[i])
}

/// The number that an answer chooses, of `0` to `count`.
pub open spec fn choice_of(line: Seq<char>, count: nat) -> Option<nat> {
    let number = unsigned(trimmed(line));
    if is_number(number) && digits_value(number) <= count {
        Some(digits_value(number))
    } else {
        None
    }
}

/// Reads the answer to a choice of `0` to `count`.
pub fn choose_number(line: &str, count: usize) -> (r: Option<usize>)
    ensures
        match r {
            Some(n) => choice_of(line@, count as nat) == Some(n as nat),
            None => choice_of(line@, count as nat) is None,
        },
{
    let t = trim(line);
    let chars = chars_of(t);
    let from: usize = if chars.len() > 1 && chars[0] == '+' {
        1
    } else {
        0
    };
    let ghost number = t@.skip(from as int);
    assert(t@.skip(0) =~= t@);
    assert(number == unsigned(t@));
    let mut digits: Vec<char> = Vec::new();
    let mut i: usize = from;
    while i < chars.len()
        invariant
            chars@ == t@,
            number == t@.skip(from as int),
            number == unsigned(trimmed(line@)),
            from <= i <= chars.len(),
            digits@ == number.take(i - from),
            forall|j: int| 0 <= j < digits.len() ==> is_digit(#[trigger] digits[j]),
        decreases chars.len() - i,
    {
        if chars[i] < '0' || chars[i] > '9' {
            assert(!is_digit(number[i - from]));
            return None;
        }
        digits.push(chars[i]);
        assert(digits@ =~= number.take(i + 1 - from));
        i += 1;
    }
    assert(digits@ =~= number);
    if digits.len() == 0 {
        return None;
    }
    match read_digits(&digits) {
        Some(n) => if n <= count as u64 {
            Some(n as usize)
        } else {
            None
        },
        None => None,
    }
}

/// The menu's lines for the profiles from `from` on.
pub open spec fn menu_lines(term: Terminal, profiles: Seq<Seq<char>>, upto: nat) -> Seq<char>
    decreases upto,
{
    if upto == 0 {
        Seq::empty()
    } else {
        menu_lines(term, profiles, (upto - 1) as nat) + "    "@ + bolded(term, decimal(upto)) + "  "@
            + profiles[upto - 1] + "\n"@
    }
}

/// The menu of profiles.
pub open spec fn menu_text(term: Terminal, profiles: Seq<Seq<char>>) -> Seq<char> {
    "  "@ + dimmed(term, "which AWS profile?"@) + "\n"@ + menu_lines(term, profiles, profiles.len())
        + "    "@ + dimmed(term, "0"@) + "  "@ + dimmed(term, "default credential chain"@) + "\n  "@
        + dimmed(term, "→"@) + " "@
}

/// The menu of profiles, numbered from one, with `0` for the default chain.
pub fn menu(term: Terminal, profiles: &Vec<String>) -> (r: String)
    ensures
        r@ == menu_text(term, texts(profiles@)),
{
    let mut lines = String::new();
    let mut i: usize = 0;
    while i < profiles.len()
        invariant
            i <= profiles.len(),
            lines@ == menu_lines(term, texts(profiles@), i as nat),
        decreases profiles.len() - i,
    {
        let number = decimal_text(i as u64 + 1);
        lines =
        lines.concat("    ").concat(bold(term, number.as_str()).as_str()).concat("  ").concat(
            profiles[i].as_str(),
        ).concat("\n");
        i += 1;
    }
    "  ".to_string().concat(dim(term, "which AWS profile?").as_str()).concat("\n").concat(
        lines.as_str(),
    ).concat("    ").concat(dim(term, "0").as_str()).concat("  ").concat(
        dim(term, "default credential chain").as_str(),
    ).concat("\n  ").concat(dim(term, "→").as_str()).concat(" ")
}

/// An answer that consents.
pub open spec fn consents(line: Seq<char>) -> bool {
    trimmed(line) == "y"@ || trimmed(line) == "Y"@ || trimmed(line) == "yes"@
}

/// Is the answer a yes?
pub fn confirm(line: &str) -> (r: bool)
    ensures
        r == consents(line@),
{
    let answer = trim(line).to_string();
    answer == "y".to_string() || answer == "Y".to_string() || answer == "yes".to_string()
}

/// The question, as it is put.
pub fn question(term: Terminal, prompt: &str) -> (r: String)
    ensures
        r@ == "  "@ + dimmed(term, prompt@) + " "@ + dimmed(term, "[y/N] →"@) + " "@,
{
    "  ".to_string().concat(dim(term, prompt).as_str()).concat(" ").concat(
        dim(term, "[y/N] →").as_str(),
    ).concat(" ")
}

// ── identity ──────────────────────────────────────────────────────────────

/// The account and the ARN in a `get-caller-identity` reply, `?` where one is
/// missing.
pub open spec fn identity_in(value: Json) -> (Seq<char>, Seq<char>) {
    (
        match value.text("Account"@) {
            Some(account) => account,
            None => "?"@,
        },
        match value.text("Arn"@) {
            Some(arn) => arn,
            None => "?"@,
        },
    )
}

/// Reads the account and the ARN out of a `get-caller-identity` reply.
fn caller_identity(document: &[u8]) -> (r: Result<(String, String), String>)
    ensures
        match r {
            Ok((account, arn)) => {
                &&& json_read(document@) is Ok
                &&& identity_in(json_read(document@)->Ok_0) == (account@, arn@)
            },
            Err(why) => json_read(document@) == Err::<Json, Seq<char>>(why@),
        },
{
    match parse(document) {
        Ok(value) => {
            let account = match text_of(&value, "Account") {
                Some(account) => account,
                None => "?".to_string(),
            };
            let arn = match text_of(&value, "Arn") {
                Some(arn) => arn,
                None => "?".to_string(),
            };
            Ok((account, arn))
        },
        Err(why) => Err(why),
    }
}

// ── the run ───────────────────────────────────────────────────────────────

/// What is asked for on the command line.
pub struct ProvisionArgs {
    pub tier: Tier,
    /// The bucket's name, where it is not to be derived.
    pub bucket: Option<String>,
    pub region: String,
    /// The profile, where it is not to be asked for.
    pub profile: Option<String>,
    pub expire_days: u32,
}

/// What is asked for on the command line.
pub struct ProvisionArgsView {
    pub tier: Tier,
    pub bucket: Option<Seq<char>>,
    pub region: Seq<char>,
    pub profile: Option<Seq<char>>,
    pub expire_days: nat,
}

impl View for ProvisionArgs {
    type V = ProvisionArgsView;

    open spec fn view(&self) -> ProvisionArgsView {
        ProvisionArgsView {
            tier: self.tier,
            bucket: maybe(self.bucket),
            region: self.region@,
            profile: maybe(self.profile),
            expire_days: self.expire_days as nat,
        }
    }
}

/// How far provisioning has come.
#[derive(Clone, Copy, PartialEq, Eq, Structural)]
pub enum Stage {
    /// Is there an `aws` command line?
    Aws,
    /// Which profiles are there?
    Profiles,
    /// Which of them is it to be?
    Profile,
    /// Whose account is it?
    Identity,
    /// Is that what is wanted?
    Confirm,
    /// The bucket, and the user that signs.
    Bucket,
    /// Is there an access key from before?
    Keys,
    /// Minting one.
    Mint,
    /// Keeping it.
    StoreKeys,
    /// It is kept.
    Minted,
    /// The one from before is used.
    Reuse,
    /// Looking for a configuration from before.
    Prior,
    /// The full tier.
    Full(FullStage),
    /// Keeping the configuration.
    Save,
    /// Everything stands.
    Done,
}

/// What is known of the run.
pub struct Facts {
    pub args: ProvisionArgs,
    /// Where the access gate's archive is to lie, and the kill switch's.
    pub archive: String,
    pub breaker_archive: String,
    pub profiles: Vec<String>,
    pub profile: Option<String>,
    pub account: String,
    pub arn: String,
    pub bucket: String,
    pub key_id: String,
    pub key_secret: String,
    pub prior_gate_url: Option<String>,
    pub full: FullFacts,
}

/// What is known of the run.
pub struct FactsView {
    pub args: ProvisionArgsView,
    pub archive: Seq<char>,
    pub breaker_archive: Seq<char>,
    pub profiles: Seq<Seq<char>>,
    pub profile: Option<Seq<char>>,
    pub account: Seq<char>,
    pub arn: Seq<char>,
    pub bucket: Seq<char>,
    pub key_id: Seq<char>,
    pub key_secret: Seq<char>,
    pub prior_gate_url: Option<Seq<char>>,
    pub full: FullFactsView,
}

impl View for Facts {
    type V = FactsView;

    open spec fn view(&self) -> FactsView {
        FactsView {
            args: self.args@,
            archive: self.archive@,
            breaker_archive: self.breaker_archive@,
            profiles: texts(self.profiles@),
            profile: maybe(self.profile),
            account: self.account@,
            arn: self.arn@,
            bucket: self.bucket@,
            key_id: self.key_id@,
            key_secret: self.key_secret@,
            prior_gate_url: maybe(self.prior_gate_url),
            full: self.full@,
        }
    }
}

/// What happened.
pub enum Event {
    /// There is, or is not, an `aws` command line.
    Aws(bool),
    /// These are the profiles.
    Profiles(Vec<String>),
    /// This is what was typed.
    Line(String),
    /// A script is through, and this was its last reply.
    Replied(Reply),
    /// There are, or are not, secrets from before.
    Keys(bool),
    /// Something was to be kept.
    Saved(Result<(), String>),
    /// The configuration was looked for.
    Config(Option<Config>),
    /// Something in the full tier.
    Full(FullEvent),
}

/// What happened.
pub enum EventView {
    Aws(bool),
    Profiles(Seq<Seq<char>>),
    Line(Seq<char>),
    Replied(ReplyView),
    Keys(bool),
    Saved(Result<(), Seq<char>>),
    Config(Option<ConfigView>),
    Full(FullEventView),
}

impl View for Event {
    type V = EventView;

    open spec fn view(&self) -> EventView {
        match self {
            Event::Aws(present) => EventView::Aws(*present),
            Event::Profiles(names) => EventView::Profiles(texts(names@)),
            Event::Line(line) => EventView::Line(line@),
            Event::Replied(reply) => EventView::Replied(reply@),
            Event::Keys(present) => EventView::Keys(*present),
            Event::Saved(result) => EventView::Saved(
                match result {
                    Ok(_) => Ok(()),
                    Err(why) => Err(why@),
                },
            ),
            Event::Config(config) => EventView::Config(
                match config {
                    Some(config) => Some(config@),
                    None => None,
                },
            ),
            Event::Full(event) => EventView::Full(event@),
        }
    }
}

/// What is to be done.
pub enum Act {
    CheckAws,
    ListProfiles,
    /// Show the menu and read a line.
    AskProfile,
    /// Walk a script and hand back its last reply.
    Walk(Script),
    /// Show what is known and read a line.
    AskConsent,
    LookForKeys,
    SaveSecrets(Secrets),
    LoadConfig,
    Full(FullAct),
    SaveConfig(Config),
    Finished,
}

/// What is to be done.
pub enum ActView {
    CheckAws,
    ListProfiles,
    AskProfile,
    Walk(ScriptView),
    AskConsent,
    LookForKeys,
    SaveSecrets(SecretsView),
    LoadConfig,
    Full(FullActView),
    SaveConfig(ConfigView),
    Finished,
}

impl View for Act {
    type V = ActView;

    open spec fn view(&self) -> ActView {
        match self {
            Act::CheckAws => ActView::CheckAws,
            Act::ListProfiles => ActView::ListProfiles,
            Act::AskProfile => ActView::AskProfile,
            Act::Walk(script) => ActView::Walk(script@),
            Act::AskConsent => ActView::AskConsent,
            Act::LookForKeys => ActView::LookForKeys,
            Act::SaveSecrets(secrets) => ActView::SaveSecrets(secrets@),
            Act::LoadConfig => ActView::LoadConfig,
            Act::Full(act) => ActView::Full(act@),
            Act::SaveConfig(config) => ActView::SaveConfig(config@),
            Act::Finished => ActView::Finished,
        }
    }
}

impl Stage {
    /// The event answers what the stage asks for.
    pub open spec fn fits(self, event: EventView) -> bool {
        match self {
            Stage::Aws => event is Aws,
            Stage::Profiles => event is Profiles,
            Stage::Profile => event is Line,
            Stage::Confirm => event is Line,
            Stage::Keys => event is Keys,
            Stage::StoreKeys => event is Saved,
            Stage::Prior => event is Config,
            Stage::Full(at) => event matches EventView::Full(inner) && at.fits(inner),
            Stage::Save => event is Saved,
            Stage::Done => false,
            _ => event is Replied,
        }
    }
}

impl FactsView {
    /// What is known before anything was asked.
    pub open spec fn of(
        args: ProvisionArgsView,
        archive: Seq<char>,
        breaker_archive: Seq<char>,
    ) -> FactsView {
        FactsView {
            args,
            archive,
            breaker_archive,
            profiles: Seq::empty(),
            profile: None,
            account: Seq::empty(),
            arn: Seq::empty(),
            bucket: Seq::empty(),
            key_id: Seq::empty(),
            key_secret: Seq::empty(),
            prior_gate_url: None,
            full: FullFactsView::of(""@, ""@, ""@, ""@, ""@),
        }
    }

    /// What an identity that cannot be resolved is worded with.
    pub open spec fn identity_context(self) -> Seq<char> {
        "resolving the AWS identity for "@ + (match self.profile {
            Some(profile) => profile,
            None => "the default profile"@,
        }) + " — is it logged in (e.g. `aws sso login`)?"@
    }

    /// The bucket's creation. In `us-east-1` it must not get a location.
    pub open spec fn create_bucket(self) -> CallView {
        let call = CallView::aws("s3api"@, "create-bucket"@).option(
            "--bucket"@,
            self.bucket,
        ).tolerating("BucketAlreadyOwnedByYou"@);
        if self.args.region == "us-east-1"@ {
            call
        } else {
            call.option("--region"@, self.args.region).option(
                "--create-bucket-configuration"@,
                "LocationConstraint="@ + self.args.region,
            )
        }
    }

    /// The bucket, private, whose objects expire, and the user that signs, who
    /// may do what `share_policy` says and has the bucket's name.
    pub open spec fn bucket_script(self) -> ScriptView {
        ScriptView::nothing().step("creating bucket"@, self.create_bucket()).step(
            "blocking public access"@,
            CallView::aws("s3api"@, "put-public-access-block"@).option(
                "--bucket"@,
                self.bucket,
            ).option("--public-access-block-configuration"@, PUBLIC_ACCESS_BLOCK@),
        ).step(
            "lifecycle · "@ + decimal(self.args.expire_days) + " days"@,
            CallView::aws("s3api"@, "put-bucket-lifecycle-configuration"@).option(
                "--bucket"@,
                self.bucket,
            ).option("--lifecycle-configuration"@, lifecycle_text(self.args.expire_days)),
        ).step(
            "scoped IAM user"@,
            CallView::aws("iam"@, "create-user"@).option("--user-name"@, self.bucket).tolerating(
                "EntityAlreadyExists"@,
            ),
        ).step(
            "least-privilege policy"@,
            CallView::aws("iam"@, "put-user-policy"@).option("--user-name"@, self.bucket).option(
                "--policy-name"@,
                "dove-share"@,
            ).option("--policy-document"@, share_policy_text(self.bucket)),
        )
    }

    /// What is walked at a stage; nothing at a stage that asks for something
    /// else.
    pub open spec fn script(self, stage: Stage) -> ScriptView {
        match stage {
            Stage::Identity => ScriptView::nothing().run(
                CallView::aws("sts"@, "get-caller-identity"@).option(
                    "--output"@,
                    "json"@,
                ).complaining(ComplaintView::Within(self.identity_context())),
            ),
            Stage::Bucket => self.bucket_script(),
            Stage::Mint => ScriptView::nothing().begin("minting access key"@).run(
                CallView::aws("iam"@, "create-access-key"@).option(
                    "--user-name"@,
                    self.bucket,
                ).option("--output"@, "json"@).complaining(
                    ComplaintView::Saying("creating access key"@),
                ),
            ),
            Stage::Minted => ScriptView::nothing().end("minting access key"@),
            Stage::Reuse => ScriptView::nothing().begin("access key (reusing)"@).end(
                "access key (reusing)"@,
            ),
            _ => ScriptView::nothing(),
        }
    }

    /// The access gate's URL: a custom domain from before is kept, and else it is on
    /// CloudFront's.
    pub open spec fn gate_url(self) -> Seq<char> {
        match self.prior_gate_url {
            Some(url) => if has_text(url, ".cloudfront.net"@) {
                self.full.gate_url()
            } else {
                url
            },
            None => self.full.gate_url(),
        }
    }

    /// The configuration that is kept.
    pub open spec fn config(self) -> ConfigView {
        let full = self.args.tier == Tier::Full;
        ConfigView {
            bucket: self.bucket,
            region: self.args.region,
            profile: self.profile,
            endpoint: None,
            table: if full {
                Some(self.full.table())
            } else {
                None
            },
            gate_url: if full {
                Some(self.gate_url())
            } else {
                None
            },
            distribution_id: if full {
                Some(self.full.front.distribution_id)
            } else {
                None
            },
        }
    }

    /// The secrets that a minted key makes.
    pub open spec fn minted(self) -> SecretsView {
        SecretsView {
            access_key_id: self.key_id,
            secret_access_key: self.key_secret,
            gate_secret: None,
        }
    }

    /// What is to be done at each stage.
    pub open spec fn act(self, stage: Stage) -> ActView {
        match stage {
            Stage::Aws => ActView::CheckAws,
            Stage::Profiles => ActView::ListProfiles,
            Stage::Profile => ActView::AskProfile,
            Stage::Confirm => ActView::AskConsent,
            Stage::Keys => ActView::LookForKeys,
            Stage::StoreKeys => ActView::SaveSecrets(self.minted()),
            Stage::Prior => ActView::LoadConfig,
            Stage::Full(at) => ActView::Full(self.full.act(at)),
            Stage::Save => ActView::SaveConfig(self.config()),
            Stage::Done => ActView::Finished,
            _ => ActView::Walk(self.script(stage)),
        }
    }

    /// Where an event leads from a stage: nowhere, if the last call of the stage's
    /// script failed.
    pub open spec fn after(self, stage: Stage, event: EventView) -> Result<
        (FactsView, Stage),
        Seq<char>,
    > {
        match event {
            EventView::Replied(reply) => match self.script(stage).objection(reply) {
                Some(why) => Err(why),
                None => self.moved(stage, event),
            },
            _ => self.moved(stage, event),
        }
    }

    /// Where an event leads from a stage.
    pub open spec fn moved(self, stage: Stage, event: EventView) -> Result<
        (FactsView, Stage),
        Seq<char>,
    > {
        match stage {
            Stage::Aws => if !event->Aws_0 {
                Err(
                    "the AWS CLI (`aws`) is required for provisioning — https://aws.amazon.com/cli/"@,
                )
            } else {
                match self.args.profile {
                    Some(profile) => Ok(
                        (FactsView { profile: Some(profile), ..self }, Stage::Identity),
                    ),
                    None => Ok((self, Stage::Profiles)),
                }
            },
            Stage::Profiles => if event->Profiles_0.len() == 0 {
                Ok((FactsView { profile: None, ..self }, Stage::Identity))
            } else {
                Ok((FactsView { profiles: event->Profiles_0, ..self }, Stage::Profile))
            },
            Stage::Profile => match choice_of(event->Line_0, self.profiles.len()) {
                None => Err("not a valid choice: "@ + debug_quoted(trimmed(event->Line_0))),
                Some(n) => Ok(
                    (
                        FactsView {
                            profile: if n == 0 {
                                None
                            } else {
                                Some(self.profiles[n - 1])
                            },
                            ..self
                        },
                        Stage::Identity,
                    ),
                ),
            },
            Stage::Identity => match json_read((event->Replied_0).output()) {
                Err(why) => Err(self.identity_context() + ": "@ + why),
                Ok(value) => {
                    let (account, arn) = identity_in(value);
                    Ok(
                        (
                            FactsView {
                                account,
                                arn,
                                bucket: match self.args.bucket {
                                    Some(bucket) => bucket,
                                    None => "dove-shares-"@ + account,
                                },
                                ..self
                            },
                            Stage::Confirm,
                        ),
                    )
                },
            },
            Stage::Confirm => if consents(event->Line_0) {
                Ok((self, Stage::Bucket))
            } else {
                Err("aborted"@)
            },
            Stage::Bucket => Ok((self, Stage::Keys)),
            Stage::Keys => if event->Keys_0 {
                Ok((self, Stage::Reuse))
            } else {
                Ok((self, Stage::Mint))
            },
            Stage::Mint => match access_key_in((event->Replied_0).output()) {
                Err(why) => Err(why),
                Ok((key_id, key_secret)) => Ok(
                    (FactsView { key_id, key_secret, ..self }, Stage::StoreKeys),
                ),
            },
            Stage::StoreKeys => match event->Saved_0 {
                Ok(_) => Ok((self, Stage::Minted)),
                Err(why) => Err(why),
            },
            Stage::Minted => Ok((self, Stage::Prior)),
            Stage::Reuse => Ok((self, Stage::Prior)),
            Stage::Prior => {
                let prior_gate_url = match event->Config_0 {
                    Some(config) => config.gate_url,
                    None => None,
                };
                if self.args.tier == Tier::Full {
                    Ok(
                        (
                            FactsView {
                                prior_gate_url,
                                full: FullFactsView::of(
                                    self.args.region,
                                    self.account,
                                    self.bucket,
                                    self.archive,
                                    self.breaker_archive,
                                ),
                                ..self
                            },
                            Stage::Full(FullStage::Table),
                        ),
                    )
                } else {
                    Ok((FactsView { prior_gate_url, ..self }, Stage::Save))
                }
            },
            Stage::Full(at) => match self.full.after(at, event->Full_0) {
                Err(why) => Err(why),
                Ok((full, next)) => Ok(
                    (
                        FactsView { full, ..self },
                        if next == FullStage::Ready {
                            Stage::Save
                        } else {
                            Stage::Full(next)
                        },
                    ),
                ),
            },
            Stage::Save => match event->Saved_0 {
                Ok(_) => Ok((self, Stage::Done)),
                Err(why) => Err(why),
            },
            Stage::Done => Ok((self, Stage::Done)),
        }
    }
}

/// The heading of a run.
pub fn title(tier: Tier) -> (r: &'static str)
    ensures
        r@ == (match tier {
            Tier::Full => "dove provision · full tier"@,
            Tier::Simple => "dove provision · simple tier"@,
        }),
{
    match tier {
        Tier::Full => "dove provision · full tier",
        Tier::Simple => "dove provision · simple tier",
    }
}

impl Facts {
    /// What is known before anything was asked.
    pub fn of(args: ProvisionArgs, archive: &str, breaker_archive: &str) -> (r: Facts)
        ensures
            r@ == FactsView::of(args@, archive@, breaker_archive@),
    {
        let facts = Facts {
            args,
            archive: archive.to_string(),
            breaker_archive: breaker_archive.to_string(),
            profiles: Vec::new(),
            profile: None,
            account: String::new(),
            arn: String::new(),
            bucket: String::new(),
            key_id: String::new(),
            key_secret: String::new(),
            prior_gate_url: None,
            full: FullFacts::of("", "", "", "", ""),
        };
        assert(facts@.profiles =~= Seq::<Seq<char>>::empty());
        facts
    }

    fn identity_context(&self) -> (r: String)
        ensures
            r@ == self@.identity_context(),
    {
        let who = match &self.profile {
            Some(profile) => profile.as_str(),
            None => "the default profile",
        };
        "resolving the AWS identity for ".to_string().concat(who).concat(
            " — is it logged in (e.g. `aws sso login`)?",
        )
    }

    fn create_bucket(&self) -> (r: Call)
        ensures
            r@ == self@.create_bucket(),
    {
        let call = Call::aws("s3api", "create-bucket").option(
            "--bucket",
            self.bucket.as_str(),
        ).tolerating("BucketAlreadyOwnedByYou");
        if self.args.region == "us-east-1".to_string() {
            call
        } else {
            let location = "LocationConstraint=".to_string().concat(self.args.region.as_str());
            call.option("--region", self.args.region.as_str()).option(
                "--create-bucket-configuration",
                location.as_str(),
            )
        }
    }

    fn bucket_script(&self) -> (r: Script)
        ensures
            r@ == self@.bucket_script(),
    {
        let bucket = self.bucket.as_str();
        let days = decimal_text(self.args.expire_days as u64);
        let label = "lifecycle · ".to_string().concat(days.as_str()).concat(" days");
        Script::nothing().step("creating bucket", self.create_bucket()).step(
            "blocking public access",
            Call::aws("s3api", "put-public-access-block").option("--bucket", bucket).option(
                "--public-access-block-configuration",
                PUBLIC_ACCESS_BLOCK,
            ),
        ).step(
            label.as_str(),
            Call::aws("s3api", "put-bucket-lifecycle-configuration").option(
                "--bucket",
                bucket,
            ).option(
                "--lifecycle-configuration",
                lifecycle_config(self.args.expire_days).as_str(),
            ),
        ).step(
            "scoped IAM user",
            Call::aws("iam", "create-user").option("--user-name", bucket).tolerating(
                "EntityAlreadyExists",
            ),
        ).step(
            "least-privilege policy",
            Call::aws("iam", "put-user-policy").option("--user-name", bucket).option(
                "--policy-name",
                "dove-share",
            ).option("--policy-document", share_policy(bucket).as_str()),
        )
    }

    fn script(&self, stage: Stage) -> (r: Script)
        ensures
            r@ == self@.script(stage),
    {
        match stage {
            Stage::Identity => Script::nothing().run(
                Call::aws("sts", "get-caller-identity").option("--output", "json").complaining(
                    Complaint::Within(self.identity_context()),
                ),
            ),
            Stage::Bucket => self.bucket_script(),
            Stage::Mint => Script::nothing().begin("minting access key").run(
                Call::aws("iam", "create-access-key").option(
                    "--user-name",
                    self.bucket.as_str(),
                ).option("--output", "json").saying("creating access key"),
            ),
            Stage::Minted => Script::nothing().end("minting access key"),
            Stage::Reuse => Script::nothing().begin("access key (reusing)").end(
                "access key (reusing)",
            ),
            _ => Script::nothing(),
        }
    }

    /// The access gate's URL: a custom domain from before is kept.
    fn gate_url(&self) -> (r: String)
        ensures
            r@ == self@.gate_url(),
    {
        if let Some(url) = &self.prior_gate_url {
            if !contains(url.as_str(), ".cloudfront.net") {
                return url.clone();
            }
        }
        "https://".to_string().concat(self.full.front.domain.as_str())
    }

    /// The configuration to keep.
    pub fn config(&self) -> (r: Config)
        ensures
            r@ == self@.config(),
    {
        let profile = match &self.profile {
            Some(profile) => Some(profile.clone()),
            None => None,
        };
        match self.args.tier {
            Tier::Full => Config {
                bucket: self.bucket.clone(),
                region: self.args.region.clone(),
                profile,
                endpoint: None,
                table: Some(self.full.bucket.clone()),
                gate_url: Some(self.gate_url()),
                distribution_id: Some(self.full.front.distribution_id.clone()),
            },
            Tier::Simple => Config {
                bucket: self.bucket.clone(),
                region: self.args.region.clone(),
                profile,
                endpoint: None,
                table: None,
                gate_url: None,
                distribution_id: None,
            },
        }
    }

    /// What to do at a stage.
    pub fn act(&self, stage: Stage) -> (r: Act)
        requires
            stage == Stage::Full(FullStage::StoreSecret) ==> self@.full.secrets is Some,
        ensures
            r@ == self@.act(stage),
    {
        match stage {
            Stage::Aws => Act::CheckAws,
            Stage::Profiles => Act::ListProfiles,
            Stage::Profile => Act::AskProfile,
            Stage::Confirm => Act::AskConsent,
            Stage::Keys => Act::LookForKeys,
            Stage::StoreKeys => Act::SaveSecrets(
                Secrets {
                    access_key_id: self.key_id.clone(),
                    secret_access_key: self.key_secret.clone(),
                    gate_secret: None,
                },
            ),
            Stage::Prior => Act::LoadConfig,
            Stage::Full(at) => Act::Full(self.full.act(at)),
            Stage::Save => Act::SaveConfig(self.config()),
            Stage::Done => Act::Finished,
            _ => Act::Walk(self.script(stage)),
        }
    }

    /// The move from a stage whose last call passed.
    fn heard(&mut self, stage: Stage, reply: &Reply) -> (r: Result<Stage, String>)
        requires
            stage.fits(EventView::Replied(reply@)),
        ensures
            match r {
                Ok(next) => {
                    &&& old(self)@.moved(stage, EventView::Replied(reply@)) == Ok::<
                        (FactsView, Stage),
                        Seq<char>,
                    >((final(self)@, next))
                    &&& !(next is Full)
                },
                Err(why) => {
                    &&& old(self)@.moved(stage, EventView::Replied(reply@)) == Err::<
                        (FactsView, Stage),
                        Seq<char>,
                    >(why@)
                    &&& final(self)@ == old(self)@
                },
            },
    {
        match stage {
            Stage::Identity => match caller_identity(reply.output()) {
                Ok((account, arn)) => {
                    self.bucket =
                    match &self.args.bucket {
                        Some(bucket) => bucket.clone(),
                        None => "dove-shares-".to_string().concat(account.as_str()),
                    };
                    self.account = account;
                    self.arn = arn;
                    Ok(Stage::Confirm)
                },
                Err(why) => Err(self.identity_context().concat(": ").concat(why.as_str())),
            },
            Stage::Bucket => Ok(Stage::Keys),
            Stage::Mint => match parse_access_key(reply.output()) {
                Ok((key_id, key_secret)) => {
                    self.key_id = key_id;
                    self.key_secret = key_secret;
                    Ok(Stage::StoreKeys)
                },
                Err(why) => Err(why),
            },
            _ => Ok(Stage::Prior),
        }
    }

    /// The subject and the note of the last line: where the access gate is, or that
    /// sharing is ready.
    pub fn farewell(&self) -> (r: (String, String))
        ensures
            self@.args.tier == Tier::Full ==> {
                &&& r.0@ == "provisioned (full tier)"@
                &&& r.1@ == "gate: "@ + self@.gate_url()
                    + "\n  `dove share <file>` now encrypts and gates downloads."@
            },
            self@.args.tier == Tier::Simple ==> {
                &&& r.0@ == "provisioned"@
                &&& r.1@ == "dove share <file> is ready — objects auto-delete after "@ + decimal(
                    self@.args.expire_days,
                ) + " days"@
            },
    {
        match self.args.tier {
            Tier::Full => (
                "provisioned (full tier)".to_string(),
                "gate: ".to_string().concat(self.gate_url().as_str()).concat(
                    "\n  `dove share <file>` now encrypts and gates downloads.",
                ),
            ),
            Tier::Simple => (
                "provisioned".to_string(),
                "dove share <file> is ready — objects auto-delete after ".to_string().concat(
                    decimal_text(self.args.expire_days as u64).as_str(),
                ).concat(" days"),
            ),
        }
    }
}

/// Provisions a tier: the move from a stage that `event` answers. The first stage
/// is `Aws`, and at `Done` everything stands and is written down.
pub fn run(facts: &mut Facts, stage: Stage, event: Event) -> (r: Result<Stage, String>)
    requires
        stage.fits(event@),
    ensures
        match r {
            Ok(next) => {
                &&& old(facts)@.after(stage, event@) == Ok::<(FactsView, Stage), Seq<char>>(
                    (final(facts)@, next),
                )
                &&& next == Stage::Full(FullStage::StoreSecret)
                    ==> final(facts)@.full.secrets is Some
            },
            Err(why) => {
                &&& old(facts)@.after(stage, event@) == Err::<(FactsView, Stage), Seq<char>>(why@)
                &&& final(facts)@ == old(facts)@
            },
        },
{
    match event {
        Event::Aws(present) => {
            if !present {
                return Err(
                    "the AWS CLI (`aws`) is required for provisioning — https://aws.amazon.com/cli/".to_string(),
                );
            }
            match &facts.args.profile {
                Some(profile) => {
                    facts.profile = Some(profile.clone());
                    Ok(Stage::Identity)
                },
                None => Ok(Stage::Profiles),
            }
        },
        Event::Profiles(names) => {
            if names.len() == 0 {
                facts.profile = None;
                Ok(Stage::Identity)
            } else {
                facts.profiles = names;
                Ok(Stage::Profile)
            }
        },
        Event::Line(line) => match stage {
            Stage::Profile => match choose_number(line.as_str(), facts.profiles.len()) {
                Some(n) => {
                    if n == 0 {
                        facts.profile = None;
                    } else {
                        facts.profile = Some(facts.profiles[n - 1].clone());
                    }
                    Ok(Stage::Identity)
                },
                None => Err(
                    "not a valid choice: ".to_string().concat(quote(trim(line.as_str())).as_str()),
                ),
            },
            _ => if confirm(line.as_str()) {
                Ok(Stage::Bucket)
            } else {
                Err("aborted".to_string())
            },
        },
        Event::Replied(reply) => match facts.script(stage).object(&reply) {
            Some(why) => Err(why),
            None => facts.heard(stage, &reply),
        },
        Event::Keys(present) => if present {
            Ok(Stage::Reuse)
        } else {
            Ok(Stage::Mint)
        },
        Event::Saved(result) => match result {
            Ok(_) => match stage {
                Stage::StoreKeys => Ok(Stage::Minted),
                _ => Ok(Stage::Done),
            },
            Err(why) => Err(why),
        },
        Event::Config(config) => {
            facts.prior_gate_url =
            match config {
                Some(config) => config.gate_url,
                None => None,
            };
            match facts.args.tier {
                Tier::Full => {
                    facts.full =
                    FullFacts::of(
                        facts.args.region.as_str(),
                        facts.account.as_str(),
                        facts.bucket.as_str(),
                        facts.archive.as_str(),
                        facts.breaker_archive.as_str(),
                    );
                    Ok(Stage::Full(FullStage::Table))
                },
                Tier::Simple => Ok(Stage::Save),
            }
        },
        Event::Full(inner) => match stage {
            Stage::Full(at) => match provision_full(&mut facts.full, at, inner) {
                Ok(next) => if next == FullStage::Ready {
                    Ok(Stage::Save)
                } else {
                    Ok(Stage::Full(next))
                },
                Err(why) => Err(why),
            },
            _ => Ok(stage),
        },
    }
}

// ── laws ──────────────────────────────────────────────────────────────────

/// A stage before the operator's consent.
pub open spec fn before_consent(stage: Stage) -> bool {
    stage == Stage::Aws || stage == Stage::Profiles || stage == Stage::Profile || stage
        == Stage::Identity || stage == Stage::Confirm
}

/// Nothing is changed without consent: before it, nothing is kept and the one call
/// that is run asks whose account it is; and only an answer that consents leads
/// past it.
pub proof fn law_nothing_without_consent(facts: FactsView, stage: Stage, event: EventView)
    requires
        before_consent(stage),
        stage.fits(event),
    ensures
        facts.act(stage) is Walk ==> stage == Stage::Identity,
        !(facts.act(stage) is SaveSecrets) && !(facts.act(stage) is SaveConfig),
        !(facts.act(stage) is Full),
        facts.script(Stage::Identity).items.len() == 1,
        facts.after(stage, event) is Ok && !before_consent((facts.after(stage, event)->Ok_0).1)
            ==> stage == Stage::Confirm && consents(event->Line_0),
{
}

/// An access key from before is reused: none is minted, and none is written over.
pub proof fn law_existing_keys_are_reused(facts: FactsView, reply: ReplyView)
    ensures
        facts.after(Stage::Keys, EventView::Keys(true)) == Ok::<(FactsView, Stage), Seq<char>>(
            (facts, Stage::Reuse),
        ),
        facts.act(Stage::Reuse) is Walk,
        facts.after(Stage::Reuse, EventView::Replied(reply)) == Ok::<
            (FactsView, Stage),
            Seq<char>,
        >((facts, Stage::Prior)),
{
    let script = facts.script(Stage::Reuse);
    let shorter = ScriptView { items: script.items.drop_last() };
    assert(shorter.items.drop_last() =~= Seq::<ItemView>::empty());
    reveal_with_fuel(ScriptView::last_call, 3);
}

/// A custom domain survives: provisioning again keeps a gate URL that is not on
/// CloudFront's own domain.
pub proof fn law_custom_domain_survives(facts: FactsView)
    requires
        facts.args.tier == Tier::Full,
        facts.prior_gate_url is Some,
        !has_text(facts.prior_gate_url->0, ".cloudfront.net"@),
    ensures
        facts.config().gate_url == facts.prior_gate_url,
{
}

/// The tier that is provisioned is the tier that the configuration says.
pub proof fn law_config_says_the_tier(facts: FactsView)
    ensures
        facts.config().is_full() <==> facts.args.tier == Tier::Full,
        facts.args.tier == Tier::Simple ==> facts.config().table is None
            && facts.config().distribution_id is None,
{
}

/// The configuration is written last: it is kept only at `Save`, to which the
/// simple tier comes from the bucket and its key, and the full tier from the
/// breaker.
pub proof fn law_config_is_written_last(facts: FactsView, stage: Stage, event: EventView)
    requires
        stage.fits(event),
        facts.after(stage, event) is Ok,
        (facts.after(stage, event)->Ok_0).1 == Stage::Save,
    ensures
        stage == Stage::Prior ==> facts.args.tier == Tier::Simple,
        stage != Stage::Prior ==> stage is Full && facts.full.after(
            stage->Full_0,
            event->Full_0,
        ) is Ok && (facts.full.after(stage->Full_0, event->Full_0)->Ok_0).1 == FullStage::Ready,
{
}

/// A run so far: it goes on at a stage, or it stopped for a reason. What does not
/// answer the stage is no run.
pub enum Course {
    At(FactsView, Stage),
    Stopped(Seq<char>),
    Astray,
}

/// The run that events make, from the first stage on.
pub open spec fn course(facts: FactsView, events: Seq<EventView>) -> Course
    decreases events.len(),
{
    if events.len() == 0 {
        Course::At(facts, Stage::Aws)
    } else {
        match course(facts, events.drop_last()) {
            Course::At(known, stage) => if !stage.fits(events.last()) {
                Course::Astray
            } else {
                match known.after(stage, events.last()) {
                    Ok((next, to)) => Course::At(next, to),
                    Err(why) => Course::Stopped(why),
                }
            },
            stopped => stopped,
        }
    }
}

/// The `i`-th event was an answer that consents.
pub open spec fn consented_at(facts: FactsView, events: Seq<EventView>, i: int) -> bool {
    &&& 0 <= i < events.len()
    &&& course(facts, events.take(i)) matches Course::At(_, stage) && stage == Stage::Confirm
    &&& events[i] matches EventView::Line(line) && consents(line)
}

/// The `i`-th event ended the wiring of the breaker.
pub open spec fn breaker_wired_at(facts: FactsView, events: Seq<EventView>, i: int) -> bool {
    &&& 0 <= i < events.len()
    &&& course(facts, events.take(i)) matches Course::At(_, stage) && stage == Stage::Full(
        FullStage::Breaker(BreakerStage::Wiring),
    )
    &&& reply_in(events[i]) is Some
}

/// No run comes past the question without the operator's consent.
pub proof fn law_runs_have_consent(facts: FactsView, events: Seq<EventView>)
    ensures
        course(facts, events) matches Course::At(_, stage) && !before_consent(stage)
            ==> exists|i: int| consented_at(facts, events, i),
    decreases events.len(),
{
    if events.len() > 0 {
        let earlier = events.drop_last();
        law_runs_have_consent(facts, earlier);
        if let Course::At(known, stage) = course(facts, earlier) {
            let n = events.len() - 1;
            assert(events.take(n) =~= earlier);
            if before_consent(stage) {
                if stage == Stage::Confirm && events.last() is Line && consents(
                    events.last()->Line_0,
                ) {
                    assert(consented_at(facts, events, n));
                }
            } else {
                let i = choose|i: int| consented_at(facts, earlier, i);
                assert(earlier.take(i) =~= events.take(i));
                assert(consented_at(facts, events, i));
            }
        }
    }
}

/// Every run of the full tier that comes to writing the configuration down has
/// its breaker wired, and no run of the simple tier touches the full tier's
/// stages. The tier never changes on the way.
pub proof fn law_runs_of_a_tier(facts: FactsView, events: Seq<EventView>)
    ensures
        course(facts, events) matches Course::At(known, stage) ==> {
            &&& known.args == facts.args
            &&& stage is Full ==> facts.args.tier == Tier::Full && stage->Full_0
                != FullStage::Ready && stage->Full_0 != FullStage::Breaker(BreakerStage::Ready)
            &&& facts.args.tier == Tier::Full && (stage == Stage::Save || stage == Stage::Done)
                ==> exists|i: int| breaker_wired_at(facts, events, i)
        },
    decreases events.len(),
{
    if events.len() > 0 {
        let earlier = events.drop_last();
        law_runs_of_a_tier(facts, earlier);
        if let Course::At(known, stage) = course(facts, earlier) {
            let n = events.len() - 1;
            assert(events.take(n) =~= earlier);
            if stage == Stage::Full(FullStage::Breaker(BreakerStage::Wiring)) && course(
                facts,
                events,
            ) is At {
                assert(breaker_wired_at(facts, events, n));
            }
            if facts.args.tier == Tier::Full && stage == Stage::Save {
                let i = choose|i: int| breaker_wired_at(facts, earlier, i);
                assert(earlier.take(i) =~= events.take(i));
                assert(breaker_wired_at(facts, events, i));
            }
        }
    }
}

/// The script that is walked at a stage; nothing at a stage that asks for something
/// else.
pub open spec fn script_at(facts: FactsView, stage: Stage) -> ScriptView {
    match facts.act(stage) {
        ActView::Walk(script) => script,
        ActView::Full(FullActView::Walk(script)) => script,
        ActView::Full(FullActView::Deploy { script, .. }) => script,
        _ => ScriptView::nothing(),
    }
}

/// The reply that an event is, if it is one.
pub open spec fn reply_in(event: EventView) -> Option<ReplyView> {
    match event {
        EventView::Replied(reply) => Some(reply),
        EventView::Full(FullEventView::Replied(reply)) => Some(reply),
        _ => None,
    }
}

/// If the `i`-th event is a reply, the last call of the script that was walked for
/// it has nothing against it.
pub open spec fn passed_in(facts: FactsView, events: Seq<EventView>, i: int) -> bool {
    match course(facts, events.take(i)) {
        Course::At(known, stage) => reply_in(events[i]) matches Some(reply) ==> script_at(
            known,
            stage,
        ).objection(reply) is None,
        _ => true,
    }
}

/// No run goes on behind a failed call: wherever it stands, every reply before
/// passed the last call of its stage's script.
pub proof fn law_runs_stop_at_a_failed_call(facts: FactsView, events: Seq<EventView>)
    requires
        course(facts, events) is At,
    ensures
        forall|i: int| 0 <= i < events.len() ==> #[trigger] passed_in(facts, events, i),
    decreases events.len(),
{
    if events.len() > 0 {
        let earlier = events.drop_last();
        let n = events.len() - 1;
        assert(events.take(n) =~= earlier);
        law_runs_stop_at_a_failed_call(facts, earlier);
        assert forall|i: int| 0 <= i < events.len() implies #[trigger] passed_in(
            facts,
            events,
            i,
        ) by {
            if i < n {
                assert(earlier.take(i) =~= events.take(i));
                assert(passed_in(facts, earlier, i));
            } else {
                assert(events[i] == events.last());
            }
        }
    }
}

/// If the `i`-th event is a reply, it is what a walk over the stage's script ended
/// with, having heard the `i`-th replies.
pub open spec fn walked_in(
    facts: FactsView,
    events: Seq<EventView>,
    replies: Seq<Seq<ReplyView>>,
    i: int,
) -> bool {
    match course(facts, events.take(i)) {
        Course::At(known, stage) => reply_in(events[i]) matches Some(reply) ==> walked(
            script_at(known, stage),
            replies[i],
            reply,
        ),
        _ => true,
    }
}

/// If the `i`-th event is a reply, every call of the stage's script was passed by
/// one of the `i`-th replies.
pub open spec fn all_passed_in(
    facts: FactsView,
    events: Seq<EventView>,
    replies: Seq<Seq<ReplyView>>,
    i: int,
) -> bool {
    match course(facts, events.take(i)) {
        Course::At(known, stage) => reply_in(events[i]) is Some ==> every_call_passed(
            script_at(known, stage),
            replies[i],
        ),
        _ => true,
    }
}

/// A run whose scripts are walked passes every call of every script on its way, and
/// where it comes to writing down the configuration of the full tier, the calls that
/// wire the breaker are among them.
pub proof fn law_runs_pass_every_call(
    facts: FactsView,
    events: Seq<EventView>,
    replies: Seq<Seq<ReplyView>>,
)
    requires
        forall|i: int| 0 <= i < events.len() ==> #[trigger] walked_in(facts, events, replies, i),
    ensures
        forall|i: int|
            0 <= i < events.len() ==> #[trigger] all_passed_in(facts, events, replies, i),
        course(facts, events) matches Course::At(_, stage) && facts.args.tier == Tier::Full && (
        stage == Stage::Save || stage == Stage::Done) ==> exists|i: int|
            breaker_wired_at(facts, events, i) && all_passed_in(facts, events, replies, i),
{
    assert forall|i: int| 0 <= i < events.len() implies #[trigger] all_passed_in(
        facts,
        events,
        replies,
        i,
    ) by {
        assert(walked_in(facts, events, replies, i));
        if let Course::At(known, stage) = course(facts, events.take(i)) {
            if let Some(reply) = reply_in(events[i]) {
                law_walked_means_passed(script_at(known, stage), replies[i], reply);
            }
        }
    }
    law_runs_of_a_tier(facts, events);
    if let Course::At(_, stage) = course(facts, events) {
        if facts.args.tier == Tier::Full && (stage == Stage::Save || stage == Stage::Done) {
            let i = choose|i: int| breaker_wired_at(facts, events, i);
            assert(all_passed_in(facts, events, replies, i));
        }
    }
}

/// The operations that the bucket's script calls are all different.
proof fn lemma_bucket_script(facts: FactsView)
    ensures
        ({
            let script = script_at(facts, Stage::Bucket);
            &&& script.items.len() == 15
            &&& script.asks("s3api"@, "create-bucket"@)
            &&& script.call_of("s3api"@, "create-bucket"@) == script.items[1]->Run_0
            &&& script.asks("s3api"@, "put-public-access-block"@)
            &&& script.call_of("s3api"@, "put-public-access-block"@) == script.items[4]->Run_0
            &&& script.asks("s3api"@, "put-bucket-lifecycle-configuration"@)
            &&& script.call_of("s3api"@, "put-bucket-lifecycle-configuration"@)
                == script.items[7]->Run_0
            &&& script.asks("iam"@, "create-user"@)
            &&& script.call_of("iam"@, "create-user"@) == script.items[10]->Run_0
            &&& script.asks("iam"@, "put-user-policy"@)
            &&& script.call_of("iam"@, "put-user-policy"@) == script.items[13]->Run_0
        }),
{
    reveal_strlit("create-bucket");
    reveal_strlit("put-public-access-block");
    reveal_strlit("put-bucket-lifecycle-configuration");
    reveal_strlit("create-user");
    reveal_strlit("put-user-policy");
    assert("create-bucket"@.len() == 13 && "put-public-access-block"@.len() == 23
        && "put-bucket-lifecycle-configuration"@.len() == 34 && "create-user"@.len() == 11
        && "put-user-policy"@.len() == 15);
    let script = script_at(facts, Stage::Bucket);
    assert(script.items.len() == 15);
    assert(script.items[1]->Run_0.words[1] == "create-bucket"@);
    assert(script.items[4]->Run_0.words[1] == "put-public-access-block"@);
    assert(script.items[7]->Run_0.words[1] == "put-bucket-lifecycle-configuration"@);
    assert(script.items[10]->Run_0.words[1] == "create-user"@);
    assert(script.items[13]->Run_0.words[1] == "put-user-policy"@);
    assert forall|j: int| 0 <= j < 15 implies (#[trigger] script.items[j] is Run <==> j == 1 || j
        == 4 || j == 7 || j == 10 || j == 13) by {}
    lemma_sole(script, "s3api"@, "create-bucket"@, 1);
    lemma_sole(script, "s3api"@, "put-public-access-block"@, 4);
    lemma_sole(script, "s3api"@, "put-bucket-lifecycle-configuration"@, 7);
    lemma_sole(script, "iam"@, "create-user"@, 10);
    lemma_sole(script, "iam"@, "put-user-policy"@, 13);
}

/// A lifecycle configuration has every object deleted after so many days.
pub open spec fn expires_all_after(configuration: Seq<char>, days: nat) -> bool {
    has_text(
        configuration,
        "\"Status\":\"Enabled\",\"Filter\":{},\"Expiration\":{\"Days\":"@ + decimal(days) + "}"@,
    )
}

/// Objects delete themselves after the days that were asked for, which are the days
/// that the step's label states: the lifecycle of the bucket that is created says so.
pub proof fn law_objects_expire_as_asked(facts: FactsView)
    ensures
        ({
            let script = script_at(facts, Stage::Bucket);
            let create = script.call_of("s3api"@, "create-bucket"@);
            let lifecycle = script.call_of("s3api"@, "put-bucket-lifecycle-configuration"@);
            &&& script.asks("s3api"@, "create-bucket"@)
            &&& script.asks("s3api"@, "put-bucket-lifecycle-configuration"@)
            &&& create.gives("--bucket"@, facts.bucket)
            &&& lifecycle.gives("--bucket"@, facts.bucket)
            &&& exists|configuration: Seq<char>|
                lifecycle.gives("--lifecycle-configuration"@, configuration)
                    && #[trigger] expires_all_after(configuration, facts.args.expire_days)
            &&& script.items.contains(
                ItemView::Begin("lifecycle · "@ + decimal(facts.args.expire_days) + " days"@),
            )
        }),
{
    lemma_bucket_script(facts);
    let script = script_at(facts, Stage::Bucket);
    let lifecycle = script.items[7]->Run_0;
    let days = facts.args.expire_days;
    let configuration = lifecycle_text(days);
    assert(given_at(script.items[1]->Run_0.words, 2, "--bucket"@, facts.bucket));
    assert(given_at(lifecycle.words, 2, "--bucket"@, facts.bucket));
    assert(given_at(lifecycle.words, 4, "--lifecycle-configuration"@, configuration));
    let head = "{\"Rules\":[{\"ID\":\"dove-expire\",\"Status\":\"Enabled\",\"Filter\":{},\"Expiration\":{\"Days\":"@;
    let part = "\"Status\":\"Enabled\",\"Filter\":{},\"Expiration\":{\"Days\":"@;
    reveal_strlit("{\"Rules\":[{\"ID\":\"dove-expire\",\"Status\":\"Enabled\",\"Filter\":{},\"Expiration\":{\"Days\":");
    reveal_strlit("\"Status\":\"Enabled\",\"Filter\":{},\"Expiration\":{\"Days\":");
    reveal_strlit("}}]}");
    reveal_strlit("}");
    assert(part =~= head.subrange(head.len() - part.len(), head.len() as int));
    lemma_suffix_grows(head, part, decimal(days));
    assert("}"@ =~= "}}]}"@.subrange(0, 1));
    lemma_across(head + decimal(days), part + decimal(days), "}}]}"@, "}"@);
    assert(expires_all_after(configuration, days));
    assert(script.items[6] == ItemView::Begin("lifecycle · "@ + decimal(days) + " days"@));
}

/// The bucket that is created is private: all four switches of its public access block
/// are on.
pub proof fn law_bucket_is_private(facts: FactsView)
    ensures
        ({
            let script = script_at(facts, Stage::Bucket);
            let block = script.call_of("s3api"@, "put-public-access-block"@);
            &&& script.asks("s3api"@, "put-public-access-block"@)
            &&& script.call_of("s3api"@, "create-bucket"@).gives("--bucket"@, facts.bucket)
            &&& block.gives("--bucket"@, facts.bucket)
            &&& exists|switches: Seq<char>|
                block.gives("--public-access-block-configuration"@, switches) && has_text(
                    switches,
                    "BlockPublicAcls=true"@,
                ) && has_text(switches, "IgnorePublicAcls=true"@) && has_text(
                    switches,
                    "BlockPublicPolicy=true"@,
                ) && #[trigger] has_text(switches, "RestrictPublicBuckets=true"@)
        }),
{
    lemma_bucket_script(facts);
    let script = script_at(facts, Stage::Bucket);
    let block = script.items[4]->Run_0;
    let switches = PUBLIC_ACCESS_BLOCK@;
    assert(given_at(script.items[1]->Run_0.words, 2, "--bucket"@, facts.bucket));
    assert(given_at(block.words, 2, "--bucket"@, facts.bucket));
    assert(given_at(block.words, 4, "--public-access-block-configuration"@, switches));
    reveal_strlit("BlockPublicAcls=true,IgnorePublicAcls=true,BlockPublicPolicy=true,RestrictPublicBuckets=true");
    reveal_strlit("BlockPublicAcls=true");
    reveal_strlit("IgnorePublicAcls=true");
    reveal_strlit("BlockPublicPolicy=true");
    reveal_strlit("RestrictPublicBuckets=true");
    assert(switches.subrange(0, 20) =~= "BlockPublicAcls=true"@);
    assert(stands_at(switches, "BlockPublicAcls=true"@, 0));
    assert(switches.subrange(21, 42) =~= "IgnorePublicAcls=true"@);
    assert(stands_at(switches, "IgnorePublicAcls=true"@, 21));
    assert(switches.subrange(43, 65) =~= "BlockPublicPolicy=true"@);
    assert(stands_at(switches, "BlockPublicPolicy=true"@, 43));
    assert(switches.subrange(66, 92) =~= "RestrictPublicBuckets=true"@);
    assert(stands_at(switches, "RestrictPublicBuckets=true"@, 66));
    assert(has_text(switches, "RestrictPublicBuckets=true"@));
}

/// The user that is created is the one that gets the policy, and the one whose key is
/// minted; and the policy lets it do to the created bucket what links and uploads,
/// listings and revocations take.
pub proof fn law_the_signer_may_sign(facts: FactsView)
    ensures
        ({
            let script = script_at(facts, Stage::Bucket);
            let create = script.call_of("iam"@, "create-user"@);
            let grant = script.call_of("iam"@, "put-user-policy"@);
            let mint = script_at(facts, Stage::Mint).call_of("iam"@, "create-access-key"@);
            &&& script.asks("iam"@, "create-user"@)
            &&& script.asks("iam"@, "put-user-policy"@)
            &&& script_at(facts, Stage::Mint).asks("iam"@, "create-access-key"@)
            &&& exists|user: Seq<char>| #[trigger]
                create.gives("--user-name"@, user) && grant.gives("--user-name"@, user)
                    && mint.gives("--user-name"@, user)
            &&& exists|policy: Seq<char>|
                grant.gives("--policy-document"@, policy) && #[trigger] has_text(
                    policy,
                    "\"Action\":[\"s3:PutObject\",\"s3:GetObject\",\"s3:DeleteObject\"],\"Resource\":\"arn:aws:s3:::"@
                        + facts.bucket + "/*\""@,
                ) && has_text(
                    policy,
                    "\"Action\":[\"s3:ListBucket\"],\"Resource\":\"arn:aws:s3:::"@ + facts.bucket
                        + "\""@,
                )
            &&& script.call_of("s3api"@, "create-bucket"@).gives("--bucket"@, facts.bucket)
        }),
{
    lemma_bucket_script(facts);
    let script = script_at(facts, Stage::Bucket);
    let create = script.items[10]->Run_0;
    let grant = script.items[13]->Run_0;
    let minting = script_at(facts, Stage::Mint);
    assert(minting.items.len() == 2);
    lemma_sole(minting, "iam"@, "create-access-key"@, 1);
    let mint = minting.items[1]->Run_0;
    assert(given_at(script.items[1]->Run_0.words, 2, "--bucket"@, facts.bucket));
    assert(given_at(create.words, 2, "--user-name"@, facts.bucket));
    assert(given_at(grant.words, 2, "--user-name"@, facts.bucket));
    assert(given_at(mint.words, 2, "--user-name"@, facts.bucket));
    assert(create.gives("--user-name"@, facts.bucket));
    let policy = share_policy_text(facts.bucket);
    assert(given_at(grant.words, 6, "--policy-document"@, policy));
    let b = facts.bucket;
    let t0 = "{\"Version\":\"2012-10-17\",\"Statement\":[{\"Effect\":\"Allow\",\"Action\":[\"s3:PutObject\",\"s3:GetObject\",\"s3:DeleteObject\"],\"Resource\":\"arn:aws:s3:::"@;
    let t1 = "/*\"},{\"Effect\":\"Allow\",\"Action\":[\"s3:ListBucket\"],\"Resource\":\"arn:aws:s3:::"@;
    let t2 = "\"}]}"@;
    let p0 = "\"Action\":[\"s3:PutObject\",\"s3:GetObject\",\"s3:DeleteObject\"],\"Resource\":\"arn:aws:s3:::"@;
    let p1 = "\"Action\":[\"s3:ListBucket\"],\"Resource\":\"arn:aws:s3:::"@;
    reveal_strlit("{\"Version\":\"2012-10-17\",\"Statement\":[{\"Effect\":\"Allow\",\"Action\":[\"s3:PutObject\",\"s3:GetObject\",\"s3:DeleteObject\"],\"Resource\":\"arn:aws:s3:::");
    reveal_strlit("/*\"},{\"Effect\":\"Allow\",\"Action\":[\"s3:ListBucket\"],\"Resource\":\"arn:aws:s3:::");
    reveal_strlit("\"}]}");
    reveal_strlit("\"Action\":[\"s3:PutObject\",\"s3:GetObject\",\"s3:DeleteObject\"],\"Resource\":\"arn:aws:s3:::");
    reveal_strlit("\"Action\":[\"s3:ListBucket\"],\"Resource\":\"arn:aws:s3:::");
    reveal_strlit("/*\"");
    reveal_strlit("\"");
    assert(p0 =~= t0.subrange(t0.len() - p0.len(), t0.len() as int));
    lemma_suffix_grows(t0, p0, b);
    assert("/*\""@ =~= t1.subrange(0, 3));
    lemma_across(t0 + b, p0 + b, t1, "/*\""@);
    lemma_found_before(t0 + b + t1, p0 + b + "/*\""@, b);
    lemma_found_before(t0 + b + t1 + b, p0 + b + "/*\""@, t2);
    assert(p1 =~= t1.subrange(t1.len() - p1.len(), t1.len() as int));
    assert(p1 =~= (t0 + b + t1).subrange(
        (t0 + b + t1).len() - p1.len(),
        (t0 + b + t1).len() as int,
    ));
    lemma_suffix_grows(t0 + b + t1, p1, b);
    assert("\""@ =~= t2.subrange(0, 1));
    lemma_across(t0 + b + t1 + b, p1 + b, t2, "\""@);
}

/// The key that is minted is the key that is kept: its id and its secret are those that
/// the reply states.
pub proof fn law_minted_keys_are_kept(facts: FactsView, reply: ReplyView)
    requires
        facts.after(Stage::Mint, EventView::Replied(reply)) is Ok,
    ensures
        ({
            let (next, to) = facts.after(Stage::Mint, EventView::Replied(reply))->Ok_0;
            let value = json_read(reply.output())->Ok_0;
            &&& to == Stage::StoreKeys
            &&& json_read(reply.output()) is Ok
            &&& next.act(Stage::StoreKeys) matches ActView::SaveSecrets(kept) && value.inner_text(
                "AccessKey"@,
                "AccessKeyId"@,
            ) == Some(kept.access_key_id) && value.inner_text("AccessKey"@, "SecretAccessKey"@)
                == Some(kept.secret_access_key)
        }),
{
}

/// A bucket is created in the region that was asked for. In `us-east-1` that is where
/// one without a location is.
pub proof fn law_bucket_is_in_its_region(facts: FactsView)
    ensures
        ({
            let create = script_at(facts, Stage::Bucket).call_of("s3api"@, "create-bucket"@);
            let region = facts.args.region;
            &&& region != "us-east-1"@ ==> create.gives("--region"@, region) && create.gives(
                "--create-bucket-configuration"@,
                "LocationConstraint="@ + region,
            )
            &&& region == "us-east-1"@ ==> create.words.len() == 4
        }),
{
    lemma_bucket_script(facts);
    let create = script_at(facts, Stage::Bucket).items[1]->Run_0;
    let region = facts.args.region;
    if region != "us-east-1"@ {
        assert(given_at(create.words, 4, "--region"@, region));
        assert(given_at(
            create.words,
            6,
            "--create-bucket-configuration"@,
            "LocationConstraint="@ + region,
        ));
    }
}

/// What the access gate's role may do to what. It reads and counts down the rows of the
/// table, reads the objects of the bucket, reads the parameter, and decrypts that.
pub proof fn law_gate_role_may_serve(
    account: Seq<char>,
    region: Seq<char>,
    table: Seq<char>,
    bucket: Seq<char>,
)
    ensures
        ({
            let policy = gate_role_text(account, region, table, bucket);
            let parameter = "/dove/"@ + bucket + "/gate-secret"@;
            &&& has_text(
                policy,
                "\"Action\":[\"dynamodb:GetItem\",\"dynamodb:UpdateItem\"],\"Resource\":\"arn:aws:dynamodb:"@
                    + region + ":"@ + account + ":table/"@ + table + "\""@,
            )
            &&& has_text(policy, "\"Action\":\"s3:GetObject\",\"Resource\":\"arn:aws:s3:::"@ + bucket + "/*\""@)
            &&& has_text(
                policy,
                "\"Action\":\"ssm:GetParameter\",\"Resource\":\"arn:aws:ssm:"@ + region + ":"@ + account
                    + ":parameter"@ + parameter + "\""@,
            )
            &&& has_text(
                policy,
                "\"Action\":\"kms:Decrypt\",\"Resource\":\"arn:aws:kms:"@ + region + ":"@ + account + ":key/*\""@,
            )
        }),
{
    reveal_strlit("{\"Version\":\"2012-10-17\",\"Statement\":[{\"Effect\":\"Allow\",\"Action\":[\"logs:CreateLogGroup\",\"logs:CreateLogStream\",\"logs:PutLogEvents\"],\"Resource\":\"arn:aws:logs:*:");
    reveal_strlit(":*\"},{\"Effect\":\"Allow\",\"Action\":[\"dynamodb:GetItem\",\"dynamodb:UpdateItem\"],\"Resource\":\"arn:aws:dynamodb:");
    reveal_strlit("\"},{\"Effect\":\"Allow\",\"Action\":\"s3:GetObject\",\"Resource\":\"arn:aws:s3:::");
    reveal_strlit("/*\"},{\"Effect\":\"Allow\",\"Action\":\"ssm:GetParameter\",\"Resource\":\"arn:aws:ssm:");
    reveal_strlit("/gate-secret\"},{\"Effect\":\"Allow\",\"Action\":\"kms:Decrypt\",\"Resource\":\"arn:aws:kms:");
    reveal_strlit(":key/*\",\"Condition\":{\"StringEquals\":{\"kms:ViaService\":\"ssm.");
    reveal_strlit("\"Action\":[\"dynamodb:GetItem\",\"dynamodb:UpdateItem\"],\"Resource\":\"arn:aws:dynamodb:");
    reveal_strlit("\"Action\":\"s3:GetObject\",\"Resource\":\"arn:aws:s3:::");
    reveal_strlit("\"Action\":\"ssm:GetParameter\",\"Resource\":\"arn:aws:ssm:");
    reveal_strlit("\"Action\":\"kms:Decrypt\",\"Resource\":\"arn:aws:kms:");
    reveal_strlit("\"");
    reveal_strlit("/*\"");
    reveal_strlit(":parameter/dove/");
    reveal_strlit(":parameter");
    reveal_strlit("/dove/");
    reveal_strlit("/gate-secret");
    reveal_strlit("/gate-secret\"");
    reveal_strlit(":key/*\"");
    let (a, r, t, b) = (account, region, table, bucket);
    let (l0, l1, l2, l3, l4, l5, l6) = (
        "{\"Version\":\"2012-10-17\",\"Statement\":[{\"Effect\":\"Allow\",\"Action\":[\"logs:CreateLogGroup\",\"logs:CreateLogStream\",\"logs:PutLogEvents\"],\"Resource\":\"arn:aws:logs:*:"@,
        ":*\"},{\"Effect\":\"Allow\",\"Action\":[\"dynamodb:GetItem\",\"dynamodb:UpdateItem\"],\"Resource\":\"arn:aws:dynamodb:"@,
        "\"},{\"Effect\":\"Allow\",\"Action\":\"s3:GetObject\",\"Resource\":\"arn:aws:s3:::"@,
        "/*\"},{\"Effect\":\"Allow\",\"Action\":\"ssm:GetParameter\",\"Resource\":\"arn:aws:ssm:"@,
        "/gate-secret\"},{\"Effect\":\"Allow\",\"Action\":\"kms:Decrypt\",\"Resource\":\"arn:aws:kms:"@,
        ":key/*\",\"Condition\":{\"StringEquals\":{\"kms:ViaService\":\"ssm."@,
        ".amazonaws.com\"},\"ForAnyValue:StringEquals\":{\"kms:ResourceAliases\":\"alias/aws/ssm\"}}}]}"@,
    );
    let (x1, x2, x3, x4) = (
        "\"Action\":[\"dynamodb:GetItem\",\"dynamodb:UpdateItem\"],\"Resource\":\"arn:aws:dynamodb:"@,
        "\"Action\":\"s3:GetObject\",\"Resource\":\"arn:aws:s3:::"@,
        "\"Action\":\"ssm:GetParameter\",\"Resource\":\"arn:aws:ssm:"@,
        "\"Action\":\"kms:Decrypt\",\"Resource\":\"arn:aws:kms:"@,
    );
    let c = ":"@;
    let t1 = l0 + a + l1;
    let t2 = t1 + r + c + a + ":table/"@ + t;
    let t3 = t2 + l2;
    let t4 = t3 + b;
    let t5 = t4 + l3;
    let t6 = t5 + r + c + a + ":parameter/dove/"@ + b;
    let t7 = t6 + l4;
    let t8 = t7 + r + c + a;
    let t9 = t8 + l5;
    assert(gate_role_text(a, r, t, b) == t9 + r + l6);

    assert(x1 =~= l1.subrange(l1.len() - x1.len(), l1.len() as int));
    assert(x1 =~= t1.subrange(t1.len() - x1.len(), t1.len() as int));
    lemma_suffix_grows(t1, x1, r);
    lemma_suffix_grows(t1 + r, x1 + r, c);
    lemma_suffix_grows(t1 + r + c, x1 + r + c, a);
    lemma_suffix_grows(t1 + r + c + a, x1 + r + c + a, ":table/"@);
    lemma_suffix_grows(t1 + r + c + a + ":table/"@, x1 + r + c + a + ":table/"@, t);
    assert("\""@ =~= l2.subrange(0, 1));
    let n1 = x1 + r + c + a + ":table/"@ + t + "\""@;
    lemma_across(t2, x1 + r + c + a + ":table/"@ + t, l2, "\""@);
    lemma_found_before(t3, n1, b);
    lemma_found_before(t4, n1, l3);
    lemma_found_on(t5, n1, r, c, a, ":parameter/dove/"@, b, l4);
    lemma_found_on(t7, n1, r, c, a, l5, r, l6);

    assert(x2 =~= t3.subrange(t3.len() - x2.len(), t3.len() as int)) by {
        assert(x2 =~= l2.subrange(l2.len() - x2.len(), l2.len() as int));
    }
    lemma_suffix_grows(t3, x2, b);
    assert("/*\""@ =~= l3.subrange(0, 3));
    let n2 = x2 + b + "/*\""@;
    lemma_across(t4, x2 + b, l3, "/*\""@);
    lemma_found_on(t5, n2, r, c, a, ":parameter/dove/"@, b, l4);
    lemma_found_on(t7, n2, r, c, a, l5, r, l6);

    assert(x3 =~= t5.subrange(t5.len() - x3.len(), t5.len() as int)) by {
        assert(x3 =~= l3.subrange(l3.len() - x3.len(), l3.len() as int));
    }
    lemma_suffix_grows(t5, x3, r);
    lemma_suffix_grows(t5 + r, x3 + r, c);
    lemma_suffix_grows(t5 + r + c, x3 + r + c, a);
    lemma_suffix_grows(t5 + r + c + a, x3 + r + c + a, ":parameter/dove/"@);
    lemma_suffix_grows(
        t5 + r + c + a + ":parameter/dove/"@,
        x3 + r + c + a + ":parameter/dove/"@,
        b,
    );
    assert("/gate-secret\""@ =~= l4.subrange(0, 13));
    let n3 = x3 + r + c + a + ":parameter/dove/"@ + b + "/gate-secret\""@;
    lemma_across(t6, x3 + r + c + a + ":parameter/dove/"@ + b, l4, "/gate-secret\""@);
    lemma_found_on(t7, n3, r, c, a, l5, r, l6);
    assert(n3 =~= x3 + r + c + a + ":parameter"@ + ("/dove/"@ + b + "/gate-secret"@) + "\""@);

    assert(x4 =~= t7.subrange(t7.len() - x4.len(), t7.len() as int)) by {
        assert(x4 =~= l4.subrange(l4.len() - x4.len(), l4.len() as int));
    }
    lemma_suffix_grows(t7, x4, r);
    lemma_suffix_grows(t7 + r, x4 + r, c);
    lemma_suffix_grows(t7 + r + c, x4 + r + c, a);
    assert(":key/*\""@ =~= l5.subrange(0, 7));
    let n4 = x4 + r + c + a + ":key/*\""@;
    lemma_across(t8, x4 + r + c + a, l5, ":key/*\""@);
    lemma_found_before(t9, n4, r);
    lemma_found_before(t9 + r, n4, l6);
}

/// What stands in a text stands in it with six more behind.
proof fn lemma_found_on(
    hay: Seq<char>,
    needle: Seq<char>,
    a: Seq<char>,
    b: Seq<char>,
    c: Seq<char>,
    d: Seq<char>,
    e: Seq<char>,
    f: Seq<char>,
)
    requires
        has_text(hay, needle),
    ensures
        has_text(hay + a + b + c + d + e + f, needle),
{
    lemma_found_before(hay, needle, a);
    lemma_found_before(hay + a, needle, b);
    lemma_found_before(hay + a + b, needle, c);
    lemma_found_before(hay + a + b + c, needle, d);
    lemma_found_before(hay + a + b + c + d, needle, e);
    lemma_found_before(hay + a + b + c + d + e, needle, f);
}

/// How far down the way to everything a stage is.
pub open spec fn level(stage: Stage) -> int {
    match stage {
        Stage::Bucket => 1,
        Stage::Keys => 2,
        Stage::Mint => 2,
        Stage::StoreKeys => 2,
        Stage::Minted => 2,
        Stage::Reuse => 2,
        Stage::Prior => 2,
        Stage::Full(FullStage::Table) => 3,
        Stage::Full(FullStage::GateSecret) => 4,
        Stage::Full(FullStage::StoreSecret) => 4,
        Stage::Full(FullStage::SecretParam) => 4,
        Stage::Full(FullStage::Deploy) => 5,
        Stage::Full(FullStage::Api(_)) => 6,
        Stage::Full(FullStage::Distribution) => 7,
        Stage::Full(FullStage::Front(_)) => 8,
        Stage::Full(FullStage::Breaker(BreakerStage::Empowering)) => 9,
        Stage::Full(FullStage::Breaker(BreakerStage::Deploying)) => 10,
        Stage::Full(FullStage::Breaker(BreakerStage::Announcing)) => 11,
        Stage::Full(FullStage::Breaker(BreakerStage::Wiring)) => 12,
        Stage::Save => 13,
        Stage::Done => 14,
        _ => 0,
    }
}

/// A stage is the last of its level.
pub open spec fn ends_level(stage: Stage) -> bool {
    match stage {
        Stage::Confirm => true,
        Stage::Bucket => true,
        Stage::Prior => true,
        Stage::Full(FullStage::Table) => true,
        Stage::Full(FullStage::SecretParam) => true,
        Stage::Full(FullStage::Deploy) => true,
        Stage::Full(FullStage::Api(at)) => at == ApiStage::Reusing || at == ApiStage::Wiring,
        Stage::Full(FullStage::Distribution) => true,
        Stage::Full(FullStage::Front(at)) => at == FrontStage::Granting,
        Stage::Full(FullStage::Breaker(_)) => true,
        Stage::Save => true,
        _ => false,
    }
}

/// The `i`-th event was what happened at a stage that ends this level.
pub open spec fn left_at(facts: FactsView, events: Seq<EventView>, i: int, k: int) -> bool {
    &&& 0 <= i < events.len()
    &&& course(facts, events.take(i)) matches Course::At(_, stage) && level(stage) == k
        && ends_level(stage)
}

/// The last stage of this level is behind.
pub open spec fn passed_level(facts: FactsView, events: Seq<EventView>, k: int) -> bool {
    exists|i: int| #[trigger] left_at(facts, events, i, k)
}

/// Nothing is left out on the way: wherever a run stands, it has been through the last
/// stage of every level before. So a run of the full tier that comes to an end has put
/// up the bucket, the table, the secret, the function, the API, the front and the breaker,
/// and one of the simple tier the bucket and its key.
pub proof fn law_runs_leave_nothing_out(facts: FactsView, events: Seq<EventView>)
    ensures
        course(facts, events) matches Course::At(known, stage) ==> {
            &&& known.args == facts.args
            &&& facts.args.tier == Tier::Full ==> forall|k: int|
                0 <= k < level(stage) ==> #[trigger] passed_level(facts, events, k)
            &&& facts.args.tier == Tier::Simple ==> level(stage) <= 2 || level(stage) >= 13
            &&& facts.args.tier == Tier::Simple ==> forall|k: int|
                0 <= k < level(stage) && (k <= 2 || k >= 13) ==> #[trigger] passed_level(
                    facts,
                    events,
                    k,
                )
            &&& stage is Full ==> stage->Full_0 != FullStage::Ready && stage->Full_0
                != FullStage::Breaker(BreakerStage::Ready) && stage->Full_0 != FullStage::Api(
                ApiStage::Ready,
            ) && stage->Full_0 != FullStage::Front(FrontStage::Ready)
        },
    decreases events.len(),
{
    if events.len() > 0 {
        let earlier = events.drop_last();
        law_runs_leave_nothing_out(facts, earlier);
        if let Course::At(known, stage) = course(facts, earlier) {
            if let Course::At(next, to) = course(facts, events) {
                let n = events.len() - 1;
                assert(events.take(n) =~= earlier);
                assert(known.after(stage, events.last()) == Ok::<(FactsView, Stage), Seq<char>>(
                    (next, to),
                ));
                assert(level(to) <= level(stage) || (ends_level(stage) && (level(to) == level(stage)
                    + 1 || (facts.args.tier == Tier::Simple && level(stage) == 2 && level(to)
                    == 13))));
                assert forall|k: int|
                    0 <= k < level(to) && (facts.args.tier == Tier::Full || k <= 2 || k
                        >= 13) implies #[trigger] passed_level(facts, events, k) by {
                    if k < level(stage) {
                        assert(passed_level(facts, earlier, k));
                        let i = choose|i: int| #[trigger] left_at(facts, earlier, i, k);
                        assert(earlier.take(i) =~= events.take(i));
                        assert(left_at(facts, events, i, k));
                    } else {
                        assert(left_at(facts, events, n, k));
                    }
                }
            }
        }
    }
}

/// The `i`-th event happened where the bucket of this name was to be created.
pub open spec fn creates_bucket(
    facts: FactsView,
    events: Seq<EventView>,
    i: int,
    bucket: Seq<char>,
) -> bool {
    &&& 0 <= i < events.len()
    &&& course(facts, events.take(i)) matches Course::At(then, stage) && stage == Stage::Bucket
        && script_at(then, stage).call_of("s3api"@, "create-bucket"@).gives("--bucket"@, bucket)
}

/// The `i`-th event happened where the table of this name was to be created.
pub open spec fn creates_table(
    facts: FactsView,
    events: Seq<EventView>,
    i: int,
    table: Seq<char>,
) -> bool {
    &&& 0 <= i < events.len()
    &&& course(facts, events.take(i)) matches Course::At(then, stage) && stage == Stage::Full(
        FullStage::Table,
    ) && script_at(then, stage).call_of("dynamodb"@, "create-table"@).gives(
        "--table-name"@,
        table,
    )
}

/// The `i`-th event was the reply that says whose account this is.
pub open spec fn identifies(
    facts: FactsView,
    events: Seq<EventView>,
    i: int,
    account: Seq<char>,
) -> bool {
    &&& 0 <= i < events.len()
    &&& course(facts, events.take(i)) matches Course::At(_, stage) && stage == Stage::Identity
    &&& events[i] matches EventView::Replied(reply) && json_read(reply.output()) is Ok && (
    json_read(reply.output())->Ok_0.text("Account"@) == Some(account) || (json_read(
        reply.output(),
    )->Ok_0.text("Account"@) is None && account == "?"@))
}

/// Some reply said that this is the account.
#[verifier::opaque]
pub open spec fn was_identified(
    facts: FactsView,
    events: Seq<EventView>,
    account: Seq<char>,
) -> bool {
    exists|i: int| #[trigger] identifies(facts, events, i, account)
}

/// The bucket of this name was created.
#[verifier::opaque]
pub open spec fn bucket_created(
    facts: FactsView,
    events: Seq<EventView>,
    bucket: Seq<char>,
) -> bool {
    exists|i: int| #[trigger] creates_bucket(facts, events, i, bucket)
}

/// The table of this name was created.
#[verifier::opaque]
pub open spec fn table_created(facts: FactsView, events: Seq<EventView>, table: Seq<char>) -> bool {
    exists|i: int| #[trigger] creates_table(facts, events, i, table)
}

/// What happened stays so.
proof fn lemma_happened(
    facts: FactsView,
    events: Seq<EventView>,
    account: Seq<char>,
    bucket: Seq<char>,
    table: Seq<char>,
)
    requires
        events.len() > 0,
    ensures
        was_identified(facts, events.drop_last(), account) ==> was_identified(
            facts,
            events,
            account,
        ),
        bucket_created(facts, events.drop_last(), bucket) ==> bucket_created(facts, events, bucket),
        table_created(facts, events.drop_last(), table) ==> table_created(facts, events, table),
{
    reveal(was_identified);
    reveal(bucket_created);
    reveal(table_created);
    let earlier = events.drop_last();
    if was_identified(facts, earlier, account) {
        let i = choose|i: int| #[trigger] identifies(facts, earlier, i, account);
        assert(earlier.take(i) =~= events.take(i));
        assert(identifies(facts, events, i, account));
    }
    if bucket_created(facts, earlier, bucket) {
        let i = choose|i: int| #[trigger] creates_bucket(facts, earlier, i, bucket);
        assert(earlier.take(i) =~= events.take(i));
        assert(creates_bucket(facts, events, i, bucket));
    }
    if table_created(facts, earlier, table) {
        let i = choose|i: int| #[trigger] creates_table(facts, earlier, i, table);
        assert(earlier.take(i) =~= events.take(i));
        assert(creates_table(facts, events, i, table));
    }
}

/// What the last event was about happened.
proof fn lemma_happens(
    facts: FactsView,
    events: Seq<EventView>,
    known: FactsView,
    stage: Stage,
    next: FactsView,
)
    requires
        events.len() > 0,
        course(facts, events.drop_last()) == Course::At(known, stage),
        course(facts, events) matches Course::At(then, _) && then == next,
    ensures
        stage == Stage::Identity ==> was_identified(facts, events, next.account),
        stage == Stage::Bucket ==> bucket_created(facts, events, known.bucket),
        stage == Stage::Full(FullStage::Table) ==> table_created(
            facts,
            events,
            known.full.table(),
        ),
{
    reveal(was_identified);
    reveal(bucket_created);
    reveal(table_created);
    let n = events.len() - 1;
    assert(events.take(n) =~= events.drop_last());
    assert(events[n] == events.last());
    if stage == Stage::Identity {
        assert(identifies(facts, events, n, next.account));
    }
    if stage == Stage::Bucket {
        law_objects_expire_as_asked(known);
        assert(creates_bucket(facts, events, n, known.bucket));
    }
    if stage == Stage::Full(FullStage::Table) {
        lemma_names_its_table(known.full);
        assert(script_at(known, stage) == walked_at(known.full, FullStage::Table));
        assert(creates_table(facts, events, n, known.full.table()));
    }
}

/// What a run knows of the names of things is what it was asked for and what it was told.
spec fn named_in(facts: FactsView, events: Seq<EventView>, known: FactsView, stage: Stage) -> bool {
    &&& known.args == facts.args
    &&& facts.args.profile is Some && stage != Stage::Aws ==> known.profile == facts.args.profile
    &&& facts.args.profile is Some ==> stage != Stage::Profiles && stage != Stage::Profile
    &&& stage == Stage::Confirm || level(stage) > 0 ==> {
        &&& was_identified(facts, events, known.account)
        &&& known.bucket == (match facts.args.bucket {
            Some(bucket) => bucket,
            None => "dove-shares-"@ + known.account,
        })
    }
    &&& level(stage) > 1 ==> bucket_created(facts, events, known.bucket)
    &&& level(stage) > 2 && facts.args.tier == Tier::Full ==> {
        &&& wired(known.full)
        &&& known.full.bucket == known.bucket
        &&& known.full.account == known.account
        &&& known.full.region == facts.args.region
    }
    &&& level(stage) > 3 && facts.args.tier == Tier::Full ==> table_created(
        facts,
        events,
        known.full.table(),
    )
    &&& stage is Full ==> facts.args.tier == Tier::Full
}

proof fn lemma_named_in(facts: FactsView, events: Seq<EventView>)
    ensures
        course(facts, events) matches Course::At(known, stage) ==> named_in(
            facts,
            events,
            known,
            stage,
        ),
    decreases events.len(),
{
    if events.len() > 0 {
        let earlier = events.drop_last();
        lemma_named_in(facts, earlier);
        law_runs_leave_nothing_out(facts, earlier);
        if let Course::At(known, stage) = course(facts, earlier) {
            if let Course::At(next, to) = course(facts, events) {
                assert(known.after(stage, events.last()) == Ok::<(FactsView, Stage), Seq<char>>(
                    (next, to),
                ));
                lemma_happened(facts, events, known.account, known.bucket, known.full.table());
                lemma_happens(facts, events, known, stage, next);
                if let Stage::Full(at) = stage {
                    law_the_full_tier_is_one(
                        known.full.region,
                        known.full.account,
                        known.full.bucket,
                        known.archive,
                        known.breaker_archive,
                        known.full,
                        at,
                        events.last()->Full_0,
                    );
                    lemma_named_full(facts, events, known, at, next, to);
                } else {
                    law_the_full_tier_is_one(
                        facts.args.region,
                        known.account,
                        known.bucket,
                        known.archive,
                        known.breaker_archive,
                        known.full,
                        FullStage::Ready,
                        FullEventView::Config(None),
                    );
                }
            }
        }
    }
}

proof fn lemma_named_full(
    facts: FactsView,
    events: Seq<EventView>,
    known: FactsView,
    at: FullStage,
    next: FactsView,
    to: Stage,
)
    requires
        events.len() > 0,
        Stage::Full(at).fits(events.last()),
        known.after(Stage::Full(at), events.last()) == Ok::<(FactsView, Stage), Seq<char>>(
            (next, to),
        ),
        named_in(facts, events.drop_last(), known, Stage::Full(at)),
        at != FullStage::Ready,
        at != FullStage::Breaker(BreakerStage::Ready),
        at != FullStage::Api(ApiStage::Ready),
        at != FullStage::Front(FrontStage::Ready),
        wired(next.full),
        next.full.region == known.full.region,
        next.full.account == known.full.account,
        next.full.bucket == known.full.bucket,
        was_identified(facts, events, known.account),
        bucket_created(facts, events, known.bucket),
        table_created(facts, events, known.full.table()),
    ensures
        named_in(facts, events, next, to),
{
    assert(next == (FactsView { full: next.full, ..known }));
    assert(to is Full || to == Stage::Save);
}

/// The configuration that is kept is of what was stood up. Its bucket is the one that was
/// created, which is the one that was asked for, or else is named after the account that
/// the operator is in; its region and its profile are those that were asked for; and in
/// the full tier its table is the one that was created, and its distribution and the
/// access gate's URL are those of the front, unless there was a custom domain.
pub proof fn law_config_is_of_what_stands(
    args: ProvisionArgsView,
    archive: Seq<char>,
    breaker_archive: Seq<char>,
    events: Seq<EventView>,
    known: FactsView,
)
    requires
        course(FactsView::of(args, archive, breaker_archive), events) == Course::At(
            known,
            Stage::Save,
        ),
    ensures
        ({
            let first = FactsView::of(args, archive, breaker_archive);
            &&& known.act(Stage::Save) matches ActView::SaveConfig(config) && {
                &&& bucket_created(first, events, config.bucket)
                &&& args.bucket is Some ==> config.bucket == args.bucket->0
                &&& args.bucket is None ==> exists|account: Seq<char>| #[trigger]
                    was_identified(first, events, account) && config.bucket == "dove-shares-"@
                        + account
                &&& config.region == args.region
                &&& args.profile is Some ==> config.profile == args.profile
                &&& config.profile == known.profile
                &&& config.endpoint is None
                &&& args.tier == Tier::Full ==> {
                    &&& config.table is Some && table_created(first, events, config.table->0)
                    &&& config.distribution_id == Some(known.full.front.distribution_id)
                    &&& config.gate_url is Some
                    &&& config.gate_url == Some("https://"@ + known.full.front.domain) || (
                    config.gate_url == known.prior_gate_url && !has_text(
                        config.gate_url->0,
                        ".cloudfront.net"@,
                    ))
                }
                &&& args.tier == Tier::Simple ==> config.table is None && config.gate_url is None
                    && config.distribution_id is None
            }
        }),
{
    let first = FactsView::of(args, archive, breaker_archive);
    lemma_named_in(first, events);
    law_runs_leave_nothing_out(first, events);
}

/// Whoever picks a number off the menu gets the profile that stands beside it, and whoever
/// picks none of them gets the default.
pub proof fn law_the_menu_says_what_is_chosen(facts: FactsView, term: Terminal, n: nat)
    requires
        n <= facts.profiles.len(),
    ensures
        ({
            let moved = facts.after(Stage::Profile, EventView::Line(decimal(n)));
            &&& moved is Ok
            &&& (moved->Ok_0).1 == Stage::Identity
            &&& n == 0 ==> (moved->Ok_0).0.profile is None
            &&& n > 0 ==> (moved->Ok_0).0.profile == Some(facts.profiles[n - 1]) && has_text(
                menu_text(term, facts.profiles),
                bolded(term, decimal(n)) + "  "@ + facts.profiles[n - 1] + "\n"@,
            )
        }),
{
    lemma_decimal_shape(n);
    let line = decimal(n);
    assert(is_digit(line[0]) && is_digit(line.last()));
    lemma_trimmed_tight(line);
    assert(unsigned(line) == line);
    if n > 0 {
        lemma_menu_line(term, facts.profiles, facts.profiles.len(), n);
        let listed = menu_lines(term, facts.profiles, facts.profiles.len());
        let entry = bolded(term, decimal(n)) + "  "@ + facts.profiles[n - 1] + "\n"@;
        let head = "  "@ + dimmed(term, "which AWS profile?"@) + "\n"@;
        lemma_found_behind(listed, entry, head);
        lemma_found_on(
            head + listed,
            entry,
            "    "@,
            dimmed(term, "0"@),
            "  "@,
            dimmed(term, "default credential chain"@),
            "\n  "@,
            dimmed(term, "→"@),
        );
        lemma_found_before(
            head + listed + "    "@ + dimmed(term, "0"@) + "  "@ + dimmed(
                term,
                "default credential chain"@,
            ) + "\n  "@ + dimmed(term, "→"@),
            entry,
            " "@,
        );
    }
}

proof fn lemma_menu_line(term: Terminal, profiles: Seq<Seq<char>>, upto: nat, n: nat)
    requires
        0 < n <= upto <= profiles.len(),
    ensures
        has_text(
            menu_lines(term, profiles, upto),
            bolded(term, decimal(n)) + "  "@ + profiles[n - 1] + "\n"@,
        ),
    decreases upto,
{
    let before = menu_lines(term, profiles, (upto - 1) as nat);
    let entry = bolded(term, decimal(n)) + "  "@ + profiles[n - 1] + "\n"@;
    let (number, name) = (bolded(term, decimal(upto)), profiles[upto - 1]);
    if n < upto {
        lemma_menu_line(term, profiles, (upto - 1) as nat, n);
        lemma_found_before(before, entry, "    "@);
        lemma_found_before(before + "    "@, entry, number);
        lemma_found_before(before + "    "@ + number, entry, "  "@);
        lemma_found_before(before + "    "@ + number + "  "@, entry, name);
        lemma_found_before(before + "    "@ + number + "  "@ + name, entry, "\n"@);
    } else {
        let all = menu_lines(term, profiles, upto);
        let at = (before + "    "@).len() as int;
        assert(all.subrange(at, at + entry.len()) =~= entry);
        assert(stands_at(all, entry, at));
    }
}

/// Only an answer that starts with a `y` is a consent.
pub proof fn law_consent_is_a_yes(line: Seq<char>)
    requires
        consents(line),
    ensures
        trimmed(line).len() > 0,
        trimmed(line)[0] == 'y' || trimmed(line)[0] == 'Y',
{
    reveal_strlit("y");
    reveal_strlit("Y");
    reveal_strlit("yes");
}

/// Provisioning may be repeated: a bucket of one's own or a user that is there already
/// counts as done. Whatever else fails is a failure: a bucket that is another's, above
/// all.
pub proof fn law_buckets_may_be_provisioned_again(facts: FactsView)
    ensures
        ({
            let script = script_at(facts, Stage::Bucket);
            &&& script.call_of("s3api"@, "create-bucket"@).done_by("BucketAlreadyOwnedByYou"@)
            &&& script.call_of("iam"@, "create-user"@).done_by("EntityAlreadyExists"@)
            &&& script.call_of("s3api"@, "put-public-access-block"@).has_to_succeed()
            &&& script.call_of("s3api"@, "put-bucket-lifecycle-configuration"@).has_to_succeed()
            &&& script.call_of("iam"@, "put-user-policy"@).has_to_succeed()
        }),
{
    lemma_bucket_script(facts);
    let script = script_at(facts, Stage::Bucket);
    lemma_done_by(script.items[1]->Run_0, "BucketAlreadyOwnedByYou"@);
    lemma_done_by(script.items[10]->Run_0, "EntityAlreadyExists"@);
}

/// What a stage reads out of a reply is not there.
pub open spec fn lacking(stage: Stage, value: Json) -> bool {
    match stage {
        Stage::Mint => value.inner_text("AccessKey"@, "AccessKeyId"@) is None || value.inner_text(
            "AccessKey"@,
            "SecretAccessKey"@,
        ) is None,
        Stage::Full(FullStage::Api(ApiStage::Creating)) => value.text("ApiId"@) is None,
        Stage::Full(FullStage::Api(ApiStage::Integrating)) => value.text(
            "IntegrationId"@,
        ) is None,
        Stage::Full(FullStage::Front(FrontStage::Controlling)) => value.inner_text(
            "OriginAccessControl"@,
            "Id"@,
        ) is None,
        Stage::Full(FullStage::Front(FrontStage::Distributing)) => value.inner_text(
            "Distribution"@,
            "Id"@,
        ) is None || value.inner_text("Distribution"@, "DomainName"@) is None,
        Stage::Full(FullStage::Front(FrontStage::Reusing)) => value.inner_text(
            "Distribution"@,
            "DomainName"@,
        ) is None,
        Stage::Full(FullStage::Breaker(BreakerStage::Announcing)) => value.text(
            "TopicArn"@,
        ) is None,
        _ => false,
    }
}

/// A run stops only for a reason: `aws` is not there, a call failed or its reply does not
/// say what is needed, the operator picked nothing off the menu or did not consent, or
/// something could not be kept or found.
pub proof fn law_runs_stop_for_a_reason(
    facts: FactsView,
    stage: Stage,
    event: EventView,
    why: Seq<char>,
)
    requires
        stage.fits(event),
        facts.after(stage, event) == Err::<(FactsView, Stage), Seq<char>>(why),
    ensures
        reply_in(event) matches Some(reply) ==> {
            let read = json_read(reply.output());
            !reply.succeeded() || read is Err || lacking(stage, read->Ok_0)
        },
        event matches EventView::Aws(present) ==> !present,
        event matches EventView::Line(line) ==> if stage == Stage::Confirm {
            !consents(line)
        } else {
            choice_of(line, facts.profiles.len()) is None
        },
        event matches EventView::Saved(result) ==> result is Err && why == result->Err_0,
        event matches EventView::Full(FullEventView::Saved(result)) ==> result is Err && why
            == result->Err_0,
        event matches EventView::Full(FullEventView::Secrets { found, .. }) ==> found is Err && why
            == found->Err_0,
        !(event is Profiles) && !(event is Keys) && !(event is Config),
        !(event matches EventView::Full(FullEventView::Config(_))),
{
}

/// The base URL that a configuration from before gives the access gate.
pub open spec fn gate_url_in(event: EventView) -> Option<Seq<char>> {
    match event->Config_0 {
        Some(config) => config.gate_url,
        None => None,
    }
}

/// What was found of a configuration from before is known from there on, and it is looked
/// for once.
proof fn lemma_prior_is_known(facts: FactsView, events: Seq<EventView>)
    ensures
        course(facts, events) matches Course::At(known, stage) ==> {
            &&& forall|i: int|
                0 <= i < events.len() && (#[trigger] events[i]) is Config ==> {
                    &&& stage is Full || stage == Stage::Save || stage == Stage::Done
                    &&& known.prior_gate_url == gate_url_in(events[i])
                }
            &&& stage is Full || stage == Stage::Save || stage == Stage::Done ==> exists|i: int|
                0 <= i < events.len() && (#[trigger] events[i]) is Config
        },
    decreases events.len(),
{
    if events.len() > 0 {
        let earlier = events.drop_last();
        let n = events.len() - 1;
        lemma_prior_is_known(facts, earlier);
        if let Course::At(known, stage) = course(facts, earlier) {
            assert forall|i: int| 0 <= i < n implies earlier[i] == events[i] by {}
            assert(events[n] == events.last());
            if course(facts, events) is At {
                assert(stage.fits(events.last()));
                if stage is Full || stage == Stage::Save || stage == Stage::Done {
                    let i = choose|i: int| 0 <= i < earlier.len() && (#[trigger] earlier[i]) is Config;
                    assert(events[i] is Config);
                }
            }
        }
    }
}

/// Provisioning again keeps a custom domain: the access gate's URL in the configuration
/// that is written is the one in the configuration from before, if there was one and it
/// is not on CloudFront's own domain, and that of the distribution otherwise.
pub proof fn law_runs_keep_a_custom_domain(
    facts: FactsView,
    events: Seq<EventView>,
    known: FactsView,
)
    requires
        course(facts, events) == Course::At(known, Stage::Save),
        facts.args.tier == Tier::Full,
    ensures
        exists|i: int|
            0 <= i < events.len() && (#[trigger] events[i]) is Config && {
                let before = gate_url_in(events[i]);
                known.act(Stage::Save) matches ActView::SaveConfig(config) && config.gate_url
                    == if before is Some && !has_text(before->0, ".cloudfront.net"@) {
                    before
                } else {
                    Some("https://"@ + known.full.front.domain)
                }
            },
{
    law_runs_of_a_tier(facts, events);
    lemma_prior_is_known(facts, events);
    let i = choose|i: int| 0 <= i < events.len() && (#[trigger] events[i]) is Config;
    assert(known.prior_gate_url == gate_url_in(events[i]));
}

/// A run begins as it was asked for.
pub proof fn law_runs_begin_as_asked(
    args: ProvisionArgs,
    archive: &str,
    breaker_archive: &str,
    facts: Facts,
)
    requires
        call_ensures(Facts::of, (args, archive, breaker_archive), facts),
    ensures
        facts@.args == args@,
        course(facts@, Seq::empty()) == Course::At(
            FactsView::of(args@, archive@, breaker_archive@),
            Stage::Aws,
        ),
{
}

/// What is run is the course of the run, event by event.
pub proof fn law_running_follows_the_course(
    first: FactsView,
    events: Seq<EventView>,
    facts: &mut Facts,
    stage: Stage,
    event: Event,
    then: Result<Stage, String>,
)
    requires
        course(first, events) == Course::At(old(facts)@, stage),
        stage.fits(event@),
        call_ensures(run, (facts, stage, event), then),
    ensures
        then matches Ok(next) ==> course(first, events.push(event@)) == Course::At(
            final(facts)@,
            next,
        ),
        then matches Err(why) ==> course(first, events.push(event@)) == Course::Stopped(why@)
            && final(facts)@ == old(facts)@,
{
    assert(events.push(event@).drop_last() =~= events);
}

/// What is done at a stage is what the course asks for there: the bucket that is created,
/// above all, is the one whose objects expire after the days that were asked for. In the
/// end it is said where the access gate is, or after how many days objects expire.
pub proof fn law_what_is_done_is_asked_for(
    facts: Facts,
    act: Act,
    stage: Stage,
    other: Act,
    said: (String, String),
)
    requires
        call_ensures(Facts::act, (&facts, Stage::Bucket), act),
        call_ensures(Facts::act, (&facts, stage), other),
        call_ensures(Facts::farewell, (&facts,), said),
    ensures
        other@ == facts@.act(stage),
        act@ matches ActView::Walk(script) && {
            let lifecycle = script.call_of("s3api"@, "put-bucket-lifecycle-configuration"@);
            &&& script.asks("s3api"@, "put-bucket-lifecycle-configuration"@)
            &&& lifecycle.gives("--bucket"@, facts@.bucket)
            &&& exists|configuration: Seq<char>| #[trigger]
                lifecycle.gives("--lifecycle-configuration"@, configuration) && expires_all_after(
                    configuration,
                    facts@.args.expire_days,
                )
        },
        facts@.args.tier == Tier::Full ==> has_text(said.1@, facts@.config().gate_url->0),
        facts@.args.tier == Tier::Simple ==> (decimal(facts@.args.expire_days)
            + " days"@).is_suffix_of(said.1@),
{
    law_objects_expire_as_asked(facts@);
    if facts@.args.tier == Tier::Full {
        let url = facts@.gate_url();
        let at = "gate: "@.len() as int;
        assert(said.1@.subrange(at, at + url.len()) =~= url);
        assert(stands_at(said.1@, url, at));
    } else {
        let days = decimal(facts@.args.expire_days) + " days"@;
        let n = said.1@.len() as int;
        assert(days =~= said.1@.subrange(n - days.len(), n));
    }
}

} // verus!
