//! CloudFront in front of the access gate: an origin access control that signs every
//! origin request, a distribution over the origin, and the resource policy that
//! lets this one distribution invoke the function. Anonymous browsers reach the
//! gate through CloudFront.

use vstd::prelude::*;

use crate::aws::{
    given_at, lemma_done_by, maybe, Call, CallView, Complaint, ComplaintView, Reply, ReplyView,
};
use crate::json::{
    as_array, boolean, copy, get, id_by_name, id_named, inner_text_of, json_contents, json_read,
    json_written, law_ids_are_found_by_name, listed, listing_of, nothing, number, pair, parse,
    single, text, text_of, with, to_text, Json,
};
use crate::script::{lemma_sole, Script, ScriptView};
use crate::search::{cut, find_from, has_text, lemma_place, place, stands_at, stands_first_at};
use crate::text::{chars_of, decimal};

verus! {

/// The managed cache policy that caches nothing.
pub const CACHE_DISABLED: &'static str = "4135ea2d-6df8-44a3-9df3-4b5a84be39ad";

/// The managed origin request policy that forwards all but the viewer's `Host`:
/// forwarding that one breaks the origin's host check, and the signing.
pub const ALL_VIEWER_EXCEPT_HOST: &'static str = "b689b0a8-53d0-40ab-baf2-68738e2966ac";

/// What a fronted gate resolves to.
pub struct Front {
    pub distribution_id: String,
    pub domain: String,
}

/// How far the front has come.
#[derive(Clone, Copy, PartialEq, Eq, Structural)]
pub enum FrontStage {
    /// Asking for the domain of the distribution that there is.
    Reusing,
    /// Looking for an origin access control of the access gate's name.
    Listing,
    /// Creating one.
    Controlling,
    /// Creating the distribution.
    Distributing,
    /// Letting the distribution invoke the access gate.
    Granting,
    /// The front stands.
    Ready,
}

/// What is known of the front.
pub struct FrontFacts {
    pub account: String,
    pub function_name: String,
    pub origin_host: String,
    /// There was a distribution before.
    pub existing: bool,
    pub control_id: String,
    pub distribution_id: String,
    pub domain: String,
}

/// What is known of the front.
pub struct FrontFactsView {
    pub account: Seq<char>,
    pub function_name: Seq<char>,
    pub origin_host: Seq<char>,
    pub existing: bool,
    pub control_id: Seq<char>,
    pub distribution_id: Seq<char>,
    pub domain: Seq<char>,
}

impl View for FrontFacts {
    type V = FrontFactsView;

    open spec fn view(&self) -> FrontFactsView {
        FrontFactsView {
            account: self.account@,
            function_name: self.function_name@,
            origin_host: self.origin_host@,
            existing: self.existing,
            control_id: self.control_id@,
            distribution_id: self.distribution_id@,
            domain: self.domain@,
        }
    }
}

impl FrontFactsView {
    /// What is known before anything was asked.
    pub open spec fn of(
        account: Seq<char>,
        function_name: Seq<char>,
        origin_host: Seq<char>,
        distribution: Option<Seq<char>>,
    ) -> FrontFactsView {
        FrontFactsView {
            account,
            function_name,
            origin_host,
            existing: distribution is Some,
            control_id: Seq::empty(),
            distribution_id: match distribution {
                Some(id) => id,
                None => Seq::empty(),
            },
            domain: Seq::empty(),
        }
    }

    /// Where the work starts: with the distribution that there is, or with none.
    pub open spec fn first(self) -> FrontStage {
        if self.existing {
            FrontStage::Reusing
        } else {
            FrontStage::Listing
        }
    }

    /// The name of the origin access control.
    pub open spec fn control_name(self) -> Seq<char> {
        self.function_name + "-oac"@
    }

    /// What is run at each stage.
    pub open spec fn script(self, stage: FrontStage) -> ScriptView {
        match stage {
            FrontStage::Reusing => ScriptView::nothing().begin("cloudfront (reuse)"@).run(
                CallView::aws("cloudfront"@, "get-distribution"@).option(
                    "--id"@,
                    self.distribution_id,
                ).option("--output"@, "json"@).complaining(
                    ComplaintView::Saying("get-distribution"@),
                ),
            ),
            FrontStage::Listing => ScriptView::nothing().begin("origin access control"@).run(
                CallView::aws("cloudfront"@, "list-origin-access-controls"@).option(
                    "--output"@,
                    "json"@,
                ).complaining(ComplaintView::Exit),
            ),
            FrontStage::Controlling => ScriptView::nothing().run(
                CallView::aws("cloudfront"@, "create-origin-access-control"@).option(
                    "--origin-access-control-config"@,
                    "Name="@ + self.control_name()
                        + ",Description=dove gate,SigningProtocol=sigv4,SigningBehavior=always,OriginAccessControlOriginType=lambda"@,
                ).option("--output"@, "json"@).complaining(
                    ComplaintView::Saying("create-origin-access-control"@),
                ),
            ),
            FrontStage::Distributing => ScriptView::nothing().end("origin access control"@).begin(
                "cloudfront distribution"@,
            ).run(
                CallView::aws("cloudfront"@, "create-distribution"@).option(
                    "--distribution-config"@,
                    json_written(
                        distribution(
                            "dove-"@ + self.function_name,
                            self.origin_host,
                            self.control_id,
                        ),
                    ),
                ).option("--output"@, "json"@).complaining(
                    ComplaintView::Saying("create-distribution"@),
                ),
            ),
            FrontStage::Granting => ScriptView::nothing().end(
                if self.existing {
                    "cloudfront (reuse)"@
                } else {
                    "cloudfront distribution"@
                },
            ).step(
                "gate invoke permission"@,
                CallView::aws("lambda"@, "add-permission"@).option(
                    "--function-name"@,
                    self.function_name,
                ).option("--statement-id"@, "cloudfront-oac"@).option(
                    "--action"@,
                    "lambda:InvokeFunctionUrl"@,
                ).option("--principal"@, "cloudfront.amazonaws.com"@).option(
                    "--source-arn"@,
                    "arn:aws:cloudfront::"@ + self.account + ":distribution/"@
                        + self.distribution_id,
                ).option("--function-url-auth-type"@, "AWS_IAM"@).tolerating(
                    "ResourceConflictException"@,
                ).complaining(ComplaintView::Saying("granting CloudFront invoke"@)),
            ),
            FrontStage::Ready => ScriptView::nothing(),
        }
    }

    /// Where `reply` leads from a stage: nowhere, if the last call of the stage's
    /// script failed.
    pub open spec fn after(self, stage: FrontStage, reply: ReplyView) -> Result<
        (FrontFactsView, FrontStage),
        Seq<char>,
    > {
        match self.script(stage).objection(reply) {
            Some(why) => Err(why),
            None => self.moved(stage, reply),
        }
    }

    /// Where a reply that passed leads.
    pub open spec fn moved(self, stage: FrontStage, reply: ReplyView) -> Result<
        (FrontFactsView, FrontStage),
        Seq<char>,
    > {
        match stage {
            FrontStage::Reusing => match domain_read(reply.output()) {
                Ok(domain) => Ok((FrontFactsView { domain, ..self }, FrontStage::Granting)),
                Err(why) => Err(why),
            },
            FrontStage::Listing => if !reply.succeeded() {
                Ok((self, FrontStage::Controlling))
            } else {
                match control_listed(reply.output(), self.control_name()) {
                    Some(control_id) => Ok(
                        (FrontFactsView { control_id, ..self }, FrontStage::Distributing),
                    ),
                    None => Ok((self, FrontStage::Controlling)),
                }
            },
            FrontStage::Controlling => match control_created(reply.output()) {
                Ok(control_id) => Ok(
                    (FrontFactsView { control_id, ..self }, FrontStage::Distributing),
                ),
                Err(why) => Err(why),
            },
            FrontStage::Distributing => match distribution_created(reply.output()) {
                Ok((distribution_id, domain)) => Ok(
                    (FrontFactsView { distribution_id, domain, ..self }, FrontStage::Granting),
                ),
                Err(why) => Err(why),
            },
            FrontStage::Granting => Ok((self, FrontStage::Ready)),
            FrontStage::Ready => Ok((self, FrontStage::Ready)),
        }
    }
}

// ── replies ───────────────────────────────────────────────────────────────

/// The id of the origin access control of this name in a listing.
pub open spec fn control_listed(document: Seq<u8>, name: Seq<char>) -> Option<Seq<char>> {
    match json_read(document) {
        Ok(value) => match value.get("OriginAccessControlList"@) {
            Some(list) => match list.get("Items"@) {
                Some(Json::Array(items)) => id_named(listing_of(items, "Name"@, "Id"@), name),
                _ => None,
            },
            None => None,
        },
        Err(_) => None,
    }
}

/// Finds an origin access control's id by name in a
/// `list-origin-access-controls` reply.
pub fn oac_id_by_name(json: &[u8], name: &str) -> (r: Option<String>)
    ensures
        maybe(r) == control_listed(json@, name@),
{
    match parse(json) {
        Ok(value) => match get(&value, "OriginAccessControlList") {
            Some(list) => match get(list, "Items") {
                Some(member) => match as_array(member) {
                    Some(items) => id_by_name(&listed(items, "Name", "Id"), name),
                    None => None,
                },
                None => None,
            },
            None => None,
        },
        Err(_) => None,
    }
}

/// The id in a `create-origin-access-control` reply.
pub open spec fn control_created(document: Seq<u8>) -> Result<Seq<char>, Seq<char>> {
    match json_read(document) {
        Ok(value) => match value.inner_text("OriginAccessControl"@, "Id"@) {
            Some(id) => Ok(id),
            None => Err("no OAC Id in response"@),
        },
        Err(why) => Err(why),
    }
}

fn created_control(document: &[u8]) -> (r: Result<String, String>)
    ensures
        match r {
            Ok(id) => control_created(document@) == Ok::<Seq<char>, Seq<char>>(id@),
            Err(why) => control_created(document@) == Err::<Seq<char>, Seq<char>>(why@),
        },
{
    match parse(document) {
        Ok(value) => match inner_text_of(&value, "OriginAccessControl", "Id") {
            Some(id) => Ok(id),
            None => Err("no OAC Id in response".to_string()),
        },
        Err(why) => Err(why),
    }
}

/// The id and the domain in a `create-distribution` reply.
pub open spec fn distribution_created(document: Seq<u8>) -> Result<
    (Seq<char>, Seq<char>),
    Seq<char>,
> {
    match json_read(document) {
        Ok(value) => match value.inner_text("Distribution"@, "Id"@) {
            Some(id) => match value.inner_text("Distribution"@, "DomainName"@) {
                Some(domain) => Ok((id, domain)),
                None => Err("no distribution DomainName"@),
            },
            None => Err("no distribution Id"@),
        },
        Err(why) => Err(why),
    }
}

fn created_distribution(document: &[u8]) -> (r: Result<Front, String>)
    ensures
        match r {
            Ok(front) => distribution_created(document@) == Ok::<
                (Seq<char>, Seq<char>),
                Seq<char>,
            >((front.distribution_id@, front.domain@)),
            Err(why) => distribution_created(document@) == Err::<
                (Seq<char>, Seq<char>),
                Seq<char>,
            >(why@),
        },
{
    match parse(document) {
        Ok(value) => match inner_text_of(&value, "Distribution", "Id") {
            Some(distribution_id) => match inner_text_of(&value, "Distribution", "DomainName") {
                Some(domain) => Ok(Front { distribution_id, domain }),
                None => Err("no distribution DomainName".to_string()),
            },
            None => Err("no distribution Id".to_string()),
        },
        Err(why) => Err(why),
    }
}

/// The domain in a `get-distribution` reply.
pub open spec fn domain_read(document: Seq<u8>) -> Result<Seq<char>, Seq<char>> {
    match json_read(document) {
        Ok(value) => match value.inner_text("Distribution"@, "DomainName"@) {
            Some(domain) => Ok(domain),
            None => Err("no distribution DomainName"@),
        },
        Err(why) => Err(why),
    }
}

fn distribution_domain(document: &[u8]) -> (r: Result<String, String>)
    ensures
        match r {
            Ok(domain) => domain_read(document@) == Ok::<Seq<char>, Seq<char>>(domain@),
            Err(why) => domain_read(document@) == Err::<Seq<char>, Seq<char>>(why@),
        },
{
    match parse(document) {
        Ok(value) => match inner_text_of(&value, "Distribution", "DomainName") {
            Some(domain) => Ok(domain),
            None => Err("no distribution DomainName".to_string()),
        },
        Err(why) => Err(why),
    }
}

// ── the distribution ──────────────────────────────────────────────────────

/// The two methods, counted, as CloudFront lists them.
pub open spec fn get_and_head() -> Json {
    Json::nothing().with("Quantity"@, Json::Number(decimal(2))).with(
        "Items"@,
        Json::Array(seq![Json::Text("GET"@), Json::Text("HEAD"@)]),
    )
}

/// One element, counted, as CloudFront lists it.
pub open spec fn one(item: Json) -> Json {
    Json::nothing().with("Quantity"@, Json::Number(decimal(1))).with(
        "Items"@,
        Json::Array(seq![item]),
    )
}

/// A distribution over one origin, signed by the origin access control: nothing
/// is cached, for the access gate is dynamic, and only `GET` and `HEAD` pass, for it is
/// read-only. The certificate is CloudFront's own; a custom domain comes later.
pub open spec fn distribution(
    caller_ref: Seq<char>,
    origin_host: Seq<char>,
    control_id: Seq<char>,
) -> Json {
    Json::nothing().with("CallerReference"@, Json::Text(caller_ref)).with(
        "Comment"@,
        Json::Text("dove gate"@),
    ).with("Enabled"@, Json::Bool(true)).with("Origins"@, one(origin(origin_host, control_id))).with(
        "DefaultCacheBehavior"@,
        Json::nothing().with("TargetOriginId"@, Json::Text("gate"@)).with(
            "ViewerProtocolPolicy"@,
            Json::Text("redirect-to-https"@),
        ).with("AllowedMethods"@, get_and_head().with("CachedMethods"@, get_and_head())).with(
            "CachePolicyId"@,
            Json::Text(CACHE_DISABLED@),
        ).with("OriginRequestPolicyId"@, Json::Text(ALL_VIEWER_EXCEPT_HOST@)).with(
            "Compress"@,
            Json::Bool(true),
        ),
    ).with(
        "ViewerCertificate"@,
        Json::nothing().with("CloudFrontDefaultCertificate"@, Json::Bool(true)),
    )
}

/// The distribution's origin: HTTPS only, signed by the origin access control.
pub open spec fn origin(origin_host: Seq<char>, control_id: Seq<char>) -> Json {
    Json::nothing().with("Id"@, Json::Text("gate"@)).with("DomainName"@, Json::Text(origin_host)).with(
        "OriginAccessControlId"@,
        Json::Text(control_id),
    ).with(
        "CustomOriginConfig"@,
        Json::nothing().with("HTTPPort"@, Json::Number(decimal(80))).with(
            "HTTPSPort"@,
            Json::Number(decimal(443)),
        ).with("OriginProtocolPolicy"@, Json::Text("https-only"@)).with(
            "OriginSslProtocols"@,
            one(Json::Text("TLSv1.2"@)),
        ),
    )
}

fn counted_methods() -> (r: serde_json::Value)
    ensures
        json_contents(r) == get_and_head(),
{
    with(with(nothing(), "Quantity", number(2)), "Items", pair("GET", "HEAD"))
}

fn counted_one(item: serde_json::Value) -> (r: serde_json::Value)
    ensures
        json_contents(r) == one(json_contents(item)),
{
    with(with(nothing(), "Quantity", number(1)), "Items", single(item))
}

/// The distribution's configuration as JSON text.
pub fn distribution_config(caller_ref: &str, origin_host: &str, oac_id: &str) -> (r: String)
    ensures
        r@ == json_written(distribution(caller_ref@, origin_host@, oac_id@)),
{
    let ports = with(with(nothing(), "HTTPPort", number(80)), "HTTPSPort", number(443));
    let protocols = with(ports, "OriginProtocolPolicy", text("https-only"));
    let custom = with(protocols, "OriginSslProtocols", counted_one(text("TLSv1.2")));
    let named = with(with(nothing(), "Id", text("gate")), "DomainName", text(origin_host));
    let signed = with(named, "OriginAccessControlId", text(oac_id));
    let origins = counted_one(with(signed, "CustomOriginConfig", custom));

    let methods = with(counted_methods(), "CachedMethods", counted_methods());
    let target = with(nothing(), "TargetOriginId", text("gate"));
    let secured = with(target, "ViewerProtocolPolicy", text("redirect-to-https"));
    let allowed = with(secured, "AllowedMethods", methods);
    let cached = with(allowed, "CachePolicyId", text(CACHE_DISABLED));
    let forwarded = with(cached, "OriginRequestPolicyId", text(ALL_VIEWER_EXCEPT_HOST));
    let behavior = with(forwarded, "Compress", boolean(true));

    let referred = with(nothing(), "CallerReference", text(caller_ref));
    let commented = with(referred, "Comment", text("dove gate"));
    let enabled = with(commented, "Enabled", boolean(true));
    let sourced = with(enabled, "Origins", origins);
    let behaved = with(sourced, "DefaultCacheBehavior", behavior);
    let certificate = with(nothing(), "CloudFrontDefaultCertificate", boolean(true));
    to_text(&with(behaved, "ViewerCertificate", certificate))
}

// ── the front ─────────────────────────────────────────────────────────────

impl FrontFacts {
    /// What is known before anything was asked.
    pub fn of(
        account: &str,
        function_name: &str,
        origin_host: &str,
        distribution: &Option<String>,
    ) -> (r: FrontFacts)
        ensures
            r@ == FrontFactsView::of(account@, function_name@, origin_host@, maybe(*distribution)),
    {
        FrontFacts {
            account: account.to_string(),
            function_name: function_name.to_string(),
            origin_host: origin_host.to_string(),
            existing: distribution.is_some(),
            control_id: String::new(),
            distribution_id: match distribution {
                Some(id) => id.clone(),
                None => String::new(),
            },
            domain: String::new(),
        }
    }

    /// Where the work starts.
    pub fn first(&self) -> (r: FrontStage)
        ensures
            r == self@.first(),
    {
        if self.existing {
            FrontStage::Reusing
        } else {
            FrontStage::Listing
        }
    }

    /// What to run at a stage.
    pub fn script(&self, stage: FrontStage) -> (r: Script)
        ensures
            r@ == self@.script(stage),
    {
        match stage {
            FrontStage::Reusing => Script::nothing().begin("cloudfront (reuse)").run(
                Call::aws("cloudfront", "get-distribution").option(
                    "--id",
                    self.distribution_id.as_str(),
                ).option("--output", "json").saying("get-distribution"),
            ),
            FrontStage::Listing => Script::nothing().begin("origin access control").run(
                Call::aws("cloudfront", "list-origin-access-controls").option(
                    "--output",
                    "json",
                ).complaining(Complaint::Exit),
            ),
            FrontStage::Controlling => {
                let name = self.function_name.clone().concat("-oac");
                let config = "Name=".to_string().concat(name.as_str()).concat(
                    ",Description=dove gate,SigningProtocol=sigv4,SigningBehavior=always,OriginAccessControlOriginType=lambda",
                );
                Script::nothing().run(
                    Call::aws("cloudfront", "create-origin-access-control").option(
                        "--origin-access-control-config",
                        config.as_str(),
                    ).option("--output", "json").saying("create-origin-access-control"),
                )
            },
            FrontStage::Distributing => {
                let caller_ref = "dove-".to_string().concat(self.function_name.as_str());
                let config = distribution_config(
                    caller_ref.as_str(),
                    self.origin_host.as_str(),
                    self.control_id.as_str(),
                );
                Script::nothing().end("origin access control").begin("cloudfront distribution").run(
                    Call::aws("cloudfront", "create-distribution").option(
                        "--distribution-config",
                        config.as_str(),
                    ).option("--output", "json").saying("create-distribution"),
                )
            },
            FrontStage::Granting => {
                let source_arn = "arn:aws:cloudfront::".to_string().concat(
                    self.account.as_str(),
                ).concat(":distribution/").concat(self.distribution_id.as_str());
                let opened = if self.existing {
                    "cloudfront (reuse)"
                } else {
                    "cloudfront distribution"
                };
                Script::nothing().end(opened).step(
                    "gate invoke permission",
                    Call::aws("lambda", "add-permission").option(
                        "--function-name",
                        self.function_name.as_str(),
                    ).option("--statement-id", "cloudfront-oac").option(
                        "--action",
                        "lambda:InvokeFunctionUrl",
                    ).option("--principal", "cloudfront.amazonaws.com").option(
                        "--source-arn",
                        source_arn.as_str(),
                    ).option("--function-url-auth-type", "AWS_IAM").tolerating(
                        "ResourceConflictException",
                    ).saying("granting CloudFront invoke"),
                )
            },
            FrontStage::Ready => Script::nothing(),
        }
    }

    /// The front that stands once the stage is `Ready`.
    pub fn front(&self) -> (r: Front)
        ensures
            r.distribution_id@ == self@.distribution_id,
            r.domain@ == self@.domain,
    {
        Front { distribution_id: self.distribution_id.clone(), domain: self.domain.clone() }
    }
}

/// Stands up the front for the access gate, or takes the distribution that there is and
/// makes sure that it may invoke the access gate: the move from a stage whose script
/// ended with `reply`. At `Ready` the front stands.
pub fn front_gate(facts: &mut FrontFacts, stage: FrontStage, reply: &Reply) -> (r: Result<
    FrontStage,
    String,
>)
    ensures
        match r {
            Ok(next) => old(facts)@.after(stage, reply@) == Ok::<
                (FrontFactsView, FrontStage),
                Seq<char>,
            >((final(facts)@, next)),
            Err(why) => {
                &&& old(facts)@.after(stage, reply@) == Err::<
                    (FrontFactsView, FrontStage),
                    Seq<char>,
                >(why@)
                &&& final(facts)@ == old(facts)@
            },
        },
{
    if let Some(why) = facts.script(stage).object(reply) {
        return Err(why);
    }
    match stage {
        FrontStage::Reusing => match distribution_domain(reply.output()) {
            Ok(domain) => {
                facts.domain = domain;
                Ok(FrontStage::Granting)
            },
            Err(why) => Err(why),
        },
        FrontStage::Listing => {
            if !reply.succeeded() {
                return Ok(FrontStage::Controlling);
            }
            let name = facts.function_name.clone().concat("-oac");
            match oac_id_by_name(reply.output(), name.as_str()) {
                Some(control_id) => {
                    facts.control_id = control_id;
                    Ok(FrontStage::Distributing)
                },
                None => Ok(FrontStage::Controlling),
            }
        },
        FrontStage::Controlling => match created_control(reply.output()) {
            Ok(control_id) => {
                facts.control_id = control_id;
                Ok(FrontStage::Distributing)
            },
            Err(why) => Err(why),
        },
        FrontStage::Distributing => match created_distribution(reply.output()) {
            Ok(front) => {
                facts.distribution_id = front.distribution_id;
                facts.domain = front.domain;
                Ok(FrontStage::Granting)
            },
            Err(why) => Err(why),
        },
        FrontStage::Granting => Ok(FrontStage::Ready),
        FrontStage::Ready => Ok(FrontStage::Ready),
    }
}

// ── a custom domain ───────────────────────────────────────────────────────

/// A distribution's configuration with the domain and its certificate attached.
pub open spec fn aliased(config: Json, domain: Seq<char>, cert_arn: Seq<char>) -> Json {
    config.with("Aliases"@, one(Json::Text(domain))).with(
        "ViewerCertificate"@,
        Json::nothing().with("ACMCertificateArn"@, Json::Text(cert_arn)).with(
            "SSLSupportMethod"@,
            Json::Text("sni-only"@),
        ).with("MinimumProtocolVersion"@, Json::Text("TLSv1.2_2021"@)).with(
            "CloudFrontDefaultCertificate"@,
            Json::Bool(false),
        ),
    )
}

/// What is to be written back to a distribution.
pub struct Alias {
    /// The version that was read, and that the update has to match.
    pub etag: String,
    /// The new configuration as JSON text.
    pub config: String,
    /// The distribution's own domain name.
    pub domain_name: String,
}

/// What is to be written back to a distribution.
pub struct AliasView {
    pub etag: Seq<char>,
    pub config: Seq<char>,
    pub domain_name: Seq<char>,
}

impl View for Alias {
    type V = AliasView;

    open spec fn view(&self) -> AliasView {
        AliasView {
            etag: self.etag@,
            config: self.config@,
            domain_name: self.domain_name@,
        }
    }
}

/// The configuration that a `get-distribution-config` reply holds; `null` where
/// it holds none.
pub open spec fn config_read(value: Json) -> Json {
    match value.get("DistributionConfig"@) {
        Some(config) => config,
        None => Json::Null,
    }
}

/// What the reply of `get-distribution-config` is turned into.
pub open spec fn alias_for(document: Seq<u8>, domain: Seq<char>, cert_arn: Seq<char>) -> Result<
    AliasView,
    Seq<char>,
> {
    match json_read(document) {
        Err(why) => Err(why),
        Ok(value) => match value.text("ETag"@) {
            None => Err("no ETag in distribution config"@),
            Some(etag) => if !config_read(value).takes_members() {
                Err("the distribution config is not an object"@)
            } else {
                let config = aliased(config_read(value), domain, cert_arn);
                Ok(
                    AliasView {
                        etag,
                        config: json_written(config),
                        domain_name: match config.text("DomainName"@) {
                            Some(name) => name,
                            None => Seq::empty(),
                        },
                    },
                )
            },
        },
    }
}

/// The call that reads a distribution's configuration.
pub open spec fn config_call(dist_id: Seq<char>) -> CallView {
    CallView::aws("cloudfront"@, "get-distribution-config"@).option("--id"@, dist_id).option(
        "--output"@,
        "json"@,
    ).complaining(ComplaintView::Saying("get-distribution-config"@))
}

/// The call that reads a distribution's configuration.
pub fn read_config(dist_id: &str) -> (r: Call)
    ensures
        r@ == config_call(dist_id@),
{
    Call::aws("cloudfront", "get-distribution-config").option("--id", dist_id).option(
        "--output",
        "json",
    ).saying("get-distribution-config")
}

/// Attaches a custom domain with its certificate to the configuration that a
/// `get-distribution-config` reply holds, and leaves everything else in it as it
/// is. A configuration that is no object is an error.
pub fn add_alias(document: &[u8], domain: &str, cert_arn: &str) -> (r: Result<Alias, String>)
    ensures
        match r {
            Ok(alias) => alias_for(document@, domain@, cert_arn@) == Ok::<AliasView, Seq<char>>(
                alias@,
            ),
            Err(why) => alias_for(document@, domain@, cert_arn@) == Err::<AliasView, Seq<char>>(
                why@,
            ),
        },
{
    let value = match parse(document) {
        Ok(value) => value,
        Err(why) => return Err(why),
    };
    let etag = match text_of(&value, "ETag") {
        Some(etag) => etag,
        None => return Err("no ETag in distribution config".to_string()),
    };
    let config = match get(&value, "DistributionConfig") {
        Some(config) => copy(config),
        None => nothing(),
    };
    if !crate::json::takes_members(&config) {
        return Err("the distribution config is not an object".to_string());
    }
    let dressed = with(config, "Aliases", counted_one(text(domain)));
    let stated = with(nothing(), "ACMCertificateArn", text(cert_arn));
    let named = with(stated, "SSLSupportMethod", text("sni-only"));
    let limited = with(named, "MinimumProtocolVersion", text("TLSv1.2_2021"));
    let certificate = with(limited, "CloudFrontDefaultCertificate", boolean(false));
    let full = with(dressed, "ViewerCertificate", certificate);
    let domain_name = match text_of(&full, "DomainName") {
        Some(name) => name,
        None => String::new(),
    };
    Ok(Alias { etag, config: to_text(&full), domain_name })
}

/// The name of the temporary file that a distribution's configuration is written
/// back out of.
pub fn config_file(dist_id: &str) -> (r: String)
    ensures
        r@ == "dove-dist-"@ + dist_id@ + ".json"@,
{
    "dove-dist-".to_string().concat(dist_id).concat(".json")
}

/// The call that writes a distribution's configuration back.
pub open spec fn update_call(dist_id: Seq<char>, path: Seq<char>, etag: Seq<char>) -> CallView {
    CallView::aws("cloudfront"@, "update-distribution"@).option("--id"@, dist_id).option(
        "--distribution-config"@,
        "file://"@ + path,
    ).option("--if-match"@, etag).option("--output"@, "json"@).complaining(
        ComplaintView::Saying("update-distribution"@),
    )
}

/// The call that writes a distribution's configuration back, out of the file at
/// `path`, if the distribution is still the version that was read.
pub fn write_config(dist_id: &str, path: &str, etag: &str) -> (r: Call)
    ensures
        r@ == update_call(dist_id@, path@, etag@),
{
    let file = "file://".to_string().concat(path);
    Call::aws("cloudfront", "update-distribution").option("--id", dist_id).option(
        "--distribution-config",
        file.as_str(),
    ).option("--if-match", etag).option("--output", "json").saying("update-distribution")
}

// ── hosts ─────────────────────────────────────────────────────────────────

/// The host of a URL: what stands after the scheme and before the path.
pub open spec fn url_host(url: Seq<char>) -> Option<Seq<char>> {
    if !has_text(url, "://"@) {
        None
    } else {
        let after = cut(url.skip(place(url, "://"@) + "://"@.len()), "://"@);
        let host = cut(after, "/"@);
        if host.len() == 0 {
            None
        } else {
            Some(host)
        }
    }
}

/// What stands before the first `mark`; everything where there is none.
fn until<'a>(s: &'a str, mark: &str) -> (r: &'a str)
    ensures
        r@ == cut(s@, mark@),
{
    let chars = chars_of(s);
    assert(s@.skip(0) =~= s@);
    match find_from(&chars, &chars_of(mark), 0) {
        Some(at) => {
            proof {
                lemma_place(s@, mark@, at as int);
            }
            s.substring_char(0, at)
        },
        None => s,
    }
}

/// The host portion of a URL (`https://x.on.aws/` gives `x.on.aws`).
pub fn host_of(url: &str) -> (r: Option<String>)
    ensures
        maybe(r) == url_host(url@),
{
    let chars = chars_of(url);
    let mark = chars_of("://");
    assert(url@.skip(0) =~= url@);
    match find_from(&chars, &mark, 0) {
        Some(at) => {
            proof {
                lemma_place(url@, "://"@, at as int);
            }
            let rest = url.substring_char(at + mark.len(), chars.len());
            assert(rest@ =~= url@.skip(at + mark@.len()));
            let host = until(until(rest, "://"), "/");
            if host.is_empty() {
                None
            } else {
                Some(host.to_string())
            }
        },
        None => None,
    }
}

// ── laws ──────────────────────────────────────────────────────────────────

/// Attaching a domain preserves everything else in the configuration.
pub proof fn law_alias_preserves_the_rest(
    config: Json,
    domain: Seq<char>,
    cert_arn: Seq<char>,
    key: Seq<char>,
)
    requires
        key != "Aliases"@,
        key != "ViewerCertificate"@,
    ensures
        aliased(config, domain, cert_arn).get(key) == config.get(key),
        "Aliases"@ != "ViewerCertificate"@,
        aliased(config, domain, cert_arn).get("Aliases"@) == Some(one(Json::Text(domain))),
{
    reveal_strlit("Aliases");
    reveal_strlit("ViewerCertificate");
    assert("Aliases"@.len() != "ViewerCertificate"@.len());
}

/// A gate that has a distribution keeps it: no control and no distribution is
/// created, and the id stays.
pub proof fn law_an_existing_distribution_is_kept(facts: FrontFactsView, reply: ReplyView)
    requires
        facts.existing,
        facts.after(facts.first(), reply) is Ok,
    ensures
        facts.first() == FrontStage::Reusing,
        (facts.after(facts.first(), reply)->Ok_0).1 == FrontStage::Granting,
        (facts.after(facts.first(), reply)->Ok_0).0.distribution_id == facts.distribution_id,
{
}

/// As many are listed as are counted.
pub open spec fn well_counted(list: Json) -> bool {
    list.get("Items"@) matches Some(Json::Array(items)) && list.get("Quantity"@) == Some(
        Json::Number(decimal(items.len())),
    )
}

/// A distribution's configuration has one origin: it is this host, reached by HTTPS alone
/// and signed for by this control, and it is where everything goes. What is asked by HTTP
/// is sent on to HTTPS, only reading passes, and nothing is kept.
pub open spec fn fronts(config: Json, origin_host: Seq<char>, control_id: Seq<char>) -> bool {
    let origins = config.get("Origins"@)->0;
    let source = origins.get("Items"@)->0->Array_0[0];
    let behavior = config.get("DefaultCacheBehavior"@)->0;
    let methods = behavior.get("AllowedMethods"@)->0;
    &&& config.get("Enabled"@) == Some(Json::Bool(true))
    &&& config.get("Origins"@) is Some && well_counted(origins)
    &&& origins.get("Items"@)->0->Array_0.len() == 1
    &&& source.text("DomainName"@) == Some(origin_host)
    &&& source.text("OriginAccessControlId"@) == Some(control_id)
    &&& source.inner_text("CustomOriginConfig"@, "OriginProtocolPolicy"@) == Some("https-only"@)
    &&& config.get("DefaultCacheBehavior"@) is Some
    &&& source.text("Id"@) is Some && behavior.text("TargetOriginId"@) == source.text("Id"@)
    &&& behavior.text("ViewerProtocolPolicy"@) == Some("redirect-to-https"@)
    &&& behavior.text("CachePolicyId"@) == Some(CACHE_DISABLED@)
    &&& behavior.text("OriginRequestPolicyId"@) == Some(ALL_VIEWER_EXCEPT_HOST@)
    &&& behavior.get("AllowedMethods"@) is Some && well_counted(methods)
    &&& methods.get("Items"@) == Some(Json::Array(seq![Json::Text("GET"@), Json::Text("HEAD"@)]))
    &&& methods.get("CachedMethods"@) is Some && well_counted(methods.get("CachedMethods"@)->0)
}

/// A distribution's configuration fronts its origin.
pub proof fn law_distributions_front_their_origin(
    caller_ref: Seq<char>,
    origin_host: Seq<char>,
    control_id: Seq<char>,
)
    ensures
        fronts(distribution(caller_ref, origin_host, control_id), origin_host, control_id),
        distribution(caller_ref, origin_host, control_id).text("CallerReference"@) == Some(
            caller_ref,
        ),
{
    reveal_strlit("CallerReference");
    reveal_strlit("Comment");
    reveal_strlit("Enabled");
    reveal_strlit("Origins");
    reveal_strlit("DefaultCacheBehavior");
    reveal_strlit("ViewerCertificate");
    assert("CallerReference"@.len() == 15 && "Comment"@.len() == 7 && "Enabled"@.len() == 7
        && "Origins"@.len() == 7 && "DefaultCacheBehavior"@.len() == 20
        && "ViewerCertificate"@.len() == 17);
    assert("Comment"@[0] == 'C' && "Enabled"@[0] == 'E' && "Origins"@[0] == 'O');
    reveal_strlit("TargetOriginId");
    reveal_strlit("ViewerProtocolPolicy");
    reveal_strlit("AllowedMethods");
    reveal_strlit("CachePolicyId");
    reveal_strlit("OriginRequestPolicyId");
    reveal_strlit("Compress");
    assert("TargetOriginId"@.len() == 14 && "ViewerProtocolPolicy"@.len() == 20
        && "AllowedMethods"@.len() == 14 && "CachePolicyId"@.len() == 13
        && "OriginRequestPolicyId"@.len() == 21 && "Compress"@.len() == 8);
    assert("TargetOriginId"@[0] == 'T' && "AllowedMethods"@[0] == 'A');
    reveal_strlit("Id");
    reveal_strlit("DomainName");
    reveal_strlit("OriginAccessControlId");
    reveal_strlit("CustomOriginConfig");
    assert("Id"@.len() == 2 && "DomainName"@.len() == 10 && "OriginAccessControlId"@.len() == 21
        && "CustomOriginConfig"@.len() == 18);
    reveal_strlit("HTTPPort");
    reveal_strlit("HTTPSPort");
    reveal_strlit("OriginProtocolPolicy");
    reveal_strlit("OriginSslProtocols");
    assert("HTTPPort"@.len() == 8 && "HTTPSPort"@.len() == 9 && "OriginProtocolPolicy"@.len() == 20
        && "OriginSslProtocols"@.len() == 18);
    reveal_strlit("Quantity");
    reveal_strlit("Items");
    reveal_strlit("CachedMethods");
    assert("Quantity"@.len() == 8 && "Items"@.len() == 5 && "CachedMethods"@.len() == 13);
    let config = distribution(caller_ref, origin_host, control_id);
    let source = origin(origin_host, control_id);
    assert(config.get("Origins"@) == Some(one(source)));
    assert(one(source).get("Items"@) == Some(Json::Array(seq![source])));
    let behavior = config.get("DefaultCacheBehavior"@)->0;
    assert(behavior.get("AllowedMethods"@) == Some(
        get_and_head().with("CachedMethods"@, get_and_head()),
    ));
}

/// What CloudFront puts in front of the access gate is the access gate. The distribution
/// fronts the origin, signed for by the control that the replies state; the access gate
/// lets the distribution that was created invoke it; and the domain and the id are that
/// distribution's.
pub proof fn law_front_serves_the_gate(facts: FrontFactsView, distributed: ReplyView)
    requires
        facts.after(FrontStage::Distributing, distributed) is Ok,
    ensures
        ({
            let (next, to) = facts.after(FrontStage::Distributing, distributed)->Ok_0;
            let value = json_read(distributed.output())->Ok_0;
            let distributing = facts.script(FrontStage::Distributing);
            let create = distributing.call_of("cloudfront"@, "create-distribution"@);
            &&& to == FrontStage::Granting
            &&& json_read(distributed.output()) is Ok
            &&& value.inner_text("Distribution"@, "Id"@) == Some(next.distribution_id)
            &&& value.inner_text("Distribution"@, "DomainName"@) == Some(next.domain)
            &&& distributing.asks("cloudfront"@, "create-distribution"@)
            &&& exists|config: Json|
                create.gives("--distribution-config"@, #[trigger] json_written(config)) && fronts(
                    config,
                    facts.origin_host,
                    facts.control_id,
                )
            &&& next.account == facts.account && next.function_name == facts.function_name
        }),
{
    let distributing = facts.script(FrontStage::Distributing);
    assert(distributing.items.len() == 3);
    lemma_sole(distributing, "cloudfront"@, "create-distribution"@, 2);
    let create = distributing.items[2]->Run_0;
    let config = distribution(
        "dove-"@ + facts.function_name,
        facts.origin_host,
        facts.control_id,
    );
    assert(given_at(create.words, 2, "--distribution-config"@, json_written(config)));
    law_distributions_front_their_origin(
        "dove-"@ + facts.function_name,
        facts.origin_host,
        facts.control_id,
    );
}

/// The access gate lets the distribution invoke it, and no other: the permission is of
/// the function, and for this distribution of this account.
pub proof fn law_only_the_front_may_invoke(facts: FrontFactsView)
    ensures
        ({
            let granting = facts.script(FrontStage::Granting);
            let permit = granting.call_of("lambda"@, "add-permission"@);
            &&& granting.asks("lambda"@, "add-permission"@)
            &&& permit.gives("--function-name"@, facts.function_name)
            &&& permit.gives("--principal"@, "cloudfront.amazonaws.com"@)
            &&& permit.gives("--action"@, "lambda:InvokeFunctionUrl"@)
            &&& permit.gives("--function-url-auth-type"@, "AWS_IAM"@)
            &&& permit.gives(
                "--source-arn"@,
                "arn:aws:cloudfront::"@ + facts.account + ":distribution/"@
                    + facts.distribution_id,
            )
        }),
{
    let granting = facts.script(FrontStage::Granting);
    assert(granting.items.len() == 4);
    lemma_sole(granting, "lambda"@, "add-permission"@, 2);
    let permit = granting.items[2]->Run_0;
    assert(given_at(permit.words, 2, "--function-name"@, facts.function_name));
    assert(given_at(permit.words, 6, "--action"@, "lambda:InvokeFunctionUrl"@));
    assert(given_at(permit.words, 8, "--principal"@, "cloudfront.amazonaws.com"@));
    assert(given_at(
        permit.words,
        10,
        "--source-arn"@,
        "arn:aws:cloudfront::"@ + facts.account + ":distribution/"@ + facts.distribution_id,
    ));
    assert(given_at(permit.words, 12, "--function-url-auth-type"@, "AWS_IAM"@));
}

/// The control that signs for the origin is the one that the access gate has by name, or
/// one that is created under that very name; its id is the one that the reply states.
pub proof fn law_the_control_is_found_again(facts: FrontFactsView, reply: ReplyView)
    ensures
        ({
            let controlling = facts.script(FrontStage::Controlling);
            let create = controlling.call_of("cloudfront"@, "create-origin-access-control"@);
            let value = json_read(reply.output())->Ok_0;
            let items = value.get("OriginAccessControlList"@)->0.get("Items"@)->0->Array_0;
            let listed = facts.after(FrontStage::Listing, reply);
            let created = facts.after(FrontStage::Controlling, reply);
            &&& controlling.asks("cloudfront"@, "create-origin-access-control"@)
            &&& exists|name: Seq<char>|
                create.gives(
                    "--origin-access-control-config"@,
                    #[trigger] ("Name="@ + name)
                        + ",Description=dove gate,SigningProtocol=sigv4,SigningBehavior=always,OriginAccessControlOriginType=lambda"@,
                ) && (listed is Ok && (listed->Ok_0).1 == FrontStage::Distributing ==> exists|
                    i: int,
                |
                    0 <= i < items.len() && #[trigger] items[i].text("Name"@) == Some(name)
                        && items[i].text("Id"@) == Some((listed->Ok_0).0.control_id))
            &&& created is Ok ==> (created->Ok_0).1 == FrontStage::Distributing && value.inner_text(
                "OriginAccessControl"@,
                "Id"@,
            ) == Some((created->Ok_0).0.control_id)
        }),
{
    let controlling = facts.script(FrontStage::Controlling);
    assert(controlling.items.len() == 1);
    lemma_sole(controlling, "cloudfront"@, "create-origin-access-control"@, 0);
    let create = controlling.items[0]->Run_0;
    let name = facts.control_name();
    let setting = ("Name="@ + name)
        + ",Description=dove gate,SigningProtocol=sigv4,SigningBehavior=always,OriginAccessControlOriginType=lambda"@;
    assert(given_at(create.words, 2, "--origin-access-control-config"@, setting));
    let listed = facts.after(FrontStage::Listing, reply);
    if listed is Ok && (listed->Ok_0).1 == FrontStage::Distributing {
        let value = json_read(reply.output())->Ok_0;
        let items = value.get("OriginAccessControlList"@)->0.get("Items"@)->0->Array_0;
        let list = listing_of(items, "Name"@, "Id"@);
        law_ids_are_found_by_name(list, name);
        let i = choose|i: int|
            0 <= i < list.len() && #[trigger] list[i].name == Some(name) && list[i].id == Some(
                (listed->Ok_0).0.control_id,
            );
        assert(items[i].text("Name"@) == Some(name));
    }
}

/// The distribution that is kept is asked for by its id, and the domain is the one that
/// the reply states.
pub proof fn law_the_kept_distribution_is_asked(facts: FrontFactsView, reply: ReplyView)
    ensures
        ({
            let reusing = facts.script(FrontStage::Reusing);
            let ask = reusing.call_of("cloudfront"@, "get-distribution"@);
            let found = facts.after(FrontStage::Reusing, reply);
            &&& reusing.asks("cloudfront"@, "get-distribution"@)
            &&& ask.gives("--id"@, facts.distribution_id)
            &&& found is Ok ==> json_read(reply.output()) is Ok && json_read(
                reply.output(),
            )->Ok_0.inner_text("Distribution"@, "DomainName"@) == Some((found->Ok_0).0.domain)
        }),
{
    let reusing = facts.script(FrontStage::Reusing);
    assert(reusing.items.len() == 2);
    lemma_sole(reusing, "cloudfront"@, "get-distribution"@, 1);
    assert(given_at(reusing.items[1]->Run_0.words, 2, "--id"@, facts.distribution_id));
}

/// A custom domain is attached to the distribution that is asked for: its configuration
/// is read and written back under the same id, only if it is still the version that was
/// read, with the domain as its one alias and the certificate as its own, for
/// those who name the host and speak TLS 1.2.
pub proof fn law_alias_is_attached(
    dist_id: Seq<char>,
    document: Seq<u8>,
    domain: Seq<char>,
    cert_arn: Seq<char>,
    path: Seq<char>,
)
    requires
        alias_for(document, domain, cert_arn) is Ok,
    ensures
        ({
            let alias = alias_for(document, domain, cert_arn)->Ok_0;
            let value = json_read(document)->Ok_0;
            let update = update_call(dist_id, path, alias.etag);
            &&& json_read(document) is Ok
            &&& value.text("ETag"@) == Some(alias.etag)
            &&& config_call(dist_id).calls("cloudfront"@, "get-distribution-config"@)
            &&& config_call(dist_id).gives("--id"@, dist_id)
            &&& update.calls("cloudfront"@, "update-distribution"@)
            &&& update.gives("--id"@, dist_id)
            &&& update.gives("--distribution-config"@, "file://"@ + path)
            &&& update.gives("--if-match"@, alias.etag)
            &&& exists|config: Json|
                alias.config == #[trigger] json_written(config) && has_alias(
                    config,
                    config_read(value),
                    domain,
                    cert_arn,
                )
        }),
{
    let alias = alias_for(document, domain, cert_arn)->Ok_0;
    let value = json_read(document)->Ok_0;
    let update = update_call(dist_id, path, alias.etag);
    assert(given_at(config_call(dist_id).words, 2, "--id"@, dist_id));
    assert(given_at(update.words, 2, "--id"@, dist_id));
    assert(given_at(update.words, 4, "--distribution-config"@, "file://"@ + path));
    assert(given_at(update.words, 6, "--if-match"@, alias.etag));
    let config = aliased(config_read(value), domain, cert_arn);
    lemma_aliased(config_read(value), domain, cert_arn);
    assert(alias.config == json_written(config));
}

/// `config` is `before` with the domain as its alias and the certificate as its own.
pub open spec fn has_alias(
    config: Json,
    before: Json,
    domain: Seq<char>,
    cert_arn: Seq<char>,
) -> bool {
    let certificate = config.get("ViewerCertificate"@)->0;
    let aliases = config.get("Aliases"@)->0;
    &&& config.get("Aliases"@) is Some && well_counted(aliases)
    &&& aliases.get("Items"@) == Some(Json::Array(seq![Json::Text(domain)]))
    &&& config.get("ViewerCertificate"@) is Some
    &&& certificate.text("ACMCertificateArn"@) == Some(cert_arn)
    &&& certificate.get("CloudFrontDefaultCertificate"@) == Some(Json::Bool(false))
    &&& certificate.text("SSLSupportMethod"@) == Some("sni-only"@)
    &&& certificate.text("MinimumProtocolVersion"@) == Some("TLSv1.2_2021"@)
    &&& forall|key: Seq<char>|
        key != "Aliases"@ && key != "ViewerCertificate"@ ==> #[trigger] config.get(key)
            == before.get(key)
}

proof fn lemma_aliased(before: Json, domain: Seq<char>, cert_arn: Seq<char>)
    ensures
        has_alias(aliased(before, domain, cert_arn), before, domain, cert_arn),
{
    reveal_strlit("Aliases");
    reveal_strlit("ViewerCertificate");
    assert("Aliases"@.len() == 7 && "ViewerCertificate"@.len() == 17);
    reveal_strlit("ACMCertificateArn");
    reveal_strlit("SSLSupportMethod");
    reveal_strlit("MinimumProtocolVersion");
    reveal_strlit("CloudFrontDefaultCertificate");
    assert("ACMCertificateArn"@.len() == 17 && "SSLSupportMethod"@.len() == 16
        && "MinimumProtocolVersion"@.len() == 22 && "CloudFrontDefaultCertificate"@.len() == 28);
    reveal_strlit("Quantity");
    reveal_strlit("Items");
    assert("Quantity"@.len() == 8 && "Items"@.len() == 5);
    let config = aliased(before, domain, cert_arn);
    assert forall|key: Seq<char>|
        key != "Aliases"@ && key != "ViewerCertificate"@ implies #[trigger] config.get(key)
        == before.get(key) by {
        law_alias_preserves_the_rest(before, domain, cert_arn, key);
    }
    assert(config.get("Aliases"@) == Some(one(Json::Text(domain))));
}

/// The host of `scheme://host/path` is the host, whatever the path; and no URL has an
/// empty one.
pub proof fn law_hosts_are_read_out_of_urls(scheme: Seq<char>, host: Seq<char>, path: Seq<char>)
    requires
        host.len() > 0,
        forall|i: int| 0 <= i < scheme.len() ==> #[trigger] scheme[i] != ':',
        forall|i: int| 0 <= i < host.len() ==> #[trigger] host[i] != ':' && host[i] != '/',
        forall|i: int| 0 <= i < path.len() ==> #[trigger] path[i] != ':',
    ensures
        url_host(scheme + "://"@ + host) == Some(host),
        url_host(scheme + "://"@ + host + "/"@ + path) == Some(host),
        url_host(scheme + "://"@) is None,
{
    let none = Seq::<char>::empty();
    lemma_after_scheme(scheme, host);
    lemma_after_scheme(scheme, host + "/"@ + path);
    lemma_after_scheme(scheme, none);
    assert(scheme + "://"@ + (host + "/"@ + path) =~= scheme + "://"@ + host + "/"@ + path);
    assert(scheme + "://"@ + none =~= scheme + "://"@);
    lemma_host_alone(host);
    lemma_host_alone(none);
    lemma_host_then_path(host, path);
}

/// What stands before the path is the host.
proof fn lemma_host_then_path(host: Seq<char>, path: Seq<char>)
    requires
        forall|i: int| 0 <= i < host.len() ==> #[trigger] host[i] != ':' && host[i] != '/',
        forall|i: int| 0 <= i < path.len() ==> #[trigger] path[i] != ':',
    ensures
        cut(cut(host + "/"@ + path, "://"@), "/"@) == host,
{
    reveal_strlit("://");
    reveal_strlit("/");
    let whole = host + "/"@ + path;
    let at = host.len() as int;
    assert forall|i: int| !#[trigger] stands_at(whole, "://"@, i) by {
        if stands_at(whole, "://"@, i) {
            assert(whole.subrange(i, i + 3)[0] == whole[i]);
            if i > at {
                assert(whole[i] == path[i - at - 1]);
            }
        }
    }
    assert(whole.subrange(at, at + 1) =~= "/"@);
    assert forall|i: int| i < at implies !#[trigger] stands_at(whole, "/"@, i) by {
        if stands_at(whole, "/"@, i) {
            assert(whole.subrange(i, i + 1)[0] == host[i]);
        }
    }
    assert(stands_at(whole, "/"@, at));
    assert(stands_first_at(whole, "/"@, at));
    lemma_place(whole, "/"@, at);
    assert(whole.take(at) =~= host);
}

/// What follows the scheme of a URL.
proof fn lemma_after_scheme(scheme: Seq<char>, rest: Seq<char>)
    requires
        forall|i: int| 0 <= i < scheme.len() ==> #[trigger] scheme[i] != ':',
    ensures
        has_text(scheme + "://"@ + rest, "://"@),
        (scheme + "://"@ + rest).skip(
            place(scheme + "://"@ + rest, "://"@) + "://"@.len(),
        ) == rest,
{
    reveal_strlit("://");
    let url = scheme + "://"@ + rest;
    let at = scheme.len() as int;
    assert(url.subrange(at, at + 3) =~= "://"@);
    assert forall|i: int| i < at implies !#[trigger] stands_at(url, "://"@, i) by {
        if stands_at(url, "://"@, i) {
            assert(url.subrange(i, i + 3)[0] == scheme[i]);
        }
    }
    assert(stands_at(url, "://"@, at));
    assert(stands_first_at(url, "://"@, at));
    lemma_place(url, "://"@, at);
    assert(url.skip(at + 3) =~= rest);
}

/// A host holds no mark at which it would be cut.
proof fn lemma_host_alone(host: Seq<char>)
    requires
        forall|i: int| 0 <= i < host.len() ==> #[trigger] host[i] != ':' && host[i] != '/',
    ensures
        !has_text(host, "://"@),
        !has_text(host, "/"@),
{
    reveal_strlit("://");
    reveal_strlit("/");
    assert forall|i: int| !#[trigger] stands_at(host, "://"@, i) by {
        if stands_at(host, "://"@, i) {
            assert(host.subrange(i, i + 3)[0] == host[i]);
        }
    }
    assert forall|i: int| !#[trigger] stands_at(host, "/"@, i) by {
        if stands_at(host, "/"@, i) {
            assert(host.subrange(i, i + 1)[0] == host[i]);
        }
    }
}

/// Provisioning may be repeated: controls are listed first, and a permission that is
/// there already counts as done. Whatever else fails is a failure.
pub proof fn law_fronts_may_be_provisioned_again(facts: FrontFactsView)
    ensures
        ({
            let listing = facts.script(FrontStage::Listing);
            &&& listing.asks("cloudfront"@, "list-origin-access-controls"@)
            &&& facts.script(FrontStage::Granting).call_of("lambda"@, "add-permission"@).done_by(
                "ResourceConflictException"@,
            )
            &&& facts.script(FrontStage::Controlling).call_of(
                "cloudfront"@,
                "create-origin-access-control"@,
            ).has_to_succeed()
            &&& facts.script(FrontStage::Distributing).call_of(
                "cloudfront"@,
                "create-distribution"@,
            ).has_to_succeed()
            &&& facts.script(FrontStage::Reusing).call_of(
                "cloudfront"@,
                "get-distribution"@,
            ).has_to_succeed()
        }),
{
    let listing = facts.script(FrontStage::Listing);
    let granting = facts.script(FrontStage::Granting);
    let controlling = facts.script(FrontStage::Controlling);
    let distributing = facts.script(FrontStage::Distributing);
    let reusing = facts.script(FrontStage::Reusing);
    assert(listing.items.len() == 2 && granting.items.len() == 4 && controlling.items.len() == 1);
    assert(distributing.items.len() == 3 && reusing.items.len() == 2);
    lemma_sole(listing, "cloudfront"@, "list-origin-access-controls"@, 1);
    lemma_sole(granting, "lambda"@, "add-permission"@, 2);
    lemma_sole(controlling, "cloudfront"@, "create-origin-access-control"@, 0);
    lemma_sole(distributing, "cloudfront"@, "create-distribution"@, 2);
    lemma_sole(reusing, "cloudfront"@, "get-distribution"@, 1);
    lemma_done_by(granting.items[2]->Run_0, "ResourceConflictException"@);
}

} // verus!
