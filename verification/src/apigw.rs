//! The HTTP API in front of the access gate function: the public way in. It reaches the
//! function through `lambda:InvokeFunction`, so it works also in accounts that
//! forbid public function URLs.

use vstd::prelude::*;

use crate::aws::{
    given_at, lemma_done_by, maybe, Call, CallView, Complaint, ComplaintView, Reply, ReplyView,
};
use crate::json::{
    as_array, get, id_by_name, id_named, json_read, law_ids_are_found_by_name, listed, listing_of,
    parse, text_of, Json,
};
use crate::script::{lemma_sole, ItemView, Script, ScriptView};

verus! {

/// The provisioned HTTP API's invoke host: a plain HTTPS origin for CloudFront.
pub struct Api {
    pub host: String,
}

/// How far the API has come.
#[derive(Clone, Copy, PartialEq, Eq, Structural)]
pub enum ApiStage {
    /// Looking for an API of the access gate's name.
    Finding,
    /// One was found and is taken as it is.
    Reusing,
    /// Creating one.
    Creating,
    /// Integrating it with the function.
    Integrating,
    /// Routing everything to the integration, and letting the API invoke it.
    Wiring,
    /// The API stands.
    Ready,
}

/// What is known of the API: where it is to stand, and the ids as they come.
pub struct ApiFacts {
    pub region: String,
    pub account: String,
    pub name: String,
    pub function_arn: String,
    pub id: String,
    pub integration: String,
}

/// What is known of the API.
pub struct ApiFactsView {
    pub region: Seq<char>,
    pub account: Seq<char>,
    pub name: Seq<char>,
    pub function_arn: Seq<char>,
    pub id: Seq<char>,
    pub integration: Seq<char>,
}

impl View for ApiFacts {
    type V = ApiFactsView;

    open spec fn view(&self) -> ApiFactsView {
        ApiFactsView {
            region: self.region@,
            account: self.account@,
            name: self.name@,
            function_arn: self.function_arn@,
            id: self.id@,
            integration: self.integration@,
        }
    }
}

impl ApiFactsView {
    /// What is known before anything was asked.
    pub open spec fn of(
        region: Seq<char>,
        account: Seq<char>,
        name: Seq<char>,
        function_arn: Seq<char>,
    ) -> ApiFactsView {
        ApiFactsView {
            region,
            account,
            name,
            function_arn,
            id: Seq::empty(),
            integration: Seq::empty(),
        }
    }

    /// What is run at each stage.
    pub open spec fn script(self, stage: ApiStage) -> ScriptView {
        match stage {
            ApiStage::Finding => ScriptView::nothing().begin("api gateway"@).run(
                CallView::aws("apigatewayv2"@, "get-apis"@).option("--output"@, "json"@).complaining(
                    ComplaintView::Exit,
                ),
            ),
            ApiStage::Reusing => ScriptView::nothing().end("api gateway"@),
            ApiStage::Creating => ScriptView::nothing().run(
                CallView::aws("apigatewayv2"@, "create-api"@).option("--name"@, self.name).option(
                    "--protocol-type"@,
                    "HTTP"@,
                ).option("--output"@, "json"@).complaining(
                    ComplaintView::Saying("apigatewayv2"@),
                ),
            ),
            ApiStage::Integrating => ScriptView::nothing().run(
                CallView::aws("apigatewayv2"@, "create-integration"@).option(
                    "--api-id"@,
                    self.id,
                ).option("--integration-type"@, "AWS_PROXY"@).option(
                    "--integration-uri"@,
                    self.function_arn,
                ).option("--payload-format-version"@, "2.0"@).option(
                    "--integration-method"@,
                    "POST"@,
                ).option("--output"@, "json"@).complaining(
                    ComplaintView::Saying("apigatewayv2"@),
                ),
            ),
            ApiStage::Wiring => ScriptView::nothing().run(
                CallView::aws("apigatewayv2"@, "create-route"@).option("--api-id"@, self.id).option(
                    "--route-key"@,
                    "$default"@,
                ).option("--target"@, "integrations/"@ + self.integration).tolerating("Conflict"@),
            ).run(
                CallView::aws("apigatewayv2"@, "create-stage"@).option("--api-id"@, self.id).option(
                    "--stage-name"@,
                    "$default"@,
                ).word("--auto-deploy"@).tolerating("Conflict"@),
            ).run(
                CallView::aws("lambda"@, "add-permission"@).option(
                    "--function-name"@,
                    self.name,
                ).option("--statement-id"@, "apigw-invoke"@).option(
                    "--action"@,
                    "lambda:InvokeFunction"@,
                ).option("--principal"@, "apigateway.amazonaws.com"@).option(
                    "--source-arn"@,
                    "arn:aws:execute-api:"@ + self.region + ":"@ + self.account + ":"@ + self.id
                        + "/*/*"@,
                ).tolerating("ResourceConflictException"@).complaining(
                    ComplaintView::Saying("granting API Gateway invoke"@),
                ),
            ).end("api gateway"@),
            ApiStage::Ready => ScriptView::nothing(),
        }
    }

    /// Where `reply` leads from a stage: nowhere, if the last call of the stage's
    /// script failed.
    pub open spec fn after(self, stage: ApiStage, reply: ReplyView) -> Result<
        (ApiFactsView, ApiStage),
        Seq<char>,
    > {
        match self.script(stage).objection(reply) {
            Some(why) => Err(why),
            None => self.moved(stage, reply),
        }
    }

    /// Where a reply that passed leads: what is known then and the next stage, or
    /// what is wrong with what it says.
    pub open spec fn moved(self, stage: ApiStage, reply: ReplyView) -> Result<
        (ApiFactsView, ApiStage),
        Seq<char>,
    > {
        match stage {
            ApiStage::Finding => if !reply.succeeded() {
                Ok((self, ApiStage::Creating))
            } else {
                match api_listed(reply.output(), self.name) {
                    Some(id) => Ok((ApiFactsView { id, ..self }, ApiStage::Reusing)),
                    None => Ok((self, ApiStage::Creating)),
                }
            },
            ApiStage::Creating => match api_field(reply.output(), "ApiId"@) {
                Ok(id) => Ok((ApiFactsView { id, ..self }, ApiStage::Integrating)),
                Err(why) => Err(why),
            },
            ApiStage::Integrating => match api_field(reply.output(), "IntegrationId"@) {
                Ok(integration) => Ok((ApiFactsView { integration, ..self }, ApiStage::Wiring)),
                Err(why) => Err(why),
            },
            ApiStage::Reusing => Ok((self, ApiStage::Ready)),
            ApiStage::Wiring => Ok((self, ApiStage::Ready)),
            ApiStage::Ready => Ok((self, ApiStage::Ready)),
        }
    }
}

impl ApiFacts {
    /// What is known before anything was asked.
    pub fn of(region: &str, account: &str, name: &str, function_arn: &str) -> (r: ApiFacts)
        ensures
            r@ == ApiFactsView::of(region@, account@, name@, function_arn@),
    {
        ApiFacts {
            region: region.to_string(),
            account: account.to_string(),
            name: name.to_string(),
            function_arn: function_arn.to_string(),
            id: String::new(),
            integration: String::new(),
        }
    }

    /// What to run at a stage.
    pub fn script(&self, stage: ApiStage) -> (r: Script)
        ensures
            r@ == self@.script(stage),
    {
        match stage {
            ApiStage::Finding => Script::nothing().begin("api gateway").run(
                Call::aws("apigatewayv2", "get-apis").option("--output", "json").complaining(
                    Complaint::Exit,
                ),
            ),
            ApiStage::Reusing => Script::nothing().end("api gateway"),
            ApiStage::Creating => Script::nothing().run(
                Call::aws("apigatewayv2", "create-api").option("--name", self.name.as_str()).option(
                    "--protocol-type",
                    "HTTP",
                ).option("--output", "json").saying("apigatewayv2"),
            ),
            ApiStage::Integrating => Script::nothing().run(
                Call::aws("apigatewayv2", "create-integration").option(
                    "--api-id",
                    self.id.as_str(),
                ).option("--integration-type", "AWS_PROXY").option(
                    "--integration-uri",
                    self.function_arn.as_str(),
                ).option("--payload-format-version", "2.0").option(
                    "--integration-method",
                    "POST",
                ).option("--output", "json").saying("apigatewayv2"),
            ),
            ApiStage::Wiring => {
                let target = "integrations/".to_string().concat(self.integration.as_str());
                let source = "arn:aws:execute-api:".to_string().concat(
                    self.region.as_str(),
                ).concat(":").concat(self.account.as_str()).concat(":").concat(
                    self.id.as_str(),
                ).concat("/*/*");
                Script::nothing().run(
                    Call::aws("apigatewayv2", "create-route").option(
                        "--api-id",
                        self.id.as_str(),
                    ).option("--route-key", "$default").option(
                        "--target",
                        target.as_str(),
                    ).tolerating("Conflict"),
                ).run(
                    Call::aws("apigatewayv2", "create-stage").option(
                        "--api-id",
                        self.id.as_str(),
                    ).option("--stage-name", "$default").word("--auto-deploy").tolerating(
                        "Conflict",
                    ),
                ).run(
                    Call::aws("lambda", "add-permission").option(
                        "--function-name",
                        self.name.as_str(),
                    ).option("--statement-id", "apigw-invoke").option(
                        "--action",
                        "lambda:InvokeFunction",
                    ).option("--principal", "apigateway.amazonaws.com").option(
                        "--source-arn",
                        source.as_str(),
                    ).tolerating("ResourceConflictException").saying(
                        "granting API Gateway invoke",
                    ),
                ).end("api gateway")
            },
            ApiStage::Ready => Script::nothing(),
        }
    }

    /// The API that stands once the stage is `Ready`.
    pub fn api(&self) -> (r: Api)
        ensures
            r.host@ == host(self@.id, self@.region),
    {
        Api { host: api_host(self.id.as_str(), self.region.as_str()) }
    }
}

/// Creates the HTTP API that routes everything to the access gate function, or reuses
/// the one of its name, which is taken to be fully wired: the move from a stage
/// whose script ended with `reply`. The first stage is `Finding`, and at `Ready`
/// the API stands.
pub fn provision_api(facts: &mut ApiFacts, stage: ApiStage, reply: &Reply) -> (r: Result<
    ApiStage,
    String,
>)
    ensures
        match r {
            Ok(next) => old(facts)@.after(stage, reply@) == Ok::<
                (ApiFactsView, ApiStage),
                Seq<char>,
            >((final(facts)@, next)),
            Err(why) => {
                &&& old(facts)@.after(stage, reply@) == Err::<(ApiFactsView, ApiStage), Seq<char>>(
                    why@,
                )
                &&& final(facts)@ == old(facts)@
            },
        },
{
    if let Some(why) = facts.script(stage).object(reply) {
        return Err(why);
    }
    match stage {
        ApiStage::Finding => {
            if !reply.succeeded() {
                return Ok(ApiStage::Creating);
            }
            match api_id_by_name(reply.output(), facts.name.as_str()) {
                Some(id) => {
                    facts.id = id;
                    Ok(ApiStage::Reusing)
                },
                None => Ok(ApiStage::Creating),
            }
        },
        ApiStage::Creating => match out_field(reply.output(), "ApiId") {
            Ok(id) => {
                facts.id = id;
                Ok(ApiStage::Integrating)
            },
            Err(why) => Err(why),
        },
        ApiStage::Integrating => match out_field(reply.output(), "IntegrationId") {
            Ok(integration) => {
                facts.integration = integration;
                Ok(ApiStage::Wiring)
            },
            Err(why) => Err(why),
        },
        ApiStage::Reusing => Ok(ApiStage::Ready),
        ApiStage::Wiring => Ok(ApiStage::Ready),
        ApiStage::Ready => Ok(ApiStage::Ready),
    }
}

// ── hosts and replies ─────────────────────────────────────────────────────

/// The invoke host of an API.
pub open spec fn host(id: Seq<char>, region: Seq<char>) -> Seq<char> {
    id + ".execute-api."@ + region + ".amazonaws.com"@
}

/// The invoke host for an HTTP API id: a plain HTTPS origin for CloudFront.
pub fn api_host(api_id: &str, region: &str) -> (r: String)
    ensures
        r@ == host(api_id@, region@),
{
    api_id.to_string().concat(".execute-api.").concat(region).concat(".amazonaws.com")
}

/// The id of the API of this name in a `get-apis` reply.
pub open spec fn api_listed(document: Seq<u8>, name: Seq<char>) -> Option<Seq<char>> {
    match json_read(document) {
        Ok(value) => match value.get("Items"@) {
            Some(Json::Array(items)) => id_named(listing_of(items, "Name"@, "ApiId"@), name),
            _ => None,
        },
        Err(_) => None,
    }
}

/// Finds an HTTP API's id by name in a `get-apis` reply.
pub fn api_id_by_name(json: &[u8], name: &str) -> (r: Option<String>)
    ensures
        maybe(r) == api_listed(json@, name@),
{
    match parse(json) {
        Ok(value) => match get(&value, "Items") {
            Some(member) => match as_array(member) {
                Some(items) => id_by_name(&listed(items, "Name", "ApiId"), name),
                None => None,
            },
            None => None,
        },
        Err(_) => None,
    }
}

/// What a reply of API Gateway says in a field.
pub open spec fn api_field(document: Seq<u8>, field: Seq<char>) -> Result<Seq<char>, Seq<char>> {
    match json_read(document) {
        Ok(value) => match value.text(field) {
            Some(s) => Ok(s),
            None => Err("no "@ + field + " in API Gateway response"@),
        },
        Err(why) => Err(why),
    }
}

/// Reads a field out of a reply of API Gateway.
fn out_field(document: &[u8], field: &str) -> (r: Result<String, String>)
    ensures
        match r {
            Ok(s) => api_field(document@, field@) == Ok::<Seq<char>, Seq<char>>(s@),
            Err(why) => api_field(document@, field@) == Err::<Seq<char>, Seq<char>>(why@),
        },
{
    match parse(document) {
        Ok(value) => match text_of(&value, field) {
            Some(s) => Ok(s),
            None => Err("no ".to_string().concat(field).concat(" in API Gateway response")),
        },
        Err(why) => Err(why),
    }
}

// ── laws ──────────────────────────────────────────────────────────────────

/// An API that the listing has under the access gate's name is reused: nothing is
/// created, and the id is the listed one.
pub proof fn law_a_listed_api_is_reused(facts: ApiFactsView, reply: ReplyView)
    requires
        reply.succeeded(),
        api_listed(reply.output(), facts.name) is Some,
    ensures
        facts.after(ApiStage::Finding, reply) == Ok::<(ApiFactsView, ApiStage), Seq<char>>(
            (
                ApiFactsView { id: api_listed(reply.output(), facts.name)->0, ..facts },
                ApiStage::Reusing,
            ),
        ),
        forall|later: ReplyView| #[trigger]
            facts.after(ApiStage::Reusing, later) == Ok::<(ApiFactsView, ApiStage), Seq<char>>(
                (facts, ApiStage::Ready),
            ),
{
    let script = facts.script(ApiStage::Reusing);
    assert(script.items.drop_last() =~= Seq::<ItemView>::empty());
    reveal_with_fuel(ScriptView::last_call, 2);
}

/// The API that is created leads to the function: what it is integrated with is the
/// function, everything is routed to that integration, under the ids that the replies
/// state, and the API of that id may invoke the function. Its host is that id's.
pub proof fn law_api_leads_to_the_function(
    facts: ApiFactsView,
    created: ReplyView,
    integrated: ReplyView,
)
    requires
        facts.after(ApiStage::Creating, created) is Ok,
        (facts.after(ApiStage::Creating, created)->Ok_0).0.after(
            ApiStage::Integrating,
            integrated,
        ) is Ok,
    ensures
        ({
            let (made, then) = facts.after(ApiStage::Creating, created)->Ok_0;
            let (next, to) = made.after(ApiStage::Integrating, integrated)->Ok_0;
            let id = json_read(created.output())->Ok_0.text("ApiId"@);
            let integration = json_read(integrated.output())->Ok_0.text("IntegrationId"@);
            let create = facts.script(ApiStage::Creating).call_of("apigatewayv2"@, "create-api"@);
            let integrate = made.script(ApiStage::Integrating).call_of(
                "apigatewayv2"@,
                "create-integration"@,
            );
            let wiring = next.script(ApiStage::Wiring);
            let route = wiring.call_of("apigatewayv2"@, "create-route"@);
            let deploy = wiring.call_of("apigatewayv2"@, "create-stage"@);
            let permit = wiring.call_of("lambda"@, "add-permission"@);
            &&& then == ApiStage::Integrating && to == ApiStage::Wiring
            &&& json_read(created.output()) is Ok && id is Some
            &&& json_read(integrated.output()) is Ok && integration is Some
            &&& facts.script(ApiStage::Creating).asks("apigatewayv2"@, "create-api"@)
            &&& made.script(ApiStage::Integrating).asks("apigatewayv2"@, "create-integration"@)
            &&& wiring.asks("apigatewayv2"@, "create-route"@)
            &&& wiring.asks("apigatewayv2"@, "create-stage"@)
            &&& wiring.asks("lambda"@, "add-permission"@)
            &&& create.gives("--name"@, facts.name) && create.gives("--protocol-type"@, "HTTP"@)
            &&& integrate.gives("--api-id"@, id->0) && integrate.gives(
                "--integration-uri"@,
                facts.function_arn,
            ) && integrate.gives("--integration-type"@, "AWS_PROXY"@) && integrate.gives(
                "--payload-format-version"@,
                "2.0"@,
            ) && integrate.gives("--integration-method"@, "POST"@)
            &&& route.gives("--api-id"@, id->0) && route.gives("--route-key"@, "$default"@)
                && route.gives("--target"@, "integrations/"@ + integration->0)
            &&& deploy.gives("--api-id"@, id->0) && deploy.gives("--stage-name"@, "$default"@)
                && deploy.words.contains("--auto-deploy"@)
            &&& permit.gives("--function-name"@, facts.name) && permit.gives(
                "--action"@,
                "lambda:InvokeFunction"@,
            ) && permit.gives("--principal"@, "apigateway.amazonaws.com"@) && permit.gives(
                "--source-arn"@,
                "arn:aws:execute-api:"@ + facts.region + ":"@ + facts.account + ":"@ + id->0
                    + "/*/*"@,
            )
            &&& host(next.id, next.region) == id->0 + ".execute-api."@ + facts.region
                + ".amazonaws.com"@
        }),
{
    let (made, then) = facts.after(ApiStage::Creating, created)->Ok_0;
    let (next, to) = made.after(ApiStage::Integrating, integrated)->Ok_0;
    let creating = facts.script(ApiStage::Creating);
    let integrating = made.script(ApiStage::Integrating);
    let wiring = next.script(ApiStage::Wiring);
    assert(creating.items.len() == 1 && integrating.items.len() == 1);
    lemma_sole(creating, "apigatewayv2"@, "create-api"@, 0);
    lemma_sole(integrating, "apigatewayv2"@, "create-integration"@, 0);
    lemma_wiring(next);
    let create = creating.items[0]->Run_0;
    let integrate = integrating.items[0]->Run_0;
    let route = wiring.items[0]->Run_0;
    let deploy = wiring.items[1]->Run_0;
    let permit = wiring.items[2]->Run_0;
    assert(given_at(create.words, 2, "--name"@, facts.name));
    assert(given_at(create.words, 4, "--protocol-type"@, "HTTP"@));
    assert(given_at(integrate.words, 2, "--api-id"@, made.id));
    assert(given_at(integrate.words, 4, "--integration-type"@, "AWS_PROXY"@));
    assert(given_at(integrate.words, 6, "--integration-uri"@, facts.function_arn));
    assert(given_at(integrate.words, 8, "--payload-format-version"@, "2.0"@));
    assert(given_at(integrate.words, 10, "--integration-method"@, "POST"@));
    assert(given_at(route.words, 2, "--api-id"@, made.id));
    assert(given_at(route.words, 4, "--route-key"@, "$default"@));
    assert(given_at(route.words, 6, "--target"@, "integrations/"@ + next.integration));
    assert(given_at(deploy.words, 2, "--api-id"@, made.id));
    assert(given_at(deploy.words, 4, "--stage-name"@, "$default"@));
    assert(deploy.words[6] == "--auto-deploy"@);
    assert(given_at(permit.words, 2, "--function-name"@, facts.name));
    assert(given_at(permit.words, 6, "--action"@, "lambda:InvokeFunction"@));
    assert(given_at(permit.words, 8, "--principal"@, "apigateway.amazonaws.com"@));
    assert(given_at(
        permit.words,
        10,
        "--source-arn"@,
        "arn:aws:execute-api:"@ + facts.region + ":"@ + facts.account + ":"@ + next.id + "/*/*"@,
    ));
}

/// The API that is taken for the function's is listed under the function's name, with
/// that id; and one is created only if none is, or the listing failed.
pub proof fn law_apis_are_found_by_name(facts: ApiFactsView, reply: ReplyView)
    requires
        facts.after(ApiStage::Finding, reply) is Ok,
    ensures
        ({
            let (next, to) = facts.after(ApiStage::Finding, reply)->Ok_0;
            let value = json_read(reply.output())->Ok_0;
            let items = value.get("Items"@)->0->Array_0;
            &&& to == ApiStage::Reusing || to == ApiStage::Creating
            &&& to == ApiStage::Reusing ==> {
                &&& reply.succeeded() && json_read(reply.output()) is Ok
                &&& value.get("Items"@) == Some(Json::Array(items))
                &&& exists|i: int|
                    0 <= i < items.len() && #[trigger] items[i].text("Name"@) == Some(facts.name)
                        && items[i].text("ApiId"@) == Some(next.id)
            }
            &&& to == ApiStage::Creating && reply.succeeded() && json_read(reply.output()) is Ok
                && value.get("Items"@) == Some(Json::Array(items)) ==> forall|i: int|
                0 <= i < items.len() && #[trigger] items[i].text("Name"@) == Some(facts.name)
                    ==> exists|j: int|
                    0 <= j <= i && #[trigger] items[j].text("Name"@) == Some(facts.name)
                        && items[j].text("ApiId"@) is None
        }),
{
    let (next, to) = facts.after(ApiStage::Finding, reply)->Ok_0;
    if let Ok(value) = json_read(reply.output()) {
        if let Some(Json::Array(items)) = value.get("Items"@) {
            let list = listing_of(items, "Name"@, "ApiId"@);
            law_ids_are_found_by_name(list, facts.name);
            if to == ApiStage::Reusing {
                let i = choose|i: int|
                    0 <= i < list.len() && #[trigger] list[i].name == Some(facts.name)
                        && list[i].id == Some(next.id);
                assert(items[i].text("Name"@) == Some(facts.name));
            } else if reply.succeeded() {
                assert forall|i: int|
                    0 <= i < items.len() && #[trigger] items[i].text("Name"@) == Some(
                        facts.name,
                    ) implies exists|j: int|
                    0 <= j <= i && #[trigger] items[j].text("Name"@) == Some(facts.name)
                        && items[j].text("ApiId"@) is None by {
                    let j = lemma_first_named(items, facts.name, i);
                    assert(list[j].name == Some(facts.name));
                    assert forall|k: int| 0 <= k < j implies #[trigger] list[k].name != Some(
                        facts.name,
                    ) by {
                        assert(items[k].text("Name"@) != Some(facts.name));
                    }
                    assert(list[j].id is None);
                    assert(items[j].text("Name"@) == Some(facts.name));
                }
            }
        }
    }
}

proof fn lemma_first_named(items: Seq<Json>, name: Seq<char>, i: int) -> (j: int)
    requires
        0 <= i < items.len(),
        items[i].text("Name"@) == Some(name),
    ensures
        0 <= j <= i,
        items[j].text("Name"@) == Some(name),
        forall|k: int| 0 <= k < j ==> #[trigger] items[k].text("Name"@) != Some(name),
    decreases i,
{
    if exists|k: int| 0 <= k < i && #[trigger] items[k].text("Name"@) == Some(name) {
        let k = choose|k: int| 0 <= k < i && #[trigger] items[k].text("Name"@) == Some(name);
        lemma_first_named(items, name, k)
    } else {
        i
    }
}

/// Provisioning may be repeated: APIs are listed first, and a route, a stage or a
/// permission that is there already counts as done. Whatever else fails is a failure.
pub proof fn law_apis_may_be_provisioned_again(facts: ApiFactsView)
    ensures
        ({
            let finding = facts.script(ApiStage::Finding);
            let wiring = facts.script(ApiStage::Wiring);
            &&& finding.asks("apigatewayv2"@, "get-apis"@)
            &&& wiring.call_of("apigatewayv2"@, "create-route"@).done_by("Conflict"@)
            &&& wiring.call_of("apigatewayv2"@, "create-stage"@).done_by("Conflict"@)
            &&& wiring.call_of("lambda"@, "add-permission"@).done_by("ResourceConflictException"@)
            &&& facts.script(ApiStage::Creating).call_of(
                "apigatewayv2"@,
                "create-api"@,
            ).has_to_succeed()
            &&& facts.script(ApiStage::Integrating).call_of(
                "apigatewayv2"@,
                "create-integration"@,
            ).has_to_succeed()
        }),
{
    let finding = facts.script(ApiStage::Finding);
    let creating = facts.script(ApiStage::Creating);
    let integrating = facts.script(ApiStage::Integrating);
    assert(finding.items.len() == 2);
    assert(creating.items.len() == 1 && integrating.items.len() == 1);
    lemma_sole(finding, "apigatewayv2"@, "get-apis"@, 1);
    lemma_sole(creating, "apigatewayv2"@, "create-api"@, 0);
    lemma_sole(integrating, "apigatewayv2"@, "create-integration"@, 0);
    lemma_wiring(facts);
    let wiring = facts.script(ApiStage::Wiring);
    lemma_done_by(wiring.items[0]->Run_0, "Conflict"@);
    lemma_done_by(wiring.items[1]->Run_0, "Conflict"@);
    lemma_done_by(wiring.items[2]->Run_0, "ResourceConflictException"@);
}

/// The operations that the wiring calls are all different.
pub proof fn lemma_wiring(facts: ApiFactsView)
    ensures
        ({
            let wiring = facts.script(ApiStage::Wiring);
            &&& wiring.items.len() == 4
            &&& wiring.asks("apigatewayv2"@, "create-route"@)
            &&& wiring.call_of("apigatewayv2"@, "create-route"@) == wiring.items[0]->Run_0
            &&& wiring.asks("apigatewayv2"@, "create-stage"@)
            &&& wiring.call_of("apigatewayv2"@, "create-stage"@) == wiring.items[1]->Run_0
            &&& wiring.asks("lambda"@, "add-permission"@)
            &&& wiring.call_of("lambda"@, "add-permission"@) == wiring.items[2]->Run_0
        }),
{
    let wiring = facts.script(ApiStage::Wiring);
    assert(wiring.items.len() == 4);
    reveal_strlit("create-route");
    reveal_strlit("create-stage");
    reveal_strlit("add-permission");
    assert("create-route"@[7] != "create-stage"@[7]);
    assert("add-permission"@.len() != "create-route"@.len() && "add-permission"@.len()
        != "create-stage"@.len());
    assert(wiring.items[0]->Run_0.words[1] == "create-route"@);
    assert(wiring.items[1]->Run_0.words[1] == "create-stage"@);
    assert(wiring.items[2]->Run_0.words[1] == "add-permission"@);
    lemma_sole(wiring, "apigatewayv2"@, "create-route"@, 0);
    lemma_sole(wiring, "apigatewayv2"@, "create-stage"@, 1);
    lemma_sole(wiring, "lambda"@, "add-permission"@, 2);
}

} // verus!
