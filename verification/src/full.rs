//! The full tier: what stands on the simple tier's bucket. The table of share
//! policies, the access gate function with its role and its secret, the API in front of
//! it, CloudFront in front of that, and the cost breaker.

use vstd::prelude::*;

use crate::apigw::{host, lemma_wiring, provision_api, ApiFacts, ApiFactsView, ApiStage};
use crate::aws::{
    given_at, lemma_done_by, Call, CallView, Complaint, ComplaintView, Reply, ReplyView,
};
use crate::breaker::{
    arn_of_function, arn_of_role, function_arn, provision_breaker, role_arn, BreakerFacts,
    BreakerFactsView, BreakerStage,
};
use crate::cloudfront::{front_gate, FrontFacts, FrontFactsView, FrontStage};
use crate::config::{Config, ConfigView};
use crate::gate::{HANDLER, LAMBDA_TRUST, RUNTIME};
use crate::json::Json;
use crate::provision::{gate_role_policy, gate_role_text, law_gate_role_may_serve, BUCKET_CORS};
use crate::script::{lemma_sole, ItemView, Script, ScriptView};
use crate::search::{has_text, stands_at};
use crate::secrets::{Secrets, SecretsView};
use crate::share::policy_says;
use crate::text::decimal;

verus! {

/// How far the full tier has come.
#[derive(Clone, Copy, PartialEq, Eq, Structural)]
pub enum FullStage {
    /// The bucket's CORS, the table, the access gate's role.
    Table,
    /// Looking for the access gate's secret.
    GateSecret,
    /// Keeping a fresh one.
    StoreSecret,
    /// Handing it to the access gate.
    SecretParam,
    /// The access gate function, out of the archive.
    Deploy,
    /// The API.
    Api(ApiStage),
    /// Looking for a distribution from before.
    Distribution,
    /// CloudFront.
    Front(FrontStage),
    /// The breaker.
    Breaker(BreakerStage),
    /// The full tier stands.
    Ready,
}

/// What is known of the full tier.
pub struct FullFacts {
    pub region: String,
    pub account: String,
    pub bucket: String,
    /// Where the access gate's archive lies.
    pub archive: String,
    /// The secrets that are to be kept with a fresh gate secret.
    pub secrets: Option<Secrets>,
    pub gate_secret: String,
    pub api: ApiFacts,
    pub front: FrontFacts,
    pub breaker: BreakerFacts,
}

/// What is known of the full tier.
pub struct FullFactsView {
    pub region: Seq<char>,
    pub account: Seq<char>,
    pub bucket: Seq<char>,
    pub archive: Seq<char>,
    pub secrets: Option<SecretsView>,
    pub gate_secret: Seq<char>,
    pub api: ApiFactsView,
    pub front: FrontFactsView,
    pub breaker: BreakerFactsView,
}

impl View for FullFacts {
    type V = FullFactsView;

    open spec fn view(&self) -> FullFactsView {
        FullFactsView {
            region: self.region@,
            account: self.account@,
            bucket: self.bucket@,
            archive: self.archive@,
            secrets: match self.secrets {
                Some(secrets) => Some(secrets@),
                None => None,
            },
            gate_secret: self.gate_secret@,
            api: self.api@,
            front: self.front@,
            breaker: self.breaker@,
        }
    }
}

/// What happened.
pub enum FullEvent {
    /// A script is through, and this was its last reply.
    Replied(Reply),
    /// The secrets were looked for; `fresh` is a new gate secret.
    Secrets { found: Result<Secrets, String>, fresh: String },
    /// Something was to be kept.
    Saved(Result<(), String>),
    /// The configuration was looked for.
    Config(Option<Config>),
}

/// What happened.
pub enum FullEventView {
    Replied(ReplyView),
    Secrets { found: Result<SecretsView, Seq<char>>, fresh: Seq<char> },
    Saved(Result<(), Seq<char>>),
    Config(Option<ConfigView>),
}

impl View for FullEvent {
    type V = FullEventView;

    open spec fn view(&self) -> FullEventView {
        match self {
            FullEvent::Replied(reply) => FullEventView::Replied(reply@),
            FullEvent::Secrets { found, fresh } => FullEventView::Secrets {
                found: match found {
                    Ok(secrets) => Ok(secrets@),
                    Err(why) => Err(why@),
                },
                fresh: fresh@,
            },
            FullEvent::Saved(result) => FullEventView::Saved(
                match result {
                    Ok(_) => Ok(()),
                    Err(why) => Err(why@),
                },
            ),
            FullEvent::Config(config) => FullEventView::Config(
                match config {
                    Some(config) => Some(config@),
                    None => None,
                },
            ),
        }
    }
}

/// Which function an archive holds.
#[derive(Clone, Copy, PartialEq, Eq, Structural)]
pub enum Deployment {
    Gate,
    KillSwitch,
}

/// What is to be done.
pub enum FullAct {
    /// Walk a script and hand back its last reply.
    Walk(Script),
    /// Write the archive to its path, walk the script, and remove the archive.
    Deploy { of: Deployment, path: String, script: Script },
    /// Look for the secrets, and make up a fresh gate secret.
    LoadSecrets,
    /// Keep these secrets.
    SaveSecrets(Secrets),
    /// Look for the configuration.
    LoadConfig,
    /// Nothing.
    Finished,
}

/// What is to be done.
pub enum FullActView {
    Walk(ScriptView),
    Deploy { of: Deployment, path: Seq<char>, script: ScriptView },
    LoadSecrets,
    SaveSecrets(SecretsView),
    LoadConfig,
    Finished,
}

impl View for FullAct {
    type V = FullActView;

    open spec fn view(&self) -> FullActView {
        match self {
            FullAct::Walk(script) => FullActView::Walk(script@),
            FullAct::Deploy { of, path, script } => FullActView::Deploy {
                of: *of,
                path: path@,
                script: script@,
            },
            FullAct::LoadSecrets => FullActView::LoadSecrets,
            FullAct::SaveSecrets(secrets) => FullActView::SaveSecrets(secrets@),
            FullAct::LoadConfig => FullActView::LoadConfig,
            FullAct::Finished => FullActView::Finished,
        }
    }
}

impl FullStage {
    /// The event answers what the stage asks for.
    pub open spec fn fits(self, event: FullEventView) -> bool {
        match self {
            FullStage::GateSecret => event is Secrets,
            FullStage::StoreSecret => event is Saved,
            FullStage::Distribution => event is Config,
            FullStage::Ready => false,
            _ => event is Replied,
        }
    }
}

impl FullFactsView {
    /// What is known before anything was asked.
    pub open spec fn of(
        region: Seq<char>,
        account: Seq<char>,
        bucket: Seq<char>,
        archive: Seq<char>,
        breaker_archive: Seq<char>,
    ) -> FullFactsView {
        let name = "dove-gate-"@ + account;
        FullFactsView {
            region,
            account,
            bucket,
            archive,
            secrets: None,
            gate_secret: Seq::empty(),
            api: ApiFactsView::of(region, account, name, function_arn(region, account, name)),
            front: FrontFactsView::of(account, name, ""@, None),
            breaker: BreakerFactsView::of(region, account, name, breaker_archive),
        }
    }

    /// The access gate's name, as a function and as a role.
    pub open spec fn name(self) -> Seq<char> {
        "dove-gate-"@ + self.account
    }

    /// The table of share policies has the bucket's name.
    pub open spec fn table(self) -> Seq<char> {
        self.bucket
    }

    /// The parameter that holds the access gate's secret.
    pub open spec fn secret_param(self) -> Seq<char> {
        "/dove/"@ + self.bucket + "/gate-secret"@
    }

    /// The access gate's environment: where things are, and no secret.
    pub open spec fn environment(self) -> Seq<char> {
        "Variables={BUCKET="@ + self.bucket + ",TABLE="@ + self.table() + ",GATE_SECRET_PARAM="@
            + self.secret_param() + "}"@
    }

    /// The bucket's CORS, the table with the expiry of its rows, and the access gate's
    /// role with its policy.
    pub open spec fn table_script(self) -> ScriptView {
        ScriptView::nothing().step(
            "bucket CORS"@,
            CallView::aws("s3api"@, "put-bucket-cors"@).option("--bucket"@, self.bucket).option(
                "--cors-configuration"@,
                BUCKET_CORS@,
            ),
        ).begin("dynamodb table"@).run(
            CallView::aws("dynamodb"@, "create-table"@).option(
                "--table-name"@,
                self.table(),
            ).option("--attribute-definitions"@, "AttributeName=id,AttributeType=S"@).option(
                "--key-schema"@,
                "AttributeName=id,KeyType=HASH"@,
            ).option("--billing-mode"@, "PAY_PER_REQUEST"@).tolerating("ResourceInUseException"@),
        ).run(
            CallView::aws("dynamodb"@, "wait"@).word("table-exists"@).option(
                "--table-name"@,
                self.table(),
            ),
        ).run(
            CallView::aws("dynamodb"@, "update-time-to-live"@).option(
                "--table-name"@,
                self.table(),
            ).option(
                "--time-to-live-specification"@,
                "Enabled=true,AttributeName=expires_at"@,
            ).tolerating("TimeToLive is already enabled"@),
        ).end("dynamodb table"@).begin("gate IAM role"@).run(
            CallView::aws("iam"@, "create-role"@).option("--role-name"@, self.name()).option(
                "--assume-role-policy-document"@,
                LAMBDA_TRUST@,
            ).tolerating("EntityAlreadyExists"@),
        ).run(
            CallView::aws("iam"@, "put-role-policy"@).option("--role-name"@, self.name()).option(
                "--policy-name"@,
                "dove-gate"@,
            ).option(
                "--policy-document"@,
                gate_role_text(self.account, self.region, self.table(), self.bucket),
            ),
        ).end("gate IAM role"@)
    }

    /// The secret is put where only the access gate reads it.
    pub open spec fn secret_script(self) -> ScriptView {
        ScriptView::nothing().step(
            "gate secret (SSM)"@,
            CallView::aws("ssm"@, "put-parameter"@).option("--name"@, self.secret_param()).option(
                "--value"@,
                self.gate_secret,
            ).option("--type"@, "SecureString"@).word("--overwrite"@),
        )
    }

    /// Best effort: wait until the function is in this state.
    pub open spec fn wait_call(self, state: Seq<char>) -> CallView {
        CallView::aws("lambda"@, "wait"@).word(state).option(
            "--function-name"@,
            self.name(),
        ).complaining(ComplaintView::Nothing)
    }

    /// The access gate function is created, or found; then it gets the latest code and
    /// the environment. A fresh role cannot be assumed at once, and a function
    /// that settles cannot be updated: both are tried again.
    pub open spec fn deploy_script(self) -> ScriptView {
        ScriptView::nothing().begin("gate Lambda"@).run(
            CallView::aws("lambda"@, "create-function"@).option(
                "--function-name"@,
                self.name(),
            ).option("--runtime"@, RUNTIME@).option("--handler"@, HANDLER@).option(
                "--role"@,
                role_arn(self.account, self.name()),
            ).option("--zip-file"@, "fileb://"@ + self.archive).option(
                "--environment"@,
                self.environment(),
            ).option("--timeout"@, "30"@).tolerating("ResourceConflictException"@).retrying(
                "cannot be assumed"@,
                6,
            ),
        ).run(self.wait_call("function-active-v2"@)).run(
            CallView::aws("lambda"@, "update-function-code"@).option(
                "--function-name"@,
                self.name(),
            ).option("--zip-file"@, "fileb://"@ + self.archive).retrying(
                "cannot be performed at this time"@,
                10,
            ),
        ).run(self.wait_call("function-updated-v2"@)).run(
            CallView::aws("lambda"@, "update-function-configuration"@).option(
                "--function-name"@,
                self.name(),
            ).option("--environment"@, self.environment()).retrying(
                "cannot be performed at this time"@,
                10,
            ),
        ).run(self.wait_call("function-updated-v2"@)).end("gate Lambda"@)
    }

    /// The secrets with the access gate's secret among them.
    pub open spec fn secrets_to_keep(self) -> SecretsView {
        SecretsView { gate_secret: Some(self.gate_secret), ..self.secrets->0 }
    }

    /// What is to be done at each stage.
    pub open spec fn act(self, stage: FullStage) -> FullActView {
        match stage {
            FullStage::Table => FullActView::Walk(self.table_script()),
            FullStage::GateSecret => FullActView::LoadSecrets,
            FullStage::StoreSecret => FullActView::SaveSecrets(self.secrets_to_keep()),
            FullStage::SecretParam => FullActView::Walk(self.secret_script()),
            FullStage::Deploy => FullActView::Deploy {
                of: Deployment::Gate,
                path: self.archive,
                script: self.deploy_script(),
            },
            FullStage::Api(at) => FullActView::Walk(self.api.script(at)),
            FullStage::Distribution => FullActView::LoadConfig,
            FullStage::Front(at) => FullActView::Walk(self.front.script(at)),
            FullStage::Breaker(at) => if at == BreakerStage::Deploying {
                FullActView::Deploy {
                    of: Deployment::KillSwitch,
                    path: self.breaker.archive,
                    script: self.breaker.script(at),
                }
            } else {
                FullActView::Walk(self.breaker.script(at))
            },
            FullStage::Ready => FullActView::Finished,
        }
    }

    /// The script whose last reply a stage itself judges; the API, the front and the
    /// breaker judge their own.
    pub open spec fn script(self, stage: FullStage) -> ScriptView {
        match stage {
            FullStage::Table => self.table_script(),
            FullStage::SecretParam => self.secret_script(),
            FullStage::Deploy => self.deploy_script(),
            _ => ScriptView::nothing(),
        }
    }

    /// Where an event leads from a stage: nowhere, if the last call of the stage's
    /// script failed.
    pub open spec fn after(self, stage: FullStage, event: FullEventView) -> Result<
        (FullFactsView, FullStage),
        Seq<char>,
    > {
        match event {
            FullEventView::Replied(reply) => match self.script(stage).objection(reply) {
                Some(why) => Err(why),
                None => self.moved(stage, event),
            },
            _ => self.moved(stage, event),
        }
    }

    /// Where an event leads from a stage.
    pub open spec fn moved(self, stage: FullStage, event: FullEventView) -> Result<
        (FullFactsView, FullStage),
        Seq<char>,
    > {
        match stage {
            FullStage::Table => Ok((self, FullStage::GateSecret)),
            FullStage::GateSecret => match event->found {
                Err(why) => Err(why),
                Ok(secrets) => match secrets.gate_secret {
                    Some(gate_secret) => Ok(
                        (FullFactsView { gate_secret, ..self }, FullStage::SecretParam),
                    ),
                    None => Ok(
                        (
                            FullFactsView {
                                gate_secret: event->fresh,
                                secrets: Some(secrets),
                                ..self
                            },
                            FullStage::StoreSecret,
                        ),
                    ),
                },
            },
            FullStage::StoreSecret => match event->Saved_0 {
                Ok(_) => Ok((self, FullStage::SecretParam)),
                Err(why) => Err(why),
            },
            FullStage::SecretParam => Ok((self, FullStage::Deploy)),
            FullStage::Deploy => Ok((self, FullStage::Api(ApiStage::Finding))),
            FullStage::Api(at) => match self.api.after(at, event->Replied_0) {
                Err(why) => Err(why),
                Ok((api, next)) => Ok(
                    (
                        FullFactsView { api, ..self },
                        if next == ApiStage::Ready {
                            FullStage::Distribution
                        } else {
                            FullStage::Api(next)
                        },
                    ),
                ),
            },
            FullStage::Distribution => {
                let front = FrontFactsView::of(
                    self.account,
                    self.name(),
                    host(self.api.id, self.api.region),
                    match event->Config_0 {
                        Some(config) => config.distribution_id,
                        None => None,
                    },
                );
                Ok((FullFactsView { front, ..self }, FullStage::Front(front.first())))
            },
            FullStage::Front(at) => match self.front.after(at, event->Replied_0) {
                Err(why) => Err(why),
                Ok((front, next)) => Ok(
                    (
                        FullFactsView { front, ..self },
                        if next == FrontStage::Ready {
                            FullStage::Breaker(BreakerStage::Empowering)
                        } else {
                            FullStage::Front(next)
                        },
                    ),
                ),
            },
            FullStage::Breaker(at) => match self.breaker.after(at, event->Replied_0) {
                Err(why) => Err(why),
                Ok((breaker, next)) => Ok(
                    (
                        FullFactsView { breaker, ..self },
                        if next == BreakerStage::Ready {
                            FullStage::Ready
                        } else {
                            FullStage::Breaker(next)
                        },
                    ),
                ),
            },
            FullStage::Ready => Ok((self, FullStage::Ready)),
        }
    }

    /// The access gate's own URL, on CloudFront's domain.
    pub open spec fn gate_url(self) -> Seq<char> {
        "https://"@ + self.front.domain
    }
}

impl FullFacts {
    /// What is known before anything was asked.
    pub fn of(
        region: &str,
        account: &str,
        bucket: &str,
        archive: &str,
        breaker_archive: &str,
    ) -> (r: FullFacts)
        ensures
            r@ == FullFactsView::of(region@, account@, bucket@, archive@, breaker_archive@),
    {
        let name = "dove-gate-".to_string().concat(account);
        let arn = arn_of_function(region, account, name.as_str());
        FullFacts {
            region: region.to_string(),
            account: account.to_string(),
            bucket: bucket.to_string(),
            archive: archive.to_string(),
            secrets: None,
            gate_secret: String::new(),
            api: ApiFacts::of(region, account, name.as_str(), arn.as_str()),
            front: FrontFacts::of(account, name.as_str(), "", &None),
            breaker: BreakerFacts::of(region, account, name.as_str(), breaker_archive),
        }
    }

    fn name(&self) -> (r: String)
        ensures
            r@ == self@.name(),
    {
        "dove-gate-".to_string().concat(self.account.as_str())
    }

    fn secret_param(&self) -> (r: String)
        ensures
            r@ == self@.secret_param(),
    {
        "/dove/".to_string().concat(self.bucket.as_str()).concat("/gate-secret")
    }

    fn table_script(&self) -> (r: Script)
        ensures
            r@ == self@.table_script(),
    {
        let name = self.name();
        let table = self.bucket.as_str();
        let policy = gate_role_policy(
            self.account.as_str(),
            self.region.as_str(),
            table,
            self.bucket.as_str(),
        );
        Script::nothing().step(
            "bucket CORS",
            Call::aws("s3api", "put-bucket-cors").option("--bucket", self.bucket.as_str()).option(
                "--cors-configuration",
                BUCKET_CORS,
            ),
        ).begin("dynamodb table").run(
            Call::aws("dynamodb", "create-table").option("--table-name", table).option(
                "--attribute-definitions",
                "AttributeName=id,AttributeType=S",
            ).option("--key-schema", "AttributeName=id,KeyType=HASH").option(
                "--billing-mode",
                "PAY_PER_REQUEST",
            ).tolerating("ResourceInUseException"),
        ).run(
            Call::aws("dynamodb", "wait").word("table-exists").option("--table-name", table),
        ).run(
            Call::aws("dynamodb", "update-time-to-live").option("--table-name", table).option(
                "--time-to-live-specification",
                "Enabled=true,AttributeName=expires_at",
            ).tolerating("TimeToLive is already enabled"),
        ).end("dynamodb table").begin("gate IAM role").run(
            Call::aws("iam", "create-role").option("--role-name", name.as_str()).option(
                "--assume-role-policy-document",
                LAMBDA_TRUST,
            ).tolerating("EntityAlreadyExists"),
        ).run(
            Call::aws("iam", "put-role-policy").option("--role-name", name.as_str()).option(
                "--policy-name",
                "dove-gate",
            ).option("--policy-document", policy.as_str()),
        ).end("gate IAM role")
    }

    fn secret_script(&self) -> (r: Script)
        ensures
            r@ == self@.secret_script(),
    {
        Script::nothing().step(
            "gate secret (SSM)",
            Call::aws("ssm", "put-parameter").option("--name", self.secret_param().as_str()).option(
                "--value",
                self.gate_secret.as_str(),
            ).option("--type", "SecureString").word("--overwrite"),
        )
    }

    fn wait_call(&self, state: &str) -> (r: Call)
        ensures
            r@ == self@.wait_call(state@),
    {
        Call::aws("lambda", "wait").word(state).option(
            "--function-name",
            self.name().as_str(),
        ).complaining(Complaint::Nothing)
    }

    fn deploy_script(&self) -> (r: Script)
        ensures
            r@ == self@.deploy_script(),
    {
        let name = self.name();
        let role = arn_of_role(self.account.as_str(), name.as_str());
        let archive = "fileb://".to_string().concat(self.archive.as_str());
        let environment = "Variables={BUCKET=".to_string().concat(self.bucket.as_str()).concat(
            ",TABLE=",
        ).concat(self.bucket.as_str()).concat(",GATE_SECRET_PARAM=").concat(
            self.secret_param().as_str(),
        ).concat("}");
        Script::nothing().begin("gate Lambda").run(
            Call::aws("lambda", "create-function").option("--function-name", name.as_str()).option(
                "--runtime",
                RUNTIME,
            ).option("--handler", HANDLER).option("--role", role.as_str()).option(
                "--zip-file",
                archive.as_str(),
            ).option("--environment", environment.as_str()).option("--timeout", "30").tolerating(
                "ResourceConflictException",
            ).retrying("cannot be assumed", 6),
        ).run(self.wait_call("function-active-v2")).run(
            Call::aws("lambda", "update-function-code").option(
                "--function-name",
                name.as_str(),
            ).option("--zip-file", archive.as_str()).retrying(
                "cannot be performed at this time",
                10,
            ),
        ).run(self.wait_call("function-updated-v2")).run(
            Call::aws("lambda", "update-function-configuration").option(
                "--function-name",
                name.as_str(),
            ).option("--environment", environment.as_str()).retrying(
                "cannot be performed at this time",
                10,
            ),
        ).run(self.wait_call("function-updated-v2")).end("gate Lambda")
    }

    /// What to do at a stage.
    pub fn act(&self, stage: FullStage) -> (r: FullAct)
        requires
            stage == FullStage::StoreSecret ==> self@.secrets is Some,
        ensures
            r@ == self@.act(stage),
    {
        match stage {
            FullStage::Table => FullAct::Walk(self.table_script()),
            FullStage::GateSecret => FullAct::LoadSecrets,
            FullStage::StoreSecret => {
                match &self.secrets {
                    Some(kept) => FullAct::SaveSecrets(
                        Secrets {
                            access_key_id: kept.access_key_id.clone(),
                            secret_access_key: kept.secret_access_key.clone(),
                            gate_secret: Some(self.gate_secret.clone()),
                        },
                    ),
                    None => FullAct::LoadSecrets,
                }
            },
            FullStage::SecretParam => FullAct::Walk(self.secret_script()),
            FullStage::Deploy => FullAct::Deploy {
                of: Deployment::Gate,
                path: self.archive.clone(),
                script: self.deploy_script(),
            },
            FullStage::Api(at) => FullAct::Walk(self.api.script(at)),
            FullStage::Distribution => FullAct::LoadConfig,
            FullStage::Front(at) => FullAct::Walk(self.front.script(at)),
            FullStage::Breaker(at) => if at == BreakerStage::Deploying {
                FullAct::Deploy {
                    of: Deployment::KillSwitch,
                    path: self.breaker.archive.clone(),
                    script: self.breaker.script(at),
                }
            } else {
                FullAct::Walk(self.breaker.script(at))
            },
            FullStage::Ready => FullAct::Finished,
        }
    }
}

/// Stands up the full tier on the bucket: the move from a stage that `event`
/// answers. The first stage is `Table`, and at `Ready` the full tier stands. What
/// is there from before is reused: the table, the role and the function by their
/// names, the API by its name, the distribution by the saved configuration, and
/// the access gate's secret by the saved secrets.
pub fn provision_full(facts: &mut FullFacts, stage: FullStage, event: FullEvent) -> (r: Result<
    FullStage,
    String,
>)
    requires
        stage.fits(event@),
    ensures
        match r {
            Ok(next) => {
                &&& old(facts)@.after(stage, event@) == Ok::<(FullFactsView, FullStage), Seq<char>>(
                    (final(facts)@, next),
                )
                &&& next == FullStage::StoreSecret ==> final(facts)@.secrets is Some
            },
            Err(why) => {
                &&& old(facts)@.after(stage, event@) == Err::<
                    (FullFactsView, FullStage),
                    Seq<char>,
                >(why@)
                &&& final(facts)@ == old(facts)@
            },
        },
{
    match event {
        FullEvent::Replied(reply) => match stage {
            FullStage::Table => match facts.table_script().object(&reply) {
                Some(why) => Err(why),
                None => Ok(FullStage::GateSecret),
            },
            FullStage::SecretParam => match facts.secret_script().object(&reply) {
                Some(why) => Err(why),
                None => Ok(FullStage::Deploy),
            },
            FullStage::Deploy => match facts.deploy_script().object(&reply) {
                Some(why) => Err(why),
                None => Ok(FullStage::Api(ApiStage::Finding)),
            },
            FullStage::Api(at) => match provision_api(&mut facts.api, at, &reply) {
                Ok(next) => if next == ApiStage::Ready {
                    Ok(FullStage::Distribution)
                } else {
                    Ok(FullStage::Api(next))
                },
                Err(why) => Err(why),
            },
            FullStage::Front(at) => match front_gate(&mut facts.front, at, &reply) {
                Ok(next) => if next == FrontStage::Ready {
                    Ok(FullStage::Breaker(BreakerStage::Empowering))
                } else {
                    Ok(FullStage::Front(next))
                },
                Err(why) => Err(why),
            },
            FullStage::Breaker(at) => match provision_breaker(&mut facts.breaker, at, &reply) {
                Ok(next) => if next == BreakerStage::Ready {
                    Ok(FullStage::Ready)
                } else {
                    Ok(FullStage::Breaker(next))
                },
                Err(why) => Err(why),
            },
            _ => Ok(stage),
        },
        FullEvent::Secrets { found, fresh } => match found {
            Err(why) => Err(why),
            Ok(secrets) => match &secrets.gate_secret {
                Some(gate_secret) => {
                    facts.gate_secret = gate_secret.clone();
                    Ok(FullStage::SecretParam)
                },
                None => {
                    facts.gate_secret = fresh;
                    facts.secrets = Some(secrets);
                    Ok(FullStage::StoreSecret)
                },
            },
        },
        FullEvent::Saved(result) => match result {
            Ok(_) => Ok(FullStage::SecretParam),
            Err(why) => Err(why),
        },
        FullEvent::Config(config) => {
            let existing = match config {
                Some(config) => config.distribution_id,
                None => None,
            };
            let api = facts.api.api();
            facts.front =
            FrontFacts::of(
                facts.account.as_str(),
                facts.name().as_str(),
                api.host.as_str(),
                &existing,
            );
            Ok(FullStage::Front(facts.front.first()))
        },
    }
}

// ── laws ──────────────────────────────────────────────────────────────────

/// The access gate's secret is stable: one that was kept is the one that the access gate gets,
/// and nothing is written over it.
pub proof fn law_gate_secret_is_stable(facts: FullFactsView, secrets: SecretsView, fresh: Seq<char>)
    requires
        secrets.gate_secret is Some,
    ensures
        facts.after(
            FullStage::GateSecret,
            FullEventView::Secrets { found: Ok(secrets), fresh },
        ) == Ok::<(FullFactsView, FullStage), Seq<char>>(
            (
                FullFactsView { gate_secret: secrets.gate_secret->0, ..facts },
                FullStage::SecretParam,
            ),
        ),
{
}

/// A fresh gate secret is kept before the access gate gets it, beside the access key
/// that was there; what is kept and what the access gate gets are the same.
pub proof fn law_fresh_gate_secret_is_kept_first(
    facts: FullFactsView,
    secrets: SecretsView,
    fresh: Seq<char>,
)
    requires
        secrets.gate_secret is None,
    ensures
        ({
            let event = FullEventView::Secrets { found: Ok(secrets), fresh };
            let next = (facts.after(FullStage::GateSecret, event)->Ok_0).0;
            &&& (facts.after(FullStage::GateSecret, event)->Ok_0).1 == FullStage::StoreSecret
            &&& next.act(FullStage::StoreSecret) == FullActView::SaveSecrets(
                SecretsView { gate_secret: Some(fresh), ..secrets },
            )
            &&& next.gate_secret == fresh
            &&& next.after(FullStage::StoreSecret, FullEventView::Saved(Ok(()))) == Ok::<
                (FullFactsView, FullStage),
                Seq<char>,
            >((next, FullStage::SecretParam))
        }),
{
}

/// The access gate never stands without its breaker: the only way to `Ready` is the end
/// of the breaker's wiring, of which the last call passed.
pub proof fn law_no_gate_without_breaker(
    facts: FullFactsView,
    stage: FullStage,
    event: FullEventView,
)
    requires
        stage.fits(event),
        facts.after(stage, event) is Ok,
        (facts.after(stage, event)->Ok_0).1 == FullStage::Ready,
    ensures
        stage == FullStage::Breaker(BreakerStage::Wiring) || stage == FullStage::Breaker(
            BreakerStage::Ready,
        ),
        stage == FullStage::Breaker(BreakerStage::Wiring) ==> facts.breaker.script(
            BreakerStage::Wiring,
        ).objection(event->Replied_0) is None,
{
}

/// The access gate's secret is nowhere in the access gate's environment, which whoever may read
/// the function's configuration sees: that depends on the bucket alone.
pub proof fn law_environment_holds_no_secret(facts: FullFactsView, other: FullFactsView)
    requires
        facts.bucket == other.bucket,
    ensures
        facts.environment() == other.environment(),
{
}

/// The script that is walked at a stage; nothing at a stage that asks for something
/// else.
pub open spec fn walked_at(facts: FullFactsView, stage: FullStage) -> ScriptView {
    match facts.act(stage) {
        FullActView::Walk(script) => script,
        FullActView::Deploy { script, .. } => script,
        _ => ScriptView::nothing(),
    }
}

/// The operations that the table's script calls are all different, but for two of
/// different services.
proof fn lemma_table_script(facts: FullFactsView)
    ensures
        ({
            let script = walked_at(facts, FullStage::Table);
            &&& script.items.len() == 12
            &&& script.asks("s3api"@, "put-bucket-cors"@)
            &&& script.call_of("s3api"@, "put-bucket-cors"@) == script.items[1]->Run_0
            &&& script.asks("dynamodb"@, "create-table"@)
            &&& script.call_of("dynamodb"@, "create-table"@) == script.items[4]->Run_0
            &&& script.asks("dynamodb"@, "update-time-to-live"@)
            &&& script.call_of("dynamodb"@, "update-time-to-live"@) == script.items[6]->Run_0
            &&& script.asks("iam"@, "create-role"@)
            &&& script.call_of("iam"@, "create-role"@) == script.items[9]->Run_0
            &&& script.asks("iam"@, "put-role-policy"@)
            &&& script.call_of("iam"@, "put-role-policy"@) == script.items[10]->Run_0
        }),
{
    reveal_strlit("put-bucket-cors");
    reveal_strlit("create-table");
    reveal_strlit("wait");
    reveal_strlit("update-time-to-live");
    reveal_strlit("create-role");
    reveal_strlit("put-role-policy");
    assert("put-bucket-cors"@.len() == 15 && "create-table"@.len() == 12 && "wait"@.len() == 4
        && "update-time-to-live"@.len() == 19 && "create-role"@.len() == 11
        && "put-role-policy"@.len() == 15);
    assert("put-bucket-cors"@[4] != "put-role-policy"@[4]);
    let script = walked_at(facts, FullStage::Table);
    assert(script.items.len() == 12);
    assert(script.items[1]->Run_0.words[1] == "put-bucket-cors"@);
    assert(script.items[4]->Run_0.words[1] == "create-table"@);
    assert(script.items[5]->Run_0.words[1] == "wait"@);
    assert(script.items[6]->Run_0.words[1] == "update-time-to-live"@);
    assert(script.items[9]->Run_0.words[1] == "create-role"@);
    assert(script.items[10]->Run_0.words[1] == "put-role-policy"@);
    assert forall|j: int| 0 <= j < 12 implies (#[trigger] script.items[j] is Run <==> j == 1 || j
        == 4 || j == 5 || j == 6 || j == 9 || j == 10) by {}
    lemma_sole(script, "s3api"@, "put-bucket-cors"@, 1);
    lemma_sole(script, "dynamodb"@, "create-table"@, 4);
    lemma_sole(script, "dynamodb"@, "update-time-to-live"@, 6);
    lemma_sole(script, "iam"@, "create-role"@, 9);
    lemma_sole(script, "iam"@, "put-role-policy"@, 10);
}

/// The table is created under its name.
pub proof fn lemma_names_its_table(facts: FullFactsView)
    ensures
        walked_at(facts, FullStage::Table).call_of("dynamodb"@, "create-table"@).gives(
            "--table-name"@,
            facts.table(),
        ),
{
    lemma_table_script(facts);
    let create = walked_at(facts, FullStage::Table).items[4]->Run_0;
    assert(given_at(create.words, 2, "--table-name"@, facts.table()));
}

/// A row of the table is removed when its share expires, and not before: the attribute
/// by which the table expires its rows is the one that holds the share's expiry. And the
/// attribute by which the table finds a row is the one that holds the share's id.
pub proof fn law_rows_expire_with_their_shares(
    facts: FullFactsView,
    item: Json,
    key: Seq<char>,
    expires_at: nat,
    created_at: nat,
    downloads: nat,
    size: nat,
    pin_hash: Option<Seq<char>>,
)
    requires
        policy_says(item, key, expires_at, created_at, downloads, size, pin_hash),
    ensures
        ({
            let script = walked_at(facts, FullStage::Table);
            let create = script.call_of("dynamodb"@, "create-table"@);
            let expiry = script.call_of("dynamodb"@, "update-time-to-live"@);
            &&& script.asks("dynamodb"@, "create-table"@)
            &&& script.asks("dynamodb"@, "update-time-to-live"@)
            &&& exists|attribute: Seq<char>|
                item.inner_text(attribute, "N"@) == Some(decimal(expires_at)) && expiry.gives(
                    "--time-to-live-specification"@,
                    #[trigger] ("Enabled=true,AttributeName="@ + attribute),
                )
            &&& exists|attribute: Seq<char>|
                item.inner_text(attribute, "S"@) == Some(key) && create.gives(
                    "--key-schema"@,
                    #[trigger] ("AttributeName="@ + attribute) + ",KeyType=HASH"@,
                ) && create.gives(
                    "--attribute-definitions"@,
                    ("AttributeName="@ + attribute) + ",AttributeType=S"@,
                )
            &&& exists|table: Seq<char>| #[trigger]
                create.gives("--table-name"@, table) && expiry.gives("--table-name"@, table)
        }),
{
    lemma_table_script(facts);
    let script = walked_at(facts, FullStage::Table);
    let create = script.items[4]->Run_0;
    let expiry = script.items[6]->Run_0;
    reveal_strlit("Enabled=true,AttributeName=");
    reveal_strlit("Enabled=true,AttributeName=expires_at");
    reveal_strlit("expires_at");
    reveal_strlit("AttributeName=");
    reveal_strlit("id");
    reveal_strlit(",KeyType=HASH");
    reveal_strlit(",AttributeType=S");
    reveal_strlit("AttributeName=id,KeyType=HASH");
    reveal_strlit("AttributeName=id,AttributeType=S");
    assert("Enabled=true,AttributeName="@ + "expires_at"@
        =~= "Enabled=true,AttributeName=expires_at"@);
    assert(("AttributeName="@ + "id"@) + ",KeyType=HASH"@ =~= "AttributeName=id,KeyType=HASH"@);
    assert(("AttributeName="@ + "id"@) + ",AttributeType=S"@
        =~= "AttributeName=id,AttributeType=S"@);
    assert(given_at(
        expiry.words,
        4,
        "--time-to-live-specification"@,
        "Enabled=true,AttributeName="@ + "expires_at"@,
    ));
    assert(given_at(create.words, 2, "--table-name"@, facts.table()));
    assert(given_at(expiry.words, 2, "--table-name"@, facts.table()));
    assert(create.gives("--table-name"@, facts.table()));
    assert(given_at(
        create.words,
        4,
        "--attribute-definitions"@,
        ("AttributeName="@ + "id"@) + ",AttributeType=S"@,
    ));
    assert(given_at(
        create.words,
        6,
        "--key-schema"@,
        ("AttributeName="@ + "id"@) + ",KeyType=HASH"@,
    ));
}

/// What the parts of the full tier are told of each other: the API and the breaker stand
/// in the region and the account, and the API, the front and the breaker are those of
/// the one function.
pub open spec fn wired(facts: FullFactsView) -> bool {
    let function = "arn:aws:lambda:"@ + facts.region + ":"@ + facts.account + ":function:"@
        + facts.name();
    &&& facts.api.region == facts.region
    &&& facts.api.account == facts.account
    &&& facts.api.name == facts.name()
    &&& facts.api.function_arn == function
    &&& facts.front.account == facts.account
    &&& facts.front.function_name == facts.name()
    &&& facts.breaker.region == facts.region
    &&& facts.breaker.account == facts.account
    &&& facts.breaker.gate_name == facts.name()
}

/// The full tier is stood up where it was asked for, out of the archives that it was
/// given, and its parts are always told the same of each other.
pub proof fn law_the_full_tier_is_one(
    region: Seq<char>,
    account: Seq<char>,
    bucket: Seq<char>,
    archive: Seq<char>,
    breaker_archive: Seq<char>,
    facts: FullFactsView,
    stage: FullStage,
    event: FullEventView,
)
    ensures
        ({
            let first = FullFactsView::of(region, account, bucket, archive, breaker_archive);
            &&& wired(first)
            &&& first.region == region && first.account == account && first.bucket == bucket
            &&& first.archive == archive && first.breaker.archive == breaker_archive
        }),
        wired(facts) && stage.fits(event) && facts.after(stage, event) is Ok ==> {
            let (next, to) = facts.after(stage, event)->Ok_0;
            &&& wired(next)
            &&& next.region == facts.region && next.account == facts.account && next.bucket
                == facts.bucket
            &&& next.archive == facts.archive && next.breaker.archive == facts.breaker.archive
            &&& stage != FullStage::GateSecret ==> next.gate_secret == facts.gate_secret
        },
{
}

/// The operations that the deployment calls, but for the waiting, are all different.
proof fn lemma_deploy_script(facts: FullFactsView)
    ensures
        ({
            let script = walked_at(facts, FullStage::Deploy);
            &&& script.items.len() == 8
            &&& script.asks("lambda"@, "create-function"@)
            &&& script.call_of("lambda"@, "create-function"@) == script.items[1]->Run_0
            &&& script.asks("lambda"@, "update-function-code"@)
            &&& script.call_of("lambda"@, "update-function-code"@) == script.items[3]->Run_0
            &&& script.asks("lambda"@, "update-function-configuration"@)
            &&& script.call_of("lambda"@, "update-function-configuration"@)
                == script.items[5]->Run_0
        }),
{
    reveal_strlit("create-function");
    reveal_strlit("wait");
    reveal_strlit("update-function-code");
    reveal_strlit("update-function-configuration");
    assert("create-function"@.len() == 15 && "wait"@.len() == 4 && "update-function-code"@.len()
        == 20 && "update-function-configuration"@.len() == 29);
    let script = walked_at(facts, FullStage::Deploy);
    assert(script.items.len() == 8);
    assert(script.items[1]->Run_0.words[1] == "create-function"@);
    assert(script.items[2]->Run_0.words[1] == "wait"@);
    assert(script.items[3]->Run_0.words[1] == "update-function-code"@);
    assert(script.items[4]->Run_0.words[1] == "wait"@);
    assert(script.items[5]->Run_0.words[1] == "update-function-configuration"@);
    assert(script.items[6]->Run_0.words[1] == "wait"@);
    lemma_sole(script, "lambda"@, "create-function"@, 1);
    lemma_sole(script, "lambda"@, "update-function-code"@, 3);
    lemma_sole(script, "lambda"@, "update-function-configuration"@, 5);
}

/// The access gate is deployed as one function: it is created, and brought up to date,
/// out of the archive that is written for it, under the role that is created for it and
/// that gets the policy. It is told the bucket, the table that is created, and the
/// parameter that its secret is put into, encrypted; and its policy lets it read all
/// three.
pub proof fn law_gate_is_deployed_whole(facts: FullFactsView)
    ensures
        ({
            let table = walked_at(facts, FullStage::Table);
            let role = table.call_of("iam"@, "create-role"@);
            let grant = table.call_of("iam"@, "put-role-policy"@);
            let rows = table.call_of("dynamodb"@, "create-table"@);
            let put = walked_at(facts, FullStage::SecretParam).call_of("ssm"@, "put-parameter"@);
            let deploy = walked_at(facts, FullStage::Deploy);
            let create = deploy.call_of("lambda"@, "create-function"@);
            let code = deploy.call_of("lambda"@, "update-function-code"@);
            let configure = deploy.call_of("lambda"@, "update-function-configuration"@);
            let parameter = "/dove/"@ + facts.bucket + "/gate-secret"@;
            &&& table.asks("iam"@, "create-role"@) && table.asks("iam"@, "put-role-policy"@)
            &&& walked_at(facts, FullStage::SecretParam).asks("ssm"@, "put-parameter"@)
            &&& deploy.asks("lambda"@, "create-function"@)
            &&& deploy.asks("lambda"@, "update-function-code"@)
            &&& deploy.asks("lambda"@, "update-function-configuration"@)
            &&& create.gives("--function-name"@, facts.name())
            &&& code.gives("--function-name"@, facts.name())
            &&& configure.gives("--function-name"@, facts.name())
            &&& facts.act(FullStage::Deploy) matches FullActView::Deploy { of, path, .. } && of
                == Deployment::Gate && create.gives("--zip-file"@, "fileb://"@ + path)
                && code.gives("--zip-file"@, "fileb://"@ + path)
            &&& create.gives("--handler"@, HANDLER@) && create.gives("--runtime"@, RUNTIME@)
            &&& exists|name: Seq<char>| #[trigger]
                role.gives("--role-name"@, name) && grant.gives("--role-name"@, name)
                    && create.gives(
                    "--role"@,
                    "arn:aws:iam::"@ + facts.account + ":role/"@ + name,
                )
            &&& role.gives("--assume-role-policy-document"@, LAMBDA_TRUST@)
            &&& put.gives("--name"@, parameter) && put.gives("--value"@, facts.gate_secret)
                && put.gives("--type"@, "SecureString"@)
            &&& exists|named: Seq<char>| #[trigger]
                rows.gives("--table-name"@, named) && {
                    let environment = "Variables={BUCKET="@ + facts.bucket + ",TABLE="@ + named
                        + ",GATE_SECRET_PARAM="@ + parameter + "}"@;
                    &&& create.gives("--environment"@, environment)
                    &&& configure.gives("--environment"@, environment)
                    &&& exists|policy: Seq<char>| #[trigger]
                        grant.gives("--policy-document"@, policy) && has_text(
                            policy,
                            "\"Action\":[\"dynamodb:GetItem\",\"dynamodb:UpdateItem\"],\"Resource\":\"arn:aws:dynamodb:"@
                                + facts.region + ":"@ + facts.account + ":table/"@ + named + "\""@,
                        ) && has_text(
                            policy,
                            "\"Action\":\"s3:GetObject\",\"Resource\":\"arn:aws:s3:::"@
                                + facts.bucket + "/*\""@,
                        ) && has_text(
                            policy,
                            "\"Action\":\"ssm:GetParameter\",\"Resource\":\"arn:aws:ssm:"@
                                + facts.region + ":"@ + facts.account + ":parameter"@ + parameter
                                + "\""@,
                        )
                }
        }),
{
    lemma_table_script(facts);
    lemma_deploy_script(facts);
    let table = walked_at(facts, FullStage::Table);
    let role = table.items[9]->Run_0;
    let grant = table.items[10]->Run_0;
    let rows = table.items[4]->Run_0;
    let keeping = walked_at(facts, FullStage::SecretParam);
    assert(keeping.items.len() == 3);
    lemma_sole(keeping, "ssm"@, "put-parameter"@, 1);
    let put = keeping.items[1]->Run_0;
    let deploy = walked_at(facts, FullStage::Deploy);
    let create = deploy.items[1]->Run_0;
    let code = deploy.items[3]->Run_0;
    let configure = deploy.items[5]->Run_0;
    let name = facts.name();
    assert(given_at(create.words, 2, "--function-name"@, name));
    assert(given_at(code.words, 2, "--function-name"@, name));
    assert(given_at(configure.words, 2, "--function-name"@, name));
    assert(given_at(create.words, 4, "--runtime"@, RUNTIME@));
    assert(given_at(create.words, 6, "--handler"@, HANDLER@));
    assert(given_at(
        create.words,
        8,
        "--role"@,
        "arn:aws:iam::"@ + facts.account + ":role/"@ + name,
    ));
    assert(given_at(create.words, 10, "--zip-file"@, "fileb://"@ + facts.archive));
    assert(given_at(code.words, 4, "--zip-file"@, "fileb://"@ + facts.archive));
    assert(given_at(role.words, 2, "--role-name"@, name));
    assert(given_at(role.words, 4, "--assume-role-policy-document"@, LAMBDA_TRUST@));
    assert(given_at(grant.words, 2, "--role-name"@, name));
    assert(role.gives("--role-name"@, name));
    assert(given_at(put.words, 2, "--name"@, facts.secret_param()));
    assert(given_at(put.words, 4, "--value"@, facts.gate_secret));
    assert(given_at(put.words, 6, "--type"@, "SecureString"@));
    assert(given_at(rows.words, 2, "--table-name"@, facts.table()));
    assert(rows.gives("--table-name"@, facts.table()));
    assert(given_at(create.words, 12, "--environment"@, facts.environment()));
    assert(given_at(configure.words, 4, "--environment"@, facts.environment()));
    let policy = gate_role_text(facts.account, facts.region, facts.table(), facts.bucket);
    assert(given_at(grant.words, 6, "--policy-document"@, policy));
    assert(grant.gives("--policy-document"@, policy));
    law_gate_role_may_serve(facts.account, facts.region, facts.table(), facts.bucket);
}

/// The browser that opens a link may read the bucket that is shared from, and nothing
/// but read it.
pub proof fn law_browsers_may_read(facts: FullFactsView)
    ensures
        ({
            let script = walked_at(facts, FullStage::Table);
            let cors = script.call_of("s3api"@, "put-bucket-cors"@);
            &&& script.asks("s3api"@, "put-bucket-cors"@)
            &&& cors.gives("--bucket"@, facts.bucket)
            &&& exists|rules: Seq<char>| #[trigger]
                cors.gives("--cors-configuration"@, rules) && has_text(
                    rules,
                    "\"AllowedOrigins\":[\"*\"],\"AllowedMethods\":[\"GET\"],"@,
                )
        }),
{
    lemma_table_script(facts);
    let cors = walked_at(facts, FullStage::Table).items[1]->Run_0;
    assert(given_at(cors.words, 2, "--bucket"@, facts.bucket));
    assert(given_at(cors.words, 4, "--cors-configuration"@, BUCKET_CORS@));
    assert(cors.gives("--cors-configuration"@, BUCKET_CORS@));
    reveal_strlit("{\"CORSRules\":[{\"AllowedOrigins\":[\"*\"],\"AllowedMethods\":[\"GET\"],\"AllowedHeaders\":[\"*\"],\"MaxAgeSeconds\":3000}]}");
    reveal_strlit("\"AllowedOrigins\":[\"*\"],\"AllowedMethods\":[\"GET\"],");
    let needle = "\"AllowedOrigins\":[\"*\"],\"AllowedMethods\":[\"GET\"],"@;
    assert(BUCKET_CORS@.subrange(15, 15 + needle.len() as int) =~= needle);
    assert(stands_at(BUCKET_CORS@, needle, 15));
}

/// CloudFront is put in front of the API that stands, or a distribution from before is
/// kept: the one that the configuration names, and no other.
pub proof fn law_front_is_over_the_api(facts: FullFactsView, config: Option<ConfigView>)
    requires
        wired(facts),
    ensures
        ({
            let moved = facts.after(FullStage::Distribution, FullEventView::Config(config));
            let (next, to) = moved->Ok_0;
            &&& facts.act(FullStage::Distribution) is LoadConfig
            &&& moved is Ok
            &&& next.front.origin_host == facts.api.id + ".execute-api."@ + facts.region
                + ".amazonaws.com"@
            &&& config is Some && config->0.distribution_id is Some ==> to == FullStage::Front(
                FrontStage::Reusing,
            ) && next.front.distribution_id == config->0.distribution_id->0
            &&& config is None || config->0.distribution_id is None ==> to == FullStage::Front(
                FrontStage::Listing,
            )
        }),
{
}

/// Each script of the full tier is the script of its part, for the archive that is its
/// own; and the full tier is reached at the domain of its distribution.
pub proof fn law_parts_have_their_scripts(facts: FullFactsView, api: ApiStage, front: FrontStage)
    ensures
        facts.act(FullStage::Api(api)) == FullActView::Walk(facts.api.script(api)),
        facts.act(FullStage::Front(front)) == FullActView::Walk(facts.front.script(front)),
        facts.act(FullStage::Breaker(BreakerStage::Deploying)) == (FullActView::Deploy {
            of: Deployment::KillSwitch,
            path: facts.breaker.archive,
            script: facts.breaker.script(BreakerStage::Deploying),
        }),
        facts.act(FullStage::Breaker(BreakerStage::Empowering)) == FullActView::Walk(
            facts.breaker.script(BreakerStage::Empowering),
        ),
        facts.act(FullStage::Breaker(BreakerStage::Announcing)) == FullActView::Walk(
            facts.breaker.script(BreakerStage::Announcing),
        ),
        facts.act(FullStage::Breaker(BreakerStage::Wiring)) == FullActView::Walk(
            facts.breaker.script(BreakerStage::Wiring),
        ),
        facts.gate_url() == "https://"@ + facts.front.domain,
{
}

/// Provisioning may be repeated: a table, its expiry, a role or a function that is there
/// already counts as done, and the function is brought up to date all the same, once it
/// takes updates. Whatever else fails is a failure.
pub proof fn law_gates_may_be_provisioned_again(facts: FullFactsView)
    ensures
        ({
            let table = walked_at(facts, FullStage::Table);
            let deploy = walked_at(facts, FullStage::Deploy);
            let create = deploy.call_of("lambda"@, "create-function"@);
            let code = deploy.call_of("lambda"@, "update-function-code"@);
            let configure = deploy.call_of("lambda"@, "update-function-configuration"@);
            &&& table.call_of("dynamodb"@, "create-table"@).done_by("ResourceInUseException"@)
            &&& table.call_of("dynamodb"@, "update-time-to-live"@).done_by(
                "TimeToLive is already enabled"@,
            )
            &&& table.call_of("iam"@, "create-role"@).done_by("EntityAlreadyExists"@)
            &&& table.call_of("iam"@, "put-role-policy"@).has_to_succeed()
            &&& table.call_of("s3api"@, "put-bucket-cors"@).has_to_succeed()
            &&& create.done_by("ResourceConflictException"@)
            &&& create.waits_out("cannot be assumed"@, 6)
            &&& code.has_to_succeed() && code.waits_out("cannot be performed at this time"@, 10)
            &&& configure.has_to_succeed() && configure.waits_out(
                "cannot be performed at this time"@,
                10,
            )
        }),
{
    lemma_table_script(facts);
    lemma_deploy_script(facts);
    let table = walked_at(facts, FullStage::Table);
    let deploy = walked_at(facts, FullStage::Deploy);
    lemma_done_by(table.items[4]->Run_0, "ResourceInUseException"@);
    lemma_done_by(table.items[6]->Run_0, "TimeToLive is already enabled"@);
    lemma_done_by(table.items[9]->Run_0, "EntityAlreadyExists"@);
    lemma_done_by(deploy.items[1]->Run_0, "ResourceConflictException"@);
}

/// The call waits until the function of this name is in this state.
pub open spec fn waits_for(call: CallView, state: Seq<char>, name: Seq<char>) -> bool {
    &&& call.calls("lambda"@, "wait"@)
    &&& call.words.len() > 2 && call.words[2] == state
    &&& call.gives("--function-name"@, name)
}

/// Nothing is changed before it is there: the access gate is active before its code is
/// brought up to date, the code is before its environment is, and that is before anything
/// comes behind; and the table exists before its rows are to expire. The archive that is
/// deployed is the one that is written.
pub proof fn law_changes_wait_their_turn(facts: FullFactsView)
    ensures
        ({
            let deploy = walked_at(facts, FullStage::Deploy);
            let code = deploy.call_of("lambda"@, "update-function-code"@);
            let configure = deploy.call_of("lambda"@, "update-function-configuration"@);
            let table = walked_at(facts, FullStage::Table);
            let rows = table.call_of("dynamodb"@, "create-table"@);
            let expiry = table.call_of("dynamodb"@, "update-time-to-live"@);
            &&& deploy.items.len() == 8
            &&& deploy.items[2] is Run && waits_for(
                deploy.items[2]->Run_0,
                "function-active-v2"@,
                facts.name(),
            )
            &&& deploy.items[3] == ItemView::Run(code)
            &&& deploy.items[4] is Run && waits_for(
                deploy.items[4]->Run_0,
                "function-updated-v2"@,
                facts.name(),
            )
            &&& deploy.items[5] == ItemView::Run(configure)
            &&& deploy.items[6] is Run && waits_for(
                deploy.items[6]->Run_0,
                "function-updated-v2"@,
                facts.name(),
            )
            &&& table.items[4] == ItemView::Run(rows)
            &&& table.items[5] is Run && (table.items[5]->Run_0).calls("dynamodb"@, "wait"@)
            &&& (table.items[5]->Run_0).words[2] == "table-exists"@
            &&& (table.items[5]->Run_0).gives("--table-name"@, facts.table())
            &&& table.items[6] == ItemView::Run(expiry)
            &&& facts.act(FullStage::Deploy) matches FullActView::Deploy { of, path, .. } && of
                == Deployment::Gate && deploy.call_of("lambda"@, "create-function"@).gives(
                "--zip-file"@,
                "fileb://"@ + path,
            )
        }),
{
    lemma_deploy_script(facts);
    lemma_table_script(facts);
    let deploy = walked_at(facts, FullStage::Deploy);
    let table = walked_at(facts, FullStage::Table);
    assert(given_at(deploy.items[1]->Run_0.words, 10, "--zip-file"@, "fileb://"@ + facts.archive));
    assert(given_at(deploy.items[2]->Run_0.words, 3, "--function-name"@, facts.name()));
    assert(given_at(deploy.items[4]->Run_0.words, 3, "--function-name"@, facts.name()));
    assert(given_at(deploy.items[6]->Run_0.words, 3, "--function-name"@, facts.name()));
    assert(given_at(table.items[5]->Run_0.words, 3, "--table-name"@, facts.table()));
}

/// What the access gate costs grows with its use: the table is billed by the request, and
/// a call of either function ends within half a minute.
pub proof fn law_idle_gates_cost_nothing(facts: FullFactsView)
    ensures
        walked_at(facts, FullStage::Table).call_of("dynamodb"@, "create-table"@).gives(
            "--billing-mode"@,
            "PAY_PER_REQUEST"@,
        ),
        walked_at(facts, FullStage::Deploy).call_of("lambda"@, "create-function"@).gives(
            "--timeout"@,
            decimal(30),
        ),
        walked_at(facts, FullStage::Breaker(BreakerStage::Deploying)).call_of(
            "lambda"@,
            "create-function"@,
        ).gives("--timeout"@, decimal(10)),
{
    lemma_deploy_script(facts);
    lemma_table_script(facts);
    let create = walked_at(facts, FullStage::Deploy).items[1]->Run_0;
    let rows = walked_at(facts, FullStage::Table).items[4]->Run_0;
    let breaking = walked_at(facts, FullStage::Breaker(BreakerStage::Deploying));
    assert(breaking.items.len() == 3);
    lemma_sole(breaking, "lambda"@, "create-function"@, 1);
    reveal_strlit("30");
    reveal_strlit("10");
    assert(decimal(30) =~= "30"@ && decimal(10) =~= "10"@) by {
        reveal_with_fuel(decimal, 3);
    }
    assert(given_at(rows.words, 8, "--billing-mode"@, "PAY_PER_REQUEST"@));
    assert(given_at(create.words, 14, "--timeout"@, decimal(30)));
    assert(given_at(breaking.items[1]->Run_0.words, 14, "--timeout"@, decimal(10)));
}

/// The permissions that the access gate grants do not collide: API Gateway's and
/// CloudFront's are granted under different ids, so that neither passes for the other.
pub proof fn law_permissions_do_not_collide(api: ApiFactsView, front: FrontFactsView)
    ensures
        exists|a: Seq<char>, b: Seq<char>|
            a != b && #[trigger] api.script(ApiStage::Wiring).call_of(
                "lambda"@,
                "add-permission"@,
            ).gives("--statement-id"@, a) && #[trigger] front.script(FrontStage::Granting).call_of(
                "lambda"@,
                "add-permission"@,
            ).gives("--statement-id"@, b),
{
    lemma_wiring(api);
    let granting = front.script(FrontStage::Granting);
    assert(granting.items.len() == 4);
    lemma_sole(granting, "lambda"@, "add-permission"@, 2);
    let one = api.script(ApiStage::Wiring).items[2]->Run_0;
    let other = granting.items[2]->Run_0;
    assert(given_at(one.words, 4, "--statement-id"@, "apigw-invoke"@));
    assert(given_at(other.words, 4, "--statement-id"@, "cloudfront-oac"@));
    reveal_strlit("apigw-invoke");
    reveal_strlit("cloudfront-oac");
    assert("apigw-invoke"@.len() != "cloudfront-oac"@.len());
    assert(one.gives("--statement-id"@, "apigw-invoke"@));
    assert(other.gives("--statement-id"@, "cloudfront-oac"@));
}

} // verus!
