//! The cost circuit-breaker. A CloudWatch alarm on the access gate's invocations trips
//! an SNS topic, which fires a kill-switch function that sets the access gate's reserved
//! concurrency to 0. The access gate goes dark, and stops costing money, until the
//! operator enables it again.

use vstd::prelude::*;

use crate::aws::{given_at, lemma_done_by, Call, CallView, ComplaintView, Reply, ReplyView};
use crate::gate::{HANDLER, LAMBDA_TRUST, RUNTIME};
use crate::json::{json_read, parse, text_of};
use crate::provision::{lemma_starless, lemma_starless_scope, starless, unquoted};
use crate::script::{lemma_sole, Script, ScriptView};
use crate::search::{
    has_text, lemma_across, lemma_found_before, lemma_suffix_grows, stands_at,
};

verus! {

/// Gate invocations in a five-minute window that trip the breaker. Generous
/// against real use, and below the throttle's ceiling, so that a sustained flood
/// trips it within minutes.
pub const FLOOD_THRESHOLD: &'static str = "5000";

/// The kill switch: on any SNS trigger, throttle the access gate to zero concurrency.
pub const KILL_SWITCH_PY: &'static str = "import os
import boto3

def handler(event, _context):
    boto3.client(\"lambda\").put_function_concurrency(
        FunctionName=os.environ[\"GATE_FUNCTION\"],
        ReservedConcurrentExecutions=0,
    )
    return {\"disabled\": os.environ[\"GATE_FUNCTION\"]}
";

/// How far the breaker has come.
#[derive(Clone, Copy, PartialEq, Eq, Structural)]
pub enum BreakerStage {
    /// The kill switch's role.
    Empowering,
    /// The kill switch, out of the archive.
    Deploying,
    /// The topic.
    Announcing,
    /// The subscription, the permission and the alarm.
    Wiring,
    /// The breaker stands.
    Ready,
}

/// What is known of the breaker.
pub struct BreakerFacts {
    pub region: String,
    pub account: String,
    pub gate_name: String,
    /// Where the kill switch's archive lies.
    pub archive: String,
    pub topic_arn: String,
}

/// What is known of the breaker.
pub struct BreakerFactsView {
    pub region: Seq<char>,
    pub account: Seq<char>,
    pub gate_name: Seq<char>,
    pub archive: Seq<char>,
    pub topic_arn: Seq<char>,
}

impl View for BreakerFacts {
    type V = BreakerFactsView;

    open spec fn view(&self) -> BreakerFactsView {
        BreakerFactsView {
            region: self.region@,
            account: self.account@,
            gate_name: self.gate_name@,
            archive: self.archive@,
            topic_arn: self.topic_arn@,
        }
    }
}

/// The ARN of a function.
pub open spec fn function_arn(region: Seq<char>, account: Seq<char>, name: Seq<char>) -> Seq<char> {
    "arn:aws:lambda:"@ + region + ":"@ + account + ":function:"@ + name
}

/// The ARN of a function.
pub fn arn_of_function(region: &str, account: &str, name: &str) -> (r: String)
    ensures
        r@ == function_arn(region@, account@, name@),
{
    "arn:aws:lambda:".to_string().concat(region).concat(":").concat(account).concat(
        ":function:",
    ).concat(name)
}

/// The ARN of a role.
pub open spec fn role_arn(account: Seq<char>, name: Seq<char>) -> Seq<char> {
    "arn:aws:iam::"@ + account + ":role/"@ + name
}

/// The ARN of a role.
pub fn arn_of_role(account: &str, name: &str) -> (r: String)
    ensures
        r@ == role_arn(account@, name@),
{
    "arn:aws:iam::".to_string().concat(account).concat(":role/").concat(name)
}

/// The policy of the kill switch's role.
pub open spec fn kill_policy_text(gate_arn: Seq<char>, account: Seq<char>) -> Seq<char> {
    "{\"Version\":\"2012-10-17\",\"Statement\":[{\"Effect\":\"Allow\",\"Action\":\"lambda:PutFunctionConcurrency\",\"Resource\":\""@
        + gate_arn
        + "\"},{\"Effect\":\"Allow\",\"Action\":[\"logs:CreateLogGroup\",\"logs:CreateLogStream\",\"logs:PutLogEvents\"],\"Resource\":\"arn:aws:logs:*:"@
        + account + ":*\"}]}"@
}

/// The kill switch's role's policy: throttle just the access gate function, and log.
pub fn kill_policy(gate_arn: &str, account: &str) -> (r: String)
    ensures
        r@ == kill_policy_text(gate_arn@, account@),
{
    "{\"Version\":\"2012-10-17\",\"Statement\":[{\"Effect\":\"Allow\",\"Action\":\"lambda:PutFunctionConcurrency\",\"Resource\":\"".to_string().concat(
        gate_arn,
    ).concat(
        "\"},{\"Effect\":\"Allow\",\"Action\":[\"logs:CreateLogGroup\",\"logs:CreateLogStream\",\"logs:PutLogEvents\"],\"Resource\":\"arn:aws:logs:*:",
    ).concat(account).concat(":*\"}]}")
}

/// The kill switch's role is granted nothing on every resource, whatever function and
/// account are named.
pub proof fn law_kill_policy_is_scoped(gate_arn: Seq<char>, account: Seq<char>)
    requires
        unquoted(gate_arn),
        gate_arn.len() > 0,
        gate_arn[0] != '*',
        unquoted(account),
    ensures
        !has_text(kill_policy_text(gate_arn, account), "\"Resource\":\"*\""@),
{
    reveal_strlit("{\"Version\":\"2012-10-17\",\"Statement\":[{\"Effect\":\"Allow\",\"Action\":\"lambda:PutFunctionConcurrency\",\"Resource\":\"");
    reveal_strlit("\"},{\"Effect\":\"Allow\",\"Action\":[\"logs:CreateLogGroup\",\"logs:CreateLogStream\",\"logs:PutLogEvents\"],\"Resource\":\"arn:aws:logs:*:");
    reveal_strlit(":*\"}]}");
    let t0 = "{\"Version\":\"2012-10-17\",\"Statement\":[{\"Effect\":\"Allow\",\"Action\":\"lambda:PutFunctionConcurrency\",\"Resource\":\""@;
    let t1 = t0 + gate_arn;
    assert(starless(t1));
    let t2 = t1
        + "\"},{\"Effect\":\"Allow\",\"Action\":[\"logs:CreateLogGroup\",\"logs:CreateLogStream\",\"logs:PutLogEvents\"],\"Resource\":\"arn:aws:logs:*:"@;
    lemma_starless(
        t1,
        "\"},{\"Effect\":\"Allow\",\"Action\":[\"logs:CreateLogGroup\",\"logs:CreateLogStream\",\"logs:PutLogEvents\"],\"Resource\":\"arn:aws:logs:*:"@,
    );
    let t3 = t2 + account;
    lemma_starless(t2, account);
    lemma_starless(t3, ":*\"}]}"@);
    lemma_starless_scope(t3 + ":*\"}]}"@);
}

impl BreakerFactsView {
    /// What is known before anything was asked.
    pub open spec fn of(
        region: Seq<char>,
        account: Seq<char>,
        gate_name: Seq<char>,
        archive: Seq<char>,
    ) -> BreakerFactsView {
        BreakerFactsView { region, account, gate_name, archive, topic_arn: Seq::empty() }
    }

    /// The kill switch's name, as a function and as a role.
    pub open spec fn breaker(self) -> Seq<char> {
        "dove-breaker-"@ + self.account
    }

    /// The topic's name, and the alarm's.
    pub open spec fn topic_name(self) -> Seq<char> {
        "dove-gate-flood-"@ + self.account
    }

    /// What is run at each stage.
    pub open spec fn script(self, stage: BreakerStage) -> ScriptView {
        match stage {
            BreakerStage::Empowering => ScriptView::nothing().begin("breaker role"@).run(
                CallView::aws("iam"@, "create-role"@).option("--role-name"@, self.breaker()).option(
                    "--assume-role-policy-document"@,
                    LAMBDA_TRUST@,
                ).tolerating("EntityAlreadyExists"@),
            ).run(
                CallView::aws("iam"@, "put-role-policy"@).option(
                    "--role-name"@,
                    self.breaker(),
                ).option("--policy-name"@, "dove-breaker"@).option(
                    "--policy-document"@,
                    kill_policy_text(
                        function_arn(self.region, self.account, self.gate_name),
                        self.account,
                    ),
                ),
            ).end("breaker role"@),
            BreakerStage::Deploying => ScriptView::nothing().step(
                "breaker lambda"@,
                CallView::aws("lambda"@, "create-function"@).option(
                    "--function-name"@,
                    self.breaker(),
                ).option("--runtime"@, RUNTIME@).option("--handler"@, HANDLER@).option(
                    "--role"@,
                    role_arn(self.account, self.breaker()),
                ).option("--zip-file"@, "fileb://"@ + self.archive).option(
                    "--environment"@,
                    "Variables={GATE_FUNCTION="@ + self.gate_name + "}"@,
                ).option("--timeout"@, "10"@).tolerating("ResourceConflictException"@).retrying(
                    "cannot be assumed"@,
                    6,
                ),
            ),
            BreakerStage::Announcing => ScriptView::nothing().begin("breaker topic"@).run(
                CallView::aws("sns"@, "create-topic"@).option("--name"@, self.topic_name()).option(
                    "--output"@,
                    "json"@,
                ).complaining(ComplaintView::Saying("create-topic"@)),
            ),
            BreakerStage::Wiring => ScriptView::nothing().end("breaker topic"@).begin(
                "breaker wiring"@,
            ).run(
                CallView::aws("sns"@, "subscribe"@).option("--topic-arn"@, self.topic_arn).option(
                    "--protocol"@,
                    "lambda"@,
                ).option(
                    "--notification-endpoint"@,
                    function_arn(self.region, self.account, self.breaker()),
                ),
            ).run(
                CallView::aws("lambda"@, "add-permission"@).option(
                    "--function-name"@,
                    self.breaker(),
                ).option("--statement-id"@, "sns"@).option(
                    "--action"@,
                    "lambda:InvokeFunction"@,
                ).option("--principal"@, "sns.amazonaws.com"@).option(
                    "--source-arn"@,
                    self.topic_arn,
                ).tolerating("ResourceConflictException"@),
            ).end("breaker wiring"@).step(
                "breaker alarm"@,
                CallView::aws("cloudwatch"@, "put-metric-alarm"@).option(
                    "--alarm-name"@,
                    self.topic_name(),
                ).option("--namespace"@, "AWS/Lambda"@).option(
                    "--metric-name"@,
                    "Invocations"@,
                ).option("--dimensions"@, "Name=FunctionName,Value="@ + self.gate_name).option(
                    "--statistic"@,
                    "Sum"@,
                ).option("--period"@, "300"@).option("--evaluation-periods"@, "1"@).option(
                    "--threshold"@,
                    FLOOD_THRESHOLD@,
                ).option("--comparison-operator"@, "GreaterThanThreshold"@).option(
                    "--treat-missing-data"@,
                    "notBreaching"@,
                ).option("--alarm-actions"@, self.topic_arn),
            ),
            BreakerStage::Ready => ScriptView::nothing(),
        }
    }

    /// Where `reply` leads from a stage: nowhere, if the last call of the stage's
    /// script failed.
    pub open spec fn after(self, stage: BreakerStage, reply: ReplyView) -> Result<
        (BreakerFactsView, BreakerStage),
        Seq<char>,
    > {
        match self.script(stage).objection(reply) {
            Some(why) => Err(why),
            None => self.moved(stage, reply),
        }
    }

    /// Where a reply that passed leads.
    pub open spec fn moved(self, stage: BreakerStage, reply: ReplyView) -> Result<
        (BreakerFactsView, BreakerStage),
        Seq<char>,
    > {
        match stage {
            BreakerStage::Empowering => Ok((self, BreakerStage::Deploying)),
            BreakerStage::Deploying => Ok((self, BreakerStage::Announcing)),
            BreakerStage::Announcing => match topic_created(reply.output()) {
                Ok(topic_arn) => Ok((BreakerFactsView { topic_arn, ..self }, BreakerStage::Wiring)),
                Err(why) => Err(why),
            },
            BreakerStage::Wiring => Ok((self, BreakerStage::Ready)),
            BreakerStage::Ready => Ok((self, BreakerStage::Ready)),
        }
    }
}

/// The topic's ARN in a `create-topic` reply.
pub open spec fn topic_created(document: Seq<u8>) -> Result<Seq<char>, Seq<char>> {
    match json_read(document) {
        Ok(value) => match value.text("TopicArn"@) {
            Some(arn) => Ok(arn),
            None => Err("no TopicArn"@),
        },
        Err(why) => Err(why),
    }
}

/// Reads the topic's ARN out of a `create-topic` reply.
fn created_topic(document: &[u8]) -> (r: Result<String, String>)
    ensures
        match r {
            Ok(arn) => topic_created(document@) == Ok::<Seq<char>, Seq<char>>(arn@),
            Err(why) => topic_created(document@) == Err::<Seq<char>, Seq<char>>(why@),
        },
{
    match parse(document) {
        Ok(value) => match text_of(&value, "TopicArn") {
            Some(arn) => Ok(arn),
            None => Err("no TopicArn".to_string()),
        },
        Err(why) => Err(why),
    }
}

impl BreakerFacts {
    /// What is known before anything was asked.
    pub fn of(region: &str, account: &str, gate_name: &str, archive: &str) -> (r: BreakerFacts)
        ensures
            r@ == BreakerFactsView::of(region@, account@, gate_name@, archive@),
    {
        BreakerFacts {
            region: region.to_string(),
            account: account.to_string(),
            gate_name: gate_name.to_string(),
            archive: archive.to_string(),
            topic_arn: String::new(),
        }
    }

    /// What to run at a stage.
    pub fn script(&self, stage: BreakerStage) -> (r: Script)
        ensures
            r@ == self@.script(stage),
    {
        let breaker = "dove-breaker-".to_string().concat(self.account.as_str());
        let topic_name = "dove-gate-flood-".to_string().concat(self.account.as_str());
        match stage {
            BreakerStage::Empowering => {
                let gate_arn = arn_of_function(
                    self.region.as_str(),
                    self.account.as_str(),
                    self.gate_name.as_str(),
                );
                let policy = kill_policy(gate_arn.as_str(), self.account.as_str());
                Script::nothing().begin("breaker role").run(
                    Call::aws("iam", "create-role").option("--role-name", breaker.as_str()).option(
                        "--assume-role-policy-document",
                        LAMBDA_TRUST,
                    ).tolerating("EntityAlreadyExists"),
                ).run(
                    Call::aws("iam", "put-role-policy").option(
                        "--role-name",
                        breaker.as_str(),
                    ).option("--policy-name", "dove-breaker").option(
                        "--policy-document",
                        policy.as_str(),
                    ),
                ).end("breaker role")
            },
            BreakerStage::Deploying => {
                let role = arn_of_role(self.account.as_str(), breaker.as_str());
                let archive = "fileb://".to_string().concat(self.archive.as_str());
                let environment = "Variables={GATE_FUNCTION=".to_string().concat(
                    self.gate_name.as_str(),
                ).concat("}");
                Script::nothing().step(
                    "breaker lambda",
                    Call::aws("lambda", "create-function").option(
                        "--function-name",
                        breaker.as_str(),
                    ).option("--runtime", RUNTIME).option("--handler", HANDLER).option(
                        "--role",
                        role.as_str(),
                    ).option("--zip-file", archive.as_str()).option(
                        "--environment",
                        environment.as_str(),
                    ).option("--timeout", "10").tolerating("ResourceConflictException").retrying(
                        "cannot be assumed",
                        6,
                    ),
                )
            },
            BreakerStage::Announcing => Script::nothing().begin("breaker topic").run(
                Call::aws("sns", "create-topic").option("--name", topic_name.as_str()).option(
                    "--output",
                    "json",
                ).saying("create-topic"),
            ),
            BreakerStage::Wiring => {
                let breaker_arn = arn_of_function(
                    self.region.as_str(),
                    self.account.as_str(),
                    breaker.as_str(),
                );
                let dimensions = "Name=FunctionName,Value=".to_string().concat(
                    self.gate_name.as_str(),
                );
                Script::nothing().end("breaker topic").begin("breaker wiring").run(
                    Call::aws("sns", "subscribe").option(
                        "--topic-arn",
                        self.topic_arn.as_str(),
                    ).option("--protocol", "lambda").option(
                        "--notification-endpoint",
                        breaker_arn.as_str(),
                    ),
                ).run(
                    Call::aws("lambda", "add-permission").option(
                        "--function-name",
                        breaker.as_str(),
                    ).option("--statement-id", "sns").option(
                        "--action",
                        "lambda:InvokeFunction",
                    ).option("--principal", "sns.amazonaws.com").option(
                        "--source-arn",
                        self.topic_arn.as_str(),
                    ).tolerating("ResourceConflictException"),
                ).end("breaker wiring").step(
                    "breaker alarm",
                    Call::aws("cloudwatch", "put-metric-alarm").option(
                        "--alarm-name",
                        topic_name.as_str(),
                    ).option("--namespace", "AWS/Lambda").option(
                        "--metric-name",
                        "Invocations",
                    ).option("--dimensions", dimensions.as_str()).option(
                        "--statistic",
                        "Sum",
                    ).option("--period", "300").option("--evaluation-periods", "1").option(
                        "--threshold",
                        FLOOD_THRESHOLD,
                    ).option("--comparison-operator", "GreaterThanThreshold").option(
                        "--treat-missing-data",
                        "notBreaching",
                    ).option("--alarm-actions", self.topic_arn.as_str()),
                )
            },
            BreakerStage::Ready => Script::nothing(),
        }
    }
}

/// Stands up the breaker for the access gate, or brings it up to date: the move from a
/// stage whose script ended with `reply`. The first stage is `Empowering`, and at
/// `Ready` the breaker stands.
pub fn provision_breaker(
    facts: &mut BreakerFacts,
    stage: BreakerStage,
    reply: &Reply,
) -> (r: Result<BreakerStage, String>)
    ensures
        match r {
            Ok(next) => old(facts)@.after(stage, reply@) == Ok::<
                (BreakerFactsView, BreakerStage),
                Seq<char>,
            >((final(facts)@, next)),
            Err(why) => {
                &&& old(facts)@.after(stage, reply@) == Err::<
                    (BreakerFactsView, BreakerStage),
                    Seq<char>,
                >(why@)
                &&& final(facts)@ == old(facts)@
            },
        },
{
    if let Some(why) = facts.script(stage).object(reply) {
        return Err(why);
    }
    match stage {
        BreakerStage::Empowering => Ok(BreakerStage::Deploying),
        BreakerStage::Deploying => Ok(BreakerStage::Announcing),
        BreakerStage::Announcing => match created_topic(reply.output()) {
            Ok(topic_arn) => {
                facts.topic_arn = topic_arn;
                Ok(BreakerStage::Wiring)
            },
            Err(why) => Err(why),
        },
        BreakerStage::Wiring => Ok(BreakerStage::Ready),
        BreakerStage::Ready => Ok(BreakerStage::Ready),
    }
}

// ── laws ──────────────────────────────────────────────────────────────────

/// The kill switch is let pull the one lever: the policy of its role lets it change the
/// concurrency of the function that is named.
proof fn lemma_kill_policy(gate_arn: Seq<char>, account: Seq<char>)
    ensures
        has_text(
            kill_policy_text(gate_arn, account),
            "\"Action\":\"lambda:PutFunctionConcurrency\",\"Resource\":\""@ + gate_arn + "\""@,
        ),
{
    let l0 = "{\"Version\":\"2012-10-17\",\"Statement\":[{\"Effect\":\"Allow\",\"Action\":\"lambda:PutFunctionConcurrency\",\"Resource\":\""@;
    let l1 = "\"},{\"Effect\":\"Allow\",\"Action\":[\"logs:CreateLogGroup\",\"logs:CreateLogStream\",\"logs:PutLogEvents\"],\"Resource\":\"arn:aws:logs:*:"@;
    let x = "\"Action\":\"lambda:PutFunctionConcurrency\",\"Resource\":\""@;
    reveal_strlit("{\"Version\":\"2012-10-17\",\"Statement\":[{\"Effect\":\"Allow\",\"Action\":\"lambda:PutFunctionConcurrency\",\"Resource\":\"");
    reveal_strlit("\"},{\"Effect\":\"Allow\",\"Action\":[\"logs:CreateLogGroup\",\"logs:CreateLogStream\",\"logs:PutLogEvents\"],\"Resource\":\"arn:aws:logs:*:");
    reveal_strlit("\"Action\":\"lambda:PutFunctionConcurrency\",\"Resource\":\"");
    reveal_strlit("\"");
    assert(x =~= l0.subrange(l0.len() - x.len(), l0.len() as int));
    lemma_suffix_grows(l0, x, gate_arn);
    assert("\""@ =~= l1.subrange(0, 1));
    lemma_across(l0 + gate_arn, x + gate_arn, l1, "\""@);
    let needle = x + gate_arn + "\""@;
    lemma_found_before(l0 + gate_arn + l1, needle, account);
    lemma_found_before(l0 + gate_arn + l1 + account, needle, ":*\"}]}"@);
}

/// The breaker watches the access gate and pulls its lever. An alarm on the number of the
/// access gate's invocations goes to the topic that is created; the topic goes to the
/// kill switch that is deployed, and may invoke it; and the kill switch is told the access
/// gate's name, and may change its concurrency.
pub proof fn law_breaker_pulls_the_gate(facts: BreakerFactsView, announced: ReplyView)
    requires
        facts.after(BreakerStage::Announcing, announced) is Ok,
    ensures
        ({
            let (next, to) = facts.after(BreakerStage::Announcing, announced)->Ok_0;
            let topic = json_read(announced.output())->Ok_0.text("TopicArn"@);
            let empowering = facts.script(BreakerStage::Empowering);
            let role = empowering.call_of("iam"@, "create-role"@);
            let grant = empowering.call_of("iam"@, "put-role-policy"@);
            let deploying = facts.script(BreakerStage::Deploying);
            let create = deploying.call_of("lambda"@, "create-function"@);
            let wiring = next.script(BreakerStage::Wiring);
            let subscribe = wiring.call_of("sns"@, "subscribe"@);
            let permit = wiring.call_of("lambda"@, "add-permission"@);
            let alarm = wiring.call_of("cloudwatch"@, "put-metric-alarm"@);
            let place = "arn:aws:lambda:"@ + facts.region + ":"@ + facts.account + ":function:"@;
            &&& to == BreakerStage::Wiring
            &&& json_read(announced.output()) is Ok && topic is Some
            &&& empowering.asks("iam"@, "create-role"@)
            &&& empowering.asks("iam"@, "put-role-policy"@)
            &&& deploying.asks("lambda"@, "create-function"@)
            &&& wiring.asks("sns"@, "subscribe"@)
            &&& wiring.asks("lambda"@, "add-permission"@)
            &&& wiring.asks("cloudwatch"@, "put-metric-alarm"@)
            &&& exists|name: Seq<char>| #[trigger]
                role.gives("--role-name"@, name) && grant.gives("--role-name"@, name)
                    && create.gives(
                    "--role"@,
                    "arn:aws:iam::"@ + facts.account + ":role/"@ + name,
                )
            &&& role.gives("--assume-role-policy-document"@, LAMBDA_TRUST@)
            &&& exists|policy: Seq<char>| #[trigger]
                grant.gives("--policy-document"@, policy) && has_text(
                    policy,
                    "\"Action\":\"lambda:PutFunctionConcurrency\",\"Resource\":\""@ + (place
                        + facts.gate_name) + "\""@,
                )
            &&& create.gives("--zip-file"@, "fileb://"@ + facts.archive)
            &&& create.gives("--handler"@, HANDLER@) && create.gives("--runtime"@, RUNTIME@)
            &&& create.gives(
                "--environment"@,
                "Variables={GATE_FUNCTION="@ + facts.gate_name + "}"@,
            )
            &&& exists|switch: Seq<char>| #[trigger]
                create.gives("--function-name"@, switch) && subscribe.gives(
                    "--notification-endpoint"@,
                    place + switch,
                ) && permit.gives("--function-name"@, switch)
            &&& subscribe.gives("--topic-arn"@, topic->0) && subscribe.gives(
                "--protocol"@,
                "lambda"@,
            )
            &&& permit.gives("--source-arn"@, topic->0) && permit.gives(
                "--principal"@,
                "sns.amazonaws.com"@,
            ) && permit.gives("--action"@, "lambda:InvokeFunction"@)
            &&& alarm.gives("--alarm-actions"@, topic->0)
            &&& alarm.gives("--namespace"@, "AWS/Lambda"@) && alarm.gives(
                "--metric-name"@,
                "Invocations"@,
            ) && alarm.gives("--dimensions"@, "Name=FunctionName,Value="@ + facts.gate_name)
            &&& alarm.gives("--statistic"@, "Sum"@) && alarm.gives(
                "--comparison-operator"@,
                "GreaterThanThreshold"@,
            ) && alarm.gives("--threshold"@, FLOOD_THRESHOLD@) && alarm.gives(
                "--period"@,
                "300"@,
            ) && alarm.gives("--evaluation-periods"@, "1"@) && alarm.gives(
                "--treat-missing-data"@,
                "notBreaching"@,
            )
        }),
{
    let (next, to) = facts.after(BreakerStage::Announcing, announced)->Ok_0;
    let topic = next.topic_arn;
    let empowering = facts.script(BreakerStage::Empowering);
    let deploying = facts.script(BreakerStage::Deploying);
    let wiring = next.script(BreakerStage::Wiring);
    lemma_breaker_scripts(facts);
    lemma_breaker_scripts(next);
    let role = empowering.items[1]->Run_0;
    let grant = empowering.items[2]->Run_0;
    let create = deploying.items[1]->Run_0;
    let subscribe = wiring.items[2]->Run_0;
    let permit = wiring.items[3]->Run_0;
    let alarm = wiring.items[6]->Run_0;
    let switch = facts.breaker();
    let policy = kill_policy_text(
        function_arn(facts.region, facts.account, facts.gate_name),
        facts.account,
    );
    assert(given_at(role.words, 2, "--role-name"@, switch));
    assert(given_at(role.words, 4, "--assume-role-policy-document"@, LAMBDA_TRUST@));
    assert(given_at(grant.words, 2, "--role-name"@, switch));
    assert(given_at(grant.words, 6, "--policy-document"@, policy));
    assert(role.gives("--role-name"@, switch));
    assert(grant.gives("--policy-document"@, policy));
    lemma_kill_policy(function_arn(facts.region, facts.account, facts.gate_name), facts.account);
    assert(given_at(create.words, 2, "--function-name"@, switch));
    assert(create.gives("--function-name"@, switch));
    assert(given_at(create.words, 4, "--runtime"@, RUNTIME@));
    assert(given_at(create.words, 6, "--handler"@, HANDLER@));
    assert(given_at(
        create.words,
        8,
        "--role"@,
        "arn:aws:iam::"@ + facts.account + ":role/"@ + switch,
    ));
    assert(given_at(create.words, 10, "--zip-file"@, "fileb://"@ + facts.archive));
    assert(given_at(
        create.words,
        12,
        "--environment"@,
        "Variables={GATE_FUNCTION="@ + facts.gate_name + "}"@,
    ));
    assert(given_at(subscribe.words, 2, "--topic-arn"@, topic));
    assert(given_at(subscribe.words, 4, "--protocol"@, "lambda"@));
    assert(given_at(
        subscribe.words,
        6,
        "--notification-endpoint"@,
        function_arn(facts.region, facts.account, switch),
    ));
    assert(given_at(permit.words, 2, "--function-name"@, switch));
    assert(given_at(permit.words, 6, "--action"@, "lambda:InvokeFunction"@));
    assert(given_at(permit.words, 8, "--principal"@, "sns.amazonaws.com"@));
    assert(given_at(permit.words, 10, "--source-arn"@, topic));
    assert(given_at(alarm.words, 4, "--namespace"@, "AWS/Lambda"@));
    assert(given_at(alarm.words, 6, "--metric-name"@, "Invocations"@));
    assert(given_at(
        alarm.words,
        8,
        "--dimensions"@,
        "Name=FunctionName,Value="@ + facts.gate_name,
    ));
    assert(given_at(alarm.words, 10, "--statistic"@, "Sum"@));
    assert(given_at(alarm.words, 12, "--period"@, "300"@));
    assert(given_at(alarm.words, 14, "--evaluation-periods"@, "1"@));
    assert(given_at(alarm.words, 16, "--threshold"@, FLOOD_THRESHOLD@));
    assert(given_at(alarm.words, 18, "--comparison-operator"@, "GreaterThanThreshold"@));
    assert(given_at(alarm.words, 20, "--treat-missing-data"@, "notBreaching"@));
    assert(given_at(alarm.words, 22, "--alarm-actions"@, topic));
}

/// The kill switch does what the breaker is for: what is invoked, by the name that the
/// deployment hands over, takes the concurrency of the function that its environment
/// names down to none.
pub proof fn law_kill_switch_takes_the_gate_down()
    ensures
        HANDLER@ == "lambda_function"@ + "."@ + "handler"@,
        has_text(KILL_SWITCH_PY@, "def handler("@),
        has_text(KILL_SWITCH_PY@, "FunctionName=os.environ[\"GATE_FUNCTION\"],"@),
        has_text(KILL_SWITCH_PY@, "ReservedConcurrentExecutions=0,"@),
        has_text(KILL_SWITCH_PY@, "put_function_concurrency("@),
{
    reveal_strlit("lambda_function.handler");
    reveal_strlit("lambda_function");
    reveal_strlit(".");
    reveal_strlit("handler");
    assert(HANDLER@ =~= "lambda_function"@ + "."@ + "handler"@);
    reveal_strlit("import os
import boto3

def handler(event, _context):
    boto3.client(\"lambda\").put_function_concurrency(
        FunctionName=os.environ[\"GATE_FUNCTION\"],
        ReservedConcurrentExecutions=0,
    )
    return {\"disabled\": os.environ[\"GATE_FUNCTION\"]}
");
    let code = KILL_SWITCH_PY@;
    reveal_strlit("def handler(");
    assert(code.subrange(24, 36) =~= "def handler("@);
    assert(stands_at(code, "def handler("@, 24));
    reveal_strlit("FunctionName=os.environ[\"GATE_FUNCTION\"],");
    assert(code.subrange(115, 156) =~= "FunctionName=os.environ[\"GATE_FUNCTION\"],"@);
    assert(stands_at(code, "FunctionName=os.environ[\"GATE_FUNCTION\"],"@, 115));
    reveal_strlit("ReservedConcurrentExecutions=0,");
    assert(code.subrange(165, 196) =~= "ReservedConcurrentExecutions=0,"@);
    assert(stands_at(code, "ReservedConcurrentExecutions=0,"@, 165));
    reveal_strlit("put_function_concurrency(");
    assert(code.subrange(81, 106) =~= "put_function_concurrency("@);
    assert(stands_at(code, "put_function_concurrency("@, 81));
}

/// Provisioning may be repeated: a role, a function or a permission that is there already
/// counts as done, and a role that cannot be assumed yet is waited for. Whatever else
/// fails is a failure.
pub proof fn law_breakers_may_be_provisioned_again(facts: BreakerFactsView)
    ensures
        ({
            let empowering = facts.script(BreakerStage::Empowering);
            let create = facts.script(BreakerStage::Deploying).call_of(
                "lambda"@,
                "create-function"@,
            );
            let wiring = facts.script(BreakerStage::Wiring);
            &&& empowering.call_of("iam"@, "create-role"@).done_by("EntityAlreadyExists"@)
            &&& empowering.call_of("iam"@, "put-role-policy"@).has_to_succeed()
            &&& create.done_by("ResourceConflictException"@)
            &&& create.waits_out("cannot be assumed"@, 6)
            &&& wiring.call_of("lambda"@, "add-permission"@).done_by("ResourceConflictException"@)
            &&& wiring.call_of("sns"@, "subscribe"@).has_to_succeed()
            &&& wiring.call_of("cloudwatch"@, "put-metric-alarm"@).has_to_succeed()
        }),
{
    lemma_breaker_scripts(facts);
    let empowering = facts.script(BreakerStage::Empowering);
    let deploying = facts.script(BreakerStage::Deploying);
    let wiring = facts.script(BreakerStage::Wiring);
    lemma_done_by(empowering.items[1]->Run_0, "EntityAlreadyExists"@);
    lemma_done_by(deploying.items[1]->Run_0, "ResourceConflictException"@);
    lemma_done_by(wiring.items[3]->Run_0, "ResourceConflictException"@);
}

/// The operations that each script calls are all different.
proof fn lemma_breaker_scripts(facts: BreakerFactsView)
    ensures
        ({
            let empowering = facts.script(BreakerStage::Empowering);
            let deploying = facts.script(BreakerStage::Deploying);
            let wiring = facts.script(BreakerStage::Wiring);
            &&& empowering.items.len() == 4 && deploying.items.len() == 3 && wiring.items.len() == 8
            &&& empowering.asks("iam"@, "create-role"@)
            &&& empowering.call_of("iam"@, "create-role"@) == empowering.items[1]->Run_0
            &&& empowering.asks("iam"@, "put-role-policy"@)
            &&& empowering.call_of("iam"@, "put-role-policy"@) == empowering.items[2]->Run_0
            &&& deploying.asks("lambda"@, "create-function"@)
            &&& deploying.call_of("lambda"@, "create-function"@) == deploying.items[1]->Run_0
            &&& wiring.asks("sns"@, "subscribe"@)
            &&& wiring.call_of("sns"@, "subscribe"@) == wiring.items[2]->Run_0
            &&& wiring.asks("lambda"@, "add-permission"@)
            &&& wiring.call_of("lambda"@, "add-permission"@) == wiring.items[3]->Run_0
            &&& wiring.asks("cloudwatch"@, "put-metric-alarm"@)
            &&& wiring.call_of("cloudwatch"@, "put-metric-alarm"@) == wiring.items[6]->Run_0
        }),
{
    let empowering = facts.script(BreakerStage::Empowering);
    let deploying = facts.script(BreakerStage::Deploying);
    let wiring = facts.script(BreakerStage::Wiring);
    reveal_strlit("create-role");
    reveal_strlit("put-role-policy");
    assert("create-role"@.len() != "put-role-policy"@.len());
    assert(empowering.items.len() == 4 && deploying.items.len() == 3 && wiring.items.len() == 8);
    assert(empowering.items[1]->Run_0.words[1] == "create-role"@);
    assert(empowering.items[2]->Run_0.words[1] == "put-role-policy"@);
    lemma_sole(empowering, "iam"@, "create-role"@, 1);
    lemma_sole(empowering, "iam"@, "put-role-policy"@, 2);
    lemma_sole(deploying, "lambda"@, "create-function"@, 1);
    reveal_strlit("subscribe");
    reveal_strlit("add-permission");
    reveal_strlit("put-metric-alarm");
    assert("subscribe"@.len() == 9 && "add-permission"@.len() == 14 && "put-metric-alarm"@.len()
        == 16);
    assert(wiring.items[2]->Run_0.words[1] == "subscribe"@);
    assert(wiring.items[3]->Run_0.words[1] == "add-permission"@);
    assert(wiring.items[6]->Run_0.words[1] == "put-metric-alarm"@);
    lemma_sole(wiring, "sns"@, "subscribe"@, 2);
    lemma_sole(wiring, "lambda"@, "add-permission"@, 3);
    lemma_sole(wiring, "cloudwatch"@, "put-metric-alarm"@, 6);
}

} // verus!
