use dove::apigw::{api_host, api_id_by_name, provision_api, ApiFacts, ApiStage};
use dove::aws::{arguments, join, Call, Complaint, Reply, Verdict};
use dove::breaker::{kill_policy, provision_breaker, BreakerFacts, BreakerStage, KILL_SWITCH_PY};
use dove::cloudfront::{
    add_alias, config_file, distribution_config, front_gate, host_of, oac_id_by_name, read_config,
    write_config, FrontFacts, FrontStage, ALL_VIEWER_EXCEPT_HOST, CACHE_DISABLED,
};
use dove::config::Config;
use dove::full::{FullAct, FullEvent, FullFacts, FullStage};
use dove::gate::{
    archive_drawn, breaker_archive_name, deployment_zip, gate_archive_name, temp_name, HANDLER, RUNTIME,
};
use dove::provision::{
    choose_number, confirm, gate_role_policy, lifecycle_config, list_profiles, menu,
    parse_access_key, question, run, share_policy, title, Act, Event, Facts, ProvisionArgs, Stage,
    Tier, PUBLIC_ACCESS_BLOCK,
};
use dove::script::{Script, Todo, Walk};
use dove::secrets::Secrets;
use dove::ui::Terminal;

fn ran(success: bool, stdout: &str, stderr: &str) -> Reply {
    Reply::Ran {
        success,
        stdout: stdout.as_bytes().to_vec(),
        stderr: stderr.to_string(),
    }
}

fn plain() -> Terminal {
    Terminal { tty: false, no_color: false }
}

/// Walks a script with every call answered by success, and gives the command
/// lines that were run and the labels that were ended.
fn walked(script: Script) -> (Vec<String>, Vec<String>) {
    let mut walk = Walk::over(script, None);
    let (mut lines, mut labels) = (Vec::new(), Vec::new());
    loop {
        match walk.next() {
            Todo::Begin(_) => {}
            Todo::Invoke(words) => {
                lines.push(join(&words));
                assert!(matches!(walk.hear(&ran(true, "", "")), Verdict::Passed));
            }
            Todo::End(label) => labels.push(label),
            Todo::Rest => return (lines, labels),
        }
    }
}

#[test]
fn api_host_builds_the_invoke_domain() {
    assert_eq!(
        api_host("abcde12345", "us-east-1"),
        "abcde12345.execute-api.us-east-1.amazonaws.com"
    );
}

#[test]
fn api_id_by_name_finds_it() {
    let json =
        br#"{"Items":[{"ApiId":"a1","Name":"other"},{"ApiId":"b2","Name":"dove-gate-123"}]}"#;
    assert_eq!(api_id_by_name(json, "dove-gate-123").as_deref(), Some("b2"));
    assert_eq!(api_id_by_name(json, "missing"), None);
}

#[test]
fn kill_policy_scopes_to_the_gate() {
    let p = kill_policy("arn:aws:lambda:us-east-1:123:function:dove-gate-123", "123");
    assert!(p.contains("lambda:PutFunctionConcurrency"));
    assert!(p.contains("function:dove-gate-123")); // only this function
    assert!(p.contains("logs:PutLogEvents"));
    assert!(!p.contains("\"Resource\":\"*\""));
}

#[test]
fn kill_switch_is_valid_python() {
    assert!(KILL_SWITCH_PY.contains("put_function_concurrency"));
    assert!(KILL_SWITCH_PY.contains("ReservedConcurrentExecutions"));
}

#[test]
fn host_of_extracts_host() {
    assert_eq!(
        host_of("https://abc.lambda-url.us-east-1.on.aws/").as_deref(),
        Some("abc.lambda-url.us-east-1.on.aws")
    );
    assert_eq!(host_of("not a url"), None);
}

#[test]
fn host_of_takes_the_piece_between_schemes() {
    assert_eq!(host_of("https://"), None);
    assert_eq!(host_of("https:///path"), None);
    assert_eq!(host_of("a://b://c").as_deref(), Some("b"));
    assert_eq!(host_of("a://b/c://d").as_deref(), Some("b"));
    assert_eq!(host_of("x://host").as_deref(), Some("host"));
}

#[test]
fn distribution_config_signs_a_private_origin() {
    let c = distribution_config("dove-fn", "abc.on.aws", "OAC123");
    assert!(c.contains("\"DomainName\":\"abc.on.aws\""));
    assert!(c.contains("\"OriginAccessControlId\":\"OAC123\"")); // OAC signs
    assert!(c.contains(CACHE_DISABLED));
    assert!(c.contains(ALL_VIEWER_EXCEPT_HOST)); // Host not forwarded
    assert!(c.contains("CloudFrontDefaultCertificate")); // custom domain added later
}

#[test]
fn distribution_config_is_compact_json() {
    let c = distribution_config("dove-fn", "abc.on.aws", "OAC\"1");
    let v: serde_json::Value = serde_json::from_str(&c).unwrap();
    assert_eq!(v["Origins"]["Items"][0]["OriginAccessControlId"], "OAC\"1");
    assert_eq!(v["Origins"]["Items"][0]["CustomOriginConfig"]["HTTPSPort"], 443);
    assert_eq!(v["DefaultCacheBehavior"]["AllowedMethods"]["Items"][1], "HEAD");
    assert_eq!(v["ViewerCertificate"]["CloudFrontDefaultCertificate"], true);
    assert_eq!(v["Enabled"], true);
    assert!(c.starts_with("{\"CallerReference\":\"dove-fn\",\"Comment\":\"dove gate\""));
}

#[test]
fn oac_id_by_name_finds_it() {
    let json = br#"{"OriginAccessControlList":{"Items":[
            {"Id":"A1","Name":"other-oac"},{"Id":"B2","Name":"dove-gate-oac"}]}}"#;
    assert_eq!(oac_id_by_name(json, "dove-gate-oac").as_deref(), Some("B2"));
    assert_eq!(oac_id_by_name(json, "missing"), None);
}

#[test]
fn deployment_zip_contains_the_handler_file() {
    let archive = deployment_zip("def handler(event, _context):\n    pass\n").unwrap();
    let mut archive = zip::ZipArchive::new(std::io::Cursor::new(archive)).unwrap();
    assert!(archive.by_name("lambda_function.py").is_ok());
    let mut text = String::new();
    let mut file = archive.by_name("lambda_function.py").unwrap();
    std::io::Read::read_to_string(&mut file, &mut text).unwrap();
    assert_eq!(text, "def handler(event, _context):\n    pass\n");
}

#[test]
fn lifecycle_expires_after_the_given_days() {
    let lc = lifecycle_config(7);
    assert!(lc.contains("\"Days\":7"));
    assert!(lc.contains("\"Status\":\"Enabled\""));
    assert!(lc.contains("\"Expiration\""));
}

#[test]
fn share_policy_is_scoped_to_the_one_bucket() {
    let p = share_policy("dove-shares-123");
    assert!(p.contains("s3:PutObject"));
    assert!(p.contains("s3:GetObject"));
    assert!(p.contains("s3:DeleteObject"));
    assert!(p.contains("s3:ListBucket"));
    assert!(p.contains("arn:aws:s3:::dove-shares-123/*"));
    assert!(p.contains("arn:aws:s3:::dove-shares-123\""));
    // No account-wide grant.
    assert!(!p.contains("\"Resource\":\"*\""));
}

#[test]
fn gate_role_policy_scopes_to_the_one_table_and_bucket() {
    let p = gate_role_policy("123", "us-east-1", "dove-shares-123", "dove-shares-123");
    assert!(p.contains("dynamodb:GetItem")); // /meta + /dl read the item
    assert!(p.contains("dynamodb:UpdateItem"));
    assert!(p.contains("arn:aws:dynamodb:us-east-1:123:table/dove-shares-123"));
    assert!(p.contains("s3:GetObject"));
    assert!(p.contains("arn:aws:s3:::dove-shares-123/*"));
    assert!(p.contains("logs:PutLogEvents"));
    assert!(p.contains("ssm:GetParameter")); // reads its secret from SSM
    assert!(p.contains("parameter/dove/dove-shares-123/gate-secret"));
    assert!(p.contains("kms:Decrypt"));
    // The default key only, and nothing on everything.
    assert!(p.contains("arn:aws:kms:us-east-1:123:key/*"));
    assert!(p.contains("\"kms:ViaService\":\"ssm.us-east-1.amazonaws.com\""));
    assert!(p.contains("\"kms:ResourceAliases\":\"alias/aws/ssm\""));
    assert!(!p.contains("\"Resource\":\"*\""));
}

#[test]
fn policies_are_json() {
    for text in [
        gate_role_policy("1", "r", "t", "b"),
        share_policy("b"),
        lifecycle_config(3),
        kill_policy("arn", "1"),
    ] {
        let value: serde_json::Value = serde_json::from_str(&text).unwrap();
        assert!(value.is_object());
    }
}

#[test]
fn parse_access_key_extracts_id_and_secret() {
    let json = br#"{"AccessKey":{"AccessKeyId":"AKIA1","SecretAccessKey":"shh","Status":"Active"}}"#;
    let (id, secret) = parse_access_key(json).unwrap();
    assert_eq!(id, "AKIA1");
    assert_eq!(secret, "shh");
}

#[test]
fn parse_access_key_says_what_is_missing() {
    assert_eq!(
        parse_access_key(b"{}").unwrap_err(),
        "create-access-key output missing AccessKey"
    );
    assert_eq!(
        parse_access_key(br#"{"AccessKey":{}}"#).unwrap_err(),
        "create-access-key output missing AccessKeyId"
    );
    assert_eq!(
        parse_access_key(br#"{"AccessKey":{"AccessKeyId":"a","SecretAccessKey":5}}"#).unwrap_err(),
        "create-access-key output missing SecretAccessKey"
    );
    assert!(parse_access_key(b"{").unwrap_err().starts_with("parsing create-access-key output: "));
}

#[test]
fn public_access_block_turns_everything_on() {
    for k in [
        "BlockPublicAcls=true",
        "IgnorePublicAcls=true",
        "BlockPublicPolicy=true",
        "RestrictPublicBuckets=true",
    ] {
        assert!(PUBLIC_ACCESS_BLOCK.contains(k), "missing {k}");
    }
}

#[test]
fn replies_are_judged() {
    let call = Call::aws("iam", "create-user").option("--user-name", "u").tolerating("EntityAlreadyExists");
    assert!(matches!(call.judge(0, &ran(true, "", "noise")), Verdict::Passed));
    assert!(matches!(call.judge(0, &ran(false, "", "x EntityAlreadyExists y")), Verdict::Passed));
    match call.judge(0, &ran(false, "", "  no luck \n")) {
        Verdict::Failed(m) => assert_eq!(m, "aws iam create-user --user-name u failed: no luck"),
        _ => panic!("not failed"),
    }
    match call.judge(0, &Reply::NotRun("no such file".to_string())) {
        Verdict::Failed(m) => assert_eq!(m, "running aws iam create-user --user-name u: no such file"),
        _ => panic!("not failed"),
    }
    let lax = Call::aws("lambda", "wait").complaining(Complaint::Nothing);
    assert!(matches!(lax.judge(0, &Reply::NotRun(String::new())), Verdict::Passed));
    assert!(matches!(lax.judge(0, &ran(false, "", "no")), Verdict::Passed));
    let terse = Call::aws("sns", "create-topic").saying("create-topic");
    match terse.judge(0, &ran(false, "", "denied\n")) {
        Verdict::Failed(m) => assert_eq!(m, "create-topic: denied"),
        _ => panic!("not failed"),
    }
}

#[test]
fn a_retried_call_is_tried_no_more_often_than_it_may() {
    let call = Call::aws("lambda", "create-function").retrying("cannot be assumed", 3);
    let mut walk = Walk::over(Script::nothing().step("s", call), None);
    assert!(matches!(walk.next(), Todo::Begin(_)));
    for _ in 0..2 {
        assert!(matches!(walk.next(), Todo::Invoke(_)));
        assert!(matches!(walk.hear(&ran(false, "", "role cannot be assumed")), Verdict::Again));
    }
    assert!(matches!(walk.next(), Todo::Invoke(_)));
    assert!(matches!(walk.hear(&ran(false, "", "role cannot be assumed")), Verdict::Failed(_)));
    assert_eq!(walk.open().as_deref(), Some("s"));
}

#[test]
fn the_profile_comes_before_the_words() {
    let words = vec!["sts".to_string(), "get-caller-identity".to_string()];
    assert_eq!(
        arguments(&Some("work".to_string()), &words),
        vec!["--profile", "work", "sts", "get-caller-identity"]
    );
    assert_eq!(arguments(&None, &words), vec!["sts", "get-caller-identity"]);
}

#[test]
fn an_api_is_created_and_wired() {
    let mut f = ApiFacts::of("eu-west-1", "123", "dove-gate-123", "arn:fn");
    let next = provision_api(&mut f, ApiStage::Finding, &ran(true, r#"{"Items":[]}"#, "")).unwrap();
    assert!(next == ApiStage::Creating);
    let next = provision_api(&mut f, next, &ran(true, r#"{"ApiId":"id7"}"#, "")).unwrap();
    assert!(next == ApiStage::Integrating);
    let next = provision_api(&mut f, next, &ran(true, r#"{"IntegrationId":"int9"}"#, "")).unwrap();
    assert!(next == ApiStage::Wiring);
    let (lines, labels) = walked(f.script(next));
    assert_eq!(lines.len(), 3);
    assert_eq!(
        lines[0],
        "apigatewayv2 create-route --api-id id7 --route-key $default --target integrations/int9"
    );
    assert_eq!(
        lines[1],
        "apigatewayv2 create-stage --api-id id7 --stage-name $default --auto-deploy"
    );
    assert!(lines[2].ends_with("--source-arn arn:aws:execute-api:eu-west-1:123:id7/*/*"));
    assert_eq!(labels, vec!["api gateway"]);
    assert!(provision_api(&mut f, next, &ran(true, "", "")).unwrap() == ApiStage::Ready);
    assert_eq!(f.api().host, "id7.execute-api.eu-west-1.amazonaws.com");
}

#[test]
fn a_listed_api_is_reused() {
    let mut f = ApiFacts::of("r", "1", "dove-gate-1", "arn");
    let list = r#"{"Items":[{"ApiId":"old","Name":"dove-gate-1"}]}"#;
    let next = provision_api(&mut f, ApiStage::Finding, &ran(true, list, "")).unwrap();
    assert!(next == ApiStage::Reusing);
    assert_eq!(f.id, "old");
    // a listing that failed counts as an empty one
    let mut g = ApiFacts::of("r", "1", "dove-gate-1", "arn");
    assert!(provision_api(&mut g, ApiStage::Finding, &ran(false, list, "")).unwrap() == ApiStage::Creating);
    assert_eq!(
        provision_api(&mut g, ApiStage::Creating, &ran(true, "{}", "")).err().unwrap(),
        "no ApiId in API Gateway response"
    );
}

#[test]
fn the_breaker_watches_the_gate() {
    let mut f = BreakerFacts::of("us-east-1", "123", "dove-gate-123", "/tmp/z.zip");
    let (lines, _) = walked(f.script(BreakerStage::Deploying));
    assert!(lines[0].contains("--zip-file fileb:///tmp/z.zip"));
    assert!(lines[0].contains("Variables={GATE_FUNCTION=dove-gate-123}"));
    let next = provision_breaker(&mut f, BreakerStage::Announcing, &ran(true, r#"{"TopicArn":"arn:t"}"#, "")).unwrap();
    assert!(next == BreakerStage::Wiring);
    let (lines, labels) = walked(f.script(next));
    assert!(lines[0].contains("--notification-endpoint arn:aws:lambda:us-east-1:123:function:dove-breaker-123"));
    assert!(lines[2].contains("--dimensions Name=FunctionName,Value=dove-gate-123"));
    assert!(lines[2].contains("--threshold 5000"));
    assert!(lines[2].ends_with("--alarm-actions arn:t"));
    assert_eq!(labels, vec!["breaker topic", "breaker wiring", "breaker alarm"]);
    assert_eq!(
        provision_breaker(&mut f, BreakerStage::Announcing, &ran(true, "{}", "")).err().unwrap(),
        "no TopicArn"
    );
    assert!(provision_breaker(&mut f, BreakerStage::Wiring, &Reply::NotRun("gone".to_string())).is_err());
    assert!(provision_breaker(&mut f, BreakerStage::Wiring, &ran(true, "", "")).unwrap() == BreakerStage::Ready);
}

#[test]
fn no_stage_goes_on_behind_a_failed_call() {
    let denied = ran(false, "", " denied \n");
    let mut f = FullFacts::of("us-east-1", "1", "b", "/tmp/a", "/tmp/b");
    for stage in [FullStage::Table, FullStage::SecretParam] {
        let r = dove::full::provision_full(&mut f, stage, FullEvent::Replied(ran(false, "", " denied \n")));
        assert!(r.err().unwrap().ends_with(" failed: denied"));
    }
    let mut f = ApiFacts::of("us-east-1", "1", "fn", "arn:fn");
    assert_eq!(
        provision_api(&mut f, ApiStage::Creating, &denied).err().unwrap(),
        "apigatewayv2: denied"
    );
    let mut f = FrontFacts::of("1", "fn", "origin", &None);
    assert!(front_gate(&mut f, FrontStage::Granting, &denied).err().unwrap().ends_with(": denied"));
    let mut f = Facts::of(args(Tier::Simple), "/tmp/a", "/tmp/b");
    assert_eq!(
        run(&mut f, Stage::Mint, Event::Replied(ran(false, "", "denied"))).err().unwrap(),
        "creating access key: denied"
    );
    assert!(run(&mut f, Stage::Identity, Event::Replied(Reply::NotRun("gone".to_string()))).is_err());
}

#[test]
fn an_existing_distribution_is_kept() {
    let mut f = FrontFacts::of("1", "fn", "origin", &Some("E1".to_string()));
    assert!(f.first() == FrontStage::Reusing);
    let next = front_gate(&mut f, FrontStage::Reusing, &ran(true, r#"{"Distribution":{"DomainName":"d.cloudfront.net"}}"#, "")).unwrap();
    assert!(next == FrontStage::Granting);
    let front = f.front();
    assert_eq!(front.distribution_id, "E1");
    assert_eq!(front.domain, "d.cloudfront.net");
    let (lines, labels) = walked(f.script(next));
    assert!(lines[0].contains("--source-arn arn:aws:cloudfront::1:distribution/E1"));
    assert_eq!(labels, vec!["cloudfront (reuse)", "gate invoke permission"]);
}

#[test]
fn a_front_is_made_from_nothing() {
    let mut f = FrontFacts::of("1", "fn", "origin.host", &None);
    assert!(f.first() == FrontStage::Listing);
    let next = front_gate(&mut f, FrontStage::Listing, &ran(true, "{}", "")).unwrap();
    assert!(next == FrontStage::Controlling);
    let (lines, _) = walked(f.script(next));
    assert!(lines[0].contains("Name=fn-oac,Description=dove gate,SigningProtocol=sigv4,SigningBehavior=always"));
    let next = front_gate(&mut f, next, &ran(true, r#"{"OriginAccessControl":{"Id":"O1"}}"#, "")).unwrap();
    assert!(next == FrontStage::Distributing);
    let (lines, _) = walked(f.script(next));
    assert!(lines[0].contains(&distribution_config("dove-fn", "origin.host", "O1")));
    assert_eq!(
        front_gate(&mut f, next, &ran(true, r#"{"Distribution":{"Id":"E2"}}"#, "")).err().unwrap(),
        "no distribution DomainName"
    );
    let next = front_gate(&mut f, next, &ran(true, r#"{"Distribution":{"Id":"E2","DomainName":"x"}}"#, "")).unwrap();
    assert!(next == FrontStage::Granting);
    assert_eq!(f.front().distribution_id, "E2");
}

#[test]
fn an_alias_preserves_the_rest() {
    let doc = br#"{"ETag":"v1","DistributionConfig":{"DomainName":"d.net","Comment":"keep","Aliases":{"Quantity":0}}}"#;
    let alias = add_alias(doc, "share.example", "arn:cert").unwrap();
    assert_eq!(alias.etag, "v1");
    assert_eq!(alias.domain_name, "d.net");
    let v: serde_json::Value = serde_json::from_str(&alias.config).unwrap();
    assert_eq!(v["Comment"], "keep");
    assert_eq!(v["Aliases"]["Quantity"], 1);
    assert_eq!(v["Aliases"]["Items"][0], "share.example");
    assert_eq!(v["ViewerCertificate"]["ACMCertificateArn"], "arn:cert");
    assert_eq!(v["ViewerCertificate"]["CloudFrontDefaultCertificate"], false);
    assert_eq!(
        add_alias(br#"{"DistributionConfig":{}}"#, "d", "c").err().unwrap(),
        "no ETag in distribution config"
    );
    assert_eq!(
        add_alias(br#"{"ETag":"v","DistributionConfig":7}"#, "d", "c").err().unwrap(),
        "the distribution config is not an object"
    );
    assert!(add_alias(br#"{"ETag":"v"}"#, "d", "c").is_ok());
}

#[test]
fn a_configuration_is_read_and_written_back() {
    let read = read_config("E2");
    assert_eq!(
        join(&read.words()),
        "cloudfront get-distribution-config --id E2 --output json"
    );
    let refused = ran(false, "", " no such thing \n");
    match read.judge(0, &refused) {
        Verdict::Failed(why) => assert_eq!(why, "get-distribution-config: no such thing"),
        _ => panic!("passed"),
    }
    assert_eq!(config_file("E2"), "dove-dist-E2.json");
    let write = write_config("E2", "/tmp/dove-dist-E2.json", "v1");
    assert_eq!(
        join(&write.words()),
        "cloudfront update-distribution --id E2 --distribution-config \
         file:///tmp/dove-dist-E2.json --if-match v1 --output json"
    );
    match write.judge(0, &refused) {
        Verdict::Failed(why) => assert_eq!(why, "update-distribution: no such thing"),
        _ => panic!("passed"),
    }
}

fn args(tier: Tier) -> ProvisionArgs {
    ProvisionArgs {
        tier,
        bucket: None,
        region: "eu-west-1".to_string(),
        profile: None,
        expire_days: 7,
    }
}

#[test]
fn a_simple_tier_is_provisioned_step_by_step() {
    let mut f = Facts::of(args(Tier::Simple), "/tmp/a.zip", "/tmp/b.zip");
    let s = run(&mut f, Stage::Aws, Event::Aws(true)).unwrap();
    assert!(s == Stage::Profiles);
    let s = run(&mut f, s, Event::Profiles(vec!["one".to_string(), "two".to_string()])).unwrap();
    assert!(s == Stage::Profile);
    let s = run(&mut f, s, Event::Line(" 2\n".to_string())).unwrap();
    assert!(s == Stage::Identity);
    assert_eq!(f.profile.as_deref(), Some("two"));
    let id = r#"{"Account":"123","Arn":"arn:me"}"#;
    let s = run(&mut f, s, Event::Replied(ran(true, id, ""))).unwrap();
    assert!(s == Stage::Confirm);
    assert_eq!(f.bucket, "dove-shares-123");
    assert_eq!(
        run(&mut f, s, Event::Line("n".to_string())).err().unwrap(),
        "aborted"
    );
    let s = run(&mut f, s, Event::Line("yes\n".to_string())).unwrap();
    assert!(s == Stage::Bucket);
    match f.act(s) {
        Act::Walk(script) => {
            let (lines, labels) = walked(script);
            assert_eq!(
                lines[0],
                "s3api create-bucket --bucket dove-shares-123 --region eu-west-1 \
                 --create-bucket-configuration LocationConstraint=eu-west-1"
            );
            assert_eq!(labels[2], "lifecycle · 7 days");
            assert_eq!(lines.len(), 5);
        }
        _ => panic!("no script"),
    }
    let s = run(&mut f, s, Event::Replied(ran(true, "", ""))).unwrap();
    assert!(s == Stage::Keys);
    let s = run(&mut f, s, Event::Keys(false)).unwrap();
    assert!(s == Stage::Mint);
    let key = r#"{"AccessKey":{"AccessKeyId":"A","SecretAccessKey":"S"}}"#;
    let s = run(&mut f, s, Event::Replied(ran(true, key, ""))).unwrap();
    assert!(s == Stage::StoreKeys);
    match f.act(s) {
        Act::SaveSecrets(secrets) => assert_eq!(
            secrets,
            Secrets {
                access_key_id: "A".to_string(),
                secret_access_key: "S".to_string(),
                gate_secret: None
            }
        ),
        _ => panic!("nothing saved"),
    }
    let s = run(&mut f, s, Event::Saved(Ok(()))).unwrap();
    assert!(s == Stage::Minted);
    let s = run(&mut f, s, Event::Replied(ran(true, "", ""))).unwrap();
    assert!(s == Stage::Prior);
    let s = run(&mut f, s, Event::Config(None)).unwrap();
    assert!(s == Stage::Save);
    match f.act(s) {
        Act::SaveConfig(config) => {
            assert_eq!(config.bucket, "dove-shares-123");
            assert!(!config.is_full());
        }
        _ => panic!("nothing saved"),
    }
    let s = run(&mut f, s, Event::Saved(Ok(()))).unwrap();
    assert!(s == Stage::Done);
    let (subject, note) = f.farewell();
    assert_eq!(subject, "provisioned");
    assert_eq!(note, "dove share <file> is ready — objects auto-delete after 7 days");
}

#[test]
fn us_east_1_gets_no_location() {
    let mut a = args(Tier::Simple);
    a.region = "us-east-1".to_string();
    a.bucket = Some("mine".to_string());
    a.profile = Some("p".to_string());
    let mut f = Facts::of(a, "x", "y");
    let s = run(&mut f, Stage::Aws, Event::Aws(true)).unwrap();
    assert!(s == Stage::Identity);
    run(&mut f, s, Event::Replied(ran(true, "{}", ""))).unwrap();
    assert_eq!(f.account, "?");
    assert_eq!(f.bucket, "mine");
    match f.act(Stage::Bucket) {
        Act::Walk(script) => assert_eq!(walked(script).0[0], "s3api create-bucket --bucket mine"),
        _ => panic!("no script"),
    }
}

#[test]
fn provisioning_errors_are_worded() {
    let mut f = Facts::of(args(Tier::Full), "x", "y");
    assert!(run(&mut f, Stage::Aws, Event::Aws(false)).err().unwrap().starts_with("the AWS CLI (`aws`) is required"));
    f.profiles = vec!["one".to_string()];
    assert_eq!(
        run(&mut f, Stage::Profile, Event::Line("2\n".to_string())).err().unwrap(),
        "not a valid choice: \"2\""
    );
    assert!(run(&mut f, Stage::Identity, Event::Replied(ran(true, "[", ""))).err().unwrap()
        .starts_with("resolving the AWS identity for the default profile — is it logged in (e.g. `aws sso login`)?: "));
    assert_eq!(
        run(&mut f, Stage::Save, Event::Saved(Err("disk full".to_string()))).err().unwrap(),
        "disk full"
    );
}

#[test]
fn a_custom_domain_survives_a_second_run() {
    let mut f = Facts::of(args(Tier::Full), "x", "y");
    f.full.front.domain = "d1.cloudfront.net".to_string();
    f.full.front.distribution_id = "E1".to_string();
    f.prior_gate_url = Some("https://share.example".to_string());
    assert_eq!(f.config().gate_url.as_deref(), Some("https://share.example"));
    f.prior_gate_url = Some("https://old.cloudfront.net".to_string());
    assert_eq!(f.config().gate_url.as_deref(), Some("https://d1.cloudfront.net"));
    f.prior_gate_url = None;
    assert_eq!(f.config().gate_url.as_deref(), Some("https://d1.cloudfront.net"));
    assert_eq!(f.farewell().0, "provisioned (full tier)");
}

#[test]
fn existing_keys_are_reused() {
    let mut f = Facts::of(args(Tier::Simple), "x", "y");
    let s = run(&mut f, Stage::Keys, Event::Keys(true)).unwrap();
    assert!(s == Stage::Reuse);
    match f.act(s) {
        Act::Walk(script) => {
            let (lines, labels) = walked(script);
            assert!(lines.is_empty());
            assert_eq!(labels, vec!["access key (reusing)"]);
        }
        _ => panic!("no script"),
    }
}

fn full_event(f: &mut FullFacts, stage: FullStage, event: FullEvent) -> FullStage {
    dove::full::provision_full(f, stage, event).unwrap()
}

#[test]
fn a_gate_secret_is_kept_before_it_is_used() {
    let secrets = || Secrets {
        access_key_id: "A".to_string(),
        secret_access_key: "S".to_string(),
        gate_secret: None,
    };
    let mut f = FullFacts::of("r", "1", "b", "/a", "/k");
    let s = full_event(&mut f, FullStage::GateSecret, FullEvent::Secrets { found: Ok(secrets()), fresh: "ff".to_string() });
    assert!(s == FullStage::StoreSecret);
    match f.act(s) {
        FullAct::SaveSecrets(kept) => {
            assert_eq!(kept.access_key_id, "A");
            assert_eq!(kept.gate_secret.as_deref(), Some("ff"));
        }
        _ => panic!("nothing kept"),
    }
    let s = full_event(&mut f, s, FullEvent::Saved(Ok(())));
    assert!(s == FullStage::SecretParam);
    match f.act(s) {
        FullAct::Walk(script) => assert_eq!(
            walked(script).0[0],
            "ssm put-parameter --name /dove/b/gate-secret --value ff --type SecureString --overwrite"
        ),
        _ => panic!("no script"),
    }
    let mut g = FullFacts::of("r", "1", "b", "/a", "/k");
    let mut old = secrets();
    old.gate_secret = Some("old".to_string());
    let s = full_event(&mut g, FullStage::GateSecret, FullEvent::Secrets { found: Ok(old), fresh: "ff".to_string() });
    assert!(s == FullStage::SecretParam);
    assert_eq!(g.gate_secret, "old");
}

#[test]
fn the_full_tier_goes_from_table_to_breaker() {
    let mut f = FullFacts::of("us-east-1", "1", "b", "/a.zip", "/k.zip");
    match f.act(FullStage::Table) {
        FullAct::Walk(script) => {
            let (lines, labels) = walked(script);
            assert_eq!(labels, vec!["bucket CORS", "dynamodb table", "gate IAM role"]);
            assert_eq!(lines[2], "dynamodb wait table-exists --table-name b");
        }
        _ => panic!("no script"),
    }
    match f.act(FullStage::Deploy) {
        FullAct::Deploy { path, script, .. } => {
            assert_eq!(path, "/a.zip");
            let (lines, _) = walked(script);
            assert_eq!(lines.len(), 6);
            assert!(lines[0].contains("--role arn:aws:iam::1:role/dove-gate-1"));
            assert!(lines[0].contains("Variables={BUCKET=b,TABLE=b,GATE_SECRET_PARAM=/dove/b/gate-secret}"));
            assert_eq!(lines[1], "lambda wait function-active-v2 --function-name dove-gate-1");
        }
        _ => panic!("no deployment"),
    }
    let s = full_event(&mut f, FullStage::Api(ApiStage::Wiring), FullEvent::Replied(ran(true, "", "")));
    assert!(s == FullStage::Distribution);
    let prior = Config::parse("bucket=\"b\"\nregion=\"r\"\ndistribution_id=\"E9\"\n").unwrap();
    let s = full_event(&mut f, s, FullEvent::Config(Some(prior)));
    assert!(s == FullStage::Front(FrontStage::Reusing));
    let s = full_event(&mut f, FullStage::Front(FrontStage::Granting), FullEvent::Replied(ran(true, "", "")));
    assert!(s == FullStage::Breaker(BreakerStage::Empowering));
    let s = full_event(&mut f, FullStage::Breaker(BreakerStage::Wiring), FullEvent::Replied(ran(true, "", "")));
    assert!(s == FullStage::Ready);
}

#[test]
fn profiles_are_listed_and_chosen() {
    assert_eq!(list_profiles("default\n  work \r\n\n last"), vec!["default", "work", "last"]);
    assert!(list_profiles("").is_empty());
    assert_eq!(choose_number(" 3\n", 3), Some(3));
    assert_eq!(choose_number("+1", 3), Some(1));
    assert_eq!(choose_number("0", 3), Some(0));
    assert_eq!(choose_number("4", 3), None);
    assert_eq!(choose_number("", 3), None);
    assert_eq!(choose_number("+", 3), None);
    assert_eq!(choose_number("-1", 3), None);
    assert_eq!(choose_number("99999999999999999999", 3), None);
    assert!(confirm("y") && confirm("Y\n") && confirm("yes"));
    assert!(!confirm("YES") && !confirm("") && !confirm("no"));
    assert_eq!(
        menu(plain(), &vec!["a".to_string(), "b".to_string()]),
        "  which AWS profile?\n    1  a\n    2  b\n    0  default credential chain\n  → "
    );
    assert_eq!(question(plain(), "proceed?"), "  proceed? [y/N] → ");
    assert_eq!(title(Tier::Full), "dove provision · full tier");
}

#[test]
fn archives_have_fresh_names() {
    assert_eq!(temp_name("dove-", &[0xab, 0x01], "zip"), "dove-ab01.zip");
    assert_eq!(archive_drawn("dove-", Ok([0xcd; 2])).as_deref(), Some("dove-cdcd.zip"));
    assert_eq!(archive_drawn::<8>("dove-", Err(getrandom::Error::UNSUPPORTED)), None);
    let a = gate_archive_name().unwrap();
    assert_eq!(a.len(), "dove-".len() + 16 + 4);
    assert_ne!(a, gate_archive_name().unwrap());
    let b = breaker_archive_name().unwrap();
    assert!(b.starts_with("dove-breaker-") && b.ends_with(".zip"));
    assert_eq!(b.len(), "dove-breaker-".len() + 12 + 4);
    assert_eq!(HANDLER, "lambda_function.handler");
    assert_eq!(RUNTIME, "python3.12");
}
