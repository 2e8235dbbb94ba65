use dove::aws::Reply;
use dove::cli_progress::CliProgress;
use dove::config::Config;
use dove::duration::{
    human, human_long, parse, within_presign_limit, Duration, DurationError,
};
use dove::gatectl;
use dove::ledger::{names, record, remove, Names, ShareRecord};
use dove::place::place_of;
use dove::requests::{create, get, request_note, request_row, RequestArgs, RequestRecord, RequestStatus};
use dove::s3::{
    describe, make_keys, resolve_credentials, s3_err, settle, HttpFailure, Listing, Outcome, Page,
    Store,
};
use dove::secrets::Secrets;
use dove::share::{
    draw, draws_drawn, gen_pin, id_drawn, key_under, pin_drawn, pin_of, prepare_upload, random_id,
    resolve_pin, run, share_key, share_key_drawn, start, Draws, FullShareStage, PathKind, ShareAct, ShareArgs, ShareEvent, ShareStage,
};
use dove::shares::{entry_name, pack, reach, revoke, revoked, share_row, status, Found, Packing};
use dove::toml_text::is_writable;
use dove::ui::{
    done, field, filled_dots, heading, human_size, pin_notice, share_result, step, step_begin,
    step_end, Progress, Terminal,
};

fn plain() -> Terminal {
    Terminal { tty: false, no_color: false }
}

fn color() -> Terminal {
    Terminal { tty: true, no_color: false }
}

fn bare() -> Terminal {
    Terminal { tty: true, no_color: true }
}

#[test]
fn config_round_trips_through_toml() {
    let cfg = Config {
        bucket: "dove-shares-example".into(),
        region: "us-east-1".into(),
        profile: Some("work".into()),
        endpoint: None,
        table: Some("dove-shares-example".into()),
        gate_url: Some("https://x.lambda-url.us-east-1.on.aws".into()),
        distribution_id: None,
    };
    let text = cfg.save().unwrap();
    assert_eq!(Config::parse(&text).unwrap(), cfg);
    assert!(cfg.is_full());
}

#[test]
fn a_configuration_is_saved_field_by_field() {
    let mut cfg = Config {
        bucket: "b".into(),
        region: "eu-west-1".into(),
        profile: None,
        endpoint: Some("https://e".into()),
        table: None,
        gate_url: Some("https://g".into()),
        distribution_id: Some("E1".into()),
    };
    assert_eq!(
        cfg.save().unwrap(),
        "bucket = \"b\"\nregion = \"eu-west-1\"\nendpoint = \"https://e\"\n\
         gate_url = \"https://g\"\ndistribution_id = \"E1\"\n"
    );
    for odd in [
        "",
        "it's",
        "a \"quoted\" word",
        "back\\slash",
        "two\nlines",
        "\nfirst",
        "it's \"both\"",
        "'''\"\"\"",
        "\"\"\"\"\"\"\n",
        "tab\tbell\u{7}del\u{7f}",
        "cr\r\nlf\\\n",
        "ünïcödé 🕊",
    ] {
        cfg.profile = Some(odd.to_string());
        assert!(cfg.is_writable());
        assert_eq!(Config::parse(&cfg.save().unwrap()).unwrap(), cfg, "{odd:?}");
    }
}

#[test]
fn long_runs_of_quotation_marks_cannot_be_saved() {
    assert!(is_writable(&"\"".repeat(255)));
    assert!(!is_writable(&"\"".repeat(256)));
    assert!(is_writable(&("'".repeat(255) + "x" + &"'".repeat(255))));
    assert!(!is_writable(&("x".to_string() + &"'".repeat(300))));
    let mut s = Secrets {
        access_key_id: "'".repeat(255),
        secret_access_key: "\"".repeat(255),
        gate_secret: None,
    };
    assert!(s.is_writable());
    assert_eq!(Secrets::parse(&s.save().unwrap()).unwrap(), s);
    s.gate_secret = Some("'".repeat(256));
    assert!(!s.is_writable());
}

#[test]
fn optional_fields_default_to_none() {
    let cfg = Config::parse("bucket = \"b\"\nregion = \"us-east-1\"\n").unwrap();
    assert_eq!(cfg.profile, None);
    assert_eq!(cfg.endpoint, None);
}

#[test]
fn missing_required_field_is_an_error() {
    assert!(Config::parse("region = \"us-east-1\"\n").is_err()); // no bucket
}

#[test]
fn config_errors_are_told_apart() {
    assert_eq!(
        Config::parse("bucket = \"b\"\n").unwrap_err(),
        "parsing dove config: missing field `region`"
    );
    assert_eq!(
        Config::parse("bucket = 5\nregion = \"r\"\n").unwrap_err(),
        "parsing dove config: field `bucket` is not a string"
    );
    assert!(Config::parse("bucket = ").unwrap_err().starts_with("parsing dove config: TOML parse error"));
    assert_eq!(
        Config::load("/x/config.toml", &None).unwrap_err(),
        "no dove config at /x/config.toml — run `dove provision` first"
    );
    let extra = Config::parse("bucket=\"b\"\nregion=\"r\"\nother=[1]\n").unwrap();
    assert!(!extra.is_full());
}

#[test]
fn secrets_round_trips_through_toml() {
    let s = Secrets {
        access_key_id: "AKIAEXAMPLE".into(),
        secret_access_key: "shhh".into(),
        gate_secret: Some("deadbeef".into()),
    };
    let text = s.save().unwrap();
    assert_eq!(Secrets::parse(&text).unwrap(), s);
    assert!(Secrets::parse("access_key_id = \"a\"\n").is_err());
    assert_eq!(
        Secrets::load("/s", &None).unwrap_err(),
        "no dove credentials at /s — run `dove provision` first"
    );
}

#[test]
fn files_lie_below_the_config_home() {
    let x = Some("/x".to_string());
    let h = Some("/home/me".to_string());
    let p = place_of(&x, &h, "config.toml").unwrap();
    assert_eq!((p.base.as_str(), p.below.as_str()), ("/x", "dove/config.toml"));
    let p = place_of(&Some(String::new()), &h, "secrets.toml").unwrap();
    assert_eq!((p.base.as_str(), p.below.as_str()), ("/home/me", ".config/dove/secrets.toml"));
    assert_eq!(place_of(&None, &None, "f").err().unwrap(), "HOME is not set");
    assert!(Secrets::exist(&place_of(&None, &h, "f"), true));
    assert!(!Secrets::exist(&place_of(&None, &h, "f"), false));
    assert!(!Secrets::exist(&place_of(&None, &None, "f"), true));
}

#[test]
fn human_long_spells_it_out() {
    assert_eq!(human_long(parse("2d").unwrap()), "2 days");
    assert_eq!(human_long(parse("1d").unwrap()), "1 day");
    assert_eq!(human_long(parse("12h").unwrap()), "12 hours");
}

#[test]
fn parses_each_unit() {
    assert_eq!(parse("3d").unwrap(), Duration::from_secs(3 * 86_400));
    assert_eq!(parse("12h").unwrap(), Duration::from_secs(12 * 3_600));
    assert_eq!(parse("30m").unwrap(), Duration::from_secs(30 * 60));
    assert_eq!(parse("90s").unwrap(), Duration::from_secs(90));
    assert_eq!(parse("  5d ").unwrap(), Duration::from_secs(5 * 86_400));
}

#[test]
fn rejects_bad_input() {
    assert!(parse("0d").is_err()); // zero
    assert!(parse("d").is_err()); // no number
    assert!(parse("5").is_err()); // no unit
    assert!(parse("5x").is_err()); // bad unit
    assert!(parse("5days").is_err()); // only single-char units
    assert!(parse("").is_err());
}

#[test]
fn presign_limit_is_seven_days() {
    assert!(within_presign_limit(parse("7d").unwrap()));
    assert!(within_presign_limit(parse("168h").unwrap())); // exactly 7d
    assert!(!within_presign_limit(parse("8d").unwrap()));
    assert!(!within_presign_limit(parse("169h").unwrap()));
}

#[test]
fn human_uses_largest_even_unit() {
    assert_eq!(human(parse("3d").unwrap()), "3d");
    assert_eq!(human(parse("12h").unwrap()), "12h");
    assert_eq!(human(parse("90m").unwrap()), "90m");
    assert_eq!(human(Duration::from_secs(90)), "90s");
}

#[test]
fn durations_read_back() {
    for secs in [1, 59, 60, 61, 3_600, 86_399, 86_400, 604_800, u64::MAX] {
        let d = Duration::from_secs(secs);
        assert_eq!(parse(&human(d)), Ok(d));
    }
    assert_eq!(human(Duration::from_secs(0)), "0s");
    assert_eq!(human_long(Duration::from_secs(0)), "0 days");
    assert_eq!(human_long(Duration::from_secs(1)), "1 second");
    assert_eq!(human_long(Duration::from_secs(120)), "2 minutes");
}

#[test]
fn duration_errors_are_worded() {
    assert_eq!(parse("d"), Err(DurationError::NeedsNumber));
    assert_eq!(parse("99999999999999999999d"), Err(DurationError::OutOfRange));
    assert_eq!(parse("0h"), Err(DurationError::Zero));
    assert_eq!(parse("5"), Err(DurationError::NeedsUnit));
    assert_eq!(parse("5days"), Err(DurationError::UnknownUnit));
    assert_eq!(
        DurationError::NeedsNumber.message(" d "),
        "duration needs a number, e.g. 3d (got \"d\")"
    );
    assert_eq!(
        DurationError::UnknownUnit.message("5days"),
        "unknown duration unit \"days\" — use d, h, m, or s"
    );
    assert_eq!(
        DurationError::OutOfRange.message("9\"d"),
        "duration number out of range in \"9\\\"d\""
    );
    assert_eq!(
        DurationError::Zero.message("0d"),
        "duration must be greater than zero (got \"0d\")"
    );
    assert_eq!(
        DurationError::NeedsUnit.message("5"),
        "duration needs a unit d/h/m/s, e.g. 3d (got \"5\")"
    );
    assert_eq!(parse("213503982334601d"), Ok(Duration::from_secs(213_503_982_334_601 * 86_400)));
    assert_eq!(parse("213503982334602d"), Err(DurationError::OutOfRange));
    assert_eq!(parse("18446744073709551615s"), Ok(Duration::from_secs(u64::MAX)));
    assert_eq!(parse("18446744073709551615m"), Err(DurationError::OutOfRange));
}

#[test]
fn human_size_scales() {
    assert_eq!(human_size(0), "0 B");
    assert_eq!(human_size(842 * 1024 * 1024), "842 MB");
    assert_eq!(human_size(1024), "1 KB");
    assert_eq!(human_size(3 * 1024 * 1024 * 1024 / 2), "1.5 GB");
}

#[test]
fn filled_dots_tracks_progress() {
    assert_eq!(filled_dots(0, 100, 10), 0);
    assert_eq!(filled_dots(100, 100, 10), 10);
    assert_eq!(filled_dots(50, 100, 10), 5);
    assert_eq!(filled_dots(999, 0, 10), 10); // zero total → full, no div-by-zero
}

fn sized(bytes: u64) -> String {
    let units = ["B", "KB", "MB", "GB", "TB"];
    let mut b = bytes as f64;
    let mut i = 0;
    while b >= 1024.0 && i < units.len() - 1 {
        b /= 1024.0;
        i += 1;
    }
    if i <= 2 {
        format!("{} {}", b.round() as u64, units[i])
    } else {
        format!("{b:.1} {}", units[i])
    }
}

fn spread() -> Vec<u64> {
    let mut v = vec![u64::MAX, u64::MAX - 1024, (1 << 53) + 1, (1 << 53) - 1];
    let mut x: u64 = 0x9e37_79b9_7f4a_7c15;
    for shift in 0..64u32 {
        for _ in 0..20 {
            x ^= x << 13;
            x ^= x >> 7;
            x ^= x << 17;
            v.push(x >> shift);
        }
        v.push(1u64 << shift);
        v.push((1u64 << shift) - 1);
        v.push((1u64 << shift) | (1u64 << shift) >> 1);
    }
    v
}

#[test]
fn sizes_agree_with_floating_point() {
    for bytes in spread() {
        assert_eq!(human_size(bytes), sized(bytes), "{bytes}");
    }
    for tenth in 0..200u64 {
        let bytes = 1024 * 1024 * 1024 + tenth * 53_687_091 + tenth % 3;
        assert_eq!(human_size(bytes), sized(bytes), "{bytes}");
    }
}

#[test]
fn dots_agree_with_floating_point() {
    let v = spread();
    for pair in v.windows(2) {
        for dots in [0usize, 1, 7, 10, 12, 1000, usize::MAX] {
            let total = pair[1].max(1);
            let frac = (pair[0] as f64 / total as f64).clamp(0.0, 1.0);
            let expected = (frac * dots as f64).round() as usize;
            assert_eq!(filled_dots(pair[0], pair[1], dots), expected, "{pair:?} {dots}");
        }
    }
}

#[test]
fn bars_never_go_back() {
    for total in [1u64, 7, 1000, 1 << 53, u64::MAX] {
        let step = total / 97 + 1;
        let mut done: u64 = 0;
        let mut before = 0;
        while done < total {
            let filled = filled_dots(done, total, 12);
            assert!(before <= filled && filled <= 12);
            before = filled;
            done = done.saturating_add(step);
        }
        assert_eq!(filled_dots(total, total, 12), 12);
    }
}

#[test]
fn bars_are_drawn() {
    let (bar, first) = Progress::new(bare(), "uploading", 200);
    assert_eq!(first, "\r  uploading • • • • • • • • • • • •    0%");
    assert_eq!(bar.set(bare(), 50), "\r  uploading • • • • • • • • • • • •   25%");
    assert_eq!(bar.finish(bare()), "\r  uploading • • • • • • • • • • • •  100%\n");
    assert_eq!(bar.set(plain(), 50), "");
    assert_eq!(bar.finish(plain()), "");
    let styled = bar.set(color(), 100);
    assert_eq!(styled.matches("\x1b[1m•\x1b[0m").count(), 6);
    assert_eq!(styled.matches("\x1b[2m•\x1b[0m").count(), 6);
    let v = spread();
    for pair in v.windows(2) {
        let total = pair[1].max(1);
        let (bar, _) = Progress::new(bare(), "x", pair[1]);
        let pct = (pair[0] as f64 / total as f64 * 100.0).round() as u32;
        assert!(bar.set(bare(), pair[0]).ends_with(&format!("  {pct:>3}%")), "{pair:?}");
    }
}

#[test]
fn lines_are_styled_on_a_terminal_only() {
    assert_eq!(heading(plain(), "h"), "\n  h\n\n");
    assert_eq!(heading(color(), "h"), "\n  \x1b[1mh\x1b[0m\n\n");
    assert_eq!(field(bare(), "account", "1"), "  account   1\n");
    assert_eq!(step_begin(bare(), "x"), format!("  {:<24} ·", "x"));
    assert_eq!(step_begin(plain(), "x"), "");
    assert_eq!(step_end(bare(), "x", true), format!("\r  {:<24} ✓\n", "x"));
    assert_eq!(step_end(color(), "x", false), format!("\r  \x1b[2m{:<24}\x1b[0m \x1b[31m✗\x1b[0m\n", "x"));
    let (text, result) = step::<u8, String>(bare(), "x", Err("e".to_string()));
    assert_eq!(text, format!("\r  {:<24} ✗\n", "x"));
    assert_eq!(result, Err("e".to_string()));
    assert_eq!(done(bare(), "s", ""), "\n  ✓ s\n");
    assert_eq!(done(bare(), "s", "n"), "\n  ✓ s\n  n\n");
    let r = share_result(plain(), "u", "m");
    assert_eq!((r.before.as_str(), r.url.as_str(), r.after.as_str()), ("", "u\n", ""));
    let r = share_result(bare(), "u", "m");
    assert_eq!((r.before.as_str(), r.url.as_str(), r.after.as_str()), ("\n", "  u\n", "  m\n"));
    assert_eq!(pin_notice(plain(), "123456"), "PIN 123456\n");
    assert!(pin_notice(bare(), "123456").starts_with("\n  PIN       123456\n  send this out of band"));
}

#[test]
fn progress_follows_steps_and_bytes() {
    let mut p = CliProgress::new("uploading");
    assert_eq!(p.fail_pending(bare()), "");
    p.step(bare(), "encrypting");
    assert!(p.fail_pending(bare()).contains("encrypting") );
    assert_eq!(p.fail_pending(bare()), "");
    p.step(bare(), "a");
    p.done(bare(), "a");
    assert_eq!(p.fail_pending(bare()), "");
    assert_eq!(p.bytes(bare(), 10, 10), "");
    let first = p.bytes(bare(), 5, 10);
    assert!(first.contains("  0%") && first.ends_with(" 50%"));
    let last = p.bytes(bare(), 10, 10);
    assert!(last.ends_with("100%\n  uploaded 10 B\n"));
    let mut d = CliProgress::new("downloading");
    d.bytes(bare(), 5, 10);
    assert!(d.bytes(bare(), 10, 10).ends_with("100%\n"));
}

fn rec() -> RequestRecord {
    RequestRecord {
        id: "ab12cd34".into(),
        fragment: "deadbeef".into(),
        description: "invoice".into(),
        created_at: 0,
    }
}

#[test]
fn request_row_shows_waiting() {
    let row = request_row(plain(), &rec(), &RequestStatus::Waiting);
    assert!(row.contains("invoice") && row.contains("waiting") && row.contains("ab12cd34"));
}

#[test]
fn request_row_shows_received_name_and_size() {
    let row = request_row(
        plain(),
        &rec(),
        &RequestStatus::Received {
            name: "report.pdf".into(),
            size: 842 * 1024 * 1024,
        },
    );
    assert!(row.contains("received"));
    assert!(row.contains("report.pdf"));
    assert!(row.contains("842 MB"));
}

#[test]
fn request_row_shows_failed_reason() {
    let row = request_row(
        plain(),
        &rec(),
        &RequestStatus::Failed {
            reason: "expired".into(),
        },
    );
    assert!(row.contains("failed") && row.contains("expired"));
}

fn request_args(expires: &str, pin: Option<&str>) -> RequestArgs {
    RequestArgs {
        description: "invoice".to_string(),
        from: None,
        message: Some("hi".to_string()),
        pin: pin.map(|p| p.to_string()),
        expires: expires.to_string(),
        uploads: 1,
    }
}

fn simple_config() -> Config {
    Config::parse("bucket=\"b\"\nregion=\"us-east-1\"\n").unwrap()
}

fn full_config() -> Config {
    Config::parse("bucket=\"b\"\nregion=\"us-east-1\"\ntable=\"t\"\ngate_url=\"https://g\"\n").unwrap()
}

#[test]
fn requests_need_the_full_tier() {
    let r = create(request_args("3d", Some(" ")), &Ok(full_config()), &[1, 0, 0, 0]).unwrap();
    assert_eq!(r.pin.as_deref(), Some("000001"));
    assert_eq!(r.expires, Duration::from_secs(259_200));
    assert_eq!(r.message.as_deref(), Some("hi"));
    assert!(create(request_args("3d", None), &Ok(simple_config()), &[0; 4]).err().unwrap()
        .starts_with("dove request is a full-tier feature"));
    assert_eq!(create(request_args("3d", None), &Err("gone".to_string()), &[0; 4]).err().unwrap(), "gone");
    assert!(create(request_args("3", None), &Err("gone".to_string()), &[0; 4]).err().unwrap().starts_with("duration needs a unit"));
    assert_eq!(request_note(Duration::from_secs(86_400), 1), "expires in 1 day · 1 upload");
    assert_eq!(request_note(Duration::from_secs(3_600), 2), "expires in 1 hour · 2 uploads");
    assert_eq!(get(&RequestStatus::Waiting).as_deref(), Some("not received yet — nothing to collect"));
    assert_eq!(
        get(&RequestStatus::Failed { reason: "x".to_string() }).as_deref(),
        Some("this request failed: x")
    );
    assert_eq!(get(&RequestStatus::Received { name: "n".to_string(), size: 1 }), None);
}

fn credentials(json: &str) -> Reply {
    Reply::Ran {
        success: true,
        stdout: json.as_bytes().to_vec(),
        stderr: String::new(),
    }
}

fn example_store(token: &str) -> Store {
    let cfg = Config::parse("bucket=\"dove-shares-example\"\nregion=\"us-east-1\"\n").unwrap();
    let json = format!(
        "{{\"AccessKeyId\":\"AKIAEXAMPLE\",\"SecretAccessKey\":\"secretexample\",\"SessionToken\":\"{token}\"}}"
    );
    Store::new(&cfg, &credentials(&json)).ok().unwrap()
}

#[test]
fn presign_get_signs_a_url_with_key_and_expiry() {
    let store = example_store("");
    let url = store
        .presign_get("abc123/report.pdf", Duration::from_secs(3600))
        .unwrap();
    assert!(url.contains("report.pdf"), "key not in URL: {url}");
    assert!(
        url.contains("X-Amz-Expires=3600"),
        "expiry not in URL: {url}"
    );
    assert!(url.contains("X-Amz-Signature="), "not signed: {url}");
}

#[test]
fn s3_err_does_not_leak_signed_params() {
    // A real transport error to an unreachable endpoint whose URL carries
    // signed params — s3_err must not surface them.
    let err = ureq::get("http://127.0.0.1:1/x?X-Amz-Signature=leak")
        .call()
        .unwrap_err();
    let msg = s3_err(err);
    assert!(!msg.contains("X-Amz"), "leaked signed params: {msg}");
}

#[test]
fn signed_urls_follow_the_site_and_the_keys() {
    let store = example_store("tok");
    let url = store.presign_get("k", Duration::from_secs(5)).unwrap();
    assert!(url.starts_with("https://dove-shares-example.s3.us-east-1.amazonaws.com/k?"));
    assert!(url.contains("X-Amz-Security-Token=tok"));
    assert!(url.contains("X-Amz-Expires=5&"));
    let put = store.put_object("a/b c").unwrap();
    assert!(put.contains("/a/b%20c?") && put.contains("X-Amz-Expires=60&"));
    assert!(store.delete_object("x").unwrap().contains("/x?"));
    assert!(store.put_object("//").is_none());
    let mut listing = Listing::start();
    assert!(store.list("pre", &listing).contains("prefix=pre"));
    listing.add_page(Page { keys: vec!["pre1".to_string()], next: Some("t2".to_string()) });
    assert!(store.list("pre", &listing).contains("continuation-token=t2"));
    let minio = Config::parse("bucket=\"b\"\nregion=\"r\"\nendpoint=\"http://localhost:9000\"\n").unwrap();
    let store = Store::new(&minio, &credentials("{\"AccessKeyId\":\"a\",\"SecretAccessKey\":\"s\"}")).ok().unwrap();
    assert!(store.put_object("k").unwrap().starts_with("http://localhost:9000/b/k?"));
}

#[test]
fn stores_are_refused_for_a_reason() {
    let bad = Config::parse("bucket=\"b\"\nregion=\"r\"\nendpoint=\"no url\"\n").unwrap();
    let good = credentials("{\"AccessKeyId\":\"a\",\"SecretAccessKey\":\"s\"}");
    assert_eq!(Store::new(&bad, &good).err().unwrap(), "parsing S3 endpoint URL");
    let ftp = Config::parse("bucket=\"b\"\nregion=\"r\"\nendpoint=\"ftp://h\"\n").unwrap();
    assert!(Store::new(&ftp, &good).err().unwrap().starts_with("bucket config: "));
    for name in ["ftp://h", "mailto:x", "b:", "ws://h"] {
        let text = format!("bucket=\"{name}\"\nregion=\"r\"\nendpoint=\"https://minio.example\"\n");
        assert_eq!(
            Store::new(&Config::parse(&text).unwrap(), &good).err().unwrap(),
            "bucket config: the bucket's name brings another scheme"
        );
    }
    for name in ["//other", "a/../b", "b?c#d", "", "1:b", "a/b:c", "_x:y", "https:b"] {
        let text = format!("bucket=\"{name}\"\nregion=\"r\"\nendpoint=\"https://minio.example\"\n");
        let store = Store::new(&Config::parse(&text).unwrap(), &good).ok().unwrap();
        assert!(store.list("", &Listing::start()).starts_with("https://"));
        assert!(store.presign_get("k", Duration::from_secs(60)).unwrap().starts_with("https://"));
        assert!(store.put_object("mailto:x").unwrap().starts_with("https://"));
        assert!(store.delete_object("ftp://h").unwrap().starts_with("https://"));
    }
    let cfg = simple_config();
    assert_eq!(
        Store::new(&cfg, &credentials("{}")).err().unwrap(),
        "no AccessKeyId in AWS credentials"
    );
    assert_eq!(
        Store::new(&cfg, &credentials("{\"AccessKeyId\":\"a\"}")).err().unwrap(),
        "no SecretAccessKey in AWS credentials"
    );
    assert!(resolve_credentials(&credentials("x")).err().unwrap().starts_with("parsing AWS credentials JSON: "));
    let failed = Reply::Ran { success: false, stdout: vec![], stderr: " expired \n".to_string() };
    assert_eq!(resolve_credentials(&failed).err().unwrap(), "couldn't resolve AWS credentials: expired");
    assert_eq!(
        resolve_credentials(&Reply::NotRun("nope".to_string())).err().unwrap(),
        "running `aws configure export-credentials` (is the AWS CLI installed?): nope"
    );
    let keys = make_keys(Some("a".to_string()), Some("s".to_string()), Some(String::new())).ok().unwrap();
    assert_eq!(keys.token, None);
}

#[test]
fn listings_keep_every_key() {
    let mut listing = Listing::start();
    assert!(listing.more());
    let first = "<ListBucketResult><Contents><Key>a</Key><LastModified>2020-01-01T00:00:00Z</LastModified>\
        <ETag>\"e\"</ETag><Size>1</Size><StorageClass>S</StorageClass></Contents>\
        <MaxKeys>1000</MaxKeys><NextContinuationToken>tok</NextContinuationToken></ListBucketResult>";
    listing.add_answer(first).unwrap();
    assert!(listing.more());
    let second = "<ListBucketResult><Contents><Key>b</Key><LastModified>2020-01-01T00:00:00Z</LastModified>\
        <ETag>\"e\"</ETag><Size>1</Size><StorageClass>S</StorageClass></Contents><MaxKeys>1000</MaxKeys></ListBucketResult>";
    listing.add_answer(second).unwrap();
    assert!(!listing.more());
    assert!(listing.add_answer("<").unwrap_err().starts_with("parsing ListObjectsV2 response: "));
    assert_eq!(listing.into_keys(), vec!["a", "b"]);
}

#[test]
fn answers_are_settled() {
    assert!(settle("PutObject k", &Outcome::Answered(204)).is_ok());
    assert_eq!(settle("PutObject k", &Outcome::Answered(304)).unwrap_err(), "PutObject k: HTTP 304");
    assert_eq!(
        settle("ListObjectsV2", &Outcome::Failed(HttpFailure::Status(403))).unwrap_err(),
        "ListObjectsV2 failed: HTTP 403"
    );
    assert_eq!(describe(&HttpFailure::Transport("Dns Failed".to_string())), "Dns Failed");
}

#[test]
fn random_id_is_16_hex_and_unique() {
    let a = random_id().unwrap();
    assert_eq!(a.len(), 16);
    assert!(a.chars().all(|c| c.is_ascii_hexdigit()));
    assert_ne!(a, random_id().unwrap());
}

#[test]
fn share_key_has_random_prefix_and_keeps_the_name() {
    let k = share_key("report.pdf").unwrap();
    assert!(k.ends_with("/report.pdf"), "{k}");
    let prefix = k.split('/').next().unwrap();
    assert_eq!(prefix.len(), 8);
    assert!(prefix.chars().all(|c| c.is_ascii_hexdigit()));
    // Randomised: two keys for the same name differ.
    assert_ne!(share_key("report.pdf").unwrap(), share_key("report.pdf").unwrap());
}

#[test]
fn share_row_shows_name_and_id() {
    // simple-tier key: filename comes from the key itself
    let row = share_row(plain(), "ab12cd34/report.pdf", &Names { pairs: vec![] });
    assert!(
        row.contains("report.pdf") && row.contains("ab12cd34"),
        "{row}"
    );
    // full-tier name-free key: filename comes from the local ledger
    let names = Names { pairs: vec![("890ad620f2c0b442".to_string(), "vault.txt".to_string())] };
    let row = share_row(plain(), "890ad620f2c0b442", &names);
    assert!(
        row.contains("vault.txt") && row.contains("890ad620f2c0b442"),
        "{row}"
    );
    // unknown id → placeholder, still shows the id
    let row = share_row(plain(), "deadbeefdeadbeef", &Names { pairs: vec![] });
    assert!(
        row.contains("encrypted name") && row.contains("deadbeef"),
        "{row}"
    );
}

#[test]
fn keys_and_pins_are_made_of_bytes() {
    assert_eq!(key_under(&[0xde, 0xad, 0xbe, 0xef], "a/b"), "deadbeef/a/b");
    assert_eq!(pin_of(&[0, 0, 0, 0]), "000000");
    assert_eq!(pin_of(&[0x40, 0x42, 0x0f, 0]), "000000");
    assert_eq!(pin_of(&[0x3f, 0x42, 0x0f, 0]), "999999");
    assert_eq!(pin_of(&[255, 255, 255, 255]), format!("{:06}", u32::MAX % 1_000_000));
    let pin = gen_pin().unwrap();
    assert!(pin.len() == 6 && pin.chars().all(|c| c.is_ascii_digit()));
    assert_eq!(resolve_pin(&Some(" 4917 ".to_string()), &[1; 4]).as_deref(), Some("4917"));
    assert_eq!(resolve_pin(&Some("".to_string()), &[7, 0, 0, 0]).as_deref(), Some("000007"));
    assert_eq!(resolve_pin(&None, &[7, 0, 0, 0]), None);
    assert_ne!(draw().unwrap().id, draw().unwrap().id);
}

#[test]
fn what_is_drawn_is_used() {
    let none = getrandom::Error::UNSUPPORTED;
    assert_eq!(id_drawn(Ok([0x0f; 8])).as_deref(), Some("0f0f0f0f0f0f0f0f"));
    assert_eq!(id_drawn(Err(none)), None);
    assert_eq!(share_key_drawn(Ok([1, 2, 3, 4]), "a.txt").as_deref(), Some("01020304/a.txt"));
    assert_eq!(share_key_drawn(Err(none), "a.txt"), None);
    assert_eq!(pin_drawn(Ok([42, 0, 0, 0])).as_deref(), Some("000042"));
    assert_eq!(pin_drawn(Err(none)), None);
    let d = draws_drawn(Ok([1; 8]), Ok([2; 4]), Ok([3; 32]), Ok([4; 4])).unwrap();
    assert_eq!((d.id, d.prefix, d.secret, d.pin), ([1; 8], [2; 4], [3; 32], [4; 4]));
    assert!(draws_drawn(Err(none), Ok([2; 4]), Ok([3; 32]), Ok([4; 4])).is_none());
    assert!(draws_drawn(Ok([1; 8]), Err(none), Ok([3; 32]), Ok([4; 4])).is_none());
    assert!(draws_drawn(Ok([1; 8]), Ok([2; 4]), Err(none), Ok([4; 4])).is_none());
    assert!(draws_drawn(Ok([1; 8]), Ok([2; 4]), Ok([3; 32]), Err(none)).is_none());
}

fn ledger_record(id: &str, name: &str) -> ShareRecord {
    ShareRecord {
        id: id.to_string(),
        name: name.to_string(),
        from: None,
        created_at: 1,
        expires_at: 2,
        downloads: 3,
    }
}

#[test]
fn the_ledger_replaces_and_removes() {
    let mut all = Vec::new();
    record(&mut all, ledger_record("a", "one"));
    record(&mut all, ledger_record("b", "two"));
    record(&mut all, ledger_record("a", "three"));
    assert_eq!(all.len(), 2);
    assert_eq!(all[1].name, "three");
    assert_eq!(names(&all).get("a").as_deref(), Some("three"));
    assert_eq!(names(&all).get("b").as_deref(), Some("two"));
    remove(&mut all, "a");
    remove(&mut all, "a");
    assert_eq!(names(&all).get("a"), None);
    assert_eq!(all.len(), 1);
    let twice = Names { pairs: vec![("k".to_string(), "x".to_string()), ("k".to_string(), "y".to_string())] };
    assert_eq!(twice.get("k").as_deref(), Some("y"));
}

#[test]
fn uploads_are_prepared_by_kind() {
    let last = Some("dir".to_string());
    let up = prepare_upload("/x/dir", PathKind::Directory, &last).ok().unwrap();
    assert!(up.zipped && up.name == "dir.zip");
    let up = prepare_upload("/x/dir", PathKind::File, &last).ok().unwrap();
    assert!(!up.zipped && up.name == "dir");
    assert_eq!(prepare_upload("/x", PathKind::File, &None).err().unwrap(), "/x has no usable filename");
    assert_eq!(prepare_upload("/x", PathKind::Directory, &None).err().unwrap(), "/x has no usable directory name");
    assert_eq!(prepare_upload("/x", PathKind::Other, &last).err().unwrap(), "not a file or directory: /x");
    assert_eq!(entry_name("dir\\sub\\b.txt"), "dir/sub/b.txt");
}

#[test]
fn only_directories_and_files_are_packed() {
    match pack(Found::Directory, "dir\\sub") {
        Packing::Directory(name) => assert_eq!(name, "dir/sub"),
        _ => panic!("no directory"),
    }
    match pack(Found::File, "dir/sub/b.txt") {
        Packing::File(name) => assert_eq!(name, "dir/sub/b.txt"),
        _ => panic!("no file"),
    }
    assert!(matches!(pack(Found::Other, "dir/link"), Packing::Skip));
}

fn share_args(expires: &str) -> ShareArgs {
    ShareArgs {
        expires: expires.to_string(),
        encrypt: false,
        downloads: None,
        pin: None,
        from: None,
        message: None,
    }
}

fn draws() -> Draws {
    Draws { id: [0xab; 8], prefix: [1, 2, 3, 4], secret: [0; 32], pin: [9, 0, 0, 0] }
}

#[test]
fn a_simple_share_ends_in_a_signed_link() {
    let mut args = share_args("3d");
    args.encrypt = true;
    let mut f = start(args, draws()).ok().unwrap();
    let s = run(&mut f, ShareStage::Config, ShareEvent::Config(Ok(simple_config()))).unwrap();
    let s = run(&mut f, s, ShareEvent::Opened(Ok(()))).unwrap();
    let s = run(&mut f, s, ShareEvent::Prepared(Ok("report.pdf".to_string()))).unwrap();
    assert!(s == ShareStage::Encrypt);
    let s = run(&mut f, s, ShareEvent::Encrypted(Ok(()))).unwrap();
    match f.act(s) {
        ShareAct::Upload(key) => assert_eq!(key, "01020304/report.pdf"),
        _ => panic!("no upload"),
    }
    let s = run(&mut f, s, ShareEvent::Uploaded(Ok(10))).unwrap();
    match f.act(s) {
        ShareAct::Sign { key, ttl } => {
            assert_eq!(key, "01020304/report.pdf");
            assert_eq!(ttl, Duration::from_secs(259_200));
        }
        _ => panic!("no link"),
    }
    let s = run(&mut f, s, ShareEvent::Signed("https://s".to_string())).unwrap();
    assert!(s == ShareStage::Done);
    assert_eq!(f.link(), format!("https://s#{}", "A".repeat(43)));
    assert_eq!(f.note(), "expires in 3 days");
    assert_eq!(f.pin(), None);
}

#[test]
fn a_full_share_is_registered_before_its_link() {
    let mut args = share_args("1h");
    args.pin = Some("".to_string());
    args.from = Some("me".to_string());
    args.downloads = Some(1);
    let mut f = start(args, draws()).ok().unwrap();
    let s = run(&mut f, ShareStage::Config, ShareEvent::Config(Ok(full_config()))).unwrap();
    let s = run(&mut f, s, ShareEvent::Opened(Ok(()))).unwrap();
    let s = run(&mut f, s, ShareEvent::Prepared(Ok("n.txt".to_string()))).unwrap();
    assert!(s == ShareStage::Full(FullShareStage::Derive));
    match f.act(s) {
        ShareAct::Derive { pin, id, .. } => {
            assert_eq!(pin, "000009");
            assert_eq!(id, "abababababababab");
        }
        _ => panic!("no derivation"),
    }
    let s = run(&mut f, s, ShareEvent::Derived { key: [7; 32], pin_hash: "hh".to_string() }).unwrap();
    match f.act(s) {
        ShareAct::Encrypt(key) => assert_eq!(key, [7; 32]),
        _ => panic!("no encryption"),
    }
    let s = run(&mut f, s, ShareEvent::Encrypted(Ok(()))).unwrap();
    match f.act(s) {
        ShareAct::Upload(key) => assert_eq!(key, "abababababababab"),
        _ => panic!("no upload"),
    }
    let s = run(&mut f, s, ShareEvent::Uploaded(Ok(99))).unwrap();
    match f.act(s) {
        ShareAct::Seal { secret, text } => {
            assert_eq!(secret, [0; 32]);
            assert_eq!(text, "{\"from\":\"me\",\"msg\":\"\",\"name\":\"n.txt\"}");
        }
        _ => panic!("nothing sealed"),
    }
    let s = run(&mut f, s, ShareEvent::Sealed { meta: "MM".to_string(), now: 1000 }).unwrap();
    assert!(s == ShareStage::Full(FullShareStage::Register));
    match f.act(s) {
        ShareAct::Walk(script) => {
            let mut walk = dove::script::Walk::over(script, None);
            walk.next();
            match walk.next() {
                dove::script::Todo::Invoke(words) => {
                    assert_eq!(&words[..4], &["dynamodb", "put-item", "--table-name", "t"]);
                    let v: serde_json::Value = serde_json::from_str(&words[5]).unwrap();
                    assert_eq!(v["id"]["S"], "abababababababab");
                    assert_eq!(v["s3_key"]["S"], "abababababababab");
                    assert_eq!(v["downloads_remaining"]["N"], "1");
                    assert_eq!(v["downloads_total"]["N"], "1");
                    assert_eq!(v["expires_at"]["N"], "4600");
                    assert_eq!(v["created_at"]["N"], "1000");
                    assert_eq!(v["size"]["N"], "99");
                    assert_eq!(v["pin_hash"]["S"], "hh");
                    assert_eq!(v["pin_attempts"]["N"], "0");
                    assert!(!words[5].contains("n.txt") && !words[5].contains("me\""));
                }
                _ => panic!("nothing run"),
            }
            match walk.hear(&Reply::NotRun("gone".to_string())) {
                dove::aws::Verdict::Failed(m) => assert_eq!(m, "running aws dynamodb put-item: gone"),
                _ => panic!("not failed"),
            }
        }
        _ => panic!("no script"),
    }
    assert_eq!(
        run(&mut f, s, ShareEvent::Replied(Reply::NotRun("gone".to_string()))).err().unwrap(),
        "running aws dynamodb put-item: gone"
    );
    let refused = Reply::Ran { success: false, stdout: vec![], stderr: " denied \n".to_string() };
    assert_eq!(
        run(&mut f, s, ShareEvent::Replied(refused)).err().unwrap(),
        "registering the share policy failed: denied"
    );
    let s = run(&mut f, s, ShareEvent::Replied(credentials(""))).unwrap();
    match f.act(s) {
        ShareAct::Record(r) => {
            assert_eq!(r.name, "n.txt");
            assert_eq!(r.from.as_deref(), Some("me"));
            assert_eq!((r.created_at, r.expires_at, r.downloads), (1000, 4600, 1));
        }
        _ => panic!("no record"),
    }
    let s = run(&mut f, s, ShareEvent::Recorded).unwrap();
    assert!(s == ShareStage::Done);
    assert_eq!(f.link(), format!("https://g/d/abababababababab#{}.MM", "A".repeat(43)));
    assert_eq!(f.note(), "expires in 1 hour · 1 download");
    assert_eq!(f.pin().as_deref(), Some("000009"));
}

/// The words sent out for a share of the full tier, and its link.
fn sent_out(name: &str, from: &str, meta: &str) -> (Vec<String>, String) {
    let mut args = share_args("1h");
    args.from = Some(from.to_string());
    let mut f = start(args, draws()).ok().unwrap();
    let mut s = ShareStage::Config;
    let mut sent = Vec::new();
    let events = vec![
        ShareEvent::Config(Ok(full_config())),
        ShareEvent::Opened(Ok(())),
        ShareEvent::Prepared(Ok(name.to_string())),
        ShareEvent::Derived { key: [7; 32], pin_hash: String::new() },
        ShareEvent::Encrypted(Ok(())),
        ShareEvent::Uploaded(Ok(99)),
        ShareEvent::Sealed { meta: meta.to_string(), now: 1000 },
        ShareEvent::Replied(credentials("")),
        ShareEvent::Recorded,
    ];
    for event in events {
        match f.act(s) {
            ShareAct::Encrypt(key) => sent.push(format!("{:?}", key)),
            ShareAct::Upload(key) => sent.push(key),
            ShareAct::Walk(script) => {
                let mut walk = dove::script::Walk::over(script, None);
                walk.next();
                match walk.next() {
                    dove::script::Todo::Invoke(words) => sent.extend(words),
                    _ => panic!("nothing run"),
                }
            }
            _ => {}
        }
        s = run(&mut f, s, event).unwrap();
    }
    assert!(s == ShareStage::Done);
    (sent, f.link())
}

#[test]
fn names_stay_at_home() {
    let (a, link_a) = sent_out("taxes.pdf", "me", "AAAA");
    let (b, link_b) = sent_out("a much longer name.zip", "someone else", "BBBB");
    assert!(a.len() > 3);
    assert_eq!(a, b);
    assert_eq!(link_a.strip_suffix("AAAA").unwrap(), link_b.strip_suffix("BBBB").unwrap());
}

#[test]
fn shares_are_refused_for_a_reason() {
    assert!(start(share_args("3"), draws()).err().unwrap().starts_with("duration needs a unit"));
    let mut args = share_args("3d");
    args.pin = Some("1".to_string());
    let mut f = start(args, draws()).ok().unwrap();
    assert!(run(&mut f, ShareStage::Config, ShareEvent::Config(Ok(simple_config()))).err().unwrap()
        .starts_with("--pin is a full-tier feature"));
    let mut args = share_args("3d");
    args.message = Some("m".to_string());
    let mut f = start(args, draws()).ok().unwrap();
    assert!(run(&mut f, ShareStage::Config, ShareEvent::Config(Ok(simple_config()))).err().unwrap()
        .starts_with("--from/--message ride"));
    let mut f = start(share_args("8d"), draws()).ok().unwrap();
    run(&mut f, ShareStage::Config, ShareEvent::Config(Ok(simple_config()))).unwrap();
    assert!(run(&mut f, ShareStage::Source, ShareEvent::Prepared(Ok("n".to_string()))).err().unwrap()
        .starts_with("--expires 8d is over the 7-day limit"));
    let mut f = start(share_args("8d"), draws()).ok().unwrap();
    let gateless = Config::parse("bucket=\"b\"\nregion=\"r\"\ngate_url=\"g\"\n").unwrap();
    run(&mut f, ShareStage::Config, ShareEvent::Config(Ok(gateless))).unwrap();
    let s = run(&mut f, ShareStage::Source, ShareEvent::Prepared(Ok("n".to_string()))).unwrap();
    assert!(s == ShareStage::Full(FullShareStage::Encrypt));
    let s = run(&mut f, ShareStage::Full(FullShareStage::Seal), ShareEvent::Sealed { meta: String::new(), now: 1 }).unwrap();
    match f.act(s) {
        ShareAct::Walk(script) => {
            let mut walk = dove::script::Walk::over(script, None);
            assert!(matches!(walk.next(), dove::script::Todo::Begin(label) if label == "registering policy"));
            assert!(matches!(walk.next(), dove::script::Todo::Rest));
        }
        _ => panic!("no script"),
    }
    assert_eq!(
        run(&mut f, s, ShareEvent::Replied(Reply::NotRun(String::new()))).err().unwrap(),
        "no table in config"
    );
    assert_eq!(f.note(), "expires in 8 days · 100 downloads");
}

#[test]
fn shares_are_listed_and_revoked() {
    assert_eq!(revoke("ab", &vec!["ab/x".to_string(), "abc".to_string()]).unwrap(), "ab/x");
    assert_eq!(revoke("ab", &vec![]).unwrap_err(), "no share with id ab");
    assert_eq!(revoke("ab12", &vec!["ab12cd34/report.pdf".to_string()]).unwrap_err(), "no share with id ab12");
    assert_eq!(revoke("ab", &vec!["abc".to_string(), "ab".to_string(), "ab/x".to_string()]).unwrap(), "ab");
    assert_eq!(revoked("ab"), "revoked ab — the link now 404s");
    let mut cfg = simple_config();
    assert_eq!(status(plain(), &cfg), "  bucket  b\n  region  us-east-1\n");
    cfg.profile = Some("p".to_string());
    assert!(status(plain(), &cfg).ends_with("  profile p\n"));
    assert_eq!(reach(plain(), &Ok(3)), "  shares  3\n");
    assert_eq!(reach(plain(), &Err("no".to_string())), "  shares  couldn't reach the bucket: no\n");
}

#[test]
fn the_gate_is_switched() {
    assert!(gatectl::ask_account(&simple_config()).err().unwrap().starts_with("this config has no gate"));
    assert!(gatectl::ask_account(&full_config()).is_ok());
    assert_eq!(gatectl::gate_function(&credentials("123456\n")), "dove-gate-123456");
    let mut walk = dove::script::Walk::over(gatectl::disable("f"), None);
    walk.next();
    match walk.next() {
        dove::script::Todo::Invoke(words) => assert_eq!(
            words.join(" "),
            "lambda put-function-concurrency --function-name f --reserved-concurrent-executions 0"
        ),
        _ => panic!("nothing run"),
    }
    let mut walk = dove::script::Walk::over(gatectl::enable("f"), None);
    walk.next();
    match walk.next() {
        dove::script::Todo::Invoke(words) => assert_eq!(
            words.join(" "),
            "lambda delete-function-concurrency --function-name f"
        ),
        _ => panic!("nothing run"),
    }
    assert!(gatectl::disabled(br#"{"ReservedConcurrentExecutions":0}"#));
    assert!(!gatectl::disabled(br#"{"ReservedConcurrentExecutions":5}"#));
    assert!(!gatectl::disabled(br#"{"ReservedConcurrentExecutions":-1}"#));
    assert!(!gatectl::disabled(br#"{"ReservedConcurrentExecutions":0.0}"#));
    assert!(!gatectl::disabled(b"{}"));
    assert!(!gatectl::disabled(b""));
    assert_eq!(gatectl::status(plain(), false), "  ● gate enabled");
    assert!(gatectl::status(plain(), true).contains("gate disabled (reserved concurrency 0)"));
}
