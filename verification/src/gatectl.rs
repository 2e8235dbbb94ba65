//! `dove gate disable | enable | status`: the operator's switch for the access gate. At
//! no reserved concurrency every request fails fast, at no cost; that is the lever
//! that the cost breaker pulls too.

use vstd::prelude::*;

use crate::aws::{given_at, Call, CallView, Complaint, ComplaintView, Reply};
use crate::config::Config;
use crate::json::{as_number, get, json_contents, json_read, parse, Json};
use crate::full::{law_gate_is_deployed_whole, walked_at, FullFactsView, FullStage};
use crate::script::{lemma_sole, Script, ScriptView};
use crate::search::{has_text, stands_at};
use crate::text::{decimal, lemma_decimal_shape, lossy, lossy_text, trim, trimmed};
use crate::ui::{green, greened, red, reddened, Terminal};

verus! {

/// The call that asks for the account.
pub open spec fn account_call() -> CallView {
    CallView::aws("sts"@, "get-caller-identity"@).option("--query"@, "Account"@).option(
        "--output"@,
        "text"@,
    ).complaining(ComplaintView::Saying("resolving the AWS account"@))
}

/// The call that asks for the account, for a configuration that has a gate.
pub fn ask_account(config: &Config) -> (r: Result<Call, String>)
    ensures
        match r {
            Ok(call) => config@.is_full() && call@ == account_call(),
            Err(why) => !config@.is_full() && why@
                == "this config has no gate — it isn't full tier (`dove provision full`)"@,
        },
{
    if !config.is_full() {
        return Err(
            "this config has no gate — it isn't full tier (`dove provision full`)".to_string(),
        );
    }
    Ok(
        Call::aws("sts", "get-caller-identity").option("--query", "Account").option(
            "--output",
            "text",
        ).saying("resolving the AWS account"),
    )
}

/// The access gate's name, by what was printed of the account.
pub open spec fn gate_called(printed: Seq<u8>) -> Seq<char> {
    "dove-gate-"@ + trimmed(lossy_text(printed))
}

/// The access gate's name, by what the reply to `ask_account` printed.
pub fn gate_function(reply: &Reply) -> (r: String)
    ensures
        r@ == gate_called(reply@.output()),
{
    let printed = lossy(reply.output());
    "dove-gate-".to_string().concat(trim(printed.as_str()))
}

/// The access gate is disabled by reserving no concurrency for it.
pub open spec fn disable_script(function: Seq<char>) -> ScriptView {
    ScriptView::nothing().step(
        "disabling gate"@,
        CallView::aws("lambda"@, "put-function-concurrency"@).option(
            "--function-name"@,
            function,
        ).option("--reserved-concurrent-executions"@, "0"@),
    )
}

/// The access gate is enabled by lifting the reservation.
pub open spec fn enable_script(function: Seq<char>) -> ScriptView {
    ScriptView::nothing().step(
        "enabling gate"@,
        CallView::aws("lambda"@, "delete-function-concurrency"@).option(
            "--function-name"@,
            function,
        ),
    )
}

/// Disables the access gate.
pub fn disable(function: &str) -> (r: Script)
    ensures
        r@ == disable_script(function@),
{
    Script::nothing().step(
        "disabling gate",
        Call::aws("lambda", "put-function-concurrency").option("--function-name", function).option(
            "--reserved-concurrent-executions",
            "0",
        ),
    )
}

/// Enables the access gate.
pub fn enable(function: &str) -> (r: Script)
    ensures
        r@ == enable_script(function@),
{
    Script::nothing().step(
        "enabling gate",
        Call::aws("lambda", "delete-function-concurrency").option("--function-name", function),
    )
}

/// The call that asks for the access gate's reservation.
pub open spec fn concurrency_call(function: Seq<char>) -> CallView {
    CallView::aws("lambda"@, "get-function-concurrency"@).option(
        "--function-name"@,
        function,
    ).option("--output"@, "json"@).complaining(ComplaintView::Exit)
}

/// The call that asks for the access gate's reservation. A failed exit says nothing.
pub fn ask_concurrency(function: &str) -> (r: Call)
    ensures
        r@ == concurrency_call(function@),
{
    Call::aws("lambda", "get-function-concurrency").option("--function-name", function).option(
        "--output",
        "json",
    ).complaining(Complaint::Exit)
}

/// A reply says that no concurrency is reserved: the access gate is disabled. One that
/// says nothing of it means that it is not.
pub open spec fn says_disabled(document: Seq<u8>) -> bool {
    match json_read(document) {
        Ok(value) => value.get("ReservedConcurrentExecutions"@) == Some(
            Json::Number(decimal(0)),
        ),
        Err(_) => false,
    }
}

/// Is the access gate disabled, by the reply to `ask_concurrency`?
pub fn disabled(document: &[u8]) -> (r: bool)
    ensures
        r == says_disabled(document@),
{
    match parse(document) {
        Ok(value) => match get(&value, "ReservedConcurrentExecutions") {
            Some(member) => {
                let reserved = as_number(member);
                proof {
                    if reserved is Some && reserved->0 >= 0 {
                        lemma_decimal_shape(reserved->0 as nat);
                        lemma_decimal_shape(0);
                    } else {
                        assert(json_contents(*member) != Json::Number(decimal(0i64 as nat)));
                    }
                }
                match reserved {
                    Some(n) => n == 0,
                    None => false,
                }
            },
            None => false,
        },
        Err(_) => false,
    }
}

/// What `dove gate status` shows.
pub fn status(term: Terminal, is_disabled: bool) -> (r: String)
    ensures
        r@ == (if is_disabled {
            "  "@ + reddened(term, "●"@)
                + " gate disabled (reserved concurrency 0) — `dove gate enable` to restore"@
        } else {
            "  "@ + greened(term, "●"@) + " gate enabled"@
        }),
{
    if is_disabled {
        "  ".to_string().concat(red(term, "●").as_str()).concat(
            " gate disabled (reserved concurrency 0) — `dove gate enable` to restore",
        )
    } else {
        "  ".to_string().concat(green(term, "●").as_str()).concat(" gate enabled")
    }
}

// ── laws ──────────────────────────────────────────────────────────────────

/// The switch is the access gate's: the function that is switched is the one that the
/// full tier deploys in the account.
pub proof fn law_the_switch_is_the_gates(printed: Seq<u8>, facts: FullFactsView)
    requires
        facts.account == trimmed(lossy_text(printed)),
    ensures
        account_call().calls("sts"@, "get-caller-identity"@),
        account_call().gives("--query"@, "Account"@),
        account_call().gives("--output"@, "text"@),
        walked_at(facts, FullStage::Deploy).call_of("lambda"@, "create-function"@).gives(
            "--function-name"@,
            gate_called(printed),
        ),
{
    assert(given_at(account_call().words, 2, "--query"@, "Account"@));
    assert(given_at(account_call().words, 4, "--output"@, "text"@));
    law_gate_is_deployed_whole(facts);
}

/// Disabling the access gate reserves for it what it counts as disabled by, and nothing
/// else counts so; enabling it lifts the reservation. All of it is of the one function.
pub proof fn law_the_switch_switches(function: Seq<char>)
    ensures
        ({
            let disable = disable_script(function).call_of("lambda"@, "put-function-concurrency"@);
            let enable = enable_script(function).call_of("lambda"@, "delete-function-concurrency"@);
            let ask = concurrency_call(function);
            &&& disable_script(function).asks("lambda"@, "put-function-concurrency"@)
            &&& enable_script(function).asks("lambda"@, "delete-function-concurrency"@)
            &&& disable.gives("--function-name"@, function)
            &&& enable.gives("--function-name"@, function)
            &&& enable.words.len() == 4
            &&& ask.calls("lambda"@, "get-function-concurrency"@) && ask.gives(
                "--function-name"@,
                function,
            )
            &&& exists|reserved: Seq<char>|
                {
                    &&& #[trigger] disable.gives("--reserved-concurrent-executions"@, reserved)
                    &&& reserved == decimal(0)
                    &&& forall|document: Seq<u8>| #[trigger]
                        says_disabled(document) <==> json_read(document) is Ok && json_read(
                            document,
                        )->Ok_0.get("ReservedConcurrentExecutions"@) == Some(
                            Json::Number(reserved),
                        )
                }
        }),
{
    let (off, on) = (disable_script(function), enable_script(function));
    assert(off.items.len() == 3 && on.items.len() == 3);
    lemma_sole(off, "lambda"@, "put-function-concurrency"@, 1);
    lemma_sole(on, "lambda"@, "delete-function-concurrency"@, 1);
    let disable = off.items[1]->Run_0;
    let enable = on.items[1]->Run_0;
    assert(given_at(disable.words, 2, "--function-name"@, function));
    assert(given_at(enable.words, 2, "--function-name"@, function));
    assert(given_at(concurrency_call(function).words, 2, "--function-name"@, function));
    reveal_strlit("0");
    assert(decimal(0) =~= "0"@) by {
        reveal_with_fuel(decimal, 2);
    }
    assert(given_at(disable.words, 4, "--reserved-concurrent-executions"@, decimal(0)));
    assert(disable.gives("--reserved-concurrent-executions"@, decimal(0)));
}

/// What is run to disable and to enable the access gate is what disables and enables it,
/// and what is read of its state is what the reply says.
pub proof fn law_switching_is_what_is_run(
    function: &str,
    off: Script,
    on: Script,
    ask: Call,
    document: &[u8],
    is_disabled: bool,
    term: Terminal,
    shown: String,
)
    requires
        call_ensures(disable, (function,), off),
        call_ensures(enable, (function,), on),
        call_ensures(ask_concurrency, (function,), ask),
        call_ensures(disabled, (document,), is_disabled),
        call_ensures(status, (term, is_disabled), shown),
    ensures
        off@ == disable_script(function@),
        on@ == enable_script(function@),
        ask@ == concurrency_call(function@),
        is_disabled <==> says_disabled(document@),
        is_disabled ==> has_text(shown@, " gate disabled"@),
        !is_disabled ==> " gate enabled"@.is_suffix_of(shown@),
{
    let dot = "  "@ + (if is_disabled {
        reddened(term, "●"@)
    } else {
        greened(term, "●"@)
    });
    let at = dot.len() as int;
    if is_disabled {
        reveal_strlit(" gate disabled");
        reveal_strlit(" gate disabled (reserved concurrency 0) — `dove gate enable` to restore");
        assert(shown@.subrange(at, at + 14) =~= " gate disabled"@);
        assert(stands_at(shown@, " gate disabled"@, at));
    } else {
        assert(" gate enabled"@ =~= shown@.subrange(at, shown@.len() as int));
    }
}

} // verus!
