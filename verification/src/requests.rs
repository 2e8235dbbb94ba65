//! `dove request` and `dove requests`: asking someone else to upload a file, and
//! collecting what came in.

use vstd::prelude::*;

use crate::aws::maybe;
use crate::config::Config;
use crate::duration::{
    complaint, counted, human_long, in_words, parse, secs_written, Duration, DurationError,
};
use crate::search::{has_text, stands_at};
use crate::share::{law_pins_have_six_digits, resolve_pin, resolved_pin};
use crate::text::{decimal, decimal_text, trimmed};
use crate::ui::{dim, dimmed, human_size, size_text, Terminal};

verus! {

/// What a listing shows where there is nothing.
pub const NO_REQUESTS: &'static str = "no file requests yet — `dove request \"...\"` to make one";

/// A request that this machine made.
pub struct RequestRecord {
    pub id: String,
    pub fragment: String,
    pub description: String,
    pub created_at: u64,
}

/// Where a request stands.
pub enum RequestStatus {
    /// Nothing came in yet.
    Waiting,
    /// A file came in.
    Received { name: String, size: u64 },
    /// It came to nothing.
    Failed { reason: String },
}

/// Where a request stands, in words.
pub open spec fn state_text(status: RequestStatus) -> Seq<char> {
    match status {
        RequestStatus::Waiting => "waiting"@,
        RequestStatus::Received { name, size } => "received · "@ + name@ + " · "@ + size_text(
            size as nat,
        ),
        RequestStatus::Failed { reason } => "failed · "@ + reason@,
    }
}

/// One row of `dove requests`: the description, where it stands, and the muted id.
pub fn request_row(term: Terminal, rec: &RequestRecord, status: &RequestStatus) -> (r: String)
    ensures
        r@ == "  "@ + rec.description@ + "  "@ + state_text(*status) + "  "@ + dimmed(
            term,
            rec.id@,
        ),
{
    let state = match status {
        RequestStatus::Waiting => "waiting".to_string(),
        RequestStatus::Received { name, size } => "received · ".to_string().concat(
            name.as_str(),
        ).concat(" · ").concat(human_size(*size).as_str()),
        RequestStatus::Failed { reason } => "failed · ".to_string().concat(reason.as_str()),
    };
    "  ".to_string().concat(rec.description.as_str()).concat("  ").concat(state.as_str()).concat(
        "  ",
    ).concat(dim(term, rec.id.as_str()).as_str())
}

/// Why there is nothing to collect, if there is nothing.
pub open spec fn hindrance(status: RequestStatus) -> Option<Seq<char>> {
    match status {
        RequestStatus::Failed { reason } => Some("this request failed: "@ + reason@),
        RequestStatus::Waiting => Some("not received yet — nothing to collect"@),
        RequestStatus::Received { .. } => None,
    }
}

/// Whether to collect what came in: `None` is yes, and else this is what to say.
pub fn get(status: &RequestStatus) -> (r: Option<String>)
    ensures
        maybe(r) == hindrance(*status),
{
    match status {
        RequestStatus::Failed { reason } => Some(
            "this request failed: ".to_string().concat(reason.as_str()),
        ),
        RequestStatus::Waiting => Some("not received yet — nothing to collect".to_string()),
        RequestStatus::Received { .. } => None,
    }
}

/// What is asked for on the command line.
pub struct RequestArgs {
    pub description: String,
    pub from: Option<String>,
    pub message: Option<String>,
    pub pin: Option<String>,
    pub expires: String,
    pub uploads: u32,
}

/// What is asked of the access gate.
pub struct CreateRequest {
    pub description: String,
    pub from: Option<String>,
    pub message: Option<String>,
    pub pin: Option<String>,
    pub expires: Duration,
    pub uploads: u32,
}

/// What is asked of the access gate.
pub struct CreateRequestView {
    pub description: Seq<char>,
    pub from: Option<Seq<char>>,
    pub message: Option<Seq<char>>,
    pub pin: Option<Seq<char>>,
    pub expires: Duration,
    pub uploads: u32,
}

impl View for CreateRequest {
    type V = CreateRequestView;

    open spec fn view(&self) -> CreateRequestView {
        CreateRequestView {
            description: self.description@,
            from: maybe(self.from),
            message: maybe(self.message),
            pin: maybe(self.pin),
            expires: self.expires,
            uploads: self.uploads,
        }
    }
}

/// The request that arguments make: the duration has to be one, the configuration
/// has to be there and of the full tier, and a PIN that was left open is made up.
pub open spec fn request_of(
    args: RequestArgs,
    config: Result<Config, String>,
    pin: Seq<u8>,
) -> Result<CreateRequestView, Seq<char>> {
    match secs_written(args.expires@) {
        Err(e) => Err(complaint(e, args.expires@)),
        Ok(secs) => match config {
            Err(why) => Err(why@),
            Ok(config) => if !config@.is_full() {
                Err(
                    "dove request is a full-tier feature: it needs the "@
                        + "gate (to authorize an upload) and DynamoDB (to hold the request's policy). Provision it with `dove provision full`."@,
                )
            } else {
                Ok(
                    CreateRequestView {
                        description: args.description@,
                        from: maybe(args.from),
                        message: maybe(args.message),
                        pin: resolved_pin(maybe(args.pin), pin),
                        expires: Duration { secs: secs as u64, nanos: 0 },
                        uploads: args.uploads,
                    },
                )
            },
        },
    }
}

/// Makes a request of arguments, a configuration, and the random bytes of a PIN.
pub fn create(args: RequestArgs, config: &Result<Config, String>, pin: &[u8; 4]) -> (r: Result<
    CreateRequest,
    String,
>)
    ensures
        match r {
            Ok(request) => request_of(args, *config, pin@) == Ok::<CreateRequestView, Seq<char>>(
                request@,
            ),
            Err(why) => request_of(args, *config, pin@) == Err::<CreateRequestView, Seq<char>>(
                why@,
            ),
        },
{
    let expires = match parse(args.expires.as_str()) {
        Ok(ttl) => ttl,
        Err(e) => return Err(e.message(args.expires.as_str())),
    };
    match config {
        Err(why) => Err(why.clone()),
        Ok(config) => {
            if !config.is_full() {
                return Err(
                    "dove request is a full-tier feature: it needs the ".to_string().concat(
                        "gate (to authorize an upload) and DynamoDB (to hold the request's policy). Provision it with `dove provision full`.",
                    ),
                );
            }
            let pin = resolve_pin(&args.pin, pin);
            Ok(
                CreateRequest {
                    description: args.description,
                    from: args.from,
                    message: args.message,
                    pin,
                    expires,
                    uploads: args.uploads,
                },
            )
        },
    }
}

/// The line under a request's link.
pub fn request_note(ttl: Duration, uploads: u32) -> (r: String)
    ensures
        r@ == "expires in "@ + in_words(ttl.secs as nat) + " · "@ + decimal(uploads as nat)
            + " upload"@ + (if uploads == 1 {
            ""@
        } else {
            "s"@
        }),
{
    "expires in ".to_string().concat(human_long(ttl).as_str()).concat(" · ").concat(
        decimal_text(uploads as u64).as_str(),
    ).concat(" upload").concat(
        if uploads == 1 {
            ""
        } else {
            "s"
        },
    )
}

// ── laws ──────────────────────────────────────────────────────────────────

/// What is asked of the access gate is what was asked for: the same words from the same
/// sender, as many uploads, for as long. A PIN is set if and only if one was asked for,
/// and it is the one that was given, if one was. Nothing is asked of a gate that is not
/// there.
pub proof fn law_requests_are_as_asked(
    args: RequestArgs,
    config: Result<Config, String>,
    pin: Seq<u8>,
)
    requires
        pin.len() == 4,
    ensures
        request_of(args, config, pin) is Ok <==> secs_written(args.expires@) is Ok && config is Ok
            && config->Ok_0@.gate_url is Some,
        request_of(args, config, pin) matches Ok(request) ==> {
            &&& request.description == args.description@
            &&& request.from == maybe(args.from)
            &&& request.message == maybe(args.message)
            &&& request.uploads == args.uploads
            &&& secs_written(args.expires@) == Ok::<nat, DurationError>(request.expires.secs as nat)
            &&& request.expires.nanos == 0
            &&& request.pin is Some <==> args.pin is Some
            &&& args.pin matches Some(given) ==> if trimmed(given@).len() > 0 {
                request.pin->0 == trimmed(given@)
            } else {
                request.pin->0.len() == 6
            }
        },
{
    law_pins_have_six_digits(pin);
}

/// There is something to collect if and only if something was received; and of a request
/// that failed, the reason is told.
pub proof fn law_only_what_came_in_is_collected(status: RequestStatus)
    ensures
        hindrance(status) is None <==> status is Received,
        status matches RequestStatus::Failed { reason } ==> reason@.is_suffix_of(
            hindrance(status)->0,
        ) && reason@.is_suffix_of(state_text(status)),
        status matches RequestStatus::Received { name, size } ==> size_text(
            size as nat,
        ).is_suffix_of(state_text(status)) && has_text(state_text(status), name@),
{
    match status {
        RequestStatus::Failed { reason } => {
            let (why, state) = (hindrance(status)->0, state_text(status));
            assert(reason@ =~= why.subrange(why.len() - reason@.len(), why.len() as int));
            assert(reason@ =~= state.subrange(state.len() - reason@.len(), state.len() as int));
        },
        RequestStatus::Received { name, size } => {
            let state = state_text(status);
            let shown = size_text(size as nat);
            assert(shown =~= state.subrange(state.len() - shown.len(), state.len() as int));
            let at = "received · "@.len() as int;
            assert(state.subrange(at, at + name@.len()) =~= name@);
            assert(stands_at(state, name@, at));
        },
        RequestStatus::Waiting => {},
    }
}

/// A request is created as its arguments ask for, and its row shows what is asked for,
/// where it stands, and its id.
pub proof fn law_requests_are_created_and_shown(
    args: RequestArgs,
    config: Result<Config, String>,
    pin: [u8; 4],
    created: Result<CreateRequest, String>,
    term: Terminal,
    rec: RequestRecord,
    status: RequestStatus,
    row: String,
    hindered: Option<String>,
)
    requires
        call_ensures(create, (args, &config, &pin), created),
        call_ensures(request_row, (term, &rec, &status), row),
        call_ensures(get, (&status,), hindered),
    ensures
        created matches Ok(request) ==> request_of(args, config, pin@) == Ok::<
            CreateRequestView,
            Seq<char>,
        >(request@),
        created is Ok <==> request_of(args, config, pin@) is Ok,
        has_text(row@, rec.description@),
        has_text(row@, state_text(status)),
        dimmed(term, rec.id@).is_suffix_of(row@),
        hindered is None <==> status is Received,
{
    let (what, state, id) = (rec.description@, state_text(status), dimmed(term, rec.id@));
    let at = "  "@.len() as int;
    assert(row@.subrange(at, at + what.len()) =~= what);
    assert(stands_at(row@, what, at));
    let then = at + what.len() + at;
    assert(row@.subrange(then, then + state.len()) =~= state);
    assert(stands_at(row@, state, then));
    assert(id =~= row@.subrange(row@.len() - id.len(), row@.len() as int));
}

/// The note on a request says for how long it is open, and for how many uploads.
pub proof fn law_notes_say_what_is_asked(ttl: Duration, uploads: u32, note: String)
    requires
        call_ensures(request_note, (ttl, uploads), note),
    ensures
        note@ == "expires in "@ + in_words(ttl.secs as nat) + " · "@ + counted(
            uploads as nat,
            "upload"@,
        ),
{
    reveal_strlit("");
    reveal_strlit("s");
    reveal_strlit(" ");
    reveal_strlit("upload");
    reveal_strlit(" upload");
}

} // verus!
