//! Calls of the `aws` command line: how a call is worded, what a reply to it
//! means, and scripts of calls that are walked one reply at a time.

use vstd::prelude::*;

use crate::search::{contains, has_text};
use crate::text::{trim, trimmed};

verus! {

// ── the words of a call ───────────────────────────────────────────────────

/// What a list of strings says.
pub open spec fn texts(words: Seq<String>) -> Seq<Seq<char>> {
    words.map_values(|w: String| w@)
}

proof fn lemma_texts_push(words: Seq<String>, word: String)
    ensures
        texts(words.push(word)) == texts(words).push(word@),
{
    assert(texts(words.push(word)) =~= texts(words).push(word@));
}

/// What an optional string says.
pub open spec fn maybe(s: Option<String>) -> Option<Seq<char>> {
    match s {
        Some(s) => Some(s@),
        None => None,
    }
}

/// One of `needles` stands somewhere in `hay`.
pub open spec fn has_any(hay: Seq<char>, needles: Seq<Seq<char>>) -> bool {
    exists|i: int| 0 <= i < needles.len() && #[trigger] has_text(hay, needles[i])
}

/// Does any of `needles` stand in `hay`?
fn contains_any(hay: &str, needles: &Vec<String>) -> (r: bool)
    ensures
        r == has_any(hay@, texts(needles@)),
{
    let mut i: usize = 0;
    while i < needles.len()
        invariant
            i <= needles.len(),
            forall|j: int| 0 <= j < i ==> !#[trigger] has_text(hay@, texts(needles@)[j]),
        decreases needles.len() - i,
    {
        if contains(hay, needles[i].as_str()) {
            assert(has_text(hay@, texts(needles@)[i as int]));
            return true;
        }
        i += 1;
    }
    false
}

/// The words with one space between neighbours.
pub open spec fn joined(words: Seq<Seq<char>>) -> Seq<char>
    decreases words.len(),
{
    if words.len() == 0 {
        Seq::empty()
    } else if words.len() == 1 {
        words[0]
    } else {
        joined(words.drop_last()) + " "@ + words.last()
    }
}

/// Joins words with single spaces.
pub fn join(words: &Vec<String>) -> (r: String)
    ensures
        r@ == joined(texts(words@)),
{
    let mut line = String::new();
    let mut i: usize = 0;
    while i < words.len()
        invariant
            i <= words.len(),
            line@ == joined(texts(words@).take(i as int)),
        decreases words.len() - i,
    {
        let ghost so_far = texts(words@).take(i as int);
        let ghost more = texts(words@).take(i + 1);
        assert(more.drop_last() =~= so_far);
        if i > 0 {
            line = line.concat(" ");
        }
        line = line.concat(words[i].as_str());
        assert(line@ =~= joined(more));
        i += 1;
    }
    assert(texts(words@).take(words.len() as int) =~= texts(words@));
    line
}

// ── calls and replies ─────────────────────────────────────────────────────

/// What came back from running `aws`.
pub enum Reply {
    /// It ran.
    Ran { success: bool, stdout: Vec<u8>, stderr: String },
    /// It could not be started.
    NotRun(String),
}

/// What a reply says.
pub enum ReplyView {
    Ran { success: bool, stdout: Seq<u8>, stderr: Seq<char> },
    NotRun(Seq<char>),
}

impl View for Reply {
    type V = ReplyView;

    open spec fn view(&self) -> ReplyView {
        match self {
            Reply::Ran { success, stdout, stderr } => ReplyView::Ran {
                success: *success,
                stdout: stdout@,
                stderr: stderr@,
            },
            Reply::NotRun(why) => ReplyView::NotRun(why@),
        }
    }
}

impl ReplyView {
    /// The command ran and exited with success.
    pub open spec fn succeeded(self) -> bool {
        self matches ReplyView::Ran { success, .. } && success
    }

    /// What it printed; nothing where it did not run.
    pub open spec fn output(self) -> Seq<u8> {
        match self {
            ReplyView::Ran { stdout, .. } => stdout,
            ReplyView::NotRun(_) => Seq::empty(),
        }
    }
}

impl Reply {
    /// What it printed; nothing where it did not run.
    pub fn output(&self) -> (r: &[u8])
        ensures
            r@ == self@.output(),
    {
        match self {
            Reply::Ran { stdout, .. } => stdout.as_slice(),
            Reply::NotRun(_) => {
                let none: &[u8] = &[];
                assert(none@ =~= Seq::<u8>::empty());
                none
            },
        }
    }

    /// Did the command run and exit with success?
    pub fn succeeded(&self) -> (r: bool)
        ensures
            r == self@.succeeded(),
    {
        match self {
            Reply::Ran { success, .. } => *success,
            Reply::NotRun(_) => false,
        }
    }
}

/// How the failure of a call is worded.
pub enum Complaint {
    /// `aws <words> failed: <stderr>`.
    Command,
    /// `<text>: <stderr>`.
    Saying(String),
    /// Like `Saying`, and a call that could not be started is worded so too.
    Within(String),
    /// Like `Saying`, and a call that could not be started is named by `call`, not
    /// by its words.
    Named { call: String, text: String },
    /// A failed exit is not a failure: whoever reads the reply decides.
    Exit,
    /// Nothing about the call is a failure.
    Nothing,
}

/// What a complaint says.
pub enum ComplaintView {
    Command,
    Saying(Seq<char>),
    Within(Seq<char>),
    Named { call: Seq<char>, text: Seq<char> },
    Exit,
    Nothing,
}

impl View for Complaint {
    type V = ComplaintView;

    open spec fn view(&self) -> ComplaintView {
        match self {
            Complaint::Command => ComplaintView::Command,
            Complaint::Saying(text) => ComplaintView::Saying(text@),
            Complaint::Within(text) => ComplaintView::Within(text@),
            Complaint::Named { call, text } => ComplaintView::Named { call: call@, text: text@ },
            Complaint::Exit => ComplaintView::Exit,
            Complaint::Nothing => ComplaintView::Nothing,
        }
    }
}

/// A call of `aws`: its words, the texts on stderr under which a failed exit
/// still counts as done, the text under which it is tried again and how often it
/// is tried in all, and how a failure is worded.
pub struct Call {
    words: Vec<String>,
    tolerated: Vec<String>,
    retried_on: Option<String>,
    attempts: u32,
    complaint: Complaint,
}

/// What a call says.
pub struct CallView {
    pub words: Seq<Seq<char>>,
    pub tolerated: Seq<Seq<char>>,
    pub retried_on: Option<Seq<char>>,
    pub attempts: nat,
    pub complaint: ComplaintView,
}

impl View for Call {
    type V = CallView;

    closed spec fn view(&self) -> CallView {
        CallView {
            words: texts(self.words@),
            tolerated: texts(self.tolerated@),
            retried_on: maybe(self.retried_on),
            attempts: self.attempts as nat,
            complaint: self.complaint@,
        }
    }
}

impl CallView {
    /// `aws <service> <operation>`, which has to succeed, tried once.
    pub open spec fn aws(service: Seq<char>, operation: Seq<char>) -> CallView {
        CallView {
            words: Seq::empty().push(service).push(operation),
            tolerated: Seq::empty(),
            retried_on: None,
            attempts: 1,
            complaint: ComplaintView::Command,
        }
    }

    /// One more word.
    pub open spec fn word(self, word: Seq<char>) -> CallView {
        CallView { words: self.words.push(word), ..self }
    }

    /// An option and its value.
    pub open spec fn option(self, name: Seq<char>, value: Seq<char>) -> CallView {
        CallView { words: self.words.push(name).push(value), ..self }
    }

    /// Done also where stderr holds `text`.
    pub open spec fn tolerating(self, text: Seq<char>) -> CallView {
        CallView { tolerated: self.tolerated.push(text), ..self }
    }

    /// Tried again where stderr holds `text`, up to `attempts` times in all.
    pub open spec fn retrying(self, text: Seq<char>, attempts: nat) -> CallView {
        CallView { retried_on: Some(text), attempts, ..self }
    }

    /// A failure is worded by `complaint`.
    pub open spec fn complaining(self, complaint: ComplaintView) -> CallView {
        CallView { complaint, ..self }
    }
}

impl Call {
    /// `aws <service> <operation>`, which has to succeed, tried once.
    pub fn aws(service: &str, operation: &str) -> (r: Call)
        ensures
            r@ == CallView::aws(service@, operation@),
    {
        let mut words: Vec<String> = Vec::new();
        words.push(service.to_string());
        words.push(operation.to_string());
        let call = Call {
            words,
            tolerated: Vec::new(),
            retried_on: None,
            attempts: 1,
            complaint: Complaint::Command,
        };
        assert(call@.words =~= CallView::aws(service@, operation@).words);
        assert(call@.tolerated =~= Seq::<Seq<char>>::empty());
        call
    }

    /// One more word.
    pub fn word(self, word: &str) -> (r: Call)
        ensures
            r@ == self@.word(word@),
    {
        let mut call = self;
        call.words.push(word.to_string());
        assert(call@.words =~= self@.word(word@).words);
        call
    }

    /// An option and its value.
    pub fn option(self, name: &str, value: &str) -> (r: Call)
        ensures
            r@ == self@.option(name@, value@),
    {
        let mut call = self;
        call.words.push(name.to_string());
        call.words.push(value.to_string());
        assert(call@.words =~= self@.option(name@, value@).words);
        call
    }

    /// Done also where stderr holds `text`.
    pub fn tolerating(self, text: &str) -> (r: Call)
        ensures
            r@ == self@.tolerating(text@),
    {
        let mut call = self;
        call.tolerated.push(text.to_string());
        assert(call@.tolerated =~= self@.tolerating(text@).tolerated);
        call
    }

    /// Tried again where stderr holds `text`, up to `attempts` times in all.
    pub fn retrying(self, text: &str, attempts: u32) -> (r: Call)
        ensures
            r@ == self@.retrying(text@, attempts as nat),
    {
        let mut call = self;
        call.retried_on = Some(text.to_string());
        call.attempts = attempts;
        call
    }

    /// A failure is worded by `complaint`.
    pub fn complaining(self, complaint: Complaint) -> (r: Call)
        ensures
            r@ == self@.complaining(complaint@),
    {
        let mut call = self;
        call.complaint = complaint;
        call
    }

    /// A failure is worded `<text>: <stderr>`.
    pub fn saying(self, text: &str) -> (r: Call)
        ensures
            r@ == self@.complaining(ComplaintView::Saying(text@)),
    {
        self.complaining(Complaint::Saying(text.to_string()))
    }
}

/// The command line of a call: the profile, where one is set, then the words.
pub open spec fn command_line(
    profile: Option<Seq<char>>,
    words: Seq<Seq<char>>,
) -> Seq<Seq<char>> {
    match profile {
        Some(p) => seq!["--profile"@, p] + words,
        None => words,
    }
}

/// The arguments that `aws` is run with.
pub fn arguments(profile: &Option<String>, words: &Vec<String>) -> (r: Vec<String>)
    ensures
        texts(r@) == command_line(maybe(*profile), texts(words@)),
{
    let mut line: Vec<String> = Vec::new();
    if let Some(p) = profile {
        line.push("--profile".to_string());
        line.push(p.clone());
    }
    let ghost head = texts(line@);
    let mut i: usize = 0;
    while i < words.len()
        invariant
            i <= words.len(),
            texts(line@) == head + texts(words@).take(i as int),
        decreases words.len() - i,
    {
        let ghost before = line@;
        line.push(words[i].clone());
        proof {
            lemma_texts_push(before, words@[i as int]);
            assert(texts(words@).take(i + 1) =~= texts(words@).take(i as int).push(
                words@[i as int]@,
            ));
            assert(texts(line@) =~= head + texts(words@).take(i + 1));
        }
        i += 1;
    }
    assert(texts(line@) =~= command_line(maybe(*profile), texts(words@)));
    line
}

// ── what a reply means ────────────────────────────────────────────────────

/// What a reply to a call means.
pub enum Verdict {
    /// The call is done.
    Passed,
    /// Try it again.
    Again,
    /// The call failed, and this is what to say.
    Failed(String),
}

/// What a verdict says.
pub enum VerdictView {
    Passed,
    Again,
    Failed(Seq<char>),
}

impl View for Verdict {
    type V = VerdictView;

    open spec fn view(&self) -> VerdictView {
        match self {
            Verdict::Passed => VerdictView::Passed,
            Verdict::Again => VerdictView::Again,
            Verdict::Failed(message) => VerdictView::Failed(message@),
        }
    }
}

impl CallView {
    /// A failed exit with this on stderr counts as done.
    pub open spec fn tolerates(self, stderr: Seq<char>) -> bool {
        has_any(stderr, self.tolerated)
    }

    /// A failed exit with this on stderr, `attempt` earlier ones gone by, is
    /// tried again.
    pub open spec fn retries(self, stderr: Seq<char>, attempt: nat) -> bool {
        self.retried_on matches Some(text) && has_text(stderr, text) && attempt + 1 < self.attempts
    }

    /// What `reply` means, `attempt` earlier attempts gone by.
    pub open spec fn judged(self, attempt: nat, reply: ReplyView) -> VerdictView {
        match reply {
            ReplyView::NotRun(why) => {
                let not_run = "running aws "@ + joined(self.words) + ": "@ + why;
                match self.complaint {
                    ComplaintView::Nothing => VerdictView::Passed,
                    ComplaintView::Within(text) => VerdictView::Failed(text + ": "@ + not_run),
                    ComplaintView::Named { call, text: _ } => VerdictView::Failed(
                        "running aws "@ + call + ": "@ + why,
                    ),
                    _ => VerdictView::Failed(not_run),
                }
            },
            ReplyView::Ran { success, stdout, stderr } => if success || self.tolerates(stderr) {
                VerdictView::Passed
            } else if self.retries(stderr, attempt) {
                VerdictView::Again
            } else {
                match self.complaint {
                    ComplaintView::Command => VerdictView::Failed(
                        "aws "@ + joined(self.words) + " failed: "@ + trimmed(stderr),
                    ),
                    ComplaintView::Saying(text) => VerdictView::Failed(
                        text + ": "@ + trimmed(stderr),
                    ),
                    ComplaintView::Within(text) => VerdictView::Failed(
                        text + ": "@ + trimmed(stderr),
                    ),
                    ComplaintView::Named { call: _, text } => VerdictView::Failed(
                        text + ": "@ + trimmed(stderr),
                    ),
                    ComplaintView::Exit => VerdictView::Passed,
                    ComplaintView::Nothing => VerdictView::Passed,
                }
            },
        }
    }
}

impl Call {
    /// The words of the call.
    pub fn words(&self) -> (r: Vec<String>)
        ensures
            texts(r@) == self@.words,
    {
        let mut words: Vec<String> = Vec::new();
        let mut i: usize = 0;
        while i < self.words.len()
            invariant
                i <= self.words.len(),
                texts(words@) == texts(self.words@).take(i as int),
            decreases self.words.len() - i,
        {
            let ghost before = words@;
            words.push(self.words[i].clone());
            proof {
                lemma_texts_push(before, self.words@[i as int]);
                assert(texts(self.words@).take(i + 1) =~= texts(self.words@).take(i as int).push(
                    self.words@[i as int]@,
                ));
            }
            i += 1;
        }
        assert(texts(self.words@).take(self.words@.len() as int) =~= texts(self.words@));
        words
    }

    /// How often the call may be attempted.
    pub fn limit(&self) -> (r: u32)
        ensures
            r == self@.attempts,
    {
        self.attempts
    }

    /// What `reply` means, `attempt` earlier attempts gone by. A retry is granted
    /// only while one is left.
    pub fn judge(&self, attempt: u32, reply: &Reply) -> (r: Verdict)
        ensures
            r@ == self@.judged(attempt as nat, reply@),
            r is Again ==> attempt + 1 < self@.attempts <= u32::MAX,
    {
        match reply {
            Reply::NotRun(why) => {
                let not_run = "running aws ".to_string().concat(
                    join(&self.words).as_str(),
                ).concat(": ").concat(why.as_str());
                match &self.complaint {
                    Complaint::Nothing => Verdict::Passed,
                    Complaint::Within(text) => Verdict::Failed(
                        text.clone().concat(": ").concat(not_run.as_str()),
                    ),
                    Complaint::Named { call, text: _ } => Verdict::Failed(
                        "running aws ".to_string().concat(call.as_str()).concat(": ").concat(
                            why.as_str(),
                        ),
                    ),
                    _ => Verdict::Failed(not_run),
                }
            },
            Reply::Ran { success, stdout: _, stderr } => {
                if *success || contains_any(stderr.as_str(), &self.tolerated) {
                    return Verdict::Passed;
                }
                if let Some(text) = &self.retried_on {
                    if contains(stderr.as_str(), text.as_str()) && self.attempts > 0 && attempt
                        < self.attempts - 1 {
                        return Verdict::Again;
                    }
                }
                match &self.complaint {
                    Complaint::Command => Verdict::Failed(
                        "aws ".to_string().concat(join(&self.words).as_str()).concat(
                            " failed: ",
                        ).concat(trim(stderr.as_str())),
                    ),
                    Complaint::Saying(text) => Verdict::Failed(
                        text.clone().concat(": ").concat(trim(stderr.as_str())),
                    ),
                    Complaint::Within(text) => Verdict::Failed(
                        text.clone().concat(": ").concat(trim(stderr.as_str())),
                    ),
                    Complaint::Named { call: _, text } => Verdict::Failed(
                        text.clone().concat(": ").concat(trim(stderr.as_str())),
                    ),
                    Complaint::Exit => Verdict::Passed,
                    Complaint::Nothing => Verdict::Passed,
                }
            },
        }
    }
}

// ── what a call asks for ──────────────────────────────────────────────────

/// At `i`, the words give the option of this name this value.
pub open spec fn given_at(words: Seq<Seq<char>>, i: int, name: Seq<char>, value: Seq<char>) -> bool {
    2 <= i < words.len() - 1 && words[i] == name && words[i + 1] == value
}

impl CallView {
    /// It is a call of this operation of this service.
    pub open spec fn calls(self, service: Seq<char>, operation: Seq<char>) -> bool {
        self.words.len() >= 2 && self.words[0] == service && self.words[1] == operation
    }

    /// It gives the option of this name this value.
    pub open spec fn gives(self, name: Seq<char>, value: Seq<char>) -> bool {
        exists|i: int| #[trigger] given_at(self.words, i, name, value)
    }
}

impl CallView {
    /// What a failed exit with this on stderr means, so many earlier ones gone by.
    pub open spec fn failing(self, attempt: nat, stderr: Seq<char>) -> VerdictView {
        self.judged(attempt, ReplyView::Ran { success: false, stdout: Seq::empty(), stderr })
    }

    /// A failed exit counts as done where stderr holds this text, and only there.
    pub open spec fn done_by(self, text: Seq<char>) -> bool {
        forall|attempt: nat, stderr: Seq<char>| #[trigger]
            self.failing(attempt, stderr) is Passed <==> has_text(stderr, text)
    }

    /// No failed exit counts as done.
    pub open spec fn has_to_succeed(self) -> bool {
        forall|attempt: nat, stderr: Seq<char>| !(#[trigger] self.failing(attempt, stderr) is Passed)
    }

    /// A failed exit that does not count as done is tried again where stderr holds this
    /// text, and only there, so often in all.
    pub open spec fn waits_out(self, text: Seq<char>, attempts: nat) -> bool {
        forall|attempt: nat, stderr: Seq<char>|
            {
                let verdict = #[trigger] self.failing(attempt, stderr);
                !(verdict is Passed) ==> (verdict is Again <==> has_text(stderr, text) && attempt + 1
                    < attempts)
            }
    }
}

/// A call that tolerates one text is done by that one.
pub proof fn lemma_done_by(call: CallView, text: Seq<char>)
    requires
        call.tolerated.len() == 1,
        call.tolerated[0] == text,
        call.complaint is Command || call.complaint is Saying,
    ensures
        call.done_by(text),
{
    assert forall|attempt: nat, stderr: Seq<char>| #[trigger]
        call.failing(attempt, stderr) is Passed <==> has_text(stderr, text) by {
        if has_text(stderr, text) {
            assert(has_text(stderr, call.tolerated[0]));
        }
    }
}

// ── laws ──────────────────────────────────────────────────────────────────

/// `aws` gets the words of the call as they are, under the profile that is set and
/// under none otherwise.
pub proof fn law_calls_run_under_the_profile(
    profile: Option<Seq<char>>,
    words: Seq<Seq<char>>,
)
    ensures
        ({
            let line = command_line(profile, words);
            &&& words.is_suffix_of(line)
            &&& profile is None ==> line == words
            &&& profile matches Some(p) ==> line.len() == words.len() + 2 && line[0] == "--profile"@
                && line[1] == p
        }),
{
    let line = command_line(profile, words);
    assert(words =~= line.subrange(line.len() - words.len(), line.len() as int));
}

/// A call is done only if `aws` exited with success, or complained of what counts as
/// done, or nobody minds the exit; and one that failed says what `aws` said.
pub proof fn law_failures_are_told(call: CallView, attempt: nat, reply: ReplyView)
    ensures
        reply.succeeded() ==> call.judged(attempt, reply) is Passed,
        !(call.complaint is Nothing) && !(call.complaint is Exit) && call.judged(
            attempt,
            reply,
        ) is Passed ==> (reply matches ReplyView::Ran { success, stderr, .. } && (success || exists|
            i: int,
        |
            0 <= i < call.tolerated.len() && #[trigger] has_text(stderr, call.tolerated[i]))),
        call.judged(attempt, reply) matches VerdictView::Failed(why) ==> match reply {
            ReplyView::NotRun(reason) => reason.is_suffix_of(why),
            ReplyView::Ran { success, stderr, .. } => !success && trimmed(stderr).is_suffix_of(
                why,
            ),
        },
        call.judged(attempt, reply) is Again ==> (reply matches ReplyView::Ran { success, stderr, ..
        } && !success && call.retried_on is Some && has_text(stderr, call.retried_on->0)),
{
    if let VerdictView::Failed(why) = call.judged(attempt, reply) {
        match reply {
            ReplyView::NotRun(reason) => {
                assert(reason =~= why.subrange(why.len() - reason.len(), why.len() as int));
            },
            ReplyView::Ran { stderr, .. } => {
                let told = trimmed(stderr);
                assert(told =~= why.subrange(why.len() - told.len(), why.len() as int));
            },
        }
    }
}

/// The words that `aws` is run with are those of the call, under the profile.
pub proof fn law_aws_gets_the_words(profile: Option<String>, words: Vec<String>, line: Vec<String>)
    requires
        call_ensures(arguments, (&profile, &words), line),
    ensures
        texts(words@).is_suffix_of(texts(line@)),
        profile is None ==> texts(line@) == texts(words@),
        profile is Some ==> line@.len() == words@.len() + 2 && line@[0]@ == "--profile"@
            && line@[1]@ == profile->0@,
{
    law_calls_run_under_the_profile(maybe(profile), texts(words@));
    if profile is Some {
        assert(texts(line@)[0] == line@[0]@ && texts(line@)[1] == line@[1]@);
    }
}

} // verus!
