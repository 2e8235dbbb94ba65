//! Scripts of `aws` calls, and walking one: what to do next, and how each reply
//! moves the walk on.

use vstd::prelude::*;

use crate::aws::{maybe, texts, Call, CallView, Reply, ReplyView, Verdict, VerdictView};

verus! {

/// An entry of a script.
pub enum Item {
    /// A step of this label begins.
    Begin(String),
    /// Run a call.
    Run(Call),
    /// The step of this label ends well.
    End(String),
}

/// What an entry says.
pub enum ItemView {
    Begin(Seq<char>),
    Run(CallView),
    End(Seq<char>),
}

impl View for Item {
    type V = ItemView;

    open spec fn view(&self) -> ItemView {
        match self {
            Item::Begin(label) => ItemView::Begin(label@),
            Item::Run(call) => ItemView::Run(call@),
            Item::End(label) => ItemView::End(label@),
        }
    }
}

/// A list of entries, walked in order.
pub struct Script {
    items: Vec<Item>,
}

/// What a script says.
pub struct ScriptView {
    pub items: Seq<ItemView>,
}

impl View for Script {
    type V = ScriptView;

    closed spec fn view(&self) -> ScriptView {
        ScriptView { items: self.items@.map_values(|item: Item| item@) }
    }
}

impl ScriptView {
    /// The script with nothing in it.
    pub open spec fn nothing() -> ScriptView {
        ScriptView { items: Seq::empty() }
    }

    /// Then a step begins.
    pub open spec fn begin(self, label: Seq<char>) -> ScriptView {
        ScriptView { items: self.items.push(ItemView::Begin(label)) }
    }

    /// Then a call is run.
    pub open spec fn run(self, call: CallView) -> ScriptView {
        ScriptView { items: self.items.push(ItemView::Run(call)) }
    }

    /// Then a step ends.
    pub open spec fn end(self, label: Seq<char>) -> ScriptView {
        ScriptView { items: self.items.push(ItemView::End(label)) }
    }

    /// Then a step of one call.
    pub open spec fn step(self, label: Seq<char>, call: CallView) -> ScriptView {
        self.begin(label).run(call).end(label)
    }
}

impl ScriptView {
    /// The last call, if there is one.
    pub open spec fn last_call(self) -> Option<CallView>
        decreases self.items.len(),
    {
        if self.items.len() == 0 {
            None
        } else {
            match self.items.last() {
                ItemView::Run(call) => Some(call),
                _ => (ScriptView { items: self.items.drop_last() }).last_call(),
            }
        }
    }

    /// What the script's last call holds against `reply`, no attempt being left;
    /// nothing where the script has no call.
    pub open spec fn objection(self, reply: ReplyView) -> Option<Seq<char>> {
        match self.last_call() {
            Some(call) => match call.judged(call.attempts, reply) {
                VerdictView::Failed(why) => Some(why),
                _ => None,
            },
            None => None,
        }
    }
}

impl Script {
    /// What the script's last call holds against `reply`, if anything.
    pub fn object(&self, reply: &Reply) -> (r: Option<String>)
        ensures
            maybe(r) == self@.objection(reply@),
    {
        let mut i: usize = self.items.len();
        assert(self@.items.take(i as int) =~= self@.items);
        while i > 0
            invariant
                i <= self.items@.len(),
                self@.items.len() == self.items@.len(),
                (ScriptView { items: self@.items.take(i as int) }).last_call()
                    == self@.last_call(),
            decreases i,
        {
            i -= 1;
            let ghost upto = self@.items.take(i + 1);
            proof {
                assert(upto.last() == self.items@[i as int]@);
                assert(upto.drop_last() =~= self@.items.take(i as int));
            }
            if let Item::Run(call) = &self.items[i] {
                return match call.judge(call.limit(), reply) {
                    Verdict::Failed(why) => Some(why),
                    _ => None,
                };
            }
        }
        None
    }

    /// The script with nothing in it.
    pub fn nothing() -> (r: Script)
        ensures
            r@ == ScriptView::nothing(),
    {
        let script = Script { items: Vec::new() };
        assert(script@.items =~= Seq::<ItemView>::empty());
        script
    }

    fn with(self, item: Item) -> (r: Script)
        ensures
            r@.items == self@.items.push(item@),
    {
        let mut script = self;
        script.items.push(item);
        assert(script@.items =~= self@.items.push(item@));
        script
    }

    /// Then a step begins.
    pub fn begin(self, label: &str) -> (r: Script)
        ensures
            r@ == self@.begin(label@),
    {
        self.with(Item::Begin(label.to_string()))
    }

    /// Then a call is run.
    pub fn run(self, call: Call) -> (r: Script)
        ensures
            r@ == self@.run(call@),
    {
        self.with(Item::Run(call))
    }

    /// Then a step ends.
    pub fn end(self, label: &str) -> (r: Script)
        ensures
            r@ == self@.end(label@),
    {
        self.with(Item::End(label.to_string()))
    }

    /// Then a step of one call.
    pub fn step(self, label: &str, call: Call) -> (r: Script)
        ensures
            r@ == self@.step(label@, call@),
    {
        self.begin(label).run(call).end(label)
    }
}

// ── walking ───────────────────────────────────────────────────────────────

/// A walk over a script: the entry it stands at, how often the call there has
/// been tried without success, and the step that is open.
pub struct Walk {
    script: Script,
    at: usize,
    attempt: u32,
    open: Option<String>,
}

/// What a walk is.
pub struct WalkView {
    pub items: Seq<ItemView>,
    pub at: nat,
    pub attempt: nat,
    pub open: Option<Seq<char>>,
}

impl View for Walk {
    type V = WalkView;

    closed spec fn view(&self) -> WalkView {
        WalkView {
            items: self.script@.items,
            at: self.at as nat,
            attempt: self.attempt as nat,
            open: maybe(self.open),
        }
    }
}

/// What a walk asks for next.
pub enum Todo {
    /// Show that a step begins.
    Begin(String),
    /// Run `aws` with these words and hand the reply back.
    Invoke(Vec<String>),
    /// Show that a step ended well.
    End(String),
    /// Nothing: the script is through.
    Rest,
}

/// What a demand says.
pub enum TodoView {
    Begin(Seq<char>),
    Invoke(Seq<Seq<char>>),
    End(Seq<char>),
    Rest,
}

impl View for Todo {
    type V = TodoView;

    open spec fn view(&self) -> TodoView {
        match self {
            Todo::Begin(label) => TodoView::Begin(label@),
            Todo::Invoke(words) => TodoView::Invoke(texts(words@)),
            Todo::End(label) => TodoView::End(label@),
            Todo::Rest => TodoView::Rest,
        }
    }
}

impl WalkView {
    /// The walk at the head of a script.
    pub open spec fn over(script: ScriptView, open: Option<Seq<char>>) -> WalkView {
        WalkView { items: script.items, at: 0, attempt: 0, open }
    }

    /// Every entry is behind.
    pub open spec fn through(self) -> bool {
        self.at >= self.items.len()
    }

    /// The walk stands at a call, so a reply is what it waits for.
    pub open spec fn waiting(self) -> bool {
        self.at < self.items.len() && self.items[self.at as int] is Run
    }

    /// The call that the walk waits for.
    pub open spec fn call(self) -> CallView {
        self.items[self.at as int]->Run_0
    }

    /// What the walk asks for next.
    pub open spec fn todo(self) -> TodoView {
        if self.through() {
            TodoView::Rest
        } else {
            match self.items[self.at as int] {
                ItemView::Begin(label) => TodoView::Begin(label),
                ItemView::Run(call) => TodoView::Invoke(call.words),
                ItemView::End(label) => TodoView::End(label),
            }
        }
    }

    /// The walk once it has asked: beginnings and endings are passed at once, a
    /// call is passed by its reply.
    pub open spec fn asked(self) -> WalkView {
        match self.todo() {
            TodoView::Begin(label) => WalkView { at: self.at + 1, open: Some(label), ..self },
            TodoView::End(label) => WalkView { at: self.at + 1, open: None, ..self },
            _ => self,
        }
    }

    /// The walk once it has heard the reply to its call.
    pub open spec fn told(self, reply: ReplyView) -> WalkView {
        match self.call().judged(self.attempt, reply) {
            VerdictView::Passed => WalkView { at: self.at + 1, attempt: 0, ..self },
            VerdictView::Again => WalkView { attempt: self.attempt + 1, ..self },
            VerdictView::Failed(_) => self,
        }
    }
}

impl Walk {
    /// A walk at the head of a script; `open` is the step that was left open.
    pub fn over(script: Script, open: Option<String>) -> (r: Walk)
        ensures
            r@ == WalkView::over(script@, maybe(open)),
    {
        Walk { script, at: 0, attempt: 0, open }
    }

    /// The step that is open.
    pub fn open(&self) -> (r: Option<String>)
        ensures
            maybe(r) == self@.open,
    {
        match &self.open {
            Some(label) => Some(label.clone()),
            None => None,
        }
    }

    /// What to do next.
    pub fn next(&mut self) -> (r: Todo)
        ensures
            r@ == old(self)@.todo(),
            final(self)@ == old(self)@.asked(),
            r is Invoke ==> final(self)@.waiting(),
            r is Rest <==> old(self)@.through(),
    {
        let at: usize = self.at;
        if at >= self.script.items.len() {
            return Todo::Rest;
        }
        match &self.script.items[at] {
            Item::Begin(label) => {
                let shown = label.clone();
                let kept = label.clone();
                self.open = Some(kept);
                self.at = at + 1;
                Todo::Begin(shown)
            },
            Item::Run(call) => Todo::Invoke(call.words()),
            Item::End(label) => {
                let shown = label.clone();
                self.open = None;
                self.at = at + 1;
                Todo::End(shown)
            },
        }
    }

    /// Hears the reply to the call that was asked for.
    pub fn hear(&mut self, reply: &Reply) -> (r: Verdict)
        requires
            old(self)@.waiting(),
        ensures
            r@ == old(self)@.call().judged(old(self)@.attempt, reply@),
            final(self)@ == old(self)@.told(reply@),
    {
        let at: usize = self.at;
        assert(at < self.script.items.len());
        let verdict = match &self.script.items[at] {
            Item::Run(call) => call.judge(self.attempt, reply),
            _ => Verdict::Passed,
        };
        match &verdict {
            Verdict::Passed => {
                self.at = at + 1;
                self.attempt = 0;
            },
            Verdict::Again => {
                self.attempt = self.attempt + 1;
            },
            Verdict::Failed(_) => {},
        }
        verdict
    }
}

/// A call is tried no more often than its `attempts` say: where a walk is told
/// to try again, the attempts gone by are still fewer.
pub proof fn law_attempts_are_bounded(walk: WalkView, reply: ReplyView)
    requires
        walk.waiting(),
        walk.call().judged(walk.attempt, reply) is Again,
    ensures
        walk.told(reply).waiting(),
        walk.told(reply).call() == walk.call(),
        walk.told(reply).attempt == walk.attempt + 1 < walk.call().attempts,
{
}

/// Entries are passed one by one and in order, and never without their reply:
/// asking passes a call by no entry, and hearing passes it by at most one.
pub proof fn law_calls_run_in_order(walk: WalkView, reply: ReplyView)
    ensures
        walk.asked().items == walk.items,
        walk.waiting() ==> walk.asked() == walk,
        walk.at <= walk.asked().at <= walk.at + 1,
        walk.told(reply).items == walk.items,
        walk.told(reply).at == walk.at + 1 <==> walk.call().judged(walk.attempt, reply) is Passed,
        walk.told(reply).at == walk.at <==> !(walk.call().judged(walk.attempt, reply) is Passed),
{
}

impl WalkView {
    /// The walk once it has asked for everything before the next call.
    pub open spec fn settled(self) -> WalkView
        decreases self.items.len() - self.at,
    {
        if self.through() || self.waiting() {
            self
        } else {
            self.asked().settled()
        }
    }
}

/// A walk so far: it stands somewhere, or a call failed. A reply to no call is no
/// walk.
pub enum WalkCourse {
    At(WalkView),
    Failed(Seq<char>),
    Astray,
}

/// The walk over a script that replies make.
pub open spec fn walk_course(script: ScriptView, replies: Seq<ReplyView>) -> WalkCourse
    decreases replies.len(),
{
    if replies.len() == 0 {
        WalkCourse::At(WalkView::over(script, None).settled())
    } else {
        match walk_course(script, replies.drop_last()) {
            WalkCourse::At(walk) => if !walk.waiting() {
                WalkCourse::Astray
            } else {
                match walk.call().judged(walk.attempt, replies.last()) {
                    VerdictView::Failed(why) => WalkCourse::Failed(why),
                    _ => WalkCourse::At(walk.told(replies.last()).settled()),
                }
            },
            ended => ended,
        }
    }
}

/// The `i`-th reply passed the call at `j`.
pub open spec fn passed_at(script: ScriptView, replies: Seq<ReplyView>, i: int, j: int) -> bool {
    &&& 0 <= i < replies.len()
    &&& walk_course(script, replies.take(i)) matches WalkCourse::At(walk) && walk.at == j
        && walk.waiting() && walk.call().judged(walk.attempt, replies[i]) is Passed
}

proof fn lemma_settled(walk: WalkView)
    ensures
        walk.settled().items == walk.items,
        walk.at <= walk.settled().at,
        forall|j: int|
            walk.at <= j < walk.settled().at ==> !(#[trigger] walk.items[j] is Run),
    decreases walk.items.len() - walk.at,
{
    if !walk.through() && !walk.waiting() {
        lemma_settled(walk.asked());
    }
}

/// A script gets through only if every call in it passed: whatever the walk has
/// come past, a reply passed it.
pub proof fn law_through_means_passed(script: ScriptView, replies: Seq<ReplyView>)
    ensures
        walk_course(script, replies) matches WalkCourse::At(walk) ==> {
            &&& walk.items == script.items
            &&& forall|j: int|
                0 <= j < walk.at && #[trigger] script.items[j] is Run ==> exists|i: int|
                    passed_at(script, replies, i, j)
        },
    decreases replies.len(),
{
    if replies.len() == 0 {
        lemma_settled(WalkView::over(script, None));
    } else {
        let earlier = replies.drop_last();
        law_through_means_passed(script, earlier);
        let n = replies.len() - 1;
        assert(replies.take(n) =~= earlier);
        if let WalkCourse::At(walk) = walk_course(script, earlier) {
            if walk.waiting() && !(walk.call().judged(walk.attempt, replies.last()) is Failed) {
                let next = walk.told(replies.last());
                lemma_settled(next);
                assert forall|j: int|
                    0 <= j < next.settled().at && #[trigger] script.items[j] is Run implies exists|
                    i: int,
                | passed_at(script, replies, i, j) by {
                    if j < walk.at {
                        let i = choose|i: int| passed_at(script, earlier, i, j);
                        assert(earlier.take(i) =~= replies.take(i));
                        assert(passed_at(script, replies, i, j));
                    } else if j < next.at {
                        assert(passed_at(script, replies, n, j));
                    }
                }
            }
        }
    }
}

/// The last call is the one behind which there is no other.
proof fn lemma_last_call(script: ScriptView, k: int)
    requires
        0 <= k <= script.items.len(),
        k > 0 ==> script.items[k - 1] is Run,
        forall|j: int| k <= j < script.items.len() ==> !(#[trigger] script.items[j] is Run),
    ensures
        k > 0 ==> script.last_call() == Some(script.items[k - 1]->Run_0),
        k == 0 ==> script.last_call() is None,
    decreases script.items.len(),
{
    if k < script.items.len() {
        let shorter = ScriptView { items: script.items.drop_last() };
        assert(!(script.items.last() is Run));
        lemma_last_call(shorter, k);
    }
}

/// What a walk ends with, its script has nothing against: a walk that got through
/// heard, last of all, a reply that passed the script's last call.
pub proof fn law_walks_end_well(script: ScriptView, replies: Seq<ReplyView>)
    requires
        walk_course(script, replies) matches WalkCourse::At(walk) && walk.through(),
    ensures
        script.last_call() is Some ==> replies.len() > 0,
        script.objection(replies.last()) is None,
{
    if replies.len() == 0 {
        let head = WalkView::over(script, None);
        lemma_settled(head);
        assert forall|j: int| 0 <= j < script.items.len() implies !(
        #[trigger] script.items[j] is Run) by {
            assert(head.items[j] == script.items[j]);
        }
        lemma_last_call(script, 0);
    } else {
        law_through_means_passed(script, replies.drop_last());
        if let WalkCourse::At(walk) = walk_course(script, replies.drop_last()) {
            let next = walk.told(replies.last());
            lemma_settled(next);
            if walk.call().judged(walk.attempt, replies.last()) is Again {
                assert(next.waiting());
                assert(next.settled() == next);
            }
            assert forall|j: int| walk.at + 1 <= j < script.items.len() implies !(
            #[trigger] script.items[j] is Run) by {
                assert(next.items[j] == script.items[j]);
            }
            lemma_last_call(script, walk.at as int + 1);
        }
    }
}

/// Every call of the script was passed by a reply.
pub open spec fn every_call_passed(script: ScriptView, replies: Seq<ReplyView>) -> bool {
    forall|j: int|
        0 <= j < script.items.len() && #[trigger] script.items[j] is Run ==> exists|i: int|
            passed_at(script, replies, i, j)
}

/// `last` is what a walk over the script ended with, having heard these replies.
pub open spec fn walked(script: ScriptView, replies: Seq<ReplyView>, last: ReplyView) -> bool {
    &&& walk_course(script, replies) matches WalkCourse::At(walk) && walk.through()
    &&& replies.len() > 0 ==> last == replies.last()
}

/// A walk that ended has passed every call of its script.
pub proof fn law_walked_means_passed(script: ScriptView, replies: Seq<ReplyView>, last: ReplyView)
    requires
        walked(script, replies, last),
    ensures
        every_call_passed(script, replies),
        script.objection(last) is None,
{
    law_through_means_passed(script, replies);
    law_walks_end_well(script, replies);
}

// ── what a script asks for ────────────────────────────────────────────────

impl ScriptView {
    /// Of the calls in the script, `call` is the only one of this operation.
    pub open spec fn sole(self, service: Seq<char>, operation: Seq<char>, call: CallView) -> bool {
        &&& self.items.contains(ItemView::Run(call))
        &&& call.calls(service, operation)
        &&& forall|j: int|
            0 <= j < self.items.len() && (#[trigger] self.items[j] matches ItemView::Run(other)
                && other.calls(service, operation)) ==> self.items[j] == ItemView::Run(call)
    }

    /// The script has one call of this operation.
    pub open spec fn asks(self, service: Seq<char>, operation: Seq<char>) -> bool {
        exists|call: CallView| self.sole(service, operation, call)
    }

    /// The script's call of this operation.
    pub open spec fn call_of(self, service: Seq<char>, operation: Seq<char>) -> CallView {
        choose|call: CallView| self.sole(service, operation, call)
    }
}

/// What stands at `k`, where nothing else is of its operation, is the script's call of
/// that operation.
pub proof fn lemma_sole(script: ScriptView, service: Seq<char>, operation: Seq<char>, k: int)
    requires
        0 <= k < script.items.len(),
        script.items[k] matches ItemView::Run(call) && call.calls(service, operation),
        forall|j: int|
            0 <= j < script.items.len() && j != k ==> !(#[trigger] script.items[j] matches ItemView::Run(
                other,
            ) && other.calls(service, operation)),
    ensures
        script.asks(service, operation),
        script.call_of(service, operation) == script.items[k]->Run_0,
{
    let call = script.items[k]->Run_0;
    assert(script.items[k] == ItemView::Run(call));
    assert(script.sole(service, operation, call));
    let chosen = script.call_of(service, operation);
    assert(script.sole(service, operation, chosen));
    let j = choose|j: int|
        0 <= j < script.items.len() && script.items[j] == ItemView::Run(chosen);
    assert(script.items[j] == ItemView::Run(call));
}

} // verus!
