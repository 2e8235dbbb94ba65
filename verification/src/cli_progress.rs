//! Progress as the command line shows it: dotted steps, and a bar for bytes.

use vstd::prelude::*;

use crate::aws::maybe;
use crate::ui::{
    field, field_line, human_size, size_text, status, status_line, step_begin, step_closing,
    step_end, step_opening, Progress, ProgressView, Terminal,
};

verus! {

/// Progress that is being shown.
pub struct CliProgress {
    /// The bar's label: what the bytes are being done to.
    bytes_label: String,
    /// The step that is open.
    pending: Option<String>,
    bar: Option<Progress>,
}

/// Progress that is being shown.
pub struct CliProgressView {
    pub bytes_label: Seq<char>,
    pub pending: Option<Seq<char>>,
    pub bar: Option<ProgressView>,
}

impl View for CliProgress {
    type V = CliProgressView;

    closed spec fn view(&self) -> CliProgressView {
        CliProgressView {
            bytes_label: self.bytes_label@,
            pending: maybe(self.pending),
            bar: match self.bar {
                Some(bar) => Some(bar@),
                None => None,
            },
        }
    }
}

/// A bar for so many bytes.
pub open spec fn bar_for(label: Seq<char>, total: nat) -> ProgressView {
    ProgressView {
        label,
        total: if total == 0 {
            1
        } else {
            total
        },
        dots: 12,
    }
}

impl CliProgressView {
    /// The progress once `uploaded` of `total` bytes are through: a bar is opened
    /// by the first that is not the last, and closed by the last.
    pub open spec fn counted(self, uploaded: nat, total: nat) -> CliProgressView {
        if uploaded >= total {
            CliProgressView { bar: None, ..self }
        } else if self.bar is Some {
            self
        } else {
            CliProgressView { bar: Some(bar_for(self.bytes_label, total)), ..self }
        }
    }

    /// What is shown then. An upload's bar is followed by the size.
    pub open spec fn shown(self, term: Terminal, uploaded: nat, total: nat) -> Seq<char> {
        if uploaded >= total {
            match self.bar {
                None => Seq::empty(),
                Some(bar) => bar.drawn(term, bar.total) + (if term.tty {
                    "\n"@
                } else {
                    Seq::empty()
                }) + (if self.bytes_label == "uploading"@ {
                    status_line(term, "uploaded"@, size_text(total))
                } else {
                    Seq::empty()
                }),
            }
        } else {
            match self.bar {
                Some(bar) => bar.drawn(term, uploaded),
                None => bar_for(self.bytes_label, total).drawn(term, 0) + bar_for(
                    self.bytes_label,
                    total,
                ).drawn(term, uploaded),
            }
        }
    }
}

impl CliProgress {
    /// Progress of which nothing is shown yet.
    pub fn new(bytes_label: &str) -> (r: CliProgress)
        ensures
            r@ == (CliProgressView { bytes_label: bytes_label@, pending: None, bar: None }),
    {
        CliProgress { bytes_label: bytes_label.to_string(), pending: None, bar: None }
    }

    /// Closes a step that is still open with a ✗: what to show after a failure.
    pub fn fail_pending(&mut self, term: Terminal) -> (r: String)
        ensures
            final(self)@ == (CliProgressView { pending: None, ..old(self)@ }),
            r@ == (match old(self)@.pending {
                Some(label) => step_closing(term, label, false),
                None => Seq::empty(),
            }),
    {
        let shown = match &self.pending {
            Some(label) => step_end(term, label.as_str(), false),
            None => String::new(),
        };
        self.pending = None;
        shown
    }

    /// Opens a step.
    pub fn step(&mut self, term: Terminal, label: &str) -> (r: String)
        ensures
            final(self)@ == (CliProgressView { pending: Some(label@), ..old(self)@ }),
            r@ == step_opening(term, label@),
    {
        self.pending = Some(label.to_string());
        step_begin(term, label)
    }

    /// Closes a step with a ✓.
    pub fn done(&mut self, term: Terminal, label: &str) -> (r: String)
        ensures
            final(self)@ == (CliProgressView { pending: None, ..old(self)@ }),
            r@ == step_closing(term, label@, true),
    {
        self.pending = None;
        step_end(term, label, true)
    }

    /// Shows a value under its label.
    pub fn field(&self, term: Terminal, key: &str, value: &str) -> (r: String)
        ensures
            r@ == field_line(term, key@, value@),
    {
        field(term, key, value)
    }

    /// Shows that `uploaded` of `total` bytes are through.
    pub fn bytes(&mut self, term: Terminal, uploaded: u64, total: u64) -> (r: String)
        ensures
            final(self)@ == old(self)@.counted(uploaded as nat, total as nat),
            r@ == old(self)@.shown(term, uploaded as nat, total as nat),
    {
        if uploaded >= total {
            let shown = match &self.bar {
                Some(bar) => {
                    let last = bar.finish(term);
                    if self.bytes_label == "uploading".to_string() {
                        last.concat(status(term, "uploaded", human_size(total).as_str()).as_str())
                    } else {
                        assert(last@ + Seq::<char>::empty() =~= last@);
                        last
                    }
                },
                None => String::new(),
            };
            self.bar = None;
            return shown;
        }
        match &self.bar {
            Some(bar) => bar.set(term, uploaded),
            None => {
                let (bar, first) = Progress::new(term, self.bytes_label.as_str(), total);
                let shown = first.concat(bar.set(term, uploaded).as_str());
                self.bar = Some(bar);
                shown
            },
        }
    }
}

} // verus!
