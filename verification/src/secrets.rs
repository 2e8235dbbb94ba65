//! dove's scoped credentials: the access key of the least-privilege user that
//! `dove provision` mints, and the access gate's secret.

use vstd::prelude::*;

use crate::aws::maybe;
use crate::place::Place;
use crate::search::{has_text, stands_at};
use crate::toml_text::{
    add_entry, apart, bare, entries, held_by, holds, is_writable, is_writable_if_any, lemma_apart,
    lemma_entry_added, lines, optional, permit, read_toml, require, required, toml_read,
    toml_written, with_entry, writable, writable_if_any, write_toml, Entry, EntryView, HeldView,
};

verus! {

/// What dove signs with.
#[derive(Debug, PartialEq)]
pub struct Secrets {
    pub access_key_id: String,
    pub secret_access_key: String,
    /// The key that mints unforgeable share ids, in hex; full tier only.
    pub gate_secret: Option<String>,
}

/// What dove signs with.
pub struct SecretsView {
    pub access_key_id: Seq<char>,
    pub secret_access_key: Seq<char>,
    pub gate_secret: Option<Seq<char>>,
}

impl View for Secrets {
    type V = SecretsView;

    open spec fn view(&self) -> SecretsView {
        SecretsView {
            access_key_id: self.access_key_id@,
            secret_access_key: self.secret_access_key@,
            gate_secret: maybe(self.gate_secret),
        }
    }
}

impl SecretsView {
    /// The entries that secrets are written as: what is there, field by field.
    pub open spec fn entries(self) -> Seq<EntryView> {
        with_entry(
            with_entry(
                with_entry(Seq::empty(), "access_key_id"@, Some(self.access_key_id)),
                "secret_access_key"@,
                Some(self.secret_access_key),
            ),
            "gate_secret"@,
            self.gate_secret,
        )
    }

    /// `toml` can write every field.
    pub open spec fn is_writable(self) -> bool {
        &&& writable(self.access_key_id)
        &&& writable(self.secret_access_key)
        &&& writable_if_any(self.gate_secret)
    }
}

/// Secrets read back out of the entries that they are written as, whose keys are
/// bare and all different.
pub proof fn law_secrets_read_back(secrets: SecretsView)
    ensures
        secrets_from(secrets.entries()) == Ok::<SecretsView, Seq<char>>(secrets),
        apart(secrets.entries()),
{
    reveal_strlit("access_key_id");
    reveal_strlit("secret_access_key");
    reveal_strlit("gate_secret");
    assert(bare("access_key_id"@) && bare("secret_access_key"@) && bare("gate_secret"@));
    let none = Seq::<EntryView>::empty();
    let one = with_entry(none, "access_key_id"@, Some(secrets.access_key_id));
    let two = with_entry(one, "secret_access_key"@, Some(secrets.secret_access_key));
    lemma_entry_added(none, "access_key_id"@, Some(secrets.access_key_id));
    lemma_entry_added(one, "secret_access_key"@, Some(secrets.secret_access_key));
    lemma_entry_added(two, "gate_secret"@, secrets.gate_secret);
    lemma_apart(none, "access_key_id"@, Some(secrets.access_key_id));
    lemma_apart(one, "secret_access_key"@, Some(secrets.secret_access_key));
    lemma_apart(two, "gate_secret"@, secrets.gate_secret);
}

/// The secrets that entries make.
pub open spec fn secrets_from(list: Seq<EntryView>) -> Result<SecretsView, Seq<char>> {
    match required(list, "access_key_id"@) {
        Err(why) => Err(why),
        Ok(access_key_id) => match required(list, "secret_access_key"@) {
            Err(why) => Err(why),
            Ok(secret_access_key) => match optional(list, "gate_secret"@) {
                Err(why) => Err(why),
                Ok(gate_secret) => Ok(
                    SecretsView { access_key_id, secret_access_key, gate_secret },
                ),
            },
        },
    }
}

/// The secrets that a document holds.
pub open spec fn secrets_parsed(document: Seq<char>) -> Result<SecretsView, Seq<char>> {
    match toml_read(document) {
        Ok(list) => match secrets_from(list) {
            Ok(secrets) => Ok(secrets),
            Err(why) => Err("parsing dove secrets: "@ + why),
        },
        Err(why) => Err("parsing dove secrets: "@ + why),
    }
}

impl Secrets {
    /// Can `toml` write every field?
    pub fn is_writable(&self) -> (r: bool)
        ensures
            r == self@.is_writable(),
    {
        is_writable(self.access_key_id.as_str()) && is_writable(self.secret_access_key.as_str())
            && is_writable_if_any(&self.gate_secret)
    }

    /// The TOML text that the secrets are saved as. Reading it gives them back.
    pub fn save(&self) -> (r: Result<String, String>)
        requires
            self@.is_writable(),
        ensures
            match r {
                Ok(text) => {
                    &&& toml_written(self@.entries()) == Ok::<Seq<char>, Seq<char>>(text@)
                    &&& secrets_parsed(text@) == Ok::<SecretsView, Seq<char>>(self@)
                },
                Err(why) => toml_written(self@.entries()) is Err && why@
                    == "serializing dove secrets: "@ + toml_written(self@.entries())->Err_0,
            },
    {
        let mut list: Vec<(String, String)> = Vec::new();
        assert(lines(list@) =~= Seq::<EntryView>::empty());
        add_entry(&mut list, "access_key_id", &Some(self.access_key_id.clone()));
        add_entry(&mut list, "secret_access_key", &Some(self.secret_access_key.clone()));
        add_entry(&mut list, "gate_secret", &self.gate_secret);
        proof {
            law_secrets_read_back(self@);
        }
        match write_toml(list) {
            Ok(text) => Ok(text),
            Err(why) => Err("serializing dove secrets: ".to_string().concat(why.as_str())),
        }
    }

    /// Builds secrets out of entries.
    pub fn from_entries(list: &Vec<Entry>) -> (r: Result<Secrets, String>)
        ensures
            match r {
                Ok(secrets) => secrets_from(entries(list@)) == Ok::<SecretsView, Seq<char>>(
                    secrets@,
                ),
                Err(why) => secrets_from(entries(list@)) == Err::<SecretsView, Seq<char>>(why@),
            },
    {
        let access_key_id = match require(list, "access_key_id") {
            Ok(s) => s,
            Err(why) => return Err(why),
        };
        let secret_access_key = match require(list, "secret_access_key") {
            Ok(s) => s,
            Err(why) => return Err(why),
        };
        let gate_secret = match permit(list, "gate_secret") {
            Ok(s) => s,
            Err(why) => return Err(why),
        };
        Ok(Secrets { access_key_id, secret_access_key, gate_secret })
    }

    /// Reads secrets out of TOML text.
    pub fn parse(text: &str) -> (r: Result<Secrets, String>)
        ensures
            match r {
                Ok(secrets) => secrets_parsed(text@) == Ok::<SecretsView, Seq<char>>(secrets@),
                Err(why) => secrets_parsed(text@) == Err::<SecretsView, Seq<char>>(why@),
            },
    {
        match read_toml(text) {
            Ok(list) => match Secrets::from_entries(&list) {
                Ok(secrets) => Ok(secrets),
                Err(why) => Err("parsing dove secrets: ".to_string().concat(why.as_str())),
            },
            Err(why) => Err("parsing dove secrets: ".to_string().concat(why.as_str())),
        }
    }

    /// The secrets out of what the file at `path` holds, with a pointer to
    /// `dove provision` where there is no such file.
    pub fn load(path: &str, text: &Option<String>) -> (r: Result<Secrets, String>)
        ensures
            match r {
                Ok(secrets) => text is Some && secrets_parsed(text->0@) == Ok::<
                    SecretsView,
                    Seq<char>,
                >(secrets@),
                Err(why) => match text {
                    Some(text) => secrets_parsed(text@) == Err::<SecretsView, Seq<char>>(why@),
                    None => why@ == "no dove credentials at "@ + path@
                        + " — run `dove provision` first"@,
                },
            },
    {
        match text {
            Some(text) => Secrets::parse(text.as_str()),
            None => Err(
                "no dove credentials at ".to_string().concat(path).concat(
                    " — run `dove provision` first",
                ),
            ),
        }
    }

    /// Are there secrets? Not where their place is unknown, and else where
    /// something is present there.
    pub fn exist(place: &Result<Place, String>, present: bool) -> (r: bool)
        ensures
            r == (place is Ok && present),
    {
        place.is_ok() && present
    }
}

/// Each secret is what the document has under the secret's own name, and there are no
/// secrets without a key of both halves.
pub proof fn law_secrets_have_their_names(list: Seq<EntryView>)
    ensures
        secrets_from(list) is Ok ==> {
            let secrets = secrets_from(list)->Ok_0;
            &&& held_by(list, "access_key_id"@) == HeldView::Text(secrets.access_key_id)
            &&& held_by(list, "secret_access_key"@) == HeldView::Text(secrets.secret_access_key)
            &&& holds(list, "gate_secret"@, secrets.gate_secret)
        },
        held_by(list, "access_key_id"@) is Nothing || held_by(list, "secret_access_key"@) is Nothing
            ==> secrets_from(list) is Err,
{
}

/// Secrets are kept as they are: what is written of them is what is loaded again, and where there
/// is no file, nothing is loaded.
pub proof fn law_secrets_survive_the_file(
    secrets: Secrets,
    saved: Result<String, String>,
    path: &str,
    text: Option<String>,
    loaded: Result<Secrets, String>,
)
    requires
        call_ensures(Secrets::save, (&secrets,), saved),
        call_ensures(Secrets::load, (path, &text), loaded),
    ensures
        saved is Ok && text is Some && text->0@ == saved->Ok_0@ ==> loaded is Ok && loaded->Ok_0@
            == secrets@,
        text is None ==> loaded is Err && has_text(loaded->Err_0@, path@),
{
    if text is None {
        let why = loaded->Err_0@;
        let at = "no dove credentials at "@.len() as int;
        assert(why.subrange(at, at + path@.len()) =~= path@);
        assert(stands_at(why, path@, at));
    }
}

} // verus!
