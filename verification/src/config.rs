//! dove's configuration: where shares are stored and how to reach the bucket.

use vstd::prelude::*;

use crate::aws::maybe;
use crate::search::{has_text, stands_at};
use crate::toml_text::{
    add_entry, apart, bare, entries, held_by, holds, is_writable, is_writable_if_any, lemma_apart,
    lemma_entry_added, lines, optional, permit, read_toml, require, required, toml_read,
    toml_written, with_entry, writable, writable_if_any, write_toml, Entry, EntryView, HeldView,
};

verus! {

/// The configuration, as `dove provision` writes it.
#[derive(Debug, PartialEq)]
pub struct Config {
    /// The S3 bucket that dove uploads shares to.
    pub bucket: String,
    pub region: String,
    /// The profile whose credentials sign; `None` is the default chain.
    pub profile: Option<String>,
    /// An S3-compatible endpoint; `None` is S3 itself.
    pub endpoint: Option<String>,
    /// The table of share policies, in the full tier only.
    pub table: Option<String>,
    /// The access gate's base URL. Its presence marks the full tier.
    pub gate_url: Option<String>,
    /// The distribution in front of the access gate.
    pub distribution_id: Option<String>,
}

/// What a configuration says.
pub struct ConfigView {
    pub bucket: Seq<char>,
    pub region: Seq<char>,
    pub profile: Option<Seq<char>>,
    pub endpoint: Option<Seq<char>>,
    pub table: Option<Seq<char>>,
    pub gate_url: Option<Seq<char>>,
    pub distribution_id: Option<Seq<char>>,
}

impl View for Config {
    type V = ConfigView;

    open spec fn view(&self) -> ConfigView {
        ConfigView {
            bucket: self.bucket@,
            region: self.region@,
            profile: maybe(self.profile),
            endpoint: maybe(self.endpoint),
            table: maybe(self.table),
            gate_url: maybe(self.gate_url),
            distribution_id: maybe(self.distribution_id),
        }
    }
}

impl ConfigView {
    /// The configuration is of the full tier: gated and encrypted.
    pub open spec fn is_full(self) -> bool {
        self.gate_url is Some
    }
}

impl ConfigView {
    /// The entries that a configuration is written as: what is there, field by field.
    pub open spec fn entries(self) -> Seq<EntryView> {
        let required = with_entry(
            with_entry(Seq::empty(), "bucket"@, Some(self.bucket)),
            "region"@,
            Some(self.region),
        );
        let reached = with_entry(
            with_entry(required, "profile"@, self.profile),
            "endpoint"@,
            self.endpoint,
        );
        let gated = with_entry(
            with_entry(reached, "table"@, self.table),
            "gate_url"@,
            self.gate_url,
        );
        with_entry(gated, "distribution_id"@, self.distribution_id)
    }

    /// `toml` can write every field.
    pub open spec fn is_writable(self) -> bool {
        &&& writable(self.bucket)
        &&& writable(self.region)
        &&& writable_if_any(self.profile)
        &&& writable_if_any(self.endpoint)
        &&& writable_if_any(self.table)
        &&& writable_if_any(self.gate_url)
        &&& writable_if_any(self.distribution_id)
    }
}

/// The keys of a configuration are bare, and no two are the same.
proof fn lemma_config_keys()
    ensures
        bare("bucket"@),
        bare("region"@),
        bare("profile"@),
        bare("endpoint"@),
        bare("table"@),
        bare("gate_url"@),
        bare("distribution_id"@),
        "bucket"@ != "region"@,
        "endpoint"@ != "gate_url"@,
        "bucket"@.len() == 6,
        "region"@.len() == 6,
        "profile"@.len() == 7,
        "endpoint"@.len() == 8,
        "table"@.len() == 5,
        "gate_url"@.len() == 8,
        "distribution_id"@.len() == 15,
{
    reveal_strlit("bucket");
    reveal_strlit("region");
    reveal_strlit("profile");
    reveal_strlit("endpoint");
    reveal_strlit("table");
    reveal_strlit("gate_url");
    reveal_strlit("distribution_id");
    assert("bucket"@[0] != "region"@[0]);
    assert("endpoint"@[0] != "gate_url"@[0]);
}

/// A configuration reads back out of the entries that it is written as, whose keys
/// are bare and all different.
pub proof fn law_config_reads_back(config: ConfigView)
    ensures
        config_from(config.entries()) == Ok::<ConfigView, Seq<char>>(config),
        apart(config.entries()),
{
    lemma_config_keys();
    let none = Seq::<EntryView>::empty();
    let one = with_entry(none, "bucket"@, Some(config.bucket));
    let two = with_entry(one, "region"@, Some(config.region));
    let three = with_entry(two, "profile"@, config.profile);
    let four = with_entry(three, "endpoint"@, config.endpoint);
    let five = with_entry(four, "table"@, config.table);
    let six = with_entry(five, "gate_url"@, config.gate_url);
    lemma_entry_added(none, "bucket"@, Some(config.bucket));
    lemma_entry_added(one, "region"@, Some(config.region));
    lemma_entry_added(two, "profile"@, config.profile);
    lemma_entry_added(three, "endpoint"@, config.endpoint);
    lemma_entry_added(four, "table"@, config.table);
    lemma_entry_added(five, "gate_url"@, config.gate_url);
    lemma_entry_added(six, "distribution_id"@, config.distribution_id);
    lemma_apart(none, "bucket"@, Some(config.bucket));
    lemma_apart(one, "region"@, Some(config.region));
    lemma_apart(two, "profile"@, config.profile);
    lemma_apart(three, "endpoint"@, config.endpoint);
    lemma_apart(four, "table"@, config.table);
    lemma_apart(five, "gate_url"@, config.gate_url);
    lemma_apart(six, "distribution_id"@, config.distribution_id);
}

/// The configuration that entries make: `bucket` and `region` have to be there,
/// the others may be, and what else there is does not matter. The first field
/// that is not as it should be is the one complained of.
pub open spec fn config_from(list: Seq<EntryView>) -> Result<ConfigView, Seq<char>> {
    match required(list, "bucket"@) {
        Err(why) => Err(why),
        Ok(bucket) => match required(list, "region"@) {
            Err(why) => Err(why),
            Ok(region) => match optional(list, "profile"@) {
                Err(why) => Err(why),
                Ok(profile) => match optional(list, "endpoint"@) {
                    Err(why) => Err(why),
                    Ok(endpoint) => match optional(list, "table"@) {
                        Err(why) => Err(why),
                        Ok(table) => match optional(list, "gate_url"@) {
                            Err(why) => Err(why),
                            Ok(gate_url) => match optional(list, "distribution_id"@) {
                                Err(why) => Err(why),
                                Ok(distribution_id) => Ok(
                                    ConfigView {
                                        bucket,
                                        region,
                                        profile,
                                        endpoint,
                                        table,
                                        gate_url,
                                        distribution_id,
                                    },
                                ),
                            },
                        },
                    },
                },
            },
        },
    }
}

/// The configuration that a document holds.
pub open spec fn config_parsed(document: Seq<char>) -> Result<ConfigView, Seq<char>> {
    match toml_read(document) {
        Ok(list) => match config_from(list) {
            Ok(config) => Ok(config),
            Err(why) => Err("parsing dove config: "@ + why),
        },
        Err(why) => Err("parsing dove config: "@ + why),
    }
}

impl Config {
    /// Is this configuration provisioned for the full (gated, encrypted) tier?
    pub fn is_full(&self) -> (r: bool)
        ensures
            r == self@.is_full(),
    {
        self.gate_url.is_some()
    }

    /// Can `toml` write every field?
    pub fn is_writable(&self) -> (r: bool)
        ensures
            r == self@.is_writable(),
    {
        is_writable(self.bucket.as_str()) && is_writable(self.region.as_str())
            && is_writable_if_any(&self.profile) && is_writable_if_any(&self.endpoint)
            && is_writable_if_any(&self.table) && is_writable_if_any(&self.gate_url)
            && is_writable_if_any(&self.distribution_id)
    }

    /// The TOML text that the configuration is saved as. Reading it gives the
    /// configuration back.
    pub fn save(&self) -> (r: Result<String, String>)
        requires
            self@.is_writable(),
        ensures
            match r {
                Ok(text) => {
                    &&& toml_written(self@.entries()) == Ok::<Seq<char>, Seq<char>>(text@)
                    &&& config_parsed(text@) == Ok::<ConfigView, Seq<char>>(self@)
                },
                Err(why) => toml_written(self@.entries()) is Err && why@
                    == "serializing dove config: "@ + toml_written(self@.entries())->Err_0,
            },
    {
        let mut list: Vec<(String, String)> = Vec::new();
        assert(lines(list@) =~= Seq::<EntryView>::empty());
        add_entry(&mut list, "bucket", &Some(self.bucket.clone()));
        add_entry(&mut list, "region", &Some(self.region.clone()));
        add_entry(&mut list, "profile", &self.profile);
        add_entry(&mut list, "endpoint", &self.endpoint);
        add_entry(&mut list, "table", &self.table);
        add_entry(&mut list, "gate_url", &self.gate_url);
        add_entry(&mut list, "distribution_id", &self.distribution_id);
        proof {
            law_config_reads_back(self@);
        }
        match write_toml(list) {
            Ok(text) => Ok(text),
            Err(why) => Err("serializing dove config: ".to_string().concat(why.as_str())),
        }
    }

    /// Builds a configuration out of entries.
    pub fn from_entries(list: &Vec<Entry>) -> (r: Result<Config, String>)
        ensures
            match r {
                Ok(config) => config_from(entries(list@)) == Ok::<ConfigView, Seq<char>>(config@),
                Err(why) => config_from(entries(list@)) == Err::<ConfigView, Seq<char>>(why@),
            },
    {
        let bucket = match require(list, "bucket") {
            Ok(s) => s,
            Err(why) => return Err(why),
        };
        let region = match require(list, "region") {
            Ok(s) => s,
            Err(why) => return Err(why),
        };
        let profile = match permit(list, "profile") {
            Ok(s) => s,
            Err(why) => return Err(why),
        };
        let endpoint = match permit(list, "endpoint") {
            Ok(s) => s,
            Err(why) => return Err(why),
        };
        let table = match permit(list, "table") {
            Ok(s) => s,
            Err(why) => return Err(why),
        };
        let gate_url = match permit(list, "gate_url") {
            Ok(s) => s,
            Err(why) => return Err(why),
        };
        let distribution_id = match permit(list, "distribution_id") {
            Ok(s) => s,
            Err(why) => return Err(why),
        };
        Ok(Config { bucket, region, profile, endpoint, table, gate_url, distribution_id })
    }

    /// Reads a configuration out of TOML text.
    pub fn parse(text: &str) -> (r: Result<Config, String>)
        ensures
            match r {
                Ok(config) => config_parsed(text@) == Ok::<ConfigView, Seq<char>>(config@),
                Err(why) => config_parsed(text@) == Err::<ConfigView, Seq<char>>(why@),
            },
    {
        match read_toml(text) {
            Ok(list) => match Config::from_entries(&list) {
                Ok(config) => Ok(config),
                Err(why) => Err("parsing dove config: ".to_string().concat(why.as_str())),
            },
            Err(why) => Err("parsing dove config: ".to_string().concat(why.as_str())),
        }
    }

    /// The configuration out of what the file at `path` holds, with a pointer to
    /// `dove provision`, which writes it, where there is no such file.
    pub fn load(path: &str, text: &Option<String>) -> (r: Result<Config, String>)
        ensures
            match r {
                Ok(config) => text is Some && config_parsed(text->0@) == Ok::<
                    ConfigView,
                    Seq<char>,
                >(config@),
                Err(why) => match text {
                    Some(text) => config_parsed(text@) == Err::<ConfigView, Seq<char>>(why@),
                    None => why@ == "no dove config at "@ + path@
                        + " — run `dove provision` first"@,
                },
            },
    {
        match text {
            Some(text) => Config::parse(text.as_str()),
            None => Err(
                "no dove config at ".to_string().concat(path).concat(
                    " — run `dove provision` first",
                ),
            ),
        }
    }
}

/// Each field of a configuration is what the document has under the field's own name. A
/// configuration without a bucket or a region is refused, and what a document has beside
/// the fields changes nothing.
pub proof fn law_config_fields_have_their_names(list: Seq<EntryView>)
    ensures
        config_from(list) is Ok ==> {
            let config = config_from(list)->Ok_0;
            &&& held_by(list, "bucket"@) == HeldView::Text(config.bucket)
            &&& held_by(list, "region"@) == HeldView::Text(config.region)
            &&& holds(list, "profile"@, config.profile)
            &&& holds(list, "endpoint"@, config.endpoint)
            &&& holds(list, "table"@, config.table)
            &&& holds(list, "gate_url"@, config.gate_url)
            &&& holds(list, "distribution_id"@, config.distribution_id)
        },
        held_by(list, "bucket"@) is Nothing || held_by(list, "region"@) is Nothing ==> config_from(
            list,
        ) is Err,
{
}

/// A configuration is kept as it is: what is written of it is what is loaded again, and where there
/// is no file, nothing is loaded.
pub proof fn law_config_survives_the_file(
    config: Config,
    saved: Result<String, String>,
    path: &str,
    text: Option<String>,
    loaded: Result<Config, String>,
)
    requires
        call_ensures(Config::save, (&config,), saved),
        call_ensures(Config::load, (path, &text), loaded),
    ensures
        saved is Ok && text is Some && text->0@ == saved->Ok_0@ ==> loaded is Ok && loaded->Ok_0@
            == config@,
        text is None ==> loaded is Err && has_text(loaded->Err_0@, path@),
{
    if text is None {
        let why = loaded->Err_0@;
        let at = "no dove config at "@.len() as int;
        assert(why.subrange(at, at + path@.len()) =~= path@);
        assert(stands_at(why, path@, at));
    }
}

} // verus!
