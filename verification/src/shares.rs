//! `dove ls`, `dove revoke` and `dove status`: the shares that are there.

use vstd::prelude::*;

use crate::aws::texts;
use crate::config::{Config, ConfigView};
use crate::ledger::{named, Names};
use crate::search::{
    cut, find_from, has_text, lemma_found_before, lemma_found_behind, lemma_place, place, stands_at,
    stands_first_at,
};
use crate::share::keyed;
use crate::text::{chars_of, decimal, decimal_text, hex, is_hex_digit, lemma_hex_shape};
use crate::ui::{dim, dimmed, Terminal};

verus! {

/// What a listing shows where there is nothing.
pub const NO_SHARES: &'static str = "no shares yet — `dove share <file>` to make one";

/// A row: a name, and the muted id.
pub open spec fn row(term: Terminal, name: Seq<char>, id: Seq<char>) -> Seq<char> {
    "  "@ + name + "  "@ + dimmed(term, id)
}

/// The row of a key. A key with a slash holds the name itself, behind the id; of
/// one without, the name is the one that was written down.
pub open spec fn row_of(term: Terminal, key: Seq<char>, written: Option<Seq<char>>) -> Seq<char> {
    if has_text(key, "/"@) {
        row(term, key.skip(place(key, "/"@) + "/"@.len()), cut(key, "/"@))
    } else {
        match written {
            Some(name) => row(term, name, key),
            None => row(term, dimmed(term, "(encrypted name)"@), key),
        }
    }
}

fn row_text(term: Terminal, name: &str, id: &str) -> (r: String)
    ensures
        r@ == row(term, name@, id@),
{
    "  ".to_string().concat(name).concat("  ").concat(dim(term, id).as_str())
}

/// One row of `dove ls`: the name, then the muted id.
pub fn share_row(term: Terminal, key: &str, names: &Names) -> (r: String)
    ensures
        r@ == row_of(term, key@, named(names.pairs@, key@)),
{
    let chars = chars_of(key);
    let mark = chars_of("/");
    assert(key@.skip(0) =~= key@);
    match find_from(&chars, &mark, 0) {
        Some(at) => {
            proof {
                lemma_place(key@, "/"@, at as int);
            }
            let name = key.substring_char(at + mark.len(), chars.len());
            assert(name@ =~= key@.skip(at + mark@.len()));
            row_text(term, name, key.substring_char(0, at))
        },
        None => match names.get(key) {
            Some(name) => row_text(term, name.as_str(), key),
            None => row_text(term, dim(term, "(encrypted name)").as_str(), key),
        },
    }
}

/// The key is that of the share of this id: the id itself, or the id and a name.
pub open spec fn belongs_to(key: Seq<char>, id: Seq<char>) -> bool {
    key == id || (id + "/"@).is_prefix_of(key)
}

/// The key that a share's id leads to: the first that belongs to it.
pub open spec fn revocable(id: Seq<char>, keys: Seq<Seq<char>>) -> Result<Seq<char>, Seq<char>>
    decreases keys.len(),
{
    if keys.len() == 0 {
        Err("no share with id "@ + id)
    } else if belongs_to(keys[0], id) {
        Ok(keys[0])
    } else {
        revocable(id, keys.skip(1))
    }
}

/// What is revoked belongs to the id, and where nothing does, nothing is revoked.
pub proof fn law_only_the_share_is_revoked(id: Seq<char>, keys: Seq<Seq<char>>)
    ensures
        match revocable(id, keys) {
            Ok(key) => keys.contains(key) && belongs_to(key, id),
            Err(_) => forall|i: int| 0 <= i < keys.len() ==> !belongs_to(#[trigger] keys[i], id),
        },
    decreases keys.len(),
{
    if keys.len() > 0 {
        if belongs_to(keys[0], id) {
            assert(keys.contains(keys[0]));
        } else {
            let rest = keys.skip(1);
            law_only_the_share_is_revoked(id, rest);
            match revocable(id, rest) {
                Ok(key) => {
                    let i = choose|i: int| 0 <= i < rest.len() && rest[i] == key;
                    assert(keys[i + 1] == key);
                },
                Err(_) => {
                    assert forall|i: int| 0 <= i < keys.len() implies !belongs_to(
                        #[trigger] keys[i],
                        id,
                    ) by {
                        if i > 0 {
                            assert(keys[i] == rest[i - 1]);
                        }
                    }
                },
            }
        }
    }
}

/// Does the key belong to the share of this id?
fn belongs(key: &str, id: &str) -> (r: bool)
    ensures
        r == belongs_to(key@, id@),
{
    let whole = chars_of(key);
    let bare = chars_of(id);
    let mut i: usize = 0;
    while i < bare.len() && i < whole.len() && whole[i] == bare[i]
        invariant
            i <= bare@.len(),
            i <= whole@.len(),
            whole@ == key@,
            bare@ == id@,
            forall|j: int| 0 <= j < i ==> whole@[j] == bare@[j],
        decreases bare.len() - i,
    {
        i += 1;
    }
    proof {
        reveal_strlit("/");
        if i < bare@.len() {
            if key@ == id@ {
                assert(whole@[i as int] == bare@[i as int]);
            }
            if (id@ + "/"@).is_prefix_of(key@) {
                assert(key@.subrange(0, id@.len() as int + 1)[i as int] == (id@ + "/"@)[i as int]);
            }
        } else {
            if key@.len() == id@.len() {
                assert(key@ =~= id@);
            } else if key@[i as int] == '/' {
                assert(key@.subrange(0, id@.len() as int + 1) =~= id@ + "/"@);
            } else if (id@ + "/"@).is_prefix_of(key@) {
                assert(key@.subrange(0, id@.len() as int + 1)[i as int] == (id@ + "/"@)[i as int]);
            }
        }
    }
    i == bare.len() && (i == whole.len() || whole[i] == '/')
}

/// The key to delete so that the share's link leads nowhere, out of the keys that
/// start with its id.
pub fn revoke(id: &str, keys: &Vec<String>) -> (r: Result<String, String>)
    ensures
        match r {
            Ok(key) => revocable(id@, texts(keys@)) == Ok::<Seq<char>, Seq<char>>(key@),
            Err(why) => revocable(id@, texts(keys@)) == Err::<Seq<char>, Seq<char>>(why@),
        },
{
    let mut i: usize = 0;
    assert(texts(keys@).skip(0) =~= texts(keys@));
    while i < keys.len()
        invariant
            i <= keys@.len(),
            revocable(id@, texts(keys@)) == revocable(id@, texts(keys@).skip(i as int)),
        decreases keys.len() - i,
    {
        let ghost rest = texts(keys@).skip(i as int);
        assert(rest[0] == keys@[i as int]@);
        assert(rest.skip(1) =~= texts(keys@).skip(i + 1));
        if belongs(keys[i].as_str(), id) {
            return Ok(keys[i].clone());
        }
        i += 1;
    }
    Err("no share with id ".to_string().concat(id))
}

/// What is shown of a revoked share.
pub fn revoked(id: &str) -> (r: String)
    ensures
        r@ == "revoked "@ + id@ + " — the link now 404s"@,
{
    "revoked ".to_string().concat(id).concat(" — the link now 404s")
}

/// A line of the status.
pub open spec fn status_row(term: Terminal, label: Seq<char>, value: Seq<char>) -> Seq<char> {
    "  "@ + dimmed(term, label) + " "@ + value + "\n"@
}

/// What is provisioned.
pub open spec fn provisioned(term: Terminal, config: ConfigView) -> Seq<char> {
    status_row(term, "bucket "@, config.bucket) + status_row(term, "region "@, config.region) + (
    match config.profile {
        Some(profile) => status_row(term, "profile"@, profile),
        None => Seq::empty(),
    })
}

fn status_text(term: Terminal, label: &str, value: &str) -> (r: String)
    ensures
        r@ == status_row(term, label@, value@),
{
    "  ".to_string().concat(dim(term, label).as_str()).concat(" ").concat(value).concat("\n")
}

/// The first lines of `dove status`: what is provisioned.
pub fn status(term: Terminal, config: &Config) -> (r: String)
    ensures
        r@ == provisioned(term, config@),
{
    let first = status_text(term, "bucket ", config.bucket.as_str()).concat(
        status_text(term, "region ", config.region.as_str()).as_str(),
    );
    match &config.profile {
        Some(profile) => first.concat(status_text(term, "profile", profile.as_str()).as_str()),
        None => {
            assert(first@ + Seq::<char>::empty() =~= first@);
            first
        },
    }
}

/// The last line of `dove status`: how many shares there are, or why that is not
/// known.
pub fn reach(term: Terminal, count: &Result<usize, String>) -> (r: String)
    ensures
        r@ == status_row(
            term,
            "shares "@,
            match *count {
                Ok(n) => decimal(n as nat),
                Err(why) => "couldn't reach the bucket: "@ + why@,
            },
        ),
{
    match count {
        Ok(n) => status_text(term, "shares ", decimal_text(*n as u64).as_str()),
        Err(why) => status_text(
            term,
            "shares ",
            "couldn't reach the bucket: ".to_string().concat(why.as_str()).as_str(),
        ),
    }
}

/// A path with `/` for every `\`.
pub open spec fn slashed(path: Seq<char>) -> Seq<char> {
    path.map_values(
        |c: char|
            if c == '\\' {
                '/'
            } else {
                c
            },
    )
}

/// The name of an archive's entry for a path below the shared directory.
pub fn entry_name(path: &str) -> (r: String)
    ensures
        r@ == slashed(path@),
{
    let chars = chars_of(path);
    let mut name = String::new();
    let mut i: usize = 0;
    while i < chars.len()
        invariant
            chars@ == path@,
            i <= chars.len(),
            name@ == slashed(path@).take(i as int),
        decreases chars.len() - i,
    {
        let ghost before = name@;
        proof {
            reveal_strlit("/");
            assert(slashed(path@).take(i + 1) =~= slashed(path@).take(i as int).push(
                slashed(path@)[i as int],
            ));
        }
        if chars[i] == '\\' {
            name = name.concat("/");
            assert(name@ =~= before.push('/'));
        } else {
            let one = path.substring_char(i, i + 1);
            name = name.concat(one);
            assert(name@ =~= before.push(path@[i as int]));
        }
        i += 1;
    }
    assert(slashed(path@).take(path@.len() as int) =~= slashed(path@));
    name
}

/// What is found in a directory.
#[derive(Clone, Copy, PartialEq, Eq, Structural)]
pub enum Found {
    Directory,
    File,
    /// A symbolic link, or something else.
    Other,
}

/// What becomes of something that is found in a shared directory.
pub enum Packing {
    /// An entry of this name for a directory, and then what is in it.
    Directory(String),
    /// An entry of this name for a file, and its contents.
    File(String),
    /// Nothing.
    Skip,
}

/// Decides what becomes of something that is found in a shared directory, at this
/// path below the directory's parent. Only directories and files are packed: a
/// symbolic link could lead in a circle, or out of the tree.
pub fn pack(found: Found, path: &str) -> (r: Packing)
    ensures
        match (found, r) {
            (Found::Directory, Packing::Directory(name)) => name@ == slashed(path@),
            (Found::File, Packing::File(name)) => name@ == slashed(path@),
            (Found::Other, Packing::Skip) => true,
            _ => false,
        },
{
    match found {
        Found::Directory => Packing::Directory(entry_name(path)),
        Found::File => Packing::File(entry_name(path)),
        Found::Other => Packing::Skip,
    }
}

// ── laws ──────────────────────────────────────────────────────────────────

proof fn lemma_no_slash(s: Seq<char>)
    requires
        forall|i: int| 0 <= i < s.len() ==> #[trigger] s[i] != '/',
    ensures
        !has_text(s, "/"@),
{
    reveal_strlit("/");
    assert forall|i: int| !#[trigger] stands_at(s, "/"@, i) by {
        if stands_at(s, "/"@, i) {
            assert(s.subrange(i, i + 1)[0] == s[i]);
        }
    }
}

proof fn lemma_slash_after(front: Seq<char>, back: Seq<char>)
    requires
        forall|i: int| 0 <= i < front.len() ==> #[trigger] front[i] != '/',
    ensures
        has_text(front + "/"@ + back, "/"@),
        place(front + "/"@ + back, "/"@) == front.len(),
{
    reveal_strlit("/");
    let all = front + "/"@ + back;
    let at = front.len() as int;
    assert(all.subrange(at, at + 1) =~= "/"@);
    assert forall|j: int| j < at implies !#[trigger] stands_at(all, "/"@, j) by {
        if stands_at(all, "/"@, j) {
            assert(all.subrange(j, j + 1)[0] == front[j]);
        }
    }
    assert(stands_first_at(all, "/"@, at));
    lemma_place(all, "/"@, at);
}

/// Shares are listed as they were shared: one of the simple tier under the name that its
/// key holds, one of the full tier under the name that was written down, and each beside
/// its own id.
pub proof fn law_listed_as_shared(term: Terminal, id: Seq<u8>, name: Seq<char>)
    ensures
        forall|written: Option<Seq<char>>| #[trigger]
            row_of(term, keyed(id, name), written) == "  "@ + name + "  "@ + dimmed(term, hex(id)),
        row_of(term, hex(id), Some(name)) == "  "@ + name + "  "@ + dimmed(term, hex(id)),
{
    lemma_hex_shape(id);
    let digits = hex(id);
    assert forall|i: int| 0 <= i < digits.len() implies #[trigger] digits[i] != '/' by {
        assert(is_hex_digit(digits[i]));
    }
    lemma_no_slash(digits);
    lemma_slash_after(digits, name);
    let key = keyed(id, name);
    reveal_strlit("/");
    assert(key.skip(digits.len() as int + 1) =~= name);
    assert(key.take(digits.len() as int) =~= digits);
}

/// The key is the id, or goes on behind it with a slash.
pub proof fn law_keys_belong_by_their_id(key: Seq<char>, id: Seq<char>)
    ensures
        belongs_to(key, id) <==> key == id || (key.len() > id.len() && key.take(id.len() as int)
            == id && key[id.len() as int] == '/'),
{
    reveal_strlit("/");
    let n = id.len() as int;
    if key.len() > n && key.take(n) == id && key[n] == '/' {
        assert(key.subrange(0, n + 1) =~= id + "/"@);
    }
    if (id + "/"@).is_prefix_of(key) {
        assert(key.subrange(0, n + 1)[n] == (id + "/"@)[n]);
        assert(key.take(n) =~= (id + "/"@).take(n));
        assert((id + "/"@).take(n) =~= id);
    }
}

/// The id that is shown beside a share revokes it: among keys of which no other is of
/// that id, the one that is revoked is the share's.
pub proof fn law_the_shown_id_revokes(id: Seq<u8>, name: Seq<char>, keys: Seq<Seq<char>>, k: int)
    requires
        0 <= k < keys.len(),
        keys[k] == keyed(id, name) || keys[k] == hex(id),
        forall|i: int|
            0 <= i < keys.len() && i != k ==> !belongs_to(#[trigger] keys[i], hex(id)),
    ensures
        revocable(hex(id), keys) == Ok::<Seq<char>, Seq<char>>(keys[k]),
{
    law_keys_belong_by_their_id(keys[k], hex(id));
    reveal_strlit("/");
    let digits = hex(id);
    if keys[k] == keyed(id, name) {
        assert(keyed(id, name).take(digits.len() as int) =~= digits);
    }
    law_only_the_share_is_revoked(digits, keys);
    assert(belongs_to(keys[k], digits));
    if let Ok(key) = revocable(digits, keys) {
        let i = choose|i: int| 0 <= i < keys.len() && keys[i] == key;
        assert(belongs_to(keys[i], digits));
    }
}

/// The status says where shares are: the bucket, the region and the profile that the
/// configuration has.
pub proof fn law_status_says_where(term: Terminal, config: ConfigView)
    ensures
        has_text(provisioned(term, config), config.bucket),
        has_text(provisioned(term, config), config.region),
        config.profile is Some ==> has_text(provisioned(term, config), config.profile->0),
{
    let bucket = status_row(term, "bucket "@, config.bucket);
    let region = status_row(term, "region "@, config.region);
    let profile = match config.profile {
        Some(profile) => status_row(term, "profile"@, profile),
        None => Seq::empty(),
    };
    lemma_status_row(term, "bucket "@, config.bucket);
    lemma_status_row(term, "region "@, config.region);
    lemma_found_before(bucket, config.bucket, region);
    lemma_found_before(bucket + region, config.bucket, profile);
    lemma_found_behind(region, config.region, bucket);
    lemma_found_before(bucket + region, config.region, profile);
    if let Some(name) = config.profile {
        lemma_status_row(term, "profile"@, name);
        lemma_found_behind(profile, name, bucket + region);
    }
}

proof fn lemma_status_row(term: Terminal, label: Seq<char>, value: Seq<char>)
    ensures
        has_text(status_row(term, label, value), value),
{
    let row = status_row(term, label, value);
    let at = ("  "@ + dimmed(term, label) + " "@).len() as int;
    assert(row.subrange(at, at + value.len()) =~= value);
    assert(stands_at(row, value, at));
}

/// Rows are of the ledger's names, and revoking an id leads to a key of that id: one of
/// those that there are, and none only where there is none.
pub proof fn law_rows_and_revocations_go_by_the_id(
    term: Terminal,
    key: &str,
    names: Names,
    row: String,
    id: &str,
    keys: Vec<String>,
    found: Result<String, String>,
)
    requires
        call_ensures(share_row, (term, key, &names), row),
        call_ensures(revoke, (id, &keys), found),
    ensures
        row@ == row_of(term, key@, named(names.pairs@, key@)),
        found matches Ok(at) ==> texts(keys@).contains(at@) && belongs_to(at@, id@),
        found is Err ==> forall|i: int|
            0 <= i < keys@.len() ==> !belongs_to(#[trigger] keys@[i]@, id@),
        found matches Err(why) ==> id@.is_suffix_of(why@),
{
    law_only_the_share_is_revoked(id@, texts(keys@));
    if let Err(why) = found {
        lemma_complaint(id@, texts(keys@));
        assert(id@ =~= why@.subrange(why@.len() - id@.len(), why@.len() as int));
        assert forall|i: int| 0 <= i < keys@.len() implies !belongs_to(
            #[trigger] keys@[i]@,
            id@,
        ) by {
            assert(texts(keys@)[i] == keys@[i]@);
        }
    }
}

proof fn lemma_complaint(id: Seq<char>, keys: Seq<Seq<char>>)
    ensures
        revocable(id, keys) matches Err(why) ==> why == "no share with id "@ + id,
    decreases keys.len(),
{
    if keys.len() > 0 {
        lemma_complaint(id, keys.skip(1));
    }
}

/// The entries of an archive are named as their paths are, with a slash for every
/// separator.
pub proof fn law_entries_are_named_by_their_paths(path: &str, name: String)
    requires
        call_ensures(entry_name, (path,), name),
    ensures
        name@.len() == path@.len(),
        forall|i: int|
            0 <= i < path@.len() ==> (#[trigger] name@[i]) == (if path@[i] == '\\' {
                '/'
            } else {
                path@[i]
            }),
{
}

} // verus!
