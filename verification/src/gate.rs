//! Packaging a function for deployment: a zip archive with its one source file.

use vstd::prelude::*;
use vstd::string::StringSliceAdditionalSpecFns;

use crate::random::random_bytes;
use crate::search::{has_text, stands_at};
use crate::text::{hex, hex_text, lemma_hex_injective, lemma_hex_shape};

verus! {

/// The handler's entry point: file `lambda_function.py`, function `handler`.
pub const HANDLER: &'static str = "lambda_function.handler";

/// The runtime that the access gate targets.
pub const RUNTIME: &'static str = "python3.12";

/// The trust policy that lets Lambda assume a role.
pub const LAMBDA_TRUST: &'static str = "{\"Version\":\"2012-10-17\",\"Statement\":[{\"Effect\":\"Allow\",\"Principal\":{\"Service\":\"lambda.amazonaws.com\"},\"Action\":\"sts:AssumeRole\"}]}";

/// The archive that `zip` writes for one file of this name and these contents,
/// or its complaint.
pub uninterp spec fn zip_written(name: Seq<char>, contents: Seq<u8>) -> Result<
    Seq<u8>,
    Seq<char>,
>;

/// `zip::ZipWriter` over memory: `start_file` with the default options, the
/// contents, `finish`. The default time stamp is fixed, so the archive is a
/// function of the name and the contents. An entry has two bytes for its name's
/// length, and `start_file` panics on a longer name.
#[verifier::external_body]
fn zip_file(name: &str, contents: &[u8]) -> (r: Result<Vec<u8>, String>)
    requires
        name.is_ascii(),
        name@.len() <= 0xffff,
    ensures
        match r {
            Ok(archive) => zip_written(name@, contents@) == Ok::<Seq<u8>, Seq<char>>(archive@),
            Err(why) => zip_written(name@, contents@) == Err::<Seq<u8>, Seq<char>>(why@),
        },
{
    let mut archive = zip::ZipWriter::new(std::io::Cursor::new(Vec::new()));
    archive.start_file(name, zip::write::SimpleFileOptions::default()).map_err(
        |e| e.to_string(),
    )?;
    std::io::Write::write_all(&mut archive, contents).map_err(|e| e.to_string())?;
    archive.finish().map(|bytes| bytes.into_inner()).map_err(|e| e.to_string())
}

/// The deployment archive of a function: its source as `lambda_function.py`.
pub fn deployment_zip(source: &str) -> (r: Result<Vec<u8>, String>)
    ensures
        match r {
            Ok(archive) => zip_written("lambda_function.py"@, source.spec_bytes()) == Ok::<
                Seq<u8>,
                Seq<char>,
            >(archive@),
            Err(why) => zip_written("lambda_function.py"@, source.spec_bytes()) == Err::<
                Seq<u8>,
                Seq<char>,
            >(why@),
        },
{
    proof {
        reveal_strlit("lambda_function.py");
    }
    zip_file("lambda_function.py", source.as_bytes())
}

/// The name of a temporary file with this tag.
pub open spec fn temp_named(prefix: Seq<char>, tag: Seq<u8>, extension: Seq<char>) -> Seq<char> {
    prefix + hex(tag) + "."@ + extension
}

/// A name for a temporary file: the prefix, the tag in hex, the extension.
pub fn temp_name(prefix: &str, tag: &[u8], extension: &str) -> (r: String)
    ensures
        r@ == temp_named(prefix@, tag@, extension@),
{
    prefix.to_string().concat(hex_text(tag).as_str()).concat(".").concat(extension)
}

/// The name of an archive whose tag is drawn at random: the prefix, the tag in hex,
/// and `zip`, where the operating system gave a tag.
pub fn archive_drawn<const N: usize>(
    prefix: &str,
    drawn: Result<[u8; N], getrandom::Error>,
) -> (r: Option<String>)
    ensures
        match drawn {
            Ok(tag) => r is Some && r->0@ == temp_named(prefix@, tag@, "zip"@),
            Err(_) => r is None,
        },
{
    match drawn {
        Ok(tag) => Some(temp_name(prefix, &tag, "zip")),
        Err(_) => None,
    }
}

/// A fresh name for the access gate's deployment archive: `dove-` and eight random bytes
/// in hex. `None` where the system has no randomness to give.
pub fn gate_archive_name() -> (r: Option<String>)
    ensures
        r is Some ==> exists|tag: [u8; 8]|
            r->0@ == #[trigger] temp_named("dove-"@, tag@, "zip"@),
{
    archive_drawn("dove-", random_bytes::<8>())
}

/// A fresh name for the kill switch's deployment archive: `dove-breaker-` and six
/// random bytes in hex. `None` where the system has no randomness to give.
pub fn breaker_archive_name() -> (r: Option<String>)
    ensures
        r is Some ==> exists|tag: [u8; 6]|
            r->0@ == #[trigger] temp_named("dove-breaker-"@, tag@, "zip"@),
{
    archive_drawn("dove-breaker-", random_bytes::<6>())
}

// ── laws ──────────────────────────────────────────────────────────────────

/// The function that is deployed is the one that is run: the handler is in the file that
/// the archive holds, and that file holds the source.
pub proof fn law_the_handler_is_in_the_archive(source: &str, packed: Result<Vec<u8>, String>)
    requires
        call_ensures(deployment_zip, (source,), packed),
    ensures
        exists|module: Seq<char>|
            {
                let file = #[trigger] (module + ".py"@);
                &&& HANDLER@ == module + ".handler"@
                &&& match packed {
                    Ok(archive) => zip_written(file, source.spec_bytes()) == Ok::<
                        Seq<u8>,
                        Seq<char>,
                    >(archive@),
                    Err(why) => zip_written(file, source.spec_bytes()) == Err::<
                        Seq<u8>,
                        Seq<char>,
                    >(why@),
                }
            },
{
    reveal_strlit("lambda_function.handler");
    reveal_strlit("lambda_function");
    reveal_strlit(".handler");
    reveal_strlit(".py");
    reveal_strlit("lambda_function.py");
    let module = "lambda_function"@;
    assert(HANDLER@ =~= module + ".handler"@);
    assert("lambda_function.py"@ =~= module + ".py"@);
    assert(zip_written(module + ".py"@, source.spec_bytes()) == zip_written(
        "lambda_function.py"@,
        source.spec_bytes(),
    ));
}

/// Lambda may assume a role that is created for a function.
pub proof fn law_lambda_may_assume_its_roles()
    ensures
        has_text(
            LAMBDA_TRUST@,
            "{\"Effect\":\"Allow\",\"Principal\":{\"Service\":\"lambda.amazonaws.com\"},\"Action\":\"sts:AssumeRole\"}"@,
        ),
{
    reveal_strlit(
        "{\"Version\":\"2012-10-17\",\"Statement\":[{\"Effect\":\"Allow\",\"Principal\":{\"Service\":\"lambda.amazonaws.com\"},\"Action\":\"sts:AssumeRole\"}]}",
    );
    reveal_strlit(
        "{\"Effect\":\"Allow\",\"Principal\":{\"Service\":\"lambda.amazonaws.com\"},\"Action\":\"sts:AssumeRole\"}",
    );
    let grant = "{\"Effect\":\"Allow\",\"Principal\":{\"Service\":\"lambda.amazonaws.com\"},\"Action\":\"sts:AssumeRole\"}"@;
    assert(LAMBDA_TRUST@.subrange(37, 37 + grant.len() as int) =~= grant);
    assert(stands_at(LAMBDA_TRUST@, grant, 37));
}

/// Archives that are made at once do not get in each other's way: different tags make
/// different names, and the extension is the last of a name.
pub proof fn law_archives_have_names_of_their_own(
    prefix: Seq<char>,
    a: Seq<u8>,
    b: Seq<u8>,
    extension: Seq<char>,
)
    requires
        a != b,
        a.len() == b.len(),
    ensures
        temp_named(prefix, a, extension) != temp_named(prefix, b, extension),
        prefix.is_prefix_of(temp_named(prefix, a, extension)),
        ("."@ + extension).is_suffix_of(temp_named(prefix, a, extension)),
{
    lemma_hex_shape(a);
    lemma_hex_shape(b);
    let (x, y) = (temp_named(prefix, a, extension), temp_named(prefix, b, extension));
    let (from, to) = (prefix.len() as int, (prefix.len() + 2 * a.len()) as int);
    assert(x.subrange(from, to) =~= hex(a));
    assert(y.subrange(from, to) =~= hex(b));
    if x == y {
        lemma_hex_injective(a, b);
    }
    assert(prefix =~= x.subrange(0, from));
    let last = "."@ + extension;
    assert(last =~= x.subrange(x.len() - last.len(), x.len() as int));
}

} // verus!
