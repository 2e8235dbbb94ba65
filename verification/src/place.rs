//! Where dove keeps its files: under `$XDG_CONFIG_HOME`, or under the home
//! directory's `.config`.

use vstd::prelude::*;

use crate::aws::maybe;

verus! {

/// A file's place: a directory, and the path below it.
pub struct Place {
    pub base: String,
    pub below: String,
}

/// A file's place.
pub struct PlaceView {
    pub base: Seq<char>,
    pub below: Seq<char>,
}

impl View for Place {
    type V = PlaceView;

    open spec fn view(&self) -> PlaceView {
        PlaceView { base: self.base@, below: self.below@ }
    }
}

/// Where the file of this name lies, given `$XDG_CONFIG_HOME` and `$HOME`.
pub open spec fn placed(
    config_home: Option<Seq<char>>,
    home: Option<Seq<char>>,
    file: Seq<char>,
) -> Result<PlaceView, Seq<char>> {
    if config_home matches Some(base) && base.len() > 0 {
        Ok(PlaceView { base: config_home->0, below: "dove/"@ + file })
    } else {
        match home {
            Some(base) => Ok(PlaceView { base, below: ".config/dove/"@ + file }),
            None => Err("HOME is not set"@),
        }
    }
}

/// Places one of dove's files. An empty `$XDG_CONFIG_HOME` counts as unset.
pub fn place_of(config_home: &Option<String>, home: &Option<String>, file: &str) -> (r: Result<
    Place,
    String,
>)
    ensures
        match r {
            Ok(place) => placed(maybe(*config_home), maybe(*home), file@) == Ok::<
                PlaceView,
                Seq<char>,
            >(place@),
            Err(why) => placed(maybe(*config_home), maybe(*home), file@) == Err::<
                PlaceView,
                Seq<char>,
            >(why@),
        },
{
    if let Some(base) = config_home {
        if !base.as_str().is_empty() {
            return Ok(Place { base: base.clone(), below: "dove/".to_string().concat(file) });
        }
    }
    match home {
        Some(base) => Ok(
            Place { base: base.clone(), below: ".config/dove/".to_string().concat(file) },
        ),
        None => Err("HOME is not set".to_string()),
    }
}

/// A file lies below the configuration home, where that is set and not empty, and below
/// the home directory otherwise; it keeps its name, and two files lie in one place only
/// if they are one.
pub proof fn law_files_have_their_places(
    config_home: Option<Seq<char>>,
    home: Option<Seq<char>>,
    file: Seq<char>,
    other: Seq<char>,
)
    ensures
        placed(config_home, home, file) is Err <==> home is None && (config_home is None
            || config_home->0.len() == 0),
        placed(config_home, home, file) matches Ok(place) ==> {
            &&& place.base == if config_home is Some && config_home->0.len() > 0 {
                config_home->0
            } else {
                home->0
            }
            &&& ("dove/"@ + file).is_suffix_of(place.below)
            &&& placed(config_home, home, other) == placed(config_home, home, file) ==> other
                == file
        },
{
    if let Ok(place) = placed(config_home, home, file) {
        let named = "dove/"@ + file;
        reveal_strlit("dove/");
        reveal_strlit(".config/dove/");
        assert(named =~= place.below.subrange(
            place.below.len() - named.len(),
            place.below.len() as int,
        ));
        if placed(config_home, home, other) == placed(config_home, home, file) {
            let front = place.below.len() - file.len();
            let again = placed(config_home, home, other)->Ok_0.below;
            assert(file =~= place.below.skip(front));
            assert(other =~= again.skip(front));
        }
    }
}

/// The place that is found for a file is the file's.
pub proof fn law_places_are_found_as_placed(
    config_home: Option<String>,
    home: Option<String>,
    file: &str,
    found: Result<Place, String>,
)
    requires
        call_ensures(place_of, (&config_home, &home, file), found),
    ensures
        found is Ok <==> home is Some || (config_home is Some && config_home->0@.len() > 0),
        found matches Ok(place) ==> {
            &&& ("dove/"@ + file@).is_suffix_of(place@.below)
            &&& place@.base == if config_home is Some && config_home->0@.len() > 0 {
                config_home->0@
            } else {
                home->0@
            }
        },
{
    law_files_have_their_places(maybe(config_home), maybe(home), file@, file@);
}

} // verus!
