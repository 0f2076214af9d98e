//! Where the helper and the command runner are.

use vstd::prelude::*;

use crate::native_path;
use crate::native_path::{NativePath, PathModel};
use crate::outside;
use crate::setup::ResourceSource;
use crate::setup_error::WindowsSetupError;
use crate::text;
use crate::utf16;

verus! {

/// The helper's name.
pub const SETUP_HELPER_NAME: &'static str = "cageforge-windows-setup.exe";

/// The command runner's name.
pub const COMMAND_RUNNER_NAME: &'static str = "cageforge-windows-command-runner.exe";

/// The directory of programs in a package.
pub const BIN_DIRNAME: &'static str = "bin";

/// The directory of resources.
pub const RESOURCES_DIRNAME: &'static str = "cageforge-resources";

/// The places where a program that belongs to another may be, the first one
/// that is there counting: beside it; for a program in a package's `bin`
/// directory, among the package's resources; and among the resources beside
/// it.
pub open spec fn places(executable: PathModel, name: Seq<char>) -> Seq<PathModel> {
    match executable.parent() {
        None => Seq::empty(),
        Some(directory) => {
            let unit_name = utf16::encode(name);
            let resources = utf16::encode("cageforge-resources"@);
            let beside = directory.child(unit_name);
            let among = directory.child(resources).child(unit_name);
            if directory.parts.len() > 0 && directory.parts.last() == utf16::encode("bin"@) {
                let package = PathModel { parts: directory.parts.drop_last(), ..directory };
                seq![beside, package.child(resources).child(unit_name), among]
            } else {
                seq![beside, among]
            }
        },
    }
}

/// The places where a program that belongs to another may be.
pub fn bundled_candidates(executable: &NativePath, name: &str) -> (candidates: Vec<NativePath>)
    ensures
        native_path::models(candidates@) == places(executable@, name@),
{
    let mut candidates: Vec<NativePath> = Vec::new();
    match executable.parent() {
        None => {
            assert(native_path::models(candidates@) =~= places(executable@, name@));
        },
        Some(directory) => {
            candidates.push(directory.child(name));
            let bin = utf16::encode_text(BIN_DIRNAME);
            let count: usize = directory.parts.len();
            if count > 0 {
                assert(directory@.parts.last() == directory.parts@[count - 1]@);
            }
            if count > 0 && native_path::same_units(&directory.parts[count - 1], &bin) {
                match directory.parent() {
                    Some(package) => {
                        candidates.push(package.child(RESOURCES_DIRNAME).child(name));
                    },
                    None => {},
                }
            }
            candidates.push(directory.child(RESOURCES_DIRNAME).child(name));
            assert(native_path::models(candidates@) =~= places(executable@, name@));
        },
    }
    candidates
}

/// The first of some places that is a file.
pub open spec fn first_file(candidates: Seq<PathModel>, is_file: Seq<bool>) -> Option<PathModel>
    decreases candidates.len(),
{
    if candidates.len() == 0 || is_file.len() == 0 {
        None
    } else if is_file[0] {
        Some(candidates[0])
    } else {
        first_file(candidates.skip(1), is_file.skip(1))
    }
}

/// Finds a program that belongs to another, given which of the places are
/// files.
pub fn bundled_resource_path_for_exe(executable: &NativePath, name: &str, is_file: &Vec<bool>) -> (
    path: Option<NativePath>)
    ensures
        match path {
            Some(found) => first_file(places(executable@, name@), is_file@) == Some(found@),
            None => first_file(places(executable@, name@), is_file@) is None,
        },
{
    let candidates = bundled_candidates(executable, name);
    let ghost all = places(executable@, name@);
    let ghost files = is_file@;
    let mut i: usize = 0;
    assert(all.skip(0) =~= all);
    assert(files.skip(0) =~= files);
    while i < candidates.len() && i < is_file.len()
        invariant
            all == places(executable@, name@),
            files == is_file@,
            native_path::models(candidates@) == all,
            i <= candidates@.len(),
            i <= files.len(),
            first_file(all, files) == first_file(all.skip(i as int), files.skip(i as int)),
        decreases candidates@.len() - i,
    {
        assert(all.skip(i as int).skip(1) =~= all.skip(i + 1));
        assert(files.skip(i as int).skip(1) =~= files.skip(i + 1));
        assert(all[i as int] == candidates@[i as int]@);
        if is_file[i] {
            return Some(candidates[i].clone());
        }
        i = i + 1;
    }
    assert(all.len() == candidates@.len());
    None
}

/// What this program knows of itself.
#[derive(Debug)]
pub enum OwnPath {
    /// Its path.
    Known(NativePath),
    /// Why its path is not known.
    Unknown(String),
}

/// Finds a program.
///
/// A program beside this one need not be there: whether it can be run shows
/// later.
pub fn resolve_resource<E>(
    source: &ResourceSource,
    name: &str,
    own: &OwnPath,
    is_file: &Vec<bool>,
    missing: String,
    no_parent: String,
) -> (path: Result<NativePath, WindowsSetupError<E>>)
    ensures
        match *source {
            ResourceSource::Explicit(given) => path matches Ok(found) && found@ == given@,
            ResourceSource::Bundled => match *own {
                OwnPath::Unknown(cause) => path matches Err(
                    WindowsSetupError::HelperUnavailable { detail },
                ) && detail@ == cause@,
                OwnPath::Known(executable) => match first_file(
                    places(executable@, name@),
                    is_file@,
                ) {
                    Some(place) => path matches Ok(found) && found@ == place,
                    None => path == Err::<NativePath, WindowsSetupError<E>>(
                        WindowsSetupError::HelperUnavailable { detail: missing },
                    ),
                },
            },
            ResourceSource::Sibling => match *own {
                OwnPath::Unknown(cause) => path matches Err(
                    WindowsSetupError::HelperUnavailable { detail },
                ) && detail@ == cause@,
                OwnPath::Known(executable) => match executable@.parent() {
                    Some(directory) => path matches Ok(found) && found@ == directory.child(
                        utf16::encode(name@),
                    ),
                    None => path == Err::<NativePath, WindowsSetupError<E>>(
                        WindowsSetupError::HelperUnavailable { detail: no_parent },
                    ),
                },
            },
        },
{
    match source {
        ResourceSource::Explicit(given) => Ok(given.clone()),
        ResourceSource::Bundled => match own {
            OwnPath::Unknown(cause) => Err(
                WindowsSetupError::HelperUnavailable { detail: cause.as_str().to_owned() },
            ),
            OwnPath::Known(executable) => {
                match bundled_resource_path_for_exe(executable, name, is_file) {
                    Some(place) => Ok(place),
                    None => Err(WindowsSetupError::HelperUnavailable { detail: missing }),
                }
            },
        },
        ResourceSource::Sibling => match own {
            OwnPath::Unknown(cause) => Err(
                WindowsSetupError::HelperUnavailable { detail: cause.as_str().to_owned() },
            ),
            OwnPath::Known(executable) => match executable.parent() {
                Some(directory) => Ok(directory.child(name)),
                None => Err(WindowsSetupError::HelperUnavailable { detail: no_parent }),
            },
        },
    }
}

/// The digest of a file's contents, in hexadecimal.
pub fn file_digest(contents: &[u8]) -> (digest: String)
    ensures
        digest@ == text::hex(outside::sha256_digest(contents@)),
        digest@.len() == 64,
{
    let digest = outside::sha256(contents);
    text::hex_text(digest.as_slice())
}

/// A program beside this one is preferred to one among the resources.
pub proof fn beside_comes_first(executable: PathModel, name: Seq<char>, is_file: Seq<bool>)
    requires
        executable.parts.len() > 0,
        is_file.len() > 0,
        is_file[0],
    ensures
        first_file(places(executable, name), is_file) == Some(
            (PathModel { parts: executable.parts.drop_last(), ..executable }).child(
                utf16::encode(name),
            ),
        ),
{
}

/// The file that is taken is the first place where there is one; none is where there
/// is none.
pub proof fn the_first_file_is_taken(candidates: Seq<PathModel>, is_file: Seq<bool>, i: int)
    requires
        candidates.len() == is_file.len(),
    ensures
        first_file(candidates, is_file) is None <==> forall|k: int|
            0 <= k < is_file.len() ==> !#[trigger] is_file[k],
        0 <= i < is_file.len() && is_file[i] && (forall|k: int|
            0 <= k < i ==> !#[trigger] is_file[k]) ==> first_file(candidates, is_file) == Some(
            candidates[i],
        ),
    decreases candidates.len(),
{
    if candidates.len() > 0 && !is_file[0] {
        let rest = is_file.skip(1);
        the_first_file_is_taken(candidates.skip(1), rest, i - 1);
        assert(forall|k: int| 0 <= k < rest.len() ==> #[trigger] rest[k] == is_file[k + 1]);
        assert(forall|k: int| 1 <= k < is_file.len() ==> #[trigger] is_file[k] == rest[k - 1]);
    }
}

/// A resource is looked for under its own name, beside the program and among its
/// resources, and for a program of a package among those of the package.
pub proof fn resources_lie_with_the_program(executable: PathModel, name: Seq<char>, i: int)
    requires
        0 <= i < places(executable, name).len(),
    ensures
        executable.parts.len() > 0,
        places(executable, name)[i].parts.last() == utf16::encode(name),
        places(executable, name)[i].prefix == executable.prefix,
        places(executable, name)[0].parts == executable.parts.drop_last().push(utf16::encode(name)),
        i > 0 ==> places(executable, name)[i].parts[places(executable, name)[i].parts.len() - 2]
            == utf16::encode("cageforge-resources"@),
        places(executable, name)[places(executable, name).len() - 1].parts
            == executable.parts.drop_last().push(utf16::encode("cageforge-resources"@)).push(
            utf16::encode(name),
        ),
        places(executable, name).len() == 3 <==> executable.parts.len() > 1
            && executable.parts[executable.parts.len() - 2] == utf16::encode("bin"@),
        places(executable, name).len() == 2 || places(executable, name).len() == 3,
        places(executable, name).len() == 3 ==> places(executable, name)[1].parts
            == executable.parts.drop_last().drop_last().push(
            utf16::encode("cageforge-resources"@),
        ).push(utf16::encode(name)),
{
}

} // verus!
