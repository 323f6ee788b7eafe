//! Moving a model between categories: where its directory goes. The model directory keeps the
//! name it already has; only the category path in front of it changes.

use vstd::prelude::*;
use crate::agent::{file_name_in, file_name_of};
use crate::text::{drop_trailing, push_all, without_trailing};

verus! {

/// `PATCH /api/parts/{id}`'s body.
#[derive(Debug)]
pub struct MovePart {
    /// The category to file it under, or `None` for the library root: a real target, and not
    /// the absence of one.
    pub folder_id: Option<String>,
    /// The client has seen the collision warning and wants it anyway.
    pub acknowledge_duplicate: bool,
}

/// Where a model directory goes: `libraries/{library}/{category…}` without a trailing `/`, then
/// the name the directory already has (what follows the last `/` of its current path).
pub open spec fn destination_of(library_slug: Seq<char>, category: Seq<char>, old_directory: Seq<char>) -> Seq<char> {
    drop_trailing("libraries/"@ + library_slug + "/"@ + category, '/') + "/"@ + file_name_in(
        old_directory,
    )
}

/// The directory a moved model lands in, before any disambiguation: `category` is the target's
/// slug path, empty for the library root.
pub fn model_destination(library_slug: &str, category: &str, old_directory: &str) -> (s: String)
    ensures
        s@ == destination_of(library_slug@, category@, old_directory@),
{
    let mut base = "libraries/".to_owned();
    push_all(&mut base, library_slug);
    push_all(&mut base, "/");
    push_all(&mut base, category);
    let mut s = without_trailing(base.as_str(), '/');
    push_all(&mut s, "/");
    let model = file_name_of(old_directory);
    push_all(&mut s, model.as_str());
    s
}

/// The model being moved, as the database holds it.
#[derive(Debug)]
pub struct MoveSource {
    pub library: String,
    /// The category it is filed under, or `None` for the library root.
    pub folder: Option<String>,
    /// Its directory in the store; `None` until the storage migration reaches it.
    pub directory: Option<String>,
    /// The hash of its source bytes; `None` until the storage migration reaches it.
    pub source_hash: Option<String>,
    pub name: String,
}

/// What a move does next, given what has been looked up so far.
#[derive(Debug, Clone, PartialEq, Eq)]
pub enum MoveStep {
    /// There is no live part with that id.
    NoSuchPart,
    /// It is already filed there: nothing to do, and no destination is worked out.
    Unchanged,
    /// The storage migration has not reached this model.
    MigrationPending,
    /// Look up which library the target category is in.
    LookUpTarget,
    /// The target category does not exist.
    NoSuchFolder,
    /// The target category is in another library.
    OtherLibrary,
    /// Ask whether a model of the same name is already in the target.
    CheckName,
    /// A model of the same name is already there, and the client has not said it knows.
    Duplicate,
    /// Rename the model directory `from`, whose bytes hash to `hash`, into the target.
    Relocate { from: String, hash: String },
}

/// The characters of an optional string.
pub open spec fn opt_text(s: Option<String>) -> Option<Seq<char>> {
    crate::filters::text_of(s)
}

/// The next step of a move, in order: no such part; nothing to do when it is already filed
/// there, decided before any destination is; not migrated yet; a target that does not exist or
/// is in another library; a name already taken there, unless acknowledged; otherwise relocate.
/// `target_library` is the target's library once looked up (`Some(None)` when there is no such
/// category); `name_taken` is the duplicate check's answer once asked.
pub open spec fn move_step_of(
    source: Option<MoveSource>,
    body: MovePart,
    target_library: Option<Option<Seq<char>>>,
    name_taken: Option<bool>,
) -> MoveStep {
    match source {
        None => MoveStep::NoSuchPart,
        Some(src) => if opt_text(src.folder) == opt_text(body.folder_id) {
            MoveStep::Unchanged
        } else if src.directory is None || src.source_hash is None {
            MoveStep::MigrationPending
        } else if body.folder_id is Some && target_library is None {
            MoveStep::LookUpTarget
        } else if body.folder_id is Some && target_library == Some(None::<Seq<char>>) {
            MoveStep::NoSuchFolder
        } else if body.folder_id is Some && target_library.unwrap().unwrap() != src.library@ {
            MoveStep::OtherLibrary
        } else if !body.acknowledge_duplicate && name_taken is None {
            MoveStep::CheckName
        } else if !body.acknowledge_duplicate && name_taken == Some(true) {
            MoveStep::Duplicate
        } else {
            MoveStep::Relocate { from: src.directory.unwrap(), hash: src.source_hash.unwrap() }
        },
    }
}

/// Whether two optional strings hold the same characters.
fn same_opt(a: &Option<String>, b: &Option<String>) -> (r: bool)
    ensures
        r == (opt_text(*a) == opt_text(*b)),
{
    match (a, b) {
        (None, None) => true,
        (Some(x), Some(y)) => crate::text::same_text(x.as_str(), y.as_str()),
        _ => false,
    }
}

/// The next step of `PATCH /api/parts/{id}`.
pub fn move_step(
    source: Option<&MoveSource>,
    body: &MovePart,
    target_library: Option<Option<&str>>,
    name_taken: Option<bool>,
) -> (s: MoveStep)
    ensures
        ({
            let spec_source = match source {
                Some(x) => Some(*x),
                None => None,
            };
            match move_step_of(spec_source, *body, match target_library {
                Some(Some(l)) => Some(Some(l@)),
                Some(None) => Some(None),
                None => None,
            }, name_taken) {
                MoveStep::Relocate { from, hash } => s matches MoveStep::Relocate { from: f, hash: h }
                    && f@ == from@ && h@ == hash@,
                other => s == other,
            }
        }),
{
    let src = match source {
        None => return MoveStep::NoSuchPart,
        Some(src) => src,
    };
    if same_opt(&src.folder, &body.folder_id) {
        return MoveStep::Unchanged;
    }
    let (directory, hash) = match (&src.directory, &src.source_hash) {
        (Some(d), Some(h)) => (d, h),
        _ => return MoveStep::MigrationPending,
    };
    if body.folder_id.is_some() {
        match target_library {
            None => return MoveStep::LookUpTarget,
            Some(None) => return MoveStep::NoSuchFolder,
            Some(Some(owner)) => {
                if !crate::text::same_text(owner, src.library.as_str()) {
                    return MoveStep::OtherLibrary;
                }
            },
        }
    }
    if !body.acknowledge_duplicate {
        match name_taken {
            None => return MoveStep::CheckName,
            Some(true) => return MoveStep::Duplicate,
            Some(false) => {},
        }
    }
    MoveStep::Relocate { from: directory.clone(), hash: hash.clone() }
}

/// A refused move's reason and sentence.
pub open spec fn move_refusal_of(step: MoveStep, name: Seq<char>) -> Option<(Seq<char>, Seq<char>)> {
    match step {
        MoveStep::NoSuchPart => Some(("noSuchPart"@, NO_SUCH_PART@)),
        MoveStep::MigrationPending => Some(("migrationPending"@, MIGRATION_PENDING@)),
        MoveStep::NoSuchFolder => Some(("noSuchFolder"@, NO_SUCH_FOLDER@)),
        MoveStep::OtherLibrary => Some(("crossLibrary"@, OTHER_LIBRARY@)),
        MoveStep::Duplicate => Some(("duplicateName"@, "A model called `"@ + name + DUPLICATE_TAIL@)),
        _ => None,
    }
}

/// No live part with that id.
pub const NO_SUCH_PART: &'static str = "There is no model with that id. It may have been deleted — reload the grid and try again.";
/// Not migrated yet.
pub const MIGRATION_PENDING: &'static str = "This model has not finished moving into the new storage layout yet. Wait for the storage migration to finish, then try again.";
/// No such target category.
pub const NO_SUCH_FOLDER: &'static str = "There is no category with that id, so there is nowhere to file this model. Reload the category tree and try again.";
/// A target in another library.
pub const OTHER_LIBRARY: &'static str = "That category is in a different library. A model can only be filed under a category in its own library — pick one from this library's tree.";
/// After the name of a model already in the target.
pub const DUPLICATE_TAIL: &'static str = "` is already in that category. Two models can share a name — they are told apart by where they came from — so send the same move again with acknowledgeDuplicate set if that is what you meant.";

/// The reason and sentence a move step refuses with, naming the model `name` for a duplicate;
/// `None` for a step that refuses nothing.
pub fn move_refusal(step: &MoveStep, name: &str) -> (r: Option<(&'static str, String)>)
    ensures
        match move_refusal_of(*step, name@) {
            Some((reason, message)) => r matches Some(p) && p.0@ == reason && p.1@ == message,
            None => r is None,
        },
{
    match step {
        MoveStep::NoSuchPart => Some(("noSuchPart", NO_SUCH_PART.to_owned())),
        MoveStep::MigrationPending => Some(("migrationPending", MIGRATION_PENDING.to_owned())),
        MoveStep::NoSuchFolder => Some(("noSuchFolder", NO_SUCH_FOLDER.to_owned())),
        MoveStep::OtherLibrary => Some(("crossLibrary", OTHER_LIBRARY.to_owned())),
        MoveStep::Duplicate => {
            let mut m = "A model called `".to_owned();
            push_all(&mut m, name);
            push_all(&mut m, DUPLICATE_TAIL);
            Some(("duplicateName", m))
        },
        _ => None,
    }
}

/// A move is a no-op exactly when the model is already filed where it is sent: its category and
/// the target are the same, the library root counting as one place. A model sent anywhere else,
/// the root to a category included, is never left where it is.
pub proof fn unchanged_only_when_already_there(
    source: Option<MoveSource>,
    body: MovePart,
    target_library: Option<Option<Seq<char>>>,
    name_taken: Option<bool>,
)
    ensures
        (move_step_of(source, body, target_library, name_taken) == MoveStep::Unchanged) <==> (
        source matches Some(src) && opt_text(src.folder) == opt_text(body.folder_id)),
{
}

/// A move that has passed every check relocates the model from its own directory: it is sent
/// somewhere other than where it is filed, it has been migrated, the target is in its library
/// (or is the library root), and its name is free there or the client has said it knows.
pub proof fn a_clear_move_relocates(
    src: MoveSource,
    body: MovePart,
    target_library: Option<Option<Seq<char>>>,
    name_taken: Option<bool>,
)
    requires
        opt_text(src.folder) != opt_text(body.folder_id),
        src.directory is Some,
        src.source_hash is Some,
        body.folder_id is None || target_library == Some(Some(src.library@)),
        body.acknowledge_duplicate || name_taken == Some(false),
    ensures
        move_step_of(Some(src), body, target_library, name_taken) == (MoveStep::Relocate {
            from: src.directory.unwrap(),
            hash: src.source_hash.unwrap(),
        }),
{
}

} // verus!
