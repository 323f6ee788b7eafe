//! Saved filters: a name for a set of the grid's filters, kept per library. What a name and a
//! search must be before they are kept.

use vstd::prelude::*;
use crate::text::{trim, trimmed};

verus! {

/// The longest name a saved filter takes, in characters.
pub const NAME_MAX: usize = 80;
/// The longest single value a filter keeps, in characters.
pub const VALUE_MAX: usize = 512;

/// A blank name.
pub const EMPTY_NAME: &'static str = "A saved filter needs a name. Type one and save again.";
/// A name over [`NAME_MAX`].
pub const NAME_TOO_LONG: &'static str = "A saved filter's name can be at most 80 characters. Shorten it and save again.";
/// A value over [`VALUE_MAX`].
pub const VALUE_TOO_LONG: &'static str = "A saved filter keeps values of at most 512 characters. Shorten the search and save again.";
/// A search that filters by nothing.
pub const EMPTY_SEARCH: &'static str = "There is nothing to save yet. Set a search, a category, a format, a material, a tag or a field on the grid, then save it.";

/// The grid's filters, as its URL carries them. An absent field is no filter on it.
#[derive(Debug, Clone)]
pub struct FilterSearch {
    pub q: Option<String>,
    /// The category's id.
    pub folder_id: Option<String>,
    pub format: Option<String>,
    pub material: Option<String>,
    pub tag: Option<String>,
    /// One custom field this library offers as a filter, with `field_value`.
    pub field: Option<String>,
    pub field_value: Option<String>,
    /// With `field`, a number field's range in place of `field_value`: either bound, or both.
    pub field_min: Option<String>,
    pub field_max: Option<String>,
}

/// A [`FilterSearch`] by the characters each filter holds.
pub struct SearchView {
    pub q: Option<Seq<char>>,
    pub folder_id: Option<Seq<char>>,
    pub format: Option<Seq<char>>,
    pub material: Option<Seq<char>>,
    pub tag: Option<Seq<char>>,
    pub field: Option<Seq<char>>,
    pub field_value: Option<Seq<char>>,
    pub field_min: Option<Seq<char>>,
    pub field_max: Option<Seq<char>>,
}

/// The characters of an optional string.
pub open spec fn text_of(s: Option<String>) -> Option<Seq<char>> {
    match s {
        Some(t) => Some(t@),
        None => None,
    }
}

impl View for FilterSearch {
    type V = SearchView;

    open spec fn view(&self) -> SearchView {
        SearchView {
            q: text_of(self.q),
            folder_id: text_of(self.folder_id),
            format: text_of(self.format),
            material: text_of(self.material),
            tag: text_of(self.tag),
            field: text_of(self.field),
            field_value: text_of(self.field_value),
            field_min: text_of(self.field_min),
            field_max: text_of(self.field_max),
        }
    }
}

/// `PATCH /api/libraries/{library}/filters/{filter}`.
#[derive(Debug)]
pub struct RenameSavedFilter {
    pub name: String,
}

/// `POST /api/libraries/{library}/filters/{filter}/move`.
#[derive(Debug)]
pub struct MoveSavedFilter {
    pub direction: MoveDirection,
}

/// One place up the list, or one place down it.
#[derive(Debug, Clone, Copy, PartialEq, Eq, Structural)]
pub enum MoveDirection {
    Up,
    Down,
}

/// `POST /api/libraries/{id}/filters`.
#[derive(Debug)]
pub struct NewSavedFilter {
    pub name: String,
    pub search: FilterSearch,
}

/// A saved filter's name trimmed, or why it cannot be one.
pub open spec fn name_tidied(name: Seq<char>) -> Result<Seq<char>, (Seq<char>, Seq<char>)> {
    let t = trimmed(name);
    if t.len() == 0 {
        Err(("emptyName"@, EMPTY_NAME@))
    } else if t.len() > NAME_MAX {
        Err(("nameTooLong"@, NAME_TOO_LONG@))
    } else {
        Ok(t)
    }
}

/// A refusal by its characters.
pub open spec fn refusal_view(r: Result<String, (&'static str, String)>) -> Result<
    Seq<char>,
    (Seq<char>, Seq<char>),
> {
    match r {
        Ok(t) => Ok(t@),
        Err(e) => Err((e.0@, e.1@)),
    }
}

/// A name trimmed, and refused with the reason and the sentence to show when it is empty or too
/// long.
pub fn tidy_name(name: &str) -> (r: Result<String, (&'static str, String)>)
    ensures
        refusal_view(r) == name_tidied(name@),
{
    let t = trim(name);
    let n = crate::text::chars_of(t.as_str()).len();
    if n == 0 {
        return Err(("emptyName", EMPTY_NAME.to_owned()));
    }
    if n > NAME_MAX {
        return Err(("nameTooLong", NAME_TOO_LONG.to_owned()));
    }
    Ok(t)
}

/// A value over [`VALUE_MAX`] once trimmed.
pub open spec fn too_long(v: Option<Seq<char>>) -> bool {
    v matches Some(s) && trimmed(s).len() > VALUE_MAX
}

/// A value trimmed, and dropped when nothing is left.
pub open spec fn kept(v: Option<Seq<char>>) -> Option<Seq<char>> {
    match v {
        Some(s) => if trimmed(s).len() == 0 {
            None
        } else {
            Some(trimmed(s))
        },
        None => None,
    }
}

/// The search filters by nothing at all.
pub open spec fn filters_nothing(s: SearchView) -> bool {
    &&& s.q is None
    &&& s.folder_id is None
    &&& s.format is None
    &&& s.material is None
    &&& s.tag is None
    &&& s.field is None
    &&& s.field_value is None
    &&& s.field_min is None
    &&& s.field_max is None
}

/// A search as kept: each value trimmed and a blank one dropped, and a field with neither a value
/// nor a bound, or a value or bound without its field, dropped as a whole. Refused when a value
/// is too long, or when nothing is left to filter by.
pub open spec fn search_tidied(s: SearchView) -> Result<SearchView, (Seq<char>, Seq<char>)> {
    if too_long(s.q) || too_long(s.format) || too_long(s.material) || too_long(s.tag) || too_long(
        s.field,
    ) || too_long(s.field_value) || too_long(s.field_min) || too_long(s.field_max) {
        Err(("valueTooLong"@, VALUE_TOO_LONG@))
    } else {
        let field = kept(s.field);
        let value = kept(s.field_value);
        let min = kept(s.field_min);
        let max = kept(s.field_max);
        let whole = field is Some && (value is Some || min is Some || max is Some);
        let t = SearchView {
            q: kept(s.q),
            folder_id: s.folder_id,
            format: kept(s.format),
            material: kept(s.material),
            tag: kept(s.tag),
            field: if whole { field } else { None },
            field_value: if whole { value } else { None },
            field_min: if whole { min } else { None },
            field_max: if whole { max } else { None },
        };
        if filters_nothing(t) {
            Err(("emptySearch"@, EMPTY_SEARCH@))
        } else {
            Ok(t)
        }
    }
}

/// One value trimmed and dropped when blank, or `Err` when it is too long.
fn keep(value: Option<String>) -> (r: Result<Option<String>, ()>)
    ensures
        too_long(text_of(value)) <==> r is Err,
        r matches Ok(v) ==> text_of(v) == kept(text_of(value)),
{
    match value {
        None => Ok(None),
        Some(v) => {
            let t = trim(v.as_str());
            let n = crate::text::chars_of(t.as_str()).len();
            if n > VALUE_MAX {
                Err(())
            } else if n == 0 {
                Ok(None)
            } else {
                Ok(Some(t))
            }
        },
    }
}

/// A search by its characters, or the refusal's.
pub open spec fn search_view(r: Result<FilterSearch, (&'static str, String)>) -> Result<
    SearchView,
    (Seq<char>, Seq<char>),
> {
    match r {
        Ok(s) => Ok(s@),
        Err(e) => Err((e.0@, e.1@)),
    }
}

/// Each value trimmed and an empty one dropped. Refused, with the reason and the sentence to
/// show, when a value is too long or when nothing is left to filter by.
pub fn tidy(search: FilterSearch) -> (r: Result<FilterSearch, (&'static str, String)>)
    ensures
        search_view(r) == search_tidied(search@),
{
    let ghost s = search@;
    let too = Err(("valueTooLong", VALUE_TOO_LONG.to_owned()));
    let q = match keep(search.q) {
        Ok(v) => v,
        Err(_) => return too,
    };
    let format = match keep(search.format) {
        Ok(v) => v,
        Err(_) => return too,
    };
    let material = match keep(search.material) {
        Ok(v) => v,
        Err(_) => return too,
    };
    let tag = match keep(search.tag) {
        Ok(v) => v,
        Err(_) => return too,
    };
    let field = match keep(search.field) {
        Ok(v) => v,
        Err(_) => return too,
    };
    let field_value = match keep(search.field_value) {
        Ok(v) => v,
        Err(_) => return too,
    };
    let field_min = match keep(search.field_min) {
        Ok(v) => v,
        Err(_) => return too,
    };
    let field_max = match keep(search.field_max) {
        Ok(v) => v,
        Err(_) => return too,
    };
    let whole = field.is_some() && (field_value.is_some() || field_min.is_some()
        || field_max.is_some());
    let t = if whole {
        FilterSearch {
            q,
            folder_id: search.folder_id,
            format,
            material,
            tag,
            field,
            field_value,
            field_min,
            field_max,
        }
    } else {
        FilterSearch {
            q,
            folder_id: search.folder_id,
            format,
            material,
            tag,
            field: None,
            field_value: None,
            field_min: None,
            field_max: None,
        }
    };
    if t.q.is_none() && t.folder_id.is_none() && t.format.is_none() && t.material.is_none()
        && t.tag.is_none() && t.field.is_none() && t.field_value.is_none() && t.field_min.is_none()
        && t.field_max.is_none() {
        return Err(("emptySearch", EMPTY_SEARCH.to_owned()));
    }
    Ok(t)
}

/// A category from another library.
pub const CROSS_LIBRARY_FOLDER: &'static str = "That category is not in this library, so a filter here cannot keep it. Choose a category from this library's tree and save again.";

/// What saving a filter in `library` comes to, once the name and the search are tidied: refused
/// (the reason and the sentence), `Ok(None)` while the category's library has still to be looked
/// up, or `Ok(Some((name, search)))` to keep. `folder_library` is that lookup's answer:
/// `Some(None)` when there is no such category. A category that is not in `library`, or not at
/// all, is refused.
pub open spec fn filter_check_of(
    library: Seq<char>,
    name: Seq<char>,
    search: SearchView,
    folder_library: Option<Option<Seq<char>>>,
) -> Result<Option<(Seq<char>, SearchView)>, (Seq<char>, Seq<char>)> {
    match name_tidied(name) {
        Err(e) => Err(e),
        Ok(n) => match search_tidied(search) {
            Err(e) => Err(e),
            Ok(t) => if t.folder_id is None || folder_library == Some(Some(library)) {
                Ok(Some((n, t)))
            } else if folder_library is None {
                Ok(None)
            } else {
                Err(("crossLibraryFolder"@, CROSS_LIBRARY_FOLDER@))
            },
        },
    }
}

/// A check's result by its characters.
pub open spec fn check_view(r: Result<Option<(String, FilterSearch)>, (&'static str, String)>) -> Result<
    Option<(Seq<char>, SearchView)>,
    (Seq<char>, Seq<char>),
> {
    match r {
        Ok(Some((n, t))) => Ok(Some((n@, t@))),
        Ok(None) => Ok(None),
        Err(e) => Err((e.0@, e.1@)),
    }
}

/// `POST /api/libraries/{id}/filters` up to the write: the name and the search tidied, then the
/// category held to `library`. `folder_library` is the category's library once looked up (see
/// [`filter_check_of`]).
pub fn filter_check(
    library: &str,
    body: NewSavedFilter,
    folder_library: Option<Option<&str>>,
) -> (r: Result<Option<(String, FilterSearch)>, (&'static str, String)>)
    ensures
        check_view(r) == filter_check_of(library@, body.name@, body.search@, match folder_library {
            Some(Some(l)) => Some(Some(l@)),
            Some(None) => Some(None),
            None => None,
        }),
{
    let name = match tidy_name(body.name.as_str()) {
        Ok(n) => n,
        Err(e) => return Err(e),
    };
    let search = match tidy(body.search) {
        Ok(t) => t,
        Err(e) => return Err(e),
    };
    if search.folder_id.is_none() {
        return Ok(Some((name, search)));
    }
    match folder_library {
        None => Ok(None),
        Some(Some(owner)) => {
            if crate::text::same_text(owner, library) {
                Ok(Some((name, search)))
            } else {
                Err(("crossLibraryFolder", CROSS_LIBRARY_FOLDER.to_owned()))
            }
        },
        Some(None) => Err(("crossLibraryFolder", CROSS_LIBRARY_FOLDER.to_owned())),
    }
}

/// A field filter is kept whole when the field and any one of its value, lower bound or upper
/// bound are there: the search is kept, with the field and all three as given, trimmed. A field
/// with none of the three, or a value or bound without a field, filters nothing and is dropped.
pub proof fn a_field_filter_is_kept_whole(s: SearchView)
    requires
        !too_long(s.q) && !too_long(s.format) && !too_long(s.material) && !too_long(s.tag),
        !too_long(s.field) && !too_long(s.field_value) && !too_long(s.field_min) && !too_long(s.field_max),
    ensures
        kept(s.field) is Some && (kept(s.field_value) is Some || kept(s.field_min) is Some || kept(s.field_max) is Some)
            ==> (search_tidied(s) matches Ok(t) && t.field == kept(s.field) && t.field_value == kept(s.field_value)
            && t.field_min == kept(s.field_min) && t.field_max == kept(s.field_max)),
        !(kept(s.field) is Some && (kept(s.field_value) is Some || kept(s.field_min) is Some || kept(s.field_max) is Some))
            ==> (search_tidied(s) matches Ok(t) ==> t.field is None && t.field_value is None
            && t.field_min is None && t.field_max is None),
{
}

} // verus!
