//! The tags and the materials a person gives a part, each set as the whole list; and the name a
//! material's density is kept under.
//!
//! A list is kept as written, capitals included and in the order given; blanks and repeats are
//! dropped rather than refused, because neither is one anyone meant to keep.

use vstd::prelude::*;
use crate::number::{decimal, decimal_text};
use crate::text::{contains_text, push_all, texts, trim, trimmed};

verus! {

/// A word or a short phrase, in characters. A pasted sentence is refused.
pub const MAX_CHARS: usize = 64;

/// The longest material name a density is kept under, in characters.
pub const MATERIAL_MAX: usize = 64;

/// The `PUT` body: every tag the part has afterwards.
#[derive(Debug)]
pub struct SetTags {
    pub tags: Vec<String>,
}

/// The `PUT` body: every material the part has afterwards. An empty list hands the part back to
/// what its file states.
#[derive(Debug)]
pub struct SetMaterials {
    pub materials: Vec<String>,
}

/// What one list is called in a refusal, and how long it may be.
pub struct Words {
    pub one: &'static str,
    pub many: &'static str,
    pub max: usize,
    pub too_long: &'static str,
    pub too_many: &'static str,
}

impl Words {
    /// Tags: enough to describe a part several ways, and few enough to read at a glance.
    pub fn tags() -> (w: Words)
        ensures
            w.one@ == "tag"@ && w.many@ == "tags"@ && w.max == 32 && w.too_long@ == "tagTooLong"@
                && w.too_many@ == "tooManyTags"@,
    {
        Words { one: "tag", many: "tags", max: 32, too_long: "tagTooLong", too_many: "tooManyTags" }
    }

    /// Materials: a part is made of a few; a longer list is a paste.
    pub fn materials() -> (w: Words)
        ensures
            w.one@ == "material"@ && w.many@ == "materials"@ && w.max == 8 && w.too_long@
                == "materialTooLong"@ && w.too_many@ == "tooManyMaterials"@,
    {
        Words {
            one: "material",
            many: "materials",
            max: 8,
            too_long: "materialTooLong",
            too_many: "tooManyMaterials",
        }
    }
}

/// The first `n` values as kept: each trimmed, a blank one dropped, and one already kept dropped.
pub open spec fn kept_of(given: Seq<Seq<char>>, n: nat) -> Seq<Seq<char>>
    decreases n,
{
    if n == 0 {
        seq![]
    } else {
        let prior = kept_of(given, (n - 1) as nat);
        let v = trimmed(given[n - 1]);
        if v.len() > 0 && !prior.contains(v) {
            prior.push(v)
        } else {
            prior
        }
    }
}

/// The first of `kept` longer than [`MAX_CHARS`], if one is.
pub open spec fn first_long(kept: Seq<Seq<char>>) -> Option<Seq<char>>
    decreases kept.len(),
{
    if kept.len() == 0 {
        None
    } else if kept[0].len() > MAX_CHARS {
        Some(kept[0])
    } else {
        first_long(kept.drop_first())
    }
}

/// The sentence for a value too long.
pub open spec fn too_long_sentence(one: Seq<char>, long: Seq<char>) -> Seq<char> {
    "A "@ + one + " is at most 64 characters. Shorten \""@ + long + "\" and try again."@
}

/// The sentence for too many values.
pub open spec fn too_many_sentence(max: nat, many: Seq<char>, gave: nat) -> Seq<char> {
    "A part takes at most "@ + decimal(max) + " "@ + many + ", and this gave it "@ + decimal(gave)
        + ". Remove some and try again."@
}

/// The list as it is kept, or the refusal's reason and sentence: a kept value over
/// [`MAX_CHARS`] is refused first, then a list over the words' `max`.
pub open spec fn list_cleaned(given: Seq<Seq<char>>, words: Words) -> Result<
    Seq<Seq<char>>,
    (Seq<char>, Seq<char>),
> {
    let kept = kept_of(given, given.len());
    match first_long(kept) {
        Some(long) => Err((words.too_long@, too_long_sentence(words.one@, long))),
        None => if kept.len() > words.max {
            Err((words.too_many@, too_many_sentence(words.max as nat, words.many@, kept.len())))
        } else {
            Ok(kept)
        },
    }
}

/// A list by its characters, or the refusal's.
pub open spec fn list_view(r: Result<Vec<String>, (&'static str, String)>) -> Result<
    Seq<Seq<char>>,
    (Seq<char>, Seq<char>),
> {
    match r {
        Ok(v) => Ok(texts(v@)),
        Err(e) => Err((e.0@, e.1@)),
    }
}

/// The list as it is kept, or the refusal's reason and sentence.
pub fn cleaned(given: &[String], words: &Words) -> (r: Result<Vec<String>, (&'static str, String)>)
    ensures
        list_view(r) == list_cleaned(texts(given@), *words),
{
    let ghost g = texts(given@);
    let mut kept: Vec<String> = Vec::new();
    let mut i: usize = 0;
    while i < given.len()
        invariant
            i <= given@.len(),
            g == texts(given@),
            texts(kept@) == kept_of(g, i as nat),
        decreases given@.len() - i,
    {
        let value = trim(given[i].as_str());
        assert(value@ == trimmed(g[i as int]));
        let blank = value.as_str().is_empty();
        if !blank && !contains_text(kept.as_slice(), value.as_str()) {
            let ghost before = kept@;
            kept.push(value);
            proof {
                assert(texts(kept@) =~= texts(before).push(trimmed(g[i as int])));
            }
        }
        i = i + 1;
    }
    assert(kept_of(g, given@.len() as nat) == kept_of(g, g.len()));
    let mut j: usize = 0;
    assert(texts(kept@).skip(0) =~= texts(kept@));
    while j < kept.len()
        invariant
            j <= kept@.len(),
            g == texts(given@),
            texts(kept@) == kept_of(g, g.len()),
            first_long(texts(kept@)) == first_long(texts(kept@).skip(j as int)),
        decreases kept@.len() - j,
    {
        let n = crate::text::chars_of(kept[j].as_str()).len();
        let ghost rest = texts(kept@).skip(j as int);
        assert(rest[0] == kept@[j as int]@);
        if n > MAX_CHARS {
            let mut m = "A ".to_owned();
            push_all(&mut m, words.one);
            push_all(&mut m, " is at most 64 characters. Shorten \"");
            push_all(&mut m, kept[j].as_str());
            push_all(&mut m, "\" and try again.");
            return Err((words.too_long, m));
        }
        assert(rest.drop_first() =~= texts(kept@).skip(j + 1));
        j = j + 1;
    }
    assert(texts(kept@).skip(kept@.len() as int).len() == 0);
    if kept.len() > words.max {
        let mut m = "A part takes at most ".to_owned();
        let max_text = decimal_text(words.max as u64);
        push_all(&mut m, max_text.as_str());
        push_all(&mut m, " ");
        push_all(&mut m, words.many);
        push_all(&mut m, ", and this gave it ");
        let gave = decimal_text(kept.len() as u64);
        push_all(&mut m, gave.as_str());
        push_all(&mut m, ". Remove some and try again.");
        return Err((words.too_many, m));
    }
    Ok(kept)
}

/// A material as parts can hold it: not blank, no space at either end, and no longer than
/// [`MATERIAL_MAX`] characters.
pub open spec fn holds_as_material(material: Seq<char>) -> bool {
    &&& material.len() > 0
    &&& material == trimmed(material)
    &&& material.len() <= MATERIAL_MAX
}

/// Whether `material` names a material as parts hold it, which is the exact name a density is
/// kept under.
pub fn named_as_parts_hold_it(material: &str) -> (ok: bool)
    ensures
        ok == holds_as_material(material@),
{
    let n = crate::text::chars_of(material).len();
    let t = trim(material);
    n > 0 && crate::text::same_text(material, t.as_str()) && n <= MATERIAL_MAX
}

/// Blanks and repeats are dropped, not refused, and nothing else is: every value kept is the
/// trimmed form of a value given, none is blank, and none is kept twice.
pub proof fn kept_values_are_distinct_and_given(given: Seq<Seq<char>>, n: nat)
    requires
        n <= given.len(),
    ensures
        forall|i: int, j: int|
            0 <= i < j < kept_of(given, n).len() ==> #[trigger] kept_of(given, n)[i]
                != #[trigger] kept_of(given, n)[j],
        forall|i: int|
            0 <= i < kept_of(given, n).len() ==> (#[trigger] kept_of(given, n)[i]).len() > 0,
        forall|i: int|
            #![trigger kept_of(given, n)[i]]
            0 <= i < kept_of(given, n).len() ==> exists|k: int|
                0 <= k < n && #[trigger] trimmed(given[k]) == kept_of(given, n)[i],
    decreases n,
{
    if n > 0 {
        kept_values_are_distinct_and_given(given, (n - 1) as nat);
        let prior = kept_of(given, (n - 1) as nat);
        let v = trimmed(given[n - 1]);
        let kept = kept_of(given, n);
        if v.len() > 0 && !prior.contains(v) {
            assert(kept == prior.push(v));
            assert forall|i: int, j: int| 0 <= i < j < kept.len() implies #[trigger] kept[i]
                != #[trigger] kept[j] by {
                if j == kept.len() - 1 {
                    assert(kept[j] == v);
                    assert(kept[i] == prior[i]);
                } else {
                    assert(kept[i] == prior[i] && kept[j] == prior[j]);
                }
            }
            assert forall|i: int| #![trigger kept[i]] 0 <= i < kept.len() implies exists|k: int|
                0 <= k < n && #[trigger] trimmed(given[k]) == kept[i] by {
                if i == kept.len() - 1 {
                    assert(trimmed(given[n - 1]) == kept[i]);
                } else {
                    assert(kept[i] == prior[i]);
                    let k = choose|k: int| 0 <= k < n - 1 && #[trigger] trimmed(given[k]) == prior[i];
                    assert(trimmed(given[k]) == kept[i]);
                }
            }
        } else {
            assert forall|i: int| #![trigger kept[i]] 0 <= i < kept.len() implies exists|k: int|
                0 <= k < n && #[trigger] trimmed(given[k]) == kept[i] by {
                let k = choose|k: int| 0 <= k < n - 1 && #[trigger] trimmed(given[k]) == prior[i];
                assert(trimmed(given[k]) == kept[i]);
            }
        }
    }
}

} // verus!
