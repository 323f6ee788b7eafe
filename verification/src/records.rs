//! What a person records about a part by hand, checked before it is kept: its part number and
//! where it came from. And the summaries the dashboard, the storage panel, a purge and a share
//! answer with.

use vstd::prelude::*;
use crate::text::{trim, trimmed};

verus! {

/// The longest part number, in characters: generous for any numbering scheme, and short enough
/// that a pasted paragraph is refused.
pub const PART_NUMBER_MAX: usize = 100;

/// A part number refused.
pub const PART_NUMBER_TOO_LONG: &'static str = "A part number is at most 100 characters. Shorten it and try again.";
/// A price without a currency, or a currency without a price.
pub const PRICE_NEEDS_CURRENCY: &'static str = "A price needs a currency, and a currency needs a price. Fill in both, or leave both empty.";
/// A source with none of a link, a vendor, a title or a licence.
pub const NOTHING_TO_RECORD: &'static str = "There is nothing to record yet. A source needs at least a link, a vendor, a title or a licence.";

/// `PUT /api/parts/{id}/part-number`'s body: `None`, or nothing but spaces, clears it.
#[derive(Debug)]
pub struct SetPartNumber {
    pub part_number: Option<String>,
}

/// A value trimmed, and absent when nothing is left.
pub open spec fn present(v: Option<Seq<char>>) -> Option<Seq<char>> {
    match v {
        Some(s) => if trimmed(s).len() == 0 {
            None
        } else {
            Some(trimmed(s))
        },
        None => None,
    }
}

/// One optional value trimmed, and absent when blank.
pub fn blank_is_none(v: &Option<String>) -> (r: Option<String>)
    ensures
        crate::filters::text_of(r) == present(crate::filters::text_of(*v)),
{
    match v {
        Some(s) => {
            let t = trim(s.as_str());
            if t.as_str().is_empty() {
                None
            } else {
                Some(t)
            }
        },
        None => None,
    }
}

/// The part number to keep: trimmed, absent when blank (which clears it), and refused with
/// `partNumberTooLong` over [`PART_NUMBER_MAX`] characters.
pub fn part_number_kept(body: &SetPartNumber) -> (r: Result<Option<String>, (&'static str, String)>)
    ensures
        match present(crate::filters::text_of(body.part_number)) {
            Some(n) => if n.len() > PART_NUMBER_MAX {
                r matches Err(e) && e.0@ == "partNumberTooLong"@ && e.1@ == PART_NUMBER_TOO_LONG@
            } else {
                r matches Ok(Some(t)) && t@ == n
            },
            None => r matches Ok(None),
        },
{
    let n = blank_is_none(&body.part_number);
    match n {
        Some(t) => {
            if crate::text::chars_of(t.as_str()).len() > PART_NUMBER_MAX {
                Err(("partNumberTooLong", PART_NUMBER_TOO_LONG.to_owned()))
            } else {
                Ok(Some(t))
            }
        },
        None => Ok(None),
    }
}

/// What the form posts. Every field optional; one that is entirely empty is refused.
#[derive(Debug)]
pub struct NewSource {
    pub url: Option<String>,
    pub vendor: Option<String>,
    pub external_id: Option<String>,
    pub title: Option<String>,
    pub license: Option<String>,
    /// In the currency's minor unit.
    pub price_minor: Option<i64>,
    pub currency: Option<String>,
}

/// A source as it is recorded: each text trimmed and absent when blank, the price as given.
#[derive(Debug)]
pub struct SourceRecord {
    pub url: Option<String>,
    pub vendor: Option<String>,
    pub external_id: Option<String>,
    pub title: Option<String>,
    pub license: Option<String>,
    pub price_minor: Option<i64>,
    pub currency: Option<String>,
}

/// Why a source was not recorded.
#[derive(Debug, Clone, Copy, PartialEq, Eq, Structural)]
pub enum SourceRefusal {
    /// A price without a currency, or a currency without a price.
    PriceNeedsCurrency,
    /// None of a link, a vendor, a title or a licence.
    NothingToRecord,
}

impl SourceRefusal {
    /// The sentence the refusal is answered with.
    pub open spec fn sentence(self) -> Seq<char> {
        match self {
            SourceRefusal::PriceNeedsCurrency => PRICE_NEEDS_CURRENCY@,
            SourceRefusal::NothingToRecord => NOTHING_TO_RECORD@,
        }
    }

    /// The refusal in words.
    pub fn message(self) -> (m: &'static str)
        ensures
            m@ == self.sentence(),
    {
        match self {
            SourceRefusal::PriceNeedsCurrency => PRICE_NEEDS_CURRENCY,
            SourceRefusal::NothingToRecord => NOTHING_TO_RECORD,
        }
    }
}

/// The source to record, or why not: a price and a non-blank currency come together or not at
/// all, and at least one of a link, a vendor, a title or a licence must be there once blanks are
/// dropped.
pub fn source_to_record(body: &NewSource) -> (r: Result<SourceRecord, SourceRefusal>)
    ensures
        ({
            let currency = present(crate::filters::text_of(body.currency));
            let url = present(crate::filters::text_of(body.url));
            let vendor = present(crate::filters::text_of(body.vendor));
            let title = present(crate::filters::text_of(body.title));
            let license = present(crate::filters::text_of(body.license));
            if body.price_minor.is_some() != currency.is_some() {
                r == Err::<SourceRecord, SourceRefusal>(SourceRefusal::PriceNeedsCurrency)
            } else if url is None && vendor is None && title is None && license is None {
                r == Err::<SourceRecord, SourceRefusal>(SourceRefusal::NothingToRecord)
            } else {
                r matches Ok(s) && crate::filters::text_of(s.url) == url
                    && crate::filters::text_of(s.vendor) == vendor && crate::filters::text_of(
                    s.external_id,
                ) == present(crate::filters::text_of(body.external_id))
                    && crate::filters::text_of(s.title) == title && crate::filters::text_of(
                    s.license,
                ) == license && s.price_minor == body.price_minor && crate::filters::text_of(
                    s.currency,
                ) == currency
            }
        }),
{
    let currency = blank_is_none(&body.currency);
    if body.price_minor.is_some() != currency.is_some() {
        return Err(SourceRefusal::PriceNeedsCurrency);
    }
    let url = blank_is_none(&body.url);
    let vendor = blank_is_none(&body.vendor);
    let external_id = blank_is_none(&body.external_id);
    let title = blank_is_none(&body.title);
    let license = blank_is_none(&body.license);
    if url.is_none() && vendor.is_none() && title.is_none() && license.is_none() {
        return Err(SourceRefusal::NothingToRecord);
    }
    Ok(SourceRecord {
        url,
        vendor,
        external_id,
        title,
        license,
        price_minor: body.price_minor,
        currency,
    })
}

/// What a dashboard facet counts parts by.
#[derive(Debug, Clone, Copy, PartialEq, Eq, Structural)]
pub enum FacetKind {
    Format,
    Material,
    Tag,
}

/// The job queue in brief.
#[derive(Debug, Clone)]
pub struct QueueSummary {
    pub pending: u32,
    pub running: u32,
    pub failed: u32,
}

/// The duplicates review queue in brief; the duplicates page holds the groups themselves.
#[derive(Debug, Clone)]
pub struct DuplicateSummary {
    pub clusters: u32,
    /// Parts with no shape profile yet, so not compared.
    pub unprofiled: u32,
}

/// A library's settings: whether a part with no picture gets a render as its thumbnail.
#[derive(Debug)]
pub struct LibrarySettings {
    pub auto_thumbnail: bool,
}

/// What a purge did: blobs left with nothing pointing at them, held for thirty days before
/// anything is freed.
#[derive(Debug)]
pub struct PurgeResult {
    pub quarantined: u32,
    pub quarantined_bytes: u64,
}

/// The whole installation's storage: what the database tracks, and a walk of the storage root
/// when one was asked for.
#[derive(Debug)]
pub struct InstanceStorageView {
    /// Every live model file across every library.
    pub source_bytes: u64,
    /// Rungs on the storage volume, each blob counted once.
    pub derivative_bytes: u64,
    /// Thumbnails, which are in the database and not on the volume.
    pub inline_preview_bytes: u64,
    /// Soft-deleted parts.
    pub removed_bytes: u64,
    /// Purged and inside the thirty-day hold.
    pub quarantined_bytes: u64,
    /// A real walk of the storage root, or `None` when one was not asked for or failed.
    pub on_disk_bytes: Option<u64>,
    /// Where the store is on the host, when the deployment has said.
    pub host_storage_root: Option<String>,
}

/// `?onDisk=true` asks for the walk. Anything else, including absent, does not.
#[derive(Debug)]
pub struct InstanceStorageQuery {
    pub on_disk: Option<bool>,
}

impl InstanceStorageQuery {
    /// Whether the storage root is to be walked.
    pub fn walks(&self) -> (w: bool)
        ensures
            w == (self.on_disk == Some(true)),
    {
        match self.on_disk {
            Some(b) => b,
            None => false,
        }
    }
}

/// `PUT /api/shares/{id}/grants/{device}`'s body.
#[derive(Debug)]
pub struct DecideGrant {
    pub granted: bool,
}

/// What sharing a category would offer, counted before anybody confirms.
#[derive(Debug)]
pub struct LicenceWarning {
    pub parts: i64,
    /// Parts with no licence recorded.
    pub unrecorded: i64,
    /// Parts whose licence says non-commercial.
    pub non_commercial: i64,
}

/// A revision row's counts, as the wire carries them.
#[derive(Debug, Clone, Copy, PartialEq, Eq)]
pub struct RevisionCounts {
    pub triangle_count: Option<u32>,
    pub face_count: Option<u32>,
    pub edge_count: Option<u32>,
    pub source_bytes: Option<u64>,
}

/// A row that a revision cannot be read from: a count or a size below zero, with its column.
#[allow(inconsistent_fields)]
#[derive(Debug, Clone, Copy, PartialEq, Eq)]
pub enum RowRefusal {
    NegativeCount { column: &'static str, value: i32 },
    NegativeByteCount { column: &'static str, value: i64 },
}

/// A count column, refused when negative.
fn count(column: &'static str, value: Option<i32>) -> (r: Result<Option<u32>, RowRefusal>)
    ensures
        match value {
            None => r == Ok::<Option<u32>, RowRefusal>(None),
            Some(v) => if v < 0 {
                r matches Err(RowRefusal::NegativeCount { column: c, value: w }) && c@ == column@ && w == v
            } else {
                r == Ok::<Option<u32>, RowRefusal>(Some(v as u32))
            },
        },
{
    match value {
        None => Ok(None),
        Some(v) => if v < 0 {
            Err(RowRefusal::NegativeCount { column, value: v })
        } else {
            Ok(Some(v as u32))
        },
    }
}

/// The counts and the size of a revision row, refused at the first that is negative, in the
/// order triangles, faces, edges, bytes; the columns named as the database names them.
pub fn revision_counts(
    triangle: Option<i32>,
    face: Option<i32>,
    edge: Option<i32>,
    size_bytes: Option<i64>,
) -> (r: Result<RevisionCounts, RowRefusal>)
    ensures
        (triangle matches Some(t) && t < 0) ==> (r matches Err(RowRefusal::NegativeCount { column: c, value: v })
            && c@ == "revision.triangle_count"@ && v == triangle.unwrap()),
        !(triangle matches Some(t) && t < 0) && (face matches Some(f) && f < 0) ==> (r matches Err(RowRefusal::NegativeCount { column: c, value: v })
            && c@ == "revision.face_count"@ && v == face.unwrap()),
        !(triangle matches Some(t) && t < 0) && !(face matches Some(f) && f < 0) && (edge matches Some(e) && e < 0)
            ==> (r matches Err(RowRefusal::NegativeCount { column: c, value: v }) && c@ == "revision.edge_count"@
            && v == edge.unwrap()),
        !(triangle matches Some(t) && t < 0) && !(face matches Some(f) && f < 0) && !(edge matches Some(e) && e < 0)
            && (size_bytes matches Some(b) && b < 0) ==> (r matches Err(RowRefusal::NegativeByteCount { column: c, value: v })
            && c@ == "file.size_bytes"@ && v == size_bytes.unwrap()),
        r matches Ok(k) ==> {
            &&& k.triangle_count == (match triangle { Some(t) => Some(t as u32), None => None::<u32> })
            &&& k.face_count == (match face { Some(f) => Some(f as u32), None => None::<u32> })
            &&& k.edge_count == (match edge { Some(e) => Some(e as u32), None => None::<u32> })
            &&& k.source_bytes == (match size_bytes { Some(b) => Some(b as u64), None => None::<u64> })
        },
        r is Ok <==> !(triangle matches Some(t) && t < 0) && !(face matches Some(f) && f < 0)
            && !(edge matches Some(e) && e < 0) && !(size_bytes matches Some(b) && b < 0),
{
    let triangle_count = match count("revision.triangle_count", triangle) {
        Ok(c) => c,
        Err(e) => return Err(e),
    };
    let face_count = match count("revision.face_count", face) {
        Ok(c) => c,
        Err(e) => return Err(e),
    };
    let edge_count = match count("revision.edge_count", edge) {
        Ok(c) => c,
        Err(e) => return Err(e),
    };
    let source_bytes = match size_bytes {
        None => None,
        Some(b) => if b < 0 {
            return Err(RowRefusal::NegativeByteCount { column: "file.size_bytes", value: b });
        } else {
            Some(b as u64)
        },
    };
    Ok(RevisionCounts { triangle_count, face_count, edge_count, source_bytes })
}

/// Which provenance a bounding box is labelled with: the box's own where ingest recorded one,
/// else the surface area's, else `tessellated`, which can only over-label.
pub fn box_provenance<P: Copy>(bbox: Option<P>, surface: Option<P>, tessellated: P) -> (r: P)
    ensures
        r == match bbox {
            Some(b) => b,
            None => match surface {
                Some(s) => s,
                None => tessellated,
            },
        },
{
    match bbox {
        Some(b) => b,
        None => match surface {
            Some(s) => s,
            None => tessellated,
        },
    }
}

} // verus!
