use lapidary::filters::{
    filter_check, tidy, tidy_name, FilterSearch, NewSavedFilter, CROSS_LIBRARY_FOLDER, EMPTY_NAME, EMPTY_SEARCH,
    NAME_TOO_LONG, VALUE_TOO_LONG,
};
use lapidary::locks::named;
use lapidary::records::{
    box_provenance, part_number_kept, revision_counts, source_to_record, NewSource, RevisionCounts,
    RowRefusal, SetPartNumber, SourceRefusal,
    NOTHING_TO_RECORD, PART_NUMBER_TOO_LONG, PRICE_NEEDS_CURRENCY,
};
use lapidary::tags::{cleaned, named_as_parts_hold_it, Words};

fn strings(v: &[&str]) -> Vec<String> {
    v.iter().map(|s| (*s).to_owned()).collect()
}

fn search() -> FilterSearch {
    FilterSearch {
        q: None,
        folder_id: None,
        format: None,
        material: None,
        tag: None,
        field: None,
        field_value: None,
        field_min: None,
        field_max: None,
    }
}

#[test]
fn a_saved_filter_name_is_trimmed_and_at_most_eighty_characters() {
    assert_eq!(tidy_name("  Gears  ").unwrap(), "Gears");
    assert_eq!(tidy_name(" ").unwrap_err(), ("emptyName", EMPTY_NAME.to_owned()));
    assert_eq!(tidy_name(&"ğ".repeat(81)).unwrap_err(), ("nameTooLong", NAME_TOO_LONG.to_owned()));
    assert_eq!(tidy_name(&"ğ".repeat(80)).unwrap(), "ğ".repeat(80));
}

#[test]
fn a_search_keeps_its_values_trimmed_and_drops_blank_ones() {
    let tidied = tidy(FilterSearch { q: Some(" flange ".to_owned()), tag: Some("  ".to_owned()), ..search() }).unwrap();
    assert_eq!(tidied.q.as_deref(), Some("flange"));
    assert_eq!(tidied.tag, None);
}

#[test]
fn a_field_without_a_value_or_a_value_without_its_field_filters_nothing() {
    let refused = tidy(FilterSearch { field: Some("finish".to_owned()), ..search() }).unwrap_err();
    assert_eq!(refused, ("emptySearch", EMPTY_SEARCH.to_owned()));
    let kept = tidy(FilterSearch {
        folder_id: Some("01931b6e-0000-7000-8000-000000000003".to_owned()),
        field_value: Some("gloss".to_owned()),
        ..search()
    })
    .unwrap();
    assert_eq!(kept.field_value, None);
    assert_eq!(kept.folder_id.as_deref(), Some("01931b6e-0000-7000-8000-000000000003"));
    let whole = tidy(FilterSearch { field: Some("stock".to_owned()), field_min: Some(" 3 ".to_owned()), ..search() }).unwrap();
    assert_eq!((whole.field.as_deref(), whole.field_min.as_deref()), (Some("stock"), Some("3")));
}

#[test]
fn a_value_over_the_limit_is_refused() {
    let refused = tidy(FilterSearch { material: Some("x".repeat(513)), ..search() }).unwrap_err();
    assert_eq!(refused, ("valueTooLong", VALUE_TOO_LONG.to_owned()));
    assert!(tidy(FilterSearch { material: Some(format!(" {} ", "x".repeat(512))), ..search() }).is_ok());
}

#[test]
fn tags_are_kept_as_written_without_blanks_or_repeats() {
    assert_eq!(cleaned(&strings(&[" Brass ", "", "brass", "Brass", "gear"]), &Words::tags()).unwrap(), ["Brass", "brass", "gear"]);
}

#[test]
fn a_long_tag_and_too_many_materials_are_refused() {
    let long = "x".repeat(65);
    assert_eq!(
        cleaned(&strings(&["ok", &long]), &Words::tags()).unwrap_err(),
        ("tagTooLong", format!("A tag is at most 64 characters. Shorten \"{long}\" and try again."))
    );
    let nine: Vec<String> = (0..9).map(|i| format!("m{i}")).collect();
    assert_eq!(
        cleaned(&nine, &Words::materials()).unwrap_err(),
        ("tooManyMaterials", "A part takes at most 8 materials, and this gave it 9. Remove some and try again.".to_owned())
    );
    let thirty_two: Vec<String> = (0..32).map(|i| format!("t{i}")).collect();
    assert_eq!(cleaned(&thirty_two, &Words::tags()).unwrap().len(), 32);
}

#[test]
fn a_density_is_keyed_by_a_material_as_parts_hold_it() {
    assert!(named_as_parts_hold_it("Steel 1.4301"));
    assert!(!named_as_parts_hold_it(""));
    assert!(!named_as_parts_hold_it(" steel"));
    assert!(!named_as_parts_hold_it(&"x".repeat(65)));
    assert!(named_as_parts_hold_it(&"ş".repeat(64)));
}

#[test]
fn a_holder_is_one_to_two_hundred_characters() {
    assert_eq!(named(Some("  mira@workshop-pc ".to_owned())).as_deref(), Some("mira@workshop-pc"));
    assert_eq!(named(Some("   ".to_owned())), None);
    assert_eq!(named(None), None);
    assert_eq!(named(Some("x".repeat(201))), None);
    assert_eq!(named(Some("x".repeat(200))).map(|n| n.len()), Some(200));
}

#[test]
fn a_part_number_is_trimmed_and_a_blank_one_clears_it() {
    assert_eq!(part_number_kept(&SetPartNumber { part_number: Some(" LP-3310-02 ".to_owned()) }).unwrap().as_deref(), Some("LP-3310-02"));
    assert_eq!(part_number_kept(&SetPartNumber { part_number: Some("  ".to_owned()) }).unwrap(), None);
    assert_eq!(part_number_kept(&SetPartNumber { part_number: None }).unwrap(), None);
    assert_eq!(
        part_number_kept(&SetPartNumber { part_number: Some("9".repeat(101)) }).unwrap_err(),
        ("partNumberTooLong", PART_NUMBER_TOO_LONG.to_owned())
    );
}

fn source() -> NewSource {
    NewSource { url: None, vendor: None, external_id: None, title: None, license: None, price_minor: None, currency: None }
}

#[test]
fn a_source_needs_something_to_record_and_a_price_its_currency() {
    assert_eq!(source_to_record(&source()).unwrap_err(), SourceRefusal::NothingToRecord);
    assert_eq!(SourceRefusal::NothingToRecord.message(), NOTHING_TO_RECORD);
    let priced = NewSource { vendor: Some("McMaster".to_owned()), price_minor: Some(1250), ..source() };
    assert_eq!(source_to_record(&priced).unwrap_err(), SourceRefusal::PriceNeedsCurrency);
    assert_eq!(SourceRefusal::PriceNeedsCurrency.message(), PRICE_NEEDS_CURRENCY);
    let blank_currency = NewSource { vendor: Some("McMaster".to_owned()), currency: Some(" ".to_owned()), ..source() };
    let kept = source_to_record(&blank_currency).unwrap();
    assert_eq!((kept.vendor.as_deref(), kept.currency), (Some("McMaster"), None));
    let full = NewSource { url: Some(" https://example.com/p ".to_owned()), price_minor: Some(1250), currency: Some("EUR".to_owned()), ..source() };
    let kept = source_to_record(&full).unwrap();
    assert_eq!((kept.url.as_deref(), kept.price_minor, kept.currency.as_deref()), (Some("https://example.com/p"), Some(1250), Some("EUR")));
}

fn search_in(folder: Option<&str>) -> FilterSearch {
    FilterSearch {
        q: Some(" flange ".to_owned()),
        folder_id: folder.map(|f| f.to_owned()),
        format: None,
        material: None,
        tag: None,
        field: None,
        field_value: None,
        field_min: None,
        field_max: None,
    }
}

#[test]
fn a_saved_filter_keeps_only_a_category_of_its_own_library() {
    let body = || NewSavedFilter { name: " Flanges ".to_owned(), search: search_in(Some("f1")) };
    assert!(filter_check("lib-a", body(), None).expect("asks").is_none());
    let (name, search) = filter_check("lib-a", body(), Some(Some("lib-a"))).expect("kept").expect("saved");
    assert_eq!(name, "Flanges");
    assert_eq!(search.q.as_deref(), Some("flange"));
    assert_eq!(search.folder_id.as_deref(), Some("f1"));
    let refused = filter_check("lib-a", body(), Some(Some("lib-b"))).unwrap_err();
    assert_eq!(refused.0, "crossLibraryFolder");
    assert_eq!(refused.1, CROSS_LIBRARY_FOLDER);
    assert_eq!(filter_check("lib-a", body(), Some(None)).unwrap_err().0, "crossLibraryFolder");
    let no_folder = NewSavedFilter { name: "All".to_owned(), search: search_in(None) };
    assert!(filter_check("lib-a", no_folder, None).expect("kept").is_some());
    let unnamed = NewSavedFilter { name: "  ".to_owned(), search: search_in(Some("f1")) };
    assert_eq!(filter_check("lib-a", unnamed, Some(Some("lib-b"))).unwrap_err().0, "emptyName");
}

#[test]
fn a_revision_row_with_a_negative_count_is_refused_by_its_column() {
    assert_eq!(
        revision_counts(Some(12), None, Some(3), Some(2048)),
        Ok(RevisionCounts { triangle_count: Some(12), face_count: None, edge_count: Some(3), source_bytes: Some(2048) })
    );
    assert_eq!(
        revision_counts(Some(-1), Some(-2), None, None),
        Err(RowRefusal::NegativeCount { column: "revision.triangle_count", value: -1 })
    );
    assert_eq!(
        revision_counts(Some(1), Some(-2), Some(-3), None),
        Err(RowRefusal::NegativeCount { column: "revision.face_count", value: -2 })
    );
    assert_eq!(
        revision_counts(None, None, Some(-3), Some(-4)),
        Err(RowRefusal::NegativeCount { column: "revision.edge_count", value: -3 })
    );
    assert_eq!(
        revision_counts(None, None, None, Some(-4)),
        Err(RowRefusal::NegativeByteCount { column: "file.size_bytes", value: -4 })
    );
}

#[test]
fn a_bounding_box_is_labelled_by_its_own_provenance_first() {
    assert_eq!(box_provenance(Some('b'), Some('s'), 't'), 'b');
    assert_eq!(box_provenance(None, Some('s'), 't'), 's');
    assert_eq!(box_provenance(None::<char>, None, 't'), 't');
}
