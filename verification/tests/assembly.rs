use font_compare::assemble::{
    collection_source, image_name, install_collection, page_content_width_mpt,
};
use font_compare::errors::FileError;
use font_compare::files::{FileId, FileStore};
use font_compare::fonts::{FontCatalog, SlotState};
use font_compare::schedule::{Render, Variant};
use font_compare::text::{dec_string, millipoint_string};
use font_compare::world::{apply_variant, text_of_bytes, today, ymd_valid, StyleSnapshot};
use font_compare::pixels_to_millipoints;

fn render(family: &str, weight: u16, width: u32, height: u32) -> Render {
    Render {
        variant: Variant {
            family: family.to_string(),
            weight,
            stretch: 1000,
            style: 0,
        },
        bytes: vec![0u8, 1, 2],
        width,
        height,
    }
}

#[test]
fn page_width_is_max_of_point_widths() {
    // max(100, 300) pixels at 300 ppi is 300/300*72 = 72 points
    let rs = vec![render("Alpha", 400, 100, 50), render("Beta", 400, 300, 50)];
    assert_eq!(page_content_width_mpt(&rs, 300, 0), 72_000);
    // a configured minimum above the maximum wins
    assert_eq!(page_content_width_mpt(&rs, 300, 100_000), 100_000);
}

#[test]
fn pixel_conversion_formula() {
    assert_eq!(pixels_to_millipoints(300, 300), 72_000);
    assert_eq!(pixels_to_millipoints(100, 300), 24_000);
    assert_eq!(pixels_to_millipoints(0, 300), 0);
}

#[test]
fn decimal_rendering() {
    assert_eq!(dec_string(0), "0");
    assert_eq!(dec_string(42), "42");
    assert_eq!(dec_string(100500), "100500");
    assert_eq!(millipoint_string(72_000), "72.000");
    assert_eq!(millipoint_string(24_125), "24.125");
    assert_eq!(millipoint_string(7), "0.007");
}

#[test]
fn image_names_count_from_zero() {
    assert_eq!(image_name(0), "render-0.png");
    assert_eq!(image_name(12), "render-12.png");
}

#[test]
fn collection_document_references_every_render() {
    let rs = vec![render("Alpha", 400, 300, 50), render("Alpha", 700, 300, 50)];
    let source = collection_source(&rs, 300);
    assert!(source.contains("render-0.png"));
    assert!(source.contains("render-1.png"));
    assert!(source.contains("Alpha"));
    assert!(source.contains("weight 400"));
    assert!(source.contains("weight 700"));
    // one hidden family heading for the two pages of the same family
    assert_eq!(source.matches("#place(hide[= ").count(), 1);
    assert!(source.contains("#outline(indent: auto, title: [Fonts])"));
}

#[test]
fn install_collection_fills_the_store() {
    let mut store = FileStore {
        root: "/project".to_string(),
        main: FileId { package: None, segments: vec!["doc.typ".to_string()] },
        entries: Vec::new(),
    };
    let rs = vec![render("Alpha", 400, 300, 50)];
    install_collection(&mut store, &rs, 300);
    let image = FileId { package: None, segments: vec!["render-0.png".to_string()] };
    assert_eq!(store.cached(&image).unwrap(), vec![0u8, 1, 2]);
    let main = FileId { package: None, segments: vec!["main.typ".to_string()] };
    let text = String::from_utf8(store.cached(&main).unwrap()).unwrap();
    assert!(text.contains("render-0.png"));
}

#[test]
fn font_slot_decode_is_memoized() {
    let mut catalog = FontCatalog::build(
        vec![font_compare::fonts::FaceInfo {
            family: "Alpha".to_string(),
            weight: 400,
            stretch: 1000,
            style: 0,
        }],
        vec![0],
    );
    assert!(catalog.slot_vacant(0));
    // bytes that are no font: the failed decode is memoized as "no font"
    let first = catalog.load_with(0, Some(vec![1u8, 2, 3]));
    assert!(first.is_none());
    assert!(!catalog.slot_vacant(0));
    match &catalog.slots[0].state {
        SlotState::Ready(v) => assert!(v.is_none()),
        SlotState::Vacant => panic!("slot must be ready after a load"),
    }
    // a later load answers from memory, whatever bytes it brings
    let second = catalog.load_with(0, Some(vec![9u8, 9, 9]));
    assert!(second.is_none());
}

#[test]
fn style_overrides_follow_the_variant() {
    let base = StyleSnapshot::stock();
    let variant = Variant { family: "Alpha".to_string(), weight: 700, stretch: 1000, style: 1 };
    let with_variants = apply_variant(&base, &variant, true, false);
    assert!(!with_variants.fallback);
    assert_eq!(with_variants.family.as_deref(), Some("Alpha"));
    assert_eq!(with_variants.weight, Some(700));
    assert_eq!(with_variants.stretch, Some(1000));
    assert_eq!(with_variants.style, Some(1));
    let family_only = apply_variant(&base, &variant, false, true);
    assert!(family_only.fallback);
    assert_eq!(family_only.family.as_deref(), Some("Alpha"));
    assert_eq!(family_only.weight, None);
}

#[test]
fn text_decoding_rejects_invalid_utf8() {
    assert_eq!(text_of_bytes(b"hello".to_vec()).unwrap(), "hello");
    assert_eq!(text_of_bytes(vec![0xffu8, 0xfe]).unwrap_err(), FileError::InvalidUtf8);
}

#[test]
fn today_respects_the_offset_range() {
    let d = today(None).unwrap();
    assert!(ymd_valid(d.year, d.month, d.day));
    assert!(today(Some(0)).is_some());
    assert!(today(Some(25)).is_some());
    assert!(today(Some(26)).is_none());
    assert!(today(Some(-26)).is_none());
    assert!(today(Some(1000)).is_none());
}

#[test]
fn adapter_clone_duplicates_only_the_styles() {
    let store = FileStore {
        root: "/project".to_string(),
        main: FileId { package: None, segments: vec!["doc.typ".to_string()] },
        entries: Vec::new(),
    };
    let catalog = FontCatalog::build(Vec::new(), Vec::new());
    let mut style = StyleSnapshot::stock();
    style.family = Some("Alpha".to_string());
    let adapter = font_compare::world::WorldAdapter::new(store, catalog, style);
    let task_style = adapter.clone_for_task();
    assert!(task_style.fallback);
    assert_eq!(task_style.family.as_deref(), Some("Alpha"));
    // mutating the clone leaves the adapter's own snapshot alone
    let mut mutated = task_style;
    mutated.family = Some("Beta".to_string());
    assert_eq!(adapter.style.family.as_deref(), Some("Alpha"));
}

#[test]
fn compiler_cache_counts_prunes() {
    let mut cache = font_compare::schedule::CompilerCache::new();
    assert_eq!(cache.batches_pruned, 0);
    cache.prune_after_batch();
    cache.prune_after_batch();
    assert_eq!(cache.batches_pruned, 2);
}

#[test]
fn calendar_validity_knows_leap_years() {
    assert!(ymd_valid(2000, 2, 29));
    assert!(!ymd_valid(1900, 2, 29));
    assert!(ymd_valid(2024, 2, 29));
    assert!(!ymd_valid(2023, 2, 29));
    assert!(ymd_valid(2023, 12, 31));
    assert!(!ymd_valid(2023, 4, 31));
    assert!(!ymd_valid(2023, 13, 1));
    assert!(!ymd_valid(2023, 1, 0));
}
