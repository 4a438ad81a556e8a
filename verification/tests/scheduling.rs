use font_compare::fonts::{FaceInfo, FaceKey, Family, FontCatalog};
use font_compare::errors::RunError;
use font_compare::schedule::{
    collect_results, select_variants, sort_variants, Render, RenderOutput, Variant,
};

fn face(family: &str, weight: u16, stretch: u16, style: u8) -> FaceInfo {
    FaceInfo {
        family: family.to_string(),
        weight,
        stretch,
        style,
    }
}

fn family(name: &str, faces: &[(u16, u16, u8)]) -> Family {
    Family {
        name: name.to_string(),
        faces: faces
            .iter()
            .map(|&(weight, stretch, style)| FaceKey {
                weight,
                stretch,
                style,
            })
            .collect(),
    }
}

fn names(v: &[Variant]) -> Vec<(String, u16)> {
    v.iter().map(|x| (x.family.clone(), x.weight)).collect()
}

#[test]
fn families_group_by_name_in_discovery_order() {
    let catalog = FontCatalog::build(
        vec![
            face("Zeta", 400, 1000, 0),
            face("Alpha", 700, 1000, 0),
            face("Alpha", 400, 1000, 0),
        ],
        vec![0, 0, 0],
    );
    let fams = catalog.families();
    assert_eq!(fams.len(), 2);
    assert_eq!(fams[0].name, "Zeta");
    assert_eq!(fams[0].faces, vec![FaceKey { weight: 400, stretch: 1000, style: 0 }]);
    assert_eq!(fams[1].name, "Alpha");
    assert_eq!(
        fams[1].faces,
        vec![
            FaceKey { weight: 700, stretch: 1000, style: 0 },
            FaceKey { weight: 400, stretch: 1000, style: 0 },
        ]
    );
}

#[test]
fn enumeration_and_sort_order_faces() {
    // faces [("Zeta",400), ("Alpha",700), ("Alpha",400)] sort to
    // Alpha/400, Alpha/700, Zeta/400
    let catalog = FontCatalog::build(
        vec![
            face("Zeta", 400, 1000, 0),
            face("Alpha", 700, 1000, 0),
            face("Alpha", 400, 1000, 0),
        ],
        vec![0, 0, 0],
    );
    let fams = catalog.families();
    let picked = select_variants(&fams, &None, &None, true).unwrap();
    let sorted = sort_variants(picked);
    assert_eq!(
        names(&sorted),
        vec![
            ("Alpha".to_string(), 400),
            ("Alpha".to_string(), 700),
            ("Zeta".to_string(), 400),
        ]
    );
}

#[test]
fn accept_and_reject_patterns_filter_families() {
    let fams = vec![
        family("NotoSans", &[(400, 1000, 0)]),
        family("NotoSansMono", &[(400, 1000, 0)]),
        family("Arial", &[(400, 1000, 0)]),
    ];
    let accept = Some("^Noto".to_string());
    let reject = Some("Mono$".to_string());
    let picked = select_variants(&fams, &accept, &reject, false).unwrap();
    assert_eq!(names(&picked), vec![("NotoSans".to_string(), 400)]);
}

#[test]
fn invalid_pattern_is_reported() {
    let fams = vec![family("Alpha", &[(400, 1000, 0)])];
    let bad = Some("(".to_string());
    let got = select_variants(&fams, &bad, &None, false);
    assert_eq!(got.unwrap_err(), RunError::BadPattern("(".to_string()));
    let got = select_variants(&fams, &None, &bad, false);
    assert_eq!(got.unwrap_err(), RunError::BadPattern("(".to_string()));
}

#[test]
fn first_face_only_without_variant_mode() {
    let fams = vec![family("Alpha", &[(700, 1000, 0), (400, 1000, 0)])];
    let picked = select_variants(&fams, &None, &None, false).unwrap();
    assert_eq!(names(&picked), vec![("Alpha".to_string(), 700)]);
}

#[test]
fn scheduling_twice_gives_identical_order() {
    let fams = vec![
        family("Gamma", &[(500, 1000, 1), (400, 1000, 0)]),
        family("Beta", &[(400, 1000, 0)]),
    ];
    let first = sort_variants(select_variants(&fams, &None, &None, true).unwrap());
    let second = sort_variants(select_variants(&fams, &None, &None, true).unwrap());
    assert_eq!(first, second);
}

#[test]
fn results_come_back_in_task_order() {
    let variants = vec![
        Variant { family: "Alpha".to_string(), weight: 400, stretch: 1000, style: 0 },
        Variant { family: "Beta".to_string(), weight: 700, stretch: 1000, style: 0 },
    ];
    let outcomes = vec![
        Ok(RenderOutput { bytes: vec![1], width: 10, height: 20 }),
        Ok(RenderOutput { bytes: vec![2], width: 30, height: 40 }),
    ];
    let rs: Vec<Render> = collect_results(&variants, outcomes).unwrap();
    assert_eq!(rs.len(), 2);
    assert_eq!(rs[0].variant.family, "Alpha");
    assert_eq!(rs[0].bytes, vec![1]);
    assert_eq!(rs[1].variant.family, "Beta");
    assert_eq!(rs[1].width, 30);
}

#[test]
fn failing_task_aborts_batch_and_names_its_variant() {
    let variants = vec![
        Variant { family: "Alpha".to_string(), weight: 400, stretch: 1000, style: 0 },
        Variant { family: "Beta".to_string(), weight: 700, stretch: 1000, style: 2 },
    ];
    let outcomes = vec![
        Ok(RenderOutput { bytes: vec![1], width: 10, height: 20 }),
        Err("layout exploded".to_string()),
    ];
    let got = collect_results(&variants, outcomes);
    assert_eq!(
        got.unwrap_err(),
        RunError::VariantCompile {
            family: "Beta".to_string(),
            weight: 700,
            stretch: 1000,
            style: 2,
            detail: "layout exploded".to_string(),
        }
    );
}
