use pdf_ruin::strategy::StrategySet;
use pdf_ruin::transform::{
    Annotation, AnnotationAction, AnnotationKind, ImageObject, Page, PageObject, PathObject,
    RectMillipoints, annotation_action, should_blank_image, should_strip_path, transform_page,
};

fn full_strategy() -> StrategySet {
    StrategySet::from_names(&vec![
        "rect".to_string(),
        "annotation".to_string(),
        "image".to_string(),
    ])
    .unwrap()
}

fn qualifying_path() -> PathObject {
    PathObject {
        segment_count: 5,
        bounds: RectMillipoints { width: 100_000, height: 80_000 },
        filled: true,
        stroked: false,
    }
}

fn sample_page() -> Page {
    Page {
        objects: vec![
            PageObject::Path(qualifying_path()),
            PageObject::Path(PathObject {
                segment_count: 2,
                bounds: RectMillipoints { width: 100_000, height: 80_000 },
                filled: true,
                stroked: false,
            }),
            PageObject::Image(ImageObject { width: 4, height: 4, pixels: vec![200u8; 16] }),
            PageObject::Image(ImageObject {
                width: 2,
                height: 2,
                pixels: vec![0, 255, 0, 255],
            }),
            PageObject::Other,
        ],
        annotations: vec![
            Annotation {
                kind: AnnotationKind::Popup,
                hidden: false,
                printed: true,
                bounds: RectMillipoints { width: 9_000, height: 9_000 },
            },
            Annotation {
                kind: AnnotationKind::Highlight,
                hidden: false,
                printed: true,
                bounds: RectMillipoints { width: 5_000, height: 2_000 },
            },
            Annotation {
                kind: AnnotationKind::Stamp,
                hidden: true,
                printed: true,
                bounds: RectMillipoints { width: 1_000, height: 1_000 },
            },
        ],
    }
}

#[test]
fn transform_strips_qualifying_paths_only() {
    let mut page = sample_page();
    let outcome = transform_page(&mut page, &full_strategy());
    assert!(outcome.changed);
    // The qualifying path and the near-uniform image mutate; the
    // two-segment path and the checkered image stay.
    assert_eq!(outcome.mutated_objects, 2);
    match &page.objects[0] {
        PageObject::Path(p) => {
            assert!(!p.filled);
            assert!(p.stroked);
            assert_eq!(p.segment_count, 5);
        }
        _ => panic!("path object expected"),
    }
    match &page.objects[1] {
        PageObject::Path(p) => assert!(p.filled),
        _ => panic!("path object expected"),
    }
}

#[test]
fn transform_blanks_near_uniform_images() {
    let mut page = sample_page();
    transform_page(&mut page, &full_strategy());
    match &page.objects[2] {
        PageObject::Image(img) => {
            assert_eq!(img.width, 4);
            assert_eq!(img.height, 4);
            assert!(img.pixels.iter().all(|&v| v == 0));
        }
        _ => panic!("image object expected"),
    }
    match &page.objects[3] {
        PageObject::Image(img) => assert_eq!(img.pixels, vec![0, 255, 0, 255]),
        _ => panic!("image object expected"),
    }
}

#[test]
fn transform_suppresses_popup_and_skips_hidden() {
    let mut page = sample_page();
    let outcome = transform_page(&mut page, &full_strategy());
    // Only the visible Popup is suppressed; the hidden Stamp is skipped.
    assert_eq!(outcome.mutated_annotations, 1);
    assert!(page.annotations[0].hidden);
    assert!(!page.annotations[0].printed);
    assert_eq!(page.annotations[0].bounds, RectMillipoints { width: 0, height: 0 });
    assert!(!page.annotations[1].hidden);
    // One report for the Highlight left untouched.
    assert_eq!(outcome.reports.len(), 1);
    assert_eq!(outcome.reports[0].kind, AnnotationKind::Highlight);
    assert!(!outcome.reports[0].with_contents);
}

#[test]
fn transform_twice_changes_nothing_more() {
    let mut page = sample_page();
    let strategy = full_strategy();
    let first = transform_page(&mut page, &strategy);
    assert!(first.changed);
    let second = transform_page(&mut page, &strategy);
    assert!(!second.changed);
    assert_eq!(second.mutated_objects, 0);
    assert_eq!(second.mutated_annotations, 0);
}

#[test]
fn empty_strategy_changes_nothing() {
    let mut page = sample_page();
    let outcome = transform_page(&mut page, &StrategySet::empty());
    assert!(!outcome.changed);
    assert_eq!(outcome.mutated_objects, 0);
    assert_eq!(outcome.mutated_annotations, 0);
    assert_eq!(outcome.reports.len(), 0);
    match &page.objects[0] {
        PageObject::Path(p) => assert!(p.filled),
        _ => panic!("path object expected"),
    }
}

#[test]
fn strip_decision_requires_flag_qualification_and_a_fill() {
    let strategy = full_strategy();
    let path = qualifying_path();
    assert!(should_strip_path(&path, &strategy));
    let stripped = PathObject { filled: false, stroked: true, ..path };
    assert!(!should_strip_path(&stripped, &strategy));
    let small = PathObject {
        bounds: RectMillipoints { width: 3_999, height: 80_000 },
        ..path
    };
    assert!(!should_strip_path(&small, &strategy));
    assert!(!should_strip_path(&path, &StrategySet::empty()));
}

#[test]
fn blank_decision_requires_flag_uniformity_and_a_payload() {
    let strategy = full_strategy();
    let uniform = vec![200u8; 16];
    assert!(should_blank_image(&uniform, &strategy));
    assert!(!should_blank_image(&vec![0u8; 16], &strategy));
    assert!(!should_blank_image(&vec![0, 255, 0, 255], &strategy));
    assert!(!should_blank_image(&uniform, &StrategySet::empty()));
}

#[test]
fn annotation_actions_by_kind() {
    let visible = |kind: AnnotationKind| Annotation {
        kind,
        hidden: false,
        printed: true,
        bounds: RectMillipoints { width: 1_000, height: 1_000 },
    };
    assert_eq!(annotation_action(&visible(AnnotationKind::Popup)), AnnotationAction::Suppress);
    assert_eq!(annotation_action(&visible(AnnotationKind::Stamp)), AnnotationAction::Suppress);
    assert_eq!(
        annotation_action(&visible(AnnotationKind::FreeText)),
        AnnotationAction::ReportContents
    );
    assert_eq!(
        annotation_action(&visible(AnnotationKind::Text)),
        AnnotationAction::ReportContents
    );
    assert_eq!(annotation_action(&visible(AnnotationKind::Link)), AnnotationAction::Ignore);
    assert_eq!(annotation_action(&visible(AnnotationKind::Widget)), AnnotationAction::Ignore);
    assert_eq!(
        annotation_action(&visible(AnnotationKind::Unsupported)),
        AnnotationAction::Ignore
    );
    assert_eq!(
        annotation_action(&visible(AnnotationKind::Circle)),
        AnnotationAction::ReportGeneric
    );
    assert_eq!(
        annotation_action(&visible(AnnotationKind::Redacted)),
        AnnotationAction::ReportGeneric
    );
    let mut hidden_popup = visible(AnnotationKind::Popup);
    hidden_popup.hidden = true;
    assert_eq!(annotation_action(&hidden_popup), AnnotationAction::Ignore);
    let mut unprinted_stamp = visible(AnnotationKind::Stamp);
    unprinted_stamp.printed = false;
    assert_eq!(annotation_action(&unprinted_stamp), AnnotationAction::Ignore);
}
