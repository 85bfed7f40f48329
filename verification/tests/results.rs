use pdf_ruin::buffer::GrayBuffer;
use pdf_ruin::decimal::format_number_list;
use pdf_ruin::ruin::{MIN_AVERAGE_SCORE_PPB, short_circuit_result};
use pdf_ruin::scorer::{PageDiffScore, aggregate_scores, score_page};
use pdf_ruin::strategy::StrategySet;
use pdf_ruin::transform::{Page, PageObject, PathObject, RectMillipoints, transform_page};

#[test]
fn decimal_rendering() {
    assert_eq!(format_number_list(&vec![]), "");
    assert_eq!(format_number_list(&vec![0]), "0");
    assert_eq!(format_number_list(&vec![1]), "1");
    assert_eq!(format_number_list(&vec![10]), "10");
    assert_eq!(format_number_list(&vec![2, 10, 345]), "2,10,345");
}

#[test]
fn short_circuit_reports_zero_score_and_time() {
    let r = short_circuit_result("sample.pdf".to_string(), 4200);
    assert_eq!(r.max_difference_ppb, 0);
    assert_eq!(r.diff_pages, "");
    assert_eq!(r.analyze_micros, 0);
    assert_eq!(r.modify_micros, 4200);
    assert_eq!(r.file_name, "sample.pdf");
}

// One page holding exactly one qualifying redaction rectangle over 10%
// of the page area, with genuinely different content beneath it: with
// geometry stripping active the transformer reports the page changed,
// and scoring the two renderings yields a nonzero maximum and a
// qualifying-page list of exactly "1".
#[test]
fn one_qualifying_rectangle_end_to_end() {
    let strategy = StrategySet::from_names(&vec!["rect".to_string()]).unwrap();
    let mut page = Page {
        objects: vec![PageObject::Path(PathObject {
            segment_count: 5,
            bounds: RectMillipoints { width: 126_000, height: 100_000 },
            filled: true,
            stroked: false,
        })],
        annotations: vec![],
    };
    let outcome = transform_page(&mut page, &strategy);
    assert!(outcome.changed);
    assert_eq!(outcome.mutated_objects, 1);

    // The changed page's renderings: beneath the stripped rectangle —
    // 10% of the page area — content brightens from covered to exposed.
    let width = 40usize;
    let height = 40usize;
    let original = GrayBuffer::from_vec(width, height, vec![30u8; width * height]);
    let mut exposed = vec![30u8; width * height];
    for y in 12..22 {
        for x in 12..28 {
            exposed[y * width + x] = 220;
        }
    }
    let modified = GrayBuffer::from_vec(width, height, exposed);
    let score = score_page(&original, &modified).expect("a visible difference");
    assert!(score >= MIN_AVERAGE_SCORE_PPB);

    let changed_pages = vec![0usize];
    let qualifying: Vec<PageDiffScore> = changed_pages
        .iter()
        .map(|&index| PageDiffScore { page_number: index + 1, score_ppb: score })
        .collect();
    let (max, diff_pages) = aggregate_scores(&qualifying);
    assert!(max > 0);
    assert_eq!(diff_pages, "1");
}

// The same page under an empty strategy set: nothing mutates, the page
// set stays empty, and the result record is exactly the zero one.
#[test]
fn empty_strategy_end_to_end() {
    let mut page = Page {
        objects: vec![PageObject::Path(PathObject {
            segment_count: 5,
            bounds: RectMillipoints { width: 126_000, height: 100_000 },
            filled: true,
            stroked: false,
        })],
        annotations: vec![],
    };
    let outcome = transform_page(&mut page, &StrategySet::empty());
    assert!(!outcome.changed);
    match &page.objects[0] {
        PageObject::Path(p) => {
            assert!(p.filled);
            assert!(!p.stroked);
        }
        _ => panic!("path object expected"),
    }
    let r = short_circuit_result("untouched.pdf".to_string(), 90);
    assert_eq!(r.max_difference_ppb, 0);
    assert_eq!(r.diff_pages, "");
    assert_eq!(r.analyze_micros, 0);
}
