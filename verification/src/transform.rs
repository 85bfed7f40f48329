//! The page transformer: applies the active strategy's reversal rules to
//! every object and annotation of a modelled page, and reports whether
//! the page changed.

use vstd::prelude::*;
use crate::classify;
use crate::strategy::StrategySet;

verus! {

/// A bounding rectangle's extent, in thousandths of a point.
#[derive(Clone, Copy, PartialEq, Eq, Structural, Debug)]
pub struct RectMillipoints {
    /// Width in thousandths of a point.
    pub width: u64,
    /// Height in thousandths of a point.
    pub height: u64,
}

/// The annotation kinds the PDF toolkit distinguishes, closed with an
/// explicit catch-all for kinds it does not recognize, so that a new
/// kind surfaces as a decision point rather than being silently skipped.
#[derive(Clone, Copy, PartialEq, Eq, Structural, Debug)]
pub enum AnnotationKind {
    Circle,
    FreeText,
    Highlight,
    Ink,
    Link,
    Popup,
    Square,
    Squiggly,
    Stamp,
    Strikeout,
    Text,
    Underline,
    Widget,
    XfaWidget,
    Redacted,
    Unsupported,
}

/// One annotation's state, as far as the transformer reads and writes
/// it: kind, visibility and print flags, and bounding rectangle.
#[derive(Clone, Copy, PartialEq, Eq, Structural, Debug)]
pub struct Annotation {
    /// The annotation's kind tag.
    pub kind: AnnotationKind,
    /// Whether the annotation is hidden.
    pub hidden: bool,
    /// Whether the annotation is printed.
    pub printed: bool,
    /// The annotation's bounding rectangle extent.
    pub bounds: RectMillipoints,
}

/// A path object: an ordered run of segments with a bounding box; the
/// mutation target is its fill and stroke mode.
#[derive(Clone, Copy, PartialEq, Eq, Structural, Debug)]
pub struct PathObject {
    /// Number of path segments.
    pub segment_count: usize,
    /// Bounding-box extent.
    pub bounds: RectMillipoints,
    /// Whether the path is filled.
    pub filled: bool,
    /// Whether the path is stroked.
    pub stroked: bool,
}

/// An image object: pixel dimensions and its rendered grayscale payload.
pub struct ImageObject {
    /// Width of the rendered payload in pixels.
    pub width: usize,
    /// Height of the rendered payload in pixels.
    pub height: usize,
    /// The rendered grayscale payload, row-major.
    pub pixels: Vec<u8>,
}

/// A page's content object: path, image, or anything else, which the
/// transformer never touches.
pub enum PageObject {
    /// A vector path.
    Path(PathObject),
    /// A raster image.
    Image(ImageObject),
    /// Any other content object.
    Other,
}

/// A page: its ordered content objects and, independently, its ordered
/// annotations.
pub struct Page {
    /// The page's content objects, in content order.
    pub objects: Vec<PageObject>,
    /// The page's annotations, in annotation order.
    pub annotations: Vec<Annotation>,
}

/// What the transformer decides to do with one annotation.
#[derive(Clone, Copy, PartialEq, Eq, Structural, Debug)]
pub enum AnnotationAction {
    /// Leave untouched, with nothing to say: already hidden or
    /// non-printable, or a kind carrying no redaction signal.
    Ignore,
    /// Hide, mark non-printable and zero the bounds: a purely decorative
    /// kind, safe to eliminate outright.
    Suppress,
    /// Leave untouched but emit a diagnostic line for manual audit.
    ReportGeneric,
    /// Leave untouched but emit the diagnostic line and, additionally,
    /// the annotation's text contents.
    ReportContents,
}

/// One diagnostic entry for an annotation the transformer declines to
/// mutate: its kind, its extent, and whether its text contents belong in
/// the diagnostic line.
#[derive(Clone, Copy, PartialEq, Eq, Structural, Debug)]
pub struct AnnotationReport {
    /// The reported annotation's kind.
    pub kind: AnnotationKind,
    /// The reported annotation's bounding extent.
    pub bounds: RectMillipoints,
    /// Whether the annotation's text contents are part of the report.
    pub with_contents: bool,
}

/// The transformer's decision for one annotation: skip anything already
/// hidden or non-printable; suppress the purely decorative Popup and
/// Stamp kinds; report the text-bearing FreeText and Text kinds,
/// additionally logging their contents; leave Link, Widget and
/// unrecognized kinds untouched
/// in silence, as they carry no consistent redaction signal; report
/// every other kind for manual audit.
pub open spec fn spec_annotation_action(a: Annotation) -> AnnotationAction {
    if a.hidden || !a.printed {
        AnnotationAction::Ignore
    } else {
        match a.kind {
            AnnotationKind::Popup => AnnotationAction::Suppress,
            AnnotationKind::Stamp => AnnotationAction::Suppress,
            AnnotationKind::FreeText => AnnotationAction::ReportContents,
            AnnotationKind::Text => AnnotationAction::ReportContents,
            AnnotationKind::Link => AnnotationAction::Ignore,
            AnnotationKind::Widget => AnnotationAction::Ignore,
            AnnotationKind::Unsupported => AnnotationAction::Ignore,
            AnnotationKind::Circle => AnnotationAction::ReportGeneric,
            AnnotationKind::Highlight => AnnotationAction::ReportGeneric,
            AnnotationKind::Ink => AnnotationAction::ReportGeneric,
            AnnotationKind::Square => AnnotationAction::ReportGeneric,
            AnnotationKind::Squiggly => AnnotationAction::ReportGeneric,
            AnnotationKind::Strikeout => AnnotationAction::ReportGeneric,
            AnnotationKind::Underline => AnnotationAction::ReportGeneric,
            AnnotationKind::XfaWidget => AnnotationAction::ReportGeneric,
            AnnotationKind::Redacted => AnnotationAction::ReportGeneric,
        }
    }
}

/// Decides what to do with one annotation.
pub fn annotation_action(a: &Annotation) -> (r: AnnotationAction)
    ensures
        r == spec_annotation_action(*a),
{
    if a.hidden || !a.printed {
        return AnnotationAction::Ignore;
    }
    match a.kind {
        AnnotationKind::Popup => AnnotationAction::Suppress,
        AnnotationKind::Stamp => AnnotationAction::Suppress,
        AnnotationKind::FreeText => AnnotationAction::ReportContents,
        AnnotationKind::Text => AnnotationAction::ReportContents,
        AnnotationKind::Link => AnnotationAction::Ignore,
        AnnotationKind::Widget => AnnotationAction::Ignore,
        AnnotationKind::Unsupported => AnnotationAction::Ignore,
        AnnotationKind::Circle => AnnotationAction::ReportGeneric,
        AnnotationKind::Highlight => AnnotationAction::ReportGeneric,
        AnnotationKind::Ink => AnnotationAction::ReportGeneric,
        AnnotationKind::Square => AnnotationAction::ReportGeneric,
        AnnotationKind::Squiggly => AnnotationAction::ReportGeneric,
        AnnotationKind::Strikeout => AnnotationAction::ReportGeneric,
        AnnotationKind::Underline => AnnotationAction::ReportGeneric,
        AnnotationKind::XfaWidget => AnnotationAction::ReportGeneric,
        AnnotationKind::Redacted => AnnotationAction::ReportGeneric,
    }
}

/// Whether geometry stripping applies to this path: the strategy is
/// active, the path qualifies as a redaction rectangle, and its fill and
/// stroke mode is not already the stripped one (so that a second pass
/// finds nothing left to do).
pub open spec fn path_needs_strip(p: PathObject, strat: StrategySet) -> bool {
    &&& strat.geometry_strip
    &&& classify::spec_is_rectangle(p.segment_count, p.bounds.width, p.bounds.height)
    &&& (p.filled || !p.stroked)
}

/// A stripped path: the opaque cover removed, a visible outline kept as
/// an audit trail, everything else unchanged.
pub open spec fn strip_path(p: PathObject) -> PathObject {
    PathObject { filled: false, stroked: true, ..p }
}

/// Whether an image's payload is already blank.
pub open spec fn image_is_blank(img: ImageObject) -> bool {
    payload_is_blank(img.pixels@)
}

/// Whether a rendered payload is already blank.
pub open spec fn payload_is_blank(pixels: Seq<u8>) -> bool {
    forall|i: int| 0 <= i < pixels.len() ==> pixels[i] == 0
}

/// Whether image blanking applies to a rendered payload: the strategy
/// is active, the payload is near-uniform, and it is not already blank
/// (so that a second pass finds nothing left to do).
pub open spec fn payload_needs_blank(pixels: Seq<u8>, strat: StrategySet) -> bool {
    &&& strat.image_blank
    &&& classify::spec_near_uniform(pixels)
    &&& !payload_is_blank(pixels)
}

/// Whether image blanking applies to an image object.
pub open spec fn image_needs_blank(img: ImageObject, strat: StrategySet) -> bool {
    payload_needs_blank(img.pixels@, strat)
}

/// Decides whether the geometry-strip rule applies to a path object.
pub fn should_strip_path(path: &PathObject, strat: &StrategySet) -> (r: bool)
    ensures
        r == path_needs_strip(*path, *strat),
{
    strat.geometry_strip && classify::is_rectangle(
        path.segment_count,
        path.bounds.width,
        path.bounds.height,
    ) && (path.filled || !path.stroked)
}

/// Decides whether the image-blank rule applies to an image object's
/// rendered grayscale payload.
pub fn should_blank_image(pixels: &Vec<u8>, strat: &StrategySet) -> (r: bool)
    ensures
        r == payload_needs_blank(pixels@, *strat),
{
    strat.image_blank && classify::is_near_uniform(pixels) && !all_zero(pixels)
}

/// Whether suppression applies to this annotation: the strategy is
/// active and the transformer's decision for it is suppression.
pub open spec fn annotation_needs_suppress(a: Annotation, strat: StrategySet) -> bool {
    strat.annotation_suppress && spec_annotation_action(a) == AnnotationAction::Suppress
}

/// A suppressed annotation: hidden, non-printable, bounds zeroed.
pub open spec fn suppress_annotation(a: Annotation) -> Annotation {
    Annotation {
        hidden: true,
        printed: false,
        bounds: RectMillipoints { width: 0, height: 0 },
        ..a
    }
}

/// Whether the transformer mutates this object under this strategy.
pub open spec fn object_mutated(o: PageObject, strat: StrategySet) -> bool {
    match o {
        PageObject::Path(p) => path_needs_strip(p, strat),
        PageObject::Image(img) => image_needs_blank(img, strat),
        PageObject::Other => false,
    }
}

/// How one object after the pass relates to the same object before it:
/// a qualifying path is stripped, a qualifying image's payload becomes
/// blank at unchanged dimensions, and everything else is untouched.
pub open spec fn object_transformed(before: PageObject, after: PageObject, strat: StrategySet) -> bool {
    match before {
        PageObject::Path(p) => if path_needs_strip(p, strat) {
            after == PageObject::Path(strip_path(p))
        } else {
            after == before
        },
        PageObject::Image(img) => if image_needs_blank(img, strat) {
            match after {
                PageObject::Image(ni) => {
                    &&& ni.width == img.width
                    &&& ni.height == img.height
                    &&& ni.pixels@ == Seq::new(img.pixels@.len(), |i: int| 0u8)
                },
                _ => false,
            }
        } else {
            after == before
        },
        PageObject::Other => after == before,
    }
}

/// How one annotation after the pass relates to itself before it.
pub open spec fn annotation_transformed(before: Annotation, after: Annotation, strat: StrategySet) -> bool {
    if annotation_needs_suppress(before, strat) {
        after == suppress_annotation(before)
    } else {
        after == before
    }
}

/// How many objects of the sequence the pass mutates.
pub open spec fn count_mutated_objects(objects: Seq<PageObject>, strat: StrategySet) -> int
    decreases objects.len(),
{
    if objects.len() == 0 {
        0
    } else {
        count_mutated_objects(objects.drop_last(), strat) + if object_mutated(
            objects.last(),
            strat,
        ) {
            1int
        } else {
            0int
        }
    }
}

/// How many annotations of the sequence the pass suppresses.
pub open spec fn count_suppressed_annotations(annots: Seq<Annotation>, strat: StrategySet) -> int
    decreases annots.len(),
{
    if annots.len() == 0 {
        0
    } else {
        count_suppressed_annotations(annots.drop_last(), strat) + if annotation_needs_suppress(
            annots.last(),
            strat,
        ) {
            1int
        } else {
            0int
        }
    }
}

/// The diagnostic entries of one annotation sequence under one strategy,
/// in annotation order: nothing when suppression is inactive, otherwise
/// one entry per annotation whose decision is a report.
pub open spec fn report_entries(annots: Seq<Annotation>, strat: StrategySet) -> Seq<AnnotationReport>
    decreases annots.len(),
{
    if !strat.annotation_suppress || annots.len() == 0 {
        Seq::empty()
    } else {
        report_entries(annots.drop_last(), strat) + report_entry_of(annots.last())
    }
}

/// The zero or one diagnostic entries of one annotation.
pub open spec fn report_entry_of(a: Annotation) -> Seq<AnnotationReport> {
    if spec_annotation_action(a) == AnnotationAction::ReportGeneric {
        seq![AnnotationReport { kind: a.kind, bounds: a.bounds, with_contents: false }]
    } else if spec_annotation_action(a) == AnnotationAction::ReportContents {
        seq![AnnotationReport { kind: a.kind, bounds: a.bounds, with_contents: true }]
    } else {
        Seq::empty()
    }
}

/// What one transformer pass did to a page.
pub struct TransformOutcome {
    /// Whether any object or annotation was mutated, and so whether the
    /// page's content stream must be regenerated and the page counts as
    /// changed.
    pub changed: bool,
    /// How many content objects were mutated.
    pub mutated_objects: usize,
    /// How many annotations were suppressed.
    pub mutated_annotations: usize,
    /// Diagnostic entries for the annotations left untouched but worth a
    /// manual audit, in annotation order.
    pub reports: Vec<AnnotationReport>,
}

/// Applies the active strategy's rules to every object and annotation of
/// the page, mutating it in place, and reports whether it changed.
pub fn transform_page(page: &mut Page, strat: &StrategySet) -> (r: TransformOutcome)
    ensures
        final(page).objects@.len() == old(page).objects@.len(),
        forall|i: int|
            0 <= i < old(page).objects@.len() ==> object_transformed(
                old(page).objects@[i],
                #[trigger] final(page).objects@[i],
                *strat,
            ),
        final(page).annotations@.len() == old(page).annotations@.len(),
        forall|i: int|
            0 <= i < old(page).annotations@.len() ==> annotation_transformed(
                old(page).annotations@[i],
                #[trigger] final(page).annotations@[i],
                *strat,
            ),
        r.mutated_objects == count_mutated_objects(old(page).objects@, *strat),
        r.mutated_annotations == count_suppressed_annotations(
            old(page).annotations@,
            *strat,
        ) && (!strat.annotation_suppress ==> r.mutated_annotations == 0),
        r.changed <==> (r.mutated_objects > 0 || r.mutated_annotations > 0),
        r.reports@ == report_entries(old(page).annotations@, *strat),
{
    let mut mutated_objects: usize = 0;
    let mut mutated_annotations: usize = 0;
    let mut reports: Vec<AnnotationReport> = Vec::new();

    if strat.annotation_suppress {
        let n = page.annotations.len();
        let mut j: usize = 0;
        while j < n
            invariant
                0 <= j <= n,
                n == page.annotations@.len(),
                strat.annotation_suppress,
                page.annotations@.len() == old(page).annotations@.len(),
                forall|k: int|
                    j <= k < n ==> #[trigger] page.annotations@[k] == old(page).annotations@[k],
                forall|k: int|
                    0 <= k < j ==> annotation_transformed(
                        old(page).annotations@[k],
                        #[trigger] page.annotations@[k],
                        *strat,
                    ),
                mutated_annotations == count_suppressed_annotations(
                    old(page).annotations@.take(j as int),
                    *strat,
                ),
                mutated_annotations <= j,
                reports@ == report_entries(old(page).annotations@.take(j as int), *strat),
                page.objects@ == old(page).objects@,
            decreases n - j,
        {
            let a = page.annotations[j];
            proof {
                assert(old(page).annotations@.take(j + 1 as int).drop_last() =~= old(
                    page,
                ).annotations@.take(j as int));
            }
            match annotation_action(&a) {
                AnnotationAction::Suppress => {
                    page.annotations.set(
                        j,
                        Annotation {
                            hidden: true,
                            printed: false,
                            bounds: RectMillipoints { width: 0, height: 0 },
                            ..a
                        },
                    );
                    mutated_annotations = mutated_annotations + 1;
                },
                AnnotationAction::ReportGeneric => {
                    reports.push(
                        AnnotationReport { kind: a.kind, bounds: a.bounds, with_contents: false },
                    );
                },
                AnnotationAction::ReportContents => {
                    reports.push(
                        AnnotationReport { kind: a.kind, bounds: a.bounds, with_contents: true },
                    );
                },
                AnnotationAction::Ignore => {},
            }
            j = j + 1;
        }
        proof {
            assert(old(page).annotations@.take(n as int) =~= old(page).annotations@);
        }
    } else {
        proof {
            lemma_count_suppressed_zero_without_strategy(page.annotations@, *strat);
        }
    }

    let n = page.objects.len();
    let mut i: usize = 0;
    while i < n
        invariant
            0 <= i <= n,
            n == page.objects@.len(),
            page.objects@.len() == old(page).objects@.len(),
            forall|k: int| i <= k < n ==> #[trigger] page.objects@[k] == old(page).objects@[k],
            forall|k: int|
                0 <= k < i ==> object_transformed(
                    old(page).objects@[k],
                    #[trigger] page.objects@[k],
                    *strat,
                ),
            mutated_objects == count_mutated_objects(old(page).objects@.take(i as int), *strat),
            mutated_objects <= i,
            page.annotations@.len() == old(page).annotations@.len(),
            forall|k: int|
                0 <= k < page.annotations@.len() ==> annotation_transformed(
                    old(page).annotations@[k],
                    #[trigger] page.annotations@[k],
                    *strat,
                ),
        decreases n - i,
    {
        proof {
            assert(old(page).objects@.take(i + 1 as int).drop_last() =~= old(
                page,
            ).objects@.take(i as int));
        }
        let mutate: bool = match &page.objects[i] {
            PageObject::Path(p) => should_strip_path(p, strat),
            PageObject::Image(img) => should_blank_image(&img.pixels, strat),
            PageObject::Other => false,
        };
        if mutate {
            let replacement: PageObject = match &page.objects[i] {
                PageObject::Path(p) => PageObject::Path(
                    PathObject { filled: false, stroked: true, ..*p },
                ),
                PageObject::Image(img) => {
                    let blank = zero_pixels(img.pixels.len());
                    PageObject::Image(
                        ImageObject { width: img.width, height: img.height, pixels: blank },
                    )
                },
                PageObject::Other => PageObject::Other,
            };
            page.objects.set(i, replacement);
            mutated_objects = mutated_objects + 1;
        }
        i = i + 1;
    }
    proof {
        assert(old(page).objects@.take(n as int) =~= old(page).objects@);
    }

    TransformOutcome {
        changed: mutated_objects > 0 || mutated_annotations > 0,
        mutated_objects,
        mutated_annotations,
        reports,
    }
}

/// Without the suppression strategy no annotation is suppressed.
proof fn lemma_count_suppressed_zero_without_strategy(annots: Seq<Annotation>, strat: StrategySet)
    requires
        !strat.annotation_suppress,
    ensures
        count_suppressed_annotations(annots, strat) == 0,
    decreases annots.len(),
{
    if annots.len() > 0 {
        lemma_count_suppressed_zero_without_strategy(annots.drop_last(), strat);
    }
}

/// Whether every byte of the payload is zero.
fn all_zero(pixels: &Vec<u8>) -> (r: bool)
    ensures
        r <==> (forall|i: int| 0 <= i < pixels@.len() ==> pixels@[i] == 0),
{
    let n = pixels.len();
    let mut i: usize = 0;
    while i < n
        invariant
            0 <= i <= n,
            n == pixels@.len(),
            forall|j: int| 0 <= j < i ==> pixels@[j] == 0,
        decreases n - i,
    {
        if pixels[i] != 0 {
            return false;
        }
        i = i + 1;
    }
    true
}

/// A zeroed payload of the given length.
fn zero_pixels(n: usize) -> (r: Vec<u8>)
    ensures
        r@ == Seq::new(n as nat, |i: int| 0u8),
{
    let mut v: Vec<u8> = Vec::new();
    let mut i: usize = 0;
    while i < n
        invariant
            0 <= i <= n,
            v@.len() == i,
            forall|j: int| 0 <= j < i ==> v@[j] == 0,
        decreases n - i,
    {
        v.push(0);
        i = i + 1;
    }
    proof {
        assert(v@ =~= Seq::new(n as nat, |i: int| 0u8));
    }
    v
}

} // verus!
