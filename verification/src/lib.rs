//! Strips classes of visual redaction artifacts from PDF documents —
//! filled rectangles that occlude content, decorative annotations, and
//! near-uniform blank images — and quantifies how much each page's
//! rendered appearance actually changed, to confirm the removal was
//! consequential rather than cosmetic.
//!
//! The crate is organised leaf to root. [`strategy`] holds the immutable
//! set of capability flags selecting which transformation rules are
//! active. [`classify`] holds the pure predicates deciding whether a
//! path object qualifies as a redaction rectangle and whether an image
//! is near-uniform. [`transform`] applies the active rules to every
//! object and annotation of a page and reports whether the page
//! changed. [`buffer`], [`blur`] and [`scorer`] rasterize before/after
//! page pairs and compute a thresholded, spatially weighted
//! pixel-difference score; [`decimal`] renders the qualifying page
//! list. [`ruin`] assembles the per-document result record, and
//! [`laws`] states and proves the properties the transformer and the
//! scorer obey. The PDF toolkit itself stands behind the trusted
//! boundary in [`pdf`].

pub mod blur;
pub mod buffer;
pub mod classify;
pub mod decimal;
pub mod laws;
pub mod pdf;
pub mod ruin;
pub mod scorer;
pub mod strategy;
pub mod transform;
