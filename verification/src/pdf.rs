//! The boundary to the PDF toolkit: the document handle is declared
//! opaque, and the two calls the scorer makes into it stand behind
//! trusted contracts.

use vstd::prelude::*;
use crate::buffer::GrayBuffer;
use pdfium_render::prelude::PdfDocument;
use pdfium_render::prelude::PdfRenderConfig;

verus! {

/// The PDF toolkit's in-memory document handle: an ordered sequence of
/// pages, opaque to this crate's reasoning.
#[verifier::external_type_specification]
#[verifier::external_body]
pub struct ExPdfDocument<'a>(PdfDocument<'a>);

/// Relies on PdfPages::len: the number of pages the document holds, as
/// the toolkit's signed page index type.
#[verifier::external_body]
pub(crate) fn page_count(doc: &PdfDocument) -> i32 {
    doc.pages().len()
}

/// Relies on PdfPages::get, PdfPage::render_with_config and
/// PdfBitmap::as_image: rasterizes one page at the toolkit's default
/// render configuration and reduces it to 8-bit grayscale. The image
/// crate's buffer holds exactly one byte per pixel of its stated
/// dimensions, which are 32-bit, so the result is a well-formed grid.
/// Returns `None` when the toolkit fails to load or render the page.
#[verifier::external_body]
pub(crate) fn render_page_grayscale(doc: &PdfDocument, index: i32) -> (r: Option<GrayBuffer>)
    ensures
        r is Some ==> r->0.wf(),
{
    let page = doc.pages().get(index).ok()?;
    let bitmap = page.render_with_config(&PdfRenderConfig::new()).ok()?;
    let img = bitmap.as_image().ok()?.to_luma8();
    let (width, height) = img.dimensions();
    Some(GrayBuffer { width: width as usize, height: height as usize, data: img.into_raw() })
}

} // verus!
