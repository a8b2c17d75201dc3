//! Trusted boundary to the tabwriter crate, which performs the elastic-tabstop
//! column alignment of the rendered output. Everything else in the library is
//! verified against the contract stated here.

use vstd::prelude::*;

verus! {

/// The elastic-tabstop alignment of `text` with the given cell padding, or
/// `None` when the aligner fails. Alignment is a function of the text and the
/// padding alone.
pub uninterp spec fn tab_aligned(text: Seq<char>, padding: int) -> Option<Seq<char>>;

/// Aligns the tab-separated cells of `text`.
///
/// Relies on tabwriter::TabWriter over an in-memory buffer: the output is a
/// function of the input text and the padding alone, and text that contains
/// no tab passes through unchanged.
#[verifier::external_body]
pub(crate) fn tab_align(text: &str, padding: usize) -> (r: Option<String>)
    ensures
        tab_aligned(text@, padding as int) is Some ==> r is Some && (r->Some_0)@ == tab_aligned(
            text@,
            padding as int,
        )->Some_0,
        tab_aligned(text@, padding as int) is None ==> r is None,
        (forall|i: int| 0 <= i < text@.len() ==> text@[i] != '\t') ==> r is Some && (r->Some_0)@
            == text@,
{
    let mut tw = tabwriter::TabWriter::new(Vec::new()).padding(padding);
    if std::io::Write::write_all(&mut tw, text.as_bytes()).is_err() {
        return None;
    }
    if std::io::Write::flush(&mut tw).is_err() {
        return None;
    }
    match tw.into_inner() {
        Ok(buf) => String::from_utf8(buf).ok(),
        Err(_) => None,
    }
}

} // verus!
