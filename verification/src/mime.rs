//! Mapping a discovered content type to the file extension used when a
//! staged file is published, with a generic binary fallback for types the
//! table does not know.

use vstd::prelude::*;
use vstd::string::*;

verus! {

/// The file extension that the `mime-db` table associates with a mime type,
/// if any; a pure function of the mime string alone.
pub uninterp spec fn ext_of(mime: Seq<char>) -> Option<Seq<char>>;

/// Relies on mime2ext::mime2ext: looks the mime type up in its embedded
/// `mime-db` table; the result depends on the mime string alone.
#[verifier::external_body]
fn mime2ext_lookup(mime: &str) -> (r: Option<String>)
    ensures
        r matches Some(e) ==> ext_of(mime@) == Some(e@),
        r is None ==> ext_of(mime@) is None,
{
    mime2ext::mime2ext(mime).map(|e| e.to_string())
}

/// The extension a published file gets for this content type: the table's
/// extension, or `bin` when the type is unrecognized.
pub open spec fn spec_file_ext(mime: Seq<char>) -> Seq<char> {
    match ext_of(mime) {
        Some(e) => e,
        None => "bin"@,
    }
}

/// Pick the extension for a published file from its content type.
pub fn file_ext(mime: &String) -> (r: String)
    ensures
        r@ == spec_file_ext(mime@),
{
    match mime2ext_lookup(mime.as_str()) {
        Some(e) => e,
        None => String::from_str("bin"),
    }
}

} // verus!
