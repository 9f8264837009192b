//! Which files of a directory the importer takes.

use vstd::prelude::*;

verus! {

/// The file extensions that the importer takes from a directory.
pub open spec fn spec_is_importable_extension(extension: Seq<char>) -> bool {
    extension == "JPG"@ || extension == "jpeg"@ || extension == "PNG"@
}

/// Exactly three spellings are taken, `JPG`, `jpeg` and `PNG`; any other extension,
/// such as the `json` of a sidecar file or `jpg` in lower case, is not.
pub proof fn lemma_importable_extensions(extension: Seq<char>)
    ensures
        spec_is_importable_extension(extension) <==> (extension == "JPG"@ || extension == "jpeg"@
            || extension == "PNG"@),
{
}

/// Whether a file with this extension is imported when its directory is imported.
/// The comparison is exact: other spellings of the same formats are not taken.
pub fn is_importable_extension(extension: &str) -> (importable: bool)
    ensures
        importable == spec_is_importable_extension(extension@),
        importable <==> (extension@ == "JPG"@ || extension@ == "jpeg"@ || extension@ == "PNG"@),
{
    let ext = String::from_str(extension);
    ext == String::from_str("JPG") || ext == String::from_str("jpeg") || ext == String::from_str(
        "PNG",
    )
}

} // verus!
