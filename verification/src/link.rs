//! The markdown link placed on the clipboard: an image reference against the
//! fixed remote-hosting layout, mirroring the dimension-tagged directory the
//! output artifact is written to.
use vstd::prelude::*;

use crate::numeral::dec_str;
use crate::numeral::u32_to_string;
use crate::paths::output_path_spec;

verus! {

/// The markdown image reference for a published copy: the display name, then
/// the fixed remote host, the dimension-tagged directory, and the display
/// name with the lossy extension.
pub open spec fn github_link(name: Seq<char>, width: Seq<char>, height: Seq<char>) -> Seq<char> {
    "!["@ + name + "](https://raw.githubusercontent.com/shunkat/image-resize-convert-uploader/master/"@
        + width + "_"@ + height + "/"@ + name + ".webp)"@
}

/// What precedes the hosted path inside the markdown reference: the display
/// name in the alt text, then the fixed remote host.
pub open spec fn link_prefix(name: Seq<char>) -> Seq<char> {
    "!["@ + name
        + "](https://raw.githubusercontent.com/shunkat/image-resize-convert-uploader/master/"@
}

/// The link and the output artifact share one layout: after the fixed host,
/// the link holds exactly the dimension-tagged output path — computed with
/// the display name in the stem position. When the display name differs from
/// the source stem, the linked path therefore names a file other than the one
/// written.
pub proof fn lemma_link_matches_output_layout(name: Seq<char>, width: nat, height: nat)
    ensures
        github_link(name, dec_str(width), dec_str(height)) == link_prefix(name)
            + output_path_spec(width, height, name) + ")"@,
{
    reveal_strlit(".webp)");
    reveal_strlit(".webp");
    reveal_strlit(")");
    assert(".webp)"@ =~= ".webp"@ + ")"@);
    assert(github_link(name, dec_str(width), dec_str(height)) =~= link_prefix(name)
        + output_path_spec(width, height, name) + ")"@);
}

/// Formats the markdown image reference for the given display name and the
/// decimal forms of the chosen dimensions.
pub fn generate_github_url(image_name: &str, width: &str, height: &str) -> (r: String)
    ensures
        r@ == github_link(image_name@, width@, height@),
{
    let mut r = String::new();
    r.append("![");
    r.append(image_name);
    r.append("](https://raw.githubusercontent.com/shunkat/image-resize-convert-uploader/master/");
    r.append(width);
    r.append("_");
    r.append(height);
    r.append("/");
    r.append(image_name);
    r.append(".webp)");
    proof {
        assert(r@ =~= github_link(image_name@, width@, height@));
    }
    r
}

/// Formats the markdown image reference straight from numeric dimensions.
pub fn github_link_for(image_name: &str, width: u32, height: u32) -> (r: String)
    ensures
        r@ == github_link(image_name@, dec_str(width as nat), dec_str(height as nat)),
{
    let w = u32_to_string(width);
    let h = u32_to_string(height);
    generate_github_url(image_name, w.as_str(), h.as_str())
}

/// Terminal preview of the chosen image; previewing is out of the pipeline's
/// scope, so this deliberately shows nothing.
pub fn display_image(_image_path: &str) {
}

} // verus!
