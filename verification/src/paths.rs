//! Naming rules of a run's artifacts: the intermediate resized file, the
//! dimension-tagged output directory, and the lossy-encoded output file.
use vstd::prelude::*;

use crate::numeral::dec_str;
use crate::numeral::u32_to_string;

verus! {

/// The name of the intermediate artifact: the source stem tagged as resized.
pub open spec fn resized_name(stem: Seq<char>) -> Seq<char> {
    stem + "_resized.png"@
}

/// The name of the dimension-tagged output directory.
pub open spec fn dir_name(width: nat, height: nat) -> Seq<char> {
    dec_str(width) + "_"@ + dec_str(height)
}

/// The name of the output artifact: the source stem with the lossy extension.
pub open spec fn webp_name(stem: Seq<char>) -> Seq<char> {
    stem + ".webp"@
}

/// The full relative path of the output artifact.
pub open spec fn output_path_spec(width: nat, height: nat, stem: Seq<char>) -> Seq<char> {
    dir_name(width, height) + "/"@ + webp_name(stem)
}

/// File name the resized intermediate artifact is stored under.
pub fn resized_file_name(stem: &str) -> (r: String)
    ensures
        r@ == resized_name(stem@),
{
    let mut r = stem.to_owned();
    r.append("_resized.png");
    r
}

/// Name of the output directory for the chosen dimensions.
pub fn output_dir_name(width: u32, height: u32) -> (r: String)
    ensures
        r@ == dir_name(width as nat, height as nat),
{
    let mut r = u32_to_string(width);
    r.append("_");
    r.append(u32_to_string(height).as_str());
    proof {
        assert(r@ =~= dir_name(width as nat, height as nat));
    }
    r
}

/// File name of the output artifact for the given source stem.
pub fn output_file_name(stem: &str) -> (r: String)
    ensures
        r@ == webp_name(stem@),
{
    let mut r = stem.to_owned();
    r.append(".webp");
    r
}

/// Relative path of the output artifact: the dimension-tagged directory,
/// then the source stem with the lossy extension.
pub fn output_path(width: u32, height: u32, stem: &str) -> (r: String)
    ensures
        r@ == output_path_spec(width as nat, height as nat, stem@),
{
    let mut r = output_dir_name(width, height);
    r.append("/");
    r.append(output_file_name(stem).as_str());
    proof {
        assert(r@ =~= output_path_spec(width as nat, height as nat, stem@));
    }
    r
}

} // verus!
