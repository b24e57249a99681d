use resize_uploader::generate_github_url;
use resize_uploader::link::github_link_for;
use resize_uploader::paths::output_dir_name;
use resize_uploader::paths::output_file_name;
use resize_uploader::paths::output_path;
use resize_uploader::paths::resized_file_name;
use resize_uploader::u32_to_string;

#[test]
fn decimal_form_is_exact() {
    assert_eq!(u32_to_string(0), "0");
    assert_eq!(u32_to_string(7), "7");
    assert_eq!(u32_to_string(640), "640");
    assert_eq!(u32_to_string(4294967295), "4294967295");
}

#[test]
fn intermediate_artifact_name_tags_the_stem() {
    assert_eq!(resized_file_name("vacation"), "vacation_resized.png");
}

#[test]
fn output_directory_is_dimension_tagged() {
    assert_eq!(output_dir_name(800, 600), "800_600");
    assert_eq!(output_dir_name(1, 1), "1_1");
}

#[test]
fn output_artifact_path_is_dir_then_stem_with_lossy_extension() {
    assert_eq!(output_file_name("vacation"), "vacation.webp");
    assert_eq!(output_path(800, 600, "vacation"), "800_600/vacation.webp");
    assert_eq!(output_path(640, 480, "pic"), "640_480/pic.webp");
    assert_eq!(
        output_path(u32::MAX, u32::MAX, "s"),
        "4294967295_4294967295/s.webp",
    );
}

#[test]
fn markdown_link_embeds_name_and_dimensions() {
    assert_eq!(
        generate_github_url("trip", "800", "600"),
        "![trip](https://raw.githubusercontent.com/shunkat/image-resize-convert-uploader/master/800_600/trip.webp)",
    );
    assert_eq!(
        github_link_for("trip", 800, 600),
        "![trip](https://raw.githubusercontent.com/shunkat/image-resize-convert-uploader/master/800_600/trip.webp)",
    );
}

#[test]
fn link_and_output_share_the_dimension_tagged_layout() {
    let link = github_link_for("pic", 640, 480);
    let path = output_path(640, 480, "pic");
    assert!(link.ends_with(&format!("{path})")));
}
