use n3::builder::sources::{dashed_stem, strip_dashes, trim_path};

#[test]
fn node_names_of_source_files() {
    assert_eq!(trim_path("std/nn/conv_2d.n3").as_deref(), Some("Conv2D"));
    assert_eq!(trim_path("/root/std/lenet_5.py").as_deref(), Some("Lenet5"));
    assert_eq!(trim_path("image_classification.tar.gz").as_deref(), Some("ImageClassification"));
    assert_eq!(trim_path("/"), None);
}

#[test]
fn stems_and_dashes() {
    assert_eq!(dashed_stem("foo_bar.baz.n3"), "foo-bar");
    assert_eq!(dashed_stem("plain"), "plain");
    assert_eq!(strip_dashes("a-b--c-"), "abc");
}

#[test]
fn a_source_and_its_script_share_a_name() {
    assert_eq!(trim_path("nodes/__user__/my_node.n3"), trim_path("elsewhere/my_node.py"));
    assert_eq!(trim_path("my_node.n3"), trim_path("/a/b/my_node.tar.gz"));
    assert!(!trim_path("data/some-dashed_name.n3").unwrap().contains('-'));
    assert_eq!(trim_path("a/.."), None);
}
