use webrtcperf_vmaf_utils::naming::derive_output_path;
use webrtcperf_vmaf_utils::naming::rename_with_id;
use webrtcperf_vmaf_utils::Mode;

#[test]
fn watermark_output_path_replaces_extension() {
    let out = derive_output_path(b"clip.mp4", Mode::Watermark);
    assert_eq!(out, b"clip.w.ivf".to_vec());
}

#[test]
fn recognize_output_path_replaces_extension() {
    let out = derive_output_path(b"clip.mp4", Mode::Recognize);
    assert_eq!(out, b"clip.r.ivf".to_vec());
}

#[test]
fn output_path_keeps_inner_dots() {
    let out = derive_output_path(b"foo.bar.mp4", Mode::Watermark);
    assert_eq!(out, b"foo.bar.w.ivf".to_vec());
}

#[test]
fn output_path_without_extension_is_unchanged() {
    assert_eq!(derive_output_path(b"clip", Mode::Watermark), b"clip".to_vec());
    assert_eq!(derive_output_path(b"clip.", Mode::Watermark), b"clip.".to_vec());
    assert_eq!(
        derive_output_path(b".mp4", Mode::Watermark),
        b".mp4".to_vec()
    );
    assert_eq!(
        derive_output_path(b"clip.mp 4", Mode::Recognize),
        b"clip.mp 4".to_vec()
    );
}

#[test]
fn output_path_derivation_is_deterministic() {
    let a = derive_output_path(b"some.video.mkv", Mode::Recognize);
    let b = derive_output_path(b"some.video.mkv", Mode::Recognize);
    assert_eq!(a, b);
    assert_eq!(a, b"some.video.r.ivf".to_vec());
}

#[test]
fn rename_embeds_recovered_id() {
    let out = rename_with_id(b"clip.r_candidate.mp4", 42);
    assert_eq!(out, b"clip.42.ivf".to_vec());
}

#[test]
fn rename_replaces_from_first_dot() {
    assert_eq!(rename_with_id(b"a.b.c", 7), b"a.7.ivf".to_vec());
    assert_eq!(rename_with_id(b".bashrc", 7), b".7.ivf".to_vec());
}

#[test]
fn rename_without_dot_is_unchanged() {
    assert_eq!(rename_with_id(b"clip", 42), b"clip".to_vec());
    assert_eq!(rename_with_id(b"clip.", 42), b"clip.".to_vec());
}
