use webrtcperf_vmaf_utils::mapping::MediaKind;
use webrtcperf_vmaf_utils::mapping::StreamMapping;

#[test]
fn video_streams_get_dense_ordinals_in_input_order() {
    let kinds = vec![
        MediaKind::Audio,
        MediaKind::Video,
        MediaKind::Other,
        MediaKind::Video,
        MediaKind::Subtitle,
        MediaKind::Video,
    ];
    let m = StreamMapping::build(&kinds);
    assert_eq!(m.len(), 6);
    assert_eq!(m.output_index(0), None);
    assert_eq!(m.output_index(1), Some(0));
    assert_eq!(m.output_index(2), None);
    assert_eq!(m.output_index(3), Some(1));
    assert_eq!(m.output_index(4), None);
    assert_eq!(m.output_index(5), Some(2));
}

#[test]
fn only_video_streams_are_carried() {
    let kinds = vec![MediaKind::Audio, MediaKind::Subtitle, MediaKind::Other];
    let m = StreamMapping::build(&kinds);
    for i in 0..3 {
        assert_eq!(m.output_index(i), None);
    }
}

#[test]
fn empty_container_maps_to_nothing() {
    let m = StreamMapping::build(&Vec::new());
    assert_eq!(m.len(), 0);
}

#[test]
fn single_video_stream_is_ordinal_zero() {
    let m = StreamMapping::build(&vec![MediaKind::Video]);
    assert_eq!(m.output_index(0), Some(0));
}
