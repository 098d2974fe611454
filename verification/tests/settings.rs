use webrtcperf_vmaf_utils::settings::encoder_policy;
use webrtcperf_vmaf_utils::settings::parse_opts;

fn pair(k: &str, v: &str) -> (Vec<u8>, Vec<u8>) {
    (k.as_bytes().to_vec(), v.as_bytes().to_vec())
}

#[test]
fn parses_the_encoder_settings_string() {
    let got = parse_opts(b"quality=best,cpu-used=0,crf=1,qmin=1,qmax=10,kf-min-dist=1,kf-max-dist=1")
        .unwrap();
    assert_eq!(
        got,
        vec![
            pair("quality", "best"),
            pair("cpu-used", "0"),
            pair("crf", "1"),
            pair("qmin", "1"),
            pair("qmax", "10"),
            pair("kf-min-dist", "1"),
            pair("kf-max-dist", "1"),
        ]
    );
}

#[test]
fn tolerates_a_trailing_comma() {
    assert_eq!(parse_opts(b"a=1,"), Some(vec![pair("a", "1")]));
}

#[test]
fn empty_string_is_an_empty_setting() {
    assert_eq!(parse_opts(b""), Some(Vec::new()));
}

#[test]
fn rejects_malformed_segments() {
    assert_eq!(parse_opts(b"a"), None);
    assert_eq!(parse_opts(b"a=1=2"), None);
    assert_eq!(parse_opts(b"a=1,,b=2"), None);
    assert_eq!(parse_opts(b","), None);
    assert_eq!(parse_opts(b"a=1,b"), None);
}

#[test]
fn empty_key_or_value_is_accepted() {
    assert_eq!(parse_opts(b"=v"), Some(vec![pair("", "v")]));
    assert_eq!(parse_opts(b"k="), Some(vec![pair("k", "")]));
}

#[test]
fn encoder_policy_makes_every_frame_a_keyframe() {
    let p = encoder_policy();
    assert_eq!(p.gop, 1);
    assert_eq!(p.keyframe_min_dist, 1);
    assert_eq!(p.keyframe_max_dist, 1);
    assert_eq!(p.bit_rate, 20000);
    assert!(p.quality_best);
    assert_eq!(p.cpu_used, 0);
    assert_eq!(p.crf, 1);
    assert_eq!(p.qmin, 1);
    assert_eq!(p.qmax, 10);
    assert_eq!(p.thread_count, 0);
}
