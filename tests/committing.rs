use discord_banner_bot::committer::{
    check_content_length, check_features, check_features_lowered, data_uri_from_encoded, extension_of_url,
    file_extension, image_data_uri, resized_image_url, resized_query, ImageDownload, MAXIMUM_IMAGE_SIZE,
};
use discord_banner_bot::orchestrator::FailureKind;

fn features(names: &[&str]) -> Vec<String> {
    names.iter().map(|s| s.to_string()).collect()
}

#[test]
fn banner_feature_is_required() {
    assert_eq!(check_features(&features(&["ANIMATED_BANNER"]), "png"), Err(FailureKind::MissingFeature));
    assert_eq!(check_features(&features(&[]), "gif"), Err(FailureKind::MissingFeature));
}

#[test]
fn animated_banner_feature_is_required_for_gifs() {
    assert_eq!(check_features(&features(&["BANNER"]), "gif"), Err(FailureKind::MissingAnimatedFeature));
    assert_eq!(check_features(&features(&["BANNER"]), "GIF"), Err(FailureKind::MissingAnimatedFeature));
    assert_eq!(check_features(&features(&["BANNER", "ANIMATED_BANNER"]), "Gif"), Ok(()));
    assert_eq!(check_features(&features(&["BANNER"]), "png"), Ok(()));
    assert_eq!(check_features_lowered(&features(&["BANNER"]), "gif"), Err(FailureKind::MissingAnimatedFeature));
}

#[test]
fn extension_from_path() {
    assert_eq!(file_extension("/a/b.png"), Some("png".to_string()));
    assert_eq!(file_extension("/a/b.tar.gz"), Some("gz".to_string()));
    assert_eq!(file_extension("/a.b/c"), None);
    assert_eq!(file_extension("/a/b."), None);
    assert_eq!(file_extension(""), None);
}

#[test]
fn extension_from_url() {
    assert_eq!(
        extension_of_url("https://cdn.example.com/attachments/1/2/photo.GIF?ex=1&is=2"),
        Ok("GIF".to_string())
    );
    assert_eq!(extension_of_url("https://cdn.example.com/attachments/1/2/photo"), Err(FailureKind::UndeterminedExtension));
    assert_eq!(extension_of_url("not a url"), Err(FailureKind::UndeterminedExtension));
}

#[test]
fn declared_size_checks() {
    assert_eq!(check_content_length(Some(0)), Err(FailureKind::EmptyImage));
    assert_eq!(check_content_length(Some(MAXIMUM_IMAGE_SIZE as u64)), Err(FailureKind::OversizeImage));
    assert_eq!(check_content_length(Some(u64::MAX)), Err(FailureKind::OversizeImage));
    assert_eq!(check_content_length(Some(5)), Ok(5));
    assert_eq!(check_content_length(None), Ok(MAXIMUM_IMAGE_SIZE));
    assert_eq!(MAXIMUM_IMAGE_SIZE, 10_485_760);
}

#[test]
fn declared_size_that_lies_fails_as_oversize() {
    let mut d = ImageDownload::start(Some(1_000)).unwrap();
    let chunk = vec![0u8; 1024 * 1024];
    for _ in 0..10 {
        assert_eq!(d.push_chunk(&chunk), Ok(()));
    }
    assert_eq!(d.push_chunk(&[1u8]), Err(FailureKind::OversizeImage));
    assert_eq!(d.len(), MAXIMUM_IMAGE_SIZE);
    assert_eq!(d.finish(), Err(FailureKind::OversizeImage));
}

#[test]
fn unknown_size_that_overflows() {
    let mut d = ImageDownload::start(None).unwrap();
    assert_eq!(d.push_chunk(&vec![0u8; MAXIMUM_IMAGE_SIZE - 1]), Ok(()));
    assert_eq!(d.push_chunk(&[1u8, 2u8]), Err(FailureKind::UnknownSizeOverflow));
    assert_eq!(d.len(), MAXIMUM_IMAGE_SIZE - 1);
    assert_eq!(d.finish().map(|b| b.len()), Ok(MAXIMUM_IMAGE_SIZE - 1));
}

#[test]
fn download_start_and_finish() {
    assert!(matches!(ImageDownload::start(Some(0)), Err(FailureKind::EmptyImage)));
    let d = ImageDownload::start(Some(3)).unwrap();
    assert_eq!(d.finish(), Err(FailureKind::EmptyImage));
    let mut d = ImageDownload::start(Some(3)).unwrap();
    d.push_chunk(&[1, 2]).unwrap();
    d.push_chunk(&[3]).unwrap();
    assert_eq!(d.finish(), Ok(vec![1, 2, 3]));
}

#[test]
fn data_uri_of_image() {
    assert_eq!(image_data_uri("png", &vec![1, 2, 3]), "data:image/png;base64,AQID");
    assert_eq!(image_data_uri("gif", &b"hello".to_vec()), "data:image/gif;base64,aGVsbG8=");
    assert_eq!(data_uri_from_encoded("jpg", "QQ=="), "data:image/jpg;base64,QQ==");
}

#[test]
fn resized_query_keeps_signature_and_sets_size() {
    let pairs = vec![
        ("foo".to_string(), "1".to_string()),
        ("hm".to_string(), "h".to_string()),
        ("ex".to_string(), "e1".to_string()),
        ("ex".to_string(), "e2".to_string()),
    ];
    let q = resized_query(&pairs);
    let expected: Vec<(String, String)> = [("ex", "e2"), ("hm", "h"), ("width", "960"), ("height", "540")]
        .iter()
        .map(|(k, v)| (k.to_string(), v.to_string()))
        .collect();
    assert_eq!(q, expected);
}

#[test]
fn resized_image_url_rewrites_the_query() {
    assert_eq!(
        resized_image_url("https://cdn.example.com/attachments/1/2/a.png?ex=1&is=2&hm=3&foo=4"),
        Some("https://cdn.example.com/attachments/1/2/a.png?ex=1&is=2&hm=3&width=960&height=540".to_string())
    );
    assert_eq!(
        resized_image_url("https://cdn.example.com/a.png"),
        Some("https://cdn.example.com/a.png?width=960&height=540".to_string())
    );
    assert_eq!(resized_image_url("nope"), None);
}
