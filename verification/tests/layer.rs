use raptor::error::RaptorError;
use raptor::layer::{layer_step, LayerInfo, LayerStep};

#[test]
fn layerinfo_format() {
    let info = LayerInfo::new("name".to_string(), 0x0123_4567_89AB_CDEF);
    assert_eq!(info.name(), "name");
    assert_eq!(info.hash(), "0123456789ABCDEF");
    assert_eq!(info.id(), "name-0123456789ABCDEF");
}

#[test]
fn layerinfo_parse() {
    let res = LayerInfo::try_from("name-0123456789ABCDEF").unwrap();
    assert_eq!(res.name(), "name");
    assert_eq!(res.hash_value(), 0x0123_4567_89AB_CDEF);

    LayerInfo::try_from("name-123456789ABCDEF").unwrap_err();
    LayerInfo::try_from("name-0123456789ABCDEF0").unwrap_err();
}

#[test]
fn layerinfo_paths() {
    let info = LayerInfo::new("base".to_string(), 0xff);
    assert_eq!(info.hash(), "00000000000000FF");
    assert_eq!(info.work_path(), "layers/build-base-00000000000000FF");
    assert_eq!(info.done_path(), "layers/base-00000000000000FF");
}

#[test]
fn layerinfo_parse_errors() {
    assert!(matches!(
        LayerInfo::try_from("nodash"),
        Err(RaptorError::LayerCacheParseError)
    ));
    assert!(matches!(
        LayerInfo::try_from("name-0123456789ABCDEG"),
        Err(RaptorError::ParseIntError)
    ));
}

#[test]
fn layerinfo_roundtrip() {
    let info = LayerInfo::new("my-layer".to_string(), 0xDEAD_BEEF_0000_0001);
    let back = LayerInfo::try_from(info.id().as_str()).unwrap();
    assert_eq!(back.name(), "my-layer");
    assert_eq!(back.hash_value(), 0xDEAD_BEEF_0000_0001);
}

#[test]
fn finished_layers_are_reused() {
    assert_eq!(layer_step(true, false), LayerStep::Reuse);
    assert_eq!(layer_step(true, true), LayerStep::Reuse);
    assert_eq!(layer_step(false, true), LayerStep::Simulate);
    assert_eq!(layer_step(false, false), LayerStep::Build);
}
