use vn_engine::error::EngineError;

#[test]
fn io_error_is_a_file_error() {
    let e = std::io::Error::new(std::io::ErrorKind::NotFound, "missing");
    assert_eq!(EngineError::from(e), EngineError::FileError);
}

#[test]
fn bad_number_is_a_parse_error() {
    let e = "x1".parse::<i32>().unwrap_err();
    assert_eq!(EngineError::from(e), EngineError::ParseError);
}

#[test]
fn bad_config_is_a_config_error() {
    let e = toml::from_str::<toml::Table>("= no key").unwrap_err();
    assert_eq!(EngineError::from(e), EngineError::ConfigError);
}

#[test]
fn unserializable_config_is_a_save_error() {
    let e = toml::to_string(&5i32).unwrap_err();
    assert_eq!(EngineError::from(e), EngineError::SaveError);
}

#[test]
fn refused_auto_message_is_an_auto_error() {
    let (tx, rx) = tokio::sync::mpsc::unbounded_channel::<u32>();
    drop(rx);
    let e = tx.send(1).unwrap_err();
    assert_eq!(EngineError::from(e), EngineError::AutoError);
}

#[test]
fn error_variants_are_distinct() {
    let all = [
        EngineError::FileError,
        EngineError::ParseError,
        EngineError::UiError,
        EngineError::AutoError,
        EngineError::ConfigError,
        EngineError::SaveError,
    ];
    for (i, a) in all.iter().enumerate() {
        for (j, b) in all.iter().enumerate() {
            assert_eq!(i == j, a == b);
        }
    }
}
