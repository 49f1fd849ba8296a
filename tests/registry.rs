use plugin_manager::download::{artifact_name, finish_download};
use plugin_manager::error::{ParseError, PluginError, QueryError};
use plugin_manager::PluginManager;

#[test]
fn register_twice_is_refused() {
    let mut m: PluginManager<u32> = PluginManager::new();
    assert!(m.register_plugin(1, "a").is_ok());
    assert_eq!(m.len(), 1);
    match m.register_plugin(2, "a") {
        Err(PluginError::DuplicatedPlugin(n)) => assert_eq!(n, "a"),
        other => panic!("unexpected {:?}", other),
    }
    assert_eq!(m.len(), 1);
    m.set_default("a").unwrap();
    assert_eq!(*m.default().unwrap(), 1);
}

#[test]
fn unregister_unknown_is_refused() {
    let mut m: PluginManager<u32> = PluginManager::new();
    m.register_plugin(1, "a").unwrap();
    m.set_default("a").unwrap();
    match m.unregister_plugin("b") {
        Err(PluginError::UnregisteredPlugin(n)) => assert_eq!(n, "b"),
        other => panic!("unexpected {:?}", other),
    }
    assert_eq!(m.len(), 1);
    assert!(m.contains("a"));
    assert_eq!(*m.default().unwrap(), 1);
}

#[test]
fn unregister_removes_and_clears_default() {
    let mut m: PluginManager<u32> = PluginManager::new();
    m.register_plugin(1, "a").unwrap();
    m.register_plugin(2, "b").unwrap();
    m.register_plugin(3, "c").unwrap();
    m.set_default("b").unwrap();
    m.unregister_plugin("a").unwrap();
    assert_eq!(*m.default().unwrap(), 2);
    m.unregister_plugin("b").unwrap();
    assert!(!m.contains("b"));
    assert!(m.contains("c"));
    assert_eq!(m.len(), 1);
    assert!(matches!(m.default(), Err(PluginError::NoDefaultPlugin)));
}

#[test]
fn set_default_needs_a_registered_name() {
    let mut m: PluginManager<u32> = PluginManager::new();
    m.register_plugin(7, "x").unwrap();
    m.register_plugin(8, "y").unwrap();
    match m.set_default("z") {
        Err(PluginError::UnregisteredPlugin(n)) => assert_eq!(n, "z"),
        other => panic!("unexpected {:?}", other),
    }
    assert!(matches!(m.default(), Err(PluginError::NoDefaultPlugin)));
    m.set_default("y").unwrap();
    assert_eq!(*m.default().unwrap(), 8);
    m.set_default("x").unwrap();
    assert_eq!(*m.default().unwrap(), 7);
}

#[test]
fn no_default_is_reported() {
    let m: PluginManager<u32> = PluginManager::new();
    assert_eq!(m.len(), 0);
    assert!(matches!(m.default(), Err(PluginError::NoDefaultPlugin)));
}

#[test]
fn download_fails_when_follower_cannot_be_joined() {
    match finish_download("song", true, false) {
        Err(PluginError::DownloadError(m)) => {
            assert_eq!(m, "An error occured while joining progress follower thread")
        }
        other => panic!("unexpected {:?}", other),
    }
}

#[test]
fn download_fails_when_process_fails() {
    match finish_download("song", false, true) {
        Err(PluginError::DownloadError(m)) => {
            assert_eq!(m, "The transfer process did not end successfully")
        }
        other => panic!("unexpected {:?}", other),
    }
}

#[test]
fn download_yields_mp3_artifact() {
    assert_eq!(finish_download("song", true, true).unwrap(), "song.mp3");
    assert_eq!(artifact_name(""), ".mp3");
}

#[test]
fn error_messages() {
    assert_eq!(QueryError::Error.message(), "Query Error\n");
    assert_eq!(
        ParseError::JsonUnparsable("eof".to_string()).message(),
        "Error in json parsing, cause: eof"
    );
    assert_eq!(
        ParseError::InvalidResponseText.message(),
        "The response text is malformed and cannot be parsed\n"
    );
    assert_eq!(
        PluginError::DuplicatedPlugin("a".to_string()).message(),
        "Duplicated plugin: `a`\n"
    );
    assert_eq!(
        PluginError::DownloadError("boom".to_string()).message(),
        "An error occured while downloading\nHere's the cause: boom\n"
    );
    assert_eq!(
        PluginError::NoDefaultPlugin.message(),
        "No plugin has been set as default yet\n"
    );
}
