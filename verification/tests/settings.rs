use agent_may::config::{config_file_path, may_home, AppConfig, AppConfigFile, ConfigStep};
use agent_may::paths::{expand_tilde, Anchor, Location};
use agent_may::time::Timestamp;

fn path(place: &Location) -> String {
    let mut r = match &place.anchor {
        Anchor::Home => "~".to_string(),
        Anchor::Fixed(path) => path.clone(),
    };
    for name in &place.tail {
        r.push('/');
        r.push_str(name);
    }
    r
}

#[test]
fn program_directory_is_set_or_in_the_home_directory() {
    assert_eq!(path(&may_home(None, true).unwrap()), "~/.may");
    assert_eq!(path(&may_home(Some(" /m "), false).unwrap()), "/m");
    assert_eq!(path(&may_home(Some("  "), true).unwrap()), "~/.may");
    let error = may_home(None, false).unwrap_err();
    assert_eq!(error.message(), "could not determine the home directory");
    assert_eq!(path(&config_file_path(Some("/m"), false).unwrap()), "/m/config.toml");
}

#[test]
fn missing_settings_are_created_and_then_used() {
    let file = match AppConfig::load_or_create(Some("/m"), true, None).unwrap() {
        ConfigStep::Create { path: place, file } => {
            assert_eq!(path(&place), "/m/config.toml");
            assert_eq!(file.chats_dir, "~/.may/chats");
            file
        }
        other => panic!("{:?}", other),
    };
    match AppConfig::load_or_create(Some("/m"), true, Some(file)).unwrap() {
        ConfigStep::Ready(config) => {
            assert_eq!(path(&config.config_path), "/m/config.toml");
            assert_eq!(path(&config.chats_dir), "~/.may/chats");
            assert_eq!(config.chats_dir.tail, vec![".may/chats".to_string()]);
        }
        other => panic!("{:?}", other),
    }
}

#[test]
fn settings_need_the_home_directory_only_where_they_name_it() {
    let fixed = AppConfigFile { chats_dir: "/c".to_string() };
    assert!(AppConfig::load_or_create(Some("/m"), false, Some(fixed)).is_ok());
    let home = AppConfigFile { chats_dir: "~".to_string() };
    assert!(AppConfig::load_or_create(Some("/m"), false, Some(home)).is_err());
    assert!(AppConfig::load_or_create(None, false, None).is_err());
}

#[test]
fn tilde_is_the_home_directory() {
    assert_eq!(path(&expand_tilde("~", true).unwrap()), "~");
    assert_eq!(path(&expand_tilde("~/a/b", true).unwrap()), "~/a/b");
    assert_eq!(path(&expand_tilde("~user/a", false).unwrap()), "~user/a");
    assert_eq!(path(&expand_tilde("/~/a", false).unwrap()), "/~/a");
    assert!(expand_tilde("~", false).is_err());
    assert!(expand_tilde("~/a", false).is_err());
}

#[test]
fn moments_are_what_chrono_can_hold() {
    let samples: [(i64, u32); 10] = [
        (0, 0),
        (-1, 999_999_999),
        (59, 1_500_000_000),
        (60, 1_500_000_000),
        (-1, 1_999_999_999),
        (-8_334_601_228_800, 0),
        (-8_334_601_228_801, 0),
        (8_210_266_876_799, 0),
        (8_210_266_876_800, 0),
        (59, 2_000_000_000),
    ];
    for (secs, nanos) in samples {
        let known = chrono::DateTime::from_timestamp(secs, nanos).is_some();
        assert_eq!(Timestamp::new(secs, nanos).is_some(), known, "{} {}", secs, nanos);
    }
}

#[test]
fn moments_are_written() {
    let t = Timestamp::new(1_700_000_000, 123).unwrap();
    assert_eq!(t.name_text(), "2023-11-14_22-13-20");
    assert_eq!(t.screen_text(), "2023-11-14 22:13");
    assert_eq!((t.secs(), t.nanos()), (1_700_000_000, 123));
}

#[test]
fn moments_are_ordered() {
    let t = |s: i64, n: u32| Timestamp::new(s, n).unwrap();
    assert!(t(1, 0).is_after(&t(0, 999)));
    assert!(t(1, 2).is_after(&t(1, 1)));
    assert!(!t(1, 1).is_after(&t(1, 1)));
    assert!(!t(0, 5).is_after(&t(1, 0)));
}

#[test]
fn clock_goes_on() {
    let before = Timestamp::now();
    let after = Timestamp::now();
    assert!(!before.is_after(&after));
}
