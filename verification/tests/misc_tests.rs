use itertools::Itertools;

use ganymede::analytics::{downloaded_body, judge_count_answer, os_to_string, AnalyticsError};
use ganymede::api::{
    verdict_from, ApiImpl, AppRelease, AppVersionError, Matched, API_KEY_HEADER, DOFUSDB_API,
    GANYMEDE_API,
};
use ganymede::base::BaseApiImpl;
use ganymede::conf::ConfLang;
use ganymede::event::Event;
use ganymede::export::{generate_router_type, router_args, Handler};
use ganymede::first_start::first_start_content;
use ganymede::image_viewer::ImageViewerApiImpl;
use ganymede::item::{Item, ItemName};
use ganymede::notifications::{
    judge_notifications_answer, unviewed_notifications, Error as NotificationError,
    Notification, ViewedNotifications,
};
use ganymede::numbers::{decimal_text, padded_text, signed_padded_text};
use ganymede::quest::{
    Quest, QuestData, QuestDescription, QuestGenerated, QuestNeed, QuestObjective, QuestReward,
    QuestStep,
};
use ganymede::report::{report_failure, Error as ReportError, ReportApiPayload, ReportPayload};
use ganymede::security::{SecurityApiImpl, VALID_LINKS};
use ganymede::shortcut::{
    parse_shortcut_or_default, pressed_action, registration_outcome, Error as ShortcutError,
    ShortcutAction,
};
use ganymede::paths::{
    app_conf_backup_file, Moment, APP_AUTH_FILE, APP_CONFIG_FILE, APP_FIRST_TIME_START_FILE,
    APP_GUIDES_DIR, APP_RECENT_GUIDES_FILE, APP_VIEWED_NOTIFICATIONS_FILE,
};
use ganymede::text::{ends_with, joined, text_equal, text_greater};
use ganymede::text_map::TextMap;
use ganymede::update::DownloadProgress;
use ganymede::user::{judge_me_answer, Error as UserError};
use ganymede::window_manager::{WindowManager, WindowMetadata};

#[test]
fn item_is_named_in_each_language() {
    let item = Item {
        name: ItemName {
            fr: "Épée".to_string(),
            en: "Sword".to_string(),
            es: "Espada".to_string(),
            pt: "Espada-pt".to_string(),
        },
        img: None,
    };
    assert_eq!(item.name(&ConfLang::Fr), "Épée");
    assert_eq!(item.name(&ConfLang::En), "Sword");
    assert_eq!(item.name(&ConfLang::Es), "Espada");
    assert_eq!(item.name(&ConfLang::Pt), "Espada-pt");
}

#[test]
fn events_have_their_names() {
    assert_eq!(Event::UpdateStarted.into(), "update-started");
    assert_eq!(Event::UpdateInProgress.into(), "update-in-progress");
    assert_eq!(Event::UpdateFinished.into(), "update-finished");
}

#[test]
fn operating_systems_have_their_names() {
    assert_eq!(os_to_string("windows".to_string()), Some("Windows".to_string()));
    assert_eq!(os_to_string("macos".to_string()), Some("Mac_OS".to_string()));
    assert_eq!(os_to_string("linux".to_string()), Some("linux".to_string()));
    assert_eq!(os_to_string("freebsd".to_string()), None);
    assert_eq!(os_to_string("Windows".to_string()), None);
    let body = downloaded_body("id-1".to_string(), "1.2.3".to_string(), "macos".to_string())
        .unwrap();
    assert_eq!(body.unique_id, "id-1");
    assert_eq!(body.version, "1.2.3");
    assert_eq!(body.os, "Mac_OS");
    assert!(matches!(
        downloaded_body("id".to_string(), "1".to_string(), "haiku".to_string()),
        Err(AnalyticsError::OsNotFound)
    ));
    assert!(judge_count_answer(200, "200 OK".to_string(), "".to_string()).is_ok());
    match judge_count_answer(500, "500 Internal Server Error".to_string(), "boom".to_string()) {
        Err(AnalyticsError::DownloadedCount(status, body)) => {
            assert_eq!(status, "500 Internal Server Error");
            assert_eq!(body, "boom");
        }
        other => panic!("unexpected: {:?}", other),
    }
}

#[test]
fn version_is_old_when_below_the_release() {
    let release = |tag: &str| AppRelease { tag_name: tag.to_string() };
    let old = ApiImpl.is_app_version_old("1.2.3", release("1.3.0")).unwrap().unwrap();
    assert_eq!(old.from, "1.2.3");
    assert_eq!(old.to, "1.3.0");
    assert!(old.is_old);
    let same = ApiImpl.is_app_version_old("1.3.0", release("1.3.0")).unwrap().unwrap();
    assert!(!same.is_old);
    let newer = ApiImpl.is_app_version_old("2.0.0", release("v1.3.0"));
    assert!(matches!(newer, Err(AppVersionError::SemverParse(_))));
    let newer = ApiImpl.is_app_version_old("2.0.0", release("1.3.0")).unwrap().unwrap();
    assert!(!newer.is_old);
    assert_eq!(newer.from, "2.0.0");
    assert!(ApiImpl.is_app_version_old("not a version", release("1.3.0")).unwrap().is_none());
    match ApiImpl.is_app_version_old("1.0.0", release("")) {
        Err(AppVersionError::SemverParse(text)) => assert!(!text.is_empty()),
        other => panic!("unexpected: {:?}", other),
    }
    assert_eq!(GANYMEDE_API, "https://ganymede-app.com/api");
    assert_eq!(DOFUSDB_API, "https://api.dofusdb.fr");
    assert_eq!(API_KEY_HEADER, "X-API-KEY");
}

#[test]
fn verdict_follows_the_comparison() {
    match verdict_from("1.0.0".to_string(), Err("bad".to_string())) {
        Err(AppVersionError::SemverParse(text)) => assert_eq!(text, "bad"),
        other => panic!("unexpected: {:?}", other),
    }
    assert!(verdict_from("1.0.0".to_string(), Ok(None)).unwrap().is_none());
    let verdict = verdict_from(
        "1.0.0".to_string(),
        Ok(Some(Matched { version: "0.9.0".to_string(), matches: true })),
    )
    .unwrap()
    .unwrap();
    assert_eq!(verdict.from, "0.9.0");
    assert_eq!(verdict.to, "1.0.0");
    assert!(verdict.is_old);
}

#[test]
fn new_ids_differ() {
    let first = BaseApiImpl.new_id();
    let second = BaseApiImpl.new_id();
    assert_eq!(first.len(), 36);
    assert_eq!(first.as_bytes()[14], b'4');
    assert_ne!(first, second);
}

#[test]
fn router_type_lists_the_handlers() {
    let handlers = vec![
        Handler { path: "conf".to_string(), name: "ConfApi".to_string() },
        Handler { path: "sync".to_string(), name: "SyncApi".to_string() },
    ];
    assert_eq!(
        generate_router_type(&handlers),
        "\ntype Router = {\n\t'conf': [TauRpcConfApiInputTypes, TauRpcConfApiOutputTypes],\n\
         \t'sync': [TauRpcSyncApiInputTypes, TauRpcSyncApiOutputTypes],\n}"
    );
    assert_eq!(generate_router_type(&vec![]), "\ntype Router = {\n}");
}

#[test]
fn router_args_are_joined() {
    assert_eq!(router_args(&vec![]), "{}");
    assert_eq!(router_args(&vec![("a".to_string(), "x".to_string())]), "{'a':'x'}");
    assert_eq!(
        router_args(&vec![
            ("a".to_string(), "x".to_string()),
            ("b".to_string(), "y".to_string()),
            ("c".to_string(), "z".to_string())
        ]),
        "{'a':'x', 'b':'y', 'c':'z'}"
    );
}

#[test]
fn first_start_is_noted() {
    assert_eq!(first_start_content("1.2.3"), "{\"version\": \"1.2.3\"}");
    assert_eq!(first_start_content(""), "{\"version\": \"\"}");
}

#[test]
fn closing_a_viewer_is_judged() {
    assert!(ImageViewerApiImpl.close_image_viewer("w", true, Ok(())).is_ok());
    assert_eq!(
        ImageViewerApiImpl.close_image_viewer("w", true, Err("busy".to_string())),
        Err("Failed to close window: busy".to_string())
    );
    assert_eq!(
        ImageViewerApiImpl.close_image_viewer("w", false, Ok(())),
        Err("Window not found: w".to_string())
    );
}

fn notification(id: u32) -> Notification {
    Notification {
        id,
        text: format!("notice {}", id),
        display_at: "2024".to_string(),
        created_at: "2024".to_string(),
        updated_at: "2024".to_string(),
    }
}

#[test]
fn viewed_notifications_are_remembered() {
    let mut viewed = ViewedNotifications::default();
    assert!(!viewed.is_viewed(3));
    viewed.mark_as_viewed(3);
    viewed.mark_as_viewed(3);
    viewed.mark_as_viewed(5);
    assert!(viewed.is_viewed(3));
    assert!(viewed.is_viewed(5));
    assert!(!viewed.is_viewed(4));
    assert_eq!(viewed.viewed_ids.len(), 2);
    let unviewed = unviewed_notifications(
        vec![notification(5), notification(1), notification(3), notification(2)],
        &viewed,
    );
    let ids: Vec<u32> = unviewed.iter().map(|n| n.id).collect();
    assert_eq!(ids, vec![1, 2]);
    assert_eq!(unviewed[0].text, "notice 1");
}

#[test]
fn missing_viewed_file_means_nothing_viewed() {
    let viewed = ViewedNotifications::without_file(true, "gone".to_string()).unwrap();
    assert!(viewed.viewed_ids.is_empty());
    match ViewedNotifications::without_file(false, "denied".to_string()) {
        Err(NotificationError::UnhandledIo(text)) => assert_eq!(text, "denied"),
        other => panic!("unexpected: {:?}", other),
    }
    assert!(judge_notifications_answer(200, "200 OK").is_ok());
    match judge_notifications_answer(503, "503 Service Unavailable") {
        Err(NotificationError::FetchNotifications(text)) => {
            assert_eq!(text, "API returned status: 503 Service Unavailable")
        }
        other => panic!("unexpected: {:?}", other),
    }
}

#[test]
fn numbers_are_written_in_decimal() {
    for n in [0_u64, 1, 9, 10, 11, 99, 100, 12345, u32::MAX as u64, u64::MAX] {
        assert_eq!(decimal_text(n), n.to_string());
        for width in [0_usize, 1, 2, 4, 25] {
            assert_eq!(padded_text(n, width), format!("{:0width$}", n, width = width));
        }
    }
    for n in [0_i64, 7, -7, 2024, -2024, 12345, -12345, i64::MIN, i64::MAX, -1, -999, -1000] {
        for width in [0_usize, 1, 2, 4, 6, 25] {
            assert_eq!(signed_padded_text(n, width), format!("{:0width$}", n, width = width));
        }
    }
}

#[test]
fn backup_file_is_named_after_the_moment() {
    let at = Moment { year: 2024, month: 3, day: 9, hour: 7, minute: 5, second: 0 };
    assert_eq!(app_conf_backup_file(at), "conf_2024_03_09_07_05_00.json");
    let late = Moment { year: 12024, month: 12, day: 31, hour: 23, minute: 59, second: 59 };
    assert_eq!(app_conf_backup_file(late), "conf_12024_12_31_23_59_59.json");
    let early = Moment { year: -5, month: 1, day: 1, hour: 0, minute: 0, second: 0 };
    assert_eq!(app_conf_backup_file(early), "conf_-005_01_01_00_00_00.json");
    assert_eq!(APP_CONFIG_FILE, "conf.json");
    assert_eq!(APP_GUIDES_DIR, "guides");
    assert_eq!(APP_RECENT_GUIDES_FILE, "recent_guides.json");
    assert_eq!(APP_FIRST_TIME_START_FILE, "first_time_start.json");
    assert_eq!(APP_VIEWED_NOTIFICATIONS_FILE, "viewed_notifications.json");
    assert_eq!(APP_AUTH_FILE, "auth.json");
}

fn quest_data() -> QuestData {
    QuestData {
        data: vec![Quest {
            id: 1,
            steps: vec![QuestStep {
                description: QuestDescription {
                    en: "e".to_string(),
                    es: "s".to_string(),
                    fr: "f".to_string(),
                    pt: "p".to_string(),
                },
                optimal_level: 50,
                duration: 1.5_f32.to_bits(),
                objectives: vec![QuestObjective {
                    id: 2,
                    need: QuestNeed {
                        generated: QuestGenerated {
                            dungeons: vec![],
                            items: vec![1],
                            quantities: vec![2],
                        },
                    },
                }],
                rewards: vec![QuestReward {
                    level_max: -1,
                    kamas_ratio: 0.25_f32.to_bits(),
                    experience_ratio: 2.0_f32.to_bits(),
                    kamas_scale_with_player_level: true,
                }],
            }],
        }],
    }
}

#[test]
fn quest_data_is_that_of_the_first_step() {
    let data = quest_data();
    assert_eq!(data.level_max(), -1);
    assert_eq!(f32::from_bits(data.kamas_ratio()), 0.25);
    assert!(data.kamas_scale_with_player_level());
    assert_eq!(data.optimal_level(), 50);
    assert_eq!(f32::from_bits(data.duration()), 1.5);
    assert_eq!(f32::from_bits(data.experience_ratio()), 2.0);
}

#[test]
fn report_is_sent_under_a_name() {
    let report = |username: Option<String>| ReportPayload {
        username,
        content: "typo".to_string(),
        step: 3,
        guide_id: 7,
    };
    let named = ReportApiPayload::from(report(Some("Zoé".to_string())));
    assert_eq!(named.username, "Zoé");
    assert_eq!(named.content, "typo");
    assert_eq!(named.step, 3);
    assert_eq!(named.guide_id, 7);
    assert_eq!(ReportApiPayload::from(report(None)).username, "Anonyme");
    let long: String = "é".repeat(300);
    let cut = ReportApiPayload::from(report(Some(long)));
    assert_eq!(cut.username.chars().count(), 255);
    assert_eq!(cut.username, "é".repeat(255));
    let exact: String = "x".repeat(255);
    assert_eq!(ReportApiPayload::from(report(Some(exact.clone()))).username, exact);
    assert_eq!(ReportApiPayload::from(report(Some(String::new()))).username, "");
    match report_failure(Some(404), "not found".to_string()) {
        ReportError::Status(code, detail) => {
            assert_eq!(code, 404);
            assert_eq!(detail, "not found");
        }
        other => panic!("unexpected: {:?}", other),
    }
    assert!(matches!(report_failure(None, "x".to_string()), ReportError::Status(500, _)));
}

#[test]
fn white_list_holds_the_valid_links() {
    let list = SecurityApiImpl.get_white_list().unwrap();
    assert_eq!(list.len(), 33);
    assert_eq!(list[0], "https://dofuspourlesnoobs.com");
    assert_eq!(list[32], "https://d-bk.net");
    for (given, expected) in list.iter().zip(VALID_LINKS.iter()) {
        assert_eq!(given, expected);
    }
    assert!(list.contains(&"https://ganymede-app.com".to_string()));
}

#[test]
fn shortcut_falls_back_to_the_default() {
    let ok = |keys: &str| Ok::<String, String>(keys.to_string());
    let err = |why: &str| Err::<String, String>(why.to_string());
    assert_eq!(parse_shortcut_or_default(ok("A"), ok("B"), "d").unwrap(), "A");
    assert_eq!(parse_shortcut_or_default(ok("A"), err("x"), "d").unwrap(), "A");
    assert_eq!(parse_shortcut_or_default(err("bad"), ok("B"), "d").unwrap(), "B");
    match parse_shortcut_or_default(err("bad"), err("worse"), "Alt+Shift+P") {
        Err(ShortcutError::ParseShortcut(text)) => {
            assert_eq!(text, "failed to parse default 'Alt+Shift+P': worse")
        }
        other => panic!("unexpected: {:?}", other),
    }
}

#[test]
fn pressed_shortcut_has_its_action() {
    assert_eq!(pressed_action(true, true, true, true), Some(ShortcutAction::ResetConf));
    assert_eq!(pressed_action(false, true, true, true), Some(ShortcutAction::GoToNextGuideStep));
    assert_eq!(
        pressed_action(false, false, true, true),
        Some(ShortcutAction::GoToPreviousGuideStep)
    );
    assert_eq!(
        pressed_action(false, false, false, true),
        Some(ShortcutAction::CopyCurrentGuideStep)
    );
    assert_eq!(pressed_action(false, false, false, false), None);
}

#[test]
fn first_failed_registration_counts() {
    let err = |why: &str| Err::<(), String>(why.to_string());
    assert!(registration_outcome(Ok(()), Ok(()), Ok(()), Ok(())).is_ok());
    match registration_outcome(Ok(()), err("next"), Ok(()), err("copy")) {
        Err(ShortcutError::Register(text)) => assert_eq!(text, "next"),
        other => panic!("unexpected: {:?}", other),
    }
    match registration_outcome(err("reset"), err("next"), err("previous"), err("copy")) {
        Err(ShortcutError::Register(text)) => assert_eq!(text, "reset"),
        other => panic!("unexpected: {:?}", other),
    }
    match registration_outcome(Ok(()), Ok(()), Ok(()), err("copy")) {
        Err(ShortcutError::Register(text)) => assert_eq!(text, "copy"),
        other => panic!("unexpected: {:?}", other),
    }
    match registration_outcome(Ok(()), Ok(()), err("previous"), Ok(())) {
        Err(ShortcutError::Register(text)) => assert_eq!(text, "previous"),
        other => panic!("unexpected: {:?}", other),
    }
}

#[test]
fn texts_are_compared_by_their_bytes() {
    assert!(text_equal("abc", "abc"));
    assert!(!text_equal("abc", "abd"));
    assert!(!text_equal("abc", "ab"));
    assert!(text_equal("", ""));
    assert!(text_equal("é", "\u{e9}"));
    assert!(text_greater("b", "a"));
    assert!(!text_greater("a", "a"));
    assert!(text_greater("ab", "a"));
    assert!(!text_greater("", ""));
    assert!(ends_with("abc", "bc"));
    assert!(ends_with("abc", ""));
    assert!(ends_with("abc", "abc"));
    assert!(!ends_with("abc", "xabc"));
    assert!(!ends_with("abc", "ab"));
    assert_eq!(joined("ab", "cd"), "abcd");
}

#[test]
fn text_map_maps() {
    let mut map = TextMap::new();
    assert!(!map.contains_key("a"));
    assert_eq!(map.get("a"), None);
    map.insert("a".to_string(), "1".to_string());
    map.insert("b".to_string(), "2".to_string());
    map.insert("c".to_string(), "1".to_string());
    map.insert("a".to_string(), "3".to_string());
    assert_eq!(map.get("a"), Some(&"3".to_string()));
    assert_eq!(map.get("b"), Some(&"2".to_string()));
    assert!(map.contains_key("c"));
    map.remove("b");
    assert!(!map.contains_key("b"));
    map.remove("b");
    map.insert("d".to_string(), "1".to_string());
    map.insert("e".to_string(), "1".to_string());
    map.remove_value("1");
    assert!(!map.contains_key("c"));
    assert!(!map.contains_key("d"));
    assert!(!map.contains_key("e"));
    assert_eq!(map.get("a"), Some(&"3".to_string()));
}

#[test]
fn download_is_counted() {
    let mut progress = DownloadProgress::new();
    assert_eq!(progress.add_chunk(10), 10);
    assert_eq!(progress.add_chunk(5), 15);
    assert_eq!(progress.downloaded, 15);
    assert_eq!(progress.add_chunk(usize::MAX), usize::MAX);
}

#[test]
fn account_answer_is_judged() {
    let ok = |text: &str| Ok::<String, String>(text.to_string());
    assert_eq!(judge_me_answer("https://x/api/me", ok("{}")).unwrap(), "{}");
    assert!(matches!(judge_me_answer("https://x/login", ok("{}")), Err(UserError::NotConnected)));
    match judge_me_answer("https://x/api/me", Err("cut".to_string())) {
        Err(UserError::FailedToGetUser(text)) => assert_eq!(text, "reading response text: cut"),
        other => panic!("unexpected: {:?}", other),
    }
}

#[test]
fn image_window_is_found_again() {
    let mut manager = WindowManager::new();
    let plan = manager.get_or_create_window("hello");
    assert_eq!(plan.url_hash, "5d41402abc4b2a76b9719d911017c592");
    assert_eq!(plan.label, "image-viewer-5d41402abc4b2a76b9719d911017c592");
    assert!(!plan.known);
    manager.note_window(plan.url_hash, WindowMetadata { label: plan.label });
    let again = manager.get_or_create_window("hello");
    assert!(again.known);
    assert_eq!(again.label, "image-viewer-5d41402abc4b2a76b9719d911017c592");
    let other = manager.get_or_create_window("https://example.com/a.png");
    assert!(!other.known);
    manager.note_window(other.url_hash, WindowMetadata { label: other.label });
    manager.cleanup_closed_window("image-viewer-5d41402abc4b2a76b9719d911017c592");
    assert!(!manager.get_or_create_window("hello").known);
    assert!(manager.get_or_create_window("https://example.com/a.png").known);
    manager.cleanup_closed_window("no-such-window");
    assert!(manager.get_or_create_window("https://example.com/a.png").known);
    assert!(!WindowManager::default().get_or_create_window("hello").known);
}

#[test]
fn image_viewer_url_is_encoded() {
    assert_eq!(
        WindowManager::image_viewer_url("https://example.com/a b.png?x=1&y=é", &None),
        "/image-viewer?image=https%3A%2F%2Fexample.com%2Fa%20b.png%3Fx%3D1%26y%3D%C3%A9"
    );
    assert_eq!(
        WindowManager::image_viewer_url("a-b_c.d~e", &Some("Carte du monde".to_string())),
        "/image-viewer?image=a-b_c.d~e&title=Carte%20du%20monde"
    );
    assert_eq!(WindowManager::window_title(None), "Image Viewer");
    assert_eq!(WindowManager::window_title(Some("Map".to_string())), "Map");
}

#[test]
fn url_encoding_agrees_with_the_urlencoding_crate() {
    let samples = [
        "",
        "plain",
        "a b",
        "ganymede://oauth/callback",
        "https://example.com/a b.png?x=1&y=é#frag",
        "AZaz09-._~",
        "!\"#$%&'()*+,/:;<=>?@[\\]^`{|}",
        "\u{0}\u{1f}\u{7f}",
        "é\u{7ff}\u{800}\u{ffff}\u{10000}\u{10ffff}",
        "日本語 テキスト",
        "100% sure",
    ];
    for text in samples {
        assert_eq!(ganymede::url::url_encode(text), urlencoding::encode(text).into_owned(), "{:?}", text);
    }
    for byte in 0..=127_u8 {
        let text = (byte as char).to_string();
        assert_eq!(ganymede::url::url_encode(&text), urlencoding::encode(&text).into_owned());
    }
    assert_eq!(ganymede::url::url_encode("a/b c"), "a%2Fb%20c");
    assert_eq!(ganymede::url::url_encode("é"), "%C3%A9");
    assert_eq!(ganymede::url::url_encode("~"), "~");
    assert_eq!(ganymede::url::url_encode("\u{7f}"), "%7F");
}

#[test]
fn joining_agrees_with_the_itertools_crate() {
    let lists: [&[&str]; 6] =
        [&[], &[""], &["a"], &["a", "b"], &["", "", ""], &["x", "", "é", "long text", "z"]];
    for list in lists {
        let parts: Vec<String> = list.iter().map(|part| part.to_string()).collect();
        for separator in ["", ", ", "-", "é "] {
            assert_eq!(
                ganymede::export::join(&parts, separator),
                parts.iter().join(separator),
                "{:?} {:?}",
                list,
                separator
            );
        }
    }
    let parts = vec!["a".to_string(), "b".to_string(), "c".to_string()];
    assert_eq!(ganymede::export::join(&parts, ", "), "a, b, c");
}
