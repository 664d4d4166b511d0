use std::collections::HashMap;

use ganymede::conf::{Conf, ConfStep, Profile, Progress};
use ganymede::oauth::{AuthTokens, Error as OAuthError};
use ganymede::sync::{
    adopt_profile, get_auth, is_login_redirect, is_success, judge_change_answer,
    judge_create_answer, judge_progress_answer, judge_sync_answer, link_profile, merge_progress,
    merge_progresses, merge_server_profiles, payload_of_progress, profile_of_remote,
    progress_of_remote, remote_profile, request_failure, should_update, sparse_from_dense,
    sync_payload, sync_profile_payload, sync_progress_payload, sync_response, Error,
    RemoteProfileResponse, RemoteProgressResponse, SyncApiImpl, SyncServerResponse,
};

fn step(boxes: &[u32]) -> ConfStep {
    ConfStep { checkboxes: boxes.to_vec() }
}

fn local_progress(id: u32, current_step: u32, updated_at: Option<&str>) -> Progress {
    let mut steps = HashMap::new();
    steps.insert(0, step(&[1]));
    Progress { id, current_step, steps, updated_at: updated_at.map(str::to_string) }
}

fn remote_progress(id: u32, current_step: u32, updated_at: &str) -> RemoteProgressResponse {
    RemoteProgressResponse {
        id,
        current_step,
        steps: vec![step(&[4, 5]), step(&[])],
        updated_at: updated_at.to_string(),
    }
}

fn remote(id: u32, uuid: Option<&str>, progresses: Vec<RemoteProgressResponse>) -> RemoteProfileResponse {
    RemoteProfileResponse {
        id,
        uuid: uuid.map(str::to_string),
        name: "Remote".to_string(),
        progresses,
    }
}

fn conf_with_profile(uuid: &str, progresses: Vec<Progress>) -> Conf {
    let mut conf = Conf::default();
    conf.profiles[0].id = uuid.to_string();
    conf.profiles[0].progresses = progresses;
    conf.profile_in_use = uuid.to_string();
    conf
}

fn boxes(progress: &Progress, key: u32) -> Vec<u32> {
    progress.steps[&key].checkboxes.clone()
}

#[test]
fn dense_steps_become_sparse() {
    let sparse = sparse_from_dense(&vec![step(&[1, 2]), step(&[3])]);
    assert_eq!(sparse.len(), 2);
    assert_eq!(sparse[&0].checkboxes, vec![1, 2]);
    assert_eq!(sparse[&1].checkboxes, vec![3]);
    assert!(sparse_from_dense(&vec![]).is_empty());
}

#[test]
fn remote_wins_over_a_local_record_without_timestamp() {
    let mut conf = conf_with_profile("abc", vec![local_progress(7, 1, None)]);
    let server = SyncServerResponse {
        profiles: vec![remote(3, Some("abc"), vec![remote_progress(7, 9, "2024-01-01T00:00:00Z")])],
    };
    merge_server_profiles(&mut conf, &server);
    let merged = &conf.profiles[0].progresses;
    assert_eq!(merged.len(), 1);
    assert_eq!(merged[0].id, 7);
    assert_eq!(merged[0].current_step, 9);
    assert_eq!(merged[0].updated_at, Some("2024-01-01T00:00:00Z".to_string()));
    assert_eq!(merged[0].steps.len(), 2);
    assert_eq!(boxes(&merged[0], 0), vec![4, 5]);
    assert_eq!(boxes(&merged[0], 1), Vec::<u32>::new());
}

#[test]
fn later_local_record_is_kept() {
    let mut conf =
        conf_with_profile("abc", vec![local_progress(7, 1, Some("2024-06-01T00:00:00Z"))]);
    let server = SyncServerResponse {
        profiles: vec![remote(3, Some("abc"), vec![remote_progress(7, 9, "2024-01-01T00:00:00Z")])],
    };
    merge_server_profiles(&mut conf, &server);
    let merged = &conf.profiles[0].progresses;
    assert_eq!(merged.len(), 1);
    assert_eq!(merged[0].current_step, 1);
    assert_eq!(merged[0].updated_at, Some("2024-06-01T00:00:00Z".to_string()));
    assert_eq!(merged[0].steps.len(), 1);
    assert_eq!(boxes(&merged[0], 0), vec![1]);
    assert_eq!(conf.profiles[0].server_id, Some(3));
}

#[test]
fn later_remote_record_replaces_the_local_one() {
    let mut progresses = vec![local_progress(7, 1, Some("2024-01-01T00:00:00Z"))];
    merge_progress(&mut progresses, &remote_progress(7, 2, "2024-01-01T00:00:01Z"));
    assert_eq!(progresses[0].current_step, 2);
    assert_eq!(progresses[0].updated_at, Some("2024-01-01T00:00:01Z".to_string()));
}

#[test]
fn equal_timestamps_keep_the_local_record() {
    let mut progresses = vec![local_progress(7, 1, Some("2024-01-01T00:00:00Z"))];
    merge_progress(&mut progresses, &remote_progress(7, 2, "2024-01-01T00:00:00Z"));
    assert_eq!(progresses[0].current_step, 1);
    assert_eq!(boxes(&progresses[0], 0), vec![1]);
}

#[test]
fn timestamps_are_compared_as_text() {
    let earlier = "2024-01-01T00:00:00Z".to_string();
    let later = "2024-01-01T00:00:00+01:00".to_string();
    assert!(!should_update(&Some(earlier.clone()), &later));
    assert!(should_update(&Some(later.clone()), &earlier));
    assert!(should_update(&None, &earlier));
    assert!(should_update(&Some("2024".to_string()), &"2024-".to_string()));
    assert!(!should_update(&Some("2024-".to_string()), &"2024".to_string()));
    assert!(!should_update(&Some("b".to_string()), &"a".to_string()));
    assert!(should_update(&Some("a".to_string()), &"\u{e9}".to_string()));
    for a in ["", "a", "ab", "b", "\u{7f}", "\u{80}", "\u{7ff}", "\u{800}", "\u{ffff}", "\u{10000}"] {
        for b in ["", "a", "ab", "b", "\u{7f}", "\u{80}", "\u{7ff}", "\u{800}", "\u{ffff}", "\u{10000}"] {
            assert_eq!(should_update(&Some(a.to_string()), &b.to_string()), b > a, "{} {}", a, b);
        }
    }
}

#[test]
fn unknown_guide_is_added_from_remote() {
    let mut progresses = vec![local_progress(7, 1, None)];
    merge_progresses(
        &mut progresses,
        &vec![remote_progress(8, 2, "2024-01-01T00:00:00Z"), remote_progress(8, 3, "2024-01-02T00:00:00Z")],
    );
    assert_eq!(progresses.len(), 2);
    assert_eq!(progresses[0].id, 7);
    assert_eq!(progresses[0].current_step, 1);
    assert_eq!(progresses[1].id, 8);
    assert_eq!(progresses[1].current_step, 3);
    assert_eq!(progresses[1].updated_at, Some("2024-01-02T00:00:00Z".to_string()));
}

#[test]
fn new_remote_profile_is_adopted() {
    let mut conf = conf_with_profile("abc", vec![]);
    let adopted = RemoteProfileResponse {
        id: 11,
        uuid: Some("zzz".to_string()),
        name: "Other".to_string(),
        progresses: vec![RemoteProgressResponse {
            id: 5,
            current_step: 2,
            steps: vec![step(&[1]), step(&[2, 3])],
            updated_at: "2024-03-03T00:00:00Z".to_string(),
        }],
    };
    merge_server_profiles(&mut conf, &SyncServerResponse { profiles: vec![adopted] });
    assert_eq!(conf.profiles.len(), 2);
    assert_eq!(conf.profiles[0].id, "abc");
    assert_eq!(conf.profiles[0].server_id, None);
    let new = &conf.profiles[1];
    assert_eq!(new.id, "zzz");
    assert_eq!(new.name, "Other");
    assert_eq!(new.level, 200);
    assert_eq!(new.server_id, Some(11));
    assert_eq!(new.progresses.len(), 1);
    assert_eq!(new.progresses[0].id, 5);
    assert_eq!(new.progresses[0].current_step, 2);
    assert_eq!(new.progresses[0].updated_at, Some("2024-03-03T00:00:00Z".to_string()));
    assert_eq!(new.progresses[0].steps.len(), 2);
    assert_eq!(boxes(&new.progresses[0], 0), vec![1]);
    assert_eq!(boxes(&new.progresses[0], 1), vec![2, 3]);
    assert_eq!(conf.profile_in_use, "abc");
}

#[test]
fn remote_profile_without_uuid_is_ignored() {
    let mut conf = conf_with_profile("abc", vec![]);
    let server = SyncServerResponse {
        profiles: vec![remote(4, None, vec![remote_progress(1, 1, "2024-01-01T00:00:00Z")])],
    };
    merge_server_profiles(&mut conf, &server);
    assert_eq!(conf.profiles.len(), 1);
    assert_eq!(conf.profiles[0].server_id, None);
    assert!(conf.profiles[0].progresses.is_empty());
}

#[test]
fn a_uuid_sent_twice_is_adopted_once() {
    let mut conf = conf_with_profile("abc", vec![]);
    let server = SyncServerResponse {
        profiles: vec![remote(4, Some("new"), vec![]), remote(5, Some("new"), vec![])],
    };
    merge_server_profiles(&mut conf, &server);
    assert_eq!(conf.profiles.len(), 2);
    assert_eq!(conf.profiles[1].id, "new");
    assert_eq!(conf.profiles[1].server_id, Some(4));
}

#[test]
fn sync_roundtrip_links_the_profile() {
    let mut conf = conf_with_profile("abc", vec![local_progress(1, 3, None)]);
    let payload = sync_payload(&conf);
    assert_eq!(payload.len(), 1);
    assert_eq!(payload[0].uuid, "abc");
    assert_eq!(payload[0].name, "Player");
    assert_eq!(payload[0].progresses.len(), 1);
    assert_eq!(payload[0].progresses[0].id, 1);
    assert_eq!(payload[0].progresses[0].current_step, 3);
    assert_eq!(payload[0].progresses[0].steps[&0].checkboxes, vec![1]);
    let server = SyncServerResponse { profiles: vec![remote(42, Some("abc"), vec![])] };
    merge_server_profiles(&mut conf, &server);
    assert_eq!(conf.profiles.len(), 1);
    assert_eq!(conf.profiles[0].id, "abc");
    assert_eq!(conf.profiles[0].name, "Player");
    assert_eq!(conf.profiles[0].server_id, Some(42));
    assert_eq!(conf.profiles[0].progresses.len(), 1);
}

#[test]
fn link_and_adopt_do_their_half() {
    let mut profiles = vec![Profile::default()];
    profiles[0].id = "abc".to_string();
    let known = remote(1, Some("abc"), vec![]);
    let unknown = remote(2, Some("def"), vec![]);
    link_profile(&mut profiles, &unknown);
    assert_eq!(profiles.len(), 1);
    assert_eq!(profiles[0].server_id, None);
    link_profile(&mut profiles, &known);
    assert_eq!(profiles[0].server_id, Some(1));
    adopt_profile(&mut profiles, &known);
    assert_eq!(profiles.len(), 1);
    adopt_profile(&mut profiles, &unknown);
    assert_eq!(profiles.len(), 2);
    assert_eq!(profiles[1].id, "def");
    let made = profile_of_remote(&"xyz".to_string(), &known);
    assert_eq!(made.id, "xyz");
    assert_eq!(made.name, "Remote");
    assert_eq!(made.level, 200);
    assert_eq!(made.server_id, Some(1));
    let progress = progress_of_remote(&remote_progress(3, 4, "t"));
    assert_eq!(progress.id, 3);
    assert_eq!(progress.current_step, 4);
    assert_eq!(progress.updated_at, Some("t".to_string()));
}

#[test]
fn merge_keeps_the_rest_of_the_document() {
    let mut conf = conf_with_profile("abc", vec![]);
    conf.opacity = 0.5_f32.to_bits();
    conf.auto_travel_copy = false;
    let server = SyncServerResponse { profiles: vec![remote(42, Some("abc"), vec![])] };
    merge_server_profiles(&mut conf, &server);
    assert_eq!(conf.opacity, 0.5_f32.to_bits());
    assert!(!conf.auto_travel_copy);
    assert_eq!(conf.profile_in_use, "abc");
    assert_eq!(conf.shortcuts.reset_conf, "Alt+Shift+P");
}

#[test]
fn payload_keeps_a_timestamp_and_stamps_a_missing_one() {
    let kept = sync_progress_payload(&local_progress(1, 2, Some("2024-01-01T00:00:00Z")));
    assert_eq!(kept.updated_at, "2024-01-01T00:00:00Z");
    let stamped = sync_progress_payload(&local_progress(1, 2, None));
    let parsed = chrono::DateTime::parse_from_rfc3339(&stamped.updated_at).unwrap();
    let age = chrono::Utc::now().signed_duration_since(parsed);
    assert!(age.num_seconds() >= 0 && age.num_seconds() < 60);
    let given = payload_of_progress(&local_progress(1, 2, None), "now".to_string());
    assert_eq!(given.updated_at, "now");
    assert_eq!(given.id, 1);
    assert_eq!(given.current_step, 2);
    let kept = payload_of_progress(&local_progress(1, 2, Some("then")), "now".to_string());
    assert_eq!(kept.updated_at, "then");
    let mut profile = Profile::default();
    profile.progresses.push(local_progress(4, 5, Some("2024")));
    let payload = sync_profile_payload(&profile);
    assert_eq!(payload.uuid, profile.id);
    assert_eq!(payload.progresses[0].updated_at, "2024");
}

#[test]
fn response_mirrors_the_server() {
    let server = SyncServerResponse {
        profiles: vec![
            remote(1, Some("abc"), vec![remote_progress(7, 9, "2024-01-01T00:00:00Z")]),
            remote(2, None, vec![]),
        ],
    };
    let response = sync_response(&server);
    assert_eq!(response.profiles.len(), 2);
    assert_eq!(response.profiles[0].id, 1);
    assert_eq!(response.profiles[0].uuid, Some("abc".to_string()));
    assert_eq!(response.profiles[0].name, "Remote");
    assert_eq!(response.profiles[0].progresses.len(), 1);
    assert_eq!(response.profiles[0].progresses[0].id, 7);
    assert_eq!(response.profiles[0].progresses[0].current_step, 9);
    assert_eq!(response.profiles[0].progresses[0].updated_at, "2024-01-01T00:00:00Z");
    assert_eq!(response.profiles[0].progresses[0].steps[&0].checkboxes, vec![4, 5]);
    assert_eq!(response.profiles[1].uuid, None);
    let one = remote_profile(&server.profiles[1]);
    assert_eq!(one.id, 2);
}

#[test]
fn success_is_two_hundred_to_two_hundred_ninety_nine() {
    assert!(!is_success(199));
    assert!(is_success(200));
    assert!(is_success(204));
    assert!(is_success(299));
    assert!(!is_success(300));
    assert!(!is_success(404));
    assert!(!is_success(0));
}

#[test]
fn login_redirect_is_recognised() {
    assert!(is_login_redirect("https://ganymede-app.com/login"));
    assert!(is_login_redirect("/login"));
    assert!(!is_login_redirect("https://ganymede-app.com/login/"));
    assert!(!is_login_redirect("https://ganymede-app.com/api/profiles/sync"));
    assert!(!is_login_redirect("login"));
    assert!(!is_login_redirect(""));
}

#[test]
fn sync_answer_is_judged() {
    let ok = |text: &str| Ok::<String, String>(text.to_string());
    assert!(matches!(
        judge_sync_answer("https://x/login", 200, "200 OK", ok("{}")),
        Err(Error::NotConnected)
    ));
    match judge_sync_answer("https://x/api", 422, "422 Unprocessable Entity", ok("bad name")) {
        Err(Error::ValidationError(text)) => assert_eq!(text, "bad name"),
        other => panic!("unexpected: {:?}", other),
    }
    match judge_sync_answer("https://x/api", 422, "422", Err("cut".to_string())) {
        Err(Error::ValidationError(text)) => assert_eq!(text, ""),
        other => panic!("unexpected: {:?}", other),
    }
    match judge_sync_answer("https://x/api", 500, "500 Internal Server Error", ok("boom")) {
        Err(Error::RequestFailed(text)) => assert_eq!(text, "HTTP 500 Internal Server Error"),
        other => panic!("unexpected: {:?}", other),
    }
    match judge_sync_answer("https://x/api", 200, "200 OK", Err("cut".to_string())) {
        Err(Error::RequestFailed(text)) => assert_eq!(text, "cut"),
        other => panic!("unexpected: {:?}", other),
    }
    assert_eq!(judge_sync_answer("https://x/api", 200, "200 OK", ok("{}")).unwrap(), "{}");
}

#[test]
fn create_and_change_answers_are_judged() {
    let ok = |text: &str| Ok::<String, String>(text.to_string());
    assert_eq!(judge_create_answer(201, "201 Created", ok("{\"id\":3}")).unwrap(), "{\"id\":3}");
    match judge_create_answer(400, "400 Bad Request", ok("no")) {
        Err(Error::RequestFailed(text)) => assert_eq!(text, "HTTP 400 Bad Request: no"),
        other => panic!("unexpected: {:?}", other),
    }
    match judge_create_answer(400, "400 Bad Request", Err("cut".to_string())) {
        Err(Error::RequestFailed(text)) => assert_eq!(text, "HTTP 400 Bad Request: "),
        other => panic!("unexpected: {:?}", other),
    }
    match judge_create_answer(200, "200 OK", Err("cut".to_string())) {
        Err(Error::RequestFailed(text)) => assert_eq!(text, "cut"),
        other => panic!("unexpected: {:?}", other),
    }
    match judge_create_answer(422, "422 Unprocessable Entity", ok("{\"name\":[\"taken\"]}")) {
        Err(Error::ValidationError(text)) => assert_eq!(text, "{\"name\":[\"taken\"]}"),
        other => panic!("unexpected: {:?}", other),
    }
    match judge_create_answer(422, "422 Unprocessable Entity", Err("cut".to_string())) {
        Err(Error::ValidationError(text)) => assert_eq!(text, ""),
        other => panic!("unexpected: {:?}", other),
    }
    match judge_change_answer(422, "422 Unprocessable Entity", ok("name too long")) {
        Err(Error::ValidationError(text)) => assert_eq!(text, "name too long"),
        other => panic!("unexpected: {:?}", other),
    }
    match judge_change_answer(423, "423 Locked", ok("busy")) {
        Err(Error::RequestFailed(text)) => assert_eq!(text, "HTTP 423 Locked: busy"),
        other => panic!("unexpected: {:?}", other),
    }
    assert!(judge_change_answer(204, "204 No Content", ok("")).is_ok());
    match judge_change_answer(403, "403 Forbidden", ok("nope")) {
        Err(Error::RequestFailed(text)) => assert_eq!(text, "HTTP 403 Forbidden: nope"),
        other => panic!("unexpected: {:?}", other),
    }
    match request_failure("404 Not Found", "gone") {
        Error::RequestFailed(text) => assert_eq!(text, "HTTP 404 Not Found: gone"),
        other => panic!("unexpected: {:?}", other),
    }
}

#[test]
fn progress_answer_is_judged() {
    let ok = |text: &str| Ok::<String, String>(text.to_string());
    assert!(judge_progress_answer(200, "200 OK", ok("")).is_ok());
    match judge_progress_answer(422, "422 Unprocessable Entity", ok("bad step")) {
        Err(Error::RequestFailed(text)) => {
            assert_eq!(text, "HTTP 422 Unprocessable Entity: bad step")
        }
        other => panic!("unexpected: {:?}", other),
    }
    assert!(matches!(
        judge_progress_answer(404, "404 Not Found", ok("x")),
        Err(Error::ProfileOrGuideNotFound)
    ));
    match judge_progress_answer(500, "500 Internal Server Error", ok("a\nb\nc")) {
        Err(Error::RequestFailed(text)) => {
            assert_eq!(text, "HTTP 500 Internal Server Error: a b c")
        }
        other => panic!("unexpected: {:?}", other),
    }
    let long = "x\n".repeat(302);
    match judge_progress_answer(500, "500", ok(&long)) {
        Err(Error::RequestFailed(text)) => {
            let expected = format!("HTTP 500: {}{}", "x ".repeat(300), "x\nx\n");
            assert_eq!(text, expected);
        }
        other => panic!("unexpected: {:?}", other),
    }
}

#[test]
fn access_token_needs_stored_tokens() {
    let tokens = AuthTokens {
        access_token: "secret".to_string(),
        refresh_token: None,
        expires_at: None,
        token_type: "Bearer".to_string(),
    };
    assert_eq!(get_auth(Ok(Some(tokens))).unwrap(), "secret");
    assert!(matches!(get_auth(Ok(None)), Err(Error::TokensNotFound)));
    assert!(matches!(
        get_auth(Err(OAuthError::LoadAuth("unreadable".to_string()))),
        Err(Error::TokensNotFound)
    ));
}

#[test]
fn answer_is_merged_and_reported() {
    let mut conf = conf_with_profile("abc", vec![local_progress(7, 1, None)]);
    let server = SyncServerResponse {
        profiles: vec![
            remote(3, Some("abc"), vec![remote_progress(7, 9, "2024-01-01T00:00:00Z")]),
            remote(4, Some("def"), vec![]),
            remote(5, None, vec![]),
        ],
    };
    let response = SyncApiImpl.sync_profiles(&mut conf, &server);
    assert_eq!(conf.profiles.len(), 2);
    assert_eq!(conf.profiles[0].server_id, Some(3));
    assert_eq!(conf.profiles[0].progresses[0].current_step, 9);
    assert_eq!(conf.profiles[1].id, "def");
    assert_eq!(conf.profiles[1].server_id, Some(4));
    assert_eq!(response.profiles.len(), 3);
    assert_eq!(response.profiles[0].id, 3);
    assert_eq!(response.profiles[2].uuid, None);
}

#[test]
fn merge_agrees_with_a_plain_merge() {
    let mut seed: u64 = 0x9E37_79B9_7F4A_7C15;
    let mut next = |bound: u64| {
        seed = seed.wrapping_mul(6364136223846793005).wrapping_add(1442695040888963407);
        (seed >> 33) % bound
    };
    let stamps = ["2024-01-01T00:00:00Z", "2024-03-01T00:00:00Z", "2024-06-01T00:00:00Z"];
    let ids = ["p0", "p1", "p2", "p3", "p4"];
    for _ in 0..300 {
        let mut conf = Conf::default();
        conf.profiles.clear();
        for _ in 0..next(4) {
            let mut profile = Profile::default();
            profile.id = ids[next(5) as usize].to_string();
            for _ in 0..next(4) {
                let stamp = if next(3) == 0 { None } else { Some(stamps[next(3) as usize]) };
                profile.progresses.push(local_progress(next(4) as u32, next(9) as u32, stamp));
            }
            conf.profiles.push(profile);
        }
        let mut server = SyncServerResponse { profiles: vec![] };
        for _ in 0..next(5) {
            let uuid = if next(4) == 0 { None } else { Some(ids[next(5) as usize]) };
            let mut progresses = vec![];
            for _ in 0..next(4) {
                progresses.push(remote_progress(
                    next(4) as u32,
                    10 + next(9) as u32,
                    stamps[next(3) as usize],
                ));
            }
            server.profiles.push(remote(100 + next(50) as u32, uuid, progresses));
        }

        // what the merge is expected to give, written out plainly
        let mut expected: Vec<(String, Option<u32>, Vec<(u32, u32, Option<String>)>)> = conf
            .profiles
            .iter()
            .map(|p| {
                let records = p
                    .progresses
                    .iter()
                    .map(|g| (g.id, g.current_step, g.updated_at.clone()))
                    .collect();
                (p.id.clone(), p.server_id, records)
            })
            .collect();
        for remote in &server.profiles {
            let Some(uuid) = &remote.uuid else { continue };
            if let Some(local) = expected.iter_mut().find(|p| &p.0 == uuid) {
                local.1 = Some(remote.id);
                for record in &remote.progresses {
                    match local.2.iter_mut().find(|g| g.0 == record.id) {
                        Some(known) => {
                            let wins = match &known.2 {
                                Some(stamp) => &record.updated_at > stamp,
                                None => true,
                            };
                            if wins {
                                known.1 = record.current_step;
                                known.2 = Some(record.updated_at.clone());
                            }
                        }
                        None => local.2.push((
                            record.id,
                            record.current_step,
                            Some(record.updated_at.clone()),
                        )),
                    }
                }
            }
        }
        for remote in &server.profiles {
            let Some(uuid) = &remote.uuid else { continue };
            if !expected.iter().any(|p| &p.0 == uuid) {
                let records = remote
                    .progresses
                    .iter()
                    .map(|g| (g.id, g.current_step, Some(g.updated_at.clone())))
                    .collect();
                expected.push((uuid.clone(), Some(remote.id), records));
            }
        }

        merge_server_profiles(&mut conf, &server);
        let got: Vec<(String, Option<u32>, Vec<(u32, u32, Option<String>)>)> = conf
            .profiles
            .iter()
            .map(|p| {
                let records = p
                    .progresses
                    .iter()
                    .map(|g| (g.id, g.current_step, g.updated_at.clone()))
                    .collect();
                (p.id.clone(), p.server_id, records)
            })
            .collect();
        assert_eq!(got, expected);
    }
}
