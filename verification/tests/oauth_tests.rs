use ganymede::oauth::{
    build_authorization_url, cleanup_oauth_state_memory, code_challenge,
    generate_pkce_challenge, judge_token_answer, load_oauth_state_memory,
    save_oauth_state_memory, tokens_from_response, verifier_from, Error, OAuthApiImpl,
    OAuthStates, TokenResponse, REDIRECT_URI, VERIFIER_ALPHABET, VERIFIER_LENGTH,
};

#[test]
fn challenge_is_the_encoded_digest_of_the_verifier() {
    assert_eq!(
        code_challenge("dBjftJeZ4CVP-mB92K27uhbUJU1p1r_wW1gFWFOEjXk"),
        "E9Melhoa2OwvFrEMTJguCHaoeK1t8URWbuGJSstw-cM"
    );
    assert_eq!(code_challenge(""), "47DEQpj8HBSa-_TImW-5JCeuQeRkm5NMpJWZG3hSuFU");
}

#[test]
fn pkce_pair_is_well_formed() {
    let (verifier, challenge) = generate_pkce_challenge();
    assert_eq!(verifier.chars().count(), 128);
    assert_eq!(VERIFIER_LENGTH, 128);
    assert!(verifier.chars().all(|c| VERIFIER_ALPHABET.contains(c)));
    assert_eq!(challenge, code_challenge(&verifier));
    assert_eq!(challenge.len(), 43);
    let (other, _) = generate_pkce_challenge();
    assert_ne!(other, verifier);
}

#[test]
fn verifier_is_made_of_the_picked_characters() {
    assert_eq!(verifier_from(&vec![0, 25, 26, 51, 52, 61, 62, 63, 64, 65]), "AZaz09-._~");
    assert_eq!(verifier_from(&vec![]), "");
}

#[test]
fn authorization_url_is_built() {
    assert_eq!(REDIRECT_URI, "ganymede://oauth/callback");
    assert_eq!(
        build_authorization_url("https://ganymede-app.com", "client-1", "chal", "state-9"),
        "https://ganymede-app.com/oauth/authorize?response_type=code&client_id=client-1\
         &code_challenge=chal&code_challenge_method=S256&state=state-9\
         &redirect_uri=ganymede%3A%2F%2Foauth%2Fcallback"
    );
}

#[test]
fn states_are_kept_until_cleaned() {
    let mut states = OAuthStates::new();
    match load_oauth_state_memory(&states, "a") {
        Err(Error::LoadAuth(text)) => assert_eq!(text, "No OAuth state found for ID: a"),
        other => panic!("unexpected: {:?}", other),
    }
    assert!(save_oauth_state_memory(&mut states, "a", "verifier-a").is_ok());
    assert!(save_oauth_state_memory(&mut states, "b", "verifier-b").is_ok());
    assert_eq!(load_oauth_state_memory(&states, "a").unwrap(), "verifier-a");
    assert_eq!(load_oauth_state_memory(&states, "b").unwrap(), "verifier-b");
    assert!(save_oauth_state_memory(&mut states, "a", "verifier-a2").is_ok());
    assert_eq!(load_oauth_state_memory(&states, "a").unwrap(), "verifier-a2");
    cleanup_oauth_state_memory(&mut states, "a");
    assert!(load_oauth_state_memory(&states, "a").is_err());
    assert_eq!(load_oauth_state_memory(&states, "b").unwrap(), "verifier-b");
    cleanup_oauth_state_memory(&mut states, "missing");
    assert_eq!(load_oauth_state_memory(&states, "b").unwrap(), "verifier-b");
}

#[test]
fn tokens_expire_after_their_time() {
    let response = TokenResponse {
        access_token: "access".to_string(),
        refresh_token: Some("refresh".to_string()),
        expires_in: Some(3600),
        token_type: "Bearer".to_string(),
    };
    let tokens = tokens_from_response(response, 1_700_000_000);
    assert_eq!(tokens.access_token, "access");
    assert_eq!(tokens.refresh_token, Some("refresh".to_string()));
    assert_eq!(tokens.token_type, "Bearer");
    assert_eq!(tokens.expires_at, Some(1_700_003_600));
    let forever = TokenResponse {
        access_token: "a".to_string(),
        refresh_token: None,
        expires_in: None,
        token_type: "t".to_string(),
    };
    assert_eq!(tokens_from_response(forever, 5).expires_at, None);
}

#[test]
fn expiry_keeps_the_low_32_bits() {
    for (now, expires_in) in [
        (u32::MAX as u64, 1_u64),
        (u64::MAX, 1),
        (u64::MAX, u64::MAX),
        (0x1_2345_6789, 0xF_0000_0000),
        (0, u64::MAX),
    ] {
        let response = TokenResponse {
            access_token: String::new(),
            refresh_token: None,
            expires_in: Some(expires_in),
            token_type: String::new(),
        };
        assert_eq!(
            tokens_from_response(response, now).expires_at,
            Some(now.wrapping_add(expires_in) as u32)
        );
    }
}

#[test]
fn token_answer_is_judged() {
    let ok = |text: &str| Ok::<String, String>(text.to_string());
    assert_eq!(judge_token_answer(200, "200 OK", ok("{}")).unwrap(), "{}");
    match judge_token_answer(401, "401 Unauthorized", ok("denied")) {
        Err(Error::TokenExchange(text)) => assert_eq!(text, "HTTP 401 Unauthorized: denied"),
        other => panic!("unexpected: {:?}", other),
    }
    match judge_token_answer(401, "401 Unauthorized", Err("cut".to_string())) {
        Err(Error::TokenExchange(text)) => assert_eq!(text, "HTTP 401 Unauthorized: Unknown error"),
        other => panic!("unexpected: {:?}", other),
    }
    match judge_token_answer(200, "200 OK", Err("cut".to_string())) {
        Err(Error::TokenExchange(text)) => assert_eq!(text, "Failed to read response: cut"),
        other => panic!("unexpected: {:?}", other),
    }
}

#[test]
fn started_flow_waits_for_its_answer() {
    let mut states = OAuthStates::new();
    assert!(save_oauth_state_memory(&mut states, "earlier", "kept").is_ok());
    let flow = OAuthApiImpl.start_oauth_flow(&mut states, "https://ganymede-app.com", "client-1");
    assert_eq!(flow.state_id.len(), 36);
    let verifier = load_oauth_state_memory(&states, &flow.state_id).unwrap();
    assert_eq!(verifier.len(), 128);
    assert!(verifier.chars().all(|c| VERIFIER_ALPHABET.contains(c)));
    assert_eq!(
        flow.auth_url,
        build_authorization_url(
            "https://ganymede-app.com",
            "client-1",
            &code_challenge(&verifier),
            &flow.state_id
        )
    );
    assert_eq!(load_oauth_state_memory(&states, "earlier").unwrap(), "kept");
    let second = OAuthApiImpl.start_oauth_flow(&mut states, "https://ganymede-app.com", "client-1");
    assert_ne!(second.state_id, flow.state_id);
    assert_eq!(load_oauth_state_memory(&states, &flow.state_id).unwrap(), verifier);
}
