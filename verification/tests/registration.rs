use hubu_core::common::{AgentAccountId, AgentId, AgentVersionId, UserId};
use hubu_core::registration::{
    AgentType, CodeReference, ModelIdentity, RegisterAgentRequest, RegisterAgentResponse, RegistrationError,
    RegistrationIds, RegistrationManager, RuntimeEnvironment, RuntimeIdentity,
};

fn user_id(value: u128) -> UserId {
    UserId(value)
}

fn owner() -> UserId {
    user_id(0x0000_0000_0000_4000_8000_0000_0000_0123)
}

fn test_request(identity_fingerprint: &str, version_fingerprint: &str) -> RegisterAgentRequest {
    RegisterAgentRequest {
        display_name: "Test Agent".to_string(),
        description: Some("MVE Agent to make money".to_string()),
        owner_user_id: owner(),
        agent_type: AgentType::AutonomousAgent,
        identity_fingerprint: identity_fingerprint.to_string(),
        version_fingerprint: version_fingerprint.to_string(),
        code_ref: Some(CodeReference {
            repository_url: Some("https://github.com/example/hubu-agent".to_string()),
            commit_sha: Some("abc123".to_string()),
        }),
        model: Some(ModelIdentity {
            provider: "openai".to_string(),
            model: "gpt-5.5".to_string(),
            version: Some("2026-05-15".to_string()),
        }),
        runtime: Some(RuntimeIdentity {
            runtime_provider: "codex".to_string(),
            environment: RuntimeEnvironment::Production,
        }),
        mcp_client_name: Some("codex-cli".to_string()),
        mcp_client_version: Some("0.12.3".to_string()),
    }
}

fn public_suffix(uuid: &str) -> String {
    format!("{}{}", &uuid[0..8], &uuid[9..13])
}

fn assert_public_id(pub_id: &str, prefix: &str) {
    let expected_prefix = format!("{prefix}_");
    assert!(pub_id.starts_with(&expected_prefix));
    assert_eq!(pub_id.len(), expected_prefix.len() + 12);
    assert!(pub_id[expected_prefix.len()..]
        .chars()
        .all(|character| character.is_ascii_lowercase() || character.is_ascii_digit()));
}

#[test]
fn manager_registering_new_agent_creates_identity_version_account_and_session() {
    let mut manager = RegistrationManager::new();
    let response = manager.register_agent(test_request("sha256:agent-a", "sha256:version-a")).unwrap();

    assert_eq!(response.agent.display_name, "Test Agent");
    assert_eq!(response.agent.fingerprint, "sha256:agent-a");
    assert_eq!(response.version.fingerprint, "sha256:version-a");
    assert_eq!(response.agent.pub_id, format!("agt_{}", public_suffix(&response.agent.id.to_uuid_string())));
    assert_eq!(response.version.pub_id, format!("agv_{}", public_suffix(&response.version.id.to_uuid_string())));
    assert_eq!(response.account.pub_id, format!("aga_{}", public_suffix(&response.account.id.to_uuid_string())));
    assert_eq!(response.session.pub_id, format!("ags_{}", public_suffix(&response.session.id.to_uuid_string())));
    assert_public_id(&response.agent.pub_id, "agt");
    assert_public_id(&response.version.pub_id, "agv");
    assert_public_id(&response.account.pub_id, "aga");
    assert_public_id(&response.session.pub_id, "ags");
    assert_eq!(response.version.agent_id, response.agent.id);
    assert_eq!(response.account.agent_id, response.agent.id);
    assert_eq!(response.session.agent_id, response.agent.id);
    assert_eq!(response.agent.owner_user_id, response.account.owner_user_id);
    assert_eq!(response.agent.owner_user_id, response.session.owner_user_id);
}

#[test]
fn manager_registering_same_identity_fingerprint_reuses_agent_and_account_but_create_new_session() {
    let mut manager = RegistrationManager::new();
    let first = manager.register_agent(test_request("sha256:agent-a", "sha256:version-a")).unwrap();
    let second = manager.register_agent(test_request("sha256:agent-a", "sha256:version-b")).unwrap();

    assert_eq!(first.agent.id, second.agent.id);
    assert_eq!(first.account.id, second.account.id);
    assert_ne!(first.version.id, second.version.id);
    assert_ne!(first.session.id, second.session.id);
}

#[test]
fn public_agent_ids_are_unique_and_resolve_to_internal_ids() {
    let mut manager = RegistrationManager::new();
    let first = manager.register_agent(test_request("sha256:agent-a", "sha256:version-a")).unwrap();
    let second = manager.register_agent(test_request("sha256:agent-b", "sha256:version-a")).unwrap();

    assert_public_id(&first.agent.pub_id, "agt");
    assert_public_id(&second.agent.pub_id, "agt");
    assert_ne!(first.agent.pub_id, second.agent.pub_id);
    assert_eq!(manager.agent_id_for_pub_id(&first.agent.pub_id).unwrap(), Some(first.agent.id));
    assert_eq!(manager.agent_id_for_pub_id(&second.agent.pub_id).unwrap(), Some(second.agent.id));
}

#[test]
fn manager_registering_without_fingerprint_fails() {
    let mut manager = RegistrationManager::new();

    let error = manager.register_agent(test_request("", "sha256:version-a")).unwrap_err();
    assert_eq!(error, RegistrationError::MissingFingerprint);

    let error = manager.register_agent(test_request("sha256:agent-a", "")).unwrap_err();
    assert_eq!(error, RegistrationError::MissingFingerprint);

    let error = manager.register_agent(test_request("", "")).unwrap_err();
    assert_eq!(error, RegistrationError::MissingFingerprint);
}

#[test]
fn manager_registering_same_agent_and_same_version_fingerprint_reuses_version() {
    let mut manager = RegistrationManager::new();
    let first = manager.register_agent(test_request("sha256:agent-a", "sha256:version-a")).unwrap();
    let second = manager.register_agent(test_request("sha256:agent-a", "sha256:version-a")).unwrap();

    assert_eq!(first.agent.id, second.agent.id);
    assert_eq!(first.account.id, second.account.id);
    assert_eq!(first.version.id, second.version.id);
    assert_ne!(first.session.id, second.session.id);
}

#[test]
fn same_identity_fingerprint_can_belong_to_different_owners() {
    let mut manager = RegistrationManager::new();
    let first = manager.register_agent(test_request("sha256:agent-a", "sha256:version-a")).unwrap();

    let mut other_owner = test_request("sha256:agent-a", "sha256:version-a");
    other_owner.owner_user_id = user_id(0x0000_0000_0000_4000_8000_0000_0000_0456);
    let second = manager.register_agent(other_owner).unwrap();

    assert_ne!(first.agent.id, second.agent.id);
    assert_eq!(first.agent.fingerprint, second.agent.fingerprint);
    assert_ne!(first.agent.owner_user_id, second.agent.owner_user_id);
}

#[test]
fn registering_same_agent_and_version_fingerprint_with_different_config_fails() {
    let mut manager = RegistrationManager::new();
    let request = test_request("sha256:agent-a", "sha256:version-a");
    manager.register_agent(request).unwrap();

    let mut conflicting_request = test_request("sha256:agent-a", "sha256:version-a");
    conflicting_request.model =
        Some(ModelIdentity { provider: "mistral".to_string(), model: "large".to_string(), version: None });

    let error = manager.register_agent(conflicting_request).unwrap_err();
    assert_eq!(error, RegistrationError::VersionConflict);
}

#[test]
fn registration_registering_new_agent_creates_identity_version_account_and_session() {
    let mut manager = RegistrationManager::new();
    let response = manager.register_agent(test_request("sha256:agent-a", "sha256:version-a")).unwrap();

    assert_eq!(response.agent.display_name, "Test Agent");
    assert_eq!(response.agent.fingerprint, "sha256:agent-a");
    assert_eq!(response.version.fingerprint, "sha256:version-a");
    assert_eq!(response.version.agent_id, response.agent.id);
    assert_eq!(response.account.agent_id, response.agent.id);
    assert_eq!(response.session.agent_id, response.agent.id);
}

#[test]
fn registration_registering_same_identity_fingerprint_reuses_agent_and_account_but_create_new_session() {
    let mut manager = RegistrationManager::new();
    let first = manager.register_agent(test_request("sha256:agent-a", "sha256:version-a")).unwrap();
    let second = manager.register_agent(test_request("sha256:agent-a", "sha256:version-b")).unwrap();

    assert_eq!(first.agent.id, second.agent.id);
    assert_eq!(first.account.id, second.account.id);
    assert_ne!(first.version.id, second.version.id);
    assert_ne!(first.session.id, second.session.id);
}

#[test]
fn registration_registering_without_fingerprint_fails() {
    let mut manager = RegistrationManager::new();

    let error1 = manager.register_agent(test_request("", "sha256:version-a")).unwrap_err();
    assert_eq!(error1, RegistrationError::MissingFingerprint);

    let error2 = manager.register_agent(test_request("sha256:agent-a", "")).unwrap_err();
    assert_eq!(error2, RegistrationError::MissingFingerprint);

    let error3 = manager.register_agent(test_request("", "")).unwrap_err();
    assert_eq!(error3, RegistrationError::MissingFingerprint);
}

#[test]
fn registration_registering_same_agent_and_same_version_fingerprint_reuses_version() {
    let mut manager = RegistrationManager::new();
    let first = manager.register_agent(test_request("sha256:agent-a", "sha256:version-a")).unwrap();
    let second = manager.register_agent(test_request("sha256:agent-a", "sha256:version-a")).unwrap();

    assert_eq!(first.agent.id, second.agent.id);
    assert_eq!(first.account.id, second.account.id);
    assert_eq!(first.version.id, second.version.id);
    assert_ne!(first.session.id, second.session.id);
}

#[test]
fn registering_same_agent_and_version_finderprint_with_different_config_fails() {
    let mut manager = RegistrationManager::new();
    let request = test_request("sha256:agent-a", "sha256:version-a");
    manager.register_agent(request).unwrap();

    let mut conflicting_request = test_request("sha256:agent-a", "sha256:version-a");
    conflicting_request.model =
        Some(ModelIdentity { provider: "mistral".to_string(), model: "large".to_string(), version: None });

    let error = manager.register_agent(conflicting_request).unwrap_err();
    assert_eq!(error, RegistrationError::VersionConflict);
}

#[test]
fn registered_records_can_be_looked_up_and_type_changes_conflict() {
    let mut manager = RegistrationManager::new();
    let registered = manager.register_agent(test_request("sha256:agent-a", "sha256:version-a")).unwrap();
    assert_eq!(manager.agent_for_id(&registered.agent.id).unwrap(), Some(registered.agent.clone()));
    assert_eq!(manager.version_for_id(&registered.version.id).unwrap(), Some(registered.version.clone()));
    assert_eq!(manager.account_for_agent(&registered.agent.id).unwrap(), Some(registered.account.clone()));
    assert_eq!(manager.session_for_id(&registered.session.id).unwrap(), Some(registered.session.clone()));
    assert_eq!(manager.agent_id_for_pub_id("agt_missing").unwrap(), None);

    let mut interactive = test_request("sha256:agent-a", "sha256:version-a");
    interactive.agent_type = AgentType::InteractiveAgent;
    assert_eq!(manager.register_agent(interactive).unwrap_err(), RegistrationError::IdentityConflict);
}

#[test]
fn stored_registrations_load_back_and_are_reused() {
    let mut original = RegistrationManager::new();
    let first = original.register_agent(test_request("sha256:agent-a", "sha256:version-a")).unwrap();

    let mut loaded = RegistrationManager::from_records(
        vec![first.agent.clone()],
        vec![first.version.clone()],
        vec![first.account.clone()],
        vec![first.session.clone()],
    )
    .unwrap();
    assert_eq!(loaded.agent_id_for_pub_id(&first.agent.pub_id).unwrap(), Some(first.agent.id));
    assert_eq!(loaded.session_for_id(&first.session.id).unwrap(), Some(first.session.clone()));
    let again = loaded.register_agent(test_request("sha256:agent-a", "sha256:version-a")).unwrap();
    assert_eq!(again.agent, first.agent);
    assert_eq!(again.version, first.version);
    assert_eq!(again.account, first.account);
    assert_ne!(again.session.id, first.session.id);
}

#[test]
fn colliding_registration_records_are_refused() {
    let mut original = RegistrationManager::new();
    let first = original.register_agent(test_request("sha256:agent-a", "sha256:version-a")).unwrap();
    let result = RegistrationManager::from_records(
        vec![first.agent.clone(), first.agent.clone()],
        vec![first.version.clone()],
        vec![first.account.clone()],
        vec![],
    );
    match result {
        Err(RegistrationError::Storage(hubu_core::storage::StorageError::InvalidData(message))) => {
            assert_eq!(message, "stored registration records are inconsistent")
        }
        _ => panic!("colliding agents should be refused"),
    }
    assert!(RegistrationManager::from_records(vec![], vec![], vec![], vec![first.session.clone(), first.session.clone()])
        .is_err());
}

fn reloaded(responses: &[&RegisterAgentResponse]) -> RegistrationManager {
    let mut agents = Vec::new();
    let mut versions = Vec::new();
    let mut accounts = Vec::new();
    let mut sessions = Vec::new();
    for response in responses {
        if !agents.contains(&response.agent) {
            agents.push(response.agent.clone());
        }
        if !versions.contains(&response.version) {
            versions.push(response.version.clone());
        }
        if !accounts.contains(&response.account) {
            accounts.push(response.account.clone());
        }
        sessions.push(response.session.clone());
    }
    RegistrationManager::from_records(agents, versions, accounts, sessions).unwrap()
}

#[test]
fn sqlite_reuses_version_for_same_fingerprint_and_creates_for_new_fingerprint() {
    let mut manager = RegistrationManager::new();
    let first = manager.register_agent(test_request("sha256:agent-a", "sha256:version-a")).unwrap();
    let mut manager = reloaded(&[&first]);
    let same = manager.register_agent(test_request("sha256:agent-a", "sha256:version-a")).unwrap();
    let mut manager = reloaded(&[&first, &same]);
    let new = manager.register_agent(test_request("sha256:agent-a", "sha256:version-b")).unwrap();

    assert_eq!(first.version.id, same.version.id);
    assert_ne!(first.version.id, new.version.id);
    assert_eq!(first.account.id, new.account.id);
    assert_ne!(first.session.id, same.session.id);
}

#[test]
fn sqlite_registration_rolls_back_when_session_insert_fails() {
    let mut manager = RegistrationManager::new();
    let first = manager.register_agent(test_request("sha256:agent-a", "sha256:version-a")).unwrap();
    let ids = RegistrationIds {
        agent_id: AgentId::new(),
        version_id: AgentVersionId::new(),
        account_id: AgentAccountId::new(),
        session_id: first.session.id,
    };
    let error = manager.register_agent_at(test_request("sha256:agent-b", "sha256:version-b"), ids, 7).unwrap_err();
    assert!(matches!(error, RegistrationError::IdentifierCollision));

    assert!(manager.agent_id_for_pub_id("agt_missing").unwrap().is_none());
    assert_eq!(manager.agent_for_id(&ids.agent_id).unwrap(), None);
    assert_eq!(manager.account_for_agent(&ids.agent_id).unwrap(), None);
    assert_eq!(manager.version_for_id(&ids.version_id).unwrap(), None);
}
