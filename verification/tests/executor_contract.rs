use hubu_core::executor_contract::{
    identity_matches, resolve_execution_scope, ExecutionScope, ExecutionScopeSelector, ScopeIdentity,
    ScopeResolutionError, EXECUTION_SCOPE_SCHEMA_VERSION,
};

fn identity(id: &str, display_name: &str) -> ScopeIdentity {
    ScopeIdentity { id: id.to_string(), display_name: display_name.to_string() }
}

fn scope(provider: &str, executor: &str) -> ExecutionScope {
    ExecutionScope {
        schema_version: EXECUTION_SCOPE_SCHEMA_VERSION,
        provider: identity(provider, "Google Gemini"),
        executor: identity(executor, "Gongbu Image"),
        capability: identity("capability:image:generate", "Image generation"),
        billing_merchant: identity("merchant:google", "Google"),
    }
}

fn selector(provider: &str, executor: &str) -> ExecutionScopeSelector {
    ExecutionScopeSelector {
        schema_version: EXECUTION_SCOPE_SCHEMA_VERSION,
        provider: provider.to_string(),
        executor: executor.to_string(),
        capability: "capability:image:generate".to_string(),
        billing_merchant: " merchant:google ".to_string(),
    }
}

#[test]
fn resolves_exactly_one_matching_scope_by_id_or_display_name() {
    let catalog = vec![
        scope("provider:google:gemini-developer", "executor:gongbu:image"),
        scope("provider:openai:images", "executor:gongbu:other"),
    ];
    let resolved = resolve_execution_scope(&selector("provider:google:gemini-developer", "GONGBU IMAGE"), &catalog)
        .expect("one scope should match");
    assert_eq!(resolved, catalog[0]);
    assert!(identity_matches(&identity("x", "Google"), "  google "));
    assert!(!identity_matches(&identity("x", "Google"), "goog"));
}

#[test]
fn resolution_reports_unknown_ambiguous_and_unsupported_schema() {
    let catalog = vec![
        scope("provider:google:gemini-developer", "executor:gongbu:image"),
        scope("provider:google:gemini-developer", "executor:gongbu:image"),
    ];
    assert_eq!(
        resolve_execution_scope(&selector("provider:google:gemini-developer", "executor:gongbu:image"), &catalog),
        Err(ScopeResolutionError::Ambiguous)
    );
    assert_eq!(
        resolve_execution_scope(&selector("provider:none", "executor:gongbu:image"), &catalog),
        Err(ScopeResolutionError::Unknown)
    );
    let mut old = selector("provider:google:gemini-developer", "executor:gongbu:image");
    old.schema_version = 2;
    assert_eq!(resolve_execution_scope(&old, &catalog), Err(ScopeResolutionError::UnsupportedSchema(2)));
}
