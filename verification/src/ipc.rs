//! The shapes of the host's command surface: inputs the user interface
//! invokes, results it gets back, and the provider settings of the
//! language-model configuration, together with the pure part of
//! validating them.

use vstd::prelude::*;

verus! {

// ============================================================================
// Command input types
// ============================================================================

#[derive(Debug, Clone)]
pub struct StartTaskInput {
    pub title: String,
    pub user_query: String,
    pub workspace_path: String,
    pub active_file: Option<String>,
    pub config: Option<StartTaskConfigInput>,
}

#[derive(Debug, Clone)]
pub struct StartTaskConfigInput {
    pub model_id: Option<String>,
    pub max_tokens: Option<u32>,
    pub max_history_messages: Option<u32>,
    pub enabled_claude_skills: Option<Vec<String>>,
    pub enabled_toolpacks: Option<Vec<String>>,
    pub enabled_skills: Option<Vec<String>>,
}

#[derive(Debug, Clone)]
pub struct CancelTaskInput {
    pub task_id: String,
    pub reason: Option<String>,
}

#[derive(Debug, Clone)]
pub struct ClearTaskHistoryInput {
    pub task_id: String,
}

#[derive(Debug, Clone)]
pub struct GetTasksInput {
    pub workspace_path: String,
    pub limit: Option<u32>,
    pub status: Option<Vec<String>>,
}

#[derive(Debug, Clone)]
pub struct SendTaskMessageInput {
    pub task_id: String,
    pub content: String,
    pub config: Option<StartTaskConfigInput>,
}

#[derive(Debug, Clone)]
pub struct ListToolpacksInput {
    pub include_disabled: Option<bool>,
}

#[derive(Debug, Clone)]
pub struct GetToolpackInput {
    pub toolpack_id: String,
}

#[derive(Debug, Clone)]
pub struct InstallToolpackInput {
    pub source: String,
    pub path: Option<String>,
    pub url: Option<String>,
    pub allow_unsigned: Option<bool>,
    pub overwrite: Option<bool>,
}

#[derive(Debug, Clone)]
pub struct SetToolpackEnabledInput {
    pub toolpack_id: String,
    pub enabled: bool,
}

#[derive(Debug, Clone)]
pub struct RemoveToolpackInput {
    pub toolpack_id: String,
    pub delete_files: Option<bool>,
}

#[derive(Debug, Clone)]
pub struct ListClaudeSkillsInput {
    pub include_disabled: Option<bool>,
}

#[derive(Debug, Clone)]
pub struct GetClaudeSkillInput {
    pub skill_id: String,
}

#[derive(Debug, Clone)]
pub struct ImportClaudeSkillInput {
    pub source: String,
    pub path: Option<String>,
    pub url: Option<String>,
    pub overwrite: Option<bool>,
}

#[derive(Debug, Clone)]
pub struct SetClaudeSkillEnabledInput {
    pub skill_id: String,
    pub enabled: bool,
}

#[derive(Debug, Clone)]
pub struct RemoveClaudeSkillInput {
    pub skill_id: String,
    pub delete_files: Option<bool>,
}

#[derive(Debug, Clone)]
pub struct CreateWorkspaceInput {
    pub name: String,
    pub path: String,
}

#[derive(Debug, Clone)]
pub struct DeleteWorkspaceInput {
    pub id: String,
}

#[derive(Debug, Clone)]
pub struct InstallFromGitHubInput {
    pub workspace_path: String,
    pub source: String,
    pub target_type: String,
}

#[derive(Debug, Clone)]
pub struct UpdateWorkspaceFields {
    pub name: Option<String>,
    pub path: Option<String>,
}

#[derive(Debug, Clone)]
pub struct UpdateWorkspaceInput {
    pub id: String,
    pub updates: UpdateWorkspaceFields,
}

#[derive(Debug, Clone)]
pub struct ScanSourceInput {
    pub source: String,
}

#[derive(Debug, Clone)]
pub struct ValidateGitHubUrlInput {
    pub url: String,
    pub validation_type: String,
}

// ============================================================================
// Command result types
// ============================================================================

#[derive(Debug, Clone)]
pub struct StartTaskResult {
    pub success: bool,
    pub task_id: String,
    pub error: Option<String>,
}

#[derive(Debug, Clone)]
pub struct CancelTaskResult {
    pub success: bool,
    pub task_id: String,
    pub error: Option<String>,
}

#[derive(Debug, Clone)]
pub struct ClearTaskHistoryResult {
    pub success: bool,
    pub task_id: String,
    pub error: Option<String>,
}

#[derive(Debug, Clone)]
pub struct SendTaskMessageResult {
    pub success: bool,
    pub task_id: String,
    pub error: Option<String>,
}

#[derive(Debug, Clone)]
pub struct SidecarStatusResult {
    pub running: bool,
}

// ============================================================================
// Provider settings
// ============================================================================

#[derive(Debug, Clone)]
pub struct AnthropicProviderSettings {
    pub api_key: Option<String>,
    pub model: Option<String>,
}

#[derive(Debug, Clone)]
pub struct OpenRouterProviderSettings {
    pub api_key: Option<String>,
    pub model: Option<String>,
}

#[derive(Debug, Clone)]
pub struct OpenAIProviderSettings {
    pub api_key: Option<String>,
    pub base_url: Option<String>,
    pub model: Option<String>,
}

#[derive(Debug, Clone)]
pub struct OllamaProviderSettings {
    pub base_url: Option<String>,
    pub model: Option<String>,
}

#[derive(Debug, Clone)]
pub struct CustomProviderSettings {
    pub api_key: Option<String>,
    pub base_url: Option<String>,
    pub model: Option<String>,
    pub api_format: Option<String>,
}

/// A verified language-model profile.
#[derive(Debug, Clone)]
pub struct LlmProfile {
    pub id: String,
    pub name: String,
    pub provider: String,
    pub anthropic: Option<AnthropicProviderSettings>,
    pub openrouter: Option<OpenRouterProviderSettings>,
    pub openai: Option<OpenAIProviderSettings>,
    pub ollama: Option<OllamaProviderSettings>,
    pub custom: Option<CustomProviderSettings>,
    pub verified: bool,
}

/// The input of a connectivity check.
#[derive(Debug, Clone)]
pub struct ValidateLlmInput {
    pub provider: String,
    pub anthropic: Option<AnthropicProviderSettings>,
    pub openrouter: Option<OpenRouterProviderSettings>,
    pub custom: Option<CustomProviderSettings>,
}

/// The request a connectivity check sends: the endpoint, the key, the
/// model to ping, and whether the key travels in the vendor header or as
/// a bearer token.
#[derive(Debug, Clone)]
pub struct LlmValidationPlan {
    pub url: String,
    pub api_key: String,
    pub model: String,
    pub vendor_header: bool,
}

/// What the plan of a connectivity check must be for each provider: the
/// provider's endpoint and defaults, or the error naming what is missing.
pub open spec fn validation_plan_post(input: ValidateLlmInput, r: Result<LlmValidationPlan, String>) -> bool {
    if input.provider@ == "anthropic"@ {
        match input.anthropic {
            Some(settings) => match settings.api_key {
                Some(key) => r matches Ok(plan) && plan.url@
                    == "https://api.anthropic.com/v1/messages"@ && plan.api_key@ == key@
                    && plan.vendor_header && plan.model@ == (match settings.model {
                    Some(m) => m@,
                    None => "latest"@,
                }),
                None => r matches Err(e) && e@ == "Missing API key"@,
            },
            None => r matches Err(e) && e@ == "Missing Anthropic settings"@,
        }
    } else if input.provider@ == "openrouter"@ {
        match input.openrouter {
            Some(settings) => match settings.api_key {
                Some(key) => r matches Ok(plan) && plan.url@
                    == "https://openrouter.ai/api/v1/chat/completions"@ && plan.api_key@ == key@
                    && !plan.vendor_header && plan.model@ == (match settings.model {
                    Some(m) => m@,
                    None => "openrouter/auto"@,
                }),
                None => r matches Err(e) && e@ == "Missing API key"@,
            },
            None => r matches Err(e) && e@ == "Missing OpenRouter settings"@,
        }
    } else if input.provider@ == "custom"@ {
        match input.custom {
            Some(settings) => {
                if settings.api_key is None {
                    r matches Err(e) && e@ == "Missing API key"@
                } else if settings.base_url is None {
                    r matches Err(e) && e@ == "Missing Base URL"@
                } else if settings.model is None {
                    r matches Err(e) && e@ == "Missing Model ID"@
                } else {
                    r matches Ok(plan) && plan.url@ == settings.base_url->Some_0@ && plan.api_key@
                        == settings.api_key->Some_0@ && !plan.vendor_header && plan.model@
                        == settings.model->Some_0@
                }
            },
            None => r matches Err(e) && e@ == "Missing Custom settings"@,
        }
    } else {
        r matches Err(e) && e@ == "Unknown provider: "@ + input.provider@
    }
}

/// The pure part of validating a provider configuration: which endpoint
/// to ping, with which key and model. Sending the ping is the embedding
/// application's part.
pub fn llm_validation_plan(input: &ValidateLlmInput) -> (r: Result<LlmValidationPlan, String>)
    ensures
        validation_plan_post(*input, r),
{
    if crate::strutil::str_eq(input.provider.as_str(), "anthropic") {
        let settings = match &input.anthropic {
            Some(s) => s,
            None => {
                return Err("Missing Anthropic settings".to_owned());
            }
        };
        let key = match &settings.api_key {
            Some(k) => k.clone(),
            None => {
                return Err("Missing API key".to_owned());
            }
        };
        let model = match &settings.model {
            Some(m) => m.clone(),
            None => "latest".to_owned(),
        };
        Ok(LlmValidationPlan {
            url: "https://api.anthropic.com/v1/messages".to_owned(),
            api_key: key,
            model,
            vendor_header: true,
        })
    } else if crate::strutil::str_eq(input.provider.as_str(), "openrouter") {
        let settings = match &input.openrouter {
            Some(s) => s,
            None => {
                return Err("Missing OpenRouter settings".to_owned());
            }
        };
        let key = match &settings.api_key {
            Some(k) => k.clone(),
            None => {
                return Err("Missing API key".to_owned());
            }
        };
        let model = match &settings.model {
            Some(m) => m.clone(),
            None => "openrouter/auto".to_owned(),
        };
        Ok(LlmValidationPlan {
            url: "https://openrouter.ai/api/v1/chat/completions".to_owned(),
            api_key: key,
            model,
            vendor_header: false,
        })
    } else if crate::strutil::str_eq(input.provider.as_str(), "custom") {
        let settings = match &input.custom {
            Some(s) => s,
            None => {
                return Err("Missing Custom settings".to_owned());
            }
        };
        let key = match &settings.api_key {
            Some(k) => k.clone(),
            None => {
                return Err("Missing API key".to_owned());
            }
        };
        let base_url = match &settings.base_url {
            Some(u) => u.clone(),
            None => {
                return Err("Missing Base URL".to_owned());
            }
        };
        let model = match &settings.model {
            Some(m) => m.clone(),
            None => {
                return Err("Missing Model ID".to_owned());
            }
        };
        Ok(LlmValidationPlan { url: base_url, api_key: key, model, vendor_header: false })
    } else {
        let mut e = String::new();
        e.append("Unknown provider: ");
        e.append(input.provider.as_str());
        Err(e)
    }
}

} // verus!
