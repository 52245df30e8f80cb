//! The recommendation orchestrator: resolves the provider and its key,
//! prepares the outbound chat call, and turns the call's outcome into the
//! recommendation while updating the rolling recent list.

use vstd::prelude::*;

use crate::ambient::{current_hour, rand_below};
use crate::chat::{
    build_chat_request, endpoint_url, interpret_reply, model_name, provider_of, spec_chat_request,
    spec_endpoint, spec_interpret, spec_model, spec_provider_of, ChatError, ChatOutcome, Provider,
};
use crate::config::{add_recent, spec_add_recent, ApiConfig, Config, Rules};
use crate::prompt::{
    build_prompt, category_label, meal_time_label, spec_category, spec_meal_time, spec_opt_view,
    spec_prompt, CATEGORY_COUNT,
};
use crate::text::{before_char, spec_before_char, spec_trim, trim_text};

verus! {

/// The human-readable label of a provider, used when naming the provider
/// whose key is missing.
pub open spec fn spec_provider_label(p: Provider) -> Seq<char> {
    match p {
        Provider::Zhipu => "智谱AI"@,
        Provider::OpenAi => "OpenAI"@,
        Provider::Deepseek => "DeepSeek"@,
    }
}

pub fn provider_label(p: Provider) -> (r: &'static str)
    ensures
        r@ == spec_provider_label(p),
{
    match p {
        Provider::Zhipu => "智谱AI",
        Provider::OpenAi => "OpenAI",
        Provider::Deepseek => "DeepSeek",
    }
}

/// The API key that the configured provider selection resolves to.
pub open spec fn spec_key_of(api: ApiConfig) -> Seq<char> {
    match spec_provider_of(api.provider@) {
        Provider::Zhipu => api.zhipu_key@,
        Provider::OpenAi => api.openai_key@,
        Provider::Deepseek => api.deepseek_key@,
    }
}

/// The AI path cannot be dispatched: the selected provider has no API key.
#[derive(Debug, Clone, PartialEq, Eq)]
pub struct ConfigurationError {
    pub provider_label: String,
}

impl ConfigurationError {
    /// The human-readable description, naming the provider whose key is
    /// missing.
    pub fn message(&self) -> (r: String)
        ensures
            r@ == "请先配置 "@ + self.provider_label@
                + " API Key。运行 'ttchd config' 查看配置文件路径。"@,
    {
        let mut s = String::from_str("请先配置 ");
        s.append(self.provider_label.as_str());
        s.append(" API Key。运行 'ttchd config' 查看配置文件路径。");
        s
    }
}

/// Everything the host needs to make the one outbound HTTP call.
#[derive(Debug, Clone, PartialEq, Eq)]
pub struct ChatCall {
    pub url: String,
    pub api_key: String,
    pub body: String,
}

/// Prepares the outbound chat call for fixed diversity inputs: resolves the
/// provider, fails fast when its key is empty, and otherwise frames the
/// request around the built prompt.
pub fn prepare_request(config: &Config, mood: Option<&str>, hour: u8, cat_idx: usize, seed: u32) -> (r:
    Result<ChatCall, ConfigurationError>)
    requires
        cat_idx < CATEGORY_COUNT,
    ensures
        ({
            let p = spec_provider_of(config.api.provider@);
            let key = spec_key_of(config.api);
            match r {
                Err(e) => key.len() == 0 && e.provider_label@ == spec_provider_label(p),
                Ok(call) => key.len() > 0 && call.api_key@ == key && call.url@ == spec_endpoint(
                    p,
                    config.api.openai_endpoint@,
                ) && call.body@ == spec_chat_request(
                    spec_model(p),
                    spec_prompt(
                        *config,
                        spec_opt_view(mood),
                        hour,
                        spec_category(cat_idx as int),
                        seed,
                    ),
                ),
            }
        }),
{
    let provider = provider_of(config.api.provider.as_str());
    let key: &String = match provider {
        Provider::Zhipu => &config.api.zhipu_key,
        Provider::OpenAi => &config.api.openai_key,
        Provider::Deepseek => &config.api.deepseek_key,
    };
    if key.as_str().is_empty() {
        return Err(
            ConfigurationError { provider_label: String::from_str(provider_label(provider)) },
        );
    }
    let url = endpoint_url(provider, config.api.openai_endpoint.as_str());
    let model = model_name(provider);
    let category = category_label(cat_idx);
    let prompt = build_prompt(config, mood, hour, category, seed);
    let body = build_chat_request(model, prompt.as_str());
    Ok(ChatCall { url, api_key: key.clone(), body })
}

/// Prepares the outbound chat call with the current hour and fresh diversity
/// inputs. Fails exactly when the selected provider's key is empty; on
/// success the request body is the framed prompt for some in-range hour,
/// category and seed.
pub fn ai_request(config: &Config, mood: Option<&str>) -> (r: Result<
    ChatCall,
    ConfigurationError,
>)
    ensures
        ({
            let p = spec_provider_of(config.api.provider@);
            let key = spec_key_of(config.api);
            match r {
                Err(e) => key.len() == 0 && e.provider_label@ == spec_provider_label(p),
                Ok(call) => key.len() > 0 && call.api_key@ == key && call.url@ == spec_endpoint(
                    p,
                    config.api.openai_endpoint@,
                ) && (exists|hour: u8, cat: int, seed: u32|
                    hour < 24 && 0 <= cat < CATEGORY_COUNT as int && 1000 <= seed <= 9998
                        && call.body@ == spec_chat_request(
                        spec_model(p),
                        spec_prompt(*config, spec_opt_view(mood), hour, spec_category(cat), seed),
                    )),
            }
        }),
{
    let hour = current_hour();
    let cat_idx = rand_below(CATEGORY_COUNT);
    let seed_offset = rand_below(8999);
    let seed: u32 = 1000 + (seed_offset as u32);
    let r = prepare_request(config, mood, hour, cat_idx, seed);
    proof {
        if r is Ok {
            let call = r->Ok_0;
            let p = spec_provider_of(config.api.provider@);
            assert(call.body@ == spec_chat_request(
                spec_model(p),
                spec_prompt(
                    *config,
                    spec_opt_view(mood),
                    hour,
                    spec_category(cat_idx as int),
                    seed,
                ),
            ));
        }
    }
    r
}

/// The bare food name extracted from a trimmed reply: the part before the
/// first rationale-opening delimiter, trimmed again.
pub open spec fn spec_food_name(trimmed: Seq<char>) -> Seq<char> {
    spec_trim(spec_before_char(trimmed, '（'))
}

/// Turns the outcome of the outbound call into the recommendation: the first
/// completion, trimmed, whose bare food name is recorded at the front of the
/// recent list. On any failure the rules are left untouched and the matching
/// error is returned.
pub fn finish_recommend(outcome: ChatOutcome, rules: &mut Rules) -> (r: Result<String, ChatError>)
    ensures
        ({
            match spec_interpret(outcome) {
                Ok(content) => {
                    let trimmed = spec_trim(content@);
                    &&& (r matches Ok(out) && out@ == trimmed)
                    &&& final(rules).recent.deep_view() == spec_add_recent(
                        old(rules).recent.deep_view(),
                        spec_food_name(trimmed),
                    )
                    &&& final(rules).favorites == old(rules).favorites
                    &&& final(rules).blacklist == old(rules).blacklist
                    &&& final(rules).custom_prompt == old(rules).custom_prompt
                },
                Err(e) => r == Err::<String, ChatError>(e) && *final(rules) == *old(rules),
            }
        }),
{
    match interpret_reply(outcome) {
        Err(e) => Err(e),
        Ok(content) => {
            let trimmed = trim_text(content.as_str());
            let head = before_char(trimmed.as_str(), '（');
            let name = trim_text(head.as_str());
            add_recent(rules, name.as_str());
            Ok(trimmed)
        },
    }
}

/// The meal-time label for the current local hour: always one of the five
/// fixed labels.
pub fn get_meal_time() -> (r: &'static str)
    ensures
        exists|h: u8| h < 24 && r@ == spec_meal_time(h),
{
    let hour = current_hour();
    let label = meal_time_label(hour);
    proof {
        assert(hour < 24 && label@ == spec_meal_time(hour));
    }
    label
}

} // verus!
