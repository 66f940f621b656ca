use agent_cli_rust::config::{resolve_config, ConfigError, ProviderEntry, ProviderTable};

fn entry(url: &str, model: &str) -> ProviderEntry {
    ProviderEntry { url: url.into(), api_key: "k".into(), model: model.into() }
}

fn table(default: Option<&str>) -> ProviderTable {
    let mut t = ProviderTable::new(default.map(|d| d.to_string()));
    t.insert("openai".into(), entry("https://api.openai.com/v1", "gpt-4o"));
    t.insert("deepseek".into(), entry("https://api.deepseek.com/v1", "deepseek-chat"));
    t
}

#[test]
fn the_default_provider_is_used() {
    let c = resolve_config(&table(Some("openai")), None).ok().unwrap();
    assert_eq!(c.provider, "openai");
    assert_eq!(c.base_url, "https://api.openai.com/v1");
    assert_eq!(c.model, "gpt-4o");
    assert_eq!(c.api_key, "k");
}

#[test]
fn the_environment_overrides_the_default() {
    let c = resolve_config(&table(Some("openai")), Some("deepseek".into())).ok().unwrap();
    assert_eq!(c.provider, "deepseek");
    assert_eq!(c.model, "deepseek-chat");
}

#[test]
fn an_empty_table_is_an_error() {
    let t = ProviderTable::new(Some("openai".into()));
    let e = resolve_config(&t, None).err().unwrap();
    assert!(matches!(e, ConfigError::NoProviders));
    assert_eq!(e.message(), "api_keys.yaml 中没有配置任何 Provider");
}

#[test]
fn no_provider_chosen_lists_the_available() {
    let e = resolve_config(&table(None), None).err().unwrap();
    assert_eq!(
        e.message(),
        "未指定 Provider。请设置 AGENT_PROVIDER 环境变量或在 yaml 中配置 default\n可用: openai, deepseek"
    );
}

#[test]
fn an_unknown_provider_lists_the_available() {
    let e = resolve_config(&table(Some("mistral")), None).err().unwrap();
    assert_eq!(e.message(), "未找到 Provider \"mistral\"，可用: openai, deepseek");
    let e = resolve_config(&table(Some("openai")), Some(String::new())).err().unwrap();
    assert_eq!(e.message(), "未找到 Provider \"\"，可用: openai, deepseek");
}

#[test]
fn file_errors_have_messages() {
    let e = ConfigError::Unreadable { path: "\"/x/../api_keys.yaml\"".into(), reason: "not found".into() };
    assert_eq!(e.message(), "无法读取配置文件 \"/x/../api_keys.yaml\": not found");
    let m = ConfigError::Malformed { reason: "bad indent".into() };
    assert_eq!(m.message(), "解析 YAML 失败: bad indent");
}

#[test]
fn inserting_again_replaces_the_entry() {
    let mut t = table(Some("openai"));
    t.insert("openai".into(), entry("https://proxy/v1", "gpt-4o-mini"));
    assert_eq!(t.names(), vec!["openai".to_string(), "deepseek".to_string()]);
    let c = resolve_config(&t, None).ok().unwrap();
    assert_eq!(c.base_url, "https://proxy/v1");
    assert_eq!(c.model, "gpt-4o-mini");
}
