use agent_core_sync::trading::{is_builtin_strategy_id, is_valid_strategy, strategy_ids, ApiResponse, TradeSide};
use agent_core_sync::types::MessageRole;
use agent_core_sync::endpoint::{ClientConfig, DEFAULT_BASE_URL, EVENT_PATH};
use agent_core_sync::ui::{normalize_locale, Button, ButtonVariant, I18n, MessageComponent};
use agent_core_sync::version::{is_newer, parse_version, UpdateCheck, UpdateInfo, UpdateStatus};

#[test]
fn test_is_valid_strategy() {
    assert!(is_valid_strategy("momentum"));
    assert!(is_valid_strategy("sma_crossover"));
    assert!(!is_valid_strategy("invalid"));
}

#[test]
fn strategy_ids_ignore_case() {
    assert!(is_valid_strategy("MOMENTUM"));
    assert!(is_valid_strategy("Buy_And_Hold"));
    assert!(!is_builtin_strategy_id("MOMENTUM"));
    assert!(is_builtin_strategy_id("rsi_strategy"));
    let ids = strategy_ids();
    assert_eq!(ids.len(), 5);
    for id in &ids {
        assert!(is_valid_strategy(id));
    }
}

#[test]
fn test_api_response() {
    let response: ApiResponse<String> = ApiResponse::ok("test".to_string());
    assert!(response.ok);
    assert_eq!(response.data, Some("test".to_string()));

    let err_response: ApiResponse<String> = ApiResponse::err("error");
    assert!(!err_response.ok);
    assert_eq!(err_response.error, Some("error".to_string()));
}

#[test]
fn trade_sides_differ() {
    assert_ne!(TradeSide::Buy, TradeSide::Sell);
}

#[test]
fn versions_parse_and_compare() {
    assert_eq!(parse_version("1.2.3"), vec![1, 2, 3]);
    assert_eq!(parse_version("v1.2-beta.4+7"), vec![2, 4, 7]);
    assert_eq!(parse_version("18446744073709551615.1"), vec![u64::MAX, 1]);
    assert_eq!(parse_version("18446744073709551616.1"), vec![1]);
    assert_eq!(parse_version(""), Vec::<u64>::new());
    assert!(is_newer("1.10.0", "1.9.9"));
    assert!(!is_newer("1.9.9", "1.10.0"));
    assert!(!is_newer("1.0", "1.0.0"));
    assert!(is_newer("1.0.1", "1.0"));
    assert!(!is_newer("2.0.0", "2.0.0"));
}

#[test]
fn update_check_outcomes() {
    let info = |v: &str| UpdateInfo { version: v.to_string(), title: None, notes_url: None, download_url: None, published_at: None };
    let c = UpdateCheck::from_feed(info("0.3.0"), "0.2.9", 42);
    assert_eq!(c.status, UpdateStatus::Available);
    assert_eq!(c.checked_at, Some(42));
    let c = UpdateCheck::from_feed(info("0.2.9"), "0.2.9", 43);
    assert_eq!(c.status, UpdateStatus::UpToDate);
    let c = UpdateCheck::failed("offline".to_string(), 44);
    assert_eq!(c.status, UpdateStatus::Error);
    assert_eq!(c.error.as_deref(), Some("offline"));
}

#[test]
fn buttons_and_message_cells() {
    let b = Button::primary("Send");
    assert_eq!(b.label, "Send");
    assert_eq!(b.variant, ButtonVariant::Primary);
    assert!(!b.disabled && !b.loading);
    assert_eq!(Button::secondary("Cancel").variant, ButtonVariant::Secondary);
    let m = MessageComponent::new(MessageRole::User, "hi".to_string(), 9);
    assert_eq!((m.role, m.content.as_str(), m.timestamp), (MessageRole::User, "hi", 9));
}

#[test]
fn translations_and_placeholders() {
    let i18n = I18n::new(
        "en".to_string(),
        vec![
            ("greet".to_string(), "Hello {name}, {name}!".to_string()),
            ("count".to_string(), "{n} of {total}".to_string()),
            ("greet".to_string(), "Hi {name}, {name}!".to_string()),
        ],
    );
    assert_eq!(i18n.locale(), "en");
    assert_eq!(i18n.t("missing.key"), "missing.key");
    assert_eq!(i18n.t("greet"), "Hi {name}, {name}!");
    assert_eq!(i18n.format("greet", &[("name", "Ann")]), "Hi Ann, Ann!");
    assert_eq!(i18n.format("count", &[("n", "2"), ("total", "5")]), "2 of 5");
    assert_eq!(i18n.format("count", &[("n", "{total}"), ("total", "5")]), "5 of 5");
    assert_eq!(i18n.format("count", &[]), "{n} of {total}");
}

#[test]
fn client_config_builds_urls() {
    let c = ClientConfig::new(DEFAULT_BASE_URL);
    assert_eq!(c.base_url(), "http://127.0.0.1:3210");
    assert!(c.directory().is_none());
    assert_eq!(c.url(EVENT_PATH), "http://127.0.0.1:3210/event");
    let c = c.with_directory("/work".to_string());
    assert_eq!(c.directory().map(|d| d.as_str()), Some("/work"));
    assert_eq!(c.url("/session"), "http://127.0.0.1:3210/session");
}

#[test]
fn locale_values_are_normalised() {
    assert_eq!(normalize_locale("en_US.UTF-8").as_deref(), Some("en_us"));
    assert_eq!(normalize_locale("  pt-BR ").as_deref(), Some("pt_br"));
    assert_eq!(normalize_locale("DE"), Some("de".to_string()));
    assert_eq!(normalize_locale("   "), None);
    assert_eq!(normalize_locale(".utf8"), None);
}
