use lossfunction::runtime::strategy_codegen::{accept_generated, strip_fences, system_prompt, user_prompt};
use lossfunction::strategy_registry::{build, find, registry};
use lossfunction::types::Symbol;

fn symbols() -> Vec<Symbol> {
    vec![Symbol::parse("005930").unwrap()]
}

#[test]
fn registry_lists_six_strategies_with_unique_keys() {
    let specs = registry();
    assert_eq!(specs.len(), 6);
    let mut keys: Vec<_> = specs.iter().map(|spec| spec.key).collect();
    keys.sort_unstable();
    keys.dedup();
    assert_eq!(keys.len(), 6, "keys must be unique");
}

#[test]
fn every_registered_key_builds() {
    for spec in registry() {
        let built = build(spec.key, &symbols(), 1);
        assert!(built.is_some(), "failed to build {}", spec.key);
    }
    assert!(build("no-such-strategy", &symbols(), 1).is_none());
}

#[test]
fn find_resolves_keys() {
    assert_eq!(find("sma-cross").unwrap().name, "SMA 교차");
    assert!(find("ghost").is_none());
}

#[test]
fn prompt_carries_the_contract() {
    let prompt = system_prompt();
    for marker in [
        "pub const KEY",
        "impl Strategy for",
        "pub fn specs()",
        "generated: true",
        "snapshot.history",
    ] {
        assert!(prompt.contains(marker), "prompt missing {marker}");
    }
}

#[test]
fn fences_are_stripped() {
    assert_eq!(strip_fences("```rust\nfn a() {}\n```"), "fn a() {}");
    assert_eq!(strip_fences("fn a() {}"), "fn a() {}");
}

#[test]
fn bare_fences_and_padding_are_stripped() {
    assert_eq!(strip_fences("  ```\nlet x = 1;\n```  "), "let x = 1;");
    assert_eq!(strip_fences("```rust fn b() {}"), "fn b() {}");
}

#[test]
fn generated_code_needs_specs_and_strategy_impl() {
    let good = "```rust\npub fn specs() -> Vec<S> { vec![] }\nimpl Strategy for X {}\n```";
    assert_eq!(
        accept_generated(good).unwrap(),
        "pub fn specs() -> Vec<S> { vec![] }\nimpl Strategy for X {}"
    );
    assert_eq!(
        accept_generated("pub fn specs() {}").unwrap_err(),
        "생성 코드가 규약을 충족하지 않음(specs/Strategy 누락)"
    );
}

#[test]
fn user_prompt_wraps_the_description() {
    assert_eq!(
        user_prompt("RSI 30 매수"),
        "전략 설명: RSI 30 매수\n\n위 규약에 맞는 파일 하나만 답하라."
    );
}
