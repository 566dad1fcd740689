use panini::consistency::Template;
use panini::engine::Derived;
use panini::error::PaniniError;
use panini::gui::{Load, Tab, switch_tab};
use panini::gui::{paradigm, sandhi as sandhi_tab, sutra, verify};
use panini::params::{CachedRule, ParamField, ParamValue, Params};
use panini::rule_cache::RuleCache;
use panini::service::{
    AnalyzeArgs, AnalyzeReply, Config, DeriveArgs, ParadigmArgs, analyze_request, derive_request, env_or, health,
    paradigm_cells, paradigm_request, parse_port, sutra_index, validate_domain,
};

fn t(k: &str, v: &str) -> ParamField {
    ParamField { key: k.to_string(), value: ParamValue::Text(v.to_string()) }
}

fn rule(fields: Vec<ParamField>, statement: &str) -> CachedRule {
    CachedRule { params: Params::Object(fields), statement: statement.to_string() }
}

fn sandhi_rules() -> Vec<CachedRule> {
    vec![
        rule(vec![t("first", "a"), t("second", "i"), t("result", "e"), t("sutra", "6.1.87"), t("sutra_position", "06.01.087"), t("rule_type", "utsarga")], "ād guṇaḥ"),
        rule(vec![t("first", "a"), t("second", "a"), t("result", "ā"), t("sutra", "6.1.101"), t("sutra_position", "06.01.101"), t("rule_type", "utsarga")], "akaḥ savarṇe dīrghaḥ"),
    ]
}

fn tripadi_rules() -> Vec<CachedRule> {
    vec![rule(vec![t("input", "s"), t("output", "r"), t("position", "word_final"), t("sutra", "8.2.66"), t("sutra_position", "08.02.066"), t("rule_type", "nitya")], "sasajuṣo ruḥ")]
}

fn cache() -> RuleCache {
    let mut c = RuleCache::new();
    c.load_template("sandhi_rule".to_string(), sandhi_rules());
    c.load_template("tripadi_rule".to_string(), tripadi_rules());
    c
}

fn invalid_parts(e: &PaniniError) -> (String, String, String, String) {
    match e {
        PaniniError::InvalidArgument { tool, argument, constraint, received } => {
            (tool.clone(), argument.clone(), constraint.clone(), received.clone())
        }
        _ => panic!("expected an invalid argument"),
    }
}

#[test]
fn cache_load_then_get() {
    let c = cache();
    assert_eq!(c.template_count(), 2);
    assert_eq!(c.rule_count("sandhi_rule"), 2);
    assert_eq!(c.rule_count("tripadi_rule"), 1);
    assert_eq!(c.rule_count("sup_suffix"), 0);
    assert_eq!(c.total_rules(), 3);
    assert_eq!(c.get_rules("sandhi_rule")[1].statement, "akaḥ savarṇe dīrghaḥ");
    assert!(c.get_rules("missing").is_empty());
}

#[test]
fn cache_reload_replaces_rules() {
    let mut c = cache();
    c.load_template("sandhi_rule".to_string(), tripadi_rules());
    assert_eq!(c.template_count(), 2);
    assert_eq!(c.rule_count("sandhi_rule"), 1);
    assert_eq!(c.total_rules(), 2);
    let names: Vec<&str> = c.all_templates().iter().map(|(s, _)| *s).collect();
    assert_eq!(names, vec!["sandhi_rule", "tripadi_rule"]);
}

#[test]
fn empty_cache_counts() {
    let c = RuleCache::new();
    assert_eq!(c.template_count(), 0);
    assert_eq!(c.total_rules(), 0);
    assert!(c.all_templates().is_empty());
}

#[test]
fn health_reports_counts() {
    let h = health(&cache(), "0.1.0");
    assert_eq!(h.status, "ok");
    assert_eq!(h.version, "0.1.0");
    assert_eq!(h.rule_templates, 2);
    assert_eq!(h.total_rules, 3);
    assert_eq!(h.sandhi_rules, 2);
}

#[test]
fn domain_must_be_vyakarana() {
    assert!(validate_domain("derive", "vyakarana").is_ok());
    let e = validate_domain("derive", "nyaya").err().unwrap();
    assert_eq!(
        e.message(),
        "invalid argument for derive.domain: must be 'vyakarana' (got: nyaya)"
    );
}

#[test]
fn derive_request_joins_words() {
    let args = DeriveArgs {
        domain: "vyakarana".into(),
        operation: "sandhi".into(),
        input: Params::Object(vec![t("first", "deva"), t("second", "indra")]),
    };
    let out = derive_request(&cache(), "derive", args).ok().unwrap();
    assert_eq!(out.domain, "vyakarana");
    assert_eq!(out.operation, "sandhi");
    match &out.result {
        Derived::Sandhi { result, .. } => assert_eq!(result, "devendra"),
        _ => panic!("not sandhi"),
    }
    assert_eq!(out.trace.len(), 1);
}

#[test]
fn derive_request_rejects_bad_input() {
    let args = DeriveArgs {
        domain: "vyakarana".into(),
        operation: "sandhi".into(),
        input: Params::Object(vec![t("first", "deva")]),
    };
    let e = derive_request(&cache(), "derive", args).err().unwrap();
    let (tool, argument, constraint, received) = invalid_parts(&e);
    assert_eq!(tool, "derive");
    assert_eq!(argument, "input");
    assert_eq!(constraint, "requires {first, second}");
    assert_eq!(received, "missing field `second`");
}

#[test]
fn derive_request_rejects_unknown_operation() {
    let args = DeriveArgs {
        domain: "vyakarana".into(),
        operation: "samasa".into(),
        input: Params::Object(vec![]),
    };
    let e = derive_request(&cache(), "derive", args).err().unwrap();
    let (_, argument, _, received) = invalid_parts(&e);
    assert_eq!(argument, "operation");
    assert_eq!(received, "samasa");
}

#[test]
fn derive_request_needs_loaded_rules() {
    let args = DeriveArgs {
        domain: "vyakarana".into(),
        operation: "sandhi".into(),
        input: Params::Object(vec![t("first", "deva"), t("second", "indra")]),
    };
    let e = derive_request(&RuleCache::new(), "derive", args).err().unwrap();
    assert_eq!(e.message(), "no rules loaded for template 'sandhi_rule'");
}

#[test]
fn analyze_request_splits_form() {
    let args = AnalyzeArgs { domain: "vyakarana".into(), operation: "sandhi".into(), form: "devendra".into() };
    match analyze_request(&cache(), "analyze", args, true).ok().unwrap() {
        AnalyzeReply::Sandhi(o) => {
            assert_eq!(o.form, "devendra");
            assert!(o.candidates.iter().any(|c| c.first == "deva" && c.second == "indra"));
        }
        AnalyzeReply::Declension(_) => panic!("expected a sandhi reply"),
    }
}

#[test]
fn paradigm_without_rules_reports_every_cell() {
    let args = ParadigmArgs { domain: "vyakarana".into(), stem: "deva".into(), stem_type: "a-stem-m".into() };
    let out = paradigm_request(&cache(), "paradigm", args).ok().unwrap();
    assert_eq!(out.cells.len(), 24);
    assert_eq!(out.cells[0].case, "1");
    assert_eq!(out.cells[0].number, "sg");
    assert_eq!(out.cells[23].case, "8");
    assert_eq!(out.cells[23].number, "pl");
    assert!(out.cells.iter().all(|c| c.form.is_none() && c.error.is_some()));
    assert_eq!(paradigm_cells(&cache(), "deva", "a-stem-m").len(), 24);
}

#[test]
fn paradigm_request_checks_domain() {
    let args = ParadigmArgs { domain: "x".into(), stem: "deva".into(), stem_type: "a-stem-m".into() };
    let e = paradigm_request(&cache(), "paradigm", args).err().unwrap();
    let (_, argument, _, received) = invalid_parts(&e);
    assert_eq!(argument, "domain");
    assert_eq!(received, "x");
}

#[test]
fn sutra_index_lists_each_sutra_once() {
    let idx = sutra_index(&cache());
    let names: Vec<&str> = idx.iter().map(|e| e.sutra.as_str()).collect();
    assert_eq!(names, vec!["6.1.101", "6.1.87", "8.2.66"]);
    assert_eq!(idx[1].statement, "ād guṇaḥ");
    assert_eq!(idx[2].templates, vec!["tripadi_rule".to_string()]);
}

#[test]
fn config_defaults() {
    let c = Config::from_settings(None, None, None, None, None);
    assert_eq!(c.vidya_url, None);
    assert_eq!(c.vidya_auth_token, None);
    assert_eq!(c.log_level, "info");
    assert_eq!(c.http_host, "127.0.0.1");
    assert_eq!(c.http_port, 4300);
    let c = Config::from_settings(
        Some("http://x/mcp".into()),
        Some("tok".into()),
        Some("debug".into()),
        Some("0.0.0.0".into()),
        Some("8080".into()),
    );
    assert_eq!(c.vidya_url, Some("http://x/mcp".to_string()));
    assert_eq!(c.vidya_auth_token, Some("tok".to_string()));
    assert_eq!(c.log_level, "debug");
    assert_eq!(c.http_host, "0.0.0.0");
    assert_eq!(c.http_port, 8080);
    assert_eq!(Config::from_settings(None, None, None, None, Some("70000".into())).http_port, 4300);
    assert_eq!(env_or(None, "d"), "d");
}

#[test]
fn port_numbers_parse() {
    assert_eq!(parse_port("4300"), Some(4300));
    assert_eq!(parse_port("0"), Some(0));
    assert_eq!(parse_port("65535"), Some(65535));
    assert_eq!(parse_port("65536"), None);
    assert_eq!(parse_port(""), None);
    assert_eq!(parse_port("80a"), None);
    assert_eq!(parse_port("-1"), None);
}

#[test]
fn verify_tab_runs_checks_of_loaded_templates() {
    let c = cache();
    let reports = verify::run_checks(&c);
    assert_eq!(reports.len(), 2);
    assert_eq!(reports[0].template, "sandhi_rule");
    assert_eq!(reports[1].template, "tripadi_rule");
    let mut s = verify::State::new();
    verify::update(&mut s, verify::Message::Loaded(reports));
    assert!(s.loaded && !s.loading);
    assert_eq!(s.reports.len(), 2);
    let _ = Template::Sandhi;
}

#[test]
fn switching_tabs_loads_once() {
    let mut active = Tab::Paradigm;
    let mut sutras = sutra::State::new();
    let mut checks = verify::State::new();
    assert!(matches!(switch_tab(&mut active, &mut sutras, &mut checks, Tab::Sutras), Load::Sutras));
    assert!(matches!(switch_tab(&mut active, &mut sutras, &mut checks, Tab::Sutras), Load::Nothing));
    assert!(matches!(switch_tab(&mut active, &mut sutras, &mut checks, Tab::Verify), Load::Checks));
    assert!(checks.loading);
    assert!(matches!(switch_tab(&mut active, &mut sutras, &mut checks, Tab::Verify), Load::Nothing));
    assert!(matches!(switch_tab(&mut active, &mut sutras, &mut checks, Tab::Sandhi), Load::Nothing));
    assert!(active == Tab::Sandhi);
}

#[test]
fn sutra_tab_filters_case_insensitively() {
    let mut s = sutra::State::new();
    sutra::update(&mut s, sutra::Message::Loaded(sutra::collect_sutras(&cache())));
    sutra::update(&mut s, sutra::Message::FilterChanged("GUṆ".into()));
    assert_eq!(sutra::visible_sutras(&s), vec![1]);
    sutra::update(&mut s, sutra::Message::FilterChanged(String::new()));
    assert_eq!(sutra::visible_sutras(&s), vec![0, 1, 2]);
}

#[test]
fn sandhi_tab_asks_for_work_only_with_input() {
    let mut s = sandhi_tab::State::new();
    assert!(matches!(sandhi_tab::update(&mut s, sandhi_tab::Message::Join), sandhi_tab::Action::Nothing));
    sandhi_tab::update(&mut s, sandhi_tab::Message::FirstChanged("deva".into()));
    sandhi_tab::update(&mut s, sandhi_tab::Message::SecondChanged("indra".into()));
    match sandhi_tab::update(&mut s, sandhi_tab::Message::Join) {
        sandhi_tab::Action::Join { first, second } => {
            let done = sandhi_tab::join_words(&cache(), first, second);
            sandhi_tab::update(&mut s, sandhi_tab::Message::JoinDone(done));
        }
        _ => panic!("expected a join"),
    }
    assert_eq!(s.join_result.as_ref().unwrap().form, "devendra");
    assert!(s.error.is_none());
    let cands = sandhi_tab::analyze_form(&cache(), "devendra").ok().unwrap();
    assert!(cands.iter().any(|c| c.first == "deva"));
}

#[test]
fn paradigm_tab_generates_with_stem_and_type() {
    let mut s = paradigm::State::new();
    sandhi_free_generate(&mut s);
    assert!(s.computing);
    let cells = paradigm::generate_paradigm(&cache(), "deva", "a-stem-m").ok().unwrap();
    assert_eq!(cells.len(), 24);
    paradigm::update(&mut s, paradigm::Message::ResultReady(Ok(cells)));
    assert!(!s.computing);
    assert_eq!(s.cells.len(), 24);
}

fn sandhi_free_generate(s: &mut paradigm::State) {
    assert!(matches!(paradigm::update(s, paradigm::Message::Generate), paradigm::Action::Nothing));
    paradigm::update(s, paradigm::Message::StemChanged("deva".into()));
    paradigm::update(s, paradigm::Message::StemTypeSelected("a-stem-m".into()));
    match paradigm::update(s, paradigm::Message::Generate) {
        paradigm::Action::Generate { stem, stem_type } => {
            assert_eq!(stem, "deva");
            assert_eq!(stem_type, "a-stem-m");
        }
        _ => panic!("expected generation"),
    }
}

#[test]
fn text_search_finds_substrings() {
    assert!(sutra::text_contains("ād guṇaḥ", "guṇ"));
    assert!(sutra::text_contains("abc", ""));
    assert!(!sutra::text_contains("ab", "abc"));
    assert!(!sutra::text_contains("ād guṇaḥ", "GUṆ"));
}
