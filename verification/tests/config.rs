use learning_core::config::{parse_port, AppConfig};
use learning_core::error::Error;
use learning_core::prompt_registry::{prompt_name, replace, PromptRegistry};
use learning_core::text::char_is_whitespace;

fn vars(pairs: &[(&str, &str)]) -> Vec<(String, String)> {
    pairs.iter().map(|(k, v)| (k.to_string(), v.to_string())).collect()
}

#[test]
fn config_defaults() {
    let c = AppConfig::from_vars(&vars(&[("DATABASE_URL", "postgres://db")])).unwrap();
    assert_eq!(c.database_url, "postgres://db");
    assert_eq!(c.restate_admin_url, "http://localhost:9070");
    assert_eq!(c.restate_ingress_url, "http://localhost:8080");
    assert_eq!(c.server_host, "127.0.0.1");
    assert_eq!(c.server_port, 3000);
    assert_eq!(c.restate_port, 9080);
    assert_eq!(c.ai_provider, "anthropic");
    assert_eq!(c.anthropic_api_key, None);
    assert_eq!(c.rust_log, "info");
    assert_eq!(c.server_addr(), "127.0.0.1:3000");
    assert_eq!(c.restate_addr(), "127.0.0.1:9080");
}

#[test]
fn config_reads_every_variable() {
    let c = AppConfig::from_vars(&vars(&[
        ("SERVER_HOST", "0.0.0.0"),
        ("DATABASE_URL", "postgres://db"),
        ("SERVER_PORT", "+8080"),
        ("RESTATE_PORT", "65535"),
        ("OPENAI_API_KEY", "sk"),
        ("AI_PROVIDER", "openai"),
        ("RUST_LOG", "debug"),
    ]))
    .unwrap();
    assert_eq!(c.server_addr(), "0.0.0.0:8080");
    assert_eq!(c.restate_addr(), "0.0.0.0:65535");
    assert_eq!(c.openai_api_key, Some("sk".to_string()));
    assert_eq!(c.ai_provider, "openai");
    assert_eq!(c.rust_log, "debug");
}

#[test]
fn config_errors() {
    assert_eq!(
        AppConfig::from_vars(&vars(&[("SERVER_PORT", "x")])).unwrap_err(),
        Error::Internal("DATABASE_URL must be set".to_string())
    );
    assert_eq!(
        AppConfig::from_vars(&vars(&[("DATABASE_URL", "d"), ("SERVER_PORT", "70000")])).unwrap_err(),
        Error::Internal("SERVER_PORT must be a valid port number".to_string())
    );
    assert_eq!(
        AppConfig::from_vars(&vars(&[("DATABASE_URL", "d"), ("RESTATE_PORT", "")])).unwrap_err(),
        Error::Internal("RESTATE_PORT must be a valid port number".to_string())
    );
}

#[test]
fn ports_parse_like_u16() {
    for s in ["0", "80", "+80", "0065535", "65536", "", "+", "-1", "8o", " 80", "99999999999999999999"] {
        assert_eq!(parse_port(s), s.parse::<u16>().ok(), "{}", s);
    }
}

fn registry() -> PromptRegistry {
    PromptRegistry::new(vec![
        ("greet".to_string(), "Hello {{name}}, {{name}}! {{other}}".to_string()),
        ("x".to_string(), "first".to_string()),
        ("x".to_string(), "second".to_string()),
    ])
}

#[test]
fn prompt_lookup() {
    let r = registry();
    assert_eq!(r.get("greet").unwrap(), "Hello {{name}}, {{name}}! {{other}}");
    assert_eq!(r.get("x").unwrap(), "second");
    assert_eq!(
        r.get("missing").unwrap_err(),
        Error::Internal("Prompt template not found: missing".to_string())
    );
}

#[test]
fn prompt_render_fills_placeholders() {
    let r = registry();
    assert_eq!(
        r.render("greet", &[("name", "Ada")]).unwrap(),
        "Hello Ada, Ada! {{other}}"
    );
    assert_eq!(
        r.render("greet", &[("name", "{{other}}"), ("other", "B")]).unwrap(),
        "Hello B, B! B"
    );
    assert_eq!(r.render("greet", &[]).unwrap(), "Hello {{name}}, {{name}}! {{other}}");
    assert_eq!(
        r.render("nope", &[("a", "b")]).unwrap_err(),
        Error::Internal("Prompt template not found: nope".to_string())
    );
}

#[test]
fn replace_matches_str_replace() {
    let cases = [("aaa", "aa", "b"), ("abcabc", "bc", ""), ("xyz", "q", "r"), ("", "a", "b")];
    for (s, p, r) in cases {
        let pat: Vec<char> = p.chars().collect();
        assert_eq!(replace(s, &pat, r), s.replace(p, r));
    }
}

#[test]
fn prompt_files_are_markdown_stems() {
    for name in ["curriculum.md", "a.b.md", ".md", "md", "x.txt", "x.", "..md", ".a.md", "notes.MD"] {
        let p = std::path::Path::new(name);
        let expected = if p.extension().and_then(|e| e.to_str()) == Some("md") {
            p.file_stem().and_then(|s| s.to_str()).map(|s| s.to_string())
        } else {
            None
        };
        assert_eq!(prompt_name(name), expected, "{}", name);
    }
    assert_eq!(prompt_name("generate_curriculum.md"), Some("generate_curriculum".to_string()));
}

#[test]
fn whitespace_matches_std() {
    for c in ['\t', '\n', ' ', 'a', '\u{85}', '\u{a0}', '\u{1680}', '\u{2000}', '\u{200b}', '\u{2028}', '\u{3000}', '\u{feff}', '\u{180e}'] {
        assert_eq!(char_is_whitespace(c), c.is_whitespace(), "{:?}", c);
    }
    for u in 0..0x3100u32 {
        if let Some(c) = char::from_u32(u) {
            assert_eq!(char_is_whitespace(c), c.is_whitespace(), "{:?}", c);
        }
    }
}

#[test]
fn registry_from_files_keeps_markdown_templates() {
    let files = vec![
        ("a.md".to_string(), "A {{x}}".to_string()),
        ("b.txt".to_string(), "B".to_string()),
        (".md".to_string(), "C".to_string()),
        ("c.d.md".to_string(), "D".to_string()),
    ];
    let reg = PromptRegistry::from_files(files);
    assert_eq!(reg.get("a").unwrap(), "A {{x}}");
    assert_eq!(reg.get("c.d").unwrap(), "D");
    assert_eq!(reg.render("a", &[("x", "1")]).unwrap(), "A 1");
    for missing in ["b", "b.txt", ".md", "", "a.md"] {
        match reg.get(missing) {
            Err(Error::Internal(m)) => assert_eq!(m, format!("Prompt template not found: {}", missing)),
            other => panic!("unexpected {:?}", other),
        }
    }
}

#[test]
fn registry_from_no_files_is_empty() {
    let reg = PromptRegistry::from_files(Vec::new());
    assert!(reg.get("anything").is_err());
}
