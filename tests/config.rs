use ha_lint::config::{resolve_config, Args, ConfigFile};

fn s(x: &str) -> Option<String> {
    Some(x.to_string())
}

#[test]
fn cli_wins_over_file() {
    let args = Args { format: s("json"), ..Args::default() };
    let file = ConfigFile { format: s("text"), ..ConfigFile::default() };
    let cfg = resolve_config(&args, &Some(file));
    assert_eq!(cfg.format, "json");
}

#[test]
fn file_wins_over_default() {
    let args = Args::default();
    let file = ConfigFile { profile: s("embedded"), ..ConfigFile::default() };
    let cfg = resolve_config(&args, &Some(file));
    assert_eq!(cfg.profile, "embedded");
    assert_eq!(cfg.format, "text");
    assert_eq!(cfg.deny, "error");
}

#[test]
fn defaults_when_nothing_given() {
    let cfg = resolve_config(&Args::default(), &None);
    assert_eq!(cfg.profile, "high_assurance");
    assert_eq!(cfg.format, "text");
    assert_eq!(cfg.deny, "error");
    let cfg = resolve_config(&Args::default(), &Some(ConfigFile::default()));
    assert_eq!(cfg.profile, "high_assurance");
    assert_eq!(cfg.format, "text");
    assert_eq!(cfg.deny, "error");
}

#[test]
fn fields_resolve_independently() {
    let args = Args { format: s("sarif"), ..Args::default() };
    let file = ConfigFile { profile: s("security"), format: s("json"), deny: s("note") };
    let cfg = resolve_config(&args, &Some(file));
    assert_eq!(cfg.profile, "security");
    assert_eq!(cfg.format, "sarif");
    assert_eq!(cfg.deny, "note");
}

#[test]
fn config_file_keys() {
    let c = ha_lint::config::parse_config("ha-lint.toml", "profile = \"embedded\"\nformat = \"json\"\n").unwrap();
    assert_eq!(c.profile, s("embedded"));
    assert_eq!(c.format, s("json"));
    assert_eq!(c.deny, None);
}

#[test]
fn config_file_unknown_keys_ignored() {
    let c = ha_lint::config::parse_config("c.toml", "deny = \"warn\"\nextra = 3\n[table]\nx = 1\n").unwrap();
    assert_eq!(c.deny, s("warn"));
    assert_eq!(c.profile, None);
    let c = ha_lint::config::parse_config("c.toml", "").unwrap();
    assert_eq!(c.format, None);
}

#[test]
fn config_file_malformed() {
    use_err("c.toml", "profile = ");
    use_err("c.toml", "profile = 3\n");
    use_err("c.toml", "format = [\"json\"]\n");
}

fn use_err(path: &str, text: &str) {
    assert_eq!(
        ha_lint::config::parse_config(path, text).unwrap_err(),
        ha_lint::run::LintError::ConfigParse(path.to_string())
    );
}

#[test]
fn config_file_then_cli() {
    let file = ha_lint::config::parse_config("c.toml", "profile = \"embedded\"\nformat = \"text\"\n").unwrap();
    let args = Args { format: s("json"), ..Args::default() };
    let cfg = resolve_config(&args, &Some(file));
    assert_eq!(cfg.profile, "embedded");
    assert_eq!(cfg.format, "json");
    assert_eq!(cfg.deny, "error");
}
