use warthog::utils::config::{parse_u32, Config, ConfigError, EnvVar};

#[test]
fn defaults_without_variables() {
    let c = Config::from_env_values(EnvVar::NotPresent, EnvVar::NotPresent, EnvVar::NotPresent).unwrap();
    assert_eq!(c.database_url, "sqlite://warthog.db");
    assert_eq!(c.block_size, 1024);
    assert_eq!(c.pipe_path, "/tmp/warthog.sock");
}

#[test]
fn values_from_variables() {
    let c = Config::from_env_values(
        EnvVar::Present("sqlite://other.db".to_string()),
        EnvVar::Present("4096".to_string()),
        EnvVar::Present("/run/w.sock".to_string()),
    )
    .unwrap();
    assert_eq!(c.database_url, "sqlite://other.db");
    assert_eq!(c.block_size, 4096);
    assert_eq!(c.pipe_path, "/run/w.sock");
}

#[test]
fn unparsable_block_size_takes_default() {
    let c = Config::from_env_values(
        EnvVar::NotUnicode,
        EnvVar::Present("big".to_string()),
        EnvVar::NotUnicode,
    )
    .unwrap();
    assert_eq!(c.block_size, 1024);
    assert_eq!(c.database_url, "sqlite://warthog.db");
    assert_eq!(c.pipe_path, "/tmp/warthog.sock");
}

#[test]
fn non_unicode_block_size_fails() {
    let r = Config::from_env_values(EnvVar::NotPresent, EnvVar::NotUnicode, EnvVar::NotPresent);
    assert_eq!(r.err(), Some(ConfigError::BlockSizeNotUnicode));
}

#[test]
fn parse_u32_matches_std() {
    for s in ["0", "7", "+5", "-5", "", "+", "4294967295", "4294967296", " 5", "5 ", "0012", "99999999999", "1a", "٣"] {
        assert_eq!(parse_u32(s), s.parse::<u32>().ok(), "parsing {:?}", s);
    }
}
