use dabovanie_videi_v2::config::{AppConfig, RocmConfig};
use dabovanie_videi_v2::env_map::EnvMap;
use dabovanie_videi_v2::error::ConfigError;

#[test]
fn default_configuration_is_valid() {
    let config = AppConfig::default();
    assert!(config.validate().is_ok());
    assert_eq!(
        config.python.whisper_sk.python_path(),
        "venvs/whisper-sk/bin/python".to_owned()
    );
}

#[test]
fn rocm_environment_contains_only_configured_values() {
    let mut config = RocmConfig::default();
    config.rocm_home = Some("/opt/rocm".to_owned());
    config.hip_visible_devices = Some("0".to_owned());

    let environment = config.environment();
    assert_eq!(environment.get("ROCM_HOME"), Some(&"/opt/rocm".to_owned()));
    assert_eq!(environment.get("ROCM_PATH"), Some(&"/opt/rocm".to_owned()));
    assert_eq!(
        environment.get("HIP_VISIBLE_DEVICES"),
        Some(&"0".to_owned())
    );
}

fn invalid_field(result: Result<(), ConfigError>) -> (String, String) {
    match result {
        Err(ConfigError::InvalidField { field, message }) => (field, message),
        other => panic!("expected an invalid field, got {:?}", other),
    }
}

#[test]
fn rocm_environment_has_only_configured_keys() {
    let mut config = RocmConfig::default();
    config.rocm_home = Some("/opt/rocm".to_owned());
    let environment = config.environment();
    assert_eq!(environment.len(), 2);
    assert!(environment.get("HIP_VISIBLE_DEVICES").is_none());
    assert!(environment.get("HSA_OVERRIDE_GFX_VERSION").is_none());
}

#[test]
fn extra_rocm_path_is_kept() {
    let mut config = RocmConfig::default();
    let mut extra = EnvMap::new();
    extra.insert("ROCM_PATH".to_owned(), "/custom".to_owned());
    config.extra_environment = extra;
    config.rocm_home = Some("/opt/rocm".to_owned());
    config.hsa_override_gfx_version = Some("11.0.0".to_owned());
    let environment = config.environment();
    assert_eq!(environment.get("ROCM_HOME"), Some(&"/opt/rocm".to_owned()));
    assert_eq!(environment.get("ROCM_PATH"), Some(&"/custom".to_owned()));
    assert_eq!(
        environment.get("HSA_OVERRIDE_GFX_VERSION"),
        Some(&"11.0.0".to_owned())
    );
}

#[test]
fn disabled_rocm_passes_only_extra_environment() {
    let mut config = RocmConfig::default();
    config.enabled = false;
    config.rocm_home = Some("/opt/rocm".to_owned());
    let mut extra = EnvMap::new();
    extra.insert("MIOPEN_DEBUG".to_owned(), "1".to_owned());
    config.extra_environment = extra;
    let environment = config.environment();
    assert_eq!(environment.len(), 1);
    assert_eq!(environment.get("MIOPEN_DEBUG"), Some(&"1".to_owned()));
    assert!(environment.get("ROCM_HOME").is_none());
}

#[test]
fn empty_path_is_reported_with_its_field() {
    let mut config = AppConfig::default();
    config.paths.temp_dir = String::new();
    let (field, message) = invalid_field(config.validate());
    assert_eq!(field, "paths.temp_dir");
    assert_eq!(message, "cesta nesmie byť prázdna");
}

#[test]
fn blank_model_is_reported_before_later_sections() {
    let mut config = AppConfig::default();
    config.models.whisper_sk = " \t ".to_owned();
    config.paths.temp_dir = String::new();
    let (field, message) = invalid_field(config.validate());
    assert_eq!(field, "models.whisper_sk");
    assert_eq!(message, "hodnota nesmie byť prázdna");
}

#[test]
fn zero_chunk_length_is_invalid() {
    let mut config = AppConfig::default();
    config.pipeline.max_tts_chars = 0;
    let (field, message) = invalid_field(config.validate());
    assert_eq!(field, "pipeline.max_tts_chars");
    assert_eq!(message, "musí byť väčšie ako nula");
}

#[test]
fn empty_executable_names_its_venv() {
    let mut config = AppConfig::default();
    config.python.translation.executable = Some(String::new());
    let (field, _) = invalid_field(config.validate());
    assert_eq!(field, "python.translation.executable");
}

#[test]
fn extra_environment_is_checked_in_key_order() {
    let mut config = AppConfig::default();
    let mut extra = EnvMap::new();
    extra.insert("ZETA".to_owned(), " ".to_owned());
    extra.insert("ALPHA".to_owned(), "".to_owned());
    config.rocm.extra_environment = extra;
    let (field, message) = invalid_field(config.validate());
    assert_eq!(field, "rocm.extra_environment.ALPHA");
    assert_eq!(message, "hodnota nesmie byť prázdna");
}

#[test]
fn config_error_text() {
    let error = ConfigError::invalid("paths.temp_dir", "cesta nesmie byť prázdna");
    assert_eq!(
        error.message(),
        "neplatná hodnota konfigurácie `paths.temp_dir`: cesta nesmie byť prázdna"
    );
    let read = ConfigError::Read {
        path: "config.toml".to_owned(),
        source: "not found".to_owned(),
    };
    assert_eq!(
        read.message(),
        "konfiguračný súbor `config.toml` sa nepodarilo načítať: not found"
    );
}

#[test]
fn relative_paths_resolve_against_base() {
    let mut config = AppConfig::default();
    config.paths.ffprobe_binary = "bin/ffprobe".to_owned();
    config.scripts.tts = "/opt/tts.py".to_owned();
    config.rocm.rocm_home = Some("rocm".to_owned());
    let resolved = config.resolve_relative_to("/srv/app");
    assert_eq!(resolved.paths.working_dir, "/srv/app/work");
    assert_eq!(resolved.paths.temp_dir, "/srv/app/work/tmp");
    assert_eq!(resolved.paths.ffmpeg_binary, "ffmpeg");
    assert_eq!(resolved.paths.ffprobe_binary, "/srv/app/bin/ffprobe");
    assert_eq!(resolved.scripts.tts, "/opt/tts.py");
    assert_eq!(resolved.python.whisper_sk.path, "/srv/app/venvs/whisper-sk");
    assert_eq!(resolved.models.latentsync, "/srv/app/models/latentsync");
    assert_eq!(resolved.models.whisper_sk, "NaiveNeuron/whisper-large-v3-sk");
    assert_eq!(resolved.rocm.rocm_home, Some("/srv/app/rocm".to_owned()));
    assert!(resolved.validate().is_ok());
}

#[test]
fn resolving_twice_against_an_absolute_base_changes_nothing() {
    let config = AppConfig::default();
    let once = config.resolve_relative_to("/srv/app/");
    let twice = once.resolve_relative_to("/srv/app/");
    assert_eq!(once.paths.working_dir, "/srv/app/work");
    assert_eq!(twice.paths.working_dir, once.paths.working_dir);
    assert_eq!(twice.paths.ffmpeg_binary, once.paths.ffmpeg_binary);
    assert_eq!(twice.scripts.whisper, once.scripts.whisper);
    assert_eq!(twice.python.latentsync.path, once.python.latentsync.path);
}

#[test]
fn a_resolved_configuration_ignores_any_later_base() {
    let config = AppConfig::default();
    let once = config.resolve_relative_to("/srv/app/");
    let again = once.resolve_relative_to("other/place");
    assert_eq!(again.paths.working_dir, once.paths.working_dir);
    assert_eq!(again.paths.temp_dir, once.paths.temp_dir);
    assert_eq!(again.paths.ffmpeg_binary, once.paths.ffmpeg_binary);
    assert_eq!(again.scripts.tts, once.scripts.tts);
    assert_eq!(again.models.latentsync, once.models.latentsync);
    assert_eq!(again.python.whisper_sk.path, once.python.whisper_sk.path);
}

#[test]
fn explicit_interpreter_wins() {
    let mut config = AppConfig::default();
    config.python.coqui_xtts.executable = Some("/usr/bin/python3".to_owned());
    assert_eq!(config.python.coqui_xtts.python_path(), "/usr/bin/python3");
}
