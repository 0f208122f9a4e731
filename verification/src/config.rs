//! The application configuration: its sections, their defaults, the
//! validation rules, and the resolution of relative paths.
use crate::env_map::EnvMap;
use crate::error::{join2, ConfigError};
use crate::path::{component_count, is_absolute, is_absolute_path, join, join_path, path_components};
use crate::text::{clone_option_string, is_blank, is_blank_str, is_whitespace_char};
use vstd::prelude::*;

verus! {

/// One validation rule applied to one field: whether it holds, the field's
/// name, and the message reported when it does not.
pub struct FieldCheck {
    pub ok: bool,
    pub field: Seq<char>,
    pub message: Seq<char>,
}

pub open spec fn empty_path_message() -> Seq<char> {
    "cesta nesmie byť prázdna"@
}

pub open spec fn empty_value_message() -> Seq<char> {
    "hodnota nesmie byť prázdna"@
}

pub open spec fn positive_message() -> Seq<char> {
    "musí byť väčšie ako nula"@
}

/// A path must not be empty.
pub open spec fn path_check(field: Seq<char>, p: Seq<char>) -> FieldCheck {
    FieldCheck { ok: p.len() > 0, field, message: empty_path_message() }
}

/// A value must not be blank.
pub open spec fn value_check(field: Seq<char>, v: Seq<char>) -> FieldCheck {
    FieldCheck { ok: !is_blank(v), field, message: empty_value_message() }
}

/// The check `c` when it fails, otherwise the first failure of the rest.
pub open spec fn first_of(c: FieldCheck, rest: Option<FieldCheck>) -> Option<FieldCheck> {
    if !c.ok {
        Some(c)
    } else {
        rest
    }
}

pub open spec fn either(a: Option<FieldCheck>, b: Option<FieldCheck>) -> Option<FieldCheck> {
    if a is Some {
        a
    } else {
        b
    }
}

/// `r` reports the first failed check: `Ok` when there is none, otherwise
/// an invalid-field error with that check's field and message.
pub open spec fn reports(r: Result<(), ConfigError>, failure: Option<FieldCheck>) -> bool {
    match failure {
        None => r is Ok,
        Some(c) => r matches Err(ConfigError::InvalidField { field, message }) && field@ == c.field
            && message@ == c.message,
    }
}

pub open spec fn resolve_path_spec(base: Seq<char>, p: Seq<char>) -> Seq<char> {
    if is_absolute_path(p) {
        p
    } else {
        join_path(base, p)
    }
}

/// A binary is either a path or a bare name looked up in `PATH`; bare
/// names (one component) and absolute paths are kept as they are.
pub open spec fn resolve_command_spec(base: Seq<char>, c: Seq<char>) -> Seq<char> {
    if is_absolute_path(c) || path_components(c).len() <= 1 {
        c
    } else {
        join_path(base, c)
    }
}

pub open spec fn resolve_opt_spec(base: Seq<char>, p: Option<String>) -> Option<Seq<char>> {
    match p {
        Some(x) => Some(resolve_path_spec(base, x@)),
        None => None,
    }
}

pub open spec fn opt_view(p: Option<String>) -> Option<Seq<char>> {
    match p {
        Some(x) => Some(x@),
        None => None,
    }
}

fn resolve_path(base: &str, path: &str) -> (r: String)
    ensures
        r@ == resolve_path_spec(base@, path@),
{
    if is_absolute(path) {
        String::from_str(path)
    } else {
        join(base, path)
    }
}

fn resolve_command(base: &str, command: &str) -> (r: String)
    ensures
        r@ == resolve_command_spec(base@, command@),
{
    if is_absolute(command) || component_count(command) <= 1 {
        String::from_str(command)
    } else {
        join(base, command)
    }
}

fn resolve_option(base: &str, p: &Option<String>) -> (r: Option<String>)
    ensures
        opt_view(r) == resolve_opt_spec(base@, *p),
{
    match p {
        Some(x) => Some(resolve_path(base, x.as_str())),
        None => None,
    }
}

fn validate_path(field: &str, path: &str) -> (r: Result<(), ConfigError>)
    ensures
        reports(r, first_of(path_check(field@, path@), None)),
{
    if path.is_empty() {
        return Err(ConfigError::invalid(field, "cesta nesmie byť prázdna"));
    }
    Ok(())
}

fn validate_string(field: &str, value: &str) -> (r: Result<(), ConfigError>)
    ensures
        reports(r, first_of(value_check(field@, value@), None)),
{
    if is_blank_str(value) {
        return Err(ConfigError::invalid(field, "hodnota nesmie byť prázdna"));
    }
    Ok(())
}

/// Path of one module's isolated Python virtual environment.
#[derive(Debug)]
pub struct PythonVenv {
    pub path: String,
    /// Optional explicit interpreter; `<venv>/bin/python` when absent.
    pub executable: Option<String>,
}

impl Default for PythonVenv {
    fn default() -> (v: Self)
        ensures
            v.path@ == "venv"@,
            v.executable is None,
    {
        PythonVenv { path: String::from_str("venv"), executable: None }
    }
}

impl PythonVenv {
    pub open spec fn python_path_spec(&self) -> Seq<char> {
        match self.executable {
            Some(e) => e@,
            None => join_path(join_path(self.path@, "bin"@), "python"@),
        }
    }

    pub open spec fn failure(&self, field: Seq<char>) -> Option<FieldCheck> {
        first_of(
            path_check(field, self.path@),
            match self.executable {
                Some(e) => first_of(path_check(field + ".executable"@, e@), None),
                None => None,
            },
        )
    }

    pub open spec fn resolved(&self, base: Seq<char>, r: PythonVenv) -> bool {
        &&& r.path@ == resolve_path_spec(base, self.path@)
        &&& opt_view(r.executable) == resolve_opt_spec(base, self.executable)
    }

    pub open spec fn same(&self, o: PythonVenv) -> bool {
        self.path@ == o.path@ && opt_view(self.executable) == opt_view(o.executable)
    }

    /// The interpreter of this environment.
    pub fn python_path(&self) -> (p: String)
        ensures
            p@ == self.python_path_spec(),
    {
        match &self.executable {
            Some(e) => e.clone(),
            None => {
                let bin = join(self.path.as_str(), "bin");
                join(bin.as_str(), "python")
            },
        }
    }

    fn validate(&self, field: &str) -> (r: Result<(), ConfigError>)
        ensures
            reports(r, self.failure(field@)),
    {
        validate_path(field, self.path.as_str())?;
        if let Some(executable) = &self.executable {
            let name = join2(field, ".executable");
            validate_path(name.as_str(), executable.as_str())?;
        }
        Ok(())
    }

    fn resolve_relative_to(&self, base: &str) -> (r: Self)
        ensures
            self.resolved(base@, r),
    {
        PythonVenv {
            path: resolve_path(base, self.path.as_str()),
            executable: resolve_option(base, &self.executable),
        }
    }
}

/// One virtual environment per Python module.
#[derive(Debug)]
pub struct PythonEnvironments {
    pub whisper_sk: PythonVenv,
    pub translation: PythonVenv,
    pub coqui_xtts: PythonVenv,
    pub latentsync: PythonVenv,
}

impl Default for PythonEnvironments {
    fn default() -> (e: Self)
        ensures
            e.is_default(),
    {
        PythonEnvironments {
            whisper_sk: PythonVenv { path: String::from_str("venvs/whisper-sk"), executable: None },
            translation: PythonVenv { path: String::from_str("venvs/translation"), executable: None },
            coqui_xtts: PythonVenv { path: String::from_str("venvs/coqui-xtts"), executable: None },
            latentsync: PythonVenv { path: String::from_str("venvs/latentsync"), executable: None },
        }
    }
}

impl PythonEnvironments {
    pub open spec fn is_default(&self) -> bool {
        &&& self.whisper_sk.path@ == "venvs/whisper-sk"@
        &&& self.translation.path@ == "venvs/translation"@
        &&& self.coqui_xtts.path@ == "venvs/coqui-xtts"@
        &&& self.latentsync.path@ == "venvs/latentsync"@
        &&& self.whisper_sk.executable is None
        &&& self.translation.executable is None
        &&& self.coqui_xtts.executable is None
        &&& self.latentsync.executable is None
    }

    pub open spec fn failure(&self) -> Option<FieldCheck> {
        either(
            self.whisper_sk.failure("python.whisper_sk"@),
            either(
                self.translation.failure("python.translation"@),
                either(
                    self.coqui_xtts.failure("python.coqui_xtts"@),
                    self.latentsync.failure("python.latentsync"@),
                ),
            ),
        )
    }

    pub open spec fn resolved(&self, base: Seq<char>, r: PythonEnvironments) -> bool {
        &&& self.whisper_sk.resolved(base, r.whisper_sk)
        &&& self.translation.resolved(base, r.translation)
        &&& self.coqui_xtts.resolved(base, r.coqui_xtts)
        &&& self.latentsync.resolved(base, r.latentsync)
    }

    pub open spec fn same(&self, o: PythonEnvironments) -> bool {
        &&& self.whisper_sk.same(o.whisper_sk)
        &&& self.translation.same(o.translation)
        &&& self.coqui_xtts.same(o.coqui_xtts)
        &&& self.latentsync.same(o.latentsync)
    }

    fn validate(&self) -> (r: Result<(), ConfigError>)
        ensures
            reports(r, self.failure()),
    {
        self.whisper_sk.validate("python.whisper_sk")?;
        self.translation.validate("python.translation")?;
        self.coqui_xtts.validate("python.coqui_xtts")?;
        self.latentsync.validate("python.latentsync")?;
        Ok(())
    }

    fn resolve_relative_to(&self, base: &str) -> (r: Self)
        ensures
            self.resolved(base@, r),
    {
        PythonEnvironments {
            whisper_sk: self.whisper_sk.resolve_relative_to(base),
            translation: self.translation.resolve_relative_to(base),
            coqui_xtts: self.coqui_xtts.resolve_relative_to(base),
            latentsync: self.latentsync.resolve_relative_to(base),
        }
    }
}

/// Model identifiers or local paths.
#[derive(Debug)]
pub struct ModelsConfig {
    pub whisper_sk: String,
    pub nllb_200: String,
    pub xtts_v2: String,
    pub latentsync: String,
}

impl Default for ModelsConfig {
    fn default() -> (m: Self)
        ensures
            m.is_default(),
    {
        ModelsConfig {
            whisper_sk: String::from_str("NaiveNeuron/whisper-large-v3-sk"),
            nllb_200: String::from_str("facebook/nllb-200-distilled-600M"),
            xtts_v2: String::from_str("tts_models/multilingual/multi-dataset/xtts_v2"),
            latentsync: String::from_str("models/latentsync"),
        }
    }
}

impl ModelsConfig {
    pub open spec fn is_default(&self) -> bool {
        &&& self.whisper_sk@ == "NaiveNeuron/whisper-large-v3-sk"@
        &&& self.nllb_200@ == "facebook/nllb-200-distilled-600M"@
        &&& self.xtts_v2@ == "tts_models/multilingual/multi-dataset/xtts_v2"@
        &&& self.latentsync@ == "models/latentsync"@
    }

    pub open spec fn failure(&self) -> Option<FieldCheck> {
        first_of(
            value_check("models.whisper_sk"@, self.whisper_sk@),
            first_of(
                value_check("models.nllb_200"@, self.nllb_200@),
                first_of(
                    value_check("models.xtts_v2"@, self.xtts_v2@),
                    first_of(path_check("models.latentsync"@, self.latentsync@), None),
                ),
            ),
        )
    }

    pub open spec fn resolved(&self, base: Seq<char>, r: ModelsConfig) -> bool {
        &&& r.whisper_sk@ == self.whisper_sk@
        &&& r.nllb_200@ == self.nllb_200@
        &&& r.xtts_v2@ == self.xtts_v2@
        &&& r.latentsync@ == resolve_path_spec(base, self.latentsync@)
    }

    pub open spec fn same(&self, o: ModelsConfig) -> bool {
        &&& o.whisper_sk@ == self.whisper_sk@
        &&& o.nllb_200@ == self.nllb_200@
        &&& o.xtts_v2@ == self.xtts_v2@
        &&& o.latentsync@ == self.latentsync@
    }

    fn validate(&self) -> (r: Result<(), ConfigError>)
        ensures
            reports(r, self.failure()),
    {
        validate_string("models.whisper_sk", self.whisper_sk.as_str())?;
        validate_string("models.nllb_200", self.nllb_200.as_str())?;
        validate_string("models.xtts_v2", self.xtts_v2.as_str())?;
        validate_path("models.latentsync", self.latentsync.as_str())?;
        Ok(())
    }

    fn resolve_relative_to(&self, base: &str) -> (r: Self)
        ensures
            self.resolved(base@, r),
    {
        ModelsConfig {
            whisper_sk: self.whisper_sk.clone(),
            nllb_200: self.nllb_200.clone(),
            xtts_v2: self.xtts_v2.clone(),
            latentsync: resolve_path(base, self.latentsync.as_str()),
        }
    }
}

/// Paths of inputs, outputs, caches and outside binaries.
#[derive(Debug)]
pub struct PathsConfig {
    pub working_dir: String,
    pub temp_dir: String,
    pub output_dir: String,
    pub ffmpeg_binary: String,
    pub ffprobe_binary: String,
}

impl Default for PathsConfig {
    fn default() -> (p: Self)
        ensures
            p.is_default(),
    {
        PathsConfig {
            working_dir: String::from_str("work"),
            temp_dir: String::from_str("work/tmp"),
            output_dir: String::from_str("output"),
            ffmpeg_binary: String::from_str("ffmpeg"),
            ffprobe_binary: String::from_str("ffprobe"),
        }
    }
}

impl PathsConfig {
    pub open spec fn is_default(&self) -> bool {
        &&& self.working_dir@ == "work"@
        &&& self.temp_dir@ == "work/tmp"@
        &&& self.output_dir@ == "output"@
        &&& self.ffmpeg_binary@ == "ffmpeg"@
        &&& self.ffprobe_binary@ == "ffprobe"@
    }

    pub open spec fn failure(&self) -> Option<FieldCheck> {
        first_of(
            path_check("paths.working_dir"@, self.working_dir@),
            first_of(
                path_check("paths.temp_dir"@, self.temp_dir@),
                first_of(
                    path_check("paths.output_dir"@, self.output_dir@),
                    first_of(
                        path_check("paths.ffmpeg_binary"@, self.ffmpeg_binary@),
                        first_of(path_check("paths.ffprobe_binary"@, self.ffprobe_binary@), None),
                    ),
                ),
            ),
        )
    }

    pub open spec fn resolved(&self, base: Seq<char>, r: PathsConfig) -> bool {
        &&& r.working_dir@ == resolve_path_spec(base, self.working_dir@)
        &&& r.temp_dir@ == resolve_path_spec(base, self.temp_dir@)
        &&& r.output_dir@ == resolve_path_spec(base, self.output_dir@)
        &&& r.ffmpeg_binary@ == resolve_command_spec(base, self.ffmpeg_binary@)
        &&& r.ffprobe_binary@ == resolve_command_spec(base, self.ffprobe_binary@)
    }

    pub open spec fn same(&self, o: PathsConfig) -> bool {
        &&& o.working_dir@ == self.working_dir@
        &&& o.temp_dir@ == self.temp_dir@
        &&& o.output_dir@ == self.output_dir@
        &&& o.ffmpeg_binary@ == self.ffmpeg_binary@
        &&& o.ffprobe_binary@ == self.ffprobe_binary@
    }

    fn validate(&self) -> (r: Result<(), ConfigError>)
        ensures
            reports(r, self.failure()),
    {
        validate_path("paths.working_dir", self.working_dir.as_str())?;
        validate_path("paths.temp_dir", self.temp_dir.as_str())?;
        validate_path("paths.output_dir", self.output_dir.as_str())?;
        validate_path("paths.ffmpeg_binary", self.ffmpeg_binary.as_str())?;
        validate_path("paths.ffprobe_binary", self.ffprobe_binary.as_str())?;
        Ok(())
    }

    fn resolve_relative_to(&self, base: &str) -> (r: Self)
        ensures
            self.resolved(base@, r),
    {
        PathsConfig {
            working_dir: resolve_path(base, self.working_dir.as_str()),
            temp_dir: resolve_path(base, self.temp_dir.as_str()),
            output_dir: resolve_path(base, self.output_dir.as_str()),
            ffmpeg_binary: resolve_command(base, self.ffmpeg_binary.as_str()),
            ffprobe_binary: resolve_command(base, self.ffprobe_binary.as_str()),
        }
    }
}

/// Python entry points of the modules; each one runs in its own
/// interpreter from `PythonEnvironments`.
#[derive(Debug)]
pub struct ScriptsConfig {
    pub whisper: String,
    pub translation: String,
    pub tts: String,
    pub latentsync: String,
}

impl Default for ScriptsConfig {
    fn default() -> (s: Self)
        ensures
            s.is_default(),
    {
        ScriptsConfig {
            whisper: String::from_str("scripts/whisper_sk.py"),
            translation: String::from_str("scripts/translate_nllb.py"),
            tts: String::from_str("scripts/synthesize_xtts.py"),
            latentsync: String::from_str("scripts/latentsync.py"),
        }
    }
}

impl ScriptsConfig {
    pub open spec fn is_default(&self) -> bool {
        &&& self.whisper@ == "scripts/whisper_sk.py"@
        &&& self.translation@ == "scripts/translate_nllb.py"@
        &&& self.tts@ == "scripts/synthesize_xtts.py"@
        &&& self.latentsync@ == "scripts/latentsync.py"@
    }

    pub open spec fn failure(&self) -> Option<FieldCheck> {
        first_of(
            path_check("scripts.whisper"@, self.whisper@),
            first_of(
                path_check("scripts.translation"@, self.translation@),
                first_of(
                    path_check("scripts.tts"@, self.tts@),
                    first_of(path_check("scripts.latentsync"@, self.latentsync@), None),
                ),
            ),
        )
    }

    pub open spec fn resolved(&self, base: Seq<char>, r: ScriptsConfig) -> bool {
        &&& r.whisper@ == resolve_path_spec(base, self.whisper@)
        &&& r.translation@ == resolve_path_spec(base, self.translation@)
        &&& r.tts@ == resolve_path_spec(base, self.tts@)
        &&& r.latentsync@ == resolve_path_spec(base, self.latentsync@)
    }

    pub open spec fn same(&self, o: ScriptsConfig) -> bool {
        &&& o.whisper@ == self.whisper@
        &&& o.translation@ == self.translation@
        &&& o.tts@ == self.tts@
        &&& o.latentsync@ == self.latentsync@
    }

    fn validate(&self) -> (r: Result<(), ConfigError>)
        ensures
            reports(r, self.failure()),
    {
        validate_path("scripts.whisper", self.whisper.as_str())?;
        validate_path("scripts.translation", self.translation.as_str())?;
        validate_path("scripts.tts", self.tts.as_str())?;
        validate_path("scripts.latentsync", self.latentsync.as_str())?;
        Ok(())
    }

    fn resolve_relative_to(&self, base: &str) -> (r: Self)
        ensures
            self.resolved(base@, r),
    {
        ScriptsConfig {
            whisper: resolve_path(base, self.whisper.as_str()),
            translation: resolve_path(base, self.translation.as_str()),
            tts: resolve_path(base, self.tts.as_str()),
            latentsync: resolve_path(base, self.latentsync.as_str()),
        }
    }
}

/// The first failed check among the extra environment entries from
/// position `i` on, in key order: first the key, then its value.
pub open spec fn extra_environment_failure(pairs: Seq<(Seq<char>, Seq<char>)>, i: int) -> Option<
    FieldCheck,
>
    decreases pairs.len() - i,
{
    if i < 0 || i >= pairs.len() {
        None
    } else {
        first_of(
            value_check("rocm.extra_environment key"@, pairs[i].0),
            first_of(
                value_check("rocm.extra_environment."@ + pairs[i].0, pairs[i].1),
                extra_environment_failure(pairs, i + 1),
            ),
        )
    }
}

/// AMD ROCm settings handed to the environment of the subprocesses.
#[derive(Debug)]
pub struct RocmConfig {
    pub enabled: bool,
    pub rocm_home: Option<String>,
    pub hip_visible_devices: Option<String>,
    pub hsa_override_gfx_version: Option<String>,
    pub extra_environment: EnvMap,
}

impl Default for RocmConfig {
    fn default() -> (r: Self)
        ensures
            r.is_default(),
    {
        RocmConfig {
            enabled: true,
            rocm_home: None,
            hip_visible_devices: None,
            hsa_override_gfx_version: None,
            extra_environment: EnvMap::new(),
        }
    }
}

/// The environment that a ROCm configuration hands to subprocesses: the
/// extra entries, and when ROCm is enabled, `ROCM_HOME` (and `ROCM_PATH`
/// unless an extra entry sets it), `HIP_VISIBLE_DEVICES` and
/// `HSA_OVERRIDE_GFX_VERSION` for the values that are configured.
pub open spec fn rocm_environment(r: RocmConfig) -> Map<Seq<char>, Seq<char>> {
    let m0 = r.extra_environment@;
    if !r.enabled {
        m0
    } else {
        let m1 = match r.rocm_home {
            Some(h) => {
                let a = m0.insert("ROCM_HOME"@, h@);
                if a.contains_key("ROCM_PATH"@) {
                    a
                } else {
                    a.insert("ROCM_PATH"@, h@)
                }
            },
            None => m0,
        };
        let m2 = match r.hip_visible_devices {
            Some(d) => m1.insert("HIP_VISIBLE_DEVICES"@, d@),
            None => m1,
        };
        match r.hsa_override_gfx_version {
            Some(g) => m2.insert("HSA_OVERRIDE_GFX_VERSION"@, g@),
            None => m2,
        }
    }
}

impl RocmConfig {
    pub open spec fn is_default(&self) -> bool {
        &&& self.enabled
        &&& self.rocm_home is None
        &&& self.hip_visible_devices is None
        &&& self.hsa_override_gfx_version is None
        &&& self.extra_environment@ == Map::<Seq<char>, Seq<char>>::empty()
        &&& self.extra_environment.pairs() == Seq::<(Seq<char>, Seq<char>)>::empty()
    }

    pub open spec fn failure(&self) -> Option<FieldCheck> {
        either(
            match self.rocm_home {
                Some(h) => first_of(path_check("rocm.rocm_home"@, h@), None),
                None => None,
            },
            either(
                match self.hip_visible_devices {
                    Some(d) => first_of(value_check("rocm.hip_visible_devices"@, d@), None),
                    None => None,
                },
                either(
                    match self.hsa_override_gfx_version {
                        Some(g) => first_of(value_check("rocm.hsa_override_gfx_version"@, g@), None),
                        None => None,
                    },
                    extra_environment_failure(self.extra_environment.pairs(), 0),
                ),
            ),
        )
    }

    pub open spec fn resolved(&self, base: Seq<char>, r: RocmConfig) -> bool {
        &&& r.enabled == self.enabled
        &&& opt_view(r.rocm_home) == resolve_opt_spec(base, self.rocm_home)
        &&& r.hip_visible_devices == self.hip_visible_devices
        &&& r.hsa_override_gfx_version == self.hsa_override_gfx_version
        &&& r.extra_environment@ == self.extra_environment@
        &&& r.extra_environment.pairs() == self.extra_environment.pairs()
    }

    pub open spec fn same(&self, o: RocmConfig) -> bool {
        &&& o.enabled == self.enabled
        &&& opt_view(o.rocm_home) == opt_view(self.rocm_home)
        &&& opt_view(o.hip_visible_devices) == opt_view(self.hip_visible_devices)
        &&& opt_view(o.hsa_override_gfx_version) == opt_view(self.hsa_override_gfx_version)
        &&& o.extra_environment@ == self.extra_environment@
        &&& o.extra_environment.pairs() == self.extra_environment.pairs()
    }

    /// The environment variables for Python and FFmpeg subprocesses.
    pub fn environment(&self) -> (m: EnvMap)
        ensures
            m@ == rocm_environment(*self),
    {
        let mut environment = self.extra_environment.duplicate();
        if !self.enabled {
            return environment;
        }
        if let Some(rocm_home) = &self.rocm_home {
            environment.insert(String::from_str("ROCM_HOME"), rocm_home.clone());
            environment.insert_if_absent(String::from_str("ROCM_PATH"), rocm_home.clone());
        }
        if let Some(devices) = &self.hip_visible_devices {
            environment.insert(String::from_str("HIP_VISIBLE_DEVICES"), devices.clone());
        }
        if let Some(gfx_version) = &self.hsa_override_gfx_version {
            environment.insert(String::from_str("HSA_OVERRIDE_GFX_VERSION"), gfx_version.clone());
        }
        environment
    }

    fn validate(&self) -> (r: Result<(), ConfigError>)
        ensures
            reports(r, self.failure()),
    {
        if let Some(rocm_home) = &self.rocm_home {
            validate_path("rocm.rocm_home", rocm_home.as_str())?;
        }
        if let Some(devices) = &self.hip_visible_devices {
            validate_string("rocm.hip_visible_devices", devices.as_str())?;
        }
        if let Some(gfx_version) = &self.hsa_override_gfx_version {
            validate_string("rocm.hsa_override_gfx_version", gfx_version.as_str())?;
        }
        let n = self.extra_environment.len();
        let ghost pairs = self.extra_environment.pairs();
        let mut i: usize = 0;
        while i < n
            invariant
                i <= n == pairs.len(),
                pairs == self.extra_environment.pairs(),
                self.failure() == extra_environment_failure(pairs, i as int),
            decreases n - i,
        {
            let key = self.extra_environment.key_at(i);
            let value = self.extra_environment.value_at(i);
            validate_string("rocm.extra_environment key", key.as_str())?;
            let name = join2("rocm.extra_environment.", key.as_str());
            validate_string(name.as_str(), value.as_str())?;
            i = i + 1;
        }
        Ok(())
    }

    fn resolve_relative_to(&self, base: &str) -> (r: Self)
        ensures
            self.resolved(base@, r),
    {
        RocmConfig {
            enabled: self.enabled,
            rocm_home: resolve_option(base, &self.rocm_home),
            hip_visible_devices: clone_option_string(&self.hip_visible_devices),
            hsa_override_gfx_version: clone_option_string(&self.hsa_override_gfx_version),
            extra_environment: self.extra_environment.duplicate(),
        }
    }
}

/// Language and pipeline parameters that do not depend on the user interface.
#[derive(Debug)]
pub struct PipelineConfig {
    pub source_language: String,
    pub target_language: String,
    pub nllb_source_language: String,
    pub nllb_target_language: String,
    pub max_tts_chars: usize,
    pub cleanup_on_success: bool,
    pub cleanup_on_failure: bool,
}

impl Default for PipelineConfig {
    fn default() -> (p: Self)
        ensures
            p.is_default(),
    {
        PipelineConfig {
            source_language: String::from_str("sk"),
            target_language: String::from_str("zh"),
            nllb_source_language: String::from_str("slk_Latn"),
            nllb_target_language: String::from_str("zho_Hans"),
            max_tts_chars: 240,
            cleanup_on_success: true,
            cleanup_on_failure: false,
        }
    }
}

impl PipelineConfig {
    pub open spec fn is_default(&self) -> bool {
        &&& self.source_language@ == "sk"@
        &&& self.target_language@ == "zh"@
        &&& self.nllb_source_language@ == "slk_Latn"@
        &&& self.nllb_target_language@ == "zho_Hans"@
        &&& self.max_tts_chars == 240
        &&& self.cleanup_on_success
        &&& !self.cleanup_on_failure
    }

    pub open spec fn failure(&self) -> Option<FieldCheck> {
        first_of(
            value_check("pipeline.source_language"@, self.source_language@),
            first_of(
                value_check("pipeline.target_language"@, self.target_language@),
                first_of(
                    value_check("pipeline.nllb_source_language"@, self.nllb_source_language@),
                    first_of(
                        value_check("pipeline.nllb_target_language"@, self.nllb_target_language@),
                        first_of(
                            FieldCheck {
                                ok: self.max_tts_chars > 0,
                                field: "pipeline.max_tts_chars"@,
                                message: positive_message(),
                            },
                            None,
                        ),
                    ),
                ),
            ),
        )
    }

    pub open spec fn same(&self, o: PipelineConfig) -> bool {
        &&& o.source_language@ == self.source_language@
        &&& o.target_language@ == self.target_language@
        &&& o.nllb_source_language@ == self.nllb_source_language@
        &&& o.nllb_target_language@ == self.nllb_target_language@
        &&& o.max_tts_chars == self.max_tts_chars
        &&& o.cleanup_on_success == self.cleanup_on_success
        &&& o.cleanup_on_failure == self.cleanup_on_failure
    }

    fn validate(&self) -> (r: Result<(), ConfigError>)
        ensures
            reports(r, self.failure()),
    {
        validate_string("pipeline.source_language", self.source_language.as_str())?;
        validate_string("pipeline.target_language", self.target_language.as_str())?;
        validate_string("pipeline.nllb_source_language", self.nllb_source_language.as_str())?;
        validate_string("pipeline.nllb_target_language", self.nllb_target_language.as_str())?;
        if self.max_tts_chars == 0 {
            return Err(ConfigError::invalid("pipeline.max_tts_chars", "musí byť väčšie ako nula"));
        }
        Ok(())
    }

    /// A copy of these settings.
    pub fn duplicate(&self) -> (r: Self)
        ensures
            self.same(r),
    {
        PipelineConfig {
            source_language: self.source_language.clone(),
            target_language: self.target_language.clone(),
            nllb_source_language: self.nllb_source_language.clone(),
            nllb_target_language: self.nllb_target_language.clone(),
            max_tts_chars: self.max_tts_chars,
            cleanup_on_success: self.cleanup_on_success,
            cleanup_on_failure: self.cleanup_on_failure,
        }
    }
}

/// The root of the application configuration.
#[derive(Debug)]
pub struct AppConfig {
    pub python: PythonEnvironments,
    pub models: ModelsConfig,
    pub paths: PathsConfig,
    pub scripts: ScriptsConfig,
    pub rocm: RocmConfig,
    pub pipeline: PipelineConfig,
}

impl Default for AppConfig {
    fn default() -> (c: Self)
        ensures
            c.is_default(),
            c.is_valid(),
    {
        let c = AppConfig {
            python: PythonEnvironments::default(),
            models: ModelsConfig::default(),
            paths: PathsConfig::default(),
            scripts: ScriptsConfig::default(),
            rocm: RocmConfig::default(),
            pipeline: PipelineConfig::default(),
        };
        proof {
            lemma_defaults_are_valid(c);
        }
        c
    }
}

proof fn lemma_not_blank(s: Seq<char>)
    requires
        s.len() > 0,
        !is_whitespace_char(s[0]),
    ensures
        !is_blank(s),
{
}


proof fn lemma_join_keeps_content(base: Seq<char>, p: Seq<char>)
    ensures
        join_path(base, p).len() >= p.len(),
        is_absolute_path(base) ==> is_absolute_path(join_path(base, p)),
{
    if !is_absolute_path(p) {
        if base.len() > 0 && base.last() != '/' {
            assert((base + seq!['/'] + p)[0] == base[0]) by {
                if base.len() > 0 {
                }
            };
        } else if base.len() > 0 {
            assert((base + p)[0] == base[0]);
        }
    }
}

proof fn lemma_resolved_path_facts(base: Seq<char>, p: Seq<char>, other: Seq<char>)
    ensures
        p.len() > 0 ==> resolve_path_spec(base, p).len() > 0,
        p.len() > 0 ==> resolve_command_spec(base, p).len() > 0,
        is_absolute_path(base) ==> resolve_path_spec(other, resolve_path_spec(base, p))
            == resolve_path_spec(base, p),
        is_absolute_path(base) ==> resolve_command_spec(other, resolve_command_spec(base, p))
            == resolve_command_spec(base, p),
{
    lemma_join_keeps_content(base, p);
}

/// Resolving relative paths keeps a valid configuration valid, whatever the base.
pub proof fn lemma_resolve_keeps_validity(c: AppConfig, base: Seq<char>, r: AppConfig)
    requires
        c.is_valid(),
        c.resolved(base, r),
    ensures
        r.is_valid(),
{
    lemma_resolved_path_facts(base, c.python.whisper_sk.path@, base);
    lemma_resolved_path_facts(base, c.python.translation.path@, base);
    lemma_resolved_path_facts(base, c.python.coqui_xtts.path@, base);
    lemma_resolved_path_facts(base, c.python.latentsync.path@, base);
    if let Some(e) = c.python.whisper_sk.executable {
        lemma_resolved_path_facts(base, e@, base);
    }
    if let Some(e) = c.python.translation.executable {
        lemma_resolved_path_facts(base, e@, base);
    }
    if let Some(e) = c.python.coqui_xtts.executable {
        lemma_resolved_path_facts(base, e@, base);
    }
    if let Some(e) = c.python.latentsync.executable {
        lemma_resolved_path_facts(base, e@, base);
    }
    lemma_resolved_path_facts(base, c.models.latentsync@, base);
    lemma_resolved_path_facts(base, c.paths.working_dir@, base);
    lemma_resolved_path_facts(base, c.paths.temp_dir@, base);
    lemma_resolved_path_facts(base, c.paths.output_dir@, base);
    lemma_resolved_path_facts(base, c.paths.ffmpeg_binary@, base);
    lemma_resolved_path_facts(base, c.paths.ffprobe_binary@, base);
    lemma_resolved_path_facts(base, c.scripts.whisper@, base);
    lemma_resolved_path_facts(base, c.scripts.translation@, base);
    lemma_resolved_path_facts(base, c.scripts.tts@, base);
    lemma_resolved_path_facts(base, c.scripts.latentsync@, base);
    if let Some(h) = c.rocm.rocm_home {
        lemma_resolved_path_facts(base, h@, base);
    }
}

/// A configuration resolved against an absolute base is a fixed point:
/// resolving it again, against that base or any other, changes nothing.
pub proof fn lemma_resolve_idempotent(
    c: AppConfig,
    base: Seq<char>,
    r1: AppConfig,
    other: Seq<char>,
    r2: AppConfig,
)
    requires
        is_absolute_path(base),
        c.resolved(base, r1),
        r1.resolved(other, r2),
    ensures
        r1.same(r2),
{
    lemma_resolved_path_facts(base, c.python.whisper_sk.path@, other);
    lemma_resolved_path_facts(base, c.python.translation.path@, other);
    lemma_resolved_path_facts(base, c.python.coqui_xtts.path@, other);
    lemma_resolved_path_facts(base, c.python.latentsync.path@, other);
    if let Some(e) = c.python.whisper_sk.executable {
        lemma_resolved_path_facts(base, e@, other);
    }
    if let Some(e) = c.python.translation.executable {
        lemma_resolved_path_facts(base, e@, other);
    }
    if let Some(e) = c.python.coqui_xtts.executable {
        lemma_resolved_path_facts(base, e@, other);
    }
    if let Some(e) = c.python.latentsync.executable {
        lemma_resolved_path_facts(base, e@, other);
    }
    lemma_resolved_path_facts(base, c.models.latentsync@, other);
    lemma_resolved_path_facts(base, c.paths.working_dir@, other);
    lemma_resolved_path_facts(base, c.paths.temp_dir@, other);
    lemma_resolved_path_facts(base, c.paths.output_dir@, other);
    lemma_resolved_path_facts(base, c.paths.ffmpeg_binary@, other);
    lemma_resolved_path_facts(base, c.paths.ffprobe_binary@, other);
    lemma_resolved_path_facts(base, c.scripts.whisper@, other);
    lemma_resolved_path_facts(base, c.scripts.translation@, other);
    lemma_resolved_path_facts(base, c.scripts.tts@, other);
    lemma_resolved_path_facts(base, c.scripts.latentsync@, other);
    if let Some(h) = c.rocm.rocm_home {
        lemma_resolved_path_facts(base, h@, other);
    }
}


/// With ROCm disabled, subprocesses get the extra environment and nothing else.
pub proof fn lemma_disabled_rocm_adds_nothing(r: RocmConfig)
    requires
        !r.enabled,
    ensures
        rocm_environment(r) == r.extra_environment@,
{
}

/// Every variable of the environment comes from the extra entries or from
/// a ROCm value that is configured: nothing is invented.
pub proof fn lemma_environment_only_configured(r: RocmConfig, k: Seq<char>)
    requires
        rocm_environment(r).contains_key(k),
        !r.extra_environment@.contains_key(k),
    ensures
        r.enabled,
        k == "ROCM_HOME"@ || k == "ROCM_PATH"@ || k == "HIP_VISIBLE_DEVICES"@ || k
            == "HSA_OVERRIDE_GFX_VERSION"@,
        (k == "ROCM_HOME"@ || k == "ROCM_PATH"@) ==> r.rocm_home is Some,
        k == "HIP_VISIBLE_DEVICES"@ ==> r.hip_visible_devices is Some,
        k == "HSA_OVERRIDE_GFX_VERSION"@ ==> r.hsa_override_gfx_version is Some,
{
    reveal_strlit("ROCM_HOME");
    reveal_strlit("ROCM_PATH");
    reveal_strlit("HIP_VISIBLE_DEVICES");
    reveal_strlit("HSA_OVERRIDE_GFX_VERSION");
    assert("ROCM_HOME"@.len() != "HIP_VISIBLE_DEVICES"@.len());
    assert("ROCM_PATH"@.len() != "HIP_VISIBLE_DEVICES"@.len());
    assert("ROCM_HOME"@ != "HIP_VISIBLE_DEVICES"@);
    assert("ROCM_PATH"@ != "HIP_VISIBLE_DEVICES"@);
    assert("ROCM_HOME"@ != "HSA_OVERRIDE_GFX_VERSION"@);
    assert("ROCM_PATH"@ != "HSA_OVERRIDE_GFX_VERSION"@);
    assert("HIP_VISIBLE_DEVICES"@ != "HSA_OVERRIDE_GFX_VERSION"@);
    assert("ROCM_HOME"@[5] != "ROCM_PATH"@[5]);
}

/// With ROCm enabled and a home configured, `ROCM_HOME` is that home, and
/// `ROCM_PATH` is the extra entry when there is one, else the home too.
pub proof fn lemma_rocm_home_variables(r: RocmConfig)
    requires
        r.enabled,
        r.rocm_home is Some,
    ensures
        rocm_environment(r)["ROCM_HOME"@] == r.rocm_home->0@,
        rocm_environment(r).contains_key("ROCM_PATH"@),
        rocm_environment(r)["ROCM_PATH"@] == if r.extra_environment@.contains_key("ROCM_PATH"@) {
            r.extra_environment@["ROCM_PATH"@]
        } else {
            r.rocm_home->0@
        },
{
    reveal_strlit("ROCM_HOME");
    reveal_strlit("ROCM_PATH");
    reveal_strlit("HIP_VISIBLE_DEVICES");
    reveal_strlit("HSA_OVERRIDE_GFX_VERSION");
    assert("ROCM_HOME"@.len() != "HIP_VISIBLE_DEVICES"@.len());
    assert("ROCM_PATH"@.len() != "HIP_VISIBLE_DEVICES"@.len());
    assert("ROCM_HOME"@ != "HIP_VISIBLE_DEVICES"@);
    assert("ROCM_PATH"@ != "HIP_VISIBLE_DEVICES"@);
    assert("ROCM_HOME"@ != "HSA_OVERRIDE_GFX_VERSION"@);
    assert("ROCM_PATH"@ != "HSA_OVERRIDE_GFX_VERSION"@);
    assert("ROCM_HOME"@[5] != "ROCM_PATH"@[5]);
}

/// The default values pass validation.
pub proof fn lemma_defaults_are_valid(c: AppConfig)
    requires
        c.is_default(),
    ensures
        c.is_valid(),
{
    reveal_strlit("venvs/whisper-sk");
    reveal_strlit("venvs/translation");
    reveal_strlit("venvs/coqui-xtts");
    reveal_strlit("venvs/latentsync");
    reveal_strlit("NaiveNeuron/whisper-large-v3-sk");
    reveal_strlit("facebook/nllb-200-distilled-600M");
    reveal_strlit("tts_models/multilingual/multi-dataset/xtts_v2");
    reveal_strlit("models/latentsync");
    reveal_strlit("work");
    reveal_strlit("work/tmp");
    reveal_strlit("output");
    reveal_strlit("ffmpeg");
    reveal_strlit("ffprobe");
    reveal_strlit("scripts/whisper_sk.py");
    reveal_strlit("scripts/translate_nllb.py");
    reveal_strlit("scripts/synthesize_xtts.py");
    reveal_strlit("scripts/latentsync.py");
    reveal_strlit("sk");
    reveal_strlit("zh");
    reveal_strlit("slk_Latn");
    reveal_strlit("zho_Hans");
    lemma_not_blank(c.models.whisper_sk@);
    lemma_not_blank(c.models.nllb_200@);
    lemma_not_blank(c.models.xtts_v2@);
    lemma_not_blank(c.pipeline.source_language@);
    lemma_not_blank(c.pipeline.target_language@);
    lemma_not_blank(c.pipeline.nllb_source_language@);
    lemma_not_blank(c.pipeline.nllb_target_language@);
}

impl AppConfig {
    pub open spec fn is_default(&self) -> bool {
        &&& self.python.is_default()
        &&& self.models.is_default()
        &&& self.paths.is_default()
        &&& self.scripts.is_default()
        &&& self.rocm.is_default()
        &&& self.pipeline.is_default()
    }

    /// The first rule that the configuration breaks, in the order in which
    /// `validate` checks them; `None` when it is valid.
    pub open spec fn failure(&self) -> Option<FieldCheck> {
        either(
            self.python.failure(),
            either(
                self.models.failure(),
                either(
                    self.paths.failure(),
                    either(self.scripts.failure(), either(self.rocm.failure(), self.pipeline.failure())),
                ),
            ),
        )
    }

    pub open spec fn is_valid(&self) -> bool {
        self.failure() is None
    }

    /// `r` is this configuration with its relative paths resolved against `base`.
    pub open spec fn resolved(&self, base: Seq<char>, r: AppConfig) -> bool {
        &&& self.python.resolved(base, r.python)
        &&& self.models.resolved(base, r.models)
        &&& self.paths.resolved(base, r.paths)
        &&& self.scripts.resolved(base, r.scripts)
        &&& self.rocm.resolved(base, r.rocm)
        &&& self.pipeline.same(r.pipeline)
    }

    /// The two configurations hold the same values.
    pub open spec fn same(&self, o: AppConfig) -> bool {
        &&& self.python.same(o.python)
        &&& self.models.same(o.models)
        &&& self.paths.same(o.paths)
        &&& self.scripts.same(o.scripts)
        &&& self.rocm.same(o.rocm)
        &&& self.pipeline.same(o.pipeline)
    }

    /// Checks the values, without checking that models, environments or
    /// binaries exist.
    pub fn validate(&self) -> (r: Result<(), ConfigError>)
        ensures
            reports(r, self.failure()),
    {
        self.python.validate()?;
        self.models.validate()?;
        self.paths.validate()?;
        self.scripts.validate()?;
        self.rocm.validate()?;
        self.pipeline.validate()?;
        Ok(())
    }

    /// Resolves relative paths against the directory of the configuration file.
    pub fn resolve_relative_to(&self, base: &str) -> (r: Self)
        ensures
            self.resolved(base@, r),
    {
        AppConfig {
            python: self.python.resolve_relative_to(base),
            models: self.models.resolve_relative_to(base),
            paths: self.paths.resolve_relative_to(base),
            scripts: self.scripts.resolve_relative_to(base),
            rocm: self.rocm.resolve_relative_to(base),
            pipeline: self.pipeline.duplicate(),
        }
    }
}

} // verus!
