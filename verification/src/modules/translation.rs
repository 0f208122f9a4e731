//! The adapter of the NLLB-200 model, which renders the Slovak utterances in Chinese.
use super::common::{
    first_problem, path_problem, percentage_parser, python_environment, python_spec, require_path,
    require_string, value_problem,
};
use crate::config::AppConfig;
use crate::engine::process::ProcessSpec;
use crate::engine::progress::{
    percentage_pattern, progress_parser_error_text, regex_accepts, ProgressParserError,
    ProgressValue,
};
use crate::error::join2;
use crate::types::PipelineState;
use vstd::prelude::*;

verus! {

#[derive(Debug, Clone, Copy)]
pub struct TranslationModule<'a> {
    config: &'a AppConfig,
}

#[derive(Debug)]
pub enum TranslationError {
    InvalidConfiguration(String),
    ProgressParser(ProgressParserError),
}

pub open spec fn translation_error_text(e: TranslationError) -> Seq<char> {
    match e {
        TranslationError::InvalidConfiguration(s) => "neplatná translation konfigurácia: "@ + s@,
        TranslationError::ProgressParser(p) => progress_parser_error_text(p),
    }
}

impl TranslationError {
    pub fn message(&self) -> (s: String)
        ensures
            s@ == translation_error_text(*self),
    {
        match self {
            TranslationError::InvalidConfiguration(s) => join2(
                "neplatná translation konfigurácia: ",
                s.as_str(),
            ),
            TranslationError::ProgressParser(p) => p.message(),
        }
    }
}

/// The first input of a translation run that is missing, in the order checked.
pub open spec fn translation_problem(c: AppConfig, input: Seq<char>, output: Seq<char>) -> Option<
    Seq<char>,
> {
    first_problem(
        path_problem(input, "translation input"@),
        first_problem(
            path_problem(output, "translation output"@),
            first_problem(
                value_problem(c.models.nllb_200@, "models.nllb_200"@),
                first_problem(
                    value_problem(c.pipeline.nllb_source_language@, "pipeline.nllb_source_language"@),
                    first_problem(
                        value_problem(
                            c.pipeline.nllb_target_language@,
                            "pipeline.nllb_target_language"@,
                        ),
                        path_problem(c.scripts.translation@, "scripts.translation"@),
                    ),
                ),
            ),
        ),
    )
}

/// The translation command: the configured NLLB model and language codes
/// are handed over unchanged.
pub open spec fn translation_command(s: ProcessSpec, c: AppConfig, input: Seq<char>, output: Seq<char>) -> bool {
    &&& s.module@ == "nllb-translation"@
    &&& s.state == PipelineState::Translating
    &&& s.program@ == c.python.translation.python_path_spec()
    &&& s.args.deep_view() == seq![
        "-u"@,
        c.scripts.translation@,
        "--input"@,
        input,
        "--output"@,
        output,
        "--model"@,
        c.models.nllb_200@,
        "--source-lang"@,
        c.pipeline.nllb_source_language@,
        "--target-lang"@,
        c.pipeline.nllb_target_language@,
        "--device"@,
        "auto"@,
    ]
    &&& s.current_dir is None
    &&& s.environment@ == python_environment(c)
    &&& s.progress_parser matches Some(p) && p.state_of() == PipelineState::Translating
        && p.group_of() == 1 && p.kind_of() == ProgressValue::Percent
}

impl<'a> TranslationModule<'a> {
    pub closed spec fn config_of(&self) -> AppConfig {
        *self.config
    }

    pub fn new(config: &'a AppConfig) -> (m: Self)
        ensures
            m.config_of() == *config,
    {
        TranslationModule { config }
    }

    pub fn build_spec(&self, input_metadata: &str, output_metadata: &str) -> (r: Result<
        ProcessSpec,
        TranslationError,
    >)
        ensures
            match translation_problem(self.config_of(), input_metadata@, output_metadata@) {
                Some(m) => r matches Err(TranslationError::InvalidConfiguration(s)) && s@ == m,
                None => {
                    &&& r is Ok <==> regex_accepts(percentage_pattern())
                    &&& (r is Err ==> r matches Err(TranslationError::ProgressParser(_)))
                    &&& match r {
                        Ok(s) => translation_command(
                            s,
                            self.config_of(),
                            input_metadata@,
                            output_metadata@,
                        ),
                        Err(_) => true,
                    }
                },
            },
    {
        let config = self.config;
        if let Err(e) = require_path(input_metadata, "translation input") {
            return Err(TranslationError::InvalidConfiguration(e));
        }
        if let Err(e) = require_path(output_metadata, "translation output") {
            return Err(TranslationError::InvalidConfiguration(e));
        }
        if let Err(e) = require_string(config.models.nllb_200.as_str(), "models.nllb_200") {
            return Err(TranslationError::InvalidConfiguration(e));
        }
        if let Err(e) = require_string(
            config.pipeline.nllb_source_language.as_str(),
            "pipeline.nllb_source_language",
        ) {
            return Err(TranslationError::InvalidConfiguration(e));
        }
        if let Err(e) = require_string(
            config.pipeline.nllb_target_language.as_str(),
            "pipeline.nllb_target_language",
        ) {
            return Err(TranslationError::InvalidConfiguration(e));
        }
        if let Err(e) = require_path(config.scripts.translation.as_str(), "scripts.translation") {
            return Err(TranslationError::InvalidConfiguration(e));
        }
        let parser = match percentage_parser(PipelineState::Translating) {
            Ok(p) => p,
            Err(e) => {
                return Err(TranslationError::ProgressParser(e));
            },
        };
        let spec = python_spec(
            "nllb-translation",
            PipelineState::Translating,
            &config.python.translation,
            config.scripts.translation.as_str(),
            config,
        ).arg("--input").arg(input_metadata).arg("--output").arg(output_metadata).arg(
            "--model",
        ).arg(config.models.nllb_200.as_str()).arg("--source-lang").arg(
            config.pipeline.nllb_source_language.as_str(),
        ).arg("--target-lang").arg(config.pipeline.nllb_target_language.as_str()).arg(
            "--device",
        ).arg("auto").with_progress_parser(parser);
        proof {
            assert(spec.args.deep_view() =~= seq![
                "-u"@,
                config.scripts.translation@,
                "--input"@,
                input_metadata@,
                "--output"@,
                output_metadata@,
                "--model"@,
                config.models.nllb_200@,
                "--source-lang"@,
                config.pipeline.nllb_source_language@,
                "--target-lang"@,
                config.pipeline.nllb_target_language@,
                "--device"@,
                "auto"@,
            ]);
        }
        Ok(spec)
    }
}

} // verus!
