//! The adapter of Whisper-SK, run in its own virtual environment.
use super::common::{
    first_problem, flag_value, path_problem, percentage_parser, python_environment, python_spec, require_path,
    require_string, value_problem,
};
use crate::config::AppConfig;
use crate::engine::process::ProcessSpec;
use crate::engine::progress::{
    percentage_pattern, progress_parser_error_text, regex_accepts, ProgressParserError,
    ProgressValue,
};
use crate::error::join2;
use crate::types::PipelineState;
use vstd::prelude::*;

verus! {

#[derive(Debug, Clone, Copy)]
pub struct WhisperModule<'a> {
    config: &'a AppConfig,
}

#[derive(Debug)]
pub enum WhisperError {
    InvalidConfiguration(String),
    ProgressParser(ProgressParserError),
}

pub open spec fn whisper_error_text(e: WhisperError) -> Seq<char> {
    match e {
        WhisperError::InvalidConfiguration(s) => "neplatná Whisper konfigurácia: "@ + s@,
        WhisperError::ProgressParser(p) => progress_parser_error_text(p),
    }
}

impl WhisperError {
    pub fn message(&self) -> (s: String)
        ensures
            s@ == whisper_error_text(*self),
    {
        match self {
            WhisperError::InvalidConfiguration(s) => join2("neplatná Whisper konfigurácia: ", s.as_str()),
            WhisperError::ProgressParser(p) => p.message(),
        }
    }
}

/// The first input of a Whisper run that is missing, in the order checked.
pub open spec fn whisper_problem(c: AppConfig, input: Seq<char>, output: Seq<char>) -> Option<Seq<char>> {
    first_problem(
        path_problem(input, "Whisper input"@),
        first_problem(
            path_problem(output, "Whisper output"@),
            first_problem(
                value_problem(c.models.whisper_sk@, "models.whisper_sk"@),
                path_problem(c.scripts.whisper@, "scripts.whisper"@),
            ),
        ),
    )
}

/// The Whisper command: the module's interpreter runs its script on the
/// video, writes the utterance metadata, with the configured model and
/// source language, and reports progress in percent.
pub open spec fn whisper_command(s: ProcessSpec, c: AppConfig, input: Seq<char>, output: Seq<char>) -> bool {
    &&& s.module@ == "whisper-sk"@
    &&& s.state == PipelineState::Transcribing
    &&& s.program@ == c.python.whisper_sk.python_path_spec()
    &&& s.args.deep_view() == seq![
        "-u"@,
        c.scripts.whisper@,
        "--input"@,
        input,
        "--output"@,
        output,
        "--model"@,
        c.models.whisper_sk@,
        "--language"@,
        c.pipeline.source_language@,
        "--device"@,
        "auto"@,
    ]
    &&& s.current_dir is None
    &&& s.environment@ == python_environment(c)
    &&& s.progress_parser matches Some(p) && p.state_of() == PipelineState::Transcribing
        && p.group_of() == 1 && p.kind_of() == ProgressValue::Percent
}

/// The transcription reads the input video in the pipeline's source
/// language: as the script parses its arguments, the language given is
/// `pipeline.source_language`, the file read is the input video, the file
/// written is the output metadata, and the model is the configured
/// Whisper-SK model.
pub proof fn lemma_transcribes_the_source_language(
    s: ProcessSpec,
    c: AppConfig,
    input: Seq<char>,
    output: Seq<char>,
)
    requires
        whisper_command(s, c, input, output),
    ensures
        s.args.deep_view().len() >= 2,
        s.args.deep_view()[0] == "-u"@,
        s.args.deep_view()[1] == c.scripts.whisper@,
        flag_value(s.args.deep_view().skip(2), "--language"@) == Some(c.pipeline.source_language@),
        flag_value(s.args.deep_view().skip(2), "--input"@) == Some(input),
        flag_value(s.args.deep_view().skip(2), "--output"@) == Some(output),
        flag_value(s.args.deep_view().skip(2), "--model"@) == Some(c.models.whisper_sk@),
{
    let a = s.args.deep_view().skip(2);
    reveal_strlit("--input");
    reveal_strlit("--output");
    reveal_strlit("--model");
    reveal_strlit("--language");
    reveal_strlit("--device");
    let a1 = a.subrange(2, a.len() as int);
    let a2 = a1.subrange(2, a1.len() as int);
    let a3 = a2.subrange(2, a2.len() as int);
    assert(a =~= seq!["--input"@, input, "--output"@, output, "--model"@, c.models.whisper_sk@, "--language"@, c.pipeline.source_language@, "--device"@, "auto"@]);
    assert(a1 =~= seq!["--output"@, output, "--model"@, c.models.whisper_sk@, "--language"@, c.pipeline.source_language@, "--device"@, "auto"@]);
    assert(a2 =~= seq!["--model"@, c.models.whisper_sk@, "--language"@, c.pipeline.source_language@, "--device"@, "auto"@]);
    assert(a3 =~= seq!["--language"@, c.pipeline.source_language@, "--device"@, "auto"@]);
    assert("--input"@[2] != "--output"@[2]);
    assert("--input"@[2] != "--model"@[2]);
    assert("--input"@ != "--language"@);
    assert("--output"@ != "--model"@);
    assert("--output"@ != "--language"@);
    assert("--model"@ != "--language"@);
    assert(flag_value(a3, "--language"@) == Some(c.pipeline.source_language@));
    assert(flag_value(a2, "--language"@) == flag_value(a3, "--language"@));
    assert(flag_value(a1, "--language"@) == flag_value(a2, "--language"@));
    assert(flag_value(a, "--language"@) == flag_value(a1, "--language"@));
    assert(flag_value(a1, "--output"@) == Some(output));
    assert(flag_value(a, "--output"@) == flag_value(a1, "--output"@));
    assert(flag_value(a2, "--model"@) == Some(c.models.whisper_sk@));
    assert(flag_value(a1, "--model"@) == flag_value(a2, "--model"@));
}

impl<'a> WhisperModule<'a> {
    pub closed spec fn config_of(&self) -> AppConfig {
        *self.config
    }

    pub fn new(config: &'a AppConfig) -> (m: Self)
        ensures
            m.config_of() == *config,
    {
        WhisperModule { config }
    }

    pub fn build_spec(&self, input_video: &str, output_metadata: &str) -> (r: Result<
        ProcessSpec,
        WhisperError,
    >)
        ensures
            match whisper_problem(self.config_of(), input_video@, output_metadata@) {
                Some(m) => r matches Err(WhisperError::InvalidConfiguration(s)) && s@ == m,
                None => {
                    &&& r is Ok <==> regex_accepts(percentage_pattern())
                    &&& (r is Err ==> r matches Err(WhisperError::ProgressParser(_)))
                    &&& match r {
                        Ok(s) => whisper_command(s, self.config_of(), input_video@, output_metadata@),
                        Err(_) => true,
                    }
                },
            },
    {
        let config = self.config;
        if let Err(e) = require_path(input_video, "Whisper input") {
            return Err(WhisperError::InvalidConfiguration(e));
        }
        if let Err(e) = require_path(output_metadata, "Whisper output") {
            return Err(WhisperError::InvalidConfiguration(e));
        }
        if let Err(e) = require_string(config.models.whisper_sk.as_str(), "models.whisper_sk") {
            return Err(WhisperError::InvalidConfiguration(e));
        }
        if let Err(e) = require_path(config.scripts.whisper.as_str(), "scripts.whisper") {
            return Err(WhisperError::InvalidConfiguration(e));
        }
        let parser = match percentage_parser(PipelineState::Transcribing) {
            Ok(p) => p,
            Err(e) => {
                return Err(WhisperError::ProgressParser(e));
            },
        };
        let spec = python_spec(
            "whisper-sk",
            PipelineState::Transcribing,
            &config.python.whisper_sk,
            config.scripts.whisper.as_str(),
            config,
        ).arg("--input").arg(input_video).arg("--output").arg(output_metadata).arg("--model").arg(
            config.models.whisper_sk.as_str(),
        ).arg("--language").arg(config.pipeline.source_language.as_str()).arg("--device").arg(
            "auto",
        ).with_progress_parser(parser);
        proof {
            assert(spec.args.deep_view() =~= seq![
                "-u"@,
                config.scripts.whisper@,
                "--input"@,
                input_video@,
                "--output"@,
                output_metadata@,
                "--model"@,
                config.models.whisper_sk@,
                "--language"@,
                config.pipeline.source_language@,
                "--device"@,
                "auto"@,
            ]);
        }
        Ok(spec)
    }
}

} // verus!
