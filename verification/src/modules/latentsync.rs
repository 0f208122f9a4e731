//! The adapter of LatentSync, including the FFmpeg preparation of frames
//! and audio that its script performs.
use super::common::{
    first_problem, path_problem, percentage_parser, python_environment, python_spec, require_path,
};
use crate::config::AppConfig;
use crate::engine::process::ProcessSpec;
use crate::engine::progress::{
    percentage_pattern, progress_parser_error_text, regex_accepts, ProgressParserError,
    ProgressValue,
};
use crate::error::join2;
use crate::types::PipelineState;
use vstd::prelude::*;

verus! {

#[derive(Debug, Clone, Copy)]
pub struct LatentSyncModule<'a> {
    config: &'a AppConfig,
}

#[derive(Debug)]
pub enum LatentSyncError {
    InvalidConfiguration(String),
    ProgressParser(ProgressParserError),
}

pub open spec fn latentsync_error_text(e: LatentSyncError) -> Seq<char> {
    match e {
        LatentSyncError::InvalidConfiguration(s) => "neplatná LatentSync konfigurácia: "@ + s@,
        LatentSyncError::ProgressParser(p) => progress_parser_error_text(p),
    }
}

impl LatentSyncError {
    pub fn message(&self) -> (s: String)
        ensures
            s@ == latentsync_error_text(*self),
    {
        match self {
            LatentSyncError::InvalidConfiguration(s) => join2(
                "neplatná LatentSync konfigurácia: ",
                s.as_str(),
            ),
            LatentSyncError::ProgressParser(p) => p.message(),
        }
    }
}

/// The first input of a lip-sync run that is missing, in the order checked.
pub open spec fn latentsync_problem(c: AppConfig, video: Seq<char>, audio: Seq<char>, output: Seq<char>) -> Option<
    Seq<char>,
> {
    first_problem(
        path_problem(video, "LatentSync video input"@),
        first_problem(
            path_problem(audio, "LatentSync audio input"@),
            first_problem(
                path_problem(output, "LatentSync output"@),
                first_problem(
                    path_problem(c.models.latentsync@, "models.latentsync"@),
                    first_problem(
                        path_problem(c.paths.ffmpeg_binary@, "paths.ffmpeg_binary"@),
                        path_problem(c.scripts.latentsync@, "scripts.latentsync"@),
                    ),
                ),
            ),
        ),
    )
}

pub open spec fn latentsync_command(
    s: ProcessSpec,
    c: AppConfig,
    video: Seq<char>,
    audio: Seq<char>,
    output: Seq<char>,
) -> bool {
    &&& s.module@ == "latentsync"@
    &&& s.state == PipelineState::LipSyncing
    &&& s.program@ == c.python.latentsync.python_path_spec()
    &&& s.args.deep_view() == seq![
        "-u"@,
        c.scripts.latentsync@,
        "--video"@,
        video,
        "--audio"@,
        audio,
        "--output"@,
        output,
        "--latentsync-root"@,
        c.models.latentsync@,
        "--ffmpeg"@,
        c.paths.ffmpeg_binary@,
        "--device"@,
        "auto"@,
    ]
    &&& s.current_dir is None
    &&& s.environment@ == python_environment(c)
    &&& s.progress_parser matches Some(p) && p.state_of() == PipelineState::LipSyncing
        && p.group_of() == 1 && p.kind_of() == ProgressValue::Percent
}

impl<'a> LatentSyncModule<'a> {
    pub closed spec fn config_of(&self) -> AppConfig {
        *self.config
    }

    pub fn new(config: &'a AppConfig) -> (m: Self)
        ensures
            m.config_of() == *config,
    {
        LatentSyncModule { config }
    }

    pub fn build_spec(&self, input_video: &str, synthesized_audio: &str, output_video: &str) -> (r:
        Result<ProcessSpec, LatentSyncError>)
        ensures
            match latentsync_problem(
                self.config_of(),
                input_video@,
                synthesized_audio@,
                output_video@,
            ) {
                Some(m) => r matches Err(LatentSyncError::InvalidConfiguration(s)) && s@ == m,
                None => {
                    &&& r is Ok <==> regex_accepts(percentage_pattern())
                    &&& (r is Err ==> r matches Err(LatentSyncError::ProgressParser(_)))
                    &&& match r {
                        Ok(s) => latentsync_command(
                            s,
                            self.config_of(),
                            input_video@,
                            synthesized_audio@,
                            output_video@,
                        ),
                        Err(_) => true,
                    }
                },
            },
    {
        let config = self.config;
        if let Err(e) = require_path(input_video, "LatentSync video input") {
            return Err(LatentSyncError::InvalidConfiguration(e));
        }
        if let Err(e) = require_path(synthesized_audio, "LatentSync audio input") {
            return Err(LatentSyncError::InvalidConfiguration(e));
        }
        if let Err(e) = require_path(output_video, "LatentSync output") {
            return Err(LatentSyncError::InvalidConfiguration(e));
        }
        if let Err(e) = require_path(config.models.latentsync.as_str(), "models.latentsync") {
            return Err(LatentSyncError::InvalidConfiguration(e));
        }
        if let Err(e) = require_path(config.paths.ffmpeg_binary.as_str(), "paths.ffmpeg_binary") {
            return Err(LatentSyncError::InvalidConfiguration(e));
        }
        if let Err(e) = require_path(config.scripts.latentsync.as_str(), "scripts.latentsync") {
            return Err(LatentSyncError::InvalidConfiguration(e));
        }
        let parser = match percentage_parser(PipelineState::LipSyncing) {
            Ok(p) => p,
            Err(e) => {
                return Err(LatentSyncError::ProgressParser(e));
            },
        };
        let spec = python_spec(
            "latentsync",
            PipelineState::LipSyncing,
            &config.python.latentsync,
            config.scripts.latentsync.as_str(),
            config,
        ).arg("--video").arg(input_video).arg("--audio").arg(synthesized_audio).arg("--output").arg(
            output_video,
        ).arg("--latentsync-root").arg(config.models.latentsync.as_str()).arg("--ffmpeg").arg(
            config.paths.ffmpeg_binary.as_str(),
        ).arg("--device").arg("auto").with_progress_parser(parser);
        proof {
            assert(spec.args.deep_view() =~= seq![
                "-u"@,
                config.scripts.latentsync@,
                "--video"@,
                input_video@,
                "--audio"@,
                synthesized_audio@,
                "--output"@,
                output_video@,
                "--latentsync-root"@,
                config.models.latentsync@,
                "--ffmpeg"@,
                config.paths.ffmpeg_binary@,
                "--device"@,
                "auto"@,
            ]);
        }
        Ok(spec)
    }
}

} // verus!
