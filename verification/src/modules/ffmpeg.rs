//! The adapter of the final FFmpeg render: the lip-synced video with the
//! new audio track.
use super::common::{first_problem, path_problem, require_path};
use crate::config::{rocm_environment, AppConfig};
use crate::engine::process::ProcessSpec;
use crate::error::join2;
use crate::types::PipelineState;
use vstd::prelude::*;

verus! {

#[derive(Debug, Clone, Copy)]
pub struct FfmpegModule<'a> {
    config: &'a AppConfig,
}

#[derive(Debug)]
pub enum FfmpegError {
    InvalidConfiguration(String),
}

pub open spec fn ffmpeg_error_text(e: FfmpegError) -> Seq<char> {
    match e {
        FfmpegError::InvalidConfiguration(s) => "neplatná FFmpeg konfigurácia: "@ + s@,
    }
}

impl FfmpegError {
    pub fn message(&self) -> (s: String)
        ensures
            s@ == ffmpeg_error_text(*self),
    {
        match self {
            FfmpegError::InvalidConfiguration(s) => join2("neplatná FFmpeg konfigurácia: ", s.as_str()),
        }
    }
}

/// The first input of a render that is missing, in the order checked.
pub open spec fn ffmpeg_problem(c: AppConfig, video: Seq<char>, audio: Seq<char>, output: Seq<char>) -> Option<
    Seq<char>,
> {
    first_problem(
        path_problem(video, "FFmpeg video input"@),
        first_problem(
            path_problem(audio, "FFmpeg audio input"@),
            first_problem(
                path_problem(output, "FFmpeg output"@),
                path_problem(c.paths.ffmpeg_binary@, "paths.ffmpeg_binary"@),
            ),
        ),
    )
}

/// The render command: the first video stream of the lip-synced video is
/// copied, the first audio stream of the synthesized audio is encoded to
/// AAC, and the output ends with the shorter of the two.
pub open spec fn ffmpeg_command(s: ProcessSpec, c: AppConfig, video: Seq<char>, audio: Seq<char>, output: Seq<char>) -> bool {
    &&& s.module@ == "ffmpeg-render"@
    &&& s.state == PipelineState::Rendering
    &&& s.program@ == c.paths.ffmpeg_binary@
    &&& s.args.deep_view() == seq![
        "-hide_banner"@,
        "-loglevel"@,
        "warning"@,
        "-y"@,
        "-i"@,
        video,
        "-i"@,
        audio,
        "-map"@,
        "0:v:0"@,
        "-map"@,
        "1:a:0"@,
        "-c:v"@,
        "copy"@,
        "-c:a"@,
        "aac"@,
        "-shortest"@,
        "-movflags"@,
        "+faststart"@,
        output,
    ]
    &&& s.current_dir is None
    &&& s.environment@ == rocm_environment(c.rocm)
    &&& s.progress_parser is None
}

/// Whether an option of the render takes a value: the argument after it.
pub open spec fn ffmpeg_takes_value(a: Seq<char>) -> bool {
    ||| a == "-i"@
    ||| a == "-map"@
    ||| a == "-loglevel"@
    ||| a == "-c:v"@
    ||| a == "-c:a"@
    ||| a == "-movflags"@
}

/// The values given to `option` on an FFmpeg command line, in order, read
/// as FFmpeg reads its options: an option that takes a value consumes the
/// argument after it.
pub open spec fn ffmpeg_option_values(args: Seq<Seq<char>>, option: Seq<char>) -> Seq<Seq<char>>
    decreases args.len(),
{
    if args.len() < 2 {
        Seq::empty()
    } else if ffmpeg_takes_value(args[0]) {
        let rest = ffmpeg_option_values(args.subrange(2, args.len() as int), option);
        if args[0] == option {
            seq![args[1]] + rest
        } else {
            rest
        }
    } else {
        ffmpeg_option_values(args.drop_first(), option)
    }
}

proof fn lemma_values_skip_flag(args: Seq<Seq<char>>, option: Seq<char>)
    requires
        args.len() >= 2,
        !ffmpeg_takes_value(args[0]),
    ensures
        ffmpeg_option_values(args, option) == ffmpeg_option_values(args.drop_first(), option),
{
}

proof fn lemma_values_take_pair(args: Seq<Seq<char>>, option: Seq<char>)
    requires
        args.len() >= 2,
        ffmpeg_takes_value(args[0]),
    ensures
        ffmpeg_option_values(args, option) == (if args[0] == option {
            seq![args[1]] + ffmpeg_option_values(args.subrange(2, args.len() as int), option)
        } else {
            ffmpeg_option_values(args.subrange(2, args.len() as int), option)
        }),
{
}

/// The render muxes the right files: FFmpeg's input 0 is the lip-synced
/// video and input 1 the synthesized audio; the video stream is mapped
/// from input 0 and the audio stream from input 1; the last argument is
/// the output file.
pub proof fn lemma_render_inputs(s: ProcessSpec, c: AppConfig, video: Seq<char>, audio: Seq<char>, output: Seq<char>)
    requires
        ffmpeg_command(s, c, video, audio, output),
    ensures
        ffmpeg_option_values(s.args.deep_view(), "-i"@) == seq![video, audio],
        ffmpeg_option_values(s.args.deep_view(), "-map"@) == seq!["0:v:0"@, "1:a:0"@],
        s.args.deep_view().last() == output,
{
    reveal_strlit("-i");
    reveal_strlit("-map");
    reveal_strlit("-loglevel");
    reveal_strlit("-c:v");
    reveal_strlit("-c:a");
    reveal_strlit("-movflags");
    reveal_strlit("-hide_banner");
    reveal_strlit("-y");
    reveal_strlit("-shortest");
    reveal_strlit("0:v:0");
    reveal_strlit("1:a:0");
    let i = "-i"@;
    let m = "-map"@;
    assert("-hide_banner"@.len() == 12);
    assert("-y"@[1] != i[1]);
    assert("-shortest"@[1] != "-loglevel"@[1] && "-shortest"@[1] != "-movflags"@[1]);
    assert(!ffmpeg_takes_value("-hide_banner"@));
    assert(!ffmpeg_takes_value("-y"@));
    assert(!ffmpeg_takes_value("-shortest"@));
    assert("-loglevel"@ != i && "-loglevel"@ != m);
    assert("-c:v"@[1] != m[1] && "-c:a"@[1] != m[1]);
    assert("-movflags"@.len() == 9 && m.len() == 4 && i.len() == 2);
    assert("-movflags"@ != i && "-movflags"@ != m);
    assert(m != i);
    let a = s.args.deep_view();
    let t12 = seq![output];
    let t11 = seq!["-movflags"@, "+faststart"@, output];
    let t10 = seq!["-shortest"@] + t11;
    let t9 = seq!["-c:a"@, "aac"@] + t10;
    let t8 = seq!["-c:v"@, "copy"@] + t9;
    let t7 = seq![m, "1:a:0"@] + t8;
    let t6 = seq![m, "0:v:0"@] + t7;
    let t5 = seq![i, audio] + t6;
    let t4 = seq![i, video] + t5;
    let t3 = seq!["-y"@] + t4;
    let t2 = seq!["-loglevel"@, "warning"@] + t3;
    let t1 = seq!["-hide_banner"@] + t2;
    assert(a =~= t1);
    assert(t1.drop_first() =~= t2);
    assert(t2.subrange(2, t2.len() as int) =~= t3);
    assert(t3.drop_first() =~= t4);
    assert(t4.subrange(2, t4.len() as int) =~= t5);
    assert(t5.subrange(2, t5.len() as int) =~= t6);
    assert(t6.subrange(2, t6.len() as int) =~= t7);
    assert(t7.subrange(2, t7.len() as int) =~= t8);
    assert(t8.subrange(2, t8.len() as int) =~= t9);
    assert(t9.subrange(2, t9.len() as int) =~= t10);
    assert(t10.drop_first() =~= t11);
    assert(t11.subrange(2, t11.len() as int) =~= t12);
    assert(ffmpeg_option_values(t12, i) =~= Seq::<Seq<char>>::empty());
    assert(ffmpeg_option_values(t12, m) =~= Seq::<Seq<char>>::empty());
    lemma_values_take_pair(t11, i);
    lemma_values_take_pair(t11, m);
    lemma_values_skip_flag(t10, i);
    lemma_values_skip_flag(t10, m);
    lemma_values_take_pair(t9, i);
    lemma_values_take_pair(t9, m);
    lemma_values_take_pair(t8, i);
    lemma_values_take_pair(t8, m);
    lemma_values_take_pair(t7, i);
    lemma_values_take_pair(t7, m);
    assert(ffmpeg_option_values(t7, m) =~= seq!["1:a:0"@]);
    lemma_values_take_pair(t6, i);
    lemma_values_take_pair(t6, m);
    assert(ffmpeg_option_values(t6, m) =~= seq!["0:v:0"@, "1:a:0"@]);
    lemma_values_take_pair(t5, i);
    lemma_values_take_pair(t5, m);
    assert(ffmpeg_option_values(t5, i) =~= seq![audio]);
    lemma_values_take_pair(t4, i);
    lemma_values_take_pair(t4, m);
    assert(ffmpeg_option_values(t4, i) =~= seq![video, audio]);
    lemma_values_skip_flag(t3, i);
    lemma_values_skip_flag(t3, m);
    lemma_values_take_pair(t2, i);
    lemma_values_take_pair(t2, m);
    lemma_values_skip_flag(t1, i);
    lemma_values_skip_flag(t1, m);
}

impl<'a> FfmpegModule<'a> {
    pub closed spec fn config_of(&self) -> AppConfig {
        *self.config
    }

    pub fn new(config: &'a AppConfig) -> (m: Self)
        ensures
            m.config_of() == *config,
    {
        FfmpegModule { config }
    }

    pub fn build_spec(&self, lip_synced_video: &str, synthesized_audio: &str, output_video: &str) -> (r:
        Result<ProcessSpec, FfmpegError>)
        ensures
            match ffmpeg_problem(
                self.config_of(),
                lip_synced_video@,
                synthesized_audio@,
                output_video@,
            ) {
                Some(m) => r matches Err(FfmpegError::InvalidConfiguration(s)) && s@ == m,
                None => match r {
                    Ok(s) => ffmpeg_command(
                        s,
                        self.config_of(),
                        lip_synced_video@,
                        synthesized_audio@,
                        output_video@,
                    ),
                    Err(_) => false,
                },
            },
    {
        let config = self.config;
        if let Err(e) = require_path(lip_synced_video, "FFmpeg video input") {
            return Err(FfmpegError::InvalidConfiguration(e));
        }
        if let Err(e) = require_path(synthesized_audio, "FFmpeg audio input") {
            return Err(FfmpegError::InvalidConfiguration(e));
        }
        if let Err(e) = require_path(output_video, "FFmpeg output") {
            return Err(FfmpegError::InvalidConfiguration(e));
        }
        if let Err(e) = require_path(config.paths.ffmpeg_binary.as_str(), "paths.ffmpeg_binary") {
            return Err(FfmpegError::InvalidConfiguration(e));
        }
        let spec = ProcessSpec::new("ffmpeg-render", config.paths.ffmpeg_binary.as_str()).state(
            PipelineState::Rendering,
        ).arg("-hide_banner").arg("-loglevel").arg("warning").arg("-y").arg("-i").arg(
            lip_synced_video,
        ).arg("-i").arg(synthesized_audio).arg("-map").arg("0:v:0").arg("-map").arg("1:a:0").arg(
            "-c:v",
        ).arg("copy").arg("-c:a").arg("aac").arg("-shortest").arg("-movflags").arg("+faststart").arg(
            output_video,
        );
        let environment = config.rocm.environment();
        let spec = spec.envs(&environment);
        proof {
            assert(spec.args.deep_view() =~= seq![
                "-hide_banner"@,
                "-loglevel"@,
                "warning"@,
                "-y"@,
                "-i"@,
                lip_synced_video@,
                "-i"@,
                synthesized_audio@,
                "-map"@,
                "0:v:0"@,
                "-map"@,
                "1:a:0"@,
                "-c:v"@,
                "copy"@,
                "-c:a"@,
                "aac"@,
                "-shortest"@,
                "-movflags"@,
                "+faststart"@,
                output_video@,
            ]);
            assert(Map::<Seq<char>, Seq<char>>::empty().union_prefer_right(rocm_environment(config.rocm))
                =~= rocm_environment(config.rocm));
        }
        Ok(spec)
    }
}

} // verus!
