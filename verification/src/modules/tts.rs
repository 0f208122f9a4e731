//! The adapter of Coqui XTTS-v2, and the preparation of the text it speaks.
use super::common::{
    first_problem, path_problem, percentage_parser, python_environment, python_spec, require_path,
    require_string, value_problem,
};
use crate::config::AppConfig;
use crate::engine::process::ProcessSpec;
use crate::engine::progress::{
    percentage_pattern, progress_parser_error_text, regex_accepts, ProgressParserError,
    ProgressValue,
};
use crate::error::join2;
use crate::text::{
    chars_of, decimal_digits, decimal_string, is_control, is_control_char, is_whitespace,
    is_whitespace_char, lemma_trim_end_at, lemma_trim_start_at, string_from_range, trim,
    trim_bounds, trim_end, trim_range, trim_start,
};
use crate::types::PipelineState;
use vstd::prelude::*;

verus! {

#[derive(Debug, Clone, Copy)]
pub struct TtsModule<'a> {
    config: &'a AppConfig,
}

#[derive(Debug)]
pub enum TtsError {
    InvalidConfiguration(String),
    ProgressParser(ProgressParserError),
}

pub open spec fn tts_error_text(e: TtsError) -> Seq<char> {
    match e {
        TtsError::InvalidConfiguration(s) => "neplatná TTS konfigurácia: "@ + s@,
        TtsError::ProgressParser(p) => progress_parser_error_text(p),
    }
}

impl TtsError {
    pub fn message(&self) -> (s: String)
        ensures
            s@ == tts_error_text(*self),
    {
        match self {
            TtsError::InvalidConfiguration(s) => join2("neplatná TTS konfigurácia: ", s.as_str()),
            TtsError::ProgressParser(p) => p.message(),
        }
    }
}

pub open spec fn voice_problem(reference: Option<Seq<char>>) -> Option<Seq<char>> {
    match reference {
        Some(r) => path_problem(r, "TTS voice reference"@),
        None => None,
    }
}

/// The first input of a synthesis run that is missing or wrong, in the
/// order checked.
pub open spec fn tts_problem(c: AppConfig, input: Seq<char>, output: Seq<char>, reference: Option<Seq<char>>) -> Option<
    Seq<char>,
> {
    first_problem(
        path_problem(input, "TTS input"@),
        first_problem(
            path_problem(output, "TTS output"@),
            first_problem(
                value_problem(c.models.xtts_v2@, "models.xtts_v2"@),
                first_problem(
                    value_problem(c.pipeline.target_language@, "pipeline.target_language"@),
                    first_problem(
                        if c.pipeline.max_tts_chars == 0 {
                            Some("pipeline.max_tts_chars musí byť väčšie ako nula"@)
                        } else {
                            None
                        },
                        first_problem(
                            path_problem(c.scripts.tts@, "scripts.tts"@),
                            voice_problem(reference),
                        ),
                    ),
                ),
            ),
        ),
    )
}

/// The synthesis command: the configured model, target language and
/// chunk length, and the voice reference when there is one.
pub open spec fn tts_command(
    s: ProcessSpec,
    c: AppConfig,
    input: Seq<char>,
    output: Seq<char>,
    reference: Option<Seq<char>>,
) -> bool {
    let base = seq![
        "-u"@,
        c.scripts.tts@,
        "--input"@,
        input,
        "--output"@,
        output,
        "--model"@,
        c.models.xtts_v2@,
        "--language"@,
        c.pipeline.target_language@,
        "--max-chars"@,
        decimal_digits(c.pipeline.max_tts_chars as nat),
        "--device"@,
        "auto"@,
    ];
    &&& s.module@ == "coqui-xtts"@
    &&& s.state == PipelineState::Synthesizing
    &&& s.program@ == c.python.coqui_xtts.python_path_spec()
    &&& s.args.deep_view() == match reference {
        Some(r) => base + seq!["--speaker-wav"@, r],
        None => base,
    }
    &&& s.current_dir is None
    &&& s.environment@ == python_environment(c)
    &&& s.progress_parser matches Some(p) && p.state_of() == PipelineState::Synthesizing
        && p.group_of() == 1 && p.kind_of() == ProgressValue::Percent
}

pub open spec fn opt_str_view(o: Option<&str>) -> Option<Seq<char>> {
    match o {
        Some(r) => Some(r@),
        None => None,
    }
}

impl<'a> TtsModule<'a> {
    pub closed spec fn config_of(&self) -> AppConfig {
        *self.config
    }

    pub fn new(config: &'a AppConfig) -> (m: Self)
        ensures
            m.config_of() == *config,
    {
        TtsModule { config }
    }

    pub fn build_spec(&self, input_metadata: &str, output_audio: &str, voice_reference: Option<&str>) -> (r:
        Result<ProcessSpec, TtsError>)
        ensures
            match tts_problem(
                self.config_of(),
                input_metadata@,
                output_audio@,
                opt_str_view(voice_reference),
            ) {
                Some(m) => r matches Err(TtsError::InvalidConfiguration(s)) && s@ == m,
                None => {
                    &&& r is Ok <==> regex_accepts(percentage_pattern())
                    &&& (r is Err ==> r matches Err(TtsError::ProgressParser(_)))
                    &&& match r {
                        Ok(s) => tts_command(
                            s,
                            self.config_of(),
                            input_metadata@,
                            output_audio@,
                            opt_str_view(voice_reference),
                        ),
                        Err(_) => true,
                    }
                },
            },
    {
        let config = self.config;
        if let Err(e) = require_path(input_metadata, "TTS input") {
            return Err(TtsError::InvalidConfiguration(e));
        }
        if let Err(e) = require_path(output_audio, "TTS output") {
            return Err(TtsError::InvalidConfiguration(e));
        }
        if let Err(e) = require_string(config.models.xtts_v2.as_str(), "models.xtts_v2") {
            return Err(TtsError::InvalidConfiguration(e));
        }
        if let Err(e) = require_string(config.pipeline.target_language.as_str(), "pipeline.target_language") {
            return Err(TtsError::InvalidConfiguration(e));
        }
        if config.pipeline.max_tts_chars == 0 {
            return Err(
                TtsError::InvalidConfiguration(
                    String::from_str("pipeline.max_tts_chars musí byť väčšie ako nula"),
                ),
            );
        }
        if let Err(e) = require_path(config.scripts.tts.as_str(), "scripts.tts") {
            return Err(TtsError::InvalidConfiguration(e));
        }
        if let Some(reference) = voice_reference {
            if let Err(e) = require_path(reference, "TTS voice reference") {
                return Err(TtsError::InvalidConfiguration(e));
            }
        }
        let parser = match percentage_parser(PipelineState::Synthesizing) {
            Ok(p) => p,
            Err(e) => {
                return Err(TtsError::ProgressParser(e));
            },
        };
        let max_chars = decimal_string(config.pipeline.max_tts_chars as u128);
        let mut spec = python_spec(
            "coqui-xtts",
            PipelineState::Synthesizing,
            &config.python.coqui_xtts,
            config.scripts.tts.as_str(),
            config,
        ).arg("--input").arg(input_metadata).arg("--output").arg(output_audio).arg("--model").arg(
            config.models.xtts_v2.as_str(),
        ).arg("--language").arg(config.pipeline.target_language.as_str()).arg("--max-chars").arg(
            max_chars.as_str(),
        ).arg("--device").arg("auto");
        let ghost base = seq![
            "-u"@,
            config.scripts.tts@,
            "--input"@,
            input_metadata@,
            "--output"@,
            output_audio@,
            "--model"@,
            config.models.xtts_v2@,
            "--language"@,
            config.pipeline.target_language@,
            "--max-chars"@,
            decimal_digits(config.pipeline.max_tts_chars as nat),
            "--device"@,
            "auto"@,
        ];
        assert(spec.args.deep_view() =~= base);
        if let Some(reference) = voice_reference {
            spec = spec.arg("--speaker-wav").arg(reference);
            assert(spec.args.deep_view() =~= base + seq!["--speaker-wav"@, reference@]);
        }
        Ok(spec.with_progress_parser(parser))
    }
}

/// A character that `sanitize_text` turns into a space.
pub open spec fn is_separator(c: char) -> bool {
    is_control_char(c) || is_whitespace_char(c)
}

/// Each run of control and whitespace characters becomes one space.
pub open spec fn squeeze(s: Seq<char>) -> Seq<char>
    decreases s.len(),
{
    if s.len() == 0 {
        Seq::<char>::empty()
    } else {
        let p = squeeze(s.drop_last());
        let c = s.last();
        if is_separator(c) {
            if p.len() > 0 && p.last() == ' ' {
                p
            } else {
                p.push(' ')
            }
        } else {
            p.push(c)
        }
    }
}

/// The text that speech synthesis receives.
pub open spec fn sanitized(s: Seq<char>) -> Seq<char> {
    trim(squeeze(s))
}

/// Clean text: no control characters, no whitespace but single spaces,
/// and no space at either end.
pub open spec fn is_clean(t: Seq<char>) -> bool {
    &&& forall|i: int| 0 <= i < t.len() ==> !is_control_char(#[trigger] t[i])
    &&& forall|i: int| 0 <= i < t.len() && is_whitespace_char(#[trigger] t[i]) ==> t[i] == ' '
    &&& forall|i: int| 0 <= i < t.len() - 1 && #[trigger] t[i] == ' ' ==> t[i + 1] != ' '
    &&& t.len() > 0 ==> t[0] != ' ' && t.last() != ' '
}

/// Squeezed text: only single spaces as separators.
pub open spec fn is_squeezed(t: Seq<char>) -> bool {
    &&& forall|i: int| 0 <= i < t.len() ==> !is_control_char(#[trigger] t[i])
    &&& forall|i: int| 0 <= i < t.len() && is_whitespace_char(#[trigger] t[i]) ==> t[i] == ' '
    &&& forall|i: int| 0 <= i < t.len() - 1 && #[trigger] t[i] == ' ' ==> t[i + 1] != ' '
}

proof fn lemma_squeeze_is_squeezed(s: Seq<char>)
    ensures
        is_squeezed(squeeze(s)),
    decreases s.len(),
{
    if s.len() > 0 {
        lemma_squeeze_is_squeezed(s.drop_last());
        let p = squeeze(s.drop_last());
        let r = squeeze(s);
        assert(is_whitespace_char(' '));
        assert forall|i: int| 0 <= i < r.len() - 1 && #[trigger] r[i] == ' ' implies r[i + 1] != ' ' by {
            if i + 1 < p.len() {
                assert(r[i] == p[i] && r[i + 1] == p[i + 1]);
            }
        }
        assert forall|i: int| 0 <= i < r.len() implies !is_control_char(#[trigger] r[i]) by {
            if i < p.len() {
                assert(r[i] == p[i]);
            }
        }
        assert forall|i: int| 0 <= i < r.len() && is_whitespace_char(#[trigger] r[i]) implies r[i]
            == ' ' by {
            if i < p.len() {
                assert(r[i] == p[i]);
            }
        }
    }
}

/// Squeezed text is left as it is by `squeeze`.
proof fn lemma_squeeze_fixed(t: Seq<char>)
    requires
        is_squeezed(t),
    ensures
        squeeze(t) == t,
    decreases t.len(),
{
    if t.len() > 0 {
        let p = t.drop_last();
        assert(is_squeezed(p)) by {
            assert forall|i: int| 0 <= i < p.len() - 1 && #[trigger] p[i] == ' ' implies p[i + 1]
                != ' ' by {
                assert(t[i] == p[i] && t[i + 1] == p[i + 1]);
            }
            assert forall|i: int| 0 <= i < p.len() implies !is_control_char(#[trigger] p[i]) by {
                assert(t[i] == p[i]);
            }
            assert forall|i: int| 0 <= i < p.len() && is_whitespace_char(#[trigger] p[i]) implies p[i]
                == ' ' by {
                assert(t[i] == p[i]);
            }
        }
        lemma_squeeze_fixed(p);
        let c = t.last();
        assert(t[t.len() - 1] == c);
        if is_separator(c) {
            assert(c == ' ');
            if p.len() > 0 {
                assert(t[t.len() - 2] == p.last());
                assert(p.last() != ' ');
            }
        }
        assert(p.push(c) =~= t);
    }
}

/// What `sanitize_text` promises: no control characters, whitespace only
/// as single spaces, and no space at either end.
pub proof fn lemma_sanitized_is_clean(s: Seq<char>)
    ensures
        is_clean(sanitized(s)),
{
    let q = squeeze(s);
    lemma_squeeze_is_squeezed(q.take(0));
    lemma_squeeze_is_squeezed(s);
    let (a, b) = trim_range(q);
    let t = q.subrange(a, b);
    assert forall|i: int| 0 <= i < t.len() - 1 && #[trigger] t[i] == ' ' implies t[i + 1] != ' ' by {
        assert(q[a + i] == t[i] && q[a + i + 1] == t[i + 1]);
    }
    assert forall|i: int| 0 <= i < t.len() implies !is_control_char(#[trigger] t[i]) by {
        assert(q[a + i] == t[i]);
    }
    assert forall|i: int| 0 <= i < t.len() && is_whitespace_char(#[trigger] t[i]) implies t[i] == ' ' by {
        assert(q[a + i] == t[i]);
    }
    if t.len() > 0 {
        assert(t[0] == q[a]);
        assert(t.last() == q[b - 1]);
        assert(is_whitespace_char(' '));
    }
}

/// Sanitising clean text changes nothing; so sanitising twice is the same
/// as sanitising once.
pub proof fn lemma_sanitize_idempotent(s: Seq<char>)
    ensures
        sanitized(sanitized(s)) == sanitized(s),
{
    let t = sanitized(s);
    lemma_sanitized_is_clean(s);
    lemma_squeeze_fixed(t);
    if t.len() > 0 {
        assert(!is_whitespace_char(t[0]));
        assert(!is_whitespace_char(t.last()));
        lemma_trim_start_at(t, 0);
        assert(t.subrange(0, t.len() as int) =~= t);
        lemma_trim_end_at(t, t.len() as int);
    } else {
        assert(trim_start(t) == t);
        assert(trim_end(t) == t);
    }
}

/// The number of characters at the end of `s` that are neither control
/// nor whitespace characters.
pub open spec fn trailing_word_len(s: Seq<char>) -> nat
    decreases s.len(),
{
    if s.len() > 0 && !is_separator(s.last()) {
        1 + trailing_word_len(s.drop_last())
    } else {
        0
    }
}

/// The trailing word lies within the text and holds no separator.
pub proof fn lemma_trailing_word_len(s: Seq<char>)
    ensures
        trailing_word_len(s) <= s.len(),
        s.len() > 0 && !is_separator(s.last()) ==> trailing_word_len(s) >= 1,
        forall|j: int|
            s.len() - trailing_word_len(s) <= j < s.len() ==> !is_separator(#[trigger] s[j]),
    decreases s.len(),
{
    if s.len() > 0 && !is_separator(s.last()) {
        let t = s.drop_last();
        lemma_trailing_word_len(t);
        assert forall|j: int| s.len() - trailing_word_len(s) <= j < s.len() implies !is_separator(
            #[trigger] s[j],
        ) by {
            if j < s.len() - 1 {
                assert(s[j] == t[j]);
            }
        }
    }
}

/// The words of a text: its maximal runs of characters that are neither
/// control nor whitespace characters, in order.
pub open spec fn words(s: Seq<char>) -> Seq<Seq<char>>
    decreases s.len(),
{
    if s.len() == 0 {
        Seq::empty()
    } else if is_separator(s.last()) {
        words(s.drop_last())
    } else {
        let n = trailing_word_len(s);
        proof {
            lemma_trailing_word_len(s);
        }
        words(s.take(s.len() - n)).push(s.skip(s.len() - n))
    }
}

/// Words joined by single spaces.
pub open spec fn join_words(w: Seq<Seq<char>>) -> Seq<char>
    decreases w.len(),
{
    if w.len() == 0 {
        Seq::empty()
    } else if w.len() == 1 {
        w[0]
    } else {
        join_words(w.drop_last()) + seq![' '] + w.last()
    }
}

/// A word is not empty and holds no control or whitespace character.
pub open spec fn is_word(x: Seq<char>) -> bool {
    x.len() > 0 && forall|j: int| 0 <= j < x.len() ==> !is_separator(#[trigger] x[j])
}

pub open spec fn are_words(w: Seq<Seq<char>>) -> bool {
    forall|i: int| 0 <= i < w.len() ==> is_word(#[trigger] w[i])
}

proof fn lemma_words_are_words(s: Seq<char>)
    ensures
        are_words(words(s)),
    decreases s.len(),
{
    if s.len() > 0 {
        if is_separator(s.last()) {
            lemma_words_are_words(s.drop_last());
        } else {
            lemma_trailing_word_len(s);
            let n = trailing_word_len(s);
            let q = s.take(s.len() - n);
            let x = s.skip(s.len() - n);
            lemma_words_are_words(q);
            assert forall|j: int| 0 <= j < x.len() implies !is_separator(#[trigger] x[j]) by {
                assert(x[j] == s[s.len() - n + j]);
            }
            let w = words(s);
            assert(w == words(q).push(x));
            assert forall|i: int| 0 <= i < w.len() implies is_word(#[trigger] w[i]) by {
                if i < w.len() - 1 {
                    assert(w[i] == words(q)[i]);
                }
            }
        }
    }
}

proof fn lemma_no_words(s: Seq<char>)
    ensures
        words(s).len() == 0 ==> forall|j: int| 0 <= j < s.len() ==> is_separator(#[trigger] s[j]),
    decreases s.len(),
{
    if s.len() > 0 && is_separator(s.last()) {
        let p = s.drop_last();
        lemma_no_words(p);
        if words(s).len() == 0 {
            assert forall|j: int| 0 <= j < s.len() implies is_separator(#[trigger] s[j]) by {
                if j < s.len() - 1 {
                    assert(s[j] == p[j]);
                }
            }
        }
    }
}

proof fn lemma_join_push(w: Seq<Seq<char>>, x: Seq<char>)
    ensures
        join_words(w.push(x)) == (if w.len() == 0 {
            x
        } else {
            join_words(w) + seq![' '] + x
        }),
{
    assert(w.push(x).drop_last() =~= w);
    if w.len() == 0 {
        assert(w.push(x)[0] == x);
    }
}

proof fn lemma_join_words_ends(w: Seq<Seq<char>>)
    requires
        are_words(w),
        w.len() > 0,
    ensures
        join_words(w).len() > 0,
        !is_separator(join_words(w)[0]),
        !is_separator(join_words(w).last()),
    decreases w.len(),
{
    assert(is_word(w[0]));
    assert(is_word(w[w.len() - 1]));
    if w.len() > 1 {
        let d = w.drop_last();
        assert forall|i: int| 0 <= i < d.len() implies is_word(#[trigger] d[i]) by {
            assert(d[i] == w[i]);
        }
        lemma_join_words_ends(d);
        let j = join_words(w);
        assert(j == join_words(d) + seq![' '] + w.last());
        assert(j[0] == join_words(d)[0]);
        assert(j.last() == w.last().last());
        assert(w.last()[w.last().len() - 1] == w.last().last());
    } else {
        assert(w[0][w[0].len() - 1] == w[0].last());
    }
}

/// One space where `b` holds, nothing otherwise.
pub open spec fn space_if(b: bool) -> Seq<char> {
    if b {
        seq![' ']
    } else {
        Seq::empty()
    }
}

/// What `squeeze` makes of a text: its words joined by single spaces,
/// with one more space in front where the text starts with a separator
/// and one at the end where it ends with one.
spec fn framed(s: Seq<char>) -> Seq<char> {
    if words(s).len() == 0 {
        space_if(s.len() > 0)
    } else {
        space_if(is_separator(s[0])) + join_words(words(s)) + space_if(is_separator(s.last()))
    }
}

proof fn lemma_squeeze_framed(s: Seq<char>)
    ensures
        squeeze(s) == framed(s),
    decreases s.len(),
{
    if s.len() > 0 {
        let p = s.drop_last();
        let c = s.last();
        lemma_squeeze_framed(p);
        lemma_words_are_words(p);
        lemma_trailing_word_len(s);
        lemma_trailing_word_len(p);
        assert(is_separator(' ')) by {
            assert(is_whitespace_char(' '));
        }
        if words(p).len() > 0 {
            lemma_join_words_ends(words(p));
            assert(p.len() > 0);
            assert(s[0] == p[0]);
        } else {
            lemma_no_words(p);
            if p.len() > 0 {
                assert(s[0] == p[0]);
                assert(is_separator(p[0]));
            }
        }
        if is_separator(c) {
            assert(words(s) == words(p));
            if words(p).len() > 0 {
                let j = join_words(words(p));
                let pre = space_if(is_separator(p[0]));
                if is_separator(p.last()) {
                    assert(squeeze(p) =~= pre + j + seq![' ']);
                    assert(squeeze(p).last() == ' ');
                } else {
                    assert(squeeze(p) =~= pre + j);
                    assert(squeeze(p).last() == j.last());
                }
                assert(squeeze(s) =~= pre + j + seq![' ']);
            } else {
                assert(squeeze(s) =~= seq![' ']);
            }
        } else {
            let n = trailing_word_len(s);
            let q = s.take(s.len() - n);
            let x = s.skip(s.len() - n);
            assert(words(s) == words(q).push(x));
            lemma_join_push(words(q), x);
            if n == 1 {
                assert(q =~= p);
                assert(x =~= seq![c]);
                if words(p).len() > 0 {
                    assert(trailing_word_len(p) == 0);
                    assert(is_separator(p.last()));
                    let pre = space_if(is_separator(p[0]));
                    let j = join_words(words(p));
                    assert(squeeze(p) =~= pre + j + seq![' ']);
                    assert(squeeze(s) =~= pre + (j + seq![' '] + seq![c]) + space_if(false));
                } else {
                    assert(squeeze(s) =~= space_if(p.len() > 0).push(c));
                    assert(framed(s) =~= space_if(p.len() > 0) + seq![c] + space_if(false));
                }
            } else {
                let x2 = x.drop_last();
                assert(trailing_word_len(p) == n - 1);
                assert(p.take(p.len() - (n - 1)) =~= q);
                assert(p.skip(p.len() - (n - 1)) =~= x2);
                assert(!is_separator(p.last()));
                assert(words(p) == words(q).push(x2));
                lemma_join_push(words(q), x2);
                assert(x2.push(c) =~= x);
                let pre = space_if(is_separator(p[0]));
                let jp = join_words(words(p));
                assert(squeeze(p) =~= pre + jp);
                assert(join_words(words(s)) =~= jp.push(c));
                assert(squeeze(s) =~= pre + join_words(words(s)) + space_if(false));
            }
        }
    }
}

/// What `sanitize_text` returns is the words of the input (its maximal runs
/// of characters that are neither control nor whitespace characters), in
/// order, joined by single spaces: each run of control and whitespace
/// characters between two words becomes exactly one space, and runs at
/// either end disappear.
pub proof fn lemma_sanitized_joins_words(s: Seq<char>)
    ensures
        are_words(words(s)),
        sanitized(s) == join_words(words(s)),
{
    lemma_words_are_words(s);
    lemma_squeeze_framed(s);
    let w = words(s);
    let f = framed(s);
    assert(is_whitespace_char(' '));
    if w.len() == 0 {
        if s.len() > 0 {
            lemma_trim_start_at(f, 1);
        } else {
            lemma_trim_start_at(f, 0);
        }
        assert(trim_start(f) =~= Seq::<char>::empty());
        lemma_trim_end_at(trim_start(f), 0);
        assert(trim(f) =~= Seq::<char>::empty());
    } else {
        let j = join_words(w);
        lemma_join_words_ends(w);
        let pre = space_if(is_separator(s[0]));
        let post = space_if(is_separator(s.last()));
        let a = pre.len() as int;
        assert(f == pre + j + post);
        assert(f[a] == j[0]);
        lemma_trim_start_at(f, a);
        let g = f.subrange(a, f.len() as int);
        assert(g =~= j + post);
        assert(g[j.len() - 1] == j.last());
        lemma_trim_end_at(g, j.len() as int);
        assert(g.subrange(0, j.len() as int) =~= j);
    }
}

/// A character that `sanitize_text` keeps as it is.
pub open spec fn kept_char() -> spec_fn(char) -> bool {
    |c: char| !is_separator(c)
}

/// A character other than a space.
pub open spec fn not_space() -> spec_fn(char) -> bool {
    |c: char| c != ' '
}

proof fn lemma_filter_push(q: Seq<char>, e: char, pred: spec_fn(char) -> bool)
    ensures
        q.push(e).filter(pred) == (if pred(e) {
            q.filter(pred).push(e)
        } else {
            q.filter(pred)
        }),
{
    reveal(Seq::filter);
    assert(q.push(e).drop_last() =~= q);
}

proof fn lemma_squeeze_keeps(s: Seq<char>)
    ensures
        squeeze(s).filter(not_space()) == s.filter(kept_char()),
    decreases s.len(),
{
    reveal(Seq::filter);
    if s.len() > 0 {
        let p = s.drop_last();
        let c = s.last();
        lemma_squeeze_keeps(p);
        let q = squeeze(p);
        lemma_filter_push(q, ' ', not_space());
        lemma_filter_push(q, c, not_space());
        assert(is_separator(' ')) by {
            assert(is_whitespace_char(' '));
        }
    }
}

proof fn lemma_space_if_filter(b: bool)
    ensures
        space_if(b).filter(not_space()) == Seq::<char>::empty(),
{
    reveal(Seq::filter);
    lemma_filter_push(Seq::<char>::empty(), ' ', not_space());
    assert(Seq::<char>::empty().push(' ') =~= seq![' ']);
}

/// Sanitising loses no text: the result without its spaces is the input
/// without its control and whitespace characters, in the same order.
pub proof fn lemma_sanitized_keeps_text(s: Seq<char>)
    ensures
        sanitized(s).filter(not_space()) == s.filter(kept_char()),
{
    lemma_sanitized_joins_words(s);
    lemma_squeeze_framed(s);
    lemma_squeeze_keeps(s);
    let w = words(s);
    let f = framed(s);
    let j = join_words(w);
    lemma_space_if_filter(s.len() > 0);
    reveal(Seq::filter);
    if w.len() > 0 {
        let pre = space_if(is_separator(s[0]));
        let post = space_if(is_separator(s.last()));
        lemma_space_if_filter(is_separator(s[0]));
        lemma_space_if_filter(is_separator(s.last()));
        Seq::filter_distributes_over_add(pre, j, not_space());
        Seq::filter_distributes_over_add(pre + j, post, not_space());
        assert(f == pre + j + post);
        assert(f.filter(not_space()) =~= j.filter(not_space()));
    }
}

/// Removes control characters and unifies whitespace before the text goes
/// to XTTS.
pub fn sanitize_text(input: &str) -> (r: String)
    ensures
        r@ == sanitized(input@),
        is_clean(r@),
{
    let chars = chars_of(input);
    let mut output: Vec<char> = Vec::new();
    let mut previous_was_space = false;
    let mut i: usize = 0;
    proof {
        assert(chars@.take(0) =~= Seq::<char>::empty());
    }
    while i < chars.len()
        invariant
            i <= chars.len(),
            chars@ == input@,
            output@ == squeeze(chars@.take(i as int)),
            previous_was_space == (output@.len() > 0 && output@.last() == ' '),
        decreases chars.len() - i,
    {
        let character = chars[i];
        proof {
            assert(chars@.take(i + 1).drop_last() =~= chars@.take(i as int));
            assert(chars@.take(i + 1).last() == character);
        }
        if is_control(character) || is_whitespace(character) {
            if !previous_was_space {
                output.push(' ');
                previous_was_space = true;
            }
        } else {
            output.push(character);
            previous_was_space = false;
            proof {
                assert(!is_whitespace_char(character));
                assert(character != ' ') by {
                    assert(is_whitespace_char(' '));
                }
            }
        }
        i = i + 1;
    }
    proof {
        assert(chars@.take(chars@.len() as int) =~= chars@);
    }
    let (a, b) = trim_bounds(&output, 0, output.len());
    proof {
        assert(output@.subrange(0, output@.len() as int) =~= output@);
        lemma_sanitized_is_clean(input@);
    }
    string_from_range(&output, a, b)
}

pub open spec fn is_boundary_char(c: char) -> bool {
    ||| c == '.'
    ||| c == ','
    ||| c == '!'
    ||| c == '?'
    ||| c == ';'
    ||| c == ':'
    ||| c == '。'
    ||| c == '，'
    ||| c == '！'
    ||| c == '？'
    ||| c == '；'
    ||| c == '：'
    ||| c == '、'
}

fn is_sentence_boundary(character: char) -> (b: bool)
    ensures
        b == is_boundary_char(character),
{
    character == '.' || character == ',' || character == '!' || character == '?' || character
        == ';' || character == ':' || character == '。' || character == '，' || character == '！'
        || character == '？' || character == '；' || character == '：' || character == '、'
}

/// The last index in `lo..hi` holding a sentence boundary, or -1.
pub open spec fn last_boundary(chars: Seq<char>, lo: int, hi: int) -> int
    decreases hi - lo,
{
    if hi <= lo {
        -1
    } else if is_boundary_char(chars[hi - 1]) {
        hi - 1
    } else {
        last_boundary(chars, lo, hi - 1)
    }
}

pub proof fn lemma_last_boundary_range(chars: Seq<char>, lo: int, hi: int)
    ensures
        last_boundary(chars, lo, hi) == -1 || lo <= last_boundary(chars, lo, hi) < hi,
    decreases hi - lo,
{
    if hi > lo && !is_boundary_char(chars[hi - 1]) {
        lemma_last_boundary_range(chars, lo, hi - 1);
    }
}

/// Where a chunk that starts at `start` ends: at most `max` characters
/// on, and, unless the text ends first, just after the last sentence
/// boundary in the second half of that window when there is one.
pub open spec fn chunk_end(chars: Seq<char>, start: int, max: int) -> int {
    let hard_end = if start + max < chars.len() {
        start + max
    } else {
        chars.len() as int
    };
    if hard_end < chars.len() {
        let b = last_boundary(chars, start + max / 2, hard_end);
        if b >= 0 {
            b + 1
        } else {
            hard_end
        }
    } else {
        hard_end
    }
}

pub proof fn lemma_chunk_end_range(chars: Seq<char>, start: int, max: int)
    requires
        0 <= start < chars.len(),
        max > 0,
    ensures
        start < chunk_end(chars, start, max) <= chars.len(),
        chunk_end(chars, start, max) <= start + max,
{
    let hard_end = if start + max < chars.len() {
        start + max
    } else {
        chars.len() as int
    };
    lemma_last_boundary_range(chars, start + max / 2, hard_end);
}

/// The trimmed, non-empty chunks of `chars` from `start` on.
pub open spec fn chunks_from(chars: Seq<char>, start: int, max: int) -> Seq<Seq<char>>
    decreases chars.len() - start,
{
    if start < 0 || start >= chars.len() || max <= 0 {
        Seq::<Seq<char>>::empty()
    } else {
        let end = chunk_end(chars, start, max);
        proof {
            lemma_chunk_end_range(chars, start, max);
        }
        let piece = trim(chars.subrange(start, end));
        let rest = chunks_from(chars, end, max);
        if piece.len() > 0 {
            seq![piece] + rest
        } else {
            rest
        }
    }
}

/// The chunks of a text for speech synthesis of at most `max` characters each.
pub open spec fn text_chunks(input: Seq<char>, max: nat) -> Seq<Seq<char>> {
    if max == 0 {
        Seq::<Seq<char>>::empty()
    } else {
        chunks_from(sanitized(input), 0, max as int)
    }
}

/// The punctuation that ends a sentence or clause, in Latin script
/// (. , ! ? ; :) and in Chinese full-width script (。 ， ！ ？ ； ： 、).
pub open spec fn sentence_mark(c: char) -> bool {
    ||| c == '.'
    ||| c == ','
    ||| c == '!'
    ||| c == '?'
    ||| c == ';'
    ||| c == ':'
    ||| c == '\u{3002}'
    ||| c == '\u{ff0c}'
    ||| c == '\u{ff01}'
    ||| c == '\u{ff1f}'
    ||| c == '\u{ff1b}'
    ||| c == '\u{ff1a}'
    ||| c == '\u{3001}'
}

proof fn lemma_last_boundary_is(chars: Seq<char>, lo: int, hi: int, j: int)
    requires
        lo <= j < hi,
        sentence_mark(chars[j]),
        forall|k: int| j < k < hi ==> !sentence_mark(#[trigger] chars[k]),
    ensures
        last_boundary(chars, lo, hi) == j,
    decreases hi - j,
{
    if hi - 1 > j {
        assert(!sentence_mark(chars[hi - 1]));
        lemma_last_boundary_is(chars, lo, hi - 1, j);
    }
}

proof fn lemma_last_boundary_none(chars: Seq<char>, lo: int, hi: int)
    requires
        forall|k: int| lo <= k < hi ==> !sentence_mark(#[trigger] chars[k]),
    ensures
        last_boundary(chars, lo, hi) == -1,
    decreases hi - lo,
{
    if hi > lo {
        assert(!sentence_mark(chars[hi - 1]));
        lemma_last_boundary_none(chars, lo, hi - 1);
    }
}

/// A chunk that the text does not end within ends just after the last
/// sentence mark (Latin or Chinese) in the second half of its window of
/// `max` characters.
pub proof fn lemma_chunk_ends_after_last_mark(chars: Seq<char>, start: int, max: int, j: int)
    requires
        0 <= start,
        max > 0,
        start + max < chars.len(),
        start + max / 2 <= j < start + max,
        sentence_mark(chars[j]),
        forall|k: int| j < k < start + max ==> !sentence_mark(#[trigger] chars[k]),
    ensures
        chunk_end(chars, start, max) == j + 1,
{
    lemma_last_boundary_is(chars, start + max / 2, start + max, j);
}

/// Where the second half of the window holds no sentence mark, the chunk
/// is cut at the full `max` characters.
pub proof fn lemma_chunk_cut_at_limit_without_mark(chars: Seq<char>, start: int, max: int)
    requires
        0 <= start,
        max > 0,
        start + max < chars.len(),
        forall|k: int| start + max / 2 <= k < start + max ==> !sentence_mark(#[trigger] chars[k]),
    ensures
        chunk_end(chars, start, max) == start + max,
{
    lemma_last_boundary_none(chars, start + max / 2, start + max);
}

/// The first chunk of `split_text`: when the sanitized text is longer than
/// `max`, the chunk ends just after the last sentence mark in the second
/// half of the first `max` characters.
pub proof fn lemma_first_chunk_ends_after_last_mark(input: Seq<char>, max: nat, j: int)
    requires
        max > 0,
        max < sanitized(input).len(),
        max / 2 <= j < max,
        sentence_mark(sanitized(input)[j]),
        forall|k: int| j < k < max ==> !sentence_mark(#[trigger] sanitized(input)[k]),
    ensures
        text_chunks(input, max).len() > 0,
        text_chunks(input, max)[0] == trim(sanitized(input).subrange(0, j + 1)),
{
    let t = sanitized(input);
    lemma_chunk_ends_after_last_mark(t, 0, max as int, j);
    lemma_chunk_end_range(t, 0, max as int);
    lemma_sanitized_is_clean(input);
    let seg = t.subrange(0, j + 1);
    assert(seg[0] == t[0]);
    assert(!is_whitespace_char(t[0])) by {
        assert(t[0] != ' ');
    }
    lemma_leading_nonspace_trim(seg);
    let rest = chunks_from(t, j + 1, max as int);
    assert(text_chunks(input, max) == seq![trim(seg)] + rest);
}

proof fn lemma_leading_nonspace_trim(seg: Seq<char>)
    requires
        seg.len() > 0,
        !is_whitespace_char(seg[0]),
    ensures
        trim(seg).len() > 0,
{
    lemma_trim_start_at(seg, 0);
    assert(seg.subrange(0, seg.len() as int) =~= seg);
    lemma_trim_end_nonempty(seg);
}

proof fn lemma_trim_end_nonempty(s: Seq<char>)
    requires
        s.len() > 0,
        !is_whitespace_char(s[0]),
    ensures
        trim_end(s).len() > 0,
    decreases s.len(),
{
    if is_whitespace_char(s.last()) {
        assert(s.len() > 1);
        assert(s.drop_last()[0] == s[0]);
        lemma_trim_end_nonempty(s.drop_last());
    }
}

/// Every chunk is short enough, not empty, and has no whitespace at
/// either end.
pub open spec fn good_chunks(chunks: Seq<Seq<char>>, max: nat) -> bool {
    forall|i: int|
        0 <= i < chunks.len() ==> {
            &&& (#[trigger] chunks[i]).len() <= max
            &&& chunks[i].len() > 0
            &&& !is_whitespace_char(chunks[i][0])
            &&& !is_whitespace_char(chunks[i].last())
        }
}

pub proof fn lemma_chunks_are_good(chars: Seq<char>, start: int, max: int)
    requires
        max > 0,
    ensures
        good_chunks(chunks_from(chars, start, max), max as nat),
    decreases chars.len() - start,
{
    if !(start < 0 || start >= chars.len()) {
        let end = chunk_end(chars, start, max);
        lemma_chunk_end_range(chars, start, max);
        let seg = chars.subrange(start, end);
        let (a, b) = trim_range(seg);
        let piece = trim(seg);
        lemma_chunks_are_good(chars, end, max);
        let rest = chunks_from(chars, end, max);
        if piece.len() > 0 {
            let all = seq![piece] + rest;
            assert forall|i: int| 0 <= i < all.len() implies {
                &&& (#[trigger] all[i]).len() <= max as nat
                &&& all[i].len() > 0
                &&& !is_whitespace_char(all[i][0])
                &&& !is_whitespace_char(all[i].last())
            } by {
                if i == 0 {
                    assert(all[0] == piece);
                    assert(piece[0] == seg[a]);
                    assert(piece.last() == seg[b - 1]);
                } else {
                    assert(all[i] == rest[i - 1]);
                }
            }
        }
    }
}

proof fn lemma_single_filter(c: char, pred: spec_fn(char) -> bool)
    ensures
        seq![c].filter(pred) == (if pred(c) {
            seq![c]
        } else {
            Seq::<char>::empty()
        }),
{
    lemma_filter_push(Seq::<char>::empty(), c, pred);
    assert(Seq::<char>::empty().push(c) =~= seq![c]);
    reveal(Seq::filter);
}

/// Trimming removes only whitespace, so it keeps every kept character.
proof fn lemma_trim_keeps(s: Seq<char>)
    ensures
        trim(s).filter(kept_char()) == s.filter(kept_char()),
{
    lemma_trim_start_keeps(s);
    lemma_trim_end_keeps(trim_start(s));
}

proof fn lemma_trim_start_keeps(s: Seq<char>)
    ensures
        trim_start(s).filter(kept_char()) == s.filter(kept_char()),
    decreases s.len(),
{
    if s.len() > 0 && is_whitespace_char(s[0]) {
        let t = s.drop_first();
        lemma_trim_start_keeps(t);
        assert(s =~= seq![s[0]] + t);
        Seq::filter_distributes_over_add(seq![s[0]], t, kept_char());
        lemma_single_filter(s[0], kept_char());
        assert(seq![s[0]].filter(kept_char()) + t.filter(kept_char()) =~= t.filter(kept_char()));
    }
}

proof fn lemma_trim_end_keeps(s: Seq<char>)
    ensures
        trim_end(s).filter(kept_char()) == s.filter(kept_char()),
    decreases s.len(),
{
    if s.len() > 0 && is_whitespace_char(s.last()) {
        let t = s.drop_last();
        lemma_trim_end_keeps(t);
        assert(t.push(s.last()) =~= s);
        lemma_filter_push(t, s.last(), kept_char());
    }
}

/// No text is lost in the chunks from `start` on: together, in order, they
/// hold every character of the rest of the text that is neither control
/// nor whitespace; only whitespace at the ends of a chunk goes.
pub proof fn lemma_chunks_keep_text(chars: Seq<char>, start: int, max: int)
    requires
        max > 0,
        0 <= start <= chars.len(),
    ensures
        chunks_from(chars, start, max).flatten().filter(kept_char()) == chars.subrange(
            start,
            chars.len() as int,
        ).filter(kept_char()),
    decreases chars.len() - start,
{
    reveal(Seq::filter);
    if start == chars.len() {
        assert(chars.subrange(start, chars.len() as int) =~= Seq::<char>::empty());
    } else {
        let end = chunk_end(chars, start, max);
        lemma_chunk_end_range(chars, start, max);
        let seg = chars.subrange(start, end);
        let piece = trim(seg);
        let rest = chunks_from(chars, end, max);
        lemma_chunks_keep_text(chars, end, max);
        lemma_trim_keeps(seg);
        let tail = chars.subrange(end, chars.len() as int);
        assert(chars.subrange(start, chars.len() as int) =~= seg + tail);
        Seq::filter_distributes_over_add(seg, tail, kept_char());
        if piece.len() > 0 {
            let all = seq![piece] + rest;
            assert(all.first() == piece);
            assert(all.drop_first() =~= rest);
            assert(all.flatten() == piece + rest.flatten());
            Seq::filter_distributes_over_add(piece, rest.flatten(), kept_char());
        } else {
            assert(piece =~= Seq::<char>::empty());
            assert(seg.filter(kept_char()) =~= Seq::<char>::empty());
            assert(Seq::<char>::empty() + tail.filter(kept_char()) =~= tail.filter(kept_char()));
        }
    }
}

proof fn lemma_clean_filters_agree(t: Seq<char>)
    requires
        forall|i: int| 0 <= i < t.len() ==> #[trigger] t[i] == ' ' || !is_separator(t[i]),
    ensures
        t.filter(kept_char()) == t.filter(not_space()),
    decreases t.len(),
{
    if t.len() > 0 {
        let p = t.drop_last();
        let c = t.last();
        assert forall|i: int| 0 <= i < p.len() implies #[trigger] p[i] == ' ' || !is_separator(p[i]) by {
            assert(p[i] == t[i]);
        }
        lemma_clean_filters_agree(p);
        assert(t[t.len() - 1] == c);
        assert(is_whitespace_char(' '));
        assert(t =~= p.push(c));
        lemma_filter_push(p, c, kept_char());
        lemma_filter_push(p, c, not_space());
    }
}

/// `split_text` loses no text: its chunks, joined in order, hold every
/// character of the input that is neither a control nor a whitespace
/// character, in the input's order (for a positive chunk length; for
/// length zero there are no chunks at all).
pub proof fn lemma_split_keeps_text(input: Seq<char>, max: nat)
    requires
        max > 0,
    ensures
        text_chunks(input, max).flatten().filter(kept_char()) == input.filter(kept_char()),
{
    let t = sanitized(input);
    lemma_chunks_keep_text(t, 0, max as int);
    assert(t.subrange(0, t.len() as int) =~= t);
    lemma_sanitized_is_clean(input);
    assert forall|i: int| 0 <= i < t.len() implies #[trigger] t[i] == ' ' || !is_separator(t[i]) by {
        if is_whitespace_char(t[i]) {
            assert(t[i] == ' ');
        }
    }
    lemma_clean_filters_agree(t);
    lemma_sanitized_keeps_text(input);
}

/// Splits a long text into chunks, preferring natural sentence boundaries.
pub fn split_text(input: &str, max_chars: usize) -> (chunks: Vec<String>)
    ensures
        chunks.deep_view() == text_chunks(input@, max_chars as nat),
        good_chunks(chunks.deep_view(), max_chars as nat),
{
    if max_chars == 0 {
        let v: Vec<String> = Vec::new();
        assert(v.deep_view() =~= Seq::<Seq<char>>::empty());
        return v;
    }
    let clean = sanitize_text(input);
    let characters = chars_of(clean.as_str());
    let ghost total = chunks_from(characters@, 0, max_chars as int);
    let mut chunks: Vec<String> = Vec::new();
    let mut start: usize = 0;
    proof {
        lemma_chunks_are_good(characters@, 0, max_chars as int);
        assert(chunks.deep_view() + chunks_from(characters@, 0, max_chars as int) =~= total);
    }
    while start < characters.len()
        invariant
            start <= characters.len(),
            max_chars > 0,
            total == chunks_from(characters@, 0, max_chars as int),
            chunks.deep_view() + chunks_from(characters@, start as int, max_chars as int) == total,
        decreases characters.len() - start,
    {
        let len = characters.len();
        let hard_end: usize = if max_chars < len - start {
            start + max_chars
        } else {
            len
        };
        let mut end = hard_end;
        if hard_end < len {
            let half = max_chars / 2;
            let mut index = hard_end;
            while index > start && index - start > half && !is_sentence_boundary(characters[index - 1])
                invariant
                    start <= index <= hard_end < len == characters.len(),
                    half == max_chars / 2,
                    last_boundary(characters@, start + half, hard_end as int) == last_boundary(
                        characters@,
                        start + half,
                        index as int,
                    ),
                decreases index,
            {
                index = index - 1;
            }
            if index > start && index - start > half {
                end = index;
            }
            proof {
                let lb = last_boundary(characters@, start + half, index as int);
                if !(index > start && index - start > half) {
                    assert(lb == -1);
                }
            }
        }
        proof {
            lemma_chunk_end_range(characters@, start as int, max_chars as int);
            assert(end == chunk_end(characters@, start as int, max_chars as int));
        }
        let (a, b) = trim_bounds(&characters, start, end);
        let ghost before = chunks.deep_view();
        if a < b {
            let chunk = string_from_range(&characters, a, b);
            chunks.push(chunk);
            proof {
                assert(chunks.deep_view() =~= before.push(characters@.subrange(a as int, b as int)));
                let rest = chunks_from(characters@, end as int, max_chars as int);
                let piece = characters@.subrange(a as int, b as int);
                assert(before + (seq![piece] + rest) =~= chunks.deep_view() + rest);
            }
        }
        start = end;
    }
    chunks
}

} // verus!
