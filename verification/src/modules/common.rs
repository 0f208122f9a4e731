//! What the module adapters share: the Python command line, and the
//! checks of their inputs.
use crate::config::{rocm_environment, AppConfig, PythonVenv};
use crate::engine::process::ProcessSpec;
use crate::engine::progress::{ProgressParser, ProgressParserError};
use crate::error::join2;
use crate::text::{is_blank, is_blank_str};
use crate::types::PipelineState;
use vstd::prelude::*;

verus! {

/// The environment of a Python module: unbuffered output, then the ROCm
/// environment, whose entries win.
pub open spec fn python_environment(config: AppConfig) -> Map<Seq<char>, Seq<char>> {
    Map::<Seq<char>, Seq<char>>::empty().insert("PYTHONUNBUFFERED"@, "1"@).union_prefer_right(
        rocm_environment(config.rocm),
    )
}

/// The value that a script's argument parser reads for `flag` from
/// arguments given as `--flag value` pairs: the value of the first pair
/// with that flag, or `None`.
pub open spec fn flag_value(pairs: Seq<Seq<char>>, flag: Seq<char>) -> Option<Seq<char>>
    decreases pairs.len(),
{
    if pairs.len() < 2 {
        None
    } else if pairs[0] == flag {
        Some(pairs[1])
    } else {
        flag_value(pairs.subrange(2, pairs.len() as int), flag)
    }
}

/// A missing path is a problem named by its field.
pub open spec fn path_problem(path: Seq<char>, field: Seq<char>) -> Option<Seq<char>> {
    if path.len() == 0 {
        Some(field + " cesta nesmie byť prázdna"@)
    } else {
        None
    }
}

/// A blank value is a problem named by its field.
pub open spec fn value_problem(value: Seq<char>, field: Seq<char>) -> Option<Seq<char>> {
    if is_blank(value) {
        Some(field + " hodnota nesmie byť prázdna"@)
    } else {
        None
    }
}

pub open spec fn first_problem(a: Option<Seq<char>>, b: Option<Seq<char>>) -> Option<Seq<char>> {
    if a is Some {
        a
    } else {
        b
    }
}

/// `r` reports `problem`: the error text when there is one, `Ok` otherwise.
pub open spec fn reports_problem(r: Result<(), String>, problem: Option<Seq<char>>) -> bool {
    match problem {
        Some(m) => r matches Err(s) && s@ == m,
        None => r is Ok,
    }
}

/// The command line `<venv python> -u <script>` of a Python module, with
/// its environment.
pub(crate) fn python_spec(
    module: &str,
    state: PipelineState,
    venv: &PythonVenv,
    script: &str,
    config: &AppConfig,
) -> (s: ProcessSpec)
    ensures
        s.module@ == module@,
        s.state == state,
        s.program@ == venv.python_path_spec(),
        s.args.deep_view() == seq!["-u"@, script@],
        s.current_dir is None,
        s.environment@ == python_environment(*config),
        s.progress_parser is None,
{
    let program = venv.python_path();
    let spec = ProcessSpec::new(module, program.as_str()).state(state).arg("-u").arg(script).env(
        "PYTHONUNBUFFERED",
        "1",
    );
    let environment = config.rocm.environment();
    let spec = spec.envs(&environment);
    proof {
        assert(spec.args.deep_view() =~= seq!["-u"@, script@]);
        assert(Map::<Seq<char>, Seq<char>>::empty().insert("PYTHONUNBUFFERED"@, "1"@) =~= Map::<
            Seq<char>,
            Seq<char>,
        >::empty().insert("PYTHONUNBUFFERED"@, "1"@));
    }
    spec
}

pub(crate) fn require_path(path: &str, field: &str) -> (r: Result<(), String>)
    ensures
        reports_problem(r, path_problem(path@, field@)),
{
    if path.is_empty() {
        return Err(join2(field, " cesta nesmie byť prázdna"));
    }
    Ok(())
}

pub(crate) fn require_string(value: &str, field: &str) -> (r: Result<(), String>)
    ensures
        reports_problem(r, value_problem(value@, field@)),
{
    if is_blank_str(value) {
        return Err(join2(field, " hodnota nesmie byť prázdna"));
    }
    Ok(())
}

pub(crate) fn percentage_parser(state: PipelineState) -> (r: Result<ProgressParser, ProgressParserError>)
    ensures
        r is Ok <==> crate::engine::progress::regex_accepts(crate::engine::progress::percentage_pattern()),
        r is Err ==> r matches Err(ProgressParserError::InvalidRegex(_)),
        r matches Ok(p) ==> p.state_of() == state && p.group_of() == 1 && p.kind_of()
            == crate::engine::progress::ProgressValue::Percent,
{
    ProgressParser::percentage(state)
}

} // verus!
