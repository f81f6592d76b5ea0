//! Pre-spawn validation and command-line planning.
//!
//! Each worker kind has a planning function: the application reports what it
//! observed about the environment (whether the interpreter is ready, which
//! files exist, what was configured), and the plan either names the missing
//! precondition — no run is attempted then — or fixes the exact program,
//! argument list and environment overrides the worker must be spawned with.

use vstd::prelude::*;
use vstd::string::*;
use crate::strings::{dec_chars, pad2_chars, push_dec_u32, push_pad2};

verus! {

/// A requirement that failed before any process was created.
pub enum PreconditionError {
    /// The interpreter environment is not set up.
    EnvNotReady,
    /// A required input directory or file is absent.
    InputMissing,
    /// The worker script is absent; carries the path that was probed.
    ScriptMissing { path: String },
    /// The given adapter path does not exist.
    AdapterMissing { path: String },
    /// No trained adapter was found to fall back on.
    NoAdapter,
}

impl PreconditionError {
    /// The human-readable message reported to the caller.
    pub fn message(&self) -> (r: String)
        ensures
            r@ == (match self {
                PreconditionError::EnvNotReady => "Python environment is not ready"@,
                PreconditionError::InputMissing => "required input data is missing"@,
                PreconditionError::ScriptMissing { path } => "script not found: "@ + path@,
                PreconditionError::AdapterMissing { path } => "adapter path not found: "@
                    + path@,
                PreconditionError::NoAdapter => "no trained adapter found"@,
            }),
    {
        match self {
            PreconditionError::EnvNotReady => String::from_str("Python environment is not ready"),
            PreconditionError::InputMissing => String::from_str("required input data is missing"),
            PreconditionError::ScriptMissing { path } => {
                let mut out = String::from_str("script not found: ");
                out.append(path.as_str());
                out
            },
            PreconditionError::AdapterMissing { path } => {
                let mut out = String::from_str("adapter path not found: ");
                out.append(path.as_str());
                out
            },
            PreconditionError::NoAdapter => String::from_str("no trained adapter found"),
        }
    }
}

/// A fully planned spawn: program, ordered arguments, environment overrides.
pub struct CommandPlan {
    /// The program to execute.
    pub program: String,
    /// The ordered argument list.
    pub args: Vec<String>,
    /// Extra environment variables, name and value.
    pub env: Vec<(String, String)>,
}

/// The views of a list of strings.
pub open spec fn seq_views(s: Seq<String>) -> Seq<Seq<char>> {
    Seq::new(s.len(), |i: int| s[i]@)
}

/// The language argument, defaulting to English.
pub open spec fn lang_or_default(lang: Option<String>) -> Seq<char> {
    match lang {
        Some(l) => l@,
        None => "en"@,
    }
}

fn lang_value(lang: Option<String>) -> (r: String)
    ensures
        r@ == lang_or_default(lang),
{
    match lang {
        Some(l) => l,
        None => String::from_str("en"),
    }
}

/// The argument list of a cleaning run, wrapped under the idle-sleep
/// prevention program.
pub open spec fn cleaning_args(
    python_bin: Seq<char>,
    script: Seq<char>,
    project_path: Seq<char>,
    lang: Seq<char>,
) -> Seq<Seq<char>> {
    seq!["-i"@, python_bin, script, "--project-dir"@, project_path, "--lang"@, lang]
}

/// Plans a cleaning run: the environment must be ready, the raw input
/// directory present and the worker script on disk; the worker then runs
/// under the idle-sleep prevention wrapper.
pub fn plan_cleaning(
    python_ready: bool,
    raw_exists: bool,
    script_exists: bool,
    python_bin: &str,
    script: &str,
    project_path: &str,
    lang: Option<String>,
) -> (r: Result<CommandPlan, PreconditionError>)
    ensures
        !python_ready ==> (r matches Err(e) && e is EnvNotReady),
        python_ready && !raw_exists ==> (r matches Err(e) && e is InputMissing),
        python_ready && raw_exists && !script_exists ==> (r matches Err(e) && (e
            matches PreconditionError::ScriptMissing { path } && path@ == script@)),
        python_ready && raw_exists && script_exists ==> (r matches Ok(plan) && plan.program@
            == "caffeinate"@ && seq_views(plan.args@) == cleaning_args(
            python_bin@,
            script@,
            project_path@,
            lang_or_default(lang),
        ) && plan.env@ == Seq::<(String, String)>::empty()),
{
    if !python_ready {
        return Err(PreconditionError::EnvNotReady);
    }
    if !raw_exists {
        return Err(PreconditionError::InputMissing);
    }
    if !script_exists {
        return Err(PreconditionError::ScriptMissing { path: String::from_str(script) });
    }
    let mut args: Vec<String> = Vec::new();
    args.push(String::from_str("-i"));
    args.push(String::from_str(python_bin));
    args.push(String::from_str(script));
    args.push(String::from_str("--project-dir"));
    args.push(String::from_str(project_path));
    args.push(String::from_str("--lang"));
    args.push(lang_value(lang));
    assert(seq_views(args@) =~= cleaning_args(
        python_bin@,
        script@,
        project_path@,
        lang_or_default(lang),
    ));
    Ok(CommandPlan { program: String::from_str("caffeinate"), args, env: Vec::new() })
}

/// The worker script a dataset generation run uses for its source.
pub fn generation_script_name(source: &str) -> (r: String)
    ensures
        source@ == "ollama"@ ==> r@ == "generate_dataset_ollama.py"@,
        source@ == "builtin"@ ==> r@ == "generate_dataset_builtin.py"@,
        source@ != "ollama"@ && source@ != "builtin"@ ==> r@ == "generate_dataset.py"@,
{
    proof {
        reveal_strlit("ollama");
        reveal_strlit("builtin");
        assert("ollama"@.len() != "builtin"@.len());
        assert("ollama"@ != "builtin"@);
    }
    if crate::strings::str_eq(source, "ollama") {
        String::from_str("generate_dataset_ollama.py")
    } else if crate::strings::str_eq(source, "builtin") {
        String::from_str("generate_dataset_builtin.py")
    } else {
        String::from_str("generate_dataset.py")
    }
}

/// The argument list of a dataset generation run, wrapped under the
/// idle-sleep prevention program: the model is named unless the built-in
/// source is used, resumption is optional, and the language closes the list.
pub open spec fn generation_args(
    python_bin: Seq<char>,
    script: Seq<char>,
    project_path: Seq<char>,
    output_dir: Seq<char>,
    mode: Seq<char>,
    model: Seq<char>,
    with_model: bool,
    resume: bool,
    lang: Seq<char>,
) -> Seq<Seq<char>> {
    seq!["-i"@, python_bin, script, "--project-dir"@, project_path, "--output-dir"@, output_dir, "--mode"@, mode]
        + (if with_model {
        seq!["--model"@, model]
    } else {
        Seq::<Seq<char>>::empty()
    }) + (if resume {
        seq!["--resume"@]
    } else {
        Seq::<Seq<char>>::empty()
    }) + seq!["--lang"@, lang]
}

/// Plans a dataset generation run: the environment must be ready, the
/// cleaned input present and the worker script on disk.
pub fn plan_generation(
    python_ready: bool,
    segments_exist: bool,
    script_exists: bool,
    python_bin: &str,
    script: &str,
    project_path: &str,
    output_dir: &str,
    mode: String,
    model: String,
    with_model: bool,
    resume: bool,
    lang: Option<String>,
) -> (r: Result<CommandPlan, PreconditionError>)
    ensures
        !python_ready ==> (r matches Err(e) && e is EnvNotReady),
        python_ready && !segments_exist ==> (r matches Err(e) && e is InputMissing),
        python_ready && segments_exist && !script_exists ==> (r matches Err(e) && (e
            matches PreconditionError::ScriptMissing { path } && path@ == script@)),
        python_ready && segments_exist && script_exists ==> (r matches Ok(plan) && plan.program@
            == "caffeinate"@ && seq_views(plan.args@) == generation_args(
            python_bin@,
            script@,
            project_path@,
            output_dir@,
            mode@,
            model@,
            with_model,
            resume,
            lang_or_default(lang),
        ) && plan.env@ == Seq::<(String, String)>::empty()),
{
    if !python_ready {
        return Err(PreconditionError::EnvNotReady);
    }
    if !segments_exist {
        return Err(PreconditionError::InputMissing);
    }
    if !script_exists {
        return Err(PreconditionError::ScriptMissing { path: String::from_str(script) });
    }
    let ghost expected = generation_args(
        python_bin@,
        script@,
        project_path@,
        output_dir@,
        mode@,
        model@,
        with_model,
        resume,
        lang_or_default(lang),
    );
    let mut args: Vec<String> = Vec::new();
    args.push(String::from_str("-i"));
    args.push(String::from_str(python_bin));
    args.push(String::from_str(script));
    args.push(String::from_str("--project-dir"));
    args.push(String::from_str(project_path));
    args.push(String::from_str("--output-dir"));
    args.push(String::from_str(output_dir));
    args.push(String::from_str("--mode"));
    args.push(mode);
    if with_model {
        args.push(String::from_str("--model"));
        args.push(model);
    }
    if resume {
        args.push(String::from_str("--resume"));
    }
    args.push(String::from_str("--lang"));
    args.push(lang_value(lang));
    assert(seq_views(args@) =~= expected);
    Ok(CommandPlan { program: String::from_str("caffeinate"), args, env: Vec::new() })
}

/// The argument list of an export run.
pub open spec fn export_args(
    script: Seq<char>,
    model: Seq<char>,
    adapter: Seq<char>,
    model_name: Seq<char>,
    output_dir: Seq<char>,
    quant: Seq<char>,
) -> Seq<Seq<char>> {
    seq![script, "--model"@, model, "--adapter-path"@, adapter, "--model-name"@, model_name, "--output-dir"@, output_dir, "--quantization"@, quant]
}

/// The adapter an export or inference run uses: the given path when one was
/// supplied, otherwise the newest trained adapter found on disk.
pub open spec fn chosen_adapter(given: Option<String>, latest: Option<String>) -> Option<
    Seq<char>,
> {
    match given {
        Some(p) => Some(p@),
        None => match latest {
            Some(l) => Some(l@),
            None => None,
        },
    }
}

/// The quantization argument, defaulting to four bits.
pub open spec fn quant_or_default(q: Option<String>) -> Seq<char> {
    match q {
        Some(s) => s@,
        None => "q4"@,
    }
}

/// Plans an export run: the environment must be ready, the worker script on
/// disk, and an adapter either given (and present) or found on disk; the
/// output directory is the configured export root's project subdirectory
/// when a root is configured, the project's own export directory otherwise.
pub fn plan_export(
    python_ready: bool,
    script_exists: bool,
    adapter_exists: bool,
    python_bin: &str,
    script: &str,
    adapter_path: Option<String>,
    latest_adapter: Option<String>,
    export_root: Option<String>,
    project_path: &str,
    project_id: &str,
    model: &str,
    model_name: &str,
    quantization: Option<String>,
) -> (r: Result<CommandPlan, PreconditionError>)
    ensures
        !python_ready ==> (r matches Err(e) && e is EnvNotReady),
        python_ready && !script_exists ==> (r matches Err(e) && (e
            matches PreconditionError::ScriptMissing { path } && path@ == script@)),
        python_ready && script_exists && adapter_path is Some && !adapter_exists ==> (r matches Err(
            e,
        ) && (e matches PreconditionError::AdapterMissing { path } && path@
            == adapter_path->0@)),
        python_ready && script_exists && adapter_path is None && latest_adapter is None ==> (r
            matches Err(e) && e is NoAdapter),
        python_ready && script_exists && (adapter_path is Some ==> adapter_exists)
            && chosen_adapter(adapter_path, latest_adapter) is Some ==> (r
            matches Ok(plan) && plan.program@ == python_bin@
            && seq_views(plan.args@) == export_args(
            script@,
            model@,
            chosen_adapter(adapter_path, latest_adapter)->0,
            model_name@,
            (match export_root {
                Some(er) => er@ + seq!['/'] + project_id@,
                None => project_path@ + seq!['/'] + "export"@,
            }),
            quant_or_default(quantization),
        ) && plan.env@ == Seq::<(String, String)>::empty()),
{
    if !python_ready {
        return Err(PreconditionError::EnvNotReady);
    }
    if !script_exists {
        return Err(PreconditionError::ScriptMissing { path: String::from_str(script) });
    }
    let adapter: String = match adapter_path {
        Some(p) => {
            if !adapter_exists {
                return Err(PreconditionError::AdapterMissing { path: p });
            }
            p
        },
        None => match latest_adapter {
            Some(l) => l,
            None => {
                return Err(PreconditionError::NoAdapter);
            },
        },
    };
    let output_dir: String = match export_root {
        Some(er) => crate::strings::join_path(er.as_str(), project_id),
        None => {
            proof {
                reveal_strlit("export");
            }
            crate::strings::join_path(project_path, "export")
        },
    };
    let quant: String = match quantization {
        Some(q) => q,
        None => String::from_str("q4"),
    };
    let mut args: Vec<String> = Vec::new();
    args.push(String::from_str(script));
    args.push(String::from_str("--model"));
    args.push(String::from_str(model));
    args.push(String::from_str("--adapter-path"));
    args.push(adapter);
    args.push(String::from_str("--model-name"));
    args.push(String::from_str(model_name));
    args.push(String::from_str("--output-dir"));
    args.push(output_dir);
    args.push(String::from_str("--quantization"));
    args.push(quant);
    assert(seq_views(args@) =~= export_args(
        script@,
        model@,
        chosen_adapter(adapter_path, latest_adapter)->0,
        model_name@,
        (match export_root {
            Some(er) => er@ + seq!['/'] + project_id@,
            None => project_path@ + seq!['/'] + "export"@,
        }),
        quant_or_default(quantization),
    ));
    Ok(CommandPlan { program: String::from_str(python_bin), args, env: Vec::new() })
}

/// The rendering of a temperature given in hundredths: the whole part, a
/// dot, then exactly two fractional digits.
pub open spec fn temp_chars(centi: nat) -> Seq<char> {
    dec_chars(centi / 100) + seq!['.'] + pad2_chars(centi % 100)
}

/// Renders a temperature given in hundredths.
pub fn format_temp_centi(centi: u32) -> (r: String)
    ensures
        r@ == temp_chars(centi as nat),
{
    let mut out = String::new();
    push_dec_u32(&mut out, centi / 100);
    proof {
        reveal_strlit(".");
        assert("."@ =~= seq!['.']);
    }
    out.append(".");
    push_pad2(&mut out, centi % 100);
    assert(out@ =~= temp_chars(centi as nat));
    out
}

/// The argument list of an inference run.
pub open spec fn inference_args(
    script: Seq<char>,
    model: Seq<char>,
    prompt: Seq<char>,
    max_tokens: nat,
    temp_centi: nat,
    adapter: Option<Seq<char>>,
    lang: Seq<char>,
) -> Seq<Seq<char>> {
    seq![script, "--model"@, model, "--prompt"@, prompt, "--max-tokens"@, dec_chars(max_tokens), "--temp"@, temp_chars(
        temp_centi,
    )] + (match adapter {
        Some(a) => seq!["--adapter-path"@, a],
        None => Seq::<Seq<char>>::empty(),
    }) + seq!["--lang"@, lang]
}

/// Plans an inference run: the environment must be ready and the worker
/// script on disk; token budget and temperature take their defaults when
/// not given, and the newest adapter stands in for a missing one.
pub fn plan_inference(
    python_ready: bool,
    script_exists: bool,
    python_bin: &str,
    script: &str,
    model: String,
    prompt: String,
    max_tokens: Option<u32>,
    temp_centi: Option<u32>,
    adapter: Option<String>,
    lang: Option<String>,
) -> (r: Result<CommandPlan, PreconditionError>)
    ensures
        !python_ready ==> (r matches Err(e) && e is EnvNotReady),
        python_ready && !script_exists ==> (r matches Err(e) && (e
            matches PreconditionError::ScriptMissing { path } && path@ == script@)),
        python_ready && script_exists ==> (r matches Ok(plan) && plan.program@ == python_bin@
            && seq_views(plan.args@) == inference_args(
            script@,
            model@,
            prompt@,
            (match max_tokens {
                Some(t) => t as nat,
                None => 512,
            }),
            (match temp_centi {
                Some(t) => t as nat,
                None => 70,
            }),
            (match adapter {
                Some(a) => Some(a@),
                None => None,
            }),
            lang_or_default(lang),
        ) && plan.env@ == Seq::<(String, String)>::empty()),
{
    if !python_ready {
        return Err(PreconditionError::EnvNotReady);
    }
    if !script_exists {
        return Err(PreconditionError::ScriptMissing { path: String::from_str(script) });
    }
    let tokens: u32 = match max_tokens {
        Some(t) => t,
        None => 512,
    };
    let centi: u32 = match temp_centi {
        Some(t) => t,
        None => 70,
    };
    let mut args: Vec<String> = Vec::new();
    args.push(String::from_str(script));
    args.push(String::from_str("--model"));
    args.push(model);
    args.push(String::from_str("--prompt"));
    args.push(prompt);
    args.push(String::from_str("--max-tokens"));
    args.push(crate::strings::dec_u32_string(tokens));
    args.push(String::from_str("--temp"));
    args.push(format_temp_centi(centi));
    match adapter {
        Some(a) => {
            args.push(String::from_str("--adapter-path"));
            args.push(a);
        },
        None => {},
    }
    args.push(String::from_str("--lang"));
    args.push(lang_value(lang));
    assert(seq_views(args@) =~= inference_args(
        script@,
        model@,
        prompt@,
        tokens as nat,
        centi as nat,
        (match adapter {
            Some(a) => Some(a@),
            None => None,
        }),
        lang_or_default(lang),
    ));
    Ok(
        CommandPlan {
            program: String::from_str(python_bin),
            args,
            env: Vec::new(),
        },
    )
}

/// The argument list of a model download run.
pub open spec fn download_args(
    script: Seq<char>,
    repo_id: Seq<char>,
    cache_dir: Option<Seq<char>>,
) -> Seq<Seq<char>> {
    seq![script, repo_id] + (match cache_dir {
        Some(d) => seq!["--cache-dir"@, d],
        None => Seq::<Seq<char>>::empty(),
    })
}

/// Plans a model download run: the environment must be ready and the worker
/// script on disk; a configured cache directory is passed through, and a
/// configured mirror endpoint becomes an environment override.
pub fn plan_download(
    python_ready: bool,
    script_exists: bool,
    python_bin: &str,
    script: &str,
    repo_id: String,
    cache_dir: Option<String>,
    hf_endpoint: Option<String>,
) -> (r: Result<CommandPlan, PreconditionError>)
    ensures
        !python_ready ==> (r matches Err(e) && e is EnvNotReady),
        python_ready && !script_exists ==> (r matches Err(e) && (e
            matches PreconditionError::ScriptMissing { path } && path@ == script@)),
        python_ready && script_exists ==> (r matches Ok(plan) && plan.program@ == python_bin@
            && seq_views(plan.args@) == download_args(
            script@,
            repo_id@,
            (match cache_dir {
                Some(d) => Some(d@),
                None => None,
            }),
        ) && (match hf_endpoint {
            Some(ep) => plan.env@.len() == 1 && plan.env@[0].0@ == "HF_ENDPOINT"@
                && plan.env@[0].1 == ep,
            None => plan.env@.len() == 0,
        })),
{
    if !python_ready {
        return Err(PreconditionError::EnvNotReady);
    }
    if !script_exists {
        return Err(PreconditionError::ScriptMissing { path: String::from_str(script) });
    }
    let mut args: Vec<String> = Vec::new();
    args.push(String::from_str(script));
    args.push(repo_id);
    match cache_dir {
        Some(d) => {
            args.push(String::from_str("--cache-dir"));
            args.push(d);
        },
        None => {},
    }
    let mut env: Vec<(String, String)> = Vec::new();
    match hf_endpoint {
        Some(ep) => {
            env.push((String::from_str("HF_ENDPOINT"), ep));
        },
        None => {},
    }
    assert(seq_views(args@) =~= download_args(
        script@,
        repo_id@,
        (match cache_dir {
            Some(d) => Some(d@),
            None => None,
        }),
    ));
    Ok(CommandPlan { program: String::from_str(python_bin), args, env })
}

} // verus!
