//! Rules of the training subprocess: the command line it is started with, how
//! its progress reports are read, and when progress is saved.
use vstd::prelude::*;
use crate::text::{chars_of, contains_chars, decimal_chars, decimal_string, is_substr, string_views};

verus! {

/// Progress is saved every this many steps.
pub const CHECKPOINT_THROTTLE_INTERVAL: u64 = 100;

/// Whether progress at `step` is saved: at every positive multiple of
/// [`CHECKPOINT_THROTTLE_INTERVAL`].
pub fn should_write_checkpoint(step: u64) -> (r: bool)
    ensures
        r == (step > 0 && step % CHECKPOINT_THROTTLE_INTERVAL == 0),
{
    step > 0 && step % CHECKPOINT_THROTTLE_INTERVAL == 0
}

/// Whether the training script is a shell command line (it holds a space)
/// rather than a Python file.
pub fn uses_shell(script: &str) -> (r: bool)
    ensures
        r == is_substr(script@, seq![' ']),
{
    let cs = chars_of(script);
    let mut space: Vec<char> = Vec::new();
    space.push(' ');
    proof {
        assert(space@ =~= seq![' ']);
    }
    contains_chars(&cs, &space)
}

/// The epoch and step of a progress report whose `epoch` and `step` fields
/// may be missing: the epoch defaults to 1 and is at least 1 (then narrowed
/// to 32 bits), the step defaults to 0.
pub fn progress_position(epoch: Option<u64>, step: Option<u64>) -> (r: (u32, u64))
    ensures
        r.0 == (match epoch {
            Some(e) => if e >= 1 {
                e
            } else {
                1
            },
            None => 1,
        }) as u32,
        r.1 == match step {
            Some(s) => s,
            None => 0,
        },
{
    let e: u64 = match epoch {
        Some(e) => if e >= 1 {
            e
        } else {
            1
        },
        None => 1,
    };
    let s: u64 = match step {
        Some(s) => s,
        None => 0,
    };
    (e as u32, s)
}

/// The port the training processes rendezvous on: 29500 plus the process id
/// modulo 1000.
pub fn master_port(pid: u32) -> (r: u32)
    ensures
        r == 29500 + pid % 1000,
{
    29500 + pid % 1000
}

/// A program and its arguments.
pub struct CommandLine {
    pub program: String,
    pub args: Vec<String>,
}

/// How a repository-based training run is started: through `bash -c` with the
/// prepared spawn command when there is one, else by running the model path
/// with `python3`.
pub open spec fn real_training_command(spawn_cmd: Option<Seq<char>>, model_path: Seq<char>) -> (Seq<char>, Seq<Seq<char>>) {
    match spawn_cmd {
        Some(c) => ("bash"@, seq!["-c"@, c]),
        None => ("python3"@, seq![model_path]),
    }
}

/// Builds the command that starts a repository-based training run.
pub fn real_training_command_line(spawn_cmd: Option<&str>, model_path: &str) -> (r: CommandLine)
    ensures
        (r.program@, string_views(r.args@)) == real_training_command(
            match spawn_cmd {
                Some(c) => Some(c@),
                None => None,
            },
            model_path@,
        ),
{
    let mut args: Vec<String> = Vec::new();
    match spawn_cmd {
        Some(c) => {
            args.push(String::from_str("-c"));
            args.push(String::from_str(c));
            let r = CommandLine { program: String::from_str("bash"), args };
            proof {
                assert(string_views(r.args@) =~= seq!["-c"@, c@]);
            }
            r
        },
        None => {
            args.push(String::from_str(model_path));
            let r = CommandLine { program: String::from_str("python3"), args };
            proof {
                assert(string_views(r.args@) =~= seq![model_path@]);
            }
            r
        },
    }
}

/// The arguments after the script that describe the run and the shard.
pub open spec fn shard_args(
    model_path: Seq<char>,
    dataset_path: Seq<char>,
    batch_size: u32,
    learning_rate: Seq<char>,
    shard_index: u32,
    shard_start: u64,
    shard_end: u64,
) -> Seq<Seq<char>> {
    seq![
        "--model-path"@, model_path,
        "--dataset-path"@, dataset_path,
        "--batch-size"@, decimal_chars(batch_size as nat),
        "--learning-rate"@, learning_rate,
        "--shard-index"@, decimal_chars(shard_index as nat),
        "--shard-start"@, decimal_chars(shard_start as nat),
        "--shard-end"@, decimal_chars(shard_end as nat),
    ]
}

/// Appends `flag` and then `value` to `args`.
fn push_flag(args: &mut Vec<String>, flag: &str, value: String)
    ensures
        string_views(final(args)@) == string_views(old(args)@) + seq![flag@, value@],
{
    let ghost before = string_views(args@);
    args.push(String::from_str(flag));
    args.push(value);
    proof {
        assert(string_views(args@) =~= before + seq![flag@, value@]);
    }
}

/// How a plain training run is started: `python <script>` followed by the
/// run's and the shard's parameters. The learning rate comes already
/// rendered as text.
pub fn training_command_line(
    script: &str,
    model_path: &str,
    dataset_path: &str,
    batch_size: u32,
    learning_rate: &str,
    shard_index: u32,
    shard_start: u64,
    shard_end: u64,
) -> (r: CommandLine)
    ensures
        r.program@ == "python"@,
        string_views(r.args@) == seq![script@] + shard_args(
            model_path@,
            dataset_path@,
            batch_size,
            learning_rate@,
            shard_index,
            shard_start,
            shard_end,
        ),
{
    let mut args: Vec<String> = Vec::new();
    args.push(String::from_str(script));
    push_flag(&mut args, "--model-path", String::from_str(model_path));
    push_flag(&mut args, "--dataset-path", String::from_str(dataset_path));
    push_flag(&mut args, "--batch-size", decimal_string(batch_size as u64));
    push_flag(&mut args, "--learning-rate", String::from_str(learning_rate));
    push_flag(&mut args, "--shard-index", decimal_string(shard_index as u64));
    push_flag(&mut args, "--shard-start", decimal_string(shard_start));
    push_flag(&mut args, "--shard-end", decimal_string(shard_end));
    let r = CommandLine { program: String::from_str("python"), args };
    proof {
        assert(string_views(r.args@) =~= seq![script@] + shard_args(
            model_path@,
            dataset_path@,
            batch_size,
            learning_rate@,
            shard_index,
            shard_start,
            shard_end,
        ));
    }
    r
}

/// The `--dataset-url` flags for each dataset, in order.
pub open spec fn dataset_url_args(urls: Seq<Seq<char>>) -> Seq<Seq<char>>
    decreases urls.len(),
{
    if urls.len() == 0 {
        Seq::<Seq<char>>::empty()
    } else {
        dataset_url_args(urls.drop_last()) + seq!["--dataset-url"@, urls.last()]
    }
}

/// How a training run that reports progress is started: a script holding a
/// space runs through `sh -c`, any other through `python`; the run's
/// parameters follow, the learning rate and compute capability already
/// rendered as text.
pub open spec fn progress_command(
    script: Seq<char>,
    model_path: Seq<char>,
    dataset_path: Seq<char>,
    dataset_urls: Seq<Seq<char>>,
    batch_size: u32,
    learning_rate: Seq<char>,
    epochs: u32,
    shard_index: u32,
    shard_start: u64,
    shard_end: u64,
    gpu_cc: Seq<char>,
) -> (Seq<char>, Seq<Seq<char>>) {
    let shell = is_substr(script, seq![' ']);
    let head = if shell {
        seq!["-c"@, script]
    } else {
        seq![script]
    };
    (
        if shell {
            "sh"@
        } else {
            "python"@
        },
        head + seq!["--model-path"@, model_path, "--dataset-path"@, dataset_path] + dataset_url_args(
            dataset_urls,
        ) + seq![
            "--batch-size"@, decimal_chars(batch_size as nat),
            "--learning-rate"@, learning_rate,
            "--epochs"@, decimal_chars(epochs as nat),
            "--shard-index"@, decimal_chars(shard_index as nat),
            "--shard-start"@, decimal_chars(shard_start as nat),
            "--shard-end"@, decimal_chars(shard_end as nat),
            "--gpu-cc"@, gpu_cc,
        ],
    )
}

/// Builds the command that starts a training run reporting progress.
pub fn progress_command_line(
    script: &str,
    model_path: &str,
    dataset_path: &str,
    dataset_urls: &Vec<String>,
    batch_size: u32,
    learning_rate: &str,
    epochs: u32,
    shard_index: u32,
    shard_start: u64,
    shard_end: u64,
    gpu_cc: &str,
) -> (r: CommandLine)
    ensures
        (r.program@, string_views(r.args@)) == progress_command(
            script@,
            model_path@,
            dataset_path@,
            string_views(dataset_urls@),
            batch_size,
            learning_rate@,
            epochs,
            shard_index,
            shard_start,
            shard_end,
            gpu_cc@,
        ),
{
    let shell = uses_shell(script);
    let mut args: Vec<String> = Vec::new();
    if shell {
        args.push(String::from_str("-c"));
    }
    args.push(String::from_str(script));
    let ghost head = string_views(args@);
    proof {
        if shell {
            assert(head =~= seq!["-c"@, script@]);
        } else {
            assert(head =~= seq![script@]);
        }
    }
    push_flag(&mut args, "--model-path", String::from_str(model_path));
    push_flag(&mut args, "--dataset-path", String::from_str(dataset_path));
    let ghost before_urls = string_views(args@);
    let mut i: usize = 0;
    while i < dataset_urls.len()
        invariant
            i <= dataset_urls@.len(),
            string_views(args@) == before_urls + dataset_url_args(string_views(dataset_urls@).take(i as int)),
        decreases dataset_urls@.len() - i,
    {
        push_flag(&mut args, "--dataset-url", dataset_urls[i].clone());
        proof {
            let t = string_views(dataset_urls@).take(i + 1);
            assert(t.drop_last() =~= string_views(dataset_urls@).take(i as int));
        }
        i = i + 1;
    }
    proof {
        assert(string_views(dataset_urls@).take(i as int) =~= string_views(dataset_urls@));
    }
    push_flag(&mut args, "--batch-size", decimal_string(batch_size as u64));
    push_flag(&mut args, "--learning-rate", String::from_str(learning_rate));
    push_flag(&mut args, "--epochs", decimal_string(epochs as u64));
    push_flag(&mut args, "--shard-index", decimal_string(shard_index as u64));
    push_flag(&mut args, "--shard-start", decimal_string(shard_start));
    push_flag(&mut args, "--shard-end", decimal_string(shard_end));
    push_flag(&mut args, "--gpu-cc", String::from_str(gpu_cc));
    let program = if shell {
        String::from_str("sh")
    } else {
        String::from_str("python")
    };
    let r = CommandLine { program, args };
    proof {
        let expected = progress_command(
            script@,
            model_path@,
            dataset_path@,
            string_views(dataset_urls@),
            batch_size,
            learning_rate@,
            epochs,
            shard_index,
            shard_start,
            shard_end,
            gpu_cc@,
        );
        assert(string_views(r.args@) =~= expected.1);
    }
    r
}

} // verus!

verus! {

/// What a line of the training process's output announces.
#[derive(Debug, Clone, Copy, PartialEq, Eq)]
pub enum PythonLineKind {
    /// `DRIFT_READY`: the process is ready to train.
    Ready,
    /// `DRIFT_DONE`: training has finished.
    Done,
    /// Anything else: a progress report or plain output.
    Other,
}

/// What `line` announces: its trimmed text is `DRIFT_READY` or `DRIFT_DONE`,
/// or it is some other line.
pub open spec fn python_line_kind_of(line: Seq<char>) -> PythonLineKind {
    if crate::text::trim(line) == "DRIFT_READY"@ {
        PythonLineKind::Ready
    } else if crate::text::trim(line) == "DRIFT_DONE"@ {
        PythonLineKind::Done
    } else {
        PythonLineKind::Other
    }
}

/// Whether `cs[a..b]` is `word`.
fn chars_are(cs: &Vec<char>, a: usize, b: usize, word: &str) -> (r: bool)
    requires
        a <= b <= cs@.len(),
    ensures
        r == (cs@.subrange(a as int, b as int) == word@),
{
    let w = chars_of(word);
    if b - a != w.len() {
        return false;
    }
    let mut i: usize = 0;
    while i < w.len()
        invariant
            a <= b <= cs@.len(),
            w@ == word@,
            b - a == w@.len(),
            i <= w@.len(),
            forall|j: int| 0 <= j < i ==> cs@[a + j] == w@[j],
        decreases w@.len() - i,
    {
        if cs[a + i] != w[i] {
            proof {
                assert(cs@.subrange(a as int, b as int)[i as int] != w@[i as int]);
            }
            return false;
        }
        i = i + 1;
    }
    proof {
        assert(cs@.subrange(a as int, b as int) =~= w@);
    }
    true
}

/// Reads what a line of the training process's output announces.
pub fn python_line_kind(line: &str) -> (r: PythonLineKind)
    ensures
        r == python_line_kind_of(line@),
{
    let cs = chars_of(line);
    let (a, b) = crate::text::trim_bounds(&cs, 0, cs.len());
    proof {
        assert(cs@.subrange(0, cs@.len() as int) =~= cs@);
    }
    if chars_are(&cs, a, b, "DRIFT_READY") {
        PythonLineKind::Ready
    } else if chars_are(&cs, a, b, "DRIFT_DONE") {
        PythonLineKind::Done
    } else {
        PythonLineKind::Other
    }
}

} // verus!
