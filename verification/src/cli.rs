//! The command line: which options the harness takes, and what a parsed
//! command line sets.  `clap` parses the arguments; the options it is given
//! and what is read back from its matches are decided here.
use vstd::prelude::*;
use OptionKind::{Count, Flag, Value};

verus! {

/// How an option is given.
#[derive(Debug, Clone, Copy, PartialEq, Eq, Structural)]
pub enum OptionKind {
    /// `--long VALUE`; absent when not given.
    Value,
    /// A flag that counts how often it is given.
    Count,
    /// A flag that is set when given.
    Flag,
}

/// One option of the command line.
pub struct OptionSpec {
    /// The name its value is found under.
    pub id: &'static str,
    pub long: &'static str,
    /// The one-letter form, if it has one.
    pub short: Option<char>,
    /// The name shown for its value (for [`OptionKind::Value`]).
    pub value_name: &'static str,
    pub help: &'static str,
    pub kind: OptionKind,
}

/// What an [`OptionSpec`] holds.
pub struct OptionSpecView {
    pub id: Seq<char>,
    pub long: Seq<char>,
    pub short: Option<char>,
    pub value_name: Seq<char>,
    pub help: Seq<char>,
    pub kind: OptionKind,
}

impl View for OptionSpec {
    type V = OptionSpecView;

    open spec fn view(&self) -> OptionSpecView {
        OptionSpecView {
            id: self.id@,
            long: self.long@,
            short: self.short,
            value_name: self.value_name@,
            help: self.help@,
            kind: self.kind,
        }
    }
}

/// The command: its name, version, author, description and options.
pub struct CommandSpec {
    pub name: &'static str,
    pub version: &'static str,
    pub author: &'static str,
    pub about: &'static str,
    pub options: Vec<OptionSpec>,
}

/// What a [`CommandSpec`] holds.
pub struct CommandSpecView {
    pub name: Seq<char>,
    pub version: Seq<char>,
    pub author: Seq<char>,
    pub about: Seq<char>,
    pub options: Seq<OptionSpecView>,
}

impl View for CommandSpec {
    type V = CommandSpecView;

    open spec fn view(&self) -> CommandSpecView {
        CommandSpecView {
            name: self.name@,
            version: self.version@,
            author: self.author@,
            about: self.about@,
            options: self.options@.map_values(|o: OptionSpec| o@),
        }
    }
}

/// What was given for an option.
pub enum OptionValue {
    Value(Option<String>),
    Count(u8),
    Flag(bool),
}

/// What an [`OptionValue`] holds.
pub enum OptionValueView {
    Value(Option<Seq<char>>),
    Count(u8),
    Flag(bool),
}

impl View for OptionValue {
    type V = OptionValueView;

    open spec fn view(&self) -> OptionValueView {
        match self {
            OptionValue::Value(v) => OptionValueView::Value(crate::types::opt_text(*v)),
            OptionValue::Count(n) => OptionValueView::Count(*n),
            OptionValue::Flag(b) => OptionValueView::Flag(*b),
        }
    }
}

/// Why a command line was not parsed: an error, or a request for help or
/// the version; with the text to show, where to show it and the exit code.
pub struct CliFailure {
    pub exit_code: i32,
    pub use_stderr: bool,
    pub message: String,
}

impl CliFailure {
    /// A failure with this exit code, stream and text.
    pub fn of(exit_code: i32, use_stderr: bool, message: String) -> (r: CliFailure)
        ensures
            r.exit_code == exit_code,
            r.use_stderr == use_stderr,
            r.message@ == message@,
    {
        CliFailure { exit_code, use_stderr, message }
    }
}

/// What a [`CliFailure`] holds.
pub struct CliFailureView {
    pub exit_code: i32,
    pub use_stderr: bool,
    pub message: Seq<char>,
}

impl View for CliFailure {
    type V = CliFailureView;

    open spec fn view(&self) -> CliFailureView {
        CliFailureView { exit_code: self.exit_code, use_stderr: self.use_stderr, message: self.message@ }
    }
}

/// Whether a value was given for an option of its kind.
pub open spec fn value_fits(o: OptionSpecView, v: OptionValueView) -> bool {
    match o.kind {
        OptionKind::Value => v is Value,
        OptionKind::Count => v is Count,
        OptionKind::Flag => v is Flag,
    }
}

/// Whether `clap` accepts a command with these options: no two options
/// share a name, a long form or a short form, none takes the forms of the
/// help and version flags that `clap` adds, no short form is `-` and no
/// long form starts with `-` (`clap` asserts against both).
pub open spec fn options_well_formed(options: Seq<OptionSpecView>) -> bool {
    &&& forall|i: int, j: int| 0 <= i < j < options.len() ==> {
        &&& (#[trigger] options[i]).id != (#[trigger] options[j]).id
        &&& options[i].long != options[j].long
        &&& (options[i].short is Some ==> options[i].short != options[j].short)
    }
    &&& forall|i: int| 0 <= i < options.len() ==> {
        &&& (#[trigger] options[i]).short != Some('h') && options[i].short != Some('V')
        &&& options[i].short != Some('-')
        &&& !(options[i].long.len() > 0 && options[i].long[0] == '-')
        &&& options[i].long != "help"@ && options[i].long != "version"@
        &&& options[i].id != "help"@ && options[i].id != "version"@
    }
}

/// `clap`'s record of a parsed command line.
#[verifier::external_type_specification]
#[verifier::external_body]
pub struct ExArgMatches(clap::ArgMatches);

/// What a `clap::ArgMatches` holds: for each argument id, the value
/// recorded for it.
pub uninterp spec fn clap_matched(m: clap::ArgMatches) -> Map<Seq<char>, OptionValueView>;

/// What `clap` makes of the arguments `args` (the program name first) for
/// the command `command`: the value recorded for each argument id, or why
/// it did not parse them.
pub uninterp spec fn clap_outcome(command: CommandSpecView, args: Seq<Seq<char>>) -> Result<
    Map<Seq<char>, OptionValueView>,
    CliFailureView,
>;

/// Builds a `clap::Command` from `spec` (each option an `Arg` with its
/// long and short forms and help; a value option with its value name and
/// the default `Set` action, a counting one with `ArgAction::Count`, a flag
/// with `ArgAction::SetTrue`) and calls `try_get_matches_from(args)`; a
/// clap error becomes a [`CliFailure`] with its exit code, stream and
/// text.  Claimed: the matches, or the failure, are the ones named by
/// [`clap_outcome`]; the matches record a value of its kind for every
/// option (clap records a default for every declared argument).
#[verifier::external_body]
fn clap_parse(spec: &CommandSpec, args: &Vec<String>) -> (r: Result<clap::ArgMatches, CliFailure>)
    requires
        options_well_formed(spec@.options),
    ensures
        match r {
            Ok(m) => {
                &&& clap_outcome(spec@, args@.map_values(|a: String| a@)) == Ok::<
                    Map<Seq<char>, OptionValueView>,
                    CliFailureView,
                >(clap_matched(m))
                &&& forall|i: int| 0 <= i < spec@.options.len() ==> clap_matched(m).dom().contains(
                    #[trigger] spec@.options[i].id,
                ) && value_fits(spec@.options[i], clap_matched(m)[spec@.options[i].id])
            },
            Err(e) => clap_outcome(spec@, args@.map_values(|a: String| a@)) == Err::<
                Map<Seq<char>, OptionValueView>,
                CliFailureView,
            >(e@),
        },
{
    let mut cmd = clap::Command::new(spec.name).version(spec.version).author(spec.author).about(spec.about);
    for o in &spec.options {
        let a = clap::Arg::new(o.id).long(o.long).short(o.short).help(o.help);
        cmd = cmd.arg(match o.kind {
            Value => a.value_name(o.value_name),
            Count => a.action(clap::ArgAction::Count),
            Flag => a.action(clap::ArgAction::SetTrue),
        });
    }
    cmd.try_get_matches_from(args).map_err(|e| CliFailure { exit_code: e.exit_code(), use_stderr: e.use_stderr(), message: e.to_string() })
}

/// Reads what `m` recorded for option `o`: `get_one::<String>` for a
/// value option, `get_count` for a counting one, `get_flag` for a flag.
/// Claimed: the value named by [`clap_matched`] for the option's id.
#[verifier::external_body]
fn clap_value(m: &clap::ArgMatches, o: &OptionSpec) -> (r: OptionValue)
    requires
        clap_matched(*m).dom().contains(o@.id),
        value_fits(o@, clap_matched(*m)[o@.id]),
    ensures
        r@ == clap_matched(*m)[o@.id],
{
    match o.kind {
        Value => OptionValue::Value(m.get_one(o.id).cloned()),
        Count => OptionValue::Count(m.get_count(o.id)),
        Flag => OptionValue::Flag(m.get_flag(o.id)),
    }
}

/// The help text of `--reg-init-code`.
pub const REG_INIT_CODE_HELP: &'static str = "RegInit mode: if set, RegInit will be initialized through code; otherwise RegInit will be converted to initialization instructions";

/// The options of the harness, in the order of the fields of [`Cli`].
pub open spec fn cli_options() -> Seq<OptionSpecView> {
    seq![
        OptionSpecView { id: "test_file"@, long: "test"@, short: Some('t'), value_name: "FILE"@, help: "测试模式：指定要测试的汇编文件"@, kind: OptionKind::Value },
        OptionSpecView { id: "include_path"@, long: "include"@, short: Some('i'), value_name: "PATH"@, help: "包含路径：指定汇编文件的包含路径"@, kind: OptionKind::Value },
        OptionSpecView { id: "output_file"@, long: "output"@, short: Some('o'), value_name: "FILE"@, help: "输出模式：指定输出文件路径"@, kind: OptionKind::Value },
        OptionSpecView { id: "verbose"@, long: "verbose"@, short: Some('v'), value_name: ""@, help: "详细模式：显示更多执行信息"@, kind: OptionKind::Count },
        OptionSpecView { id: "quiet"@, long: "quiet"@, short: Some('q'), value_name: ""@, help: "静默模式：不显示任何输出"@, kind: OptionKind::Flag },
        OptionSpecView { id: "reg_init_code"@, long: "reg-init-code"@, short: None, value_name: ""@, help: REG_INIT_CODE_HELP@, kind: OptionKind::Flag },
    ]
}

/// The command of the harness: `x86-asm-test`, version 0.1.0, with
/// [`cli_options`].
pub open spec fn cli_command() -> CommandSpecView {
    CommandSpecView {
        name: "x86-asm-test"@,
        version: "0.1.0"@,
        author: "Your Name <your.email@example.com>"@,
        about: "x86汇编测试框架"@,
        options: cli_options(),
    }
}

/// The command line of the harness.
pub struct Cli {
    /// The assembly file to test.
    pub test_file: Option<String>,
    /// The include path for the assembly file.
    pub include_path: Option<String>,
    /// Where to write the result file.
    pub output_file: Option<String>,
    /// How many times `--verbose` was given.
    pub verbose: u8,
    /// Whether `--quiet` was given.
    pub quiet: bool,
    /// Whether `--reg-init-code` was given: the initial registers are then
    /// set by instructions put before the code, not by the harness.
    pub reg_init_code: bool,
}

/// The text given for a value option.
pub open spec fn given_text(v: OptionValueView) -> Option<Seq<char>> {
    match v {
        OptionValueView::Value(t) => t,
        _ => None,
    }
}

/// The count given for a counting option.
pub open spec fn given_count(v: OptionValueView) -> u8 {
    match v {
        OptionValueView::Count(n) => n,
        _ => 0,
    }
}

/// Whether a flag was given.
pub open spec fn given_flag(v: OptionValueView) -> bool {
    match v {
        OptionValueView::Flag(b) => b,
        _ => false,
    }
}

/// The command of the harness (see [`cli_command`]).
fn command_spec() -> (r: CommandSpec)
    ensures
        r@ == cli_command(),
        options_well_formed(r@.options),
{
    let mut options: Vec<OptionSpec> = Vec::new();
    options.push(OptionSpec { id: "test_file", long: "test", short: Some('t'), value_name: "FILE", help: "测试模式：指定要测试的汇编文件", kind: OptionKind::Value });
    options.push(OptionSpec { id: "include_path", long: "include", short: Some('i'), value_name: "PATH", help: "包含路径：指定汇编文件的包含路径", kind: OptionKind::Value });
    options.push(OptionSpec { id: "output_file", long: "output", short: Some('o'), value_name: "FILE", help: "输出模式：指定输出文件路径", kind: OptionKind::Value });
    options.push(OptionSpec { id: "verbose", long: "verbose", short: Some('v'), value_name: "", help: "详细模式：显示更多执行信息", kind: OptionKind::Count });
    options.push(OptionSpec { id: "quiet", long: "quiet", short: Some('q'), value_name: "", help: "静默模式：不显示任何输出", kind: OptionKind::Flag });
    options.push(OptionSpec { id: "reg_init_code", long: "reg-init-code", short: None, value_name: "", help: REG_INIT_CODE_HELP, kind: OptionKind::Flag });
    let r = CommandSpec {
        name: "x86-asm-test",
        version: "0.1.0",
        author: "Your Name <your.email@example.com>",
        about: "x86汇编测试框架",
        options,
    };
    proof {
        reveal_strlit("test_file");
        reveal_strlit("include_path");
        reveal_strlit("output_file");
        reveal_strlit("verbose");
        reveal_strlit("quiet");
        reveal_strlit("test");
        reveal_strlit("include");
        reveal_strlit("output");
        reveal_strlit("help");
        reveal_strlit("version");
        reveal_strlit("reg_init_code");
        reveal_strlit("reg-init-code");
        assert(r@.options =~= cli_options());
        let o = cli_options();
        assert("include"@[0] != "verbose"@[0]);
        assert("verbose"@[3] != "version"@[3]);
        assert("include"@[0] != "version"@[0]);
        assert forall|i: int, j: int| 0 <= i < j < o.len() implies {
            &&& (#[trigger] o[i]).id != (#[trigger] o[j]).id
            &&& o[i].long != o[j].long
            &&& o[i].short != o[j].short
        } by {
            assert(o[i].id.len() != o[j].id.len());
            if o[i].long.len() == o[j].long.len() {
                assert(o[i].long[0] != o[j].long[0]);
            }
        }
        assert forall|i: int| 0 <= i < o.len() implies {
            &&& (#[trigger] o[i]).short != Some('h') && o[i].short != Some('V')
            &&& o[i].short != Some('-')
            &&& !(o[i].long.len() > 0 && o[i].long[0] == '-')
            &&& o[i].long != "help"@ && o[i].long != "version"@
            &&& o[i].id != "help"@ && o[i].id != "version"@
        } by {
            if o[i].long.len() == 7 {
                assert(o[i].long[3] != "version"@[3] || o[i].long[0] != "version"@[0]);
            }
            if o[i].long.len() == 4 {
                assert(o[i].long[0] != "help"@[0]);
            }
            if o[i].id.len() == 7 {
                assert(o[i].id[3] != "version"@[3]);
            }
        }
    }
    r
}

impl Cli {
    /// Parses the command line `args` (the program name first) with `clap`
    /// (see [`clap_outcome`] and [`cli_command`]): each field is what was
    /// given for its option; or why the arguments were not parsed.
    pub fn parse_args(args: &Vec<String>) -> (r: Result<Cli, CliFailure>)
        ensures
            match clap_outcome(cli_command(), args@.map_values(|a: String| a@)) {
                Ok(m) => r matches Ok(c) && crate::types::opt_text(c.test_file) == given_text(m["test_file"@])
                    && crate::types::opt_text(c.include_path) == given_text(m["include_path"@])
                    && crate::types::opt_text(c.output_file) == given_text(m["output_file"@])
                    && c.verbose == given_count(m["verbose"@]) && c.quiet == given_flag(m["quiet"@])
                    && c.reg_init_code == given_flag(m["reg_init_code"@]),
                Err(f) => r matches Err(e) && e@ == f,
            },
    {
        let spec = command_spec();
        let m = match clap_parse(&spec, args) {
            Err(e) => return Err(e),
            Ok(m) => m,
        };
        let ghost opts = spec@.options;
        assert(opts[0].id == "test_file"@ && opts[1].id == "include_path"@ && opts[2].id == "output_file"@);
        assert(opts[3].id == "verbose"@ && opts[4].id == "quiet"@);
        assert(spec.options@[0]@ == opts[0] && spec.options@[1]@ == opts[1] && spec.options@[2]@ == opts[2]);
        assert(spec.options@[3]@ == opts[3] && spec.options@[4]@ == opts[4]);
        assert(opts[5].id == "reg_init_code"@ && spec.options@[5]@ == opts[5]);
        let test_file = match clap_value(&m, &spec.options[0]) {
            OptionValue::Value(v) => v,
            _ => None,
        };
        let include_path = match clap_value(&m, &spec.options[1]) {
            OptionValue::Value(v) => v,
            _ => None,
        };
        let output_file = match clap_value(&m, &spec.options[2]) {
            OptionValue::Value(v) => v,
            _ => None,
        };
        let verbose = match clap_value(&m, &spec.options[3]) {
            OptionValue::Count(n) => n,
            _ => 0,
        };
        let quiet = match clap_value(&m, &spec.options[4]) {
            OptionValue::Flag(b) => b,
            _ => false,
        };
        let reg_init_code = match clap_value(&m, &spec.options[5]) {
            OptionValue::Flag(b) => b,
            _ => false,
        };
        Ok(Cli { test_file, include_path, output_file, verbose, quiet, reg_init_code })
    }
}

} // verus!
