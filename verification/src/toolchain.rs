//! Building the test program: which files NASM and the linker write, the
//! command lines they are run with, which linker is used, and what their
//! outcome is reported as.  Running the tools is left to the caller.
use crate::error::AsmTestError;
use crate::types::{opt_text, AsmTestConfig};
use vstd::prelude::*;

verus! {

/// What `std::path::Path::file_stem` gives for a path, as text.
pub uninterp spec fn std_path_file_stem(path: Seq<char>) -> Option<Seq<char>>;

/// Calls `std::path::Path::file_stem` on `path`.  Claimed: the result is
/// the one named by [`std_path_file_stem`].  (A stem cut from a `&str` is
/// valid UTF-8, so its conversion back to text cannot fail.)
#[verifier::external_body]
fn path_file_stem(path: &str) -> (r: Option<String>)
    ensures
        opt_text(r) == std_path_file_stem(path@),
{
    std::path::Path::new(path).file_stem().and_then(|s| s.to_str()).map(|s| s.to_string())
}

/// A string holding the characters of `s`.
fn text(s: &str) -> (r: String)
    ensures
        r@ == s@,
{
    let cs = crate::text::chars_of(s);
    crate::text::string_of(cs.as_slice())
}

/// A string holding the characters of `a` followed by those of `b`.
fn concat(a: &[char], b: &str) -> (r: Vec<char>)
    ensures
        r@ == a@ + b@,
{
    let mut r: Vec<char> = Vec::new();
    crate::text::push_all(&mut r, a);
    crate::text::push_str(&mut r, b);
    r
}

/// The directory the tools write to: the one given, else `/tmp`.
pub open spec fn output_dir_of(output_dir: Option<Seq<char>>) -> Seq<char> {
    match output_dir {
        Some(d) => d,
        None => "/tmp"@,
    }
}

/// The object file NASM writes for a source whose stem is `stem`.
pub open spec fn object_file_text(output_dir: Option<Seq<char>>, stem: Seq<char>) -> Seq<char> {
    output_dir_of(output_dir) + "/"@ + stem + ".o"@
}

/// The executable the linker writes for an object whose stem is `stem`.
pub open spec fn executable_file_text(output_dir: Option<Seq<char>>, stem: Seq<char>) -> Seq<char> {
    output_dir_of(output_dir) + "/"@ + stem
}

/// View of an optional `&str`.
pub open spec fn opt_str_text(o: Option<&str>) -> Option<Seq<char>> {
    match o {
        Some(s) => Some(s@),
        None => None,
    }
}

/// Characters of each string of a list.
pub open spec fn texts_of(v: Seq<String>) -> Seq<Seq<char>> {
    v.map_values(|s: String| s@)
}

/// `dir/stem` followed by `suffix`, where `dir` defaults to `/tmp`.
fn output_path(output_dir: Option<&str>, stem: &str, suffix: &str) -> (r: String)
    ensures
        r@ == output_dir_of(opt_str_text(output_dir)) + "/"@ + stem@ + suffix@,
{
    let dir = match output_dir {
        Some(d) => d,
        None => "/tmp",
    };
    let mut cs = concat(crate::text::chars_of(dir).as_slice(), "/");
    crate::text::push_str(&mut cs, stem);
    crate::text::push_str(&mut cs, suffix);
    crate::text::string_of(cs.as_slice())
}

/// The program that assembles the test file.
pub fn assembler_program() -> (r: String)
    ensures
        r@ == "nasm"@,
{
    text("nasm")
}

/// NASM's output-format flag: `-felf32` in 32-bit mode, else `-felf64`.
pub open spec fn nasm_format_flag(bit32: bool) -> Seq<char> {
    if bit32 {
        "-felf32"@
    } else {
        "-felf64"@
    }
}

/// The arguments NASM is run with: the output format, `-o` and the object
/// file, then the source file.
pub open spec fn nasm_arguments(bit32: bool, object_file: Seq<char>, asm_file: Seq<char>) -> Seq<Seq<char>> {
    seq![nasm_format_flag(bit32), "-o"@, object_file, asm_file]
}

/// What the assembler is to do: write an object file, run with arguments.
pub struct CompilePlan {
    pub object_file: String,
    pub arguments: Vec<String>,
}

/// Decides how to assemble `asm_file` under `config`: the object file is
/// `<dir>/<stem>.o` (see [`object_file_text`]); fails when the path has no
/// file stem.
pub fn plan_compile(asm_file: &str, config: &AsmTestConfig, output_dir: Option<&str>) -> (r: Result<CompilePlan, AsmTestError>)
    ensures
        match std_path_file_stem(asm_file@) {
            Some(stem) => r matches Ok(p) && p.object_file@ == object_file_text(opt_str_text(output_dir), stem)
                && texts_of(p.arguments@) == nasm_arguments(crate::types::is_bit32(config.mode), p.object_file@, asm_file@),
            None => r matches Err(AsmTestError::AsmFormat(d)) && d@ == "无效的汇编文件名"@,
        },
{
    let stem = match path_file_stem(asm_file) {
        Some(s) => s,
        None => return Err(AsmTestError::AsmFormat(text("无效的汇编文件名"))),
    };
    let object_file = output_path(output_dir, stem.as_str(), ".o");
    let flag = if config.is_32bit() {
        text("-felf32")
    } else {
        text("-felf64")
    };
    let mut arguments: Vec<String> = Vec::new();
    arguments.push(flag);
    arguments.push(text("-o"));
    arguments.push(crate::types::copy_string(&object_file));
    arguments.push(text(asm_file));
    assert(texts_of(arguments@) =~= nasm_arguments(crate::types::is_bit32(config.mode), object_file@, asm_file@));
    Ok(CompilePlan { object_file, arguments })
}

/// The outcome of assembling.
pub struct CompileResult {
    pub object_file: String,
    pub success: bool,
    pub error_message: Option<String>,
}

/// The message of a failed tool run: a heading, then what it wrote to its
/// standard output and its standard error.
pub open spec fn tool_failure_text(heading: Seq<char>, stdout: Seq<char>, stderr: Seq<char>) -> Seq<char> {
    heading + "\n标准输出: "@ + stdout + "\n错误输出: "@ + stderr
}

/// Builds the failure message of [`tool_failure_text`].
fn tool_failure_message(heading: &[char], stdout: &str, stderr: &str) -> (r: String)
    ensures
        r@ == tool_failure_text(heading@, stdout@, stderr@),
{
    let mut cs = concat(heading, "\n标准输出: ");
    crate::text::push_str(&mut cs, stdout);
    crate::text::push_str(&mut cs, "\n错误输出: ");
    crate::text::push_str(&mut cs, stderr);
    crate::text::string_of(cs.as_slice())
}

/// The outcome of running NASM: success with no message when it exited
/// successfully, else failure with what it printed.
pub fn compile_outcome(object_file: String, exited_ok: bool, stdout: &str, stderr: &str) -> (r: CompileResult)
    ensures
        r.object_file@ == object_file@,
        r.success == exited_ok,
        exited_ok ==> r.error_message is None,
        !exited_ok ==> (r.error_message matches Some(m) && m@ == tool_failure_text("NASM编译错误:"@, stdout@, stderr@)),
{
    if exited_ok {
        CompileResult { object_file, success: true, error_message: None }
    } else {
        let h = crate::text::chars_of("NASM编译错误:");
        let m = tool_failure_message(h.as_slice(), stdout, stderr);
        CompileResult { object_file, success: false, error_message: Some(m) }
    }
}

/// The linker tried first.
pub fn preferred_linker() -> (r: String)
    ensures
        r@ == "x86_64-linux-gnu-ld"@,
{
    text("x86_64-linux-gnu-ld")
}

/// The linker used when the preferred one is missing.
pub fn fallback_linker() -> (r: String)
    ensures
        r@ == "ld"@,
{
    text("ld")
}

/// Which linker to run.
pub struct LinkerChoice {
    pub linker: String,
    /// Whether the fallback replaces the preferred linker (worth a warning).
    pub is_fallback: bool,
}

/// The detail of the error when no linker is available.
pub open spec fn no_linker_detail() -> Seq<char> {
    "链接器 "@ + "x86_64-linux-gnu-ld"@ + " 和通用ld链接器都不存在或不可用"@
}

/// Picks the linker: the preferred one when available, else the fallback
/// when available, else an error.
pub fn choose_linker(preferred_available: bool, fallback_available: bool) -> (r: Result<LinkerChoice, AsmTestError>)
    ensures
        preferred_available ==> (r matches Ok(c) && c.linker@ == "x86_64-linux-gnu-ld"@ && !c.is_fallback),
        !preferred_available && fallback_available ==> (r matches Ok(c) && c.linker@ == "ld"@ && c.is_fallback),
        !preferred_available && !fallback_available ==> (r matches Err(AsmTestError::SystemCall(d)) && d@
            == no_linker_detail()),
{
    if preferred_available {
        Ok(LinkerChoice { linker: preferred_linker(), is_fallback: false })
    } else if fallback_available {
        Ok(LinkerChoice { linker: fallback_linker(), is_fallback: true })
    } else {
        let mut cs = concat(crate::text::chars_of("链接器 ").as_slice(), "x86_64-linux-gnu-ld");
        crate::text::push_str(&mut cs, " 和通用ld链接器都不存在或不可用");
        Err(AsmTestError::SystemCall(crate::text::string_of(cs.as_slice())))
    }
}

/// The emulation the linker targets: `elf_i386` in 32-bit mode, else
/// `elf_x86_64`.
pub open spec fn linker_emulation(bit32: bool) -> Seq<char> {
    if bit32 {
        "elf_i386"@
    } else {
        "elf_x86_64"@
    }
}

/// The arguments the linker is run with: code at 0x100000, warnings off,
/// the emulation, `-o` and the executable, then the object file.
pub open spec fn linker_arguments(bit32: bool, executable_file: Seq<char>, object_file: Seq<char>) -> Seq<Seq<char>> {
    seq!["-Ttext=0x100000"@, "-w"@, "-m"@, linker_emulation(bit32), "-o"@, executable_file, object_file]
}

/// What the linker is to do: write an executable, run with arguments.
pub struct LinkPlan {
    pub executable_file: String,
    pub arguments: Vec<String>,
}

/// Decides how to link `object_file` under `config`: the executable is
/// `<dir>/<stem>` (see [`executable_file_text`]); fails when the path has
/// no file stem.
pub fn plan_link(object_file: &str, config: &AsmTestConfig, output_dir: Option<&str>) -> (r: Result<LinkPlan, AsmTestError>)
    ensures
        match std_path_file_stem(object_file@) {
            Some(stem) => r matches Ok(p) && p.executable_file@ == executable_file_text(opt_str_text(output_dir), stem)
                && texts_of(p.arguments@) == linker_arguments(
                crate::types::is_bit32(config.mode),
                p.executable_file@,
                object_file@,
            ),
            None => r matches Err(AsmTestError::AsmFormat(d)) && d@ == "无效的目标文件名"@,
        },
{
    let stem = match path_file_stem(object_file) {
        Some(s) => s,
        None => return Err(AsmTestError::AsmFormat(text("无效的目标文件名"))),
    };
    let executable_file = output_path(output_dir, stem.as_str(), "");
    proof {
        reveal_strlit("");
    }
    assert(executable_file@ =~= executable_file_text(opt_str_text(output_dir), stem@));
    let emulation = if config.is_32bit() {
        text("elf_i386")
    } else {
        text("elf_x86_64")
    };
    let mut arguments: Vec<String> = Vec::new();
    arguments.push(text("-Ttext=0x100000"));
    arguments.push(text("-w"));
    arguments.push(text("-m"));
    arguments.push(emulation);
    arguments.push(text("-o"));
    arguments.push(crate::types::copy_string(&executable_file));
    arguments.push(text(object_file));
    assert(texts_of(arguments@) =~= linker_arguments(crate::types::is_bit32(config.mode), executable_file@, object_file@));
    Ok(LinkPlan { executable_file, arguments })
}

/// The outcome of linking.
pub struct LinkResult {
    pub executable_file: String,
    pub success: bool,
    pub error_message: Option<String>,
}

/// The outcome of running `linker`: success with no message when it
/// exited successfully, else failure with what it printed.
pub fn link_outcome(executable_file: String, linker: &str, exited_ok: bool, stdout: &str, stderr: &str) -> (r: LinkResult)
    ensures
        r.executable_file@ == executable_file@,
        r.success == exited_ok,
        exited_ok ==> r.error_message is None,
        !exited_ok ==> (r.error_message matches Some(m) && m@ == tool_failure_text(
            "链接器 "@ + linker@ + " 错误:"@,
            stdout@,
            stderr@,
        )),
{
    if exited_ok {
        LinkResult { executable_file, success: true, error_message: None }
    } else {
        let h = concat(concat(crate::text::chars_of("链接器 ").as_slice(), linker).as_slice(), " 错误:");
        let m = tool_failure_message(h.as_slice(), stdout, stderr);
        LinkResult { executable_file, success: false, error_message: Some(m) }
    }
}

} // verus!
