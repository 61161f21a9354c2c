//! The assembly emitter: a sink that collects the text of one `.asm`
//! file in memory, and the plan of the tools that turn that file into an
//! executable. Writing the file and running the tools is left to the
//! caller.

use crate::text::{decimal, free_of, lemma_decimal_one_line, push_decimal};
use vstd::prelude::*;

verus! {

/// The text of an assembly file under construction, with the stem that
/// names the file and what is built from it.
pub struct AsmFile {
    name: String,
    filename: String,
    text: String,
}

/// What an [`AsmFile`] holds.
pub struct AsmFileView {
    /// The stem: the source file's name without directories or extension.
    pub name: Seq<char>,
    /// The name of the assembly file.
    pub filename: Seq<char>,
    /// Everything written so far.
    pub text: Seq<char>,
}

impl View for AsmFile {
    type V = AsmFileView;

    closed spec fn view(&self) -> AsmFileView {
        AsmFileView { name: self.name@, filename: self.filename@, text: self.text@ }
    }
}

/// An instruction line: four spaces, the instruction, a line feed.
pub open spec fn code_line(text: Seq<char>) -> Seq<char> {
    "    "@ + text + "\n"@
}

/// A comment line that titles what follows.
pub open spec fn title_line(text: Seq<char>) -> Seq<char> {
    "    ;; -- "@ + text + " --\n"@
}

/// The label of the instruction at `ip`.
pub open spec fn addr_line(ip: nat) -> Seq<char> {
    "addr_"@ + decimal(ip) + ":\n"@
}

/// The local label number `i`.
pub open spec fn lbl_line(i: nat) -> Seq<char> {
    ".L"@ + decimal(i) + ":\n"@
}

/// Whether `s` is exactly one line: it holds one line feed, at its end.
pub open spec fn one_line(s: Seq<char>) -> bool {
    &&& s.len() > 0
    &&& s.last() == '\n'
    &&& free_of(s.drop_last(), '\n')
}

/// An instruction line is one line where the instruction holds no line
/// feed.
pub proof fn lemma_code_line_one_line(text: Seq<char>)
    requires
        free_of(text, '\n'),
    ensures
        one_line(code_line(text)),
{
    reveal_strlit("    ");
    reveal_strlit("\n");
    let line = code_line(text);
    assert forall|i: int| 0 <= i < line.len() - 1 implies line.drop_last()[i] != '\n' by {
        if i >= 4 {
            assert(line[i] == text[i - 4]);
        }
    }
}

/// A title line is one line where the title holds no line feed.
pub proof fn lemma_title_line_one_line(text: Seq<char>)
    requires
        free_of(text, '\n'),
    ensures
        one_line(title_line(text)),
{
    reveal_strlit("    ;; -- ");
    reveal_strlit(" --\n");
    let line = title_line(text);
    assert forall|i: int| 0 <= i < line.len() - 1 implies line.drop_last()[i] != '\n' by {
        if 10 <= i < 10 + text.len() {
            assert(line[i] == text[i - 10]);
        }
    }
}

/// The label of an instruction is one line.
pub proof fn lemma_addr_line_one_line(ip: nat)
    ensures
        one_line(addr_line(ip)),
{
    reveal_strlit("addr_");
    reveal_strlit(":\n");
    lemma_decimal_one_line(ip);
    let line = addr_line(ip);
    assert forall|i: int| 0 <= i < line.len() - 1 implies line.drop_last()[i] != '\n' by {
        if 5 <= i < 5 + decimal(ip).len() {
            assert(line[i] == decimal(ip)[i - 5]);
        }
    }
}

/// The first part of the prologue: directives and the data that the
/// helper routines use, with the 640 KiB memory buffer.
pub open spec fn prologue_data() -> Seq<char> {
    "BITS 64\n"@ + "global main\n"@ + "extern printf\n"@ + "segment .data\n"@
        + "    fmt     db \"%ld\", 10, 0\n"@ + "    putc    db 0, 0\n"@
        + "    putcf   db \"%s\", 0\n"@ + "segment .bss\n"@ + "    membuf  resb 640 * 1024\n"@
        + "segment .text\n"@
}

/// The helper routine `log`, which prints a number and a line feed.
pub open spec fn prologue_log() -> Seq<char> {
    "log:\n"@ + "    sub     rsp, 32\n"@ + "    mov     rdx, rcx\n"@
        + "    lea     rcx, [rel fmt]\n"@ + "    call    printf\n"@ + "    add     rsp, 32\n"@
        + "    ret\n"@
}

/// The helper routine `puts`, which prints one character, and the entry
/// label.
pub open spec fn prologue_puts() -> Seq<char> {
    "puts:\n"@ + "    sub     rsp, 32\n"@ + "    mov     [rel putc], cl\n"@
        + "    lea     rdx, [rel putc]\n"@ + "    lea     rcx, [rel putcf]\n"@
        + "    call    printf\n"@ + "    add     rsp, 32\n"@ + "    ret\n"@ + "main:\n"@
}

/// What every assembly file starts with.
pub open spec fn prologue() -> Seq<char> {
    prologue_data() + prologue_log() + prologue_puts()
}

/// What every assembly file ends with.
pub open spec fn epilogue() -> Seq<char> {
    "addr_eof:\n"@ + "    ret\n"@
}

impl AsmFile {
    /// A sink for the file `<name>.asm`, holding the prologue.
    pub fn new(name: &str) -> (result: Self)
        ensures
            result@ == (AsmFileView {
                name: name@,
                filename: name@ + ".asm"@,
                text: prologue(),
            }),
    {
        let mut filename = String::from_str(name);
        filename.append(".asm");
        let mut result = Self {
            name: String::from_str(name),
            filename: filename,
            text: String::new(),
        };
        result.write("BITS 64\n");
        result.write("global main\n");
        result.write("extern printf\n");
        result.write("segment .data\n");
        result.write("    fmt     db \"%ld\", 10, 0\n");
        result.write("    putc    db 0, 0\n");
        result.write("    putcf   db \"%s\", 0\n");
        result.write("segment .bss\n");
        result.write("    membuf  resb 640 * 1024\n");
        result.write("segment .text\n");
        result.write("log:\n");
        result.write("    sub     rsp, 32\n");
        result.write("    mov     rdx, rcx\n");
        result.write("    lea     rcx, [rel fmt]\n");
        result.write("    call    printf\n");
        result.write("    add     rsp, 32\n");
        result.write("    ret\n");
        result.write("puts:\n");
        result.write("    sub     rsp, 32\n");
        result.write("    mov     [rel putc], cl\n");
        result.write("    lea     rdx, [rel putc]\n");
        result.write("    lea     rcx, [rel putcf]\n");
        result.write("    call    printf\n");
        result.write("    add     rsp, 32\n");
        result.write("    ret\n");
        result.write("main:\n");
        assert(result@.text =~= prologue());
        result
    }

    /// Ends the writing and hands out the stem, for what is built next.
    pub fn close(&mut self) -> (name: String)
        ensures
            name@ == old(self)@.name,
            final(self)@ == old(self)@,
    {
        self.name.clone()
    }

    /// Appends `text` as it is.
    pub fn write(&mut self, text: &str)
        ensures
            final(self)@ == (AsmFileView { text: old(self)@.text + text@, ..old(self)@ }),
    {
        self.text.append(text);
    }

    /// Appends one instruction line.
    pub fn code(&mut self, text: &str)
        ensures
            final(self)@ == (AsmFileView {
                text: old(self)@.text + code_line(text@),
                ..old(self)@
            }),
    {
        self.write("    ");
        self.write(text);
        self.write("\n");
        assert(self@.text =~= old(self)@.text + code_line(text@));
    }

    /// Appends a comment line that titles what follows.
    pub fn title(&mut self, text: &str)
        ensures
            final(self)@ == (AsmFileView {
                text: old(self)@.text + title_line(text@),
                ..old(self)@
            }),
    {
        self.write("    ;; -- ");
        self.write(text);
        self.write(" --\n");
        assert(self@.text =~= old(self)@.text + title_line(text@));
    }

    /// Appends the label of the instruction at `ip`.
    pub fn addr(&mut self, ip: u64)
        ensures
            final(self)@ == (AsmFileView {
                text: old(self)@.text + addr_line(ip as nat),
                ..old(self)@
            }),
    {
        self.write("addr_");
        push_decimal(&mut self.text, ip);
        self.write(":\n");
        assert(self@.text =~= old(self)@.text + addr_line(ip as nat));
    }

    /// Appends the local label number `i`.
    pub fn lbl(&mut self, i: u64)
        ensures
            final(self)@ == (AsmFileView {
                text: old(self)@.text + lbl_line(i as nat),
                ..old(self)@
            }),
    {
        self.write(".L");
        push_decimal(&mut self.text, i);
        self.write(":\n");
        assert(self@.text =~= old(self)@.text + lbl_line(i as nat));
    }

    /// The name of the assembly file.
    pub fn filename(&self) -> (name: &str)
        ensures
            name@ == self@.filename,
    {
        self.filename.as_str()
    }

    /// Everything written so far.
    pub fn contents(&self) -> (text: &str)
        ensures
            text@ == self@.text,
    {
        self.text.as_str()
    }
}

/// Starts the assembly file for the program with the stem `name`.
pub fn pre_compile(name: &str) -> (file: AsmFile)
    ensures
        file@ == (AsmFileView { name: name@, filename: name@ + ".asm"@, text: prologue() }),
{
    AsmFile::new(name)
}

/// What is left to do once the assembly text is complete: the file to
/// write and the two tools to run on it, each as a command line.
#[derive(Debug, PartialEq, Eq)]
pub struct BuildPlan {
    /// The stem that names every file of the build.
    pub name: String,
    /// The name of the assembly file to write.
    pub asm_path: String,
    /// The full text of the assembly file.
    pub asm_text: String,
    /// The assembler's command line, program first.
    pub assemble: Vec<String>,
    /// The linker's command line, program first.
    pub link: Vec<String>,
    /// The name of the executable that the linker writes.
    pub binary: String,
}

/// `stem` followed by `extension`.
pub open spec fn with_extension(stem: Seq<char>, extension: Seq<char>) -> Seq<char> {
    stem + extension
}

/// The command line that assembles `<stem>.asm` into `<stem>.obj`.
pub open spec fn assemble_command(stem: Seq<char>) -> Seq<Seq<char>> {
    seq![
        "nasm"@,
        "-f"@,
        "win64"@,
        "-o"@,
        with_extension(stem, ".obj"@),
        with_extension(stem, ".asm"@),
    ]
}

/// The command line that links `<stem>.obj` into `<stem>.exe`.
pub open spec fn link_command(stem: Seq<char>) -> Seq<Seq<char>> {
    seq![
        "link"@,
        with_extension(stem, ".obj"@),
        "/subsystem:console"@,
        "kernel32.lib"@,
        "msvcrt.lib"@,
        "legacy_stdio_definitions.lib"@,
        "/out:"@ + with_extension(stem, ".exe"@),
    ]
}

fn stem_with(stem: &str, extension: &str) -> (s: String)
    ensures
        s@ == with_extension(stem@, extension@),
{
    let mut s = String::from_str(stem);
    s.append(extension);
    s
}

/// Completes the assembly text with the epilogue and plans the build:
/// the file to write, then the assembler and the linker to run, in that
/// order. A tool that fails ends the build.
pub fn post_compile(file: AsmFile) -> (plan: BuildPlan)
    ensures
        plan.name@ == file@.name,
        plan.asm_path@ == file@.filename,
        plan.asm_text@ == file@.text + epilogue(),
        plan.assemble.deep_view() == assemble_command(file@.name),
        plan.link.deep_view() == link_command(file@.name),
        plan.binary@ == with_extension(file@.name, ".exe"@),
{
    let mut file = file;
    file.write("addr_eof:\n");
    file.write("    ret\n");
    let name = file.close();
    let stem = name.as_str();

    let mut assemble: Vec<String> = Vec::new();
    assemble.push(String::from_str("nasm"));
    assemble.push(String::from_str("-f"));
    assemble.push(String::from_str("win64"));
    assemble.push(String::from_str("-o"));
    assemble.push(stem_with(stem, ".obj"));
    assemble.push(stem_with(stem, ".asm"));

    let mut out = String::from_str("/out:");
    let binary = stem_with(stem, ".exe");
    out.append(binary.as_str());
    let mut link: Vec<String> = Vec::new();
    link.push(String::from_str("link"));
    link.push(stem_with(stem, ".obj"));
    link.push(String::from_str("/subsystem:console"));
    link.push(String::from_str("kernel32.lib"));
    link.push(String::from_str("msvcrt.lib"));
    link.push(String::from_str("legacy_stdio_definitions.lib"));
    link.push(out);

    BuildPlan {
        name: name,
        asm_path: file.filename,
        asm_text: file.text,
        assemble: assemble,
        link: link,
        binary: binary,
    }
}

/// Where a build stands.
#[derive(Debug, PartialEq, Eq, Clone, Copy)]
pub enum BuildStage {
    /// The assembly file is written; the assembler runs next.
    Assemble,
    /// The object file is there; the linker runs next.
    Link,
    /// The executable is there.
    Done,
    /// A tool failed; nothing more is run.
    Failed,
}

/// Where the build stands after the tool of `stage` has run: one stage
/// further where it succeeded, failed otherwise. A finished or failed
/// build stays as it is.
pub open spec fn stage_after(stage: BuildStage, success: bool) -> BuildStage {
    match stage {
        BuildStage::Assemble => if success {
            BuildStage::Link
        } else {
            BuildStage::Failed
        },
        BuildStage::Link => if success {
            BuildStage::Done
        } else {
            BuildStage::Failed
        },
        BuildStage::Done => BuildStage::Done,
        BuildStage::Failed => BuildStage::Failed,
    }
}

/// What is reported after the tool of `stage` has run.
pub open spec fn stage_report(stage: BuildStage, success: bool) -> Seq<char> {
    match stage {
        BuildStage::Assemble => if success {
            "Linking program..."@
        } else {
            "Failed to build ASM!"@
        },
        BuildStage::Link => if success {
            "Compilation successful!"@
        } else {
            "Failed to link program!"@
        },
        BuildStage::Done => "Compilation successful!"@,
        BuildStage::Failed => "Failed to compile Ktnack program!"@,
    }
}

/// Takes the build one step on from `stage`, whose tool ended with
/// `success`: gives the next stage and the line to report.
pub fn advance_build(stage: BuildStage, success: bool) -> (next: (BuildStage, String))
    ensures
        next.0 == stage_after(stage, success),
        next.1@ == stage_report(stage, success),
{
    match stage {
        BuildStage::Assemble => if success {
            (BuildStage::Link, String::from_str("Linking program..."))
        } else {
            (BuildStage::Failed, String::from_str("Failed to build ASM!"))
        },
        BuildStage::Link => if success {
            (BuildStage::Done, String::from_str("Compilation successful!"))
        } else {
            (BuildStage::Failed, String::from_str("Failed to link program!"))
        },
        BuildStage::Done => (BuildStage::Done, String::from_str("Compilation successful!")),
        BuildStage::Failed => (
            BuildStage::Failed,
            String::from_str("Failed to compile Ktnack program!"),
        ),
    }
}

} // verus!
