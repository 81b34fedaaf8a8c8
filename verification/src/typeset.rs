//! The typeset-certificate exporter: document generation and the scratch
//! workspace's state machine.
//!
//! The document source is a template with two placeholders, one for a
//! title and one for an image path. The title is escaped for the
//! typesetting language before substitution, backslashes first so that the
//! injected escape sequences are not escaped twice. The export itself is a
//! state machine over a scratch workspace; the application layer performs
//! one filesystem or process action per step and reports how it went,
//! while the machine decides what happens next. Every path into a terminal
//! state passes through the scratch-removal action, so the workspace holds
//! none of the fixed-name artifacts after any outcome.

use vstd::prelude::*;

verus! {

use vstd::slice::slice_subrange;
use vstd::slice::slice_to_vec;
use crate::model::CompileError;
use crate::model::CompilerUnavailableError;
use crate::strutil::chars_to_string;
use crate::strutil::starts_with_str;
use crate::strutil::str_to_chars;

// ---------------------------------------------------------------------------
// Title escaping
// ---------------------------------------------------------------------------
/// What one title character becomes in the document source. The backslash
/// carries escaped braces because brace escaping runs after backslash
/// escaping; the circumflex and tilde replacements carry raw braces
/// because they are substituted after the brace passes.
pub open spec fn escape_char(c: char) -> Seq<char> {
    if c == '\\' {
        "\\textbackslash\\{\\}"@
    } else if c == '{' {
        "\\{"@
    } else if c == '}' {
        "\\}"@
    } else if c == '_' {
        "\\_"@
    } else if c == '^' {
        "\\textasciicircum{}"@
    } else if c == '&' {
        "\\&"@
    } else if c == '%' {
        "\\%"@
    } else if c == '$' {
        "\\$"@
    } else if c == '#' {
        "\\#"@
    } else if c == '~' {
        "\\textasciitilde{}"@
    } else {
        seq![c]
    }
}

/// The whole title escaped, character by character.
pub open spec fn spec_escape(s: Seq<char>) -> Seq<char>
    decreases s.len(),
{
    if s.len() == 0 {
        Seq::<char>::empty()
    } else {
        spec_escape(s.drop_last()) + escape_char(s.last())
    }
}

/// Escapes a title for the typesetting language: backslash, braces,
/// underscore, circumflex, ampersand, percent, dollar, hash and tilde are
/// rewritten; everything else passes through.
pub fn escape_typeset_title(title: &str) -> (r: String)
    ensures
        r@ == spec_escape(title@),
{
    let n = title.unicode_len();
    let mut out = String::new();
    let mut i: usize = 0;
    proof {
        assert(out@ =~= spec_escape(title@.take(0)));
    }
    while i < n
        invariant
            i <= n,
            n == title@.len(),
            out@ == spec_escape(title@.take(i as int)),
        decreases n - i,
    {
        proof {
            assert(title@.take(i as int + 1).drop_last() =~= title@.take(i as int));
            assert(title@.take(i as int + 1).last() == title@[i as int]);
        }
        let ghost old_out = out@;
        let c = title.get_char(i);
        if c == '\\' {
            out.append("\\textbackslash\\{\\}");
        } else if c == '{' {
            out.append("\\{");
        } else if c == '}' {
            out.append("\\}");
        } else if c == '_' {
            out.append("\\_");
        } else if c == '^' {
            out.append("\\textasciicircum{}");
        } else if c == '&' {
            out.append("\\&");
        } else if c == '%' {
            out.append("\\%");
        } else if c == '$' {
            out.append("\\$");
        } else if c == '#' {
            out.append("\\#");
        } else if c == '~' {
            out.append("\\textasciitilde{}");
        } else {
            out.push(c);
            proof {
                assert(old_out.push(c) =~= old_out + seq![c]);
            }
        }
        i += 1;
    }
    proof {
        assert(title@.take(n as int) =~= title@);
    }
    out
}

// ---------------------------------------------------------------------------
// Placeholder substitution
// ---------------------------------------------------------------------------
/// `s` with every occurrence of `from` replaced by `to`, leftmost first
/// and without revisiting replaced text. An empty `from` leaves `s`
/// unchanged.
pub open spec fn spec_replace(s: Seq<char>, from: Seq<char>, to: Seq<char>) -> Seq<char>
    decreases s.len(),
{
    if from.len() == 0 {
        s
    } else if s.len() < from.len() {
        s
    } else if s.subrange(0, from.len() as int) == from {
        to + spec_replace(s.skip(from.len() as int), from, to)
    } else {
        seq![s[0]] + spec_replace(s.skip(1), from, to)
    }
}

/// Appends all of `add` to `out`.
fn push_all(out: &mut Vec<char>, add: &[char])
    ensures
        final(out)@ == old(out)@ + add@,
{
    let mut i: usize = 0;
    while i < add.len()
        invariant
            i <= add@.len(),
            out@ == old(out)@ + add@.take(i as int),
        decreases add@.len() - i,
    {
        out.push(add[i]);
        proof {
            assert(old(out)@ + add@.take(i as int + 1) =~= (old(out)@ + add@.take(i as int)).push(
                add@[i as int],
            ));
        }
        i += 1;
    }
    proof {
        assert(add@.take(add@.len() as int) =~= add@);
    }
}

/// Replaces every occurrence of `from` in `hay` by `to`, leftmost first.
pub fn replace_all(hay: &[char], from: &str, to: &[char]) -> (r: Vec<char>)
    ensures
        r@ == spec_replace(hay@, from@, to@),
{
    let flen = from.unicode_len();
    if flen == 0 {
        return slice_to_vec(hay);
    }
    let mut out: Vec<char> = Vec::new();
    let mut i: usize = 0;
    proof {
        assert(hay@.skip(0) =~= hay@);
        assert(out@ + spec_replace(hay@.skip(0), from@, to@) =~= spec_replace(hay@, from@, to@));
    }
    while i < hay.len()
        invariant
            i <= hay@.len(),
            flen == from@.len(),
            1 <= flen,
            spec_replace(hay@, from@, to@) == out@ + spec_replace(hay@.skip(i as int), from@, to@),
        decreases hay@.len() - i,
    {
        let ghost rest = hay@.skip(i as int);
        let ghost old_out = out@;
        let tail = slice_subrange(hay, i, hay.len());
        if flen <= hay.len() - i && starts_with_str(tail, from) {
            proof {
                assert(rest.subrange(0, flen as int) == from@);
                assert(rest.skip(flen as int) =~= hay@.skip(i as int + flen as int));
                assert(spec_replace(rest, from@, to@) == to@ + spec_replace(
                    hay@.skip(i as int + flen as int),
                    from@,
                    to@,
                ));
            }
            push_all(&mut out, to);
            proof {
                assert(old_out + (to@ + spec_replace(hay@.skip(i as int + flen as int), from@, to@))
                    =~= (old_out + to@) + spec_replace(
                    hay@.skip(i as int + flen as int),
                    from@,
                    to@,
                ));
            }
            i += flen;
        } else {
            proof {
                assert(rest.skip(1) =~= hay@.skip(i as int + 1));
                if rest.len() >= flen {
                    if rest.subrange(0, flen as int) == from@ {
                        assert(tail@.subrange(0, flen as int) =~= rest.subrange(0, flen as int));
                        assert(false);
                    }
                    assert(spec_replace(rest, from@, to@) == seq![rest[0]] + spec_replace(
                        rest.skip(1),
                        from@,
                        to@,
                    ));
                } else {
                    assert(spec_replace(rest, from@, to@) == rest);
                    assert(spec_replace(rest.skip(1), from@, to@) == rest.skip(1));
                    assert(rest =~= seq![rest[0]] + rest.skip(1));
                }
            }
            out.push(hay[i]);
            proof {
                assert(out@ =~= old_out + seq![rest[0]]);
                assert(old_out + (seq![rest[0]] + spec_replace(rest.skip(1), from@, to@)) =~= (
                old_out + seq![rest[0]]) + spec_replace(rest.skip(1), from@, to@));
            }
            i += 1;
        }
    }
    proof {
        assert(hay@.skip(hay@.len() as int) =~= Seq::<char>::empty());
        assert(out@ + Seq::<char>::empty() =~= out@);
    }
    out
}

/// The token in a document template that the escaped title replaces.
pub fn title_placeholder() -> (r: &'static str)
    ensures
        r@ == "{{QRLAN_PDF_TITLE}}"@,
{
    "{{QRLAN_PDF_TITLE}}"
}

/// The token in a document template that the staged image's file name
/// replaces.
pub fn image_placeholder() -> (r: &'static str)
    ensures
        r@ == "{{QR_CODE_IMAGE_PATH}}"@,
{
    "{{QR_CODE_IMAGE_PATH}}"
}

/// The rendered document source: the template with the title placeholder
/// replaced by the escaped title, then the image placeholder replaced by
/// the image file name.
pub open spec fn spec_render_document(
    template: Seq<char>,
    title: Seq<char>,
    image: Seq<char>,
) -> Seq<char> {
    spec_replace(
        spec_replace(template, "{{QRLAN_PDF_TITLE}}"@, spec_escape(title)),
        "{{QR_CODE_IMAGE_PATH}}"@,
        image,
    )
}

/// Renders the document source from a template: escapes the title, then
/// substitutes the two placeholders.
pub fn render_document(template: &str, title: &str, image_filename: &str) -> (r: String)
    ensures
        r@ == spec_render_document(template@, title@, image_filename@),
{
    let tchars = str_to_chars(template);
    let escaped = escape_typeset_title(title);
    let echars = str_to_chars(escaped.as_str());
    let step1 = replace_all(tchars.as_slice(), title_placeholder(), echars.as_slice());
    let ichars = str_to_chars(image_filename);
    let step2 = replace_all(step1.as_slice(), image_placeholder(), ichars.as_slice());
    chars_to_string(step2.as_slice())
}

/// The built-in document template: a one-page certificate with the title
/// above the code image, carrying exactly the two placeholder tokens.
pub fn default_template() -> (r: &'static str)
    ensures
        r@
            == "\\documentclass[12pt]{article}\n\\usepackage[margin=2.5cm]{geometry}\n\\usepackage{graphicx}\n\\pagestyle{empty}\n\\begin{document}\n\\begin{center}\n{\\Huge {{QRLAN_PDF_TITLE}}}\\\\[3em]\n\\includegraphics[width=0.6\\textwidth]{{{QR_CODE_IMAGE_PATH}}}\n\\end{center}\n\\end{document}\n"@,
{
    "\\documentclass[12pt]{article}\n\\usepackage[margin=2.5cm]{geometry}\n\\usepackage{graphicx}\n\\pagestyle{empty}\n\\begin{document}\n\\begin{center}\n{\\Huge {{QRLAN_PDF_TITLE}}}\\\\[3em]\n\\includegraphics[width=0.6\\textwidth]{{{QR_CODE_IMAGE_PATH}}}\n\\end{center}\n\\end{document}\n"
}

// ---------------------------------------------------------------------------
// Scratch artifacts
// ---------------------------------------------------------------------------
/// The fixed name of the staged code image inside the workspace.
pub fn temp_image_filename() -> (r: &'static str)
    ensures
        r@ == "qrlan_qr_temp.png"@,
{
    "qrlan_qr_temp.png"
}

/// The fixed name of the generated document source inside the workspace.
pub fn temp_source_filename() -> (r: &'static str)
    ensures
        r@ == "qrlan_latex_temp.tex"@,
{
    "qrlan_latex_temp.tex"
}

/// Every fixed-name artifact an export may leave in the workspace: the
/// staged image, the document source, and the compiler's sidecar files.
/// The scratch-removal action deletes each of these, best-effort.
pub open spec fn spec_scratch_artifacts() -> Seq<Seq<char>> {
    seq![
        "qrlan_qr_temp.png"@,
        "qrlan_latex_temp.tex"@,
        "qrlan_latex_temp.aux"@,
        "qrlan_latex_temp.log"@,
        "qrlan_latex_temp.out"@,
        "qrlan_latex_temp.fls"@,
        "qrlan_latex_temp.synctex.gz"@,
    ]
}

/// The artifact names as strings, in the order of
/// [`spec_scratch_artifacts`].
pub fn scratch_artifact_names() -> (r: Vec<String>)
    ensures
        r.deep_view() == spec_scratch_artifacts(),
{
    let mut v: Vec<String> = Vec::new();
    v.push(String::from_str("qrlan_qr_temp.png"));
    v.push(String::from_str("qrlan_latex_temp.tex"));
    v.push(String::from_str("qrlan_latex_temp.aux"));
    v.push(String::from_str("qrlan_latex_temp.log"));
    v.push(String::from_str("qrlan_latex_temp.out"));
    v.push(String::from_str("qrlan_latex_temp.fls"));
    v.push(String::from_str("qrlan_latex_temp.synctex.gz"));
    proof {
        assert(v.deep_view() =~= spec_scratch_artifacts());
    }
    v
}

// ---------------------------------------------------------------------------
// The export state machine
// ---------------------------------------------------------------------------
/// The states of one typeset export. The happy path runs top to bottom;
/// any failed step detours through `CleaningUp` into `Failed`, so cleanup
/// happens on every exit path.
#[derive(Clone, Copy, Debug, PartialEq, Eq, Structural)]
pub enum TsState {
    /// Nothing done yet.
    Start,
    /// The destination's parent directory exists.
    WorkspacePrepared,
    /// The code image sits in the workspace under its fixed name.
    ImageStaged,
    /// The document source sits in the workspace under its fixed name.
    SourceGenerated,
    /// The compiler ran and succeeded; its product is in the workspace.
    Compiled,
    /// The product has been moved to the caller's destination path.
    FinalPathWritten,
    /// A step failed; the scratch artifacts are being removed.
    CleaningUp,
    /// Success, workspace clean. Terminal.
    CleanedUp,
    /// Failure, workspace clean. Terminal.
    Failed,
}

/// What the application layer must do next in a given state. Each action's
/// completion (or failure) is reported back through [`step`].
#[derive(Clone, Copy, Debug, PartialEq, Eq, Structural)]
pub enum TsAction {
    /// Create the destination's parent directory if it is missing.
    PrepareWorkspace,
    /// Write the rendered bitmap into the workspace under the fixed image
    /// name.
    StageImage,
    /// Write the rendered document source into the workspace under the
    /// fixed source name.
    WriteSource,
    /// Run the typesetting compiler in non-interactive mode, directing its
    /// output into the workspace.
    RunCompiler,
    /// Remove any file at the destination path, then move the compiler's
    /// product there.
    MoveProduct,
    /// Remove every name in [`scratch_artifact_names`] from the workspace,
    /// best-effort: failures here are swallowed.
    RemoveScratch,
}

/// A state from which the export is over.
pub open spec fn spec_is_terminal(s: TsState) -> bool {
    s == TsState::CleanedUp || s == TsState::Failed
}

/// The next state on the happy path.
pub open spec fn spec_advance(s: TsState) -> TsState {
    match s {
        TsState::Start => TsState::WorkspacePrepared,
        TsState::WorkspacePrepared => TsState::ImageStaged,
        TsState::ImageStaged => TsState::SourceGenerated,
        TsState::SourceGenerated => TsState::Compiled,
        TsState::Compiled => TsState::FinalPathWritten,
        TsState::FinalPathWritten => TsState::CleanedUp,
        TsState::CleaningUp => TsState::Failed,
        TsState::CleanedUp => TsState::CleanedUp,
        TsState::Failed => TsState::Failed,
    }
}

/// The state after one reported step. A failed step detours into cleanup;
/// cleanup itself is best-effort on the success path and on the failure
/// path alike, so its report never changes where it leads — a failure
/// while removing scratch files can neither mask a success nor soften a
/// failure.
pub open spec fn spec_step(s: TsState, ok: bool) -> TsState {
    if spec_is_terminal(s) {
        s
    } else if s == TsState::CleaningUp {
        TsState::Failed
    } else if s == TsState::FinalPathWritten {
        TsState::CleanedUp
    } else if ok {
        spec_advance(s)
    } else {
        TsState::CleaningUp
    }
}

/// The action owed in a state, none once the export is over.
pub open spec fn spec_action_of(s: TsState) -> Option<TsAction> {
    match s {
        TsState::Start => Some(TsAction::PrepareWorkspace),
        TsState::WorkspacePrepared => Some(TsAction::StageImage),
        TsState::ImageStaged => Some(TsAction::WriteSource),
        TsState::SourceGenerated => Some(TsAction::RunCompiler),
        TsState::Compiled => Some(TsAction::MoveProduct),
        TsState::FinalPathWritten => Some(TsAction::RemoveScratch),
        TsState::CleaningUp => Some(TsAction::RemoveScratch),
        TsState::CleanedUp => None,
        TsState::Failed => None,
    }
}

/// One typeset export in progress.
pub struct TypesetExporter {
    pub state: TsState,
}

impl TypesetExporter {
    /// A fresh export, with nothing done yet.
    pub fn new() -> (r: TypesetExporter)
        ensures
            r.state == TsState::Start,
    {
        TypesetExporter { state: TsState::Start }
    }

    /// Whether the export is over.
    pub fn is_terminal(&self) -> (r: bool)
        ensures
            r == spec_is_terminal(self.state),
    {
        self.state == TsState::CleanedUp || self.state == TsState::Failed
    }

    /// Whether the export ended in success.
    pub fn succeeded(&self) -> (r: bool)
        ensures
            r == (self.state == TsState::CleanedUp),
    {
        self.state == TsState::CleanedUp
    }

    /// The action the application layer owes next, none once the export is
    /// over.
    pub fn next_action(&self) -> (r: Option<TsAction>)
        ensures
            r == spec_action_of(self.state),
    {
        match self.state {
            TsState::Start => Some(TsAction::PrepareWorkspace),
            TsState::WorkspacePrepared => Some(TsAction::StageImage),
            TsState::ImageStaged => Some(TsAction::WriteSource),
            TsState::SourceGenerated => Some(TsAction::RunCompiler),
            TsState::Compiled => Some(TsAction::MoveProduct),
            TsState::FinalPathWritten => Some(TsAction::RemoveScratch),
            TsState::CleaningUp => Some(TsAction::RemoveScratch),
            TsState::CleanedUp => None,
            TsState::Failed => None,
        }
    }

    /// Takes the report of the pending action and moves to the next state.
    pub fn step(&mut self, ok: bool)
        ensures
            final(self).state == spec_step(old(self).state, ok),
    {
        if self.state == TsState::CleanedUp || self.state == TsState::Failed {
        } else if self.state == TsState::CleaningUp {
            self.state = TsState::Failed;
        } else if self.state == TsState::FinalPathWritten {
            self.state = TsState::CleanedUp;
        } else if ok {
            self.state = match self.state {
                TsState::Start => TsState::WorkspacePrepared,
                TsState::WorkspacePrepared => TsState::ImageStaged,
                TsState::ImageStaged => TsState::SourceGenerated,
                TsState::SourceGenerated => TsState::Compiled,
                TsState::Compiled => TsState::FinalPathWritten,
                TsState::FinalPathWritten => TsState::CleanedUp,
                TsState::CleaningUp => TsState::Failed,
                TsState::CleanedUp => TsState::CleanedUp,
                TsState::Failed => TsState::Failed,
            };
        } else {
            self.state = TsState::CleaningUp;
        }
    }
}

/// Law: the workspace is clean after any outcome, and cleanup masks
/// nothing. A terminal state is entered only from a state whose owed
/// action is the removal of every fixed-name scratch artifact, so a run
/// that performs each owed action ends with the workspace holding none of
/// them, on success and on failure alike; and the report of that removal
/// never changes the outcome it leads to.
pub proof fn lemma_cleanup_before_terminal(s: TsState, ok: bool)
    ensures
        spec_is_terminal(spec_step(s, ok)) && !spec_is_terminal(s) ==> spec_action_of(s) == Some(
            TsAction::RemoveScratch,
        ),
        spec_step(TsState::FinalPathWritten, ok) == TsState::CleanedUp,
        spec_step(TsState::CleaningUp, ok) == TsState::Failed,
{
}

// ---------------------------------------------------------------------------
// The compiler boundary
// ---------------------------------------------------------------------------
/// The advice shown when the typesetting compiler is missing.
pub fn compiler_remediation_text() -> (r: &'static str)
    ensures
        r@
            == "Error: \nNo LaTeX distribution was found. Ensure that the \"pdflatex\" command is available.\n\nFor Windows use:\nMiKTeX (https://miktex.org/download)\n\nFor macOS use:\nMacTeX (https://www.tug.org/mactex/mactex-download.html)\n\nFor Linux (Debian/Ubuntu) use:\nsudo apt-get install texlive-latex-base texlive-fonts-recommended texlive-lang-english\n\nFor Linux (Fedora) use:\nsudo dnf install texlive-scheme-basic texlive-collection-fontsrecommended texlive-collection-langenglish"@,
{
    "Error: \nNo LaTeX distribution was found. Ensure that the \"pdflatex\" command is available.\n\nFor Windows use:\nMiKTeX (https://miktex.org/download)\n\nFor macOS use:\nMacTeX (https://www.tug.org/mactex/mactex-download.html)\n\nFor Linux (Debian/Ubuntu) use:\nsudo apt-get install texlive-latex-base texlive-fonts-recommended texlive-lang-english\n\nFor Linux (Fedora) use:\nsudo dnf install texlive-scheme-basic texlive-collection-fontsrecommended texlive-collection-langenglish"
}

/// The outcome of probing for the typesetting compiler: available exactly
/// when the probe command could be started and reported success; otherwise
/// the remediation advice, before any workspace work begins.
pub fn compiler_probe_outcome(launched: bool, success: bool) -> (r: Result<
    (),
    CompilerUnavailableError,
>)
    ensures
        (r is Ok) == (launched && success),
        r matches Err(e) ==> e.message@
            == "Error: \nNo LaTeX distribution was found. Ensure that the \"pdflatex\" command is available.\n\nFor Windows use:\nMiKTeX (https://miktex.org/download)\n\nFor macOS use:\nMacTeX (https://www.tug.org/mactex/mactex-download.html)\n\nFor Linux (Debian/Ubuntu) use:\nsudo apt-get install texlive-latex-base texlive-fonts-recommended texlive-lang-english\n\nFor Linux (Fedora) use:\nsudo dnf install texlive-scheme-basic texlive-collection-fontsrecommended texlive-collection-langenglish"@,
{
    if launched && success {
        Ok(())
    } else {
        Err(CompilerUnavailableError { message: String::from_str(compiler_remediation_text()) })
    }
}

/// The full diagnostic dump for a failed compile: the exit status, where
/// to look, and the compiler's standard output, standard error and log,
/// all preserved verbatim. The run is not retried.
pub fn compile_failure_report(
    status_text: &str,
    log_path: &str,
    stdout: &str,
    stderr: &str,
    log_content: &str,
) -> (r: CompileError)
    ensures
        r.message@ == "pdflatex execution failed with status: "@ + status_text@ + ".\nCheck '"@
            + log_path@ + "' for details.\nStdout:\n"@ + stdout@ + "\nStderr:\n"@ + stderr@
            + "\nLog content:\n"@ + log_content@,
{
    let mut m = String::from_str("pdflatex execution failed with status: ");
    m.append(status_text);
    m.append(".\nCheck '");
    m.append(log_path);
    m.append("' for details.\nStdout:\n");
    m.append(stdout);
    m.append("\nStderr:\n");
    m.append(stderr);
    m.append("\nLog content:\n");
    m.append(log_content);
    CompileError { message: m }
}

} // verus!
