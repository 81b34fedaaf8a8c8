use qrlan::typeset::{
    compile_failure_report, compiler_probe_outcome, default_template, escape_typeset_title,
    render_document, scratch_artifact_names, temp_image_filename, temp_source_filename,
    TsAction, TsState, TypesetExporter,
};

#[test]
fn escape_leaves_plain_text_alone() {
    assert_eq!(escape_typeset_title("Guest Network 2"), "Guest Network 2");
}

#[test]
fn escape_rewrites_each_special_character() {
    assert_eq!(escape_typeset_title("a_b"), "a\\_b");
    assert_eq!(escape_typeset_title("50%"), "50\\%");
    assert_eq!(escape_typeset_title("{x}"), "\\{x\\}");
    assert_eq!(escape_typeset_title("a&b"), "a\\&b");
    assert_eq!(escape_typeset_title("$#"), "\\$\\#");
    assert_eq!(escape_typeset_title("x^2"), "x\\textasciicircum{}2");
    assert_eq!(escape_typeset_title("~home"), "\\textasciitilde{}home");
}

#[test]
fn escape_backslash_first_avoids_double_escaping() {
    // the backslash replacement's own braces are escaped by the later
    // brace passes, as sequential substitution would produce
    assert_eq!(escape_typeset_title("\\"), "\\textbackslash\\{\\}");
    assert_eq!(escape_typeset_title("a\\_b"), "a\\textbackslash\\{\\}\\_b");
}

#[test]
fn document_substitutes_both_placeholders() {
    let template = "T={{QRLAN_PDF_TITLE}} I={{QR_CODE_IMAGE_PATH}}";
    let doc = render_document(template, "My_Net", "qr.png");
    assert_eq!(doc, "T=My\\_Net I=qr.png");
}

#[test]
fn document_substitutes_every_occurrence() {
    let template = "{{QRLAN_PDF_TITLE}}+{{QRLAN_PDF_TITLE}}";
    let doc = render_document(template, "X", "i.png");
    assert_eq!(doc, "X+X");
}

#[test]
fn default_template_renders_to_compilable_source() {
    let doc = render_document(default_template(), "Home 5G", temp_image_filename());
    assert!(doc.contains("Home 5G"));
    assert!(doc.contains("\\includegraphics[width=0.6\\textwidth]{qrlan_qr_temp.png}"));
    assert!(!doc.contains("{{QRLAN_PDF_TITLE}}"));
    assert!(!doc.contains("{{QR_CODE_IMAGE_PATH}}"));
}

#[test]
fn scratch_names_cover_image_source_and_sidecars() {
    let names = scratch_artifact_names();
    assert_eq!(names.len(), 7);
    assert!(names.contains(&temp_image_filename().to_string()));
    assert!(names.contains(&temp_source_filename().to_string()));
    assert!(names.contains(&"qrlan_latex_temp.log".to_string()));
    assert!(names.contains(&"qrlan_latex_temp.synctex.gz".to_string()));
}

/// Drives the machine with a simulated workspace, performing each owed
/// action on a set of file names, and returns the files left behind.
fn drive(fail_at: Option<TsAction>) -> (TypesetExporter, Vec<String>) {
    let mut files: Vec<String> = Vec::new();
    let mut m = TypesetExporter::new();
    let mut steps = 0;
    while let Some(action) = m.next_action() {
        steps += 1;
        assert!(steps < 20, "the export must terminate");
        if fail_at == Some(action) {
            m.step(false);
            continue;
        }
        match action {
            TsAction::PrepareWorkspace => {}
            TsAction::StageImage => files.push(temp_image_filename().to_string()),
            TsAction::WriteSource => files.push(temp_source_filename().to_string()),
            TsAction::RunCompiler => {
                files.push("qrlan_latex_temp.log".to_string());
                files.push("qrlan_latex_temp.aux".to_string());
                files.push("qrlan_latex_temp.pdf".to_string());
            }
            TsAction::MoveProduct => {
                files.retain(|f| f != "qrlan_latex_temp.pdf");
            }
            TsAction::RemoveScratch => {
                let scratch = scratch_artifact_names();
                files.retain(|f| !scratch.contains(f));
            }
        }
        m.step(true);
    }
    (m, files)
}

#[test]
fn successful_export_leaves_workspace_clean() {
    let (m, files) = drive(None);
    assert!(m.is_terminal());
    assert!(m.succeeded());
    assert!(files.is_empty());
}

#[test]
fn failed_compile_still_leaves_workspace_clean() {
    let (m, files) = drive(Some(TsAction::RunCompiler));
    assert!(m.is_terminal());
    assert!(!m.succeeded());
    assert!(files.is_empty());
}

#[test]
fn failed_staging_still_leaves_workspace_clean() {
    let (m, files) = drive(Some(TsAction::StageImage));
    assert!(m.is_terminal());
    assert!(!m.succeeded());
    assert!(files.is_empty());
}

#[test]
fn happy_path_visits_the_documented_states() {
    let mut m = TypesetExporter::new();
    assert_eq!(m.state, TsState::Start);
    m.step(true);
    assert_eq!(m.state, TsState::WorkspacePrepared);
    m.step(true);
    assert_eq!(m.state, TsState::ImageStaged);
    m.step(true);
    assert_eq!(m.state, TsState::SourceGenerated);
    m.step(true);
    assert_eq!(m.state, TsState::Compiled);
    m.step(true);
    assert_eq!(m.state, TsState::FinalPathWritten);
    m.step(true);
    assert_eq!(m.state, TsState::CleanedUp);
}

#[test]
fn cleanup_report_cannot_mask_the_outcome() {
    // on the success path, a failure reported for the scratch removal is
    // swallowed: the export still ends in success
    let mut m = TypesetExporter::new();
    for _ in 0..5 {
        m.step(true);
    }
    assert_eq!(m.state, TsState::FinalPathWritten);
    m.step(false);
    assert_eq!(m.state, TsState::CleanedUp);
    assert!(m.succeeded());
    // on the failure path, the same report cannot soften the failure
    let mut f = TypesetExporter::new();
    f.step(false);
    assert_eq!(f.state, TsState::CleaningUp);
    f.step(false);
    assert_eq!(f.state, TsState::Failed);
    assert!(!f.succeeded());
}

#[test]
fn failure_detours_through_cleanup() {
    let mut m = TypesetExporter::new();
    m.step(true);
    m.step(false);
    assert_eq!(m.state, TsState::CleaningUp);
    assert_eq!(m.next_action(), Some(TsAction::RemoveScratch));
    m.step(true);
    assert_eq!(m.state, TsState::Failed);
    assert_eq!(m.next_action(), None);
}

#[test]
fn probe_success_means_compiler_available() {
    assert!(compiler_probe_outcome(true, true).is_ok());
}

#[test]
fn probe_failure_carries_remediation_advice() {
    for (launched, success) in [(false, false), (false, true), (true, false)] {
        let e = compiler_probe_outcome(launched, success).unwrap_err();
        let m = e.message();
        assert!(m.starts_with("Error: \nNo LaTeX distribution was found."));
        assert!(m.contains("MiKTeX"));
        assert!(m.contains("MacTeX"));
        assert!(m.contains("texlive"));
    }
}

#[test]
fn compile_failure_report_preserves_diagnostics() {
    let e = compile_failure_report("exit status: 1", "/tmp/w/qrlan_latex_temp.log", "out", "err", "log text");
    assert_eq!(
        e.message(),
        "pdflatex execution failed with status: exit status: 1.\nCheck '/tmp/w/qrlan_latex_temp.log' for details.\nStdout:\nout\nStderr:\nerr\nLog content:\nlog text"
    );
}
