use provision::plan::{
    conflict_needs_prompt, copy_needs_prompt, decide_command, decide_copy, decide_copy_transfer,
    decide_directory, decide_empty_file, decide_removal, decide_symlink, link_needs_prompt,
    phase_order, CommandDecision, CopyAction, DirectoryAction, FileAction, LinkAction, Phase,
    RemovalKind, TransferAction,
};

#[test]
fn phases_run_in_the_declared_order() {
    assert_eq!(
        phase_order(),
        vec![
            Phase::Directories,
            Phase::EmptyFiles,
            Phase::Links,
            Phase::Copies,
            Phase::Commands,
        ]
    );
}

#[test]
fn directory_plans() {
    assert_eq!(
        decide_directory(false, false),
        vec![DirectoryAction::ReportCreating, DirectoryAction::CreateDirectoryTree]
    );
    assert_eq!(
        decide_directory(false, true),
        vec![DirectoryAction::ReportCreating, DirectoryAction::ReportSkippingExisting]
    );
    // the dry guard comes before the existence check
    assert_eq!(decide_directory(true, true), vec![DirectoryAction::ReportCreating]);
    assert_eq!(decide_directory(true, false), vec![DirectoryAction::ReportCreating]);
}

#[test]
fn empty_file_prompt_fires_only_for_existing_targets_without_replace() {
    assert!(conflict_needs_prompt(false, true));
    assert!(!conflict_needs_prompt(true, true));
    assert!(!conflict_needs_prompt(false, false));
}

#[test]
fn empty_file_plans() {
    // a declined prompt suppresses only the removal: creation continues
    assert_eq!(
        decide_empty_file(false, false, true, false),
        vec![
            FileAction::EnsureParentDirectory,
            FileAction::ReportCreatingEmptyFile,
            FileAction::CreateEmptyFile,
        ]
    );
    assert_eq!(
        decide_empty_file(false, true, true, false),
        vec![
            FileAction::RemoveTarget,
            FileAction::EnsureParentDirectory,
            FileAction::ReportCreatingEmptyFile,
            FileAction::CreateEmptyFile,
        ]
    );
    // in a dry run the removal and creation drop out, the reports stay
    assert_eq!(
        decide_empty_file(true, true, true, false),
        vec![FileAction::EnsureParentDirectory, FileAction::ReportCreatingEmptyFile]
    );
}

#[test]
fn link_prompt_sits_behind_the_dry_guard() {
    assert!(link_needs_prompt(false, false, false, true));
    assert!(!link_needs_prompt(true, false, false, true));
    assert!(!link_needs_prompt(false, true, false, true));
    assert!(!link_needs_prompt(false, false, true, true));
    assert!(!link_needs_prompt(false, false, false, false));
}

#[test]
fn symlink_plans() {
    assert_eq!(decide_symlink(true, false, false, true, false), vec![LinkAction::ReportLinking]);
    assert_eq!(
        decide_symlink(false, false, true, true, false),
        vec![LinkAction::ReportLinking, LinkAction::ReportSkippingExistingLink]
    );
    assert_eq!(
        decide_symlink(false, true, false, true, false),
        vec![LinkAction::ReportLinking, LinkAction::RemoveDestination, LinkAction::CreateLink]
    );
    // a declined prompt suppresses only the removal: the link is still
    // attempted against the occupied destination
    assert_eq!(
        decide_symlink(false, false, false, true, false),
        vec![LinkAction::ReportLinking, LinkAction::CreateLink]
    );
    assert_eq!(
        decide_symlink(false, false, false, false, false),
        vec![LinkAction::ReportLinking, LinkAction::CreateLink]
    );
}

#[test]
fn copy_prompt_fires_before_the_dry_guard() {
    assert!(copy_needs_prompt(false, true));
    assert!(!copy_needs_prompt(true, true));
    assert!(!copy_needs_prompt(false, false));
}

#[test]
fn copy_plans() {
    // a declined prompt skips the whole copy, unlike files and links
    assert_eq!(decide_copy(false, false, true, false), Vec::new());
    assert_eq!(
        decide_copy(false, false, true, true),
        vec![
            CopyAction::ReportRemoving,
            CopyAction::RemoveDestination,
            CopyAction::ReportCopying,
            CopyAction::Transfer,
        ]
    );
    assert_eq!(
        decide_copy(false, true, true, false),
        vec![
            CopyAction::ReportRemoving,
            CopyAction::RemoveDestination,
            CopyAction::ReportCopying,
            CopyAction::Transfer,
        ]
    );
    // dry: the reports stay, the removal and the transfer drop out
    assert_eq!(
        decide_copy(true, true, true, false),
        vec![CopyAction::ReportRemoving, CopyAction::ReportCopying]
    );
    assert_eq!(decide_copy(true, false, false, false), vec![CopyAction::ReportCopying]);
    assert_eq!(
        decide_copy(false, false, false, false),
        vec![CopyAction::ReportCopying, CopyAction::Transfer]
    );
}

#[test]
fn transfer_plans() {
    assert_eq!(decide_copy_transfer(true), vec![TransferAction::CopyFileContents]);
    assert_eq!(
        decide_copy_transfer(false),
        vec![TransferAction::EnsureDestinationParent, TransferAction::CopyDirectoryTree]
    );
}

#[test]
fn removal_kind_follows_the_entry() {
    assert_eq!(decide_removal(true), RemovalKind::SingleEntry);
    assert_eq!(decide_removal(false), RemovalKind::WholeTree);
}

#[test]
fn command_decisions() {
    assert_eq!(decide_command(false, 0), CommandDecision::Abort);
    assert_eq!(decide_command(true, 0), CommandDecision::Abort);
    assert_eq!(decide_command(true, 2), CommandDecision::ReportOnly);
    assert_eq!(decide_command(false, 1), CommandDecision::ReportAndSpawn);
}
