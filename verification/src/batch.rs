//! The per-file pipeline and the bookkeeping of a batch: what happens to one
//! file from its decoding to its saving, and how the outcomes of all files
//! add up to the result of the run.

use crate::dither::{
    apply_with_matrix, can_be_resized, check_can_be_resized, has_resized_shape, is_dithered_resize,
};
use crate::matrix::BayerMatrix;
use crate::raster::{OutputImage, SourceImage};
use vstd::prelude::*;

verus! {

/// What went wrong with one file.
#[derive(Clone, Copy, Debug, PartialEq, Eq, Structural)]
pub enum FileErrorKind {
    /// The file could not be read as an image.
    Decode,
    /// The image is too large for the resize step.
    ImageTooLarge,
    /// The output directory could not be created.
    OutputDirectory,
    /// The path of the file has no file name.
    InvalidFileName,
    /// The output could not be encoded or written.
    EncodeOrWrite,
}

/// The failure of one file. A failure concerns that file alone.
#[derive(Debug, PartialEq, Eq)]
pub struct FileError {
    /// What went wrong.
    pub kind: FileErrorKind,
    /// The path that the failure is about: the output directory where it
    /// could not be created, the output file where it could not be written,
    /// else the source file.
    pub path: String,
    /// What the failed step reported; empty where no step was taken.
    pub cause: String,
}

/// What a failure holds.
pub struct FileFailure {
    pub kind: FileErrorKind,
    pub path: Seq<char>,
    pub cause: Seq<char>,
}

impl View for FileError {
    type V = FileFailure;

    open spec fn view(&self) -> FileFailure {
        FileFailure { kind: self.kind, path: self.path@, cause: self.cause@ }
    }
}

/// The words for a kind of failure.
pub open spec fn kind_text(kind: FileErrorKind) -> Seq<char> {
    match kind {
        FileErrorKind::Decode => "Failed to open image: "@,
        FileErrorKind::ImageTooLarge => "Image too large to resize: "@,
        FileErrorKind::OutputDirectory => "Failed to create directory: "@,
        FileErrorKind::InvalidFileName => "Invalid file name: "@,
        FileErrorKind::EncodeOrWrite => "Failed to save image: "@,
    }
}

impl FileError {
    /// What went wrong, in words, and the path it is about.
    pub fn message(&self) -> (text: String)
        ensures
            text@ == kind_text(self@.kind) + self@.path,
    {
        let mut text = match self.kind {
            FileErrorKind::Decode => String::from_str("Failed to open image: "),
            FileErrorKind::ImageTooLarge => String::from_str("Image too large to resize: "),
            FileErrorKind::OutputDirectory => String::from_str("Failed to create directory: "),
            FileErrorKind::InvalidFileName => String::from_str("Invalid file name: "),
            FileErrorKind::EncodeOrWrite => String::from_str("Failed to save image: "),
        };
        text.append(self.path.as_str());
        text
    }
}

/// The name of the directory, beside each source file, that takes the
/// outputs.
pub fn output_directory_name() -> (name: &'static str)
    ensures
        name@ == "dithers"@,
{
    "dithers"
}

/// The transform of the file at `path`: given what decoding the file gave
/// (the image, or what the decoder reported), the image to save, or the
/// failure of that file. The matrix is that of the run, shared by all its
/// files.
pub fn process_image(
    path: &str,
    decoded: Result<SourceImage, String>,
    matrix: &BayerMatrix,
    max_image_side: u32,
) -> (result: Result<OutputImage, FileError>)
    ensures
        decoded matches Err(cause) ==> (result matches Err(error) && error@ == (FileFailure {
            kind: FileErrorKind::Decode,
            path: path@,
            cause: cause@,
        })),
        decoded matches Ok(image) ==> (if can_be_resized(image@) {
            result matches Ok(out) && is_dithered_resize(
                out@,
                image@,
                matrix@.len() as int,
                max_image_side as int,
            ) && has_resized_shape(out@, image@, matrix@.len() as int, max_image_side as int)
        } else {
            result matches Err(error) && error@ == (FileFailure {
                kind: FileErrorKind::ImageTooLarge,
                path: path@,
                cause: Seq::<char>::empty(),
            })
        }),
{
    match decoded {
        Err(cause) => Err(FileError { kind: FileErrorKind::Decode, path: path.to_owned(), cause }),
        Ok(image) => {
            if check_can_be_resized(&image) {
                Ok(apply_with_matrix(&image, matrix, max_image_side))
            } else {
                Err(
                    FileError {
                        kind: FileErrorKind::ImageTooLarge,
                        path: path.to_owned(),
                        cause: String::new(),
                    },
                )
            }
        },
    }
}

/// Where the output of one file goes.
#[derive(Debug, PartialEq, Eq)]
pub struct SaveTarget {
    /// The path of the source file.
    pub source_path: String,
    /// The path of the output directory.
    pub directory: String,
    /// The path of the output file; none where the source path has no file
    /// name.
    pub output_path: Option<String>,
}

/// What a target holds.
pub struct SavePlace {
    pub source_path: Seq<char>,
    pub directory: Seq<char>,
    pub output_path: Option<Seq<char>>,
}

/// The text of an optional string.
pub open spec fn text_of(text: Option<String>) -> Option<Seq<char>> {
    match text {
        Some(text) => Some(text@),
        None => None,
    }
}

impl View for SaveTarget {
    type V = SavePlace;

    open spec fn view(&self) -> SavePlace {
        SavePlace {
            source_path: self.source_path@,
            directory: self.directory@,
            output_path: text_of(self.output_path),
        }
    }
}

/// Where the saving of one output stands.
#[derive(Clone, Copy, Debug, PartialEq, Eq, Structural)]
pub enum SaveState {
    /// Nothing has been asked for yet.
    Start,
    /// The output directory has been asked for.
    DirectoryRequested,
    /// The writing of the file has been asked for.
    WriteRequested,
    /// The saving is over, well or badly.
    Finished,
}

/// What the saving asks for next, or how it ended.
#[derive(Debug, PartialEq, Eq)]
pub enum SaveAction {
    /// Create the directory at this path, if it is not there.
    CreateDirectory(String),
    /// Encode the image and write it to this path.
    WriteFile(String),
    /// The file is saved.
    Succeed,
    /// The saving failed.
    Fail(FileError),
    /// The saving was over before; there is nothing to do.
    Nothing,
}

/// What an action holds.
pub enum SaveRequest {
    CreateDirectory(Seq<char>),
    WriteFile(Seq<char>),
    Succeed,
    Fail(FileFailure),
    Nothing,
}

impl View for SaveAction {
    type V = SaveRequest;

    open spec fn view(&self) -> SaveRequest {
        match self {
            SaveAction::CreateDirectory(path) => SaveRequest::CreateDirectory(path@),
            SaveAction::WriteFile(path) => SaveRequest::WriteFile(path@),
            SaveAction::Succeed => SaveRequest::Succeed,
            SaveAction::Fail(error) => SaveRequest::Fail(error@),
            SaveAction::Nothing => SaveRequest::Nothing,
        }
    }
}

/// The action that `save_image` takes in `state` for the given target, when
/// the action before it ended as `failure` says: not at all (`None`), or
/// with the report of what went wrong.
///
/// The directory is created first; only then is the file name asked for;
/// then the file is written. A failure names the path it is about.
pub open spec fn save_action(
    state: SaveState,
    failure: Option<Seq<char>>,
    target: SavePlace,
) -> SaveRequest {
    match state {
        SaveState::Start => SaveRequest::CreateDirectory(target.directory),
        SaveState::DirectoryRequested => match failure {
            Some(cause) => SaveRequest::Fail(
                FileFailure { kind: FileErrorKind::OutputDirectory, path: target.directory, cause },
            ),
            None => match target.output_path {
                Some(path) => SaveRequest::WriteFile(path),
                None => SaveRequest::Fail(
                    FileFailure {
                        kind: FileErrorKind::InvalidFileName,
                        path: target.source_path,
                        cause: Seq::empty(),
                    },
                ),
            },
        },
        SaveState::WriteRequested => match failure {
            Some(cause) => SaveRequest::Fail(
                FileFailure {
                    kind: FileErrorKind::EncodeOrWrite,
                    path: match target.output_path {
                        Some(path) => path,
                        None => target.source_path,
                    },
                    cause,
                },
            ),
            None => SaveRequest::Succeed,
        },
        SaveState::Finished => SaveRequest::Nothing,
    }
}

/// The state in which an action leaves the saving.
pub open spec fn state_after(action: SaveRequest) -> SaveState {
    match action {
        SaveRequest::CreateDirectory(_) => SaveState::DirectoryRequested,
        SaveRequest::WriteFile(_) => SaveState::WriteRequested,
        _ => SaveState::Finished,
    }
}

/// How the saving of one output ends when creating the directory and
/// writing the file end as given.
pub open spec fn save_result(
    target: SavePlace,
    directory_failure: Option<Seq<char>>,
    write_failure: Option<Seq<char>>,
) -> Result<(), FileFailure> {
    match directory_failure {
        Some(cause) => Err(
            FileFailure { kind: FileErrorKind::OutputDirectory, path: target.directory, cause },
        ),
        None => match target.output_path {
            None => Err(
                FileFailure {
                    kind: FileErrorKind::InvalidFileName,
                    path: target.source_path,
                    cause: Seq::empty(),
                },
            ),
            Some(path) => match write_failure {
                Some(cause) => Err(
                    FileFailure { kind: FileErrorKind::EncodeOrWrite, path, cause },
                ),
                None => Ok(()),
            },
        },
    }
}

/// One step of saving an output: from the state and the outcome of the
/// action before, the next action and the state it leaves. In `Start` no
/// action came before and `failure` is not looked at.
pub fn save_image(state: SaveState, failure: &Option<String>, target: &SaveTarget) -> (step: (
    SaveState,
    SaveAction,
))
    ensures
        step.1@ == save_action(state, text_of(*failure), target@),
        step.0 == state_after(step.1@),
{
    match state {
        SaveState::Start => (
            SaveState::DirectoryRequested,
            SaveAction::CreateDirectory(target.directory.clone()),
        ),
        SaveState::DirectoryRequested => match failure {
            Some(cause) => (
                SaveState::Finished,
                SaveAction::Fail(
                    FileError {
                        kind: FileErrorKind::OutputDirectory,
                        path: target.directory.clone(),
                        cause: cause.clone(),
                    },
                ),
            ),
            None => match &target.output_path {
                Some(path) => (SaveState::WriteRequested, SaveAction::WriteFile(path.clone())),
                None => (
                    SaveState::Finished,
                    SaveAction::Fail(
                        FileError {
                            kind: FileErrorKind::InvalidFileName,
                            path: target.source_path.clone(),
                            cause: String::new(),
                        },
                    ),
                ),
            },
        },
        SaveState::WriteRequested => match failure {
            Some(cause) => {
                let path = match &target.output_path {
                    Some(path) => path.clone(),
                    None => target.source_path.clone(),
                };
                (
                    SaveState::Finished,
                    SaveAction::Fail(
                        FileError {
                            kind: FileErrorKind::EncodeOrWrite,
                            path,
                            cause: cause.clone(),
                        },
                    ),
                )
            },
            None => (SaveState::Finished, SaveAction::Succeed),
        },
        SaveState::Finished => (SaveState::Finished, SaveAction::Nothing),
    }
}

/// The result that an action stands for once the saving is over.
pub open spec fn action_result(action: SaveRequest) -> Result<(), FileFailure> {
    match action {
        SaveRequest::Fail(failure) => Err(failure),
        _ => Ok(()),
    }
}

/// Run from start to end, the steps of `save_image` ask for the directory,
/// then for the file; after a failure no file is asked for and the saving is
/// over; and the run ends with `save_result`.
pub proof fn lemma_save_steps_reach_result(
    target: SavePlace,
    directory_failure: Option<Seq<char>>,
    write_failure: Option<Seq<char>>,
)
    ensures
        ({
            let first = save_action(SaveState::Start, None, target);
            let second = save_action(state_after(first), directory_failure, target);
            let third = save_action(state_after(second), write_failure, target);
            &&& first == SaveRequest::CreateDirectory(target.directory)
            &&& directory_failure is None && target.output_path is Some ==> second
                == SaveRequest::WriteFile(target.output_path->0) && state_after(third)
                == SaveState::Finished && action_result(third) == save_result(
                target,
                directory_failure,
                write_failure,
            )
            &&& !(directory_failure is None && target.output_path is Some) ==> second is Fail
                && state_after(second) == SaveState::Finished && action_result(second)
                == save_result(target, directory_failure, write_failure)
        }),
{
}

/// How many of the outcomes are successes.
pub open spec fn count_succeeded(outcomes: Seq<Result<(), FileError>>) -> nat
    decreases outcomes.len(),
{
    if outcomes.len() == 0 {
        0
    } else {
        count_succeeded(outcomes.drop_last()) + if outcomes.last() is Ok {
            1nat
        } else {
            0nat
        }
    }
}

/// How many of the outcomes are failures.
pub open spec fn count_failed(outcomes: Seq<Result<(), FileError>>) -> nat
    decreases outcomes.len(),
{
    if outcomes.len() == 0 {
        0
    } else {
        count_failed(outcomes.drop_last()) + if outcomes.last() is Err {
            1nat
        } else {
            0nat
        }
    }
}

/// Every file is counted once, as a success or as a failure.
pub proof fn lemma_every_outcome_counted(outcomes: Seq<Result<(), FileError>>)
    ensures
        count_succeeded(outcomes) + count_failed(outcomes) == outcomes.len(),
    decreases outcomes.len(),
{
    if outcomes.len() > 0 {
        lemma_every_outcome_counted(outcomes.drop_last());
    }
}

/// The outcome of one file does not change how the other files count: if
/// the outcome at `index` is replaced, the counts move by that file alone.
pub proof fn lemma_outcomes_are_isolated(
    outcomes: Seq<Result<(), FileError>>,
    index: int,
    outcome: Result<(), FileError>,
)
    requires
        0 <= index < outcomes.len(),
    ensures
        count_succeeded(outcomes.update(index, outcome)) + (if outcomes[index] is Ok {
            1int
        } else {
            0int
        }) == count_succeeded(outcomes) + (if outcome is Ok {
            1int
        } else {
            0int
        }),
    decreases outcomes.len(),
{
    let changed = outcomes.update(index, outcome);
    if index == outcomes.len() - 1 {
        assert(changed.drop_last() =~= outcomes.drop_last());
    } else {
        lemma_outcomes_are_isolated(outcomes.drop_last(), index, outcome);
        assert(changed.drop_last() =~= outcomes.drop_last().update(index, outcome));
    }
}

/// How a batch went.
#[derive(Clone, Copy, Debug, PartialEq, Eq, Structural)]
pub struct BatchSummary {
    /// The number of files that were processed and saved.
    pub succeeded: usize,
    /// The number of files that failed.
    pub failed: usize,
}

/// The result of a run.
#[derive(Clone, Copy, Debug, PartialEq, Eq, Structural)]
pub enum RunOutcome {
    /// No image file was found; nothing was done.
    NothingToDo,
    /// Every file found was taken up; some may have failed.
    Completed(BatchSummary),
}

/// The result of the run whose files ended as `outcomes` say.
pub open spec fn run_outcome(outcomes: Seq<Result<(), FileError>>) -> RunOutcome {
    if outcomes.len() == 0 {
        RunOutcome::NothingToDo
    } else {
        RunOutcome::Completed(
            BatchSummary {
                succeeded: count_succeeded(outcomes) as usize,
                failed: count_failed(outcomes) as usize,
            },
        )
    }
}

/// Adds up the outcomes of the files of a run.
pub fn summarize(outcomes: &Vec<Result<(), FileError>>) -> (outcome: RunOutcome)
    ensures
        outcome == run_outcome(outcomes@),
        outcome matches RunOutcome::Completed(summary) ==> summary.succeeded + summary.failed
            == outcomes@.len(),
{
    if outcomes.len() == 0 {
        return RunOutcome::NothingToDo;
    }
    let mut succeeded: usize = 0;
    let mut failed: usize = 0;
    let mut i: usize = 0;
    while i < outcomes.len()
        invariant
            i <= outcomes@.len(),
            succeeded == count_succeeded(outcomes@.take(i as int)),
            failed == count_failed(outcomes@.take(i as int)),
            succeeded + failed == i,
        decreases outcomes@.len() - i,
    {
        proof {
            assert(outcomes@.take(i + 1).drop_last() =~= outcomes@.take(i as int));
            assert(outcomes@.take(i + 1).last() == outcomes@[i as int]);
        }
        match &outcomes[i] {
            Ok(_) => {
                succeeded += 1;
            },
            Err(_) => {
                failed += 1;
            },
        }
        i += 1;
    }
    proof {
        assert(outcomes@.take(i as int) =~= outcomes@);
    }
    RunOutcome::Completed(BatchSummary { succeeded, failed })
}

} // verus!
