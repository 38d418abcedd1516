//! Which physical camera is "left" (FieldLeft) and which is "right"
//! (FieldRight). Live capture, the recorder and replay all resolve the
//! assignment here, so all three agree.
//!
//! Precedence (first match wins):
//!   1. CLI flags; when only one is given, the other camera is inferred as the
//!      remaining available one.
//!   2. The recording session manifest (replay only).
//!   3. The repository config file (`camera_assignment.json`), which the
//!      caller reads when the first two give nothing.

use vstd::prelude::*;

verus! {

/// Name of the repository-level assignment file.
pub const REPO_CONFIG_FILE_NAME: &'static str = "camera_assignment.json";

/// A resolved left/right assignment.
#[derive(Debug, Clone, PartialEq, Eq)]
pub struct CameraAssignment {
    pub left_camera_id: String,
    pub right_camera_id: String,
}

/// Contents of the repository assignment file.
#[derive(Debug, Clone)]
pub struct RepoCameraAssignmentFile {
    pub left_camera_id: String,
    pub right_camera_id: String,
}

/// The assignment frozen into a recording session.
#[derive(Debug, Clone)]
pub struct SessionManifest {
    pub left_camera_id: String,
    pub right_camera_id: String,
}

/// Inputs the resolver considers. `available_camera_ids` is the set the
/// caller knows about: discovered cameras for live capture and recording,
/// recorded frame camera ids for replay.
#[derive(Debug, Clone)]
pub struct AssignmentInputs<'a> {
    pub cli_left: Option<String>,
    pub cli_right: Option<String>,
    pub manifest: Option<SessionManifest>,
    pub available_camera_ids: &'a [String],
}

/// Where an assignment came from.
#[derive(Debug, Clone, Copy, PartialEq, Eq, Structural)]
pub enum AssignmentSource {
    CliFlags,
    SessionManifest,
    RepoConfig,
}

/// Why no valid assignment could be resolved.
#[derive(Debug, Clone, PartialEq, Eq)]
pub enum AssignmentError {
    /// There must be exactly two available cameras; this many were found.
    WrongCameraCount { found: usize },
    /// A single CLI flag names a camera outside the available set.
    CannotInferUnknown { known: String },
    /// After excluding the flagged camera more than one candidate is left.
    CannotInferAmbiguous { known: String },
    /// Left and right name the same camera.
    LeftEqualsRight { source: AssignmentSource, camera_id: String },
    /// The left camera is not available.
    LeftNotAvailable { source: AssignmentSource, camera_id: String },
    /// The right camera is not available.
    RightNotAvailable { source: AssignmentSource, camera_id: String },
    /// Neither CLI flags nor a session manifest were given: the repository
    /// config file is the next source to consult.
    NoAssignmentSource,
}

/// The abstract value of an assignment error.
pub enum AssignmentErrorView {
    WrongCameraCount { found: usize },
    CannotInferUnknown { known: Seq<char> },
    CannotInferAmbiguous { known: Seq<char> },
    LeftEqualsRight { source: AssignmentSource, camera_id: Seq<char> },
    LeftNotAvailable { source: AssignmentSource, camera_id: Seq<char> },
    RightNotAvailable { source: AssignmentSource, camera_id: Seq<char> },
    NoAssignmentSource,
}

impl View for AssignmentError {
    type V = AssignmentErrorView;

    open spec fn view(&self) -> AssignmentErrorView {
        match self {
            AssignmentError::WrongCameraCount { found } => AssignmentErrorView::WrongCameraCount {
                found: *found,
            },
            AssignmentError::CannotInferUnknown { known } =>
                AssignmentErrorView::CannotInferUnknown { known: known@ },
            AssignmentError::CannotInferAmbiguous { known } =>
                AssignmentErrorView::CannotInferAmbiguous { known: known@ },
            AssignmentError::LeftEqualsRight { source, camera_id } =>
                AssignmentErrorView::LeftEqualsRight { source: *source, camera_id: camera_id@ },
            AssignmentError::LeftNotAvailable { source, camera_id } =>
                AssignmentErrorView::LeftNotAvailable { source: *source, camera_id: camera_id@ },
            AssignmentError::RightNotAvailable { source, camera_id } =>
                AssignmentErrorView::RightNotAvailable { source: *source, camera_id: camera_id@ },
            AssignmentError::NoAssignmentSource => AssignmentErrorView::NoAssignmentSource,
        }
    }
}

/// The available camera ids that differ from `known`, in order.
pub open spec fn other_ids(known: Seq<char>, available: Seq<Seq<char>>) -> Seq<Seq<char>> {
    available.filter(|id: Seq<char>| id != known)
}

/// The camera inferred for the side whose flag was not given.
pub open spec fn spec_infer_other(known: Seq<char>, available: Seq<Seq<char>>) -> Result<
    Seq<char>,
    AssignmentErrorView,
> {
    let c = other_ids(known, available);
    if c.len() == 0 {
        Err(AssignmentErrorView::CannotInferUnknown { known })
    } else if c.len() > 1 {
        Err(AssignmentErrorView::CannotInferAmbiguous { known })
    } else {
        Ok(c[0])
    }
}

/// The check applied to an assignment from any source.
pub open spec fn spec_validate(
    left: Seq<char>,
    right: Seq<char>,
    available: Seq<Seq<char>>,
    source: AssignmentSource,
) -> Option<AssignmentErrorView> {
    if left == right {
        Some(AssignmentErrorView::LeftEqualsRight { source, camera_id: left })
    } else if !available.contains(left) {
        Some(AssignmentErrorView::LeftNotAvailable { source, camera_id: left })
    } else if !available.contains(right) {
        Some(AssignmentErrorView::RightNotAvailable { source, camera_id: right })
    } else {
        None
    }
}

/// A validated assignment from (left, right), or the first check it fails.
pub open spec fn spec_checked(
    left: Seq<char>,
    right: Seq<char>,
    available: Seq<Seq<char>>,
    source: AssignmentSource,
) -> Result<(Seq<char>, Seq<char>), AssignmentErrorView> {
    match spec_validate(left, right, available, source) {
        Some(e) => Err(e),
        None => Ok((left, right)),
    }
}

/// The views of a list of ids.
pub open spec fn ids_view(ids: Seq<String>) -> Seq<Seq<char>> {
    ids.map_values(|s: String| s@)
}

/// The assignment the precedence chain yields from CLI flags and manifest,
/// or why it yields none.
pub open spec fn spec_resolve(
    cli_left: Option<Seq<char>>,
    cli_right: Option<Seq<char>>,
    manifest: Option<(Seq<char>, Seq<char>)>,
    available: Seq<Seq<char>>,
) -> Result<(Seq<char>, Seq<char>), AssignmentErrorView> {
    if available.len() != 2 {
        Err(AssignmentErrorView::WrongCameraCount { found: available.len() as usize })
    } else {
        match (cli_left, cli_right) {
            (Some(l), Some(r)) => spec_checked(l, r, available, AssignmentSource::CliFlags),
            (Some(l), None) => match spec_infer_other(l, available) {
                Err(e) => Err(e),
                Ok(r) => spec_checked(l, r, available, AssignmentSource::CliFlags),
            },
            (None, Some(r)) => match spec_infer_other(r, available) {
                Err(e) => Err(e),
                Ok(l) => spec_checked(l, r, available, AssignmentSource::CliFlags),
            },
            (None, None) => match manifest {
                Some((l, r)) => spec_checked(l, r, available, AssignmentSource::SessionManifest),
                None => Err(AssignmentErrorView::NoAssignmentSource),
            },
        }
    }
}

/// Whether `res` is the outcome `spec` describes.
pub open spec fn assignment_result_is(
    res: Result<CameraAssignment, AssignmentError>,
    spec: Result<(Seq<char>, Seq<char>), AssignmentErrorView>,
) -> bool {
    match spec {
        Ok((l, r)) => res matches Ok(a) && a.left_camera_id@ == l && a.right_camera_id@ == r,
        Err(e) => res matches Err(err) && err@ == e,
    }
}

/// Whatever source it comes from, a resolved assignment names two
/// different cameras, both of them available.
pub proof fn law_resolved_assignment_is_valid(
    cli_left: Option<Seq<char>>,
    cli_right: Option<Seq<char>>,
    manifest: Option<(Seq<char>, Seq<char>)>,
    available: Seq<Seq<char>>,
)
    ensures
        spec_resolve(cli_left, cli_right, manifest, available) matches Ok((l, r)) ==> l != r
            && available.contains(l) && available.contains(r),
{
}

/// The precedence chain: as soon as one CLI flag is given, the session
/// manifest plays no part in the outcome.
pub proof fn law_cli_flags_take_precedence(
    cli_left: Option<Seq<char>>,
    cli_right: Option<Seq<char>>,
    manifest_a: Option<(Seq<char>, Seq<char>)>,
    manifest_b: Option<(Seq<char>, Seq<char>)>,
    available: Seq<Seq<char>>,
)
    requires
        cli_left is Some || cli_right is Some,
    ensures
        spec_resolve(cli_left, cli_right, manifest_a, available) == spec_resolve(
            cli_left,
            cli_right,
            manifest_b,
            available,
        ),
{
}

/// With one flag given and two different available cameras, the flagged
/// camera (when available) is paired with the other one.
pub proof fn law_single_flag_infers_the_other_camera(known: Seq<char>, other: Seq<char>)
    requires
        known != other,
    ensures
        spec_resolve(Some(known), None, None, seq![known, other]) == Ok::<
            (Seq<char>, Seq<char>),
            AssignmentErrorView,
        >((known, other)),
        spec_resolve(None, Some(known), None, seq![other, known]) == Ok::<
            (Seq<char>, Seq<char>),
            AssignmentErrorView,
        >((other, known)),
{
    let a = seq![known, other];
    let b = seq![other, known];
    reveal_with_fuel(Seq::filter, 3);
    assert(other_ids(known, a) =~= seq![other]);
    assert(other_ids(known, b) =~= seq![other]);
    assert(a.contains(known)) by {
        assert(a[0] == known);
    }
    assert(a.contains(other)) by {
        assert(a[1] == other);
    }
    assert(b.contains(known)) by {
        assert(b[1] == known);
    }
    assert(b.contains(other)) by {
        assert(b[0] == other);
    }
}

fn contains_id(available: &[String], id: &String) -> (res: bool)
    ensures
        res == ids_view(available@).contains(id@),
{
    let mut i: usize = 0;
    while i < available.len()
        invariant
            i <= available@.len(),
            forall|j: int| 0 <= j < i ==> available@[j]@ != id@,
        decreases available@.len() - i,
    {
        if available[i] == *id {
            assert(ids_view(available@)[i as int] == id@);
            return true;
        }
        i = i + 1;
    }
    proof {
        if ids_view(available@).contains(id@) {
            let j = choose|j: int| 0 <= j < ids_view(available@).len() && ids_view(available@)[j] == id@;
            assert(available@[j]@ == id@);
        }
    }
    false
}

/// Checks that an assignment names two different available cameras.
fn validate_assignment(
    assignment: CameraAssignment,
    available: &[String],
    source: AssignmentSource,
) -> (res: Result<CameraAssignment, AssignmentError>)
    ensures
        assignment_result_is(
            res,
            spec_checked(
                assignment.left_camera_id@,
                assignment.right_camera_id@,
                ids_view(available@),
                source,
            ),
        ),
{
    if assignment.left_camera_id == assignment.right_camera_id {
        return Err(
            AssignmentError::LeftEqualsRight { source, camera_id: assignment.left_camera_id },
        );
    }
    if !contains_id(available, &assignment.left_camera_id) {
        return Err(
            AssignmentError::LeftNotAvailable { source, camera_id: assignment.left_camera_id },
        );
    }
    if !contains_id(available, &assignment.right_camera_id) {
        return Err(
            AssignmentError::RightNotAvailable { source, camera_id: assignment.right_camera_id },
        );
    }
    Ok(assignment)
}

/// The single available camera other than `known`.
fn infer_other_camera(known: &String, available: &[String]) -> (res: Result<
    String,
    AssignmentError,
>)
    ensures
        match spec_infer_other(known@, ids_view(available@)) {
            Ok(o) => res matches Ok(s) && s@ == o,
            Err(e) => res matches Err(err) && err@ == e,
        },
{
    let ghost avail = ids_view(available@);
    let ghost f = |id: Seq<char>| id != known@;
    let mut found: Option<String> = None;
    let mut count: usize = 0;
    let mut i: usize = 0;
    while i < available.len()
        invariant
            avail == ids_view(available@),
            f == (|id: Seq<char>| id != known@),
            i <= available@.len(),
            count == avail.take(i as int).filter(f).len(),
            count <= i,
            count == 0 <==> found is None,
            found matches Some(s) ==> s@ == avail.take(i as int).filter(f)[0],
        decreases available@.len() - i,
    {
        proof {
            reveal_with_fuel(Seq::filter, 1);
            assert(avail.take(i + 1).drop_last() =~= avail.take(i as int));
            assert(avail[i as int] == available@[i as int]@);
        }
        if available[i] != *known {
            if count == 0 {
                found = Some(available[i].clone());
                assert(avail.take(i as int).filter(f).len() == 0);
                assert(avail.take(i + 1).filter(f) =~= seq![avail[i as int]]);
            } else {
                assert(avail.take(i + 1).filter(f) =~= avail.take(i as int).filter(f).push(
                    avail[i as int],
                ));
            }
            count = count + 1;
        }
        i = i + 1;
    }
    assert(avail.take(available@.len() as int) =~= avail);
    match found {
        None => Err(AssignmentError::CannotInferUnknown { known: known.clone() }),
        Some(s) => {
            if count > 1 {
                Err(AssignmentError::CannotInferAmbiguous { known: known.clone() })
            } else {
                Ok(s)
            }
        },
    }
}

/// Resolves the assignment from CLI flags, then the session manifest.
/// With exactly two available cameras and neither source given, returns
/// `AssignmentError::NoAssignmentSource`: the caller then reads the
/// repository config file and calls `assignment_from_repo_config`.
pub fn resolve_camera_assignment(inputs: &AssignmentInputs<'_>) -> (res: Result<
    CameraAssignment,
    AssignmentError,
>)
    ensures
        assignment_result_is(
            res,
            spec_resolve(
                match inputs.cli_left {
                    Some(s) => Some(s@),
                    None => None,
                },
                match inputs.cli_right {
                    Some(s) => Some(s@),
                    None => None,
                },
                match inputs.manifest {
                    Some(m) => Some((m.left_camera_id@, m.right_camera_id@)),
                    None => None,
                },
                ids_view(inputs.available_camera_ids@),
            ),
        ),
{
    let available = inputs.available_camera_ids;
    if available.len() != 2 {
        return Err(AssignmentError::WrongCameraCount { found: available.len() });
    }
    match (&inputs.cli_left, &inputs.cli_right) {
        (Some(left), Some(right)) => {
            let assignment = CameraAssignment {
                left_camera_id: left.clone(),
                right_camera_id: right.clone(),
            };
            validate_assignment(assignment, available, AssignmentSource::CliFlags)
        },
        (Some(left), None) => {
            let right = infer_other_camera(left, available)?;
            let assignment = CameraAssignment { left_camera_id: left.clone(), right_camera_id: right };
            validate_assignment(assignment, available, AssignmentSource::CliFlags)
        },
        (None, Some(right)) => {
            let left = infer_other_camera(right, available)?;
            let assignment = CameraAssignment { left_camera_id: left, right_camera_id: right.clone() };
            validate_assignment(assignment, available, AssignmentSource::CliFlags)
        },
        (None, None) => match &inputs.manifest {
            Some(manifest) => {
                let assignment = CameraAssignment {
                    left_camera_id: manifest.left_camera_id.clone(),
                    right_camera_id: manifest.right_camera_id.clone(),
                };
                validate_assignment(assignment, available, AssignmentSource::SessionManifest)
            },
            None => Err(AssignmentError::NoAssignmentSource),
        },
    }
}

/// The assignment taken from the repository config file, validated against
/// the available cameras.
pub fn assignment_from_repo_config(
    repo_config: RepoCameraAssignmentFile,
    available: &[String],
) -> (res: Result<CameraAssignment, AssignmentError>)
    ensures
        assignment_result_is(
            res,
            spec_checked(
                repo_config.left_camera_id@,
                repo_config.right_camera_id@,
                ids_view(available@),
                AssignmentSource::RepoConfig,
            ),
        ),
{
    let assignment = CameraAssignment {
        left_camera_id: repo_config.left_camera_id,
        right_camera_id: repo_config.right_camera_id,
    };
    validate_assignment(assignment, available, AssignmentSource::RepoConfig)
}

} // verus!
