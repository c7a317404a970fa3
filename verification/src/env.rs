use vstd::prelude::*;

verus! {

/// The environment files that are loaded, in order: first those of the build
/// mode (development for a debug build, production for a release build),
/// non-secret before secret, then those shared by every mode.
pub open spec fn spec_env_files(debug: bool) -> Seq<Seq<char>> {
    if debug {
        seq![
            "../.env.development"@,
            "../.env.development.local"@,
            "../.env"@,
            "../.env.local"@,
        ]
    } else {
        seq![
            "../.env.production"@,
            "../.env.production.local"@,
            "../.env"@,
            "../.env.local"@,
        ]
    }
}

/// The environment files to load, in order, for a debug build (`debug`) or a
/// release build.
pub fn env_files(debug: bool) -> (files: Vec<String>)
    ensures
        files@.map_values(|f: String| f@) == spec_env_files(debug),
{
    let mut files: Vec<String> = Vec::new();
    if debug {
        files.push(String::from_str("../.env.development"));
        files.push(String::from_str("../.env.development.local"));
    } else {
        files.push(String::from_str("../.env.production"));
        files.push(String::from_str("../.env.production.local"));
    }
    files.push(String::from_str("../.env"));
    files.push(String::from_str("../.env.local"));
    assert(files@.map_values(|f: String| f@) =~= spec_env_files(debug));
    files
}

/// What happened to one environment file.
pub enum EnvFileOutcome {
    /// The file does not exist; nothing was loaded.
    Absent,
    /// The file exists and its variables were loaded.
    Loaded,
    /// The file exists but loading it failed; the loader's error as text.
    Failed(String),
}

/// The next thing to do while loading the environment.
pub enum EnvStep {
    /// Load this file if it exists, and report what happened.
    Load(String),
    /// Loading is over, with this result.
    Finished(Result<(), String>),
}

/// The mathematical form of an [`EnvStep`].
pub enum EnvStepView {
    Load(Seq<char>),
    Finished(Result<(), Seq<char>>),
}

impl View for EnvStep {
    type V = EnvStepView;

    open spec fn view(&self) -> EnvStepView {
        match self {
            EnvStep::Load(f) => EnvStepView::Load(f@),
            EnvStep::Finished(Ok(())) => EnvStepView::Finished(Ok(())),
            EnvStep::Finished(Err(e)) => EnvStepView::Finished(Err(e@)),
        }
    }
}

/// The report for a file that exists but could not be loaded.
pub open spec fn spec_load_error(filename: Seq<char>, error: Seq<char>) -> Seq<char> {
    "Error fetching environment file '"@ + filename + "', "@ + error
}

/// The result of loading one file: only a failed load is an error; an absent
/// file is no error.
pub open spec fn spec_file_result(filename: Seq<char>, outcome: EnvFileOutcome) -> Result<
    (),
    Seq<char>,
> {
    match outcome {
        EnvFileOutcome::Failed(e) => Err(spec_load_error(filename, e@)),
        _ => Ok(()),
    }
}

/// The step after the files before `i` have been handled without error:
/// stop at the first failed file, ask for the first file with no outcome
/// yet, and finish with success once every file is handled.
pub open spec fn spec_load_env_from(
    files: Seq<Seq<char>>,
    outcomes: Seq<EnvFileOutcome>,
    i: nat,
) -> EnvStepView
    decreases files.len() - i,
{
    if i >= files.len() {
        EnvStepView::Finished(Ok(()))
    } else if i >= outcomes.len() {
        EnvStepView::Load(files[i as int])
    } else {
        match spec_file_result(files[i as int], outcomes[i as int]) {
            Err(e) => EnvStepView::Finished(Err(e)),
            Ok(()) => spec_load_env_from(files, outcomes, i + 1),
        }
    }
}

/// The step of loading the environment of a debug or release build, given
/// what happened to the files handled so far.
pub open spec fn spec_load_env(debug: bool, outcomes: Seq<EnvFileOutcome>) -> EnvStepView {
    spec_load_env_from(spec_env_files(debug), outcomes, 0)
}

/// Reports what loading one file came to: the loader's error, prefixed with
/// the file's name, when the file exists and failed to load; success when it
/// loaded or does not exist.
pub fn load_env_file_if_present(filename: &str, outcome: &EnvFileOutcome) -> (res: Result<
    (),
    String,
>)
    ensures
        match res {
            Ok(()) => spec_file_result(filename@, *outcome) is Ok,
            Err(m) => spec_file_result(filename@, *outcome) == Err::<(), Seq<char>>(m@),
        },
{
    match outcome {
        EnvFileOutcome::Failed(e) => {
            let mut m = String::from_str("Error fetching environment file '");
            m.append(filename);
            m.append("', ");
            m.append(e.as_str());
            Err(m)
        },
        _ => Ok(()),
    }
}

/// Decides the next step of loading the environment files of a debug build
/// (`debug`) or a release build, given the outcomes of the files handled so
/// far, in order. The caller loads the file that a `Load` step names, adds
/// its outcome, and asks again, until a `Finished` step gives the result.
pub fn load_env(debug: bool, outcomes: &Vec<EnvFileOutcome>) -> (step: EnvStep)
    ensures
        step@ == spec_load_env(debug, outcomes@),
{
    let files = env_files(debug);
    let ghost fv = spec_env_files(debug);
    assert(forall|j: int| 0 <= j < files.len() ==> #[trigger] files@[j]@ == fv[j]) by {
        assert forall|j: int| 0 <= j < files.len() implies #[trigger] files@[j]@ == fv[j] by {
            assert(files@.map_values(|f: String| f@)[j] == files@[j]@);
        }
    }
    let mut i: usize = 0;
    while i < files.len()
        invariant
            i <= files.len(),
            fv == spec_env_files(debug),
            fv.len() == files.len(),
            forall|j: int| 0 <= j < files.len() ==> #[trigger] files@[j]@ == fv[j],
            spec_load_env_from(fv, outcomes@, 0) == spec_load_env_from(fv, outcomes@, i as nat),
        decreases files.len() - i,
    {
        if i >= outcomes.len() {
            return EnvStep::Load(files[i].clone());
        }
        match load_env_file_if_present(files[i].as_str(), &outcomes[i]) {
            Err(m) => {
                return EnvStep::Finished(Err(m));
            },
            Ok(()) => {},
        }
        i = i + 1;
    }
    EnvStep::Finished(Ok(()))
}


proof fn lemma_from_without_failure(files: Seq<Seq<char>>, outcomes: Seq<EnvFileOutcome>, i: nat)
    requires
        i <= outcomes.len(),
        forall|j: int|
            i <= j < outcomes.len() && j < files.len() ==> !(#[trigger] outcomes[j] is Failed),
    ensures
        spec_load_env_from(files, outcomes, i) == (if outcomes.len() < files.len() {
            EnvStepView::Load(files[outcomes.len() as int])
        } else {
            EnvStepView::Finished(Ok(()))
        }),
    decreases files.len() - i,
{
    if i < files.len() && i < outcomes.len() {
        assert(!(outcomes[i as int] is Failed));
        lemma_from_without_failure(files, outcomes, i + 1);
    }
}

proof fn lemma_from_first_failure(
    files: Seq<Seq<char>>,
    outcomes: Seq<EnvFileOutcome>,
    i: nat,
    k: nat,
)
    requires
        i <= k < outcomes.len(),
        k < files.len(),
        outcomes[k as int] is Failed,
        forall|j: int| i <= j < k ==> !(#[trigger] outcomes[j] is Failed),
    ensures
        spec_load_env_from(files, outcomes, i) == EnvStepView::Finished(
            spec_file_result(files[k as int], outcomes[k as int]),
        ),
    decreases k - i,
{
    if i < k {
        assert(!(outcomes[i as int] is Failed));
        lemma_from_first_failure(files, outcomes, i + 1, k);
    }
}

proof fn lemma_from_finished_stays(
    files: Seq<Seq<char>>,
    outcomes: Seq<EnvFileOutcome>,
    extra: EnvFileOutcome,
    i: nat,
)
    requires
        spec_load_env_from(files, outcomes, i) is Finished,
    ensures
        spec_load_env_from(files, outcomes.push(extra), i) == spec_load_env_from(
            files,
            outcomes,
            i,
        ),
    decreases files.len() - i,
{
    if i < files.len() && i < outcomes.len() {
        assert(outcomes.push(extra)[i as int] == outcomes[i as int]);
        if spec_file_result(files[i as int], outcomes[i as int]) is Ok {
            lemma_from_finished_stays(files, outcomes, extra, i + 1);
        }
    }
}

/// An absent file is never an error: as long as no file has failed to load,
/// the files are asked for one after the other in their order, and once each
/// has been handled the environment is loaded successfully.
pub proof fn lemma_load_env_without_failure(debug: bool, outcomes: Seq<EnvFileOutcome>)
    requires
        forall|j: int| 0 <= j < outcomes.len() ==> !(#[trigger] outcomes[j] is Failed),
    ensures
        spec_load_env(debug, outcomes) == (if outcomes.len() < spec_env_files(debug).len() {
            EnvStepView::Load(spec_env_files(debug)[outcomes.len() as int])
        } else {
            EnvStepView::Finished(Ok(()))
        }),
{
    lemma_from_without_failure(spec_env_files(debug), outcomes, 0);
}

/// Loading stops at the first file that fails: the result is that file's
/// error, whatever is reported of any later file.
pub proof fn lemma_load_env_stops_at_first_failure(
    debug: bool,
    outcomes: Seq<EnvFileOutcome>,
    k: nat,
)
    requires
        k < outcomes.len(),
        k < spec_env_files(debug).len(),
        outcomes[k as int] is Failed,
        forall|j: int| 0 <= j < k ==> !(#[trigger] outcomes[j] is Failed),
    ensures
        spec_load_env(debug, outcomes) == EnvStepView::Finished(
            spec_file_result(spec_env_files(debug)[k as int], outcomes[k as int]),
        ),
        spec_file_result(spec_env_files(debug)[k as int], outcomes[k as int]) is Err,
{
    lemma_from_first_failure(spec_env_files(debug), outcomes, 0, k);
}

/// Each file is asked for at most once, in order: a `Load` step names the
/// file after those already handled, so the loading finishes after at most
/// one outcome per file.
pub proof fn lemma_load_env_asks_next_file(debug: bool, outcomes: Seq<EnvFileOutcome>)
    ensures
        spec_load_env(debug, outcomes) is Load ==> {
            &&& outcomes.len() < spec_env_files(debug).len()
            &&& spec_load_env(debug, outcomes) == EnvStepView::Load(
                spec_env_files(debug)[outcomes.len() as int],
            )
        },
{
    let files = spec_env_files(debug);
    if exists|k: int| 0 <= k < outcomes.len() && k < files.len() && #[trigger] outcomes[k] is Failed {
        let k = choose|k: int|
            0 <= k < outcomes.len() && k < files.len() && #[trigger] outcomes[k] is Failed;
        lemma_first_failed(outcomes, k);
        let f = choose|f: int|
            0 <= f <= k && outcomes[f] is Failed && (forall|j: int|
                0 <= j < f ==> !(#[trigger] outcomes[j] is Failed));
        lemma_from_first_failure(files, outcomes, 0, f as nat);
    } else {
        lemma_from_without_failure(files, outcomes, 0);
    }
}

proof fn lemma_first_failed(outcomes: Seq<EnvFileOutcome>, k: int)
    requires
        0 <= k < outcomes.len(),
        outcomes[k] is Failed,
    ensures
        exists|f: int|
            0 <= f <= k && outcomes[f] is Failed && (forall|j: int|
                0 <= j < f ==> !(#[trigger] outcomes[j] is Failed)),
    decreases k,
{
    if exists|j: int| 0 <= j < k && #[trigger] outcomes[j] is Failed {
        let j = choose|j: int| 0 <= j < k && #[trigger] outcomes[j] is Failed;
        lemma_first_failed(outcomes, j);
    } else {
        assert(0 <= k <= k && outcomes[k] is Failed && (forall|j: int|
            0 <= j < k ==> !(#[trigger] outcomes[j] is Failed)));
    }
}

/// Once loading has finished, its result stands: whatever outcome is reported
/// afterwards, the step stays the same.
pub proof fn lemma_load_env_finished_stays(
    debug: bool,
    outcomes: Seq<EnvFileOutcome>,
    extra: EnvFileOutcome,
)
    requires
        spec_load_env(debug, outcomes) is Finished,
    ensures
        spec_load_env(debug, outcomes.push(extra)) == spec_load_env(debug, outcomes),
{
    lemma_from_finished_stays(spec_env_files(debug), outcomes, extra, 0);
}

} // verus!
