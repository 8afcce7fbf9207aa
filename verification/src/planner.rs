//! The job planner: from what a root names on disk, and from the output
//! policy, to the list of input and output paths. The planner touches no
//! file; whoever walks the directory or expands the pattern hands it what
//! was found.

use vstd::prelude::*;
use crate::paths::{extension_of, file_name_of, join, parent_of, path_extension, path_file_name, path_join, path_parent, path_strip_prefix, strip_prefix};

verus! {

/// The lower-case form of an ASCII letter; any other character is itself.
pub open spec fn ascii_lower(c: char) -> char {
    if 'A' <= c && c <= 'Z' {
        ((c as u8) + 32) as char
    } else {
        c
    }
}

/// A text with its ASCII letters in lower case.
pub open spec fn folded(text: Seq<char>) -> Seq<char> {
    text.map_values(|c: char| ascii_lower(c))
}

/// The extensions of the files that are taken as images, whatever the case
/// of their letters: `png`, `jpg` and `jpeg`.
pub open spec fn accepted_extension(extension: Seq<char>) -> bool {
    ||| folded(extension) == seq!['p', 'n', 'g']
    ||| folded(extension) == seq!['j', 'p', 'g']
    ||| folded(extension) == seq!['j', 'p', 'e', 'g']
}

/// A path names an image when it has an accepted extension.
pub open spec fn image_path(path: Seq<char>) -> bool {
    match path_extension(path) {
        Some(extension) => accepted_extension(extension),
        None => false,
    }
}

/// The lower-case form of an ASCII letter; any other character is itself.
pub fn to_ascii_lower(c: char) -> (low: char)
    ensures
        low == ascii_lower(c),
{
    if 'A' <= c && c <= 'Z' {
        ((c as u8) + 32) as char
    } else {
        c
    }
}

/// Whether `text` is `word` but for the case of its ASCII letters; `word`
/// is in lower case already.
fn is_word(text: &str, word: &str) -> (same: bool)
    ensures
        same == (folded(text@) == word@),
{
    let n = text.unicode_len();
    if n != word.unicode_len() {
        return false;
    }
    let mut i: usize = 0;
    while i < n
        invariant
            i <= n,
            n == text@.len(),
            n == word@.len(),
            forall|j: int| 0 <= j < i ==> ascii_lower(text@[j]) == word@[j],
        decreases n - i,
    {
        if to_ascii_lower(text.get_char(i)) != word.get_char(i) {
            assert(folded(text@)[i as int] != word@[i as int]);
            return false;
        }
        i += 1;
    }
    assert(folded(text@) =~= word@);
    true
}

/// Whether a file with this extension is taken as an image.
pub fn accepts_extension(extension: &str) -> (accepted: bool)
    ensures
        accepted == accepted_extension(extension@),
{
    proof {
        reveal_strlit("png");
        reveal_strlit("jpg");
        reveal_strlit("jpeg");
        assert("png"@ =~= seq!['p', 'n', 'g']);
        assert("jpg"@ =~= seq!['j', 'p', 'g']);
        assert("jpeg"@ =~= seq!['j', 'p', 'e', 'g']);
    }
    is_word(extension, "png") || is_word(extension, "jpg") || is_word(extension, "jpeg")
}

/// Whether the path names an image: its extension is an accepted one.
pub fn is_image(path: &str) -> (image: bool)
    ensures
        image == image_path(path@),
{
    match extension_of(path) {
        Some(extension) => accepts_extension(extension.as_str()),
        None => false,
    }
}

/// What the root of a run names.
#[derive(Clone, Copy, Debug, PartialEq, Eq, Structural)]
pub enum RootKind {
    /// One file, which is taken whatever its extension.
    File,
    /// A directory, whose entries are filtered by extension.
    Directory,
    /// Anything else: a pattern, whose matches are filtered by extension.
    Pattern,
}

/// An entry that the walk of a directory or the expansion of a pattern
/// yields.
#[derive(Debug)]
pub struct Found {
    pub path: String,
    pub is_file: bool,
}

/// Where the outputs go.
#[derive(Debug)]
pub enum OutputPolicy {
    /// Each output replaces its input.
    InPlace,
    /// Below the given directory, at the place that the input has below the
    /// base path.
    Into(String),
    /// As `Into`, with the directory `fixed` of the base path.
    Default,
}

/// A configuration from which no plan can be made.
#[derive(Clone, Copy, Debug, PartialEq, Eq, Structural)]
pub enum PlanningError {
    /// Both in-place output and an output directory were asked for.
    ConflictingOutput,
    /// An input has no place below the base path and no file name either.
    NoLocation,
}

/// One input file and the file that its result is written to.
#[derive(Debug)]
pub struct Job {
    pub input_path: String,
    pub output_path: String,
}

/// A job as two texts.
pub struct JobView {
    pub input: Seq<char>,
    pub output: Seq<char>,
}

impl View for Job {
    type V = JobView;

    open spec fn view(&self) -> JobView {
        JobView { input: self.input_path@, output: self.output_path@ }
    }
}

/// The texts of a list of strings.
pub open spec fn texts(list: Seq<String>) -> Seq<Seq<char>> {
    list.map_values(|text: String| text@)
}

/// The jobs of a list as pairs of texts.
pub open spec fn job_views(jobs: Seq<Job>) -> Seq<JobView> {
    jobs.map_values(|job: Job| job@)
}

/// How deep a directory is walked: its direct entries only, or everything
/// below it.
pub fn walk_depth(recursive: bool) -> (depth: usize)
    ensures
        depth == if recursive {
            usize::MAX
        } else {
            1
        },
{
    if recursive {
        usize::MAX
    } else {
        1
    }
}

/// The output policy that the two options ask for. In-place output
/// together with an output directory is refused.
pub fn output_policy(in_place: bool, output: Option<String>) -> (policy: Result<
    OutputPolicy,
    PlanningError,
>)
    ensures
        match policy {
            Ok(OutputPolicy::InPlace) => in_place && output is None,
            Ok(OutputPolicy::Into(dir)) => !in_place && output == Some(dir),
            Ok(OutputPolicy::Default) => !in_place && output is None,
            Err(error) => in_place && output is Some && error == PlanningError::ConflictingOutput,
        },
{
    match output {
        Some(dir) => if in_place {
            Err(PlanningError::ConflictingOutput)
        } else {
            Ok(OutputPolicy::Into(dir))
        },
        None => if in_place {
            Ok(OutputPolicy::InPlace)
        } else {
            Ok(OutputPolicy::Default)
        },
    }
}

/// An entry becomes an input when it is a file with an accepted extension.
pub open spec fn wanted(entry: Found) -> bool {
    entry.is_file && image_path(entry.path@)
}

/// The paths of the wanted entries, in the order of the entries.
pub open spec fn images_among(found: Seq<Found>) -> Seq<Seq<char>>
    decreases found.len(),
{
    if found.len() == 0 {
        Seq::empty()
    } else if wanted(found.last()) {
        images_among(found.drop_last()).push(found.last().path@)
    } else {
        images_among(found.drop_last())
    }
}

/// The inputs of a run: the root itself where it is a file, else the wanted
/// entries among what was found.
pub open spec fn inputs_of(kind: RootKind, root: Seq<char>, found: Seq<Found>) -> Seq<Seq<char>> {
    if kind == RootKind::File {
        seq![root]
    } else {
        images_among(found)
    }
}

/// The base path, against which the place of an input is taken: the
/// directory itself, the directory of a single file, or the current
/// directory for a pattern.
pub open spec fn base_of(kind: RootKind, root: Seq<char>) -> Seq<char> {
    match kind {
        RootKind::Directory => root,
        RootKind::File => match path_parent(root) {
            Some(parent) => parent,
            None => seq!['.'],
        },
        RootKind::Pattern => seq!['.'],
    }
}

/// The place of an input below the base path, or just its file name where
/// it does not lie below the base path.
pub open spec fn relative_of(input: Seq<char>, base: Seq<char>) -> Option<Seq<char>> {
    match path_strip_prefix(input, base) {
        Some(rest) => Some(rest),
        None => path_file_name(input),
    }
}

/// The directory below which the outputs go, unless they go in place.
pub open spec fn output_root(base: Seq<char>, policy: OutputPolicy) -> Seq<char> {
    match policy {
        OutputPolicy::Into(dir) => dir@,
        _ => path_join(base, seq!['f', 'i', 'x', 'e', 'd']),
    }
}

/// The output path of an input: the input itself in place, else its place
/// below the output root. `None` where the input has no such place.
pub open spec fn output_of(input: Seq<char>, base: Seq<char>, policy: OutputPolicy) -> Option<
    Seq<char>,
> {
    if policy is InPlace {
        Some(input)
    } else {
        match relative_of(input, base) {
            Some(rest) => Some(path_join(output_root(base, policy), rest)),
            None => None,
        }
    }
}

/// The inputs of a run, in the order in which they were found.
pub fn select_inputs(kind: RootKind, root: &str, found: &Vec<Found>) -> (inputs: Vec<String>)
    ensures
        texts(inputs@) == inputs_of(kind, root@, found@),
{
    let mut inputs: Vec<String> = Vec::new();
    if kind == RootKind::File {
        inputs.push(root.to_owned());
        assert(texts(inputs@) =~= seq![root@]);
        return inputs;
    }
    let mut i: usize = 0;
    assert(found@.take(0) =~= Seq::empty());
    assert(texts(inputs@) =~= Seq::empty());
    while i < found.len()
        invariant
            i <= found.len(),
            texts(inputs@) == images_among(found@.take(i as int)),
        decreases found.len() - i,
    {
        proof {
            assert(found@.take(i + 1).drop_last() =~= found@.take(i as int));
        }
        let entry = &found[i];
        if entry.is_file && is_image(entry.path.as_str()) {
            let ghost before = inputs@;
            inputs.push(entry.path.clone());
            assert(texts(inputs@) =~= texts(before).push(entry.path@));
        }
        i += 1;
    }
    assert(found@.take(i as int) =~= found@);
    inputs
}

/// The base path of a run.
pub fn base_path(kind: RootKind, root: &str) -> (base: String)
    ensures
        base@ == base_of(kind, root@),
{
    proof {
        reveal_strlit(".");
        assert("."@ =~= seq!['.']);
    }
    match kind {
        RootKind::Directory => root.to_owned(),
        RootKind::File => match parent_of(root) {
            Some(parent) => parent,
            None => ".".to_owned(),
        },
        RootKind::Pattern => ".".to_owned(),
    }
}

/// The output path of one input.
pub fn output_path(input: &str, base: &str, policy: &OutputPolicy) -> (output: Option<String>)
    ensures
        match output {
            Some(path) => output_of(input@, base@, *policy) == Some(path@),
            None => output_of(input@, base@, *policy) is None,
        },
{
    proof {
        reveal_strlit("fixed");
        assert("fixed"@ =~= seq!['f', 'i', 'x', 'e', 'd']);
    }
    let root = match policy {
        OutputPolicy::InPlace => {
            return Some(input.to_owned());
        },
        OutputPolicy::Into(dir) => dir.clone(),
        OutputPolicy::Default => join(base, "fixed"),
    };
    let relative = match strip_prefix(input, base) {
        Some(rest) => Some(rest),
        None => file_name_of(input),
    };
    match relative {
        Some(rest) => Some(join(root.as_str(), rest.as_str())),
        None => None,
    }
}

/// The jobs for a list of inputs, in their order; `None` where one of the
/// inputs has no output path.
pub open spec fn jobs_for(inputs: Seq<Seq<char>>, base: Seq<char>, policy: OutputPolicy) -> Option<
    Seq<JobView>,
> {
    if forall|i: int| 0 <= i < inputs.len() ==> (#[trigger] output_of(inputs[i], base, policy)) is Some {
        Some(
            Seq::new(
                inputs.len(),
                |i: int|
                    JobView { input: inputs[i], output: output_of(inputs[i], base, policy)->Some_0 },
            ),
        )
    } else {
        None
    }
}

/// In place, every input is its own output, and every list of inputs has a
/// plan.
pub proof fn in_place_plan_keeps_paths(inputs: Seq<Seq<char>>, base: Seq<char>)
    ensures
        jobs_for(inputs, base, OutputPolicy::InPlace) == Some(
            Seq::new(inputs.len(), |i: int| JobView { input: inputs[i], output: inputs[i] }),
        ),
{
    let planned = jobs_for(inputs, base, OutputPolicy::InPlace);
    assert(planned is Some);
    assert(planned->Some_0 =~= Seq::new(
        inputs.len(),
        |i: int| JobView { input: inputs[i], output: inputs[i] },
    ));
}

/// Plans a run: one job for each input, in the order in which the inputs
/// were found, each with the output path that the policy gives it. No
/// input at all is an empty plan and no error.
pub fn plan(kind: RootKind, root: &str, found: &Vec<Found>, policy: &OutputPolicy) -> (planned:
    Result<Vec<Job>, PlanningError>)
    ensures
        match planned {
            Ok(jobs) => jobs_for(inputs_of(kind, root@, found@), base_of(kind, root@), *policy)
                == Some(job_views(jobs@)),
            Err(error) => error == PlanningError::NoLocation && jobs_for(
                inputs_of(kind, root@, found@),
                base_of(kind, root@),
                *policy,
            ) is None,
        },
{
    let inputs = select_inputs(kind, root, found);
    let base = base_path(kind, root);
    let ghost wanted_inputs = texts(inputs@);
    let mut jobs: Vec<Job> = Vec::new();
    let mut i: usize = 0;
    while i < inputs.len()
        invariant
            i <= inputs.len(),
            wanted_inputs == texts(inputs@),
            wanted_inputs == inputs_of(kind, root@, found@),
            base@ == base_of(kind, root@),
            jobs.len() == i,
            forall|j: int|
                0 <= j < i ==> output_of(wanted_inputs[j], base@, *policy) == Some(
                    (#[trigger] jobs[j]).output_path@,
                ) && jobs[j].input_path@ == wanted_inputs[j],
        decreases inputs.len() - i,
    {
        let input = &inputs[i];
        assert(wanted_inputs[i as int] == input@);
        match output_path(input.as_str(), base.as_str(), policy) {
            Some(output) => {
                jobs.push(Job { input_path: input.clone(), output_path: output });
            },
            None => {
                assert(output_of(wanted_inputs[i as int], base@, *policy) is None);
                return Err(PlanningError::NoLocation);
            },
        }
        i += 1;
    }
    assert forall|j: int| 0 <= j < wanted_inputs.len() implies (#[trigger] output_of(
        wanted_inputs[j],
        base@,
        *policy,
    )) is Some by {
        assert(jobs[j].input_path@ == wanted_inputs[j]);
    }
    assert(job_views(jobs@) =~= jobs_for(wanted_inputs, base@, *policy)->Some_0) by {
        assert forall|j: int| 0 <= j < jobs.len() implies job_views(jobs@)[j] == JobView {
            input: wanted_inputs[j],
            output: output_of(wanted_inputs[j], base@, *policy)->Some_0,
        } by {
            assert(jobs[j].input_path@ == wanted_inputs[j]);
        }
    }
    Ok(jobs)
}

} // verus!
