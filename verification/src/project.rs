use vstd::prelude::*;
use regex::Regex;

verus! {

/// Why a project name is refused.
#[derive(Debug, Clone, Copy, PartialEq, Eq)]
pub enum InvalidProjectNameReason {
    /// The name starts with `aiken_`.
    AikenPrefix,
    /// The name is `aiken`.
    AikenReservedModule,
    /// The name is not an owner and a repository with a slash between them.
    Format,
}

/// A project name that was refused, and why.
#[derive(Debug, PartialEq, Eq)]
pub struct InvalidProjectName {
    pub name: String,
    pub reason: InvalidProjectNameReason,
}

/// The name of a package: who owns it, and the repository it lives in.
#[derive(Debug, PartialEq, Eq)]
pub struct PackageName {
    pub owner: String,
    pub repo: String,
}

/// The pattern that a project name has to match: an owner and a
/// repository, each made of lower-case letters, digits, underscores and
/// hyphens, with a slash between them.
pub open spec fn name_pattern() -> Seq<char> {
    "^[a-z0-9_-]+/[a-z0-9_-]+$"@
}

/// What searching a text for a regular expression gives: whether the
/// expression matches somewhere in the text, or nothing where the pattern is
/// no regular expression.
pub uninterp spec fn regex_outcome(pattern: Seq<char>, text: Seq<char>) -> Option<bool>;

/// Compiles a pattern with `Regex::new` and searches the text with
/// `Regex::is_match`. The outcome depends on the pattern and the text
/// alone; the contract gives it its name and claims nothing more.
#[verifier::external_body]
pub(crate) fn search(pattern: &str, text: &str) -> (r: Option<bool>)
    ensures
        r == regex_outcome(pattern@, text@),
{
    match Regex::new(pattern) {
        Ok(re) => Some(re.is_match(text)),
        Err(_) => None,
    }
}

/// What is to be said of a project name, given what the search for the
/// pattern of project names gave: the name must not start with `aiken_`,
/// must not be `aiken`, and must match the pattern.
pub open spec fn name_verdict(name: Seq<char>, format: Option<bool>) -> Result<
    (),
    InvalidProjectNameReason,
> {
    if "aiken_"@.is_prefix_of(name) {
        Err(InvalidProjectNameReason::AikenPrefix)
    } else if name == "aiken"@ {
        Err(InvalidProjectNameReason::AikenReservedModule)
    } else if format != Some(true) {
        Err(InvalidProjectNameReason::Format)
    } else {
        Ok(())
    }
}

/// Whether a text starts with the characters of another.
pub fn starts_with(text: &str, prefix: &str) -> (r: bool)
    ensures
        r == prefix@.is_prefix_of(text@),
{
    let n = prefix.unicode_len();
    if text.unicode_len() < n {
        return false;
    }
    let mut i: usize = 0;
    while i < n
        invariant
            i <= n,
            n == prefix@.len(),
            n <= text@.len(),
            forall|j: int| 0 <= j < i ==> text@[j] == prefix@[j],
        decreases n - i,
    {
        if text.get_char(i) != prefix.get_char(i) {
            return false;
        }
        i = i + 1;
    }
    assert(prefix@ =~= text@.subrange(0, prefix@.len() as int));
    true
}

/// Judges a project name, given what the search for the pattern of project
/// names gave.
pub fn judge_name(name: &str, format: Option<bool>) -> (r: Result<(), InvalidProjectName>)
    ensures
        match r {
            Ok(()) => name_verdict(name@, format) is Ok,
            Err(e) => name_verdict(name@, format) == Err::<(), InvalidProjectNameReason>(e.reason)
                && e.name@ == name@,
        },
{
    if starts_with(name, "aiken_") {
        Err(
            InvalidProjectName {
                name: String::from_str(name),
                reason: InvalidProjectNameReason::AikenPrefix,
            },
        )
    } else if String::from_str(name) == String::from_str("aiken") {
        Err(
            InvalidProjectName {
                name: String::from_str(name),
                reason: InvalidProjectNameReason::AikenReservedModule,
            },
        )
    } else {
        match format {
            Some(true) => Ok(()),
            _ => Err(
                InvalidProjectName {
                    name: String::from_str(name),
                    reason: InvalidProjectNameReason::Format,
                },
            ),
        }
    }
}

/// Checks a project name: it must not start with `aiken_`, must not be
/// `aiken`, and must match the pattern of project names.
pub fn validate_name(name: &str) -> (r: Result<(), InvalidProjectName>)
    ensures
        match r {
            Ok(()) => name_verdict(name@, regex_outcome(name_pattern(), name@)) is Ok,
            Err(e) => name_verdict(name@, regex_outcome(name_pattern(), name@)) == Err::<
                (),
                InvalidProjectNameReason,
            >(e.reason) && e.name@ == name@,
        },
{
    judge_name(name, search("^[a-z0-9_-]+/[a-z0-9_-]+$", name))
}

/// The position of the first slash at or behind a position.
pub open spec fn slash_from(text: Seq<char>, from: int) -> int
    decreases text.len() - from,
{
    if from < 0 || from >= text.len() {
        text.len() as int
    } else if text[from] == '/' {
        from
    } else {
        slash_from(text, from + 1)
    }
}

/// The owner and the repository of a project name: what stands in front of
/// the first slash, and what stands between the first slash and the second,
/// or the end. A name without a slash has no repository.
pub open spec fn package_parts(name: Seq<char>) -> Result<
    (Seq<char>, Seq<char>),
    InvalidProjectNameReason,
> {
    let first = slash_from(name, 0);
    if first >= name.len() {
        Err(InvalidProjectNameReason::Format)
    } else {
        let second = slash_from(name, first + 1);
        Ok((name.subrange(0, first), name.subrange(first + 1, second)))
    }
}

/// The position of the first slash at or behind a position.
fn find_slash(text: &str, from: usize) -> (r: usize)
    requires
        from <= text@.len(),
    ensures
        r == slash_from(text@, from as int),
        from <= r <= text@.len(),
{
    let len = text.unicode_len();
    let mut i: usize = from;
    while i < len
        invariant
            from <= i <= len,
            len == text@.len(),
            slash_from(text@, from as int) == slash_from(text@, i as int),
        decreases len - i,
    {
        if text.get_char(i) == '/' {
            return i;
        }
        i = i + 1;
    }
    len
}

/// Takes a project name apart into owner and repository.
pub fn package_name_from_str(name: &str) -> (r: Result<PackageName, InvalidProjectName>)
    ensures
        match r {
            Ok(package) => package_parts(name@) == Ok::<
                (Seq<char>, Seq<char>),
                InvalidProjectNameReason,
            >((package.owner@, package.repo@)),
            Err(e) => package_parts(name@) == Err::<
                (Seq<char>, Seq<char>),
                InvalidProjectNameReason,
            >(e.reason) && e.name@ == name@,
        },
{
    let len = name.unicode_len();
    let first = find_slash(name, 0);
    if first >= len {
        return Err(
            InvalidProjectName {
                name: String::from_str(name),
                reason: InvalidProjectNameReason::Format,
            },
        );
    }
    let second = find_slash(name, first + 1);
    Ok(
        PackageName {
            owner: String::from_str(name.substring_char(0, first)),
            repo: String::from_str(name.substring_char(first + 1, second)),
        },
    )
}

impl PackageName {
    /// The name as it is written: the owner, a slash, the repository.
    pub fn full_name(&self) -> (r: String)
        ensures
            r@ == self.owner@ + "/"@ + self.repo@,
    {
        crate::text::join3(self.owner.as_str(), "/", self.repo.as_str())
    }
}

/// What the command that creates a project is given.
#[derive(Debug, PartialEq, Eq)]
pub struct Args {
    /// The name of the project: an owner and a repository.
    pub name: String,
    /// Whether the project is a library only.
    pub lib: bool,
}

/// A project was asked for where something of its name already stands.
#[derive(Debug, PartialEq, Eq)]
pub struct ProjectExists {
    pub name: String,
}

/// One thing that is made when a project is created.
#[derive(Debug, Clone, Copy, PartialEq, Eq)]
pub enum Step {
    /// The folder `lib` with a folder of the repository's name in it.
    LibFolder,
    /// The folder `validators`.
    ValidatorsFolder,
    /// The file `aiken.toml`.
    AikenToml,
    /// The file `README.md`.
    Readme,
    /// The file `.gitignore`.
    GitIgnore,
}

/// What is made for a project, in order: a library gets no folder for
/// validators.
pub open spec fn project_steps(lib: bool) -> Seq<Step> {
    if lib {
        seq![Step::LibFolder, Step::AikenToml, Step::Readme, Step::GitIgnore]
    } else {
        seq![Step::LibFolder, Step::ValidatorsFolder, Step::AikenToml, Step::Readme, Step::GitIgnore]
    }
}

/// Decides what to make for a new project, given whether something already
/// stands where its root folder would go: nothing is made over what exists.
pub fn create_project(args: &Args, package_name: &PackageName, root_exists: bool) -> (r: Result<
    Vec<Step>,
    ProjectExists,
>)
    ensures
        match r {
            Ok(steps) => !root_exists && steps@ == project_steps(args.lib),
            Err(e) => root_exists && e.name@ == package_name.repo@,
        },
{
    if root_exists {
        return Err(ProjectExists { name: package_name.repo.clone() });
    }
    let mut steps: Vec<Step> = Vec::new();
    steps.push(Step::LibFolder);
    if !args.lib {
        steps.push(Step::ValidatorsFolder);
    }
    steps.push(Step::AikenToml);
    steps.push(Step::Readme);
    steps.push(Step::GitIgnore);
    assert(steps@ =~= project_steps(args.lib));
    Ok(steps)
}

} // verus!
