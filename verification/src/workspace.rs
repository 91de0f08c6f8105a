//! A workspace: the directory that holds a `.openapi` directory, its projects and their
//! templates, and the references to a project's template.
use crate::name_map::NameMap;
use crate::text::{char_position, find_char, lemma_char_position, lemma_char_position_unique};
use std::path::PathBuf;
use vstd::prelude::*;
use vstd::string::to_string_from_display_ensures;

verus! {

/// A path of the file system, carried through as it is.
#[verifier::external_type_specification]
#[verifier::external_body]
pub struct ExPathBuf(std::path::PathBuf);

/// An error of input or output, carried through as it is.
#[verifier::external_type_specification]
#[verifier::external_body]
pub struct ExIoError(std::io::Error);

/// An error of the YAML reader, carried through as it is.
#[verifier::external_type_specification]
#[verifier::external_body]
pub struct ExYamlError(serde_yml::Error);

/// A template of a project: the template file, and the file that its output
/// is written to.
pub struct Template {
    pub path: String,
    pub output: String,
}

/// A project of a workspace: its language, the schema it is generated from,
/// and its templates by name.
pub struct Project {
    pub language: String,
    pub schema_path: String,
    pub templates: NameMap<Template>,
}

/// The schema a project is generated from when its configuration names none.
pub fn schema_path_default() -> (r: String)
    ensures
        r@ == "openapi.yaml"@,
{
    String::from_str("openapi.yaml")
}

/// The configuration of a workspace: its projects by name.
pub struct Config {
    pub projects: NameMap<Project>,
}

/// What can go wrong when loading a workspace.
#[derive(Debug)]
pub enum WorkspaceError {
    IO(std::io::Error),
    InvalidConfig(serde_yml::Error),
    NoWorkspaceFound,
}

impl From<std::io::Error> for WorkspaceError {
    fn from(value: std::io::Error) -> (r: Self) {
        WorkspaceError::IO(value)
    }
}

impl vstd::std_specs::convert::FromSpecImpl<std::io::Error> for WorkspaceError {
    open spec fn obeys_from_spec() -> bool {
        true
    }

    open spec fn from_spec(value: std::io::Error) -> Self {
        WorkspaceError::IO(value)
    }
}

impl From<serde_yml::Error> for WorkspaceError {
    fn from(value: serde_yml::Error) -> (r: Self) {
        WorkspaceError::InvalidConfig(value)
    }
}

impl vstd::std_specs::convert::FromSpecImpl<serde_yml::Error> for WorkspaceError {
    open spec fn obeys_from_spec() -> bool {
        true
    }

    open spec fn from_spec(value: serde_yml::Error) -> Self {
        WorkspaceError::InvalidConfig(value)
    }
}

impl WorkspaceError {
    /// The message that tells the user what went wrong: the text of the input
    /// or output error or of the YAML error, or that no workspace was found.
    pub fn message(&self) -> (m: String)
        ensures
            self is NoWorkspaceFound ==> m@ == "No workspace found"@,
            self matches WorkspaceError::IO(e) ==> to_string_from_display_ensures::<std::io::Error>(
                &e,
                m,
            ),
            self matches WorkspaceError::InvalidConfig(e) ==> to_string_from_display_ensures::<
                serde_yml::Error,
            >(&e, m),
    {
        match self {
            WorkspaceError::IO(error) => error.to_string(),
            WorkspaceError::NoWorkspaceFound => String::from_str("No workspace found"),
            WorkspaceError::InvalidConfig(error) => error.to_string(),
        }
    }
}

/// A workspace, by the directory that holds its `.openapi` directory.
pub struct Workspace {
    pub path: PathBuf,
}

/// The index of the first directory, going up, whose flag says that it holds
/// a `.openapi` directory (a plain file of that name does not count).
pub open spec fn first_marked(candidates: Seq<(PathBuf, bool)>) -> Option<int>
    decreases candidates.len(),
{
    if candidates.len() == 0 {
        None
    } else if candidates[0].1 {
        Some(0)
    } else {
        match first_marked(candidates.drop_first()) {
            Some(i) => Some(i + 1),
            None => None,
        }
    }
}

/// The workspace is the nearest directory that holds a `.openapi` directory:
/// the one found holds it and none before it does; when none is found, none
/// holds it.
pub proof fn law_nearest_workspace(candidates: Seq<(PathBuf, bool)>)
    ensures
        first_marked(candidates) matches Some(i) ==> 0 <= i < candidates.len() && candidates[i].1
            && forall|j: int| 0 <= j < i ==> !(#[trigger] candidates[j]).1,
        first_marked(candidates) is None ==> forall|j: int|
            0 <= j < candidates.len() ==> !(#[trigger] candidates[j]).1,
    decreases candidates.len(),
{
    if candidates.len() > 0 {
        let rest = candidates.drop_first();
        law_nearest_workspace(rest);
        assert forall|j: int| 0 < j < candidates.len() implies #[trigger] candidates[j] == rest[j - 1] by {}
    }
}

impl Workspace {
    /// The workspace of a directory: given the directory and then each of its
    /// ancestors in turn, each with whether it holds a `.openapi` directory
    /// (a plain file named `.openapi` is no marker), the first one that does;
    /// none found is an error.
    pub fn load_recursive(candidates: Vec<(PathBuf, bool)>) -> (r: Result<Self, WorkspaceError>)
        ensures
            match first_marked(candidates@) {
                Some(i) => r matches Ok(w) && w.path == candidates@[i].0,
                None => r matches Err(WorkspaceError::NoWorkspaceFound),
            },
    {
        let ghost all = candidates@;
        assert(all.skip(0) =~= all);
        let mut i: usize = 0;
        while i < candidates.len()
            invariant
                candidates@ == all,
                i <= all.len(),
                first_marked(all) == match first_marked(all.skip(i as int)) {
                    Some(j) => Some(j + i),
                    None => None,
                },
            decreases all.len() - i,
        {
            assert(all.skip(i as int)[0] == all[i as int]);
            if candidates[i].1 {
                let mut candidates = candidates;
                let (path, _) = candidates.remove(i);
                return Ok(Workspace { path });
            }
            assert(all.skip(i as int).drop_first() =~= all.skip(i + 1));
            i = i + 1;
        }
        assert(all.skip(i as int) =~= Seq::<(PathBuf, bool)>::empty());
        Err(WorkspaceError::NoWorkspaceFound)
    }
}

/// A reference to the template of a project, written `<project>:<template>`.
pub struct Reference {
    pub project: String,
    pub template: String,
}

/// Why a reference could not be read.
#[derive(Clone, Copy, Debug, PartialEq, Eq)]
pub enum ReferenceError {
    MissingSeparator,
    EmptyProject,
    EmptyTemplate,
}

impl ReferenceError {
    /// The message that tells the user what is wrong.
    pub fn message(&self) -> (m: String)
        ensures
            m@ == match self {
                ReferenceError::MissingSeparator => "Expected pattern <project>:<template>"@,
                ReferenceError::EmptyProject => "Project name can not be empty"@,
                ReferenceError::EmptyTemplate => "Template name can not be empty"@,
            },
    {
        match self {
            ReferenceError::MissingSeparator => String::from_str(
                "Expected pattern <project>:<template>",
            ),
            ReferenceError::EmptyProject => String::from_str("Project name can not be empty"),
            ReferenceError::EmptyTemplate => String::from_str("Template name can not be empty"),
        }
    }
}

/// How a reference reads: split at its first `:` into a project and a
/// template, neither of them empty.
pub open spec fn read_reference(s: Seq<char>) -> Result<(Seq<char>, Seq<char>), ReferenceError> {
    match char_position(s, ':') {
        None => Err(ReferenceError::MissingSeparator),
        Some(i) => if i == 0 {
            Err(ReferenceError::EmptyProject)
        } else if i + 1 == s.len() {
            Err(ReferenceError::EmptyTemplate)
        } else {
            Ok((s.subrange(0, i), s.subrange(i + 1, s.len() as int)))
        },
    }
}

/// A reference reads back as the project and template it was written from:
/// `<project>:<template>` with a project that is not empty and holds no `:`,
/// and a template that is not empty.
pub proof fn law_reference_roundtrip(project: Seq<char>, template: Seq<char>)
    requires
        project.len() > 0,
        !project.contains(':'),
        template.len() > 0,
    ensures
        read_reference(project.push(':') + template) == Ok::<_, ReferenceError>((project, template)),
{
    let s = project.push(':') + template;
    assert forall|j: int| 0 <= j < project.len() implies s[j] != ':' by {
        assert(s[j] == project[j]);
        if project[j] == ':' {
            assert(project.contains(':'));
        }
    }
    assert(s[project.len() as int] == ':');
    lemma_char_position_unique(s, ':', project.len() as int);
    assert(s.subrange(0, project.len() as int) =~= project);
    assert(s.subrange(project.len() + 1int, s.len() as int) =~= template);
}

/// A reference without `:` is refused for want of the separator.
pub proof fn law_reference_needs_separator(s: Seq<char>)
    requires
        !s.contains(':'),
    ensures
        read_reference(s) == Err::<(Seq<char>, Seq<char>), _>(ReferenceError::MissingSeparator),
{
    lemma_char_position(s, ':');
    if char_position(s, ':') is Some {
        assert(s.contains(':'));
    }
}

impl Reference {
    /// Reads a reference `<project>:<template>`: the project is what comes
    /// before the first `:`, the template all that follows it.
    pub fn parse(input: &str) -> (r: Result<Reference, ReferenceError>)
        ensures
            match read_reference(input@) {
                Ok((p, t)) => r matches Ok(reference) && reference.project@ == p
                    && reference.template@ == t,
                Err(e) => r == Err::<Reference, ReferenceError>(e),
            },
    {
        let len = input.unicode_len();
        proof {
            lemma_char_position(input@, ':');
        }
        match find_char(input, ':') {
            None => Err(ReferenceError::MissingSeparator),
            Some(i) => {
                if i == 0 {
                    return Err(ReferenceError::EmptyProject);
                }
                if i + 1 == len {
                    return Err(ReferenceError::EmptyTemplate);
                }
                let project = String::from_str(input.substring_char(0, i));
                let template = String::from_str(input.substring_char(i + 1, len));
                Ok(Reference { project, template })
            },
        }
    }
}

} // verus!
