//! The commands of the command line, and the names of the files they read and write.
use crate::text::{char_position, find_char, lemma_char_position, lemma_char_position_unique};
use vstd::prelude::*;

verus! {

/// The command line: one command.
pub struct Arguments {
    pub command: Command,
}

/// What the command line asks for.
pub enum Command {
    Init,
    Run { schema: Option<String>, flavour: Option<String>, inputs: Vec<String> },
    Flavour(FlavourCommand),
    Language(LanguageCommand),
}

/// What to do with a flavour.
pub enum FlavourCommand {
    Create { name: String },
    Pull { name: String },
}

/// What to do with a language.
pub enum LanguageCommand {
    Create { name: String },
    Pull { name: String },
}

/// The part of `s` before its first `:`, or all of `s`.
pub open spec fn first_segment(s: Seq<char>) -> Seq<char> {
    match char_position(s, ':') {
        Some(i) => s.subrange(0, i),
        None => s,
    }
}

/// The part of `s` between its first and second `:` (or its end), if it has a `:`.
pub open spec fn second_segment(s: Seq<char>) -> Option<Seq<char>> {
    match char_position(s, ':') {
        Some(i) => Some(first_segment(s.subrange(i + 1, s.len() as int))),
        None => None,
    }
}

/// A reference written `<project>:<template>`, neither holding `:`, splits
/// back into that project and that template.
pub proof fn law_split_reference_roundtrip(project: Seq<char>, template: Seq<char>)
    requires
        !project.contains(':'),
        !template.contains(':'),
    ensures
        first_segment(project.push(':') + template) == project,
        second_segment(project.push(':') + template) == Some(template),
{
    let s = project.push(':') + template;
    assert forall|j: int| 0 <= j < project.len() implies s[j] != ':' by {
        assert(s[j] == project[j]);
        if project[j] == ':' {
            assert(project.contains(':'));
        }
    }
    assert(s[project.len() as int] == ':');
    lemma_char_position_unique(s, ':', project.len() as int);
    assert(s.subrange(0, project.len() as int) =~= project);
    let rest = s.subrange(project.len() + 1int, s.len() as int);
    assert(rest =~= template);
    law_split_without_colon(template);
}

/// A reference without `:` names only a project: all of it.
pub proof fn law_split_without_colon(s: Seq<char>)
    requires
        !s.contains(':'),
    ensures
        first_segment(s) == s,
        second_segment(s) is None,
{
    lemma_char_position(s, ':');
    if char_position(s, ':') is Some {
        assert(s.contains(':'));
    }
}

fn segment_before_colon(s: &str) -> (r: String)
    ensures
        r@ == first_segment(s@),
{
    proof {
        lemma_char_position(s@, ':');
    }
    match find_char(s, ':') {
        Some(i) => String::from_str(s.substring_char(0, i)),
        None => String::from_str(s),
    }
}

/// Splits a reference `<project>[:<template>[:...]]` at `:`: the project is
/// the first part, the template the second one, if there is one.
pub fn split_reference(reference: &str) -> (r: (String, Option<String>))
    ensures
        r.0@ == first_segment(reference@),
        match r.1 {
            Some(t) => second_segment(reference@) == Some(t@),
            None => second_segment(reference@) is None,
        },
{
    let project = segment_before_colon(reference);
    proof {
        lemma_char_position(reference@, ':');
    }
    let len = reference.unicode_len();
    match find_char(reference, ':') {
        Some(i) => {
            let rest = reference.substring_char(i + 1, len);
            (project, Some(segment_before_colon(rest)))
        },
        None => (project, None),
    }
}

/// The directory of a language of the workspace.
pub fn language_dir(name: &str) -> (r: String)
    ensures
        r@ == ".openapi/languages/"@ + name@,
{
    let mut r = String::from_str(".openapi/languages/");
    r.append(name);
    r
}

/// The configuration file of a language of the workspace.
pub fn language_config_path(name: &str) -> (r: String)
    ensures
        r@ == ".openapi/languages/"@ + name@ + "/config.yaml"@,
{
    let mut r = language_dir(name);
    r.append("/config.yaml");
    r
}

/// The configuration file of a flavour of the workspace.
pub fn flavour_config_path(flavour: &str) -> (r: String)
    ensures
        r@ == ".openapi/flavours/"@ + flavour@ + "/config.yaml"@,
{
    let mut r = String::from_str(".openapi/flavours/");
    r.append(flavour);
    r.append("/config.yaml");
    r
}

/// The template file of a template of a flavour: `<flavour>/<input>`.
pub fn template_input_path(flavour: &str, input: &str) -> (r: String)
    ensures
        r@ == flavour@ + "/"@ + input@,
{
    let mut r = String::from_str(flavour);
    r.append("/");
    r.append(input);
    r
}

/// The file a template is rendered into: `<dir>/<file name>`.
pub fn output_file_path(output_dir: &str, file_name: &str) -> (r: String)
    ensures
        r@ == output_dir@ + "/"@ + file_name@,
{
    template_input_path(output_dir, file_name)
}

/// The name under which the engine knows a template file: `<path>.tera`.
pub fn template_file_name(path: &str) -> (r: String)
    ensures
        r@ == path@ + ".tera"@,
{
    let mut r = String::from_str(path);
    r.append(".tera");
    r
}

/// The version of a flavour as shown to the user: `0.0.0` when it has none.
pub fn version_label(version: Option<String>) -> (r: String)
    ensures
        r@ == match version {
            Some(v) => v@,
            None => "0.0.0"@,
        },
{
    match version {
        Some(v) => v,
        None => String::from_str("0.0.0"),
    }
}

} // verus!
