//! Mapping a file name to the language its contents are in.

use vstd::prelude::*;
use crate::chars::{
    ends_with, has_prefix, has_suffix, last_index_before, last_index_of, starts_with, text_eq,
};

verus! {

/// The languages that the editor tells apart.
#[derive(Debug, Clone, Copy, PartialEq, Eq, Hash, Structural)]
pub enum FileType {
    Plain,
    Python,
    Rust,
    JavaScript,
    TypeScript,
    HTML,
    CSS,
    Dockerfile,
    YAML,
}

/// What `str::to_lowercase` makes of a string.
pub uninterp spec fn lower_of(s: Seq<char>) -> Seq<char>;

/// Relies on `str::to_lowercase`: the Unicode lowercase form, which depends
/// on the characters alone.
#[verifier::external_body]
fn lowercase(s: &str) -> (r: String)
    ensures
        r@ == lower_of(s@),
{
    s.to_lowercase()
}

/// Configuration files that are YAML whatever they are called, by their
/// lowercase name.
pub open spec fn is_yaml_config_name(lowered: Seq<char>) -> bool {
    lowered == ".travis.yml"@ || lowered == ".github/workflows"@ || lowered == "docker-compose.yml"@
        || lowered == "docker-compose.yaml"@ || lowered == ".gitlab-ci.yml"@ || lowered == "appveyor.yml"@
        || lowered == "circle.yml"@ || lowered == "wercker.yml"@ || lowered == "ansible.yml"@
        || lowered == "playbook.yml"@ || lowered == "site.yml"@
}

/// Files under the workflow configuration directory with a YAML suffix.
pub open spec fn is_workflow_yaml(name: Seq<char>) -> bool {
    has_prefix(name, ".github/"@) && (has_suffix(name, ".yml"@) || has_suffix(name, ".yaml"@))
}

/// The extension of a file name: what follows the last `.` of the last
/// `/`-separated component, where that `.` is not the component's first
/// character.
pub open spec fn extension_of(name: Seq<char>) -> Option<Seq<char>> {
    let start = match last_index_before(name, '/', name.len() as int) {
        Some(i) => i + 1,
        None => 0,
    };
    let component = name.subrange(start, name.len() as int);
    match last_index_before(component, '.', component.len() as int) {
        Some(d) => if d > 0 {
            Some(component.subrange(d + 1, component.len() as int))
        } else {
            None
        },
        None => None,
    }
}

/// The language of a (lowercase) extension.
pub open spec fn extension_type(ext: Seq<char>) -> FileType {
    if ext == "py"@ {
        FileType::Python
    } else if ext == "rs"@ {
        FileType::Rust
    } else if ext == "js"@ {
        FileType::JavaScript
    } else if ext == "ts"@ || ext == "tsx"@ {
        FileType::TypeScript
    } else if ext == "html"@ || ext == "htm"@ {
        FileType::HTML
    } else if ext == "css"@ {
        FileType::CSS
    } else if ext == "yaml"@ || ext == "yml"@ {
        FileType::YAML
    } else {
        FileType::Plain
    }
}

/// The language of the file `name`, whose lowercase form is `lowered`: the
/// well-known names first, then the workflow directory, then the extension
/// (compared without regard to case).
pub open spec fn file_type_for(name: Seq<char>, lowered: Seq<char>) -> FileType {
    if name == "Dockerfile"@ {
        FileType::Dockerfile
    } else if is_yaml_config_name(lowered) {
        FileType::YAML
    } else if is_workflow_yaml(name) {
        FileType::YAML
    } else {
        match extension_of(lowered) {
            Some(ext) => extension_type(ext),
            None => FileType::Plain,
        }
    }
}

fn yaml_config_name(lowered: &str) -> (r: bool)
    ensures
        r == is_yaml_config_name(lowered@),
{
    text_eq(lowered, ".travis.yml") || text_eq(lowered, ".github/workflows")
        || text_eq(lowered, "docker-compose.yml") || text_eq(lowered, "docker-compose.yaml")
        || text_eq(lowered, ".gitlab-ci.yml") || text_eq(lowered, "appveyor.yml")
        || text_eq(lowered, "circle.yml") || text_eq(lowered, "wercker.yml")
        || text_eq(lowered, "ansible.yml") || text_eq(lowered, "playbook.yml")
        || text_eq(lowered, "site.yml")
}

/// The extension of `name`, as `extension_of` gives it.
pub fn extension(name: &str) -> (r: Option<&str>)
    ensures
        r matches Some(e) ==> extension_of(name@) == Some(e@),
        r is None ==> extension_of(name@) is None,
{
    let n = name.unicode_len();
    let start: usize = match last_index_of(name, '/') {
        Some(i) => i + 1,
        None => 0,
    };
    let component = name.substring_char(start, n);
    match last_index_of(component, '.') {
        Some(d) => if d > 0 {
            Some(component.substring_char(d + 1, component.unicode_len()))
        } else {
            None
        },
        None => None,
    }
}

/// The language of a lowercase extension.
pub fn type_for_extension(ext: &str) -> (r: FileType)
    ensures
        r == extension_type(ext@),
{
    if text_eq(ext, "py") {
        FileType::Python
    } else if text_eq(ext, "rs") {
        FileType::Rust
    } else if text_eq(ext, "js") {
        FileType::JavaScript
    } else if text_eq(ext, "ts") || text_eq(ext, "tsx") {
        FileType::TypeScript
    } else if text_eq(ext, "html") || text_eq(ext, "htm") {
        FileType::HTML
    } else if text_eq(ext, "css") {
        FileType::CSS
    } else if text_eq(ext, "yaml") || text_eq(ext, "yml") {
        FileType::YAML
    } else {
        FileType::Plain
    }
}

/// The language of the file `name`, given its lowercase form `lowered`.
pub fn file_type_of_names(name: &str, lowered: &str) -> (r: FileType)
    ensures
        r == file_type_for(name@, lowered@),
{
    if text_eq(name, "Dockerfile") {
        FileType::Dockerfile
    } else if yaml_config_name(lowered) {
        FileType::YAML
    } else if starts_with(name, ".github/") && (ends_with(name, ".yml") || ends_with(name, ".yaml")) {
        FileType::YAML
    } else {
        match extension(lowered) {
            Some(ext) => type_for_extension(ext),
            None => FileType::Plain,
        }
    }
}

/// The language of the file `name`.
pub fn file_type_of(name: &str) -> (r: FileType)
    ensures
        r == file_type_for(name@, lower_of(name@)),
{
    let lowered = lowercase(name);
    file_type_of_names(name, lowered.as_str())
}

} // verus!
