//! Path rules: extensions, language detection, and which paths the watcher ignores.
use vstd::prelude::*;
use vstd::string::*;
use crate::model::{GraphNode, Language, NodeId, NodeKind};
use crate::text::str_eq;

verus! {

/// Index of the last occurrence of `c` in `s`, or -1.
pub open spec fn last_index_of(s: Seq<char>, c: char) -> int
    decreases s.len(),
{
    if s.len() == 0 {
        -1
    } else if s.last() == c {
        s.len() - 1
    } else {
        last_index_of(s.drop_last(), c)
    }
}

/// The last component of a path: the text after its last '/'.
pub open spec fn file_name_of(path: Seq<char>) -> Seq<char> {
    path.subrange(last_index_of(path, '/') + 1, path.len() as int)
}

/// The extension of a path: the text after the last '.' of its file name, when
/// that dot is not the file name's first character (and the name is not "..").
pub open spec fn extension_of(path: Seq<char>) -> Option<Seq<char>> {
    let f = file_name_of(path);
    let d = last_index_of(f, '.');
    if d <= 0 || f == ".."@ {
        None
    } else {
        Some(f.subrange(d + 1, f.len() as int))
    }
}

/// Language of a path, from its extension or, for Dockerfiles, its name.
pub open spec fn language_of(path: Seq<char>) -> Language {
    let by_name = {
        let f = file_name_of(path);
        if f == "Dockerfile"@ || (f.len() >= 11 && f.subrange(0, 11) == "Dockerfile."@) {
            Language::Dockerfile
        } else {
            Language::Other
        }
    };
    match extension_of(path) {
        Some(e) => if e == "rs"@ {
            Language::Rust
        } else if e == "ts"@ || e == "tsx"@ {
            Language::TypeScript
        } else if e == "js"@ || e == "jsx"@ || e == "mjs"@ || e == "cjs"@ {
            Language::JavaScript
        } else if e == "py"@ || e == "pyi"@ {
            Language::Python
        } else if e == "go"@ {
            Language::Go
        } else if e == "java"@ {
            Language::Java
        } else if e == "c"@ || e == "h"@ {
            Language::C
        } else if e == "cpp"@ || e == "cc"@ || e == "cxx"@ || e == "hpp"@ || e == "hh"@ {
            Language::Cpp
        } else if e == "yml"@ || e == "yaml"@ {
            Language::Yaml
        } else if e == "toml"@ {
            Language::Toml
        } else if e == "json"@ || e == "jsonc"@ {
            Language::Json
        } else if e == "sql"@ {
            Language::Sql
        } else if e == "md"@ || e == "mdx"@ {
            Language::Markdown
        } else if e == "proto"@ {
            Language::Protobuf
        } else if e == "graphql"@ || e == "gql"@ {
            Language::GraphQL
        } else {
            by_name
        },
        None => by_name,
    }
}

/// Extensions of the source files that produce graph changes.
pub open spec fn is_code_extension(e: Seq<char>) -> bool {
    e == "rs"@ || e == "ts"@ || e == "tsx"@ || e == "js"@ || e == "jsx"@ || e == "mjs"@ || e
        == "cjs"@ || e == "py"@ || e == "go"@ || e == "java"@ || e == "c"@ || e == "h"@ || e
        == "cpp"@ || e == "cc"@ || e == "cxx"@ || e == "hpp"@ || e == "hh"@
}

/// Whether a path names a source file that produces graph changes.
pub open spec fn code_file(path: Seq<char>) -> bool {
    match extension_of(path) {
        Some(e) => is_code_extension(e),
        None => false,
    }
}

/// Directory names whose contents are never watched.
pub open spec fn is_excluded_dir(c: Seq<char>) -> bool {
    c == "target"@ || c == ".git"@ || c == "node_modules"@ || c == ".canopy"@
}

/// `path[a..b]` is a whole component of the path: it is bounded by '/' or the ends.
pub open spec fn is_component(path: Seq<char>, a: int, b: int) -> bool {
    &&& 0 <= a <= b <= path.len()
    &&& (a == 0 || path[a - 1] == '/')
    &&& (b == path.len() || path[b] == '/')
    &&& forall|k: int| a <= k < b ==> path[k] != '/'
}

/// Whether some component of the path is an excluded directory name.
pub open spec fn ignored_path(path: Seq<char>) -> bool {
    exists|a: int, b: int| is_component(path, a, b) && is_excluded_dir(#[trigger] path.subrange(a, b))
}

/// Index of the last `c` in `s`, or -1.
fn find_last(s: &str, c: char) -> (r: i64)
    requires
        s@.len() < i64::MAX,
    ensures
        r == last_index_of(s@, c),
{
    let n = s.unicode_len();
    let mut i: usize = n;
    assert(s@.subrange(0, n as int) =~= s@);
    while i > 0
        invariant
            i <= n,
            n == s@.len(),
            n < i64::MAX,
            last_index_of(s@, c) == last_index_of(s@.subrange(0, i as int), c),
        decreases i,
    {
        let ghost sub = s@.subrange(0, i as int);
        assert(sub.drop_last() =~= s@.subrange(0, i - 1));
        if s.get_char(i - 1) == c {
            return (i - 1) as i64;
        }
        i = i - 1;
    }
    -1
}

/// The file name of a path (see `file_name_of`).
pub fn file_name(path: &str) -> (r: &str)
    requires
        path@.len() < i64::MAX,
    ensures
        r@ == file_name_of(path@),
{
    let s = find_last(path, '/');
    proof {
        lemma_last_index_bounds(path@, '/');
    }
    path.substring_char((s + 1) as usize, path.unicode_len())
}

/// -1 <= last_index_of(s, c) < s.len(), and a non-negative result points at `c`.
pub proof fn lemma_last_index_bounds(s: Seq<char>, c: char)
    ensures
        -1 <= last_index_of(s, c) < s.len(),
        last_index_of(s, c) >= 0 ==> s[last_index_of(s, c)] == c,
    decreases s.len(),
{
    if s.len() > 0 && s.last() != c {
        lemma_last_index_bounds(s.drop_last(), c);
    }
}

/// The extension of a path (see `extension_of`).
pub fn extension(path: &str) -> (r: Option<&str>)
    requires
        path@.len() < i64::MAX,
    ensures
        r is Some == extension_of(path@) is Some,
        r is Some ==> r.unwrap()@ == extension_of(path@).unwrap(),
{
    proof {
        lemma_last_index_bounds(path@, '/');
    }
    let f = file_name(path);
    let d = find_last(f, '.');
    proof {
        lemma_last_index_bounds(f@, '.');
    }
    if d <= 0 || str_eq(f, "..") {
        None
    } else {
        Some(f.substring_char((d + 1) as usize, f.unicode_len()))
    }
}

impl Language {
    /// Detects the language of a path from its extension (or a Dockerfile's name).
    pub fn from_path(path: &str) -> (r: Language)
        requires
            path@.len() < i64::MAX,
        ensures
            r == language_of(path@),
    {
        let f = file_name(path);
        let by_name = if str_eq(f, "Dockerfile") {
            Language::Dockerfile
        } else if f.unicode_len() >= 11 && str_eq(f.substring_char(0, 11), "Dockerfile.") {
            Language::Dockerfile
        } else {
            Language::Other
        };
        match extension(path) {
            Some(e) => {
                if str_eq(e, "rs") {
                    Language::Rust
                } else if str_eq(e, "ts") || str_eq(e, "tsx") {
                    Language::TypeScript
                } else if str_eq(e, "js") || str_eq(e, "jsx") || str_eq(e, "mjs") || str_eq(e, "cjs") {
                    Language::JavaScript
                } else if str_eq(e, "py") || str_eq(e, "pyi") {
                    Language::Python
                } else if str_eq(e, "go") {
                    Language::Go
                } else if str_eq(e, "java") {
                    Language::Java
                } else if str_eq(e, "c") || str_eq(e, "h") {
                    Language::C
                } else if str_eq(e, "cpp") || str_eq(e, "cc") || str_eq(e, "cxx") || str_eq(e, "hpp")
                    || str_eq(e, "hh") {
                    Language::Cpp
                } else if str_eq(e, "yml") || str_eq(e, "yaml") {
                    Language::Yaml
                } else if str_eq(e, "toml") {
                    Language::Toml
                } else if str_eq(e, "json") || str_eq(e, "jsonc") {
                    Language::Json
                } else if str_eq(e, "sql") {
                    Language::Sql
                } else if str_eq(e, "md") || str_eq(e, "mdx") {
                    Language::Markdown
                } else if str_eq(e, "proto") {
                    Language::Protobuf
                } else if str_eq(e, "graphql") || str_eq(e, "gql") {
                    Language::GraphQL
                } else {
                    by_name
                }
            },
            None => by_name,
        }
    }
}

/// Whether a path names a source file that produces graph changes.
pub fn is_code_file(path: &str) -> (r: bool)
    requires
        path@.len() < i64::MAX,
    ensures
        r == code_file(path@),
{
    match extension(path) {
        Some(e) => str_eq(e, "rs") || str_eq(e, "ts") || str_eq(e, "tsx") || str_eq(e, "js")
            || str_eq(e, "jsx") || str_eq(e, "mjs") || str_eq(e, "cjs") || str_eq(e, "py")
            || str_eq(e, "go") || str_eq(e, "java") || str_eq(e, "c") || str_eq(e, "h")
            || str_eq(e, "cpp") || str_eq(e, "cc") || str_eq(e, "cxx") || str_eq(e, "hpp")
            || str_eq(e, "hh"),
        None => false,
    }
}

fn excluded_dir(c: &str) -> (r: bool)
    ensures
        r == is_excluded_dir(c@),
{
    str_eq(c, "target") || str_eq(c, ".git") || str_eq(c, "node_modules") || str_eq(c, ".canopy")
}

/// Whether some component of the path is an excluded directory
/// (`target`, `.git`, `node_modules`, `.canopy`).
pub fn should_ignore_path(path: &str) -> (r: bool)
    requires
        path@.len() < i64::MAX,
    ensures
        r == ignored_path(path@),
{
    let n = path.unicode_len();
    let mut start: usize = 0;
    let mut i: usize = 0;
    while i < n
        invariant
            n == path@.len(),
            n < i64::MAX,
            start <= i <= n,
            start == 0 || path@[start - 1] == '/',
            forall|k: int| start <= k < i ==> path@[k] != '/',
            forall|a: int, b: int|
                is_component(path@, a, b) && b < start ==> !is_excluded_dir(
                    #[trigger] path@.subrange(a, b),
                ),
        decreases n - i,
    {
        if path.get_char(i) == '/' {
            let c = path.substring_char(start, i);
            if excluded_dir(c) {
                assert(is_component(path@, start as int, i as int));
                return true;
            }
            proof {
                assert forall|a: int, b: int|
                    is_component(path@, a, b) && b < i + 1 implies !is_excluded_dir(
                    #[trigger] path@.subrange(a, b),
                ) by {
                    if b == i {
                        if a < start {
                            assert(path@[start - 1] == '/');
                        } else if a > start {
                            assert(path@[a - 1] != '/');
                        }
                    }
                }
            }
            start = i + 1;
        }
        i = i + 1;
    }
    let c = path.substring_char(start, n);
    if excluded_dir(c) {
        assert(is_component(path@, start as int, n as int));
        return true;
    }
    assert forall|a: int, b: int| is_component(path@, a, b) implies !is_excluded_dir(
        #[trigger] path@.subrange(a, b),
    ) by {
        if b >= start {
            if b < n {
                assert(path@[b] != '/');
            }
            if a < start {
                assert(path@[start - 1] == '/');
            } else if a > start {
                assert(path@[a - 1] != '/');
            }
        }
    }
    false
}

/// The parser configuration a file is parsed with.
#[derive(Clone, Copy, Debug, PartialEq, Eq, Structural)]
pub enum FileType {
    Rust,
    TypeScript,
    JavaScript,
    Python,
    Go,
    Java,
    C,
    Cpp,
    Generic,
}

/// The file type of a path: none without an extension, the generic one for an
/// unknown extension.
pub open spec fn file_type_of(path: Seq<char>) -> Option<FileType> {
    match extension_of(path) {
        None => None,
        Some(e) => Some(
            if e == "rs"@ {
                FileType::Rust
            } else if e == "ts"@ || e == "tsx"@ {
                FileType::TypeScript
            } else if e == "js"@ || e == "jsx"@ {
                FileType::JavaScript
            } else if e == "py"@ {
                FileType::Python
            } else if e == "go"@ {
                FileType::Go
            } else if e == "java"@ {
                FileType::Java
            } else if e == "c"@ {
                FileType::C
            } else if e == "cpp"@ || e == "cc"@ || e == "cxx"@ || e == "h"@ || e == "hpp"@ {
                FileType::Cpp
            } else {
                FileType::Generic
            },
        ),
    }
}

impl FileType {
    /// The file type of a path (see `file_type_of`).
    pub fn from_path(path: &str) -> (r: Option<FileType>)
        requires
            path@.len() < i64::MAX,
        ensures
            r == file_type_of(path@),
    {
        match extension(path) {
            None => None,
            Some(e) => Some(
                if str_eq(e, "rs") {
                    FileType::Rust
                } else if str_eq(e, "ts") || str_eq(e, "tsx") {
                    FileType::TypeScript
                } else if str_eq(e, "js") || str_eq(e, "jsx") {
                    FileType::JavaScript
                } else if str_eq(e, "py") {
                    FileType::Python
                } else if str_eq(e, "go") {
                    FileType::Go
                } else if str_eq(e, "java") {
                    FileType::Java
                } else if str_eq(e, "c") {
                    FileType::C
                } else if str_eq(e, "cpp") || str_eq(e, "cc") || str_eq(e, "cxx") || str_eq(e, "h")
                    || str_eq(e, "hpp") {
                    FileType::Cpp
                } else {
                    FileType::Generic
                },
            ),
        }
    }
}

/// The qualified name of a definition: `{path}::{name}` at top level,
/// `{path}::{container}::{name}` inside a container.
pub open spec fn qualified_name_of(path: Seq<char>, container: Option<Seq<char>>, name: Seq<char>) -> Seq<char> {
    match container {
        None => path + "::"@ + name,
        Some(c) => path + "::"@ + c + "::"@ + name,
    }
}

/// The node for a definition found by an extractor: placeholder id 0, its
/// qualified name, its 1-based line span, and `loc = line_end - line_start`.
pub fn symbol_node(
    path: &str,
    kind: NodeKind,
    name: &str,
    container: Option<&str>,
    line_start: u32,
    line_end: u32,
    language: Language,
    is_container: bool,
) -> (r: GraphNode)
    requires
        line_start <= line_end,
    ensures
        r.id == NodeId(0),
        r.kind == kind,
        r.name@ == name@,
        r.qualified_name@ == qualified_name_of(path@, match container { Some(c) => Some(c@), None => None }, name@),
        r.file_path@ == path@,
        r.line_start == Some(line_start),
        r.line_end == Some(line_end),
        r.language == Some(language),
        r.is_container == is_container,
        r.child_count == 0,
        r.loc == Some((line_end - line_start) as u32),
        r.metadata@.len() == 0,
{
    let mut q = path.to_owned();
    q.append("::");
    match container {
        Some(c) => {
            q.append(c);
            q.append("::");
        },
        None => {},
    }
    q.append(name);
    proof {
        match container {
            Some(c) => assert(q@ =~= path@ + "::"@ + c@ + "::"@ + name@),
            None => assert(q@ =~= path@ + "::"@ + name@),
        }
    }
    GraphNode {
        id: NodeId(0),
        kind,
        name: name.to_owned(),
        qualified_name: q,
        file_path: path.to_owned(),
        line_start: Some(line_start),
        line_end: Some(line_end),
        language: Some(language),
        is_container,
        child_count: 0,
        loc: Some(line_end - line_start),
        metadata: Vec::new(),
    }
}

} // verus!
