//! Mapping a path to the language tag used when its content is rendered in
//! a fenced code block: by extension first, then by well-known filenames,
//! with `text` as the fallback.

use vstd::prelude::*;
use crate::paths::{extension_of, filename_of, path_components, path_extension};
use crate::text::str_eq;

verus! {

/// Language for a filename without a recognized extension.
pub open spec fn fallback_language(f: Seq<char>) -> Seq<char> {
    if f == "Makefile"@ || f == "makefile"@ {
        "makefile"@
    } else if f == "Dockerfile"@ {
        "dockerfile"@
    } else if f == "Jenkinsfile"@ {
        "groovy"@
    } else {
        "text"@
    }
}

/// Language for a recognized extension, or the filename fallback.
pub open spec fn extension_language(e: Seq<char>, f: Seq<char>) -> Seq<char> {
    if e == "rs"@ {
        "rust"@
    } else if e == "py"@ || e == "pyw"@ {
        "python"@
    } else if e == "js"@ || e == "mjs"@ {
        "javascript"@
    } else if e == "ts"@ {
        "typescript"@
    } else if e == "tsx"@ || e == "jsx"@ {
        "jsx"@
    } else if e == "java"@ {
        "java"@
    } else if e == "kt"@ {
        "kotlin"@
    } else if e == "scala"@ {
        "scala"@
    } else if e == "clj"@ {
        "clojure"@
    } else if e == "c"@ {
        "c"@
    } else if e == "cpp"@ || e == "cc"@ || e == "cxx"@ {
        "cpp"@
    } else if e == "h"@ || e == "hpp"@ {
        "c"@
    } else if e == "cs"@ {
        "csharp"@
    } else if e == "fs"@ {
        "fsharp"@
    } else if e == "vb"@ {
        "vbnet"@
    } else if e == "php"@ {
        "php"@
    } else if e == "rb"@ {
        "ruby"@
    } else if e == "go"@ {
        "go"@
    } else if e == "swift"@ {
        "swift"@
    } else if e == "m"@ || e == "mm"@ {
        "objc"@
    } else if e == "dart"@ {
        "dart"@
    } else if e == "lua"@ {
        "lua"@
    } else if e == "pl"@ {
        "perl"@
    } else if e == "r"@ || e == "R"@ {
        "r"@
    } else if e == "html"@ || e == "htm"@ {
        "html"@
    } else if e == "css"@ {
        "css"@
    } else if e == "scss"@ {
        "scss"@
    } else if e == "sass"@ {
        "sass"@
    } else if e == "less"@ {
        "less"@
    } else if e == "vue"@ {
        "vue"@
    } else if e == "svelte"@ {
        "svelte"@
    } else if e == "json"@ || e == "jsonc"@ {
        "json"@
    } else if e == "yaml"@ || e == "yml"@ {
        "yaml"@
    } else if e == "toml"@ {
        "toml"@
    } else if e == "xml"@ {
        "xml"@
    } else if e == "sql"@ {
        "sql"@
    } else if e == "sh"@ || e == "bash"@ {
        "bash"@
    } else if e == "zsh"@ {
        "zsh"@
    } else if e == "fish"@ {
        "fish"@
    } else if e == "ps1"@ {
        "powershell"@
    } else if e == "bat"@ || e == "cmd"@ {
        "batch"@
    } else if e == "tf"@ {
        "hcl"@
    } else if e == "dockerfile"@ {
        "dockerfile"@
    } else if e == "md"@ || e == "markdown"@ {
        "markdown"@
    } else if e == "tex"@ {
        "latex"@
    } else if e == "cmake"@ {
        "cmake"@
    } else {
        fallback_language(f)
    }
}

/// The language tag for a path: decided by its extension when that is
/// recognized, else by its filename, else `text`.
pub open spec fn language_of(path: Seq<char>) -> Seq<char> {
    match extension_of(path) {
        Some(e) => extension_language(e, filename_of(path)),
        None => fallback_language(filename_of(path)),
    }
}

/// Language for a filename without a recognized extension.
fn language_for_filename(f: &str) -> (r: &'static str)
    ensures
        r@ == fallback_language(f@),
{
    if str_eq(f, "Makefile") || str_eq(f, "makefile") {
        "makefile"
    } else if str_eq(f, "Dockerfile") {
        "dockerfile"
    } else if str_eq(f, "Jenkinsfile") {
        "groovy"
    } else {
        "text"
    }
}

/// The language tag used to render the file at `path`, decided by its
/// extension when that is recognized, else by its filename, else `text`.
pub fn get_language_from_extension(path: &str) -> (r: &'static str)
    ensures
        r@ == language_of(path@),
{
    let comps = path_components(path);
    let filename: &str = if comps.len() > 0 {
        let name: &str = comps[comps.len() - 1];
        proof {
            assert(crate::paths::views_of(comps@)[comps@.len() - 1] == name@);
            assert(name@ == filename_of(path@));
        }
        name
    } else {
        proof {
            reveal_strlit("");
            assert(""@ =~= filename_of(path@));
        }
        ""
    };
    match path_extension(path) {
        Some(e) => {
            if str_eq(e, "rs") {
                "rust"
            } else if str_eq(e, "py") || str_eq(e, "pyw") {
                "python"
            } else if str_eq(e, "js") || str_eq(e, "mjs") {
                "javascript"
            } else if str_eq(e, "ts") {
                "typescript"
            } else if str_eq(e, "tsx") || str_eq(e, "jsx") {
                "jsx"
            } else if str_eq(e, "java") {
                "java"
            } else if str_eq(e, "kt") {
                "kotlin"
            } else if str_eq(e, "scala") {
                "scala"
            } else if str_eq(e, "clj") {
                "clojure"
            } else if str_eq(e, "c") {
                "c"
            } else if str_eq(e, "cpp") || str_eq(e, "cc") || str_eq(e, "cxx") {
                "cpp"
            } else if str_eq(e, "h") || str_eq(e, "hpp") {
                "c"
            } else if str_eq(e, "cs") {
                "csharp"
            } else if str_eq(e, "fs") {
                "fsharp"
            } else if str_eq(e, "vb") {
                "vbnet"
            } else if str_eq(e, "php") {
                "php"
            } else if str_eq(e, "rb") {
                "ruby"
            } else if str_eq(e, "go") {
                "go"
            } else if str_eq(e, "swift") {
                "swift"
            } else if str_eq(e, "m") || str_eq(e, "mm") {
                "objc"
            } else if str_eq(e, "dart") {
                "dart"
            } else if str_eq(e, "lua") {
                "lua"
            } else if str_eq(e, "pl") {
                "perl"
            } else if str_eq(e, "r") || str_eq(e, "R") {
                "r"
            } else if str_eq(e, "html") || str_eq(e, "htm") {
                "html"
            } else if str_eq(e, "css") {
                "css"
            } else if str_eq(e, "scss") {
                "scss"
            } else if str_eq(e, "sass") {
                "sass"
            } else if str_eq(e, "less") {
                "less"
            } else if str_eq(e, "vue") {
                "vue"
            } else if str_eq(e, "svelte") {
                "svelte"
            } else if str_eq(e, "json") || str_eq(e, "jsonc") {
                "json"
            } else if str_eq(e, "yaml") || str_eq(e, "yml") {
                "yaml"
            } else if str_eq(e, "toml") {
                "toml"
            } else if str_eq(e, "xml") {
                "xml"
            } else if str_eq(e, "sql") {
                "sql"
            } else if str_eq(e, "sh") || str_eq(e, "bash") {
                "bash"
            } else if str_eq(e, "zsh") {
                "zsh"
            } else if str_eq(e, "fish") {
                "fish"
            } else if str_eq(e, "ps1") {
                "powershell"
            } else if str_eq(e, "bat") || str_eq(e, "cmd") {
                "batch"
            } else if str_eq(e, "tf") {
                "hcl"
            } else if str_eq(e, "dockerfile") {
                "dockerfile"
            } else if str_eq(e, "md") || str_eq(e, "markdown") {
                "markdown"
            } else if str_eq(e, "tex") {
                "latex"
            } else if str_eq(e, "cmake") {
                "cmake"
            } else {
                language_for_filename(filename)
            }
        },
        None => language_for_filename(filename),
    }
}

} // verus!
