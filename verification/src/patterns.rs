//! Built-in default pattern lists: what a collection run excludes and
//! includes when the caller adds nothing.  User excludes are added to the
//! defaults; user includes replace them.

use vstd::prelude::*;

verus! {

broadcast use vstd::prelude::Seq::lemma_push_map_commute;

/// The built-in exclude patterns, as the specification sees them: version
/// control and cache directories, build output, compiled artifacts, media,
/// archives and logs.
pub open spec fn spec_default_exclude_patterns() -> Seq<Seq<char>> {
    seq![
        ".git/*"@,
        ".svn/*"@,
        ".hg/*"@,
        ".bzr/*"@,
        "node_modules/*"@,
        "*/node_modules*"@,
        "__pycache__/*"@,
        "target/*"@,
        "build/*"@,
        "dist/*"@,
        "out/*"@,
        "vendor/*"@,
        ".venv/*"@,
        "venv/*"@,
        ".tox/*"@,
        ".mypy_cache/*"@,
        ".pytest_cache/*"@,
        ".gradle/*"@,
        ".idea/*"@,
        ".vscode/*"@,
        "coverage/*"@,
        ".cache/*"@,
        "*.pyc"@,
        "*.pyo"@,
        "*.o"@,
        "*.obj"@,
        "*.so"@,
        "*.dylib"@,
        "*.dll"@,
        "*.exe"@,
        "*.a"@,
        "*.lib"@,
        "*.class"@,
        "*.jar"@,
        "*.war"@,
        "*.wasm"@,
        "*.bin"@,
        "*.jpg"@,
        "*.jpeg"@,
        "*.png"@,
        "*.gif"@,
        "*.bmp"@,
        "*.ico"@,
        "*.svg"@,
        "*.mp3"@,
        "*.mp4"@,
        "*.avi"@,
        "*.mov"@,
        "*.mkv"@,
        "*.wav"@,
        "*.flac"@,
        "*.pdf"@,
        "*.zip"@,
        "*.tar"@,
        "*.gz"@,
        "*.bz2"@,
        "*.xz"@,
        "*.7z"@,
        "*.rar"@,
        "*.log"@,
        "logs/*"@,
        ".DS_Store"@,
        "Thumbs.db"@,
        "*.tmp"@,
        "*.swp"@,
        "*.swo"@,
        "*.bak"@,
        "*.lock"@,
    ]
}

/// The built-in include patterns, as the specification sees them: common
/// source, web, configuration and documentation extensions, and well-known
/// build-file names.
pub open spec fn spec_default_include_patterns() -> Seq<Seq<char>> {
    seq![
        "*.rs"@,
        "*.py"@,
        "*.pyw"@,
        "*.js"@,
        "*.mjs"@,
        "*.ts"@,
        "*.tsx"@,
        "*.jsx"@,
        "*.java"@,
        "*.kt"@,
        "*.scala"@,
        "*.clj"@,
        "*.c"@,
        "*.cpp"@,
        "*.cc"@,
        "*.h"@,
        "*.hpp"@,
        "*.cs"@,
        "*.fs"@,
        "*.php"@,
        "*.rb"@,
        "*.go"@,
        "*.swift"@,
        "*.dart"@,
        "*.lua"@,
        "*.pl"@,
        "*.r"@,
        "*.html"@,
        "*.htm"@,
        "*.css"@,
        "*.scss"@,
        "*.sass"@,
        "*.less"@,
        "*.vue"@,
        "*.svelte"@,
        "*.json"@,
        "*.yaml"@,
        "*.yml"@,
        "*.toml"@,
        "*.xml"@,
        "*.ini"@,
        "*.cfg"@,
        "*.md"@,
        "*.markdown"@,
        "*.txt"@,
        "*.rst"@,
        "README*"@,
        "LICENSE*"@,
        "*.sh"@,
        "*.bash"@,
        "*.zsh"@,
        "*.sql"@,
        "Makefile"@,
        "makefile"@,
        "Cargo.toml"@,
        "package.json"@,
        "pom.xml"@,
        "build.gradle"@,
        "CMakeLists.txt"@,
        "setup.py"@,
        "pyproject.toml"@,
        "Gemfile"@,
        "go.mod"@,
        "Dockerfile*"@,
        "Jenkinsfile"@,
    ]
}

/// The built-in exclude pattern strings.
pub fn default_exclude_patterns() -> (r: Vec<&'static str>)
    ensures
        r@.map_values(|s: &str| s@) == spec_default_exclude_patterns(),
{
    let r: Vec<&'static str> = vec![
        ".git/*",
        ".svn/*",
        ".hg/*",
        ".bzr/*",
        "node_modules/*",
        "*/node_modules*",
        "__pycache__/*",
        "target/*",
        "build/*",
        "dist/*",
        "out/*",
        "vendor/*",
        ".venv/*",
        "venv/*",
        ".tox/*",
        ".mypy_cache/*",
        ".pytest_cache/*",
        ".gradle/*",
        ".idea/*",
        ".vscode/*",
        "coverage/*",
        ".cache/*",
        "*.pyc",
        "*.pyo",
        "*.o",
        "*.obj",
        "*.so",
        "*.dylib",
        "*.dll",
        "*.exe",
        "*.a",
        "*.lib",
        "*.class",
        "*.jar",
        "*.war",
        "*.wasm",
        "*.bin",
        "*.jpg",
        "*.jpeg",
        "*.png",
        "*.gif",
        "*.bmp",
        "*.ico",
        "*.svg",
        "*.mp3",
        "*.mp4",
        "*.avi",
        "*.mov",
        "*.mkv",
        "*.wav",
        "*.flac",
        "*.pdf",
        "*.zip",
        "*.tar",
        "*.gz",
        "*.bz2",
        "*.xz",
        "*.7z",
        "*.rar",
        "*.log",
        "logs/*",
        ".DS_Store",
        "Thumbs.db",
        "*.tmp",
        "*.swp",
        "*.swo",
        "*.bak",
        "*.lock",
    ];
    proof {
        assert(r@.map_values(|s: &str| s@) =~= spec_default_exclude_patterns());
    }
    r
}

/// The built-in include pattern strings.
pub fn default_include_patterns() -> (r: Vec<&'static str>)
    ensures
        r@.map_values(|s: &str| s@) == spec_default_include_patterns(),
{
    let r: Vec<&'static str> = vec![
        "*.rs",
        "*.py",
        "*.pyw",
        "*.js",
        "*.mjs",
        "*.ts",
        "*.tsx",
        "*.jsx",
        "*.java",
        "*.kt",
        "*.scala",
        "*.clj",
        "*.c",
        "*.cpp",
        "*.cc",
        "*.h",
        "*.hpp",
        "*.cs",
        "*.fs",
        "*.php",
        "*.rb",
        "*.go",
        "*.swift",
        "*.dart",
        "*.lua",
        "*.pl",
        "*.r",
        "*.html",
        "*.htm",
        "*.css",
        "*.scss",
        "*.sass",
        "*.less",
        "*.vue",
        "*.svelte",
        "*.json",
        "*.yaml",
        "*.yml",
        "*.toml",
        "*.xml",
        "*.ini",
        "*.cfg",
        "*.md",
        "*.markdown",
        "*.txt",
        "*.rst",
        "README*",
        "LICENSE*",
        "*.sh",
        "*.bash",
        "*.zsh",
        "*.sql",
        "Makefile",
        "makefile",
        "Cargo.toml",
        "package.json",
        "pom.xml",
        "build.gradle",
        "CMakeLists.txt",
        "setup.py",
        "pyproject.toml",
        "Gemfile",
        "go.mod",
        "Dockerfile*",
        "Jenkinsfile",
    ];
    proof {
        assert(r@.map_values(|s: &str| s@) =~= spec_default_include_patterns());
    }
    r
}

/// The exclude pattern list for one run: the built-in defaults followed by
/// the caller's additional patterns.
pub fn build_exclude_patterns(additional: &[String]) -> (r: Vec<String>)
    ensures
        r@.map_values(|s: String| s@) == spec_default_exclude_patterns() + additional@.map_values(
            |s: String| s@,
        ),
{
    let defaults = default_exclude_patterns();
    let mut r: Vec<String> = Vec::new();
    let dn = defaults.len();
    let mut i: usize = 0;
    while i < dn
        invariant
            0 <= i <= dn,
            dn == defaults@.len(),
            defaults@.map_values(|s: &str| s@) == spec_default_exclude_patterns(),
            r@.map_values(|s: String| s@) == spec_default_exclude_patterns().take(i as int),
        decreases dn - i,
    {
        r.push(defaults[i].to_owned());
        proof {
            assert(r@.map_values(|s: String| s@) =~= spec_default_exclude_patterns().take(i + 1));
        }
        i = i + 1;
    }
    proof {
        assert(spec_default_exclude_patterns().take(dn as int) =~= spec_default_exclude_patterns());
    }
    let an = additional.len();
    let mut j: usize = 0;
    while j < an
        invariant
            0 <= j <= an,
            an == additional@.len(),
            r@.map_values(|s: String| s@) == spec_default_exclude_patterns()
                + additional@.map_values(|s: String| s@).take(j as int),
        decreases an - j,
    {
        let a: &String = vstd::slice::slice_index_get(additional, j);
        r.push(a.clone());
        proof {
            assert(r@.map_values(|s: String| s@) =~= spec_default_exclude_patterns()
                + additional@.map_values(|s: String| s@).take(j + 1));
        }
        j = j + 1;
    }
    proof {
        assert(spec_default_exclude_patterns() + additional@.map_values(|s: String| s@).take(
            an as int,
        ) =~= spec_default_exclude_patterns() + additional@.map_values(|s: String| s@));
    }
    r
}

/// The include pattern list for one run: the caller's patterns when any are
/// given, else the built-in defaults.  An empty include list never means
/// "match nothing".
pub fn build_include_patterns(additional: &[String]) -> (r: Vec<String>)
    ensures
        r@.map_values(|s: String| s@) == if additional@.len() == 0 {
            spec_default_include_patterns()
        } else {
            additional@.map_values(|s: String| s@)
        },
{
    if additional.len() == 0 {
        let defaults = default_include_patterns();
        let mut r: Vec<String> = Vec::new();
        let dn = defaults.len();
        let mut i: usize = 0;
        while i < dn
            invariant
                0 <= i <= dn,
                dn == defaults@.len(),
                defaults@.map_values(|s: &str| s@) == spec_default_include_patterns(),
                r@.map_values(|s: String| s@) == spec_default_include_patterns().take(i as int),
            decreases dn - i,
        {
            r.push(defaults[i].to_owned());
            proof {
                assert(r@.map_values(|s: String| s@) =~= spec_default_include_patterns().take(
                    i + 1,
                ));
            }
            i = i + 1;
        }
        proof {
            assert(spec_default_include_patterns().take(dn as int)
                =~= spec_default_include_patterns());
        }
        r
    } else {
        let mut r: Vec<String> = Vec::new();
        let an = additional.len();
        let mut j: usize = 0;
        proof {
            assert(r@.map_values(|s: String| s@) =~= additional@.map_values(|s: String| s@).take(
                0,
            ));
        }
        while j < an
            invariant
                0 <= j <= an,
                an == additional@.len(),
                r@.map_values(|s: String| s@) == additional@.map_values(|s: String| s@).take(
                    j as int,
                ),
            decreases an - j,
        {
            let a: &String = vstd::slice::slice_index_get(additional, j);
            r.push(a.clone());
            proof {
                assert(r@.map_values(|s: String| s@) =~= additional@.map_values(
                    |s: String| s@,
                ).take(j + 1));
            }
            j = j + 1;
        }
        proof {
            assert(additional@.map_values(|s: String| s@).take(an as int) =~= additional@.map_values(
                |s: String| s@,
            ));
        }
        r
    }
}

} // verus!
