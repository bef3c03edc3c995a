//! The package-file naming rule and the pattern classification the
//! bundler uses: hidden files and folders are ignored by default, but a
//! pattern that names one explicitly is honored.

use vstd::prelude::*;

use crate::store::PkgInfo;

verus! {

/// The file name a packaged addon is written under: its name and version
/// joined by an underscore, with the package extension.
pub fn get_tpkg_file_name(pkg_info: &PkgInfo) -> (r: String)
    ensures
        r@ == pkg_info.manifest.name@ + "_"@ + pkg_info.manifest.version@ + ".tpkg"@,
{
    let s = pkg_info.manifest.name.clone();
    let s = s.concat("_");
    let s = s.concat(pkg_info.manifest.version.as_str());
    let s = s.concat(".tpkg");
    s
}

/// A pattern names a hidden file or folder: it starts with a dot, or a
/// path component of it does.
pub open spec fn names_hidden(s: Seq<char>) -> bool {
    ||| (s.len() > 0 && s[0] == '.')
    ||| exists|i: int| 0 <= i < s.len() - 1 && s[i] == '/' && #[trigger] s[i + 1] == '.'
}

/// Classify a packaging pattern: hidden-file patterns are collected apart,
/// so that files the user names explicitly survive the default rule that
/// ignores hidden entries.
pub fn is_hidden_pattern(pattern: &str) -> (r: bool)
    ensures
        r == names_hidden(pattern@),
{
    let n = pattern.unicode_len();
    if n > 0 && pattern.get_char(0) == '.' {
        return true;
    }
    if n < 2 {
        proof {
            if names_hidden(pattern@) {
                let i = choose|i: int|
                    0 <= i < pattern@.len() - 1 && pattern@[i] == '/' && #[trigger] pattern@[i + 1]
                        == '.';
                assert(false);
            }
        }
        return false;
    }
    for i in 0..n - 1
        invariant
            n == pattern@.len(),
            n >= 2,
            !(pattern@[0] == '.'),
            forall|j: int| 0 <= j < i ==> !(pattern@[j] == '/' && #[trigger] pattern@[j + 1] == '.'),
    {
        if pattern.get_char(i) == '/' && pattern.get_char(i + 1) == '.' {
            return true;
        }
    }
    proof {
        if names_hidden(pattern@) {
            let i = choose|i: int|
                0 <= i < pattern@.len() - 1 && pattern@[i] == '/' && #[trigger] pattern@[i + 1]
                    == '.';
            assert(false);
        }
    }
    false
}

} // verus!
