//! Turning the configured rule directory into the path that is traversed.

use vstd::prelude::*;

verus! {

/// The marker that stands for the user's home directory.
pub open spec fn home_marker() -> char {
    '~'
}

/// `dir` with every home marker replaced by `home`.
pub open spec fn expand_home(dir: Seq<char>, home: Seq<char>) -> Seq<char>
    decreases dir.len(),
{
    if dir.len() == 0 {
        dir
    } else if dir.last() == home_marker() {
        expand_home(dir.drop_last(), home) + home
    } else {
        expand_home(dir.drop_last(), home).push(dir.last())
    }
}

/// `path`, ending with `separator`: appended unless it is already the last character.
pub open spec fn with_trailing_separator(path: Seq<char>, separator: char) -> Seq<char> {
    if path.len() > 0 && path.last() == separator {
        path
    } else {
        path.push(separator)
    }
}

/// The normal form of a configured directory: home markers expanded where a home
/// directory is known, left literal where none is, and a trailing separator.
pub open spec fn normalized(dir: Seq<char>, home: Option<Seq<char>>, separator: char) -> Seq<char> {
    with_trailing_separator(
        match home {
            Some(h) => expand_home(dir, h),
            None => dir,
        },
        separator,
    )
}

/// A path without a home marker is its own expansion.
pub proof fn lemma_expand_without_marker(path: Seq<char>, home: Seq<char>)
    requires
        !path.contains(home_marker()),
    ensures
        expand_home(path, home) == path,
    decreases path.len(),
{
    if path.len() > 0 {
        let front = path.drop_last();
        assert(path[path.len() - 1] == path.last());
        assert forall|i: int| 0 <= i < front.len() implies front[i] != home_marker() by {
            assert(front[i] == path[i]);
        }
        lemma_expand_without_marker(front, home);
        assert(front.push(path.last()) == path);
    }
}

/// Expanding the marker to itself changes nothing.
pub proof fn lemma_expand_to_marker(path: Seq<char>)
    ensures
        expand_home(path, seq![home_marker()]) == path,
    decreases path.len(),
{
    if path.len() > 0 {
        lemma_expand_to_marker(path.drop_last());
        assert(path.drop_last() + seq![home_marker()] == path.drop_last().push(home_marker()));
        assert(path.drop_last().push(path.last()) == path);
    }
}

/// Expanding with a home directory that holds no marker leaves no marker.
pub proof fn lemma_expand_clears_marker(path: Seq<char>, home: Seq<char>)
    requires
        !home.contains(home_marker()),
    ensures
        !expand_home(path, home).contains(home_marker()),
    decreases path.len(),
{
    if path.len() > 0 {
        let front = expand_home(path.drop_last(), home);
        lemma_expand_clears_marker(path.drop_last(), home);
        let whole = expand_home(path, home);
        assert forall|i: int| 0 <= i < whole.len() implies whole[i] != home_marker() by {
            if i < front.len() {
                assert(front.contains(whole[i]));
            } else if path.last() == home_marker() {
                assert(home.contains(home[i - front.len()]));
            }
        }
    }
}

/// A path that ends with the separator is kept as it is.
pub proof fn lemma_trailing_separator_idempotent(path: Seq<char>, separator: char)
    ensures
        with_trailing_separator(with_trailing_separator(path, separator), separator)
            == with_trailing_separator(path, separator),
{
}

/// The inputs on which a second normalization changes nothing: no home directory
/// is known; or the home directory is the marker itself; or, with a separator
/// other than the marker, the directory and the home directory do not both hold
/// a marker; or, with the marker as separator, the home directory is empty.
pub open spec fn renormalization_stable(
    dir: Seq<char>,
    home: Option<Seq<char>>,
    separator: char,
) -> bool {
    match home {
        None => true,
        Some(h) => h == seq![home_marker()] || if separator == home_marker() {
            h.len() == 0
        } else {
            !(dir.contains(home_marker()) && h.contains(home_marker()))
        },
    }
}

/// Normalization is idempotent: a normalized directory is its own normal form.
pub proof fn lemma_normalize_idempotent(dir: Seq<char>, home: Option<Seq<char>>, separator: char)
    requires
        renormalization_stable(dir, home, separator),
    ensures
        normalized(normalized(dir, home, separator), home, separator) == normalized(
            dir,
            home,
            separator,
        ),
{
    let once = normalized(dir, home, separator);
    match home {
        None => {},
        Some(h) => {
            if h == seq![home_marker()] {
                lemma_expand_to_marker(dir);
                lemma_expand_to_marker(once);
            } else {
                let expanded = expand_home(dir, h);
                if dir.contains(home_marker()) {
                    lemma_expand_clears_marker(dir, h);
                } else {
                    lemma_expand_without_marker(dir, h);
                }
                assert(!expanded.contains(home_marker()));
                if separator == home_marker() {
                    if expanded.len() > 0 {
                        assert(expanded.contains(expanded.last()));
                    }
                    assert(once == expanded.push(separator));
                    assert(once.drop_last() == expanded);
                    lemma_expand_without_marker(expanded, h);
                    assert(expand_home(once, h) == expanded + h);
                    assert(expanded + h == expanded);
                } else {
                    assert forall|i: int| 0 <= i < once.len() implies once[i]
                        != home_marker() by {
                        if i < expanded.len() {
                            assert(expanded.contains(once[i]));
                        }
                    }
                    lemma_expand_without_marker(once, h);
                }
            }
        },
    }
}

/// Expanding with a home directory that is not empty never shortens a path, and
/// lengthens one that holds a marker where the home directory has two characters
/// or more.
pub proof fn lemma_expand_length(path: Seq<char>, home: Seq<char>)
    requires
        home.len() >= 1,
    ensures
        expand_home(path, home).len() >= path.len(),
        home.len() >= 2 && path.contains(home_marker()) ==> expand_home(path, home).len()
            > path.len(),
    decreases path.len(),
{
    if path.len() > 0 {
        let front = path.drop_last();
        lemma_expand_length(front, home);
        if path.contains(home_marker()) && path.last() != home_marker() {
            let i: int = choose|i: int| 0 <= i < path.len() && path[i] == home_marker();
            assert(front[i] == home_marker());
        }
    }
}

/// Expanding a path that holds a marker, with a home directory that holds one,
/// leaves a marker.
pub proof fn lemma_expand_keeps_marker(path: Seq<char>, home: Seq<char>)
    requires
        path.contains(home_marker()),
        home.contains(home_marker()),
    ensures
        expand_home(path, home).contains(home_marker()),
    decreases path.len(),
{
    let front = expand_home(path.drop_last(), home);
    let whole = expand_home(path, home);
    if path.last() == home_marker() {
        let j: int = choose|j: int| 0 <= j < home.len() && home[j] == home_marker();
        assert(whole[front.len() + j] == home_marker());
    } else {
        let i: int = choose|i: int| 0 <= i < path.len() && path[i] == home_marker();
        assert(path.drop_last()[i] == home_marker());
        lemma_expand_keeps_marker(path.drop_last(), home);
        let k: int = choose|k: int| 0 <= k < front.len() && front[k] == home_marker();
        assert(whole[k] == home_marker());
    }
}

/// On every other input a second normalization gives a different path.
pub proof fn lemma_normalize_not_idempotent(
    dir: Seq<char>,
    home: Option<Seq<char>>,
    separator: char,
)
    requires
        !renormalization_stable(dir, home, separator),
    ensures
        normalized(normalized(dir, home, separator), home, separator) != normalized(
            dir,
            home,
            separator,
        ),
{
    let h = home->0;
    let once = normalized(dir, home, separator);
    let again = expand_home(once, h);
    if h.len() == 1 {
        assert(h =~= seq![h[0]]);
        assert(separator == home_marker());
        assert(once.last() == home_marker());
        lemma_expand_length(once.drop_last(), h);
        assert(again == expand_home(once.drop_last(), h) + h);
        assert(again.last() == h[0]);
    } else {
        if separator == home_marker() {
            assert(once[once.len() - 1] == home_marker());
        } else {
            lemma_expand_keeps_marker(dir, h);
            let expanded = expand_home(dir, h);
            let k: int = choose|k: int| 0 <= k < expanded.len() && expanded[k] == home_marker();
            assert(once[k] == home_marker());
        }
        lemma_expand_length(once, h);
    }
}

/// `String::push` appends one character.
pub assume_specification[ String::push ](s: &mut String, c: char)
    ensures
        final(s)@ == old(s)@.push(c),
;

/// Replaces every home marker in `dir` by `home`.
pub fn expand(dir: &str, home: &str) -> (out: String)
    ensures
        out@ == expand_home(dir@, home@),
{
    let mut out = String::new();
    for c in it: dir.chars()
        invariant
            it.seq() == dir@,
            out@ == expand_home(dir@.take(it.index() as int), home@),
    {
        proof {
            let done: int = it.index() as int;
            assert(dir@.take(done + 1).drop_last() == dir@.take(done));
            assert(dir@.take(done + 1).last() == c);
        }
        if c == '~' {
            out.append(home);
        } else {
            out.push(c);
        }
    }
    proof {
        assert(dir@.take(dir@.len() as int) == dir@);
    }
    out
}

/// The view of an optional home directory.
pub open spec fn home_view(home: Option<&str>) -> Option<Seq<char>> {
    match home {
        Some(h) => Some(h@),
        None => None,
    }
}

/// Brings a configured directory into its normal form.
pub fn normalize_directory(dir: &str, home: Option<&str>, separator: char) -> (out: String)
    ensures
        out@ == normalized(dir@, home_view(home), separator),
{
    let mut out = match home {
        Some(h) => expand(dir, h),
        None => dir.to_owned(),
    };
    let length: usize = out.as_str().unicode_len();
    if length == 0 || out.as_str().get_char(length - 1) != separator {
        out.push(separator);
    }
    out
}

/// The home directory of the current user, where it is known and is valid UTF-8.
///
/// Calls `dirs::home_dir`, whose answer depends on the environment: nothing is
/// claimed of it.
#[verifier::external_body]
fn home_directory() -> (home: Option<String>) {
    dirs::home_dir().and_then(|path| path.to_str().map(|text| text.to_owned()))
}

/// A separator of path components that a platform has: the slash or the backslash.
pub open spec fn is_platform_separator(separator: char) -> bool {
    separator == '/' || separator == '\\'
}

/// The character that separates path components on this platform.
///
/// Reads `std::path::MAIN_SEPARATOR`, which differs between platforms: it is the
/// slash on Unix and the backslash on Windows.
#[verifier::external_body]
fn platform_separator() -> (separator: char)
    ensures
        is_platform_separator(separator),
{
    std::path::MAIN_SEPARATOR
}

/// The normal form of `configured` on this machine: with the current user's home
/// directory, where there is one, and the platform's separator.
pub fn resolve_directory(configured: &str) -> (out: String)
    ensures
        exists|home: Option<Seq<char>>, separator: char|
            is_platform_separator(separator) && out@ == normalized(configured@, home, separator),
{
    let home = home_directory();
    let separator = platform_separator();
    let out = match &home {
        Some(h) => normalize_directory(configured, Some(h.as_str()), separator),
        None => normalize_directory(configured, None, separator),
    };
    proof {
        let witness = match home {
            Some(h) => Some(h@),
            None => None,
        };
        assert(is_platform_separator(separator) && out@ == normalized(
            configured@,
            witness,
            separator,
        ));
    }
    out
}

} // verus!
