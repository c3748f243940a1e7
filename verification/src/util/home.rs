//! Paths under the user's home directory: a leading `~` expanded to it, and
//! the home directory written back as `~`. The home directory is handed in.

use vstd::prelude::*;
use vstd::string::*;

use crate::integrations::defaults::texts;

verus! {

/// A name that is a normal path component: not empty, without `/`, and
/// neither `.` nor `..`.
pub open spec fn plain_segment(s: Seq<char>) -> bool {
    s.len() > 0 && !s.contains('/') && s != "."@ && s != ".."@
}

/// One or more plain names.
pub open spec fn plain_segments(segments: Seq<Seq<char>>) -> bool {
    segments.len() > 0 && forall|i: int| 0 <= i < segments.len() ==> plain_segment(#[trigger] segments[i])
}

/// Names joined by single `/`s.
pub open spec fn segments_text(segments: Seq<Seq<char>>) -> Seq<char>
    decreases segments.len(),
{
    if segments.len() == 0 {
        seq![]
    } else if segments.len() == 1 {
        segments[0]
    } else {
        segments_text(segments.drop_last()) + seq!['/'] + segments.last()
    }
}

/// A relative path of plain names, each after a single `/`.
pub open spec fn plain_relative(path: Seq<char>) -> bool {
    exists|segments: Seq<Seq<char>>| plain_segments(segments) && #[trigger] segments_text(segments) == path
}

/// An absolute path of plain names, each after a single `/`.
pub open spec fn plain_absolute(path: Seq<char>) -> bool {
    path.len() > 1 && path[0] == '/' && plain_relative(path.skip(1))
}

/// The components of a path as `std::path::Path::components` splits it,
/// each by its text.
pub uninterp spec fn path_components(path: Seq<char>) -> Seq<Seq<char>>;

/// The components of a path, by `std::path::Path::components`; of a relative
/// path of plain names joined by single `/`s, these names (each a normal
/// component).
#[verifier::external_body]
fn components_of(path: &str) -> (r: Vec<String>)
    ensures
        texts(r@) == path_components(path@),
        forall|segments: Seq<Seq<char>>|
            plain_segments(segments) && path@ == #[trigger] segments_text(segments) ==> texts(r@)
                == segments,
{
    std::path::Path::new(path).components().map(|c| c.as_os_str().to_string_lossy().into_owned()).collect()
}

/// A path with one more component, as `std::path::Path::join` makes it on
/// Unix: a component that starts with `/` replaces the path; otherwise the
/// component follows the path, after a `/` unless the path is empty or
/// already ends in one.
pub open spec fn path_joined(base: Seq<char>, component: Seq<char>) -> Seq<char> {
    if component.len() > 0 && component[0] == '/' {
        component
    } else if base.len() == 0 || base.last() == '/' {
        base + component
    } else {
        base + seq!['/'] + component
    }
}

/// A path with one more component, as `std::path::Path::join` makes it.
fn join_path(base: &str, component: &str) -> (r: String)
    ensures
        r@ == path_joined(base@, component@),
{
    proof {
        reveal_strlit("/");
    }
    let n = component.unicode_len();
    if n > 0 && component.get_char(0) == '/' {
        return String::from_str(component);
    }
    let m = base.unicode_len();
    if m == 0 || base.get_char(m - 1) == '/' {
        String::from_str(base).concat(component)
    } else {
        assert("/"@ =~= seq!['/']);
        String::from_str(base).concat("/").concat(component)
    }
}

/// An optional text by its characters.
pub open spec fn below_text(text: Option<String>) -> Option<Seq<char>> {
    match text {
        Some(t) => Some(t@),
        None => None,
    }
}

/// What is left of a path below `base`, as `std::path::Path::strip_prefix`
/// finds it, or `None` where `base` is not a prefix of it.
pub uninterp spec fn path_below(path: Seq<char>, base: Seq<char>) -> Option<Seq<char>>;

/// What is left of a path below `base`, by `std::path::Path::strip_prefix`;
/// of an absolute path of plain names below `base` (itself one), the names
/// below it.
#[verifier::external_body]
fn strip_base(path: &str, base: &str) -> (r: Option<String>)
    ensures
        match path_below(path@, base@) {
            Some(rest) => r matches Some(s) && s@ == rest,
            None => r is None,
        },
        forall|rest: Seq<Seq<char>>|
            plain_absolute(base@) && plain_segments(rest) && path@ == base@ + seq!['/']
                + #[trigger] segments_text(rest) ==> below_text(r) == Some(segments_text(rest)),
{
    std::path::Path::new(path).strip_prefix(base).ok().map(|p| p.to_string_lossy().into_owned())
}

/// The home directory by its text, when one is known.
pub open spec fn home_text(home: Option<&str>) -> Option<Seq<char>> {
    match home {
        Some(h) => Some(h@),
        None => None,
    }
}

/// Why a path cannot be expanded.
#[derive(Clone, Copy, Debug, PartialEq, Eq, Structural)]
pub enum ExpandError {
    /// The path has no component.
    Empty,
    /// The path starts with `~` and no home directory is known.
    NoHome,
}

/// What an expansion error is told.
pub open spec fn expand_error_text(error: ExpandError) -> Seq<char> {
    match error {
        ExpandError::Empty => "path may not be empty"@,
        ExpandError::NoHome => "could not find home directory"@,
    }
}

impl ExpandError {
    /// What the error is told.
    pub fn message(&self) -> (r: String)
        ensures
            r@ == expand_error_text(*self),
    {
        match self {
            ExpandError::Empty => String::from_str("path may not be empty"),
            ExpandError::NoHome => String::from_str("could not find home directory"),
        }
    }
}

/// `base` with each of `components` joined to it in turn.
pub open spec fn joined_path(base: Seq<char>, components: Seq<Seq<char>>) -> Seq<char>
    decreases components.len(),
{
    if components.len() == 0 {
        base
    } else {
        path_joined(joined_path(base, components.drop_last()), components.last())
    }
}

/// A path with a leading `~` component replaced by the home directory, given
/// the path's components: an empty path is refused, a path that does not
/// start with `~` is kept as it is.
pub open spec fn expansion(
    path: Seq<char>,
    components: Seq<Seq<char>>,
    home: Option<Seq<char>>,
) -> Result<Seq<char>, ExpandError> {
    if components.len() == 0 {
        Err(ExpandError::Empty)
    } else if components[0] != "~"@ {
        Ok(path)
    } else {
        match home {
            None => Err(ExpandError::NoHome),
            Some(h) => Ok(joined_path(h, components.skip(1))),
        }
    }
}

/// Whether `r` is `expected`, a path taken by its text.
pub open spec fn is_expansion(
    r: Result<String, ExpandError>,
    expected: Result<Seq<char>, ExpandError>,
) -> bool {
    match expected {
        Ok(p) => r matches Ok(s) && s@ == p,
        Err(e) => r == Err::<String, ExpandError>(e),
    }
}

/// Expand a leading `~` component of `path`, whose components are given, to
/// the home directory.
pub fn expand_components(path: &str, components: &Vec<String>, home: Option<&str>) -> (r: Result<
    String,
    ExpandError,
>)
    ensures
        is_expansion(r, expansion(path@, texts(components@), home_text(home))),
{
    if components.len() == 0 {
        return Err(ExpandError::Empty);
    }
    proof {
        reveal_strlit("~");
    }
    let first = components[0].as_str();
    let tilde = first.unicode_len() == 1 && first.get_char(0) == '~';
    assert(tilde == (texts(components@)[0] == "~"@)) by {
        if texts(components@)[0] == "~"@ {
            assert(first@ == "~"@);
        }
        if tilde {
            assert(first@ =~= "~"@);
        }
    }
    if !tilde {
        return Ok(path.to_owned());
    }
    let home = match home {
        None => return Err(ExpandError::NoHome),
        Some(h) => h,
    };
    let ghost rest = texts(components@).skip(1);
    let mut r = home.to_owned();
    let mut i: usize = 1;
    while i < components.len()
        invariant
            1 <= i <= components.len(),
            rest == texts(components@).skip(1),
            r@ == joined_path(home@, rest.subrange(0, i - 1)),
        decreases components.len() - i,
    {
        let ghost prefix = rest.subrange(0, i as int);
        assert(prefix.drop_last() =~= rest.subrange(0, i - 1));
        assert(prefix.last() == components@[i as int]@);
        r = join_path(r.as_str(), components[i].as_str());
        i = i + 1;
    }
    assert(rest.subrange(0, rest.len() as int) =~= rest);
    Ok(r)
}

/// Expand a leading `~` component of `path` to the home directory.
pub fn expand_home(path: &str, home: Option<&str>) -> (r: Result<String, ExpandError>)
    ensures
        is_expansion(r, expanded(path@, home_text(home))),
{
    let components = components_of(path);
    proof {
        if home is Some && tilde_rest(path@) {
            let segments = choose|segments: Seq<Seq<char>>|
                plain_segments(segments) && #[trigger] segments_text(segments) == path@.skip(2);
            lemma_tilde_segment();
            lemma_prepend("~"@, segments);
            reveal_strlit("~");
            assert(path@ =~= "~"@ + seq!['/'] + path@.skip(2));
            assert(texts(components@) == seq!["~"@] + segments);
            assert((seq!["~"@] + segments).skip(1) =~= segments);
            lemma_joined_path(home_text(home)->0, segments);
        }
    }
    expand_components(path, &components, home)
}

/// How a path is shown: below the home directory as `~/` and the rest, else
/// as it is, given what is left of it below the home directory.
pub open spec fn friendly_text(path: Seq<char>, below_home: Option<Seq<char>>) -> Seq<char> {
    match below_home {
        Some(rest) => "~/"@ + rest,
        None => path,
    }
}

/// How a path is shown, given what is left of it below the home directory.
pub fn friendly_of(path: &str, below_home: Option<String>) -> (r: String)
    ensures
        r@ == friendly_text(path@, below_text(below_home)),
{
    match below_home {
        Some(rest) => String::from_str("~/").concat(rest.as_str()),
        None => path.to_owned(),
    }
}

/// Make a path "friendly" by writing the home directory as `~`.
pub fn friendly_path(path: &str, home: Option<&str>) -> (r: String)
    ensures
        r@ == friendly(path@, home_text(home)),
{
    let below = match home {
        Some(h) => strip_base(path, h),
        None => None,
    };
    proof {
        if home is Some && below_plain_home(path@, home_text(home)->0) {
            let h = home_text(home)->0;
            let rest = choose|segments: Seq<Seq<char>>|
                plain_segments(segments) && #[trigger] segments_text(segments) == path@.skip(
                    h.len() as int + 1,
                );
            assert(path@ =~= h + seq!['/'] + path@.skip(h.len() as int + 1));
            assert(path@ == h + seq!['/'] + segments_text(rest));
        }
    }
    friendly_of(path, below)
}

/// A path that is `~/` and then plain names.
pub open spec fn tilde_rest(path: Seq<char>) -> bool {
    path.len() > 2 && path[0] == '~' && path[1] == '/' && plain_relative(path.skip(2))
}

/// A leading `~` of `path` expanded to the home directory: for `~/` and plain
/// names, the home directory joined with those names; else as the path's
/// components give it.
pub open spec fn expanded(path: Seq<char>, home: Option<Seq<char>>) -> Result<Seq<char>, ExpandError> {
    match home {
        Some(h) => if tilde_rest(path) {
            Ok(path_joined(h, path.skip(2)))
        } else {
            expansion(path, path_components(path), home)
        },
        None => expansion(path, path_components(path), home),
    }
}

/// Whether `path` is `home`, a plain absolute path, then `/` and plain names.
pub open spec fn below_plain_home(path: Seq<char>, home: Seq<char>) -> bool {
    &&& plain_absolute(home)
    &&& path.len() > home.len() + 1
    &&& path.take(home.len() as int) == home
    &&& path[home.len() as int] == '/'
    &&& plain_relative(path.skip(home.len() as int + 1))
}

/// How a path is shown: below the home directory as `~/` and the rest
/// (written out where both are plain paths), else as it is.
pub open spec fn friendly(path: Seq<char>, home: Option<Seq<char>>) -> Seq<char> {
    match home {
        Some(h) => if below_plain_home(path, h) {
            "~/"@ + path.skip(h.len() as int + 1)
        } else {
            friendly_text(path, path_below(path, h))
        },
        None => path,
    }
}

proof fn lemma_tilde_segment()
    ensures
        plain_segment("~"@),
{
    reveal_strlit("~");
    reveal_strlit(".");
    reveal_strlit("..");
    assert("~"@ != "."@) by {
        assert("~"@[0] != "."@[0]);
    }
    assert("~"@ != ".."@) by {
        assert("~"@.len() != ".."@.len());
    }
    assert(!"~"@.contains('/')) by {
        if "~"@.contains('/') {
            assert("~"@[0] == '/');
        }
    }
}

/// Plain names joined by `/` neither start nor end with `/`.
proof fn lemma_segments_text_ends(segments: Seq<Seq<char>>)
    requires
        plain_segments(segments),
    ensures
        segments_text(segments).len() > 0,
        segments_text(segments)[0] != '/',
        segments_text(segments).last() != '/',
    decreases segments.len(),
{
    assert(plain_segment(segments[0]));
    assert(plain_segment(segments.last()));
    assert(segments[0].contains(segments[0][0]));
    assert(segments.last().contains(segments.last().last()));
    if segments.len() > 1 {
        let d = segments.drop_last();
        assert forall|i: int| 0 <= i < d.len() implies plain_segment(#[trigger] d[i]) by {
            assert(plain_segment(segments[i]));
        }
        lemma_segments_text_ends(d);
        assert(d[0] == segments[0]);
    }
}

/// A plain name before plain names.
proof fn lemma_prepend(first: Seq<char>, segments: Seq<Seq<char>>)
    requires
        plain_segment(first),
        plain_segments(segments),
    ensures
        plain_segments(seq![first] + segments),
        segments_text(seq![first] + segments) == first + seq!['/'] + segments_text(segments),
    decreases segments.len(),
{
    let all = seq![first] + segments;
    assert forall|i: int| 0 <= i < all.len() implies plain_segment(#[trigger] all[i]) by {
        if i > 0 {
            assert(all[i] == segments[i - 1]);
        }
    }
    if segments.len() == 1 {
        assert(all.drop_last() =~= seq![first]);
        assert(segments_text(seq![first]) == first);
        assert(all.last() == segments[0]);
        assert(segments_text(segments) == segments[0]);
        assert(segments_text(all) == segments_text(all.drop_last()) + seq!['/'] + all.last());
    } else {
        let d = segments.drop_last();
        assert forall|i: int| 0 <= i < d.len() implies plain_segment(#[trigger] d[i]) by {
            assert(plain_segment(segments[i]));
        }
        lemma_prepend(first, d);
        assert(all.drop_last() =~= seq![first] + d);
        assert(all.last() == segments.last());
        assert(segments_text(all) =~= first + seq!['/'] + segments_text(segments));
    }
}

/// Joining plain names one by one is joining them at once.
proof fn lemma_joined_path(base: Seq<char>, segments: Seq<Seq<char>>)
    requires
        plain_segments(segments),
    ensures
        joined_path(base, segments) == path_joined(base, segments_text(segments)),
    decreases segments.len(),
{
    lemma_segments_text_ends(segments);
    if segments.len() == 1 {
        assert(segments.drop_last() =~= Seq::<Seq<char>>::empty());
        assert(joined_path(base, segments.drop_last()) == base);
        assert(segments_text(segments) == segments.last());
    } else {
        let d = segments.drop_last();
        assert forall|i: int| 0 <= i < d.len() implies plain_segment(#[trigger] d[i]) by {
            assert(plain_segment(segments[i]));
        }
        lemma_joined_path(base, d);
        lemma_segments_text_ends(d);
        let last = segments.last();
        assert(plain_segment(last));
        assert(last.contains(last[0]));
        let x = path_joined(base, segments_text(d));
        assert(x.len() > 0 && x.last() == segments_text(d).last());
        assert(path_joined(x, last) == x + seq!['/'] + last);
        assert(segments_text(segments) == segments_text(d) + seq!['/'] + last);
        assert(path_joined(base, segments_text(segments)) =~= x + seq!['/'] + last);
    }
}

/// Expanding the friendly form of a path below the home directory gives the
/// path back: for a home directory and a path below it that are both plain
/// names after single `/`s, the path is shown as `~/` and the names below the
/// home directory, and that expands to the path.
pub proof fn lemma_expand_undoes_friendly(home: Seq<Seq<char>>, below: Seq<Seq<char>>)
    requires
        plain_segments(home),
        plain_segments(below),
    ensures
        ({
            let h = seq!['/'] + segments_text(home);
            let p = path_joined(h, segments_text(below));
            &&& p == h + seq!['/'] + segments_text(below)
            &&& friendly(p, Some(h)) == "~/"@ + segments_text(below)
            &&& expanded(friendly(p, Some(h)), Some(h)) == Ok::<Seq<char>, ExpandError>(p)
        }),
{
    let h = seq!['/'] + segments_text(home);
    let rest = segments_text(below);
    let p = path_joined(h, rest);
    lemma_segments_text_ends(home);
    lemma_segments_text_ends(below);
    assert(h.last() == segments_text(home).last());
    assert(p == h + seq!['/'] + rest);
    assert(h.skip(1) =~= segments_text(home));
    assert(plain_absolute(h));
    assert(p.take(h.len() as int) =~= h);
    assert(p.skip(h.len() as int + 1) =~= rest);
    assert(below_plain_home(p, h));
    reveal_strlit("~/");
    let f = "~/"@ + rest;
    assert(f.skip(2) =~= rest);
    assert(tilde_rest(f));
}

} // verus!
