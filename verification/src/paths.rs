//! Workspace paths: splitting native paths into segments, comparing them
//! under a path convention, and computing workspace-relative paths.
use vstd::prelude::*;
use vstd::utf8::*;
use crate::unicode::push_char;

verus! {

broadcast use vstd::string::group_string_axioms;

/// How a native path is written.
#[derive(Clone, Copy, Debug, PartialEq, Eq, Structural)]
pub enum PathConvention {
    /// `/`-separated, case-sensitive segments.
    Posix,
    /// `/`- or `\`-separated segments compared without regard to ASCII case.
    Windows,
}

/// What the library reads of a location: the scheme and host of its URL, the
/// path convention inferred for it (if any), and its native path text.
#[derive(Clone, Debug, PartialEq, Eq)]
pub struct ProjectPath {
    pub scheme: String,
    pub host: Option<String>,
    pub convention: Option<PathConvention>,
    pub native_path: String,
}

/// A location as plain values.
pub struct ProjectPathView {
    pub scheme: Seq<char>,
    pub host: Option<Seq<char>>,
    pub convention: Option<PathConvention>,
    pub native_path: Seq<char>,
}

impl View for ProjectPath {
    type V = ProjectPathView;

    open spec fn view(&self) -> ProjectPathView {
        ProjectPathView {
            scheme: self.scheme@,
            host: match self.host {
                Some(h) => Some(h@),
                None => None,
            },
            convention: self.convention,
            native_path: self.native_path@,
        }
    }
}

/// Whether a character separates segments under a convention.
pub open spec fn is_separator(c: char, convention: PathConvention) -> bool {
    match convention {
        PathConvention::Posix => c == '/',
        PathConvention::Windows => c == '/' || c == '\\',
    }
}

/// Splitting state after reading a text: the non-empty segments completed so
/// far and the segment being read.
pub open spec fn split_state(text: Seq<char>, convention: PathConvention) -> (Seq<Seq<char>>, Seq<char>)
    decreases text.len(),
{
    if text.len() == 0 {
        (Seq::empty(), Seq::empty())
    } else {
        let (done, current) = split_state(text.drop_last(), convention);
        let c = text.last();
        if is_separator(c, convention) {
            if current.len() > 0 {
                (done.push(current), Seq::empty())
            } else {
                (done, Seq::empty())
            }
        } else {
            (done, current.push(c))
        }
    }
}

/// The non-empty segments of a native path.
pub open spec fn path_segments(text: Seq<char>, convention: PathConvention) -> Seq<Seq<char>> {
    let (done, current) = split_state(text, convention);
    if current.len() > 0 {
        done.push(current)
    } else {
        done
    }
}

/// ASCII lower-casing of a byte; other bytes are unchanged.
pub open spec fn ascii_lowercase(b: u8) -> u8 {
    if 0x41 <= b && b <= 0x5A {
        (b + 0x20) as u8
    } else {
        b
    }
}

/// Two byte strings are equal up to ASCII case.
pub open spec fn equal_ignoring_ascii_case(a: Seq<u8>, b: Seq<u8>) -> bool {
    a.len() == b.len() && forall|i: int| 0 <= i < a.len() ==> #[trigger] ascii_lowercase(a[i]) == ascii_lowercase(b[i])
}

/// Whether two segments name the same thing under a convention.
pub open spec fn segments_equal(convention: PathConvention, left: Seq<char>, right: Seq<char>) -> bool {
    match convention {
        PathConvention::Posix => left == right,
        PathConvention::Windows => equal_ignoring_ascii_case(encode_utf8(left), encode_utf8(right)),
    }
}

/// Whether two segment lists agree position by position.
pub open spec fn all_segments_equal(convention: PathConvention, left: Seq<Seq<char>>, right: Seq<Seq<char>>, n: int) -> bool {
    forall|i: int| 0 <= i < n ==> #[trigger] segments_equal(convention, left[i], right[i])
}

/// Whether two locations are the same file: same scheme and host, the same
/// inferred convention, and equal segments under it.
pub open spec fn same_location(left: ProjectPathView, right: ProjectPathView) -> bool {
    &&& left.scheme == right.scheme
    &&& left.host == right.host
    &&& left.convention is Some
    &&& right.convention == left.convention
    &&& {
        let convention = left.convention->Some_0;
        let l = path_segments(left.native_path, convention);
        let r = path_segments(right.native_path, convention);
        l.len() == r.len() && all_segments_equal(convention, l, r, l.len() as int)
    }
}

/// Segments joined with `/` between them.
pub open spec fn joined(segments: Seq<Seq<char>>) -> Seq<char>
    decreases segments.len(),
{
    if segments.len() == 0 {
        Seq::empty()
    } else if segments.len() == 1 {
        segments[0]
    } else {
        joined(segments.drop_last()) + seq!['/'] + segments.last()
    }
}

/// The path of `path` relative to `root`, joined with `/`: defined when both
/// have the same scheme, host and inferred convention and the segments of
/// `root` are a prefix of those of `path`.
pub open spec fn relative_location(root: ProjectPathView, path: ProjectPathView) -> Option<Seq<char>> {
    if root.scheme != path.scheme || root.host != path.host {
        None
    } else if root.convention is None || path.convention != root.convention {
        None
    } else {
        let convention = root.convention->Some_0;
        let r = path_segments(root.native_path, convention);
        let t = path_segments(path.native_path, convention);
        if r.len() > t.len() || !all_segments_equal(convention, r, t, r.len() as int) {
            None
        } else {
            Some(joined(t.skip(r.len() as int)))
        }
    }
}

/// The UTF-8 bytes of equal texts are equal, and conversely.
proof fn lemma_same_bytes_same_text(a: Seq<char>, b: Seq<char>)
    ensures
        (encode_utf8(a) == encode_utf8(b)) <==> (a == b),
{
    encode_utf8_decode_utf8(a);
    encode_utf8_decode_utf8(b);
}

/// Whether two texts are equal, compared byte by byte.
fn same_text(a: &str, b: &str) -> (same: bool)
    ensures
        same == (a@ == b@),
{
    let x = a.as_bytes();
    let y = b.as_bytes();
    proof { lemma_same_bytes_same_text(a@, b@); }
    if x.len() != y.len() {
        return false;
    }
    let mut i: usize = 0;
    while i < x.len()
        invariant
            0 <= i <= x@.len(),
            x@.len() == y@.len(),
            x@ == encode_utf8(a@),
            y@ == encode_utf8(b@),
            (encode_utf8(a@) == encode_utf8(b@)) <==> (a@ == b@),
            forall|j: int| 0 <= j < i ==> x@[j] == y@[j],
        decreases x@.len() - i,
    {
        if x[i] != y[i] {
            assert(x@[i as int] != y@[i as int]);
            return false;
        }
        i = i + 1;
    }
    assert(x@ =~= y@);
    true
}

/// Whether two optional texts are equal.
fn same_optional_text(a: &Option<String>, b: &Option<String>) -> (same: bool)
    ensures
        same == (match (a, b) {
            (Some(x), Some(y)) => x@ == y@,
            (None, None) => true,
            _ => false,
        }),
{
    match (a, b) {
        (Some(x), Some(y)) => same_text(x.as_str(), y.as_str()),
        (None, None) => true,
        _ => false,
    }
}

/// Whether a character separates segments under a convention.
fn separates(c: char, convention: PathConvention) -> (separator: bool)
    ensures
        separator == is_separator(c, convention),
{
    match convention {
        PathConvention::Posix => c == '/',
        PathConvention::Windows => c == '/' || c == '\\',
    }
}

/// Splits a native path into its non-empty segments.
pub fn non_empty_segments(convention: PathConvention, path: &str) -> (segments: Vec<String>)
    ensures
        segments@.map_values(|s: String| s@) == path_segments(path@, convention),
{
    let ghost text = path@;
    let mut done: Vec<String> = Vec::new();
    let mut current = String::new();
    for c in it: path.chars()
        invariant
            it.seq() == text,
            text == path@,
            split_state(text.take(it.index()), convention)
                == (done@.map_values(|s: String| s@), current@),
    {
        let ghost i = it.index();
        assert(c == text[i]);
        let ghost prefix = text.take(i + 1);
        assert(prefix.drop_last() =~= text.take(i));
        assert(prefix.last() == c);
        if separates(c, convention) {
            if !current.as_str().is_empty() {
                let ghost before = done@;
                let finished = current;
                current = String::new();
                done.push(finished);
                assert(done@.map_values(|s: String| s@) =~= before.map_values(|s: String| s@).push(finished@));
            }
        } else {
            push_char(&mut current, c);
        }
    }
    assert(text.take(text.len() as int) =~= text);
    if !current.as_str().is_empty() {
        let ghost before = done@;
        let finished = current;
        done.push(finished);
        assert(done@.map_values(|s: String| s@) =~= before.map_values(|s: String| s@).push(finished@));
    }
    done
}

/// ASCII lower-casing of a byte.
fn lowercase_byte(b: u8) -> (lower: u8)
    ensures
        lower == ascii_lowercase(b),
{
    if 0x41 <= b && b <= 0x5A {
        b + 0x20
    } else {
        b
    }
}

/// Whether two segments name the same thing: exactly equal under POSIX,
/// equal up to ASCII case under Windows.
pub fn path_segment_eq(convention: PathConvention, left: &str, right: &str) -> (equal: bool)
    ensures
        equal == segments_equal(convention, left@, right@),
{
    match convention {
        PathConvention::Posix => same_text(left, right),
        PathConvention::Windows => {
            let x = left.as_bytes();
            let y = right.as_bytes();
            if x.len() != y.len() {
                return false;
            }
            let mut i: usize = 0;
            while i < x.len()
                invariant
                    0 <= i <= x@.len(),
                    x@.len() == y@.len(),
                    x@ == encode_utf8(left@),
                    y@ == encode_utf8(right@),
                    forall|j: int| 0 <= j < i ==> #[trigger] ascii_lowercase(x@[j]) == ascii_lowercase(y@[j]),
                decreases x@.len() - i,
            {
                if lowercase_byte(x[i]) != lowercase_byte(y[i]) {
                    return false;
                }
                i = i + 1;
            }
            true
        },
    }
}

/// Whether the first `n` segments of two lists agree.
fn segment_prefix_equal(convention: PathConvention, left: &Vec<String>, right: &Vec<String>, n: usize) -> (equal: bool)
    requires
        n <= left@.len(),
        n <= right@.len(),
    ensures
        equal == all_segments_equal(convention, left@.map_values(|s: String| s@), right@.map_values(|s: String| s@), n as int),
{
    let ghost l = left@.map_values(|s: String| s@);
    let ghost r = right@.map_values(|s: String| s@);
    let mut i: usize = 0;
    while i < n
        invariant
            0 <= i <= n,
            n <= left@.len(),
            n <= right@.len(),
            l == left@.map_values(|s: String| s@),
            r == right@.map_values(|s: String| s@),
            all_segments_equal(convention, l, r, i as int),
        decreases n - i,
    {
        assert(l[i as int] == left[i as int]@);
        assert(r[i as int] == right[i as int]@);
        if !path_segment_eq(convention, left[i].as_str(), right[i].as_str()) {
            return false;
        }
        i = i + 1;
    }
    true
}

/// Whether two locations are the same file.
pub fn paths_equal(left: &ProjectPath, right: &ProjectPath) -> (equal: bool)
    ensures
        equal == same_location(left@, right@),
{
    if !same_text(left.scheme.as_str(), right.scheme.as_str()) || !same_optional_text(&left.host, &right.host) {
        return false;
    }
    let convention = match left.convention {
        Some(convention) => convention,
        None => return false,
    };
    match right.convention {
        Some(other) => {
            if other != convention {
                return false;
            }
        },
        None => return false,
    }
    let left_segments = non_empty_segments(convention, left.native_path.as_str());
    let right_segments = non_empty_segments(convention, right.native_path.as_str());
    left_segments.len() == right_segments.len()
        && segment_prefix_equal(convention, &left_segments, &right_segments, left_segments.len())
}

/// Joins segments with `/`.
fn join_segments(segments: &Vec<String>, start: usize) -> (text: String)
    requires
        start <= segments@.len(),
    ensures
        text@ == joined(segments@.map_values(|s: String| s@).skip(start as int)),
{
    let ghost all = segments@.map_values(|s: String| s@).skip(start as int);
    let mut text = String::new();
    let mut i: usize = start;
    while i < segments.len()
        invariant
            start <= i <= segments@.len(),
            all == segments@.map_values(|s: String| s@).skip(start as int),
            text@ == joined(all.take(i - start)),
        decreases segments@.len() - i,
    {
        let ghost prefix = all.take(i + 1 - start);
        assert(prefix.drop_last() =~= all.take(i - start));
        assert(prefix.last() == segments[i as int]@);
        if i > start {
            text.append("/");
            proof { reveal_strlit("/"); }
        }
        text.append(segments[i].as_str());
        assert(text@ =~= joined(prefix));
        i = i + 1;
    }
    assert(all.take(segments@.len() - start) =~= all);
    text
}

/// The path of `path` relative to `root`, joined with `/`, when `root` is an
/// ancestor of (or equal to) `path` under the same scheme, host and
/// convention.
pub fn relative_path(root: &ProjectPath, path: &ProjectPath) -> (relative: Option<String>)
    ensures
        relative is Some <==> relative_location(root@, path@) is Some,
        relative matches Some(r) ==> relative_location(root@, path@) == Some(r@),
{
    if !same_text(root.scheme.as_str(), path.scheme.as_str()) || !same_optional_text(&root.host, &path.host) {
        return None;
    }
    let convention = match root.convention {
        Some(convention) => convention,
        None => return None,
    };
    match path.convention {
        Some(other) => {
            if other != convention {
                return None;
            }
        },
        None => return None,
    }
    let root_segments = non_empty_segments(convention, root.native_path.as_str());
    let target_segments = non_empty_segments(convention, path.native_path.as_str());
    if root_segments.len() > target_segments.len() {
        return None;
    }
    if !segment_prefix_equal(convention, &root_segments, &target_segments, root_segments.len()) {
        return None;
    }
    Some(join_segments(&target_segments, root_segments.len()))
}

} // verus!
