//! Paths as `/`-separated strings, and the pure helpers that combine them
//! and take them apart, as `PathBuf::push` and `Path::parent` do on Unix.

use vstd::prelude::*;

verus! {

/// The path that results from appending `segment` to `base`.
///
/// A segment that starts at the root replaces the base; otherwise one
/// separator is put between the two unless the base is empty or already ends
/// with one.
pub open spec fn join(base: Seq<char>, segment: Seq<char>) -> Seq<char> {
    if segment.len() > 0 && segment[0] == '/' {
        segment
    } else if base.len() > 0 && base.last() != '/' {
        base + seq!['/'] + segment
    } else {
        base + segment
    }
}

/// `root` with every segment appended in order.
pub open spec fn join_all(root: Seq<char>, segments: Seq<Seq<char>>) -> Seq<char>
    decreases segments.len(),
{
    if segments.len() == 0 {
        root
    } else {
        join(join_all(root, segments.drop_last()), segments.last())
    }
}

/// The views of a slice of string slices.
pub open spec fn views(paths: Seq<&str>) -> Seq<Seq<char>> {
    Seq::new(paths.len(), |i: int| paths[i]@)
}

/// Appends one segment to a path.
pub fn join_path(base: &str, segment: &str) -> (joined: String)
    ensures
        joined@ == join(base@, segment@),
{
    let segment_len: usize = segment.unicode_len();
    if segment_len > 0 && segment.get_char(0) == '/' {
        return String::from_str(segment);
    }
    let base_len: usize = base.unicode_len();
    let mut joined = String::from_str(base);
    if base_len > 0 && base.get_char(base_len - 1) != '/' {
        proof {
            reveal_strlit("/");
            assert("/"@ =~= seq!['/']);
        }
        joined.append("/");
    }
    joined.append(segment);
    joined
}

/// Builds the path of an entry below `root` from its segments.
pub fn repo_path(root: &str, paths: &[&str]) -> (joined: String)
    ensures
        joined@ == join_all(root@, views(paths@)),
{
    let mut joined = String::from_str(root);
    let mut i: usize = 0;
    while i < paths.len()
        invariant
            i <= paths.len(),
            joined@ == join_all(root@, views(paths@).take(i as int)),
        decreases paths.len() - i,
    {
        proof {
            let next = views(paths@).take(i + 1);
            assert(next.drop_last() =~= views(paths@).take(i as int));
            assert(next.last() == paths@[i as int]@);
        }
        joined = join_path(joined.as_str(), paths[i]);
        i += 1;
    }
    proof {
        assert(views(paths@).take(i as int) =~= views(paths@));
    }
    joined
}

/// Where the segments of a path begin: after the root of an absolute
/// path, after the `.` that leads a relative one, and else at the start.
pub open spec fn body_start(path: Seq<char>) -> int {
    if path.len() > 0 && path[0] == '/' {
        1
    } else if path.len() > 0 && path[0] == '.' && (path.len() == 1 || path[1] == '/') {
        1
    } else {
        0
    }
}

/// Where the segment that ends at `end` begins: after the last separator
/// before `end`, and not before `start`.
pub open spec fn segment_start(path: Seq<char>, start: int, end: int) -> int
    decreases end,
{
    if end <= start || end <= 0 || end > path.len() || path[end - 1] == '/' {
        end
    } else {
        segment_start(path, start, end - 1)
    }
}

/// Whether the segment from `from` to `to` names no level of its own: it
/// is empty, or it is `.`.
pub open spec fn is_blank(path: Seq<char>, from: int, to: int) -> bool {
    from == to || (from + 1 == to && path[from] == '.')
}

/// Where the first `end` characters of a path end once the segments at
/// their end that name no level are dropped, each with the separator
/// before it, down to `start` at most.
pub open spec fn trimmed_end(path: Seq<char>, start: int, end: int) -> int
    decreases end,
{
    if end <= start || end <= 0 {
        end
    } else {
        let from = segment_start(path, start, end);
        if !is_blank(path, from, end) {
            end
        } else if 0 <= start < from <= end {
            trimmed_end(path, start, from - 1)
        } else {
            from
        }
    }
}

/// The directory that holds `path`, by the text of the path alone.
///
/// Separators that follow one another count as one, and a `.` segment
/// counts as none unless it leads the path. The last segment that is left
/// is taken away, `..` like any name. The root and the empty path have no
/// parent, a relative path of one segment has the empty path, and an entry
/// directly below the root has the root.
pub open spec fn parent(path: Seq<char>) -> Option<Seq<char>> {
    let start = body_start(path);
    let end = trimmed_end(path, start, path.len() as int);
    if end > start {
        let from = segment_start(path, start, end);
        let cut = if from > start {
            from - 1
        } else {
            from
        };
        Some(path.take(trimmed_end(path, start, cut)))
    } else if start == 1 && path[0] == '.' {
        Some(Seq::empty())
    } else {
        None
    }
}

proof fn lemma_segment_start_bounds(path: Seq<char>, start: int, end: int)
    requires
        0 <= start <= end <= path.len(),
    ensures
        start <= segment_start(path, start, end) <= end,
    decreases end,
{
    if end > start && path[end - 1] != '/' {
        lemma_segment_start_bounds(path, start, end - 1);
    }
}

proof fn lemma_trimmed_end_bounds(path: Seq<char>, start: int, end: int)
    requires
        0 <= start <= end <= path.len(),
    ensures
        start <= trimmed_end(path, start, end) <= end,
    decreases end,
{
    if end > start {
        let from = segment_start(path, start, end);
        lemma_segment_start_bounds(path, start, end);
        if is_blank(path, from, end) && from > start {
            lemma_trimmed_end_bounds(path, start, from - 1);
        }
    }
}

/// A parent is strictly shorter than the path it was taken from, so walking
/// upward always ends.
pub proof fn lemma_parent_is_shorter(path: Seq<char>)
    ensures
        parent(path) matches Some(dir) ==> dir.len() < path.len(),
{
    let start = body_start(path);
    lemma_trimmed_end_bounds(path, start, path.len() as int);
    let end = trimmed_end(path, start, path.len() as int);
    if end > start {
        lemma_segment_start_bounds(path, start, end);
        lemma_trimmed_end_is_settled(path, start, path.len() as int);
        let from = segment_start(path, start, end);
        let cut = if from > start {
            from - 1
        } else {
            from
        };
        lemma_trimmed_end_bounds(path, start, cut);
    }
}

/// What is left after trimming ends in a segment that names a level,
/// unless nothing is left above `start`.
proof fn lemma_trimmed_end_is_settled(path: Seq<char>, start: int, end: int)
    requires
        0 <= start <= end <= path.len(),
    ensures
        ({
            let left = trimmed_end(path, start, end);
            left > start ==> !is_blank(path, segment_start(path, start, left), left)
        }),
    decreases end,
{
    if end > start {
        let from = segment_start(path, start, end);
        lemma_segment_start_bounds(path, start, end);
        if is_blank(path, from, end) && from > start {
            lemma_trimmed_end_is_settled(path, start, from - 1);
        }
    }
}

/// Computes [`segment_start`].
fn segment_begin(path: &str, start: usize, end: usize) -> (from: usize)
    requires
        start <= end <= path@.len(),
    ensures
        from == segment_start(path@, start as int, end as int),
        start <= from <= end,
{
    let mut from: usize = end;
    while from > start && path.get_char(from - 1) != '/'
        invariant
            start <= from <= end <= path@.len(),
            segment_start(path@, start as int, from as int) == segment_start(
                path@,
                start as int,
                end as int,
            ),
        decreases from,
    {
        from -= 1;
    }
    from
}

/// Computes [`trimmed_end`].
fn trim_blank(path: &str, start: usize, end: usize) -> (left: usize)
    requires
        start <= end <= path@.len(),
    ensures
        left == trimmed_end(path@, start as int, end as int),
        start <= left <= end,
{
    let mut left: usize = end;
    while left > start
        invariant
            start <= left <= end <= path@.len(),
            trimmed_end(path@, start as int, left as int) == trimmed_end(
                path@,
                start as int,
                end as int,
            ),
        decreases left,
    {
        let from = segment_begin(path, start, left);
        let blank = from == left || (from + 1 == left && path.get_char(from) == '.');
        if !blank {
            return left;
        }
        left = if from > start {
            from - 1
        } else {
            from
        };
    }
    left
}

/// The directory that holds `path`, or `None` for the empty path and the root.
pub fn parent_of(path: &str) -> (dir: Option<String>)
    ensures
        match dir {
            Some(d) => parent(path@) == Some(d@),
            None => parent(path@) is None,
        },
{
    let len: usize = path.unicode_len();
    let led_by_dot = len > 0 && path.get_char(0) == '.' && (len == 1 || path.get_char(1) == '/');
    let start: usize = if (len > 0 && path.get_char(0) == '/') || led_by_dot {
        1
    } else {
        0
    };
    let end: usize = trim_blank(path, start, len);
    if end > start {
        let from = segment_begin(path, start, end);
        let cut: usize = if from > start {
            from - 1
        } else {
            from
        };
        let left = trim_blank(path, start, cut);
        assert(path@.subrange(0, left as int) =~= path@.take(left as int));
        Some(String::from_str(path.substring_char(0, left)))
    } else if led_by_dot {
        Some(String::new())
    } else {
        None
    }
}

} // verus!
