//! Paths as texts with `/` between their parts.

use crate::text::{
    after, chars_equal, chars_of, join, join_texts, lemma_split, lowercase, opt_text, same_text,
    slices_view, split, split_chars, strip_prefix_chars, text_of, texts_view,
};
use vstd::prelude::*;

verus! {

// ---------------------------------------------------------------------------
// Parts
// ---------------------------------------------------------------------------

/// The pieces of a text between the characters `/`.
pub open spec fn pieces(s: Seq<char>) -> Seq<Seq<char>>
    decreases s.len(),
{
    match split(s, "/"@) {
        None => seq![s],
        Some((head, tail)) => {
            proof {
                reveal_strlit("/");
                lemma_split(s, "/"@);
            }
            seq![head] + pieces(tail)
        },
    }
}

/// A piece that names something: not empty, and not the present directory.
pub open spec fn names_part(piece: Seq<char>) -> bool {
    piece.len() > 0 && piece != "."@
}

pub open spec fn parts_among(list: Seq<Seq<char>>) -> Seq<Seq<char>>
    decreases list.len(),
{
    if list.len() == 0 {
        Seq::empty()
    } else if names_part(list.last()) {
        parts_among(list.drop_last()).push(list.last())
    } else {
        parts_among(list.drop_last())
    }
}

/// A path taken apart: whether it starts at the root, and its parts.
pub struct PathView {
    pub rooted: bool,
    pub parts: Seq<Seq<char>>,
}

pub open spec fn absolute(path: Seq<char>) -> bool {
    path.len() > 0 && path[0] == '/'
}

/// A path by its parts; `.` is none.
pub open spec fn written(path: Seq<char>) -> PathView {
    PathView { rooted: absolute(path), parts: parts_among(pieces(path)) }
}

/// The components of a path, by which one path is held against another: its parts, behind a `.`
/// where the path starts with one.
pub open spec fn components(path: Seq<char>) -> PathView {
    let parts = written(path).parts;
    PathView {
        rooted: absolute(path),
        parts: if pieces(path)[0] == "."@ {
            seq!["."@] + parts
        } else {
            parts
        },
    }
}

/// A path one step further: `..` goes back one part, and is kept where no part is left.
pub open spec fn step(at: Seq<Seq<char>>, part: Seq<char>) -> Seq<Seq<char>> {
    if part == ".."@ && at.len() > 0 {
        at.drop_last()
    } else {
        at.push(part)
    }
}

/// Where the steps of a path lead.
pub open spec fn walked(parts: Seq<Seq<char>>) -> Seq<Seq<char>>
    decreases parts.len(),
{
    if parts.len() == 0 {
        Seq::empty()
    } else {
        step(walked(parts.drop_last()), parts.last())
    }
}

/// A path without detours.
pub open spec fn normalized(path: PathView) -> PathView {
    PathView { rooted: path.rooted, parts: walked(path.parts) }
}

/// The canonical form of a path where it is known, otherwise the path without detours.
pub open spec fn resolved(path: Seq<char>, canonical: Option<Seq<char>>) -> PathView {
    match canonical {
        Some(c) => components(c),
        None => normalized(written(path)),
    }
}

/// The path `candidate` starts with the path `base`, part by part.
pub open spec fn within(base: PathView, candidate: PathView) -> bool {
    &&& base.rooted == candidate.rooted || (!base.rooted && base.parts.len() == 0)
    &&& base.parts.len() <= candidate.parts.len()
    &&& candidate.parts.take(base.parts.len() as int) == base.parts
}

proof fn lemma_walked_straight(parts: Seq<Seq<char>>)
    ensures
        forall|i: int|
            0 <= i < walked(parts).len() && (#[trigger] walked(parts)[i]) == ".."@ ==> i == 0,
    decreases parts.len(),
{
    if parts.len() > 0 {
        lemma_walked_straight(parts.drop_last());
        let prior = walked(parts.drop_last());
        let now = walked(parts);
        assert forall|i: int| 0 <= i < now.len() && (#[trigger] now[i]) == ".."@ implies i
            == 0 by {
            if i < prior.len() {
                assert(now[i] == prior[i]);
            }
        }
    }
}

proof fn lemma_walk_straight(parts: Seq<Seq<char>>)
    requires
        forall|i: int| 0 <= i < parts.len() && (#[trigger] parts[i]) == ".."@ ==> i == 0,
    ensures
        walked(parts) == parts,
    decreases parts.len(),
{
    if parts.len() > 0 {
        let prior = parts.drop_last();
        assert forall|i: int| 0 <= i < prior.len() && (#[trigger] prior[i]) == ".."@ implies i
            == 0 by {
            assert(prior[i] == parts[i]);
        }
        lemma_walk_straight(prior);
        assert(parts.last() == ".."@ ==> parts.len() == 1);
        assert(prior.push(parts.last()) =~= parts);
    }
}

/// A path without detours goes back at most once, at its start, and taking its detours out again
/// changes nothing.
pub proof fn law_normalized_is_straight(path: PathView)
    ensures
        forall|i: int|
            0 <= i < normalized(path).parts.len() && (#[trigger] normalized(path).parts[i])
                == ".."@ ==> i == 0,
        normalized(normalized(path)) == normalized(path),
{
    lemma_walked_straight(path.parts);
    lemma_walk_straight(walked(path.parts));
}

proof fn lemma_walk_on(base: Seq<Seq<char>>, parts: Seq<Seq<char>>)
    requires
        forall|i: int| 0 <= i < parts.len() ==> (#[trigger] parts[i]) != ".."@,
    ensures
        walked(base + parts) == walked(base) + parts,
    decreases parts.len(),
{
    if parts.len() == 0 {
        assert(base + parts =~= base);
        assert(walked(base) + parts =~= walked(base));
    } else {
        let prior = parts.drop_last();
        assert forall|i: int| 0 <= i < prior.len() implies (#[trigger] prior[i]) != ".."@ by {
            assert(prior[i] == parts[i]);
        }
        lemma_walk_on(base, prior);
        assert((base + parts).drop_last() =~= base + prior);
        assert((walked(base) + prior).push(parts.last()) =~= walked(base) + parts);
    }
}

/// A path that only goes on from a base, without going back, stays within the base.
pub proof fn law_child_is_within(base: PathView, parts: Seq<Seq<char>>)
    requires
        forall|i: int| 0 <= i < parts.len() ==> (#[trigger] parts[i]) != ".."@,
    ensures
        within(
            normalized(base),
            normalized(PathView { rooted: base.rooted, parts: base.parts + parts }),
        ),
{
    lemma_walk_on(base.parts, parts);
    let walk = walked(base.parts);
    assert((walk + parts).take(walk.len() as int) =~= walk);
}

/// Being within is passed on: what is within a directory that is within a base is within the
/// base.
pub proof fn law_within_is_transitive(a: PathView, b: PathView, c: PathView)
    requires
        within(a, b),
        within(b, c),
    ensures
        within(a, c),
{
    assert(c.parts.take(a.parts.len() as int) =~= c.parts.take(b.parts.len() as int).take(
        a.parts.len() as int,
    ));
}

/// A path taken apart.
pub struct PathParts {
    pub rooted: bool,
    pub parts: Vec<String>,
}

/// How a path that was taken apart is written.
pub open spec fn path_text(path: PathView) -> Seq<char> {
    if path.rooted {
        "/"@ + join(path.parts, "/"@)
    } else {
        join(path.parts, "/"@)
    }
}

impl PathParts {
    pub fn text(&self) -> (r: String)
        ensures
            r@ == path_text(self@),
    {
        let names = join_texts(&self.parts, "/");
        if self.rooted {
            let mut r = "/".to_owned();
            r.push_str(names.as_str());
            r
        } else {
            names
        }
    }
}

impl View for PathParts {
    type V = PathView;

    open spec fn view(&self) -> PathView {
        PathView { rooted: self.rooted, parts: texts_view(self.parts@) }
    }
}

fn pieces_of(s: &[char]) -> (r: Vec<&[char]>)
    ensures
        slices_view(r@) == pieces(s@),
        r@.len() > 0,
{
    let mut r: Vec<&[char]> = Vec::new();
    let mut rest = s;
    assert(slices_view(r@) + pieces(rest@) =~= pieces(s@));
    loop
        invariant
            slices_view(r@) + pieces(rest@) == pieces(s@),
        decreases rest@.len(),
    {
        let ghost so_far = slices_view(r@);
        proof {
            reveal_strlit("/");
            lemma_split(rest@, "/"@);
        }
        match split_chars(rest, "/") {
            None => {
                r.push(rest);
                assert(slices_view(r@) =~= so_far.push(rest@));
                assert(so_far + seq![rest@] =~= so_far.push(rest@));
                return r;
            },
            Some((head, tail)) => {
                r.push(head);
                assert(slices_view(r@) =~= so_far.push(head@));
                assert(so_far + pieces(rest@) =~= so_far.push(head@) + pieces(tail@));
                rest = tail;
            },
        }
    }
}

fn is_absolute(chars: &[char]) -> (r: bool)
    ensures
        r == absolute(chars@),
{
    chars.len() > 0 && chars[0] == '/'
}

/// Takes a path apart into its parts.
pub fn parts_of_path(path: &str) -> (r: PathParts)
    ensures
        r@ == written(path@),
{
    let chars = chars_of(path);
    let list = pieces_of(chars.as_slice());
    let ghost views = slices_view(list@);
    let dot = chars_of(".");
    let mut parts: Vec<String> = Vec::new();
    let mut i: usize = 0;
    assert(texts_view(parts@) =~= Seq::empty());
    while i < list.len()
        invariant
            i <= list.len(),
            dot@ == "."@,
            views == slices_view(list@),
            texts_view(parts@) == parts_among(views.take(i as int)),
        decreases list.len() - i,
    {
        assert(views.take(i + 1).drop_last() =~= views.take(i as int));
        assert(views[i as int] == list@[i as int]@);
        if list[i].len() > 0 && !chars_equal(list[i], dot.as_slice()) {
            let ghost so_far = texts_view(parts@);
            let part = text_of(list[i]);
            parts.push(part);
            assert(texts_view(parts@) =~= so_far.push(part@));
        }
        i += 1;
    }
    assert(views.take(views.len() as int) =~= views);
    PathParts { rooted: is_absolute(chars.as_slice()), parts }
}

/// Takes a path apart into its components.
pub fn components_of_path(path: &str) -> (r: PathParts)
    ensures
        r@ == components(path@),
{
    let mut r = parts_of_path(path);
    let chars = chars_of(path);
    let list = pieces_of(chars.as_slice());
    assert(slices_view(list@)[0] == pieces(path@)[0]);
    if list.len() > 0 && chars_equal(list[0], chars_of(".").as_slice()) {
        assert(slices_view(list@)[0] == list@[0]@);
        let ghost parts = r@.parts;
        let dot = ".".to_owned();
        r.parts.insert(0, dot);
        assert(r@.parts =~= seq!["."@] + parts);
    }
    r
}

/// A path without detours.
pub fn normalize_parts(taken: &PathParts) -> (r: PathParts)
    ensures
        r@ == normalized(taken@),
{
    let ghost views = texts_view(taken.parts@);
    let mut parts: Vec<String> = Vec::new();
    let mut i: usize = 0;
    assert(texts_view(parts@) =~= Seq::empty());
    while i < taken.parts.len()
        invariant
            i <= taken.parts.len(),
            views == texts_view(taken.parts@),
            texts_view(parts@) == walked(views.take(i as int)),
        decreases taken.parts.len() - i,
    {
        assert(views.take(i + 1).drop_last() =~= views.take(i as int));
        assert(views[i as int] == taken.parts@[i as int]@);
        let ghost so_far = texts_view(parts@);
        if same_text(taken.parts[i].as_str(), "..") && parts.len() > 0 {
            let last = parts.pop();
            assert(texts_view(parts@) =~= so_far.drop_last());
        } else {
            let part = taken.parts[i].clone();
            parts.push(part);
            assert(texts_view(parts@) =~= so_far.push(part@));
        }
        i += 1;
    }
    assert(views.take(views.len() as int) =~= views);
    PathParts { rooted: taken.rooted, parts }
}

/// A path without detours.
pub fn normalize_path_for_check(path: &str) -> (r: PathParts)
    ensures
        r@ == normalized(written(path@)),
{
    let taken = parts_of_path(path);
    normalize_parts(&taken)
}

pub open spec fn opt_str(text: Option<&str>) -> Option<Seq<char>> {
    match text {
        Some(s) => Some(s@),
        None => None,
    }
}

/// The canonical form of a path where it is known, otherwise the path without detours.
pub fn canonical_or_normalized(path: &str, canonical: Option<&str>) -> (r: PathParts)
    ensures
        r@ == resolved(path@, opt_str(canonical)),
{
    match canonical {
        Some(c) => components_of_path(c),
        None => normalize_path_for_check(path),
    }
}

/// Whether `candidate` starts with `base`, part by part.
pub fn starts_with_path(base: &PathParts, candidate: &PathParts) -> (r: bool)
    ensures
        r == within(base@, candidate@),
{
    if base.rooted != candidate.rooted && (base.rooted || base.parts.len() > 0) {
        return false;
    }
    if base.parts.len() > candidate.parts.len() {
        return false;
    }
    let ghost b = base@.parts;
    let ghost c = candidate@.parts;
    let mut i: usize = 0;
    while i < base.parts.len()
        invariant
            i <= base.parts.len() <= candidate.parts.len(),
            b == base@.parts,
            c == candidate@.parts,
            c.take(i as int) == b.take(i as int),
        decreases base.parts.len() - i,
    {
        assert(b[i as int] == base.parts@[i as int]@);
        assert(c[i as int] == candidate.parts@[i as int]@);
        if !same_text(base.parts[i].as_str(), candidate.parts[i].as_str()) {
            assert(c.take(b.len() as int)[i as int] != b[i as int]);
            return false;
        }
        assert(c.take(i + 1) =~= c.take(i as int).push(c[i as int]));
        assert(b.take(i + 1) =~= b.take(i as int).push(b[i as int]));
        i += 1;
    }
    assert(b.take(b.len() as int) =~= b);
    true
}

/// Whether a path lies within a base directory. The canonical forms are given where the file
/// system knows them.
pub fn is_path_within_base(
    base: &str,
    base_canonical: Option<&str>,
    candidate: &str,
    candidate_canonical: Option<&str>,
) -> (r: bool)
    ensures
        r == within(
            resolved(base@, opt_str(base_canonical)),
            resolved(candidate@, opt_str(candidate_canonical)),
        ),
{
    let base_parts = canonical_or_normalized(base, base_canonical);
    let candidate_parts = canonical_or_normalized(candidate, candidate_canonical);
    starts_with_path(&base_parts, &candidate_parts)
}

// ---------------------------------------------------------------------------
// Names of files
// ---------------------------------------------------------------------------

/// The name of the file that a path leads to.
pub open spec fn file_name(path: Seq<char>) -> Option<Seq<char>> {
    let parts = written(path).parts;
    if parts.len() == 0 || parts.last() == ".."@ {
        None
    } else {
        Some(parts.last())
    }
}

/// Where the last character `c` stands.
pub open spec fn last_index(s: Seq<char>, c: char) -> Option<int>
    decreases s.len(),
{
    if s.len() == 0 {
        None
    } else if s.last() == c {
        Some(s.len() - 1)
    } else {
        last_index(s.drop_last(), c)
    }
}

/// What follows the last dot of a name, unless the name starts with it.
pub open spec fn extension_of_name(name: Seq<char>) -> Option<Seq<char>> {
    match last_index(name, '.') {
        Some(i) if i > 0 => Some(name.skip(i + 1)),
        _ => None,
    }
}

pub open spec fn extension(path: Seq<char>) -> Option<Seq<char>> {
    match file_name(path) {
        Some(name) => extension_of_name(name),
        None => None,
    }
}

pub fn last_index_of(s: &[char], c: char) -> (r: Option<usize>)
    ensures
        match r {
            Some(i) => last_index(s@, c) == Some(i as int) && i < s@.len() <= usize::MAX,
            None => last_index(s@, c) is None,
        },
{
    let mut n: usize = s.len();
    assert(s@.take(s@.len() as int) =~= s@);
    while n > 0
        invariant
            n <= s.len(),
            s@.len() <= usize::MAX,
            last_index(s@, c) == last_index(s@.take(n as int), c),
        decreases n,
    {
        assert(s@.take(n as int).drop_last() =~= s@.take(n - 1));
        if s[n - 1] == c {
            return Some(n - 1);
        }
        n -= 1;
    }
    None
}

pub fn file_name_of(path: &str) -> (r: Option<String>)
    ensures
        opt_text(r) == file_name(path@),
{
    let taken = parts_of_path(path);
    let n = taken.parts.len();
    if n == 0 {
        return None;
    }
    assert(taken@.parts.last() == taken.parts@[n - 1]@);
    if same_text(taken.parts[n - 1].as_str(), "..") {
        return None;
    }
    Some(taken.parts[n - 1].clone())
}

/// The extension of the file that a path leads to.
pub fn extension_of(path: &str) -> (r: Option<String>)
    ensures
        opt_text(r) == extension(path@),
{
    match file_name_of(path) {
        Some(name) => {
            let chars = chars_of(name.as_str());
            match last_index_of(chars.as_slice(), '.') {
                Some(i) => if i > 0 {
                    Some(text_of(after(chars.as_slice(), i + 1)))
                } else {
                    None
                },
                None => None,
            }
        },
        None => None,
    }
}

/// What follows the last `c` of a text; the whole text where there is none.
pub open spec fn after_last(s: Seq<char>, c: char) -> Seq<char> {
    match last_index(s, c) {
        Some(i) => s.skip(i + 1),
        None => s,
    }
}

pub fn after_last_of(s: &[char], c: char) -> (r: &[char])
    ensures
        r@ == after_last(s@, c),
{
    match last_index_of(s, c) {
        Some(i) => after(s, i + 1),
        None => s,
    }
}

pub open spec fn with_slashes(path: Seq<char>) -> Seq<char> {
    path.map_values(
        |c: char|
            if c == '\\' {
                '/'
            } else {
                c
            },
    )
}

/// The names of configuration files.
pub open spec fn config_name(name: Seq<char>) -> bool {
    ||| name == "config.json5"@
    ||| name == "config.json"@
    ||| name == "config.toml"@
    ||| name == "config.yaml"@
    ||| name == "config.yml"@
}

pub fn is_config_name(name: &str) -> (r: bool)
    ensures
        r == config_name(name@),
{
    same_text(name, "config.json5") || same_text(name, "config.json") || same_text(
        name,
        "config.toml",
    ) || same_text(name, "config.yaml") || same_text(name, "config.yml")
}

/// The path leads to a file that holds the configuration.
pub open spec fn sensitive(path: Seq<char>) -> bool {
    config_name(lowercase(after_last(with_slashes(path), '/')))
}

/// Whether a path leads to a configuration file, whose content may be secret.
pub fn is_sensitive_filename(path: &str) -> (r: bool)
    ensures
        r == sensitive(path@),
{
    let chars = chars_of(path);
    let mut slashed: Vec<char> = Vec::new();
    let mut i: usize = 0;
    while i < chars.len()
        invariant
            i <= chars.len(),
            slashed@ == with_slashes(chars@.take(i as int)),
        decreases chars.len() - i,
    {
        slashed.push(
            if chars[i] == '\\' {
                '/'
            } else {
                chars[i]
            },
        );
        assert(slashed@ =~= with_slashes(chars@.take(i + 1)));
        i += 1;
    }
    assert(chars@.take(chars@.len() as int) =~= chars@);
    let name = text_of(after_last_of(slashed.as_slice(), '/'));
    is_config_name(name.to_lowercase().as_str())
}

// ---------------------------------------------------------------------------
// Joining
// ---------------------------------------------------------------------------

/// A path below a base; an absolute path stands for itself.
pub open spec fn joined(base: Seq<char>, rest: Seq<char>) -> Seq<char> {
    if absolute(rest) || base.len() == 0 {
        rest
    } else if base.last() == '/' {
        base + rest
    } else {
        base + "/"@ + rest
    }
}

pub fn join_path(base: &str, rest: &str) -> (r: String)
    ensures
        r@ == joined(base@, rest@),
{
    let chars = chars_of(rest);
    let start = chars_of(base);
    if is_absolute(chars.as_slice()) || start.len() == 0 {
        return rest.to_owned();
    }
    let mut r = base.to_owned();
    if start[start.len() - 1] != '/' {
        r.push_str("/");
    }
    r.push_str(rest);
    r
}

/// Where a path that a tool was given leads: `~/` is the home directory, other relative paths
/// start at the workspace.
pub open spec fn tool_path(path: Seq<char>, home: Option<Seq<char>>, workspace: Seq<char>) -> Seq<
    char,
> {
    match crate::text::strip_prefix(path, "~/"@) {
        Some(rest) => match home {
            Some(h) => joined(h, rest),
            None => path,
        },
        None => if absolute(path) {
            path
        } else {
            joined(workspace, path)
        },
    }
}

pub fn resolve_path(path: &str, home: Option<&str>, workspace: &str) -> (r: String)
    ensures
        r@ == tool_path(path@, opt_str(home), workspace@),
{
    let chars = chars_of(path);
    match strip_prefix_chars(chars.as_slice(), "~/") {
        Some(rest) => match home {
            Some(h) => join_path(h, text_of(rest).as_str()),
            None => path.to_owned(),
        },
        None => if is_absolute(chars.as_slice()) {
            path.to_owned()
        } else {
            join_path(workspace, path)
        },
    }
}

} // verus!
