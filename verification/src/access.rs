//! Which files a tool may touch.

use crate::paths::{
    canonical_or_normalized, components, components_of_path, normalize_parts, normalized,
    parts_of_path, path_text, resolved, starts_with_path, walked, within, written, PathParts,
    PathView,
};
use crate::text::{chars_of, opt_text, same_text, text_of, texts_view, trim, trim_chars};
use crate::value::{group_json_view, items_view, Json, JsonView};
use vstd::prelude::*;

verus! {

broadcast use group_json_view;

// ---------------------------------------------------------------------------
// The paths of a call
// ---------------------------------------------------------------------------

pub open spec fn one_path(args: JsonView, key: Seq<char>) -> Seq<Seq<char>> {
    match args.str_at(key) {
        Some(p) => seq![p],
        None => Seq::empty(),
    }
}

pub open spec fn strings_among(items: Seq<JsonView>) -> Seq<Seq<char>>
    decreases items.len(),
{
    if items.len() == 0 {
        Seq::empty()
    } else {
        match items.last() {
            JsonView::Str(s) => strings_among(items.drop_last()).push(s),
            _ => strings_among(items.drop_last()),
        }
    }
}

pub open spec fn many_paths(args: JsonView, key: Seq<char>) -> Seq<Seq<char>> {
    match args.get(key) {
        Some(JsonView::Array(items)) => strings_among(items),
        _ => Seq::empty(),
    }
}

/// A tool that reads or writes one file or directory.
pub open spec fn plain_file_tool(tool: Seq<char>) -> bool {
    tool == "read_file"@ || tool == "write_file"@ || tool == "edit_file"@ || tool == "list_dir"@
}

/// A tool that reads files and writes others.
pub open spec fn converting_tool(tool: Seq<char>) -> bool {
    tool == "file_ops"@ || tool == "data_process"@ || tool == "audio_transcribe"@ || tool
        == "chart_generate"@ || tool == "office_write"@ || tool == "video_process"@ || tool
        == "health_api"@ || tool == "encrypt"@
}

/// The paths that the arguments of a call name.
pub open spec fn call_paths(tool: Seq<char>, args: JsonView) -> Seq<Seq<char>> {
    if plain_file_tool(tool) {
        one_path(args, "path"@)
    } else if converting_tool(tool) {
        one_path(args, "path"@) + one_path(args, "destination"@) + one_path(args, "output_path"@)
            + many_paths(args, "paths"@)
    } else if tool == "message"@ {
        many_paths(args, "media"@)
    } else if tool == "browse"@ {
        one_path(args, "output_path"@)
    } else if tool == "exec"@ {
        one_path(args, "working_dir"@)
    } else {
        Seq::empty()
    }
}

fn add_path(paths: &mut Vec<String>, args: &Json, key: &str)
    ensures
        texts_view(final(paths)@) == texts_view(old(paths)@) + one_path(args@, key@),
{
    let ghost before = texts_view(paths@);
    match args.str_at(key) {
        Some(p) => {
            let path = p.to_owned();
            paths.push(path);
            assert(texts_view(paths@) =~= before + seq![path@]);
        },
        None => {
            assert(texts_view(paths@) =~= before + Seq::empty());
        },
    }
}

fn add_paths(paths: &mut Vec<String>, args: &Json, key: &str)
    ensures
        texts_view(final(paths)@) == texts_view(old(paths)@) + many_paths(args@, key@),
{
    let ghost before = texts_view(paths@);
    if let Some(found) = args.get(key) {
        if let Json::Array(items) = found {
            let ghost views = items_view(items@);
            let mut i: usize = 0;
            assert(before + strings_among(views.take(0)) =~= before);
            while i < items.len()
                invariant
                    i <= items.len(),
                    views == items_view(items@),
                    texts_view(paths@) == before + strings_among(views.take(i as int)),
                decreases items.len() - i,
            {
                assert(views.take(i + 1).drop_last() =~= views.take(i as int));
                assert(views[i as int] == items@[i as int]@);
                if let Json::Str(s) = &items[i] {
                    let ghost so_far = texts_view(paths@);
                    let path = s.clone();
                    paths.push(path);
                    assert(texts_view(paths@) =~= so_far.push(path@));
                    assert(texts_view(paths@) =~= before + strings_among(views.take(i + 1)));
                }
                i += 1;
            }
            assert(views.take(views.len() as int) =~= views);
            return;
        }
    }
    assert(texts_view(paths@) =~= before + Seq::empty());
}

fn is_plain_file_tool(tool: &str) -> (r: bool)
    ensures
        r == plain_file_tool(tool@),
{
    same_text(tool, "read_file") || same_text(tool, "write_file") || same_text(tool, "edit_file")
        || same_text(tool, "list_dir")
}

fn is_converting_tool(tool: &str) -> (r: bool)
    ensures
        r == converting_tool(tool@),
{
    same_text(tool, "file_ops") || same_text(tool, "data_process") || same_text(
        tool,
        "audio_transcribe",
    ) || same_text(tool, "chart_generate") || same_text(tool, "office_write") || same_text(
        tool,
        "video_process",
    ) || same_text(tool, "health_api") || same_text(tool, "encrypt")
}

pub fn extract_paths(tool_name: &str, args: &Json) -> (r: Vec<String>)
    ensures
        texts_view(r@) == call_paths(tool_name@, args@),
{
    let mut paths: Vec<String> = Vec::new();
    assert(texts_view(paths@) =~= Seq::empty());
    if is_plain_file_tool(tool_name) {
        add_path(&mut paths, args, "path");
    } else if is_converting_tool(tool_name) {
        add_path(&mut paths, args, "path");
        assert(texts_view(paths@) =~= one_path(args@, "path"@));
        add_path(&mut paths, args, "destination");
        add_path(&mut paths, args, "output_path");
        add_paths(&mut paths, args, "paths");
    } else if same_text(tool_name, "message") {
        add_paths(&mut paths, args, "media");
    } else if same_text(tool_name, "browse") {
        add_path(&mut paths, args, "output_path");
    } else if same_text(tool_name, "exec") {
        add_path(&mut paths, args, "working_dir");
    }
    assert(texts_view(paths@) =~= call_paths(tool_name@, args@));
    paths
}

// ---------------------------------------------------------------------------
// Verdicts
// ---------------------------------------------------------------------------

/// What the rules for paths say of a path.
#[derive(Clone, Copy, PartialEq, Eq, Structural)]
pub enum PolicyAction {
    Deny,
    Allow,
    Confirm,
}

/// What is known of a path of a call: how the call names it, where that leads, the canonical form
/// of that place and of its directory where the file system knows them, and what the rules say.
pub struct PathFacts {
    pub raw: String,
    pub resolved: String,
    pub canonical: Option<String>,
    pub is_dir: bool,
    pub directory_canonical: Option<String>,
    pub action: PolicyAction,
}

pub struct FactsView {
    pub raw: Seq<char>,
    pub resolved: Seq<char>,
    pub canonical: Option<Seq<char>>,
    pub is_dir: bool,
    pub directory_canonical: Option<Seq<char>>,
    pub action: PolicyAction,
}

impl View for PathFacts {
    type V = FactsView;

    open spec fn view(&self) -> FactsView {
        FactsView {
            raw: self.raw@,
            resolved: self.resolved@,
            canonical: opt_text(self.canonical),
            is_dir: self.is_dir,
            directory_canonical: opt_text(self.directory_canonical),
            action: self.action,
        }
    }
}

pub open spec fn facts_view(facts: Seq<PathFacts>) -> Seq<FactsView> {
    facts.map_values(|f: PathFacts| f@)
}

pub open spec fn parts_views(dirs: Seq<PathParts>) -> Seq<PathView> {
    dirs.map_values(|d: PathParts| d@)
}

/// Where a path leads.
pub open spec fn place(fact: FactsView) -> PathView {
    resolved(fact.resolved, fact.canonical)
}

/// Some authorized directory holds the place.
pub open spec fn authorized(dirs: Seq<PathView>, at: PathView) -> bool {
    exists|i: int| 0 <= i < dirs.len() && within(#[trigger] dirs[i], at)
}

/// The directory that is authorized together with a path: the path itself where it is a
/// directory, the one that it lies in otherwise.
pub open spec fn directory_of(path: PathView, is_dir: bool) -> PathView {
    if is_dir || path.parts.len() == 0 {
        path
    } else {
        PathView { rooted: path.rooted, parts: path.parts.drop_last() }
    }
}

pub open spec fn directory(fact: FactsView) -> PathView {
    match fact.directory_canonical {
        Some(c) => components(c),
        None => normalized(directory_of(written(fact.resolved), fact.is_dir)),
    }
}

/// The directories with one more, where it is new.
pub open spec fn with_directory(dirs: Seq<PathView>, dir: PathView) -> Seq<PathView> {
    if dirs.contains(dir) {
        dirs
    } else {
        dirs.push(dir)
    }
}

/// What is decided of the paths of a call so far: the authorized directories, whether a path was
/// denied, and the positions of those that the user has to confirm.
pub struct Sifted {
    pub dirs: Seq<PathView>,
    pub denied: bool,
    pub asked: Seq<int>,
}

/// Sifts the paths one after the other. A path in the workspace or in an authorized directory is
/// free; of another one the rules decide, and the directory of a path that they allow is
/// authorized where `cache` is set.
pub open spec fn sift(
    dirs: Seq<PathView>,
    workspace: PathView,
    facts: Seq<FactsView>,
    cache: bool,
) -> Sifted
    decreases facts.len(),
{
    if facts.len() == 0 {
        Sifted { dirs, denied: false, asked: Seq::empty() }
    } else {
        let so_far = sift(dirs, workspace, facts.drop_last(), cache);
        let fact = facts.last();
        if within(workspace, place(fact)) || authorized(so_far.dirs, place(fact)) {
            so_far
        } else {
            match fact.action {
                PolicyAction::Deny => Sifted { denied: true, ..so_far },
                PolicyAction::Allow => if cache {
                    Sifted { dirs: with_directory(so_far.dirs, directory(fact)), ..so_far }
                } else {
                    so_far
                },
                PolicyAction::Confirm => Sifted {
                    asked: so_far.asked.push(facts.len() - 1),
                    ..so_far
                },
            }
        }
    }
}

/// Whether a call may touch its paths.
pub enum Access {
    Granted,
    Refused,
    /// The user has to confirm the paths at these positions.
    Ask(Vec<usize>),
}

pub open spec fn positions(list: Seq<usize>) -> Seq<int> {
    list.map_values(|i: usize| i as int)
}

/// One path that is denied has the whole call refused; without one the call waits for what the
/// user has to confirm.
pub open spec fn decides(access: Access, sifted: Sifted) -> bool {
    if sifted.denied {
        access is Refused
    } else if sifted.asked.len() == 0 {
        access is Granted
    } else {
        access is Ask && positions(access->Ask_0@) == sifted.asked
    }
}

/// The directories with those of the confirmed paths.
pub open spec fn with_confirmed(
    dirs: Seq<PathView>,
    facts: Seq<FactsView>,
    asked: Seq<int>,
) -> Seq<PathView>
    decreases asked.len(),
{
    if asked.len() == 0 {
        dirs
    } else {
        let so_far = with_confirmed(dirs, facts, asked.drop_last());
        if 0 <= asked.last() < facts.len() {
            with_directory(so_far, directory(facts[asked.last()]))
        } else {
            so_far
        }
    }
}

fn borrowed(text: &Option<String>) -> (r: Option<&str>)
    ensures
        crate::paths::opt_str(r) == opt_text(*text),
{
    match text {
        Some(s) => Some(s.as_str()),
        None => None,
    }
}

fn same_path(a: &PathParts, b: &PathParts) -> (r: bool)
    ensures
        r == (a@ == b@),
{
    if a.rooted != b.rooted || a.parts.len() != b.parts.len() {
        assert(a@.parts.len() == a.parts@.len() && b@.parts.len() == b.parts@.len());
        return false;
    }
    let mut i: usize = 0;
    while i < a.parts.len()
        invariant
            i <= a.parts.len(),
            a.parts.len() == b.parts.len(),
            forall|j: int| 0 <= j < i ==> a@.parts[j] == b@.parts[j],
        decreases a.parts.len() - i,
    {
        assert(a@.parts[i as int] == a.parts@[i as int]@);
        assert(b@.parts[i as int] == b.parts@[i as int]@);
        if !same_text(a.parts[i].as_str(), b.parts[i].as_str()) {
            return false;
        }
        i += 1;
    }
    assert(a@.parts =~= b@.parts);
    true
}

/// The directories that the user has authorized in this session.
pub struct AuthorizedDirs {
    pub dirs: Vec<PathParts>,
}

impl AuthorizedDirs {
    pub open spec fn views(&self) -> Seq<PathView> {
        parts_views(self.dirs@)
    }

    pub fn new() -> (r: Self)
        ensures
            r.views() == Seq::<PathView>::empty(),
    {
        let r = AuthorizedDirs { dirs: Vec::new() };
        assert(r.views() =~= Seq::empty());
        r
    }

    /// Whether a place lies in an authorized directory.
    pub fn is_path_authorized(&self, at: &PathParts) -> (r: bool)
        ensures
            r == authorized(self.views(), at@),
    {
        let ghost views = self.views();
        let mut i: usize = 0;
        while i < self.dirs.len()
            invariant
                i <= self.dirs.len(),
                views == self.views(),
                forall|j: int| 0 <= j < i ==> !within(#[trigger] views[j], at@),
            decreases self.dirs.len() - i,
        {
            assert(views[i as int] == self.dirs@[i as int]@);
            if starts_with_path(&self.dirs[i], at) {
                return true;
            }
            i += 1;
        }
        false
    }

    /// Authorizes the directory of a path.
    pub fn authorize_directory(&mut self, fact: &PathFacts)
        ensures
            final(self).views() == with_directory(old(self).views(), directory(fact@)),
    {
        let dir = match &fact.directory_canonical {
            Some(c) => components_of_path(c.as_str()),
            None => {
                let mut path = parts_of_path(fact.resolved.as_str());
                if !fact.is_dir && path.parts.len() > 0 {
                    let ghost before = path@.parts;
                    let last = path.parts.pop();
                    assert(path@.parts =~= before.drop_last());
                }
                normalize_parts(&path)
            },
        };
        let ghost before = self.views();
        let mut i: usize = 0;
        while i < self.dirs.len()
            invariant
                i <= self.dirs.len(),
                self.dirs@ == old(self).dirs@,
                before == self.views(),
                dir@ == directory(fact@),
                forall|j: int| 0 <= j < i ==> before[j] != dir@,
            decreases self.dirs.len() - i,
        {
            assert(before[i as int] == self.dirs@[i as int]@);
            if same_path(&self.dirs[i], &dir) {
                assert(before.contains(dir@));
                return;
            }
            i += 1;
        }
        self.dirs.push(dir);
        assert(self.views() =~= before.push(dir@));
    }

    /// Brings the directories up to date with the file system: `canonical` holds the canonical
    /// form of each where it is known.
    pub fn refresh(&mut self, canonical: &Vec<Option<String>>)
        ensures
            final(self).views().len() == old(self).views().len(),
            forall|i: int|
                0 <= i < old(self).views().len() ==> #[trigger] final(self).views()[i] == (
                match (if i < canonical@.len() {
                    opt_text(canonical@[i])
                } else {
                    None
                }) {
                    Some(c) => components(c),
                    None => normalized(old(self).views()[i]),
                }),
    {
        let ghost before = self.views();
        let mut dirs: Vec<PathParts> = Vec::new();
        let mut i: usize = 0;
        while i < self.dirs.len()
            invariant
                i <= self.dirs.len(),
                self.dirs@ == old(self).dirs@,
                before == old(self).views(),
                dirs@.len() == i,
                forall|j: int|
                    0 <= j < i ==> #[trigger] dirs@[j]@ == (match (if j < canonical@.len() {
                        opt_text(canonical@[j])
                    } else {
                        None
                    }) {
                        Some(c) => components(c),
                        None => normalized(before[j]),
                    }),
            decreases self.dirs.len() - i,
        {
            assert(before[i as int] == self.dirs@[i as int]@);
            let known: Option<&str> = if i < canonical.len() {
                borrowed(&canonical[i])
            } else {
                None
            };
            let dir = match known {
                Some(c) => components_of_path(c),
                None => normalize_parts(&self.dirs[i]),
            };
            dirs.push(dir);
            i += 1;
        }
        self.dirs = dirs;
    }

    /// How the directories are written.
    pub fn texts(&self) -> (r: Vec<String>)
        ensures
            texts_view(r@) == self.views().map_values(|d: PathView| path_text(d)),
    {
        let ghost all = self.views().map_values(|d: PathView| path_text(d));
        let mut r: Vec<String> = Vec::new();
        let mut i: usize = 0;
        while i < self.dirs.len()
            invariant
                i <= self.dirs.len(),
                all == self.views().map_values(|d: PathView| path_text(d)),
                texts_view(r@) == all.take(i as int),
            decreases self.dirs.len() - i,
        {
            let ghost so_far = texts_view(r@);
            let text = self.dirs[i].text();
            r.push(text);
            assert(texts_view(r@) =~= so_far.push(text@));
            assert(texts_view(r@) =~= all.take(i + 1));
            i += 1;
        }
        assert(texts_view(r@) =~= all);
        r
    }

    /// Decides whether a call may touch its paths.
    pub fn check_path_permission(
        &mut self,
        workspace: &PathParts,
        facts: &Vec<PathFacts>,
        cache_confirmed_dirs: bool,
    ) -> (r: Access)
        ensures
            ({
                let sifted = sift(
                    old(self).views(),
                    workspace@,
                    facts_view(facts@),
                    cache_confirmed_dirs,
                );
                decides(r, sifted) && final(self).views() == sifted.dirs
            }),
    {
        let ghost start = self.views();
        let ghost views = facts_view(facts@);
        let mut denied = false;
        let mut asked: Vec<usize> = Vec::new();
        let mut i: usize = 0;
        assert(positions(asked@) =~= Seq::empty());
        assert(views.take(0) =~= Seq::empty());
        while i < facts.len()
            invariant
                i <= facts.len(),
                views == facts_view(facts@),
                start == old(self).views(),
                ({
                    let sifted = sift(
                        start,
                        workspace@,
                        views.take(i as int),
                        cache_confirmed_dirs,
                    );
                    &&& self.views() == sifted.dirs
                    &&& denied == sifted.denied
                    &&& positions(asked@) == sifted.asked
                }),
            decreases facts.len() - i,
        {
            assert(views.take(i + 1).drop_last() =~= views.take(i as int));
            let fact = &facts[i];
            assert(views[i as int] == fact@);
            let at = canonical_or_normalized(fact.resolved.as_str(), borrowed(&fact.canonical));
            if !(starts_with_path(workspace, &at) || self.is_path_authorized(&at)) {
                match fact.action {
                    PolicyAction::Deny => {
                        denied = true;
                    },
                    PolicyAction::Allow => {
                        if cache_confirmed_dirs {
                            self.authorize_directory(fact);
                        }
                    },
                    PolicyAction::Confirm => {
                        let ghost so_far = positions(asked@);
                        asked.push(i);
                        assert(positions(asked@) =~= so_far.push(i as int));
                    },
                }
            }
            i += 1;
        }
        assert(views.take(views.len() as int) =~= views);
        if denied {
            Access::Refused
        } else if asked.len() == 0 {
            Access::Granted
        } else {
            Access::Ask(asked)
        }
    }

    /// Takes the user's answer. Where it is yes, and answers are remembered, the directories of
    /// the paths that were asked about are authorized.
    pub fn confirm(
        &mut self,
        facts: &Vec<PathFacts>,
        asked: &Vec<usize>,
        allowed: bool,
        cache_confirmed_dirs: bool,
    ) -> (r: bool)
        ensures
            r == allowed,
            final(self).views() == (if allowed && cache_confirmed_dirs {
                with_confirmed(old(self).views(), facts_view(facts@), positions(asked@))
            } else {
                old(self).views()
            }),
    {
        if allowed && cache_confirmed_dirs {
            let ghost start = self.views();
            let ghost views = facts_view(facts@);
            let ghost at = positions(asked@);
            let mut i: usize = 0;
            while i < asked.len()
                invariant
                    i <= asked.len(),
                    views == facts_view(facts@),
                    at == positions(asked@),
                    self.views() == with_confirmed(start, views, at.take(i as int)),
                decreases asked.len() - i,
            {
                assert(at.take(i + 1).drop_last() =~= at.take(i as int));
                assert(at[i as int] == asked@[i as int] as int);
                if asked[i] < facts.len() {
                    assert(views[at[i as int]] == facts@[asked@[i as int] as int]@);
                    self.authorize_directory(&facts[asked[i]]);
                }
                i += 1;
            }
            assert(at.take(at.len() as int) =~= at);
        }
        allowed
    }
}

pub open spec fn raw_among(facts: Seq<FactsView>, asked: Seq<int>) -> Seq<Seq<char>>
    decreases asked.len(),
{
    if asked.len() == 0 {
        Seq::empty()
    } else if 0 <= asked.last() < facts.len() {
        raw_among(facts, asked.drop_last()).push(facts[asked.last()].raw)
    } else {
        raw_among(facts, asked.drop_last())
    }
}

/// The paths that the user is asked about, as the call names them.
pub fn asked_paths(facts: &Vec<PathFacts>, asked: &Vec<usize>) -> (r: Vec<String>)
    ensures
        texts_view(r@) == raw_among(facts_view(facts@), positions(asked@)),
{
    let ghost views = facts_view(facts@);
    let ghost at = positions(asked@);
    let mut r: Vec<String> = Vec::new();
    let mut i: usize = 0;
    assert(texts_view(r@) =~= Seq::empty());
    while i < asked.len()
        invariant
            i <= asked.len(),
            views == facts_view(facts@),
            at == positions(asked@),
            texts_view(r@) == raw_among(views, at.take(i as int)),
        decreases asked.len() - i,
    {
        assert(at.take(i + 1).drop_last() =~= at.take(i as int));
        assert(at[i as int] == asked@[i as int] as int);
        if asked[i] < facts.len() {
            assert(views[at[i as int]] == facts@[asked@[i as int] as int]@);
            let ghost so_far = texts_view(r@);
            let raw = facts[asked[i]].raw.clone();
            r.push(raw);
            assert(texts_view(r@) =~= so_far.push(raw@));
        }
        i += 1;
    }
    assert(at.take(at.len() as int) =~= at);
    r
}

// ---------------------------------------------------------------------------
// Laws
// ---------------------------------------------------------------------------

/// A call whose paths all lie in the workspace is granted, and authorizes nothing.
pub proof fn law_workspace_is_free(
    dirs: Seq<PathView>,
    workspace: PathView,
    facts: Seq<FactsView>,
    cache: bool,
)
    requires
        forall|i: int| 0 <= i < facts.len() ==> within(workspace, place(#[trigger] facts[i])),
    ensures
        sift(dirs, workspace, facts, cache) == (Sifted {
            dirs,
            denied: false,
            asked: Seq::empty(),
        }),
    decreases facts.len(),
{
    if facts.len() > 0 {
        let prior = facts.drop_last();
        assert forall|i: int| 0 <= i < prior.len() implies within(
            workspace,
            place(#[trigger] prior[i]),
        ) by {
            assert(prior[i] == facts[i]);
        }
        law_workspace_is_free(dirs, workspace, prior, cache);
        assert(facts[facts.len() - 1] == facts.last());
    }
}

/// Authorized directories stay authorized, whatever paths are sifted.
pub proof fn law_authorization_stays(
    dirs: Seq<PathView>,
    workspace: PathView,
    facts: Seq<FactsView>,
    cache: bool,
    at: PathView,
)
    requires
        authorized(dirs, at),
    ensures
        authorized(sift(dirs, workspace, facts, cache).dirs, at),
    decreases facts.len(),
{
    if facts.len() > 0 {
        law_authorization_stays(dirs, workspace, facts.drop_last(), cache, at);
        let so_far = sift(dirs, workspace, facts.drop_last(), cache).dirs;
        let i = choose|i: int| 0 <= i < so_far.len() && within(#[trigger] so_far[i], at);
        let now = sift(dirs, workspace, facts, cache).dirs;
        assert(now[i] == so_far[i]);
    }
}

/// A path that the rules deny, outside the workspace and outside every directory that is
/// authorized by then, has the whole call refused, whatever the other paths are.
pub proof fn law_denied_path_refuses(
    dirs: Seq<PathView>,
    workspace: PathView,
    facts: Seq<FactsView>,
    cache: bool,
    k: int,
)
    requires
        0 <= k < facts.len(),
        facts[k].action == PolicyAction::Deny,
        !within(workspace, place(facts[k])),
        !authorized(sift(dirs, workspace, facts.take(k), cache).dirs, place(facts[k])),
    ensures
        sift(dirs, workspace, facts, cache).denied,
    decreases facts.len(),
{
    if k == facts.len() - 1 {
        assert(facts.drop_last() =~= facts.take(k));
    } else {
        assert(facts.drop_last().take(k) =~= facts.take(k));
        law_denied_path_refuses(dirs, workspace, facts.drop_last(), cache, k);
    }
}

/// What lies in the directory that was authorized with a path is authorized from then on; the
/// path itself is, where it goes on from its directory.
pub proof fn law_confirmed_path_is_authorized(dirs: Seq<PathView>, fact: FactsView, at: PathView)
    requires
        within(directory(fact), at) || (at == place(fact) && fact.canonical is None
            && fact.directory_canonical is None && (fact.is_dir || written(
            fact.resolved,
        ).parts.len() == 0 || written(fact.resolved).parts.last() != ".."@)),
    ensures
        authorized(with_directory(dirs, directory(fact)), at),
{
    let dir = directory(fact);
    let all = with_directory(dirs, dir);
    let k = if dirs.contains(dir) {
        choose|k: int| 0 <= k < dirs.len() && dirs[k] == dir
    } else {
        dirs.len() as int
    };
    assert(all[k] == dir);
    if !within(dir, at) {
        let path = written(fact.resolved);
        if fact.is_dir || path.parts.len() == 0 {
            assert(at.parts.take(dir.parts.len() as int) =~= dir.parts);
        } else {
            assert(walked(path.parts) == walked(path.parts.drop_last()).push(path.parts.last()));
            assert(at.parts.take(dir.parts.len() as int) =~= dir.parts);
        }
    }
}

// ---------------------------------------------------------------------------
// The rules for paths
// ---------------------------------------------------------------------------

/// Where the rules for paths come from.
pub enum PolicySource {
    /// There is no file: whatever is not free has to be confirmed.
    SafeDefault,
    /// The file of the program.
    OwnFile,
    /// The file that the settings name.
    File(String),
}

/// The rules come from the file that the settings name, or from the program's own where they name
/// none; from no file where they are switched off.
pub fn policy_source(enabled: bool, policy_file: &str) -> (r: PolicySource)
    ensures
        match r {
            PolicySource::SafeDefault => !enabled,
            PolicySource::OwnFile => enabled && trim(policy_file@).len() == 0,
            PolicySource::File(path) => enabled && trim(policy_file@).len() > 0 && path@ == trim(
                policy_file@,
            ),
        },
{
    if !enabled {
        return PolicySource::SafeDefault;
    }
    let chars = chars_of(policy_file);
    let path = text_of(trim_chars(chars.as_slice()));
    if path.as_str().is_empty() {
        PolicySource::OwnFile
    } else {
        PolicySource::File(path)
    }
}

} // verus!
