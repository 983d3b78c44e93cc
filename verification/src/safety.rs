//! What must not run without a confirmation.


use crate::text::{
    chars_of, chars_start_with, contains, has_text, lowercase, slices_view, starts_with, text_of,
    texts_view, trim, trim_chars, words, words_of,
};
use vstd::prelude::*;

verus! {

/// Whether `regex::Regex::new` takes the pattern and the expression matches the text.
pub uninterp spec fn regex_match(pattern: Seq<char>, text: Seq<char>) -> bool;

/// The texts of a group in all matches of a pattern, empty where the group took no part; nothing
/// where `regex::Regex::new` does not take the pattern.
pub uninterp spec fn regex_groups(pattern: Seq<char>, group: nat, text: Seq<char>) -> Seq<
    Seq<char>,
>;

/// Calls `regex::Regex::new` and `Regex::is_match`: whether the pattern is valid and matches
/// somewhere in the text.
#[verifier::external_body]
pub(crate) fn matches_regex(pattern: &str, text: &str) -> (r: bool)
    ensures
        r == regex_match(pattern@, text@),
{
    regex::Regex::new(pattern).map_or(false, |re| re.is_match(text))
}

/// Calls `regex::Regex::new` and `Regex::captures_iter` and takes one group of each match.
#[verifier::external_body]
pub(crate) fn group_texts(pattern: &str, group: usize, text: &str) -> (r: Vec<String>)
    ensures
        texts_view(r@) == regex_groups(pattern@, group as nat, text@),
{
    regex::Regex::new(pattern).map_or(Vec::new(), |re| {
        re.captures_iter(text)
            .map(|c| c.get(group).map_or(String::new(), |m| m.as_str().to_string()))
            .collect()
    })
}

// ---------------------------------------------------------------------------
// Commands
// ---------------------------------------------------------------------------

/// Patterns of commands that delete files.
pub open spec fn deleting_patterns() -> Seq<Seq<char>> {
    seq![
        "(^|[;&|]\\s*|\\b(?:sudo|env)\\s+)(?:rm|trash|unlink)\\b"@,
        "(^|[;&|]\\s*|\\b(?:sudo|env)\\s+)rmdir\\b"@,
        "\\bfind\\b[\\s\\S]*\\s-delete\\b"@,
        "\\bfind\\b[\\s\\S]*\\s-exec\\s+rm\\b"@,
        "\\bsh\\s+-c\\s+['\"][^'\"]*\\brm\\b"@,
        "\\bbash\\s+-c\\s+['\"][^'\"]*\\brm\\b"@,
        "\\bzsh\\s+-c\\s+['\"][^'\"]*\\brm\\b"@,
        "\\bpython(?:3)?\\b[\\s\\S]*\\b(?:shutil\\.rmtree|os\\.remove|os\\.unlink|os\\.rmdir)\\b"@,
        "\\bperl\\b[\\s\\S]*\\bunlink\\b"@,
    ]
}

pub const RM_PATTERN: &'static str = "(^|[;&|]\\s*|\\b(?:sudo|env)\\s+)rm\\b([^;&|]*)";

pub open spec fn any_pattern(patterns: Seq<Seq<char>>, text: Seq<char>) -> bool {
    exists|i: int| 0 <= i < patterns.len() && regex_match(#[trigger] patterns[i], text)
}

/// What stands behind `rm` names a target, and forces or recurses or leaves the directory.
pub open spec fn risky_removal(suffix: Seq<char>) -> bool {
    let recursive = contains(suffix, " -r"@) || contains(suffix, " -rf"@) || contains(
        suffix,
        " -fr"@,
    ) || starts_with(suffix, "-r"@) || starts_with(suffix, "-rf"@) || starts_with(suffix, "-fr"@);
    let force = contains(suffix, " -f"@) || contains(suffix, " -rf"@) || contains(suffix, " -fr"@)
        || starts_with(suffix, "-f"@) || starts_with(suffix, "-rf"@) || starts_with(suffix, "-fr"@);
    has_target(suffix) && (recursive || force || contains(suffix, "../"@))
}

/// One of the words is no option.
pub open spec fn has_target(suffix: Seq<char>) -> bool {
    exists|i: int|
        0 <= i < words(suffix).len() && !starts_with(#[trigger] words(suffix)[i], "-"@)
            && words(suffix)[i].len() > 0
}

/// The command stops processes or services.
pub open spec fn stops_processes(c: Seq<char>) -> bool {
    ||| contains(c, "kill "@)
    ||| contains(c, "pkill"@)
    ||| contains(c, "killall"@)
    ||| contains(c, "taskkill"@)
    ||| contains(c, "systemctl stop"@)
    ||| contains(c, "service stop"@)
    ||| contains(c, "launchctl bootout"@)
    ||| contains(c, "launchctl kill"@)
}

/// A command, in lower case and trimmed, is dangerous where it matches a deleting pattern, or
/// one of the `removals` in it is risky, or it stops processes.
pub open spec fn dangerous(c: Seq<char>, deletes: bool, removals: Seq<Seq<char>>) -> bool {
    c.len() > 0 && (deletes || (exists|i: int|
        0 <= i < removals.len() && risky_removal(#[trigger] removals[i])) || stops_processes(c))
}

/// What is looked at in a command: its text in lower case, trimmed.
pub open spec fn plain_command(command: Seq<char>) -> Seq<char> {
    trim(lowercase(command))
}

fn starts_text(text: &[char], pat: &str) -> (r: bool)
    ensures
        r == starts_with(text@, pat@),
{
    let p = chars_of(pat);
    chars_start_with(text, p.as_slice())
}

fn has_target_of(chars: &[char]) -> (r: bool)
    ensures
        r == has_target(chars@),
{
    let list = words_of(chars);
    let ghost views = slices_view(list@);
    let mut i: usize = 0;
    while i < list.len()
        invariant
            i <= list.len(),
            views == slices_view(list@),
            views == words(chars@),
            forall|j: int|
                0 <= j < i ==> starts_with(#[trigger] views[j], "-"@) || views[j].len() == 0,
        decreases list.len() - i,
    {
        assert(views[i as int] == list@[i as int]@);
        if !starts_text(list[i], "-") && list[i].len() > 0 {
            assert(!starts_with(words(chars@)[i as int], "-"@));
            return true;
        }
        i += 1;
    }
    false
}

/// Whether what stands behind `rm` makes the removal risky.
pub fn is_risky_removal(suffix: &str) -> (r: bool)
    ensures
        r == risky_removal(suffix@),
{
    let chars = chars_of(suffix);
    let s = chars.as_slice();
    let recursive = has_text(suffix, " -r") || has_text(suffix, " -rf") || has_text(suffix, " -fr")
        || starts_text(s, "-r") || starts_text(s, "-rf") || starts_text(s, "-fr");
    let force = has_text(suffix, " -f") || has_text(suffix, " -rf") || has_text(suffix, " -fr")
        || starts_text(s, "-f") || starts_text(s, "-rf") || starts_text(s, "-fr");
    has_target_of(s) && (recursive || force || has_text(suffix, "../"))
}

fn does_stop_processes(c: &str) -> (r: bool)
    ensures
        r == stops_processes(c@),
{
    has_text(c, "kill ") || has_text(c, "pkill") || has_text(c, "killall") || has_text(
        c,
        "taskkill",
    ) || has_text(c, "systemctl stop") || has_text(c, "service stop") || has_text(
        c,
        "launchctl bootout",
    ) || has_text(c, "launchctl kill")
}

/// Whether a command, in lower case and trimmed, is dangerous, given whether it matches a
/// deleting pattern and what stands behind each `rm` in it.
pub fn decide_dangerous(c: &str, deletes: bool, removals: &Vec<String>) -> (r: bool)
    ensures
        r == dangerous(c@, deletes, texts_view(removals@)),
{
    if c.is_empty() {
        return false;
    }
    if deletes {
        return true;
    }
    let ghost views = texts_view(removals@);
    let mut i: usize = 0;
    while i < removals.len()
        invariant
            i <= removals.len(),
            views == texts_view(removals@),
            c@.len() > 0,
            forall|j: int| 0 <= j < i ==> !risky_removal(#[trigger] views[j]),
        decreases removals.len() - i,
    {
        assert(views[i as int] == removals@[i as int]@);
        if is_risky_removal(removals[i].as_str()) {
            assert(risky_removal(views[i as int]));
            return true;
        }
        i += 1;
    }
    does_stop_processes(c)
}

fn matches_deleting_pattern(c: &str) -> (r: bool)
    ensures
        r == any_pattern(deleting_patterns(), c@),
{
    let ghost list = deleting_patterns();
    let r0 = matches_regex("(^|[;&|]\\s*|\\b(?:sudo|env)\\s+)(?:rm|trash|unlink)\\b", c);
    let r1 = matches_regex("(^|[;&|]\\s*|\\b(?:sudo|env)\\s+)rmdir\\b", c);
    let r2 = matches_regex("\\bfind\\b[\\s\\S]*\\s-delete\\b", c);
    let r3 = matches_regex("\\bfind\\b[\\s\\S]*\\s-exec\\s+rm\\b", c);
    let r4 = matches_regex("\\bsh\\s+-c\\s+['\"][^'\"]*\\brm\\b", c);
    let r5 = matches_regex("\\bbash\\s+-c\\s+['\"][^'\"]*\\brm\\b", c);
    let r6 = matches_regex("\\bzsh\\s+-c\\s+['\"][^'\"]*\\brm\\b", c);
    let r7 = matches_regex(
        "\\bpython(?:3)?\\b[\\s\\S]*\\b(?:shutil\\.rmtree|os\\.remove|os\\.unlink|os\\.rmdir)\\b",
        c,
    );
    let r8 = matches_regex("\\bperl\\b[\\s\\S]*\\bunlink\\b", c);
    let r = r0 || r1 || r2 || r3 || r4 || r5 || r6 || r7 || r8;
    proof {
        assert(r0 == regex_match(list[0], c@));
        assert(r1 == regex_match(list[1], c@));
        assert(r2 == regex_match(list[2], c@));
        assert(r3 == regex_match(list[3], c@));
        assert(r4 == regex_match(list[4], c@));
        assert(r5 == regex_match(list[5], c@));
        assert(r6 == regex_match(list[6], c@));
        assert(r7 == regex_match(list[7], c@));
        assert(r8 == regex_match(list[8], c@));
        if any_pattern(list, c@) {
            let i = choose|i: int| 0 <= i < list.len() && regex_match(#[trigger] list[i], c@);
            assert(list.len() == 9);
            assert(r);
        }
    }
    r
}

/// A shell command deletes files or stops processes.
pub open spec fn dangerous_command(command: Seq<char>) -> bool {
    let c = plain_command(command);
    dangerous(c, any_pattern(deleting_patterns(), c), regex_groups(RM_PATTERN@, 2, c))
}

pub fn is_dangerous_exec_command(command: &str) -> (r: bool)
    ensures
        r == dangerous_command(command@),
{
    let lowered = command.to_lowercase();
    let chars = chars_of(lowered.as_str());
    let c = text_of(trim_chars(chars.as_slice()));
    let deletes = matches_deleting_pattern(c.as_str());
    let removals = group_texts(RM_PATTERN, 2, c.as_str());
    decide_dangerous(c.as_str(), deletes, &removals)
}

// ---------------------------------------------------------------------------
// Confirmations
// ---------------------------------------------------------------------------

/// The user says in so many words that a dangerous operation may go on.
pub open spec fn confirms(text: Seq<char>) -> bool {
    let t = trim(text);
    contains(t, "确认"@) && (contains(t, "执行"@) || contains(t, "重启"@) || contains(t, "继续"@)
        || contains(t, "允许"@))
}

/// Whether the user says in so many words that a dangerous operation may go on.
pub fn user_explicitly_confirms_dangerous_op(user_text: &str) -> (r: bool)
    ensures
        r == confirms(user_text@),
{
    let chars = chars_of(user_text);
    let t = text_of(trim_chars(chars.as_slice()));
    let t = t.as_str();
    has_text(t, "确认") && (has_text(t, "执行") || has_text(t, "重启") || has_text(t, "继续")
        || has_text(t, "允许"))
}

/// The user asks to be sent a picture; the text is in lower case.
pub open spec fn asks_for_image(t: Seq<char>) -> bool {
    let send = contains(t, "发"@) || contains(t, "发送"@) || contains(t, "发给"@) || contains(
        t,
        "send"@,
    );
    let image = contains(t, "图片"@) || contains(t, "照片"@) || contains(t, "相片"@) || contains(
        t,
        "截图"@,
    ) || contains(t, "图像"@) || contains(t, "image"@) || contains(t, "photo"@);
    send && image
}

/// Whether a text in lower case asks to be sent a picture.
pub fn asks_for_image_in(t: &str) -> (r: bool)
    ensures
        r == asks_for_image(t@),
{
    let send = has_text(t, "发") || has_text(t, "发送") || has_text(t, "发给") || has_text(
        t,
        "send",
    );
    let image = has_text(t, "图片") || has_text(t, "照片") || has_text(t, "相片") || has_text(
        t,
        "截图",
    ) || has_text(t, "图像") || has_text(t, "image") || has_text(t, "photo");
    send && image
}

/// Whether the user asks to be sent a picture.
pub fn user_wants_send_image(text: &str) -> (r: bool)
    ensures
        r == asks_for_image(lowercase(text@)),
{
    asks_for_image_in(text.to_lowercase().as_str())
}

pub const IMAGE_PATH_PATTERN: &'static str = "(/[^\\s`\"']+\\.(?i:jpg|jpeg|png|gif|webp|bmp))";

pub const IMAGE_NAME_PATTERN: &'static str = "([A-Za-z0-9._-]+\\.(?i:jpg|jpeg|png|gif|webp|bmp))";

/// The image files that a text mentions: by absolute paths, and by names.
pub fn mentioned_images(text: &str) -> (r: (Vec<String>, Vec<String>))
    ensures
        texts_view(r.0@) == regex_groups(IMAGE_PATH_PATTERN@, 1, text@),
        texts_view(r.1@) == regex_groups(IMAGE_NAME_PATTERN@, 1, text@),
{
    (group_texts(IMAGE_PATH_PATTERN, 1, text), group_texts(IMAGE_NAME_PATTERN, 1, text))
}

} // verus!
