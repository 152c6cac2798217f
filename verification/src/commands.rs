//! Command lines and messages as lists of words, and what they ask for.
use vstd::prelude::*;

use crate::config::ConfigOp;
use crate::dispatch::WindowAction;
use crate::selectors;
use crate::text;
use crate::tiling;
use crate::types::Selector;

verus! {

/// Lists of words as lists of texts.
pub open spec fn word_lists(lists: Seq<Vec<String>>) -> Seq<Seq<Seq<char>>> {
    lists.map_values(|words: Vec<String>| text::texts(words@))
}

/// Whether a word starts with two dashes.
pub open spec fn is_flag_word(word: Seq<char>) -> bool {
    word.len() >= 2 && word[0] == '-' && word[1] == '-'
}

fn is_flag(word: &str) -> (r: bool)
    ensures
        r == is_flag_word(word@),
{
    let chars = text::chars_of(word);
    chars.len() >= 2 && chars[0] == '-' && chars[1] == '-'
}

/// Words grouped by the flags that they follow. A word before any flag belongs
/// to no group, and nothing is grouped then.
pub open spec fn grouped(words: Seq<Seq<char>>) -> Option<Seq<Seq<Seq<char>>>>
    decreases words.len(),
{
    if words.len() == 0 {
        Some(Seq::empty())
    } else {
        match grouped(words.drop_last()) {
            None => None,
            Some(groups) => if is_flag_word(words.last()) {
                Some(groups.push(seq![words.last()]))
            } else if groups.len() > 0 {
                Some(groups.drop_last().push(groups.last().push(words.last())))
            } else {
                None
            },
        }
    }
}

/// Whether the commands of a domain consist of actions.
pub open spec fn has_actions(domain: Seq<char>) -> bool {
    domain == "window"@ || domain == "space"@ || domain == "display"@
}

/// How many words stand before the actions: the domain, and a selector if the
/// next word is none.
pub open spec fn head_len(words: Seq<Seq<char>>) -> int {
    if words.len() > 1 && !is_flag_word(words[1]) {
        2
    } else {
        1
    }
}

/// A command split into one for each of its actions, all with the same head.
pub open spec fn split_words(words: Seq<Seq<char>>) -> Seq<Seq<Seq<char>>> {
    if words.len() == 0 || !has_actions(words[0]) {
        seq![words]
    } else {
        let head = words.take(head_len(words));
        match grouped(words.skip(head_len(words))) {
            Some(groups) => if groups.len() > 1 {
                groups.map_values(|group: Seq<Seq<char>>| head + group)
            } else {
                seq![words]
            },
            None => seq![words],
        }
    }
}

fn copy_words(words: &Vec<String>) -> (r: Vec<String>)
    ensures
        text::texts(r@) == text::texts(words@),
{
    let mut out: Vec<String> = Vec::new();
    push_words(&mut out, words, 0, words.len());
    assert(text::texts(Seq::<String>::empty()) + text::texts(words@).subrange(
        0,
        words@.len() as int,
    ) =~= text::texts(words@));
    out
}

fn push_words(out: &mut Vec<String>, words: &Vec<String>, from: usize, to: usize)
    requires
        from <= to <= words@.len(),
    ensures
        text::texts(final(out)@) == text::texts(old(out)@) + text::texts(words@).subrange(
            from as int,
            to as int,
        ),
{
    let ghost pre = out@;
    let mut i: usize = from;
    assert(text::texts(pre) + text::texts(words@).subrange(from as int, from as int)
        =~= text::texts(pre));
    while i < to
        invariant
            from <= i <= to <= words@.len(),
            text::texts(out@) == text::texts(pre) + text::texts(words@).subrange(
                from as int,
                i as int,
            ),
        decreases to - i,
    {
        let ghost before = out@;
        out.push(words[i].clone());
        proof {
            assert(text::texts(out@) =~= text::texts(before).push(words@[i as int]@));
            assert(text::texts(words@).subrange(from as int, i + 1) =~= text::texts(
                words@,
            ).subrange(from as int, i as int).push(words@[i as int]@));
        }
        i += 1;
    }
}

fn single(words: &Vec<String>) -> (r: Vec<Vec<String>>)
    ensures
        word_lists(r@) == seq![text::texts(words@)],
{
    let r = vec![copy_words(words)];
    assert(word_lists(r@) =~= seq![text::texts(words@)]);
    r
}

fn group_words(words: &Vec<String>, from: usize) -> (r: Option<Vec<Vec<String>>>)
    requires
        from <= words@.len(),
    ensures
        match grouped(text::texts(words@).skip(from as int)) {
            Some(groups) => r is Some && word_lists(r->0@) == groups,
            None => r is None,
        },
{
    let ghost rest = text::texts(words@).skip(from as int);
    let mut groups: Vec<Vec<String>> = Vec::new();
    let mut i: usize = from;
    proof {
        assert(rest.take(0) =~= Seq::<Seq<char>>::empty());
        assert(word_lists(groups@) =~= Seq::<Seq<Seq<char>>>::empty());
    }
    while i < words.len()
        invariant
            from <= i <= words@.len(),
            rest == text::texts(words@).skip(from as int),
            grouped(rest.take(i - from)) == Some(word_lists(groups@)),
        decreases words.len() - i,
    {
        let ghost before = groups@;
        let ghost more = rest.take(i - from + 1);
        proof {
            assert(more.drop_last() =~= rest.take(i - from));
            assert(more.last() == words@[i as int]@);
        }
        if is_flag(words[i].as_str()) {
            let group = vec![words[i].clone()];
            proof {
                assert(text::texts(group@) =~= seq![more.last()]);
            }
            groups.push(group);
            assert(word_lists(groups@) =~= word_lists(before).push(seq![more.last()]));
        } else {
            match groups.pop() {
                Some(last) => {
                    let ghost shorter = groups@;
                    let ghost word_seq = last@;
                    let mut group = last;
                    group.push(words[i].clone());
                    proof {
                        assert(text::texts(group@) =~= text::texts(word_seq).push(more.last()));
                        assert(word_lists(shorter) =~= word_lists(before).drop_last());
                        assert(word_lists(before).last() == text::texts(word_seq));
                    }
                    groups.push(group);
                    assert(word_lists(groups@) =~= word_lists(before).drop_last().push(
                        word_lists(before).last().push(more.last()),
                    ));
                },
                None => {
                    proof {
                        lemma_ungrouped(rest, i - from + 1);
                    }
                    return None;
                },
            }
        }
        i += 1;
    }
    assert(rest.take(rest.len() as int) =~= rest);
    Some(groups)
}

/// What cannot be grouped stays so when more words follow.
proof fn lemma_ungrouped(words: Seq<Seq<char>>, k: int)
    requires
        0 <= k <= words.len(),
        grouped(words.take(k)) is None,
    ensures
        grouped(words) is None,
    decreases words.len() - k,
{
    if k == words.len() {
        assert(words.take(k) =~= words);
    } else {
        assert(words.take(k + 1).drop_last() =~= words.take(k));
        lemma_ungrouped(words, k + 1);
    }
}

/// Split a command of the `window`, `space` or `display` domain into one for each
/// of its actions. Any other command is left as it is.
pub fn split_action_commands(tokens: &Vec<String>) -> (r: Vec<Vec<String>>)
    ensures
        word_lists(r@) == split_words(text::texts(tokens@)),
{
    let ghost words = text::texts(tokens@);
    if tokens.len() == 0 {
        return single(tokens);
    }
    let domain = tokens[0].as_str();
    if !(text::same(domain, "window") || text::same(domain, "space") || text::same(
        domain,
        "display",
    )) {
        return single(tokens);
    }
    let head: usize = if tokens.len() > 1 && !is_flag(tokens[1].as_str()) {
        2
    } else {
        1
    };
    let groups = match group_words(tokens, head) {
        Some(groups) => groups,
        None => {
            return single(tokens);
        },
    };
    if groups.len() <= 1 {
        assert(word_lists(groups@).len() == groups@.len());
        return single(tokens);
    }
    let ghost all = split_words(words);
    assert(word_lists(groups@).len() == groups@.len());
    let mut out: Vec<Vec<String>> = Vec::new();
    let mut i: usize = 0;
    assert(word_lists(out@) =~= all.take(0));
    while i < groups.len()
        invariant
            i <= groups@.len(),
            head <= tokens@.len(),
            words == text::texts(tokens@),
            all.len() == groups@.len(),
            forall|k: int|
                0 <= k < all.len() ==> #[trigger] all[k] == words.take(head as int) + text::texts(
                    groups@[k]@,
                ),
            word_lists(out@) == all.take(i as int),
        decreases groups.len() - i,
    {
        let ghost before = out@;
        let mut command: Vec<String> = Vec::new();
        push_words(&mut command, tokens, 0, head);
        push_words(&mut command, &groups[i], 0, groups[i].len());
        proof {
            let group = text::texts(groups@[i as int]@);
            assert(group.subrange(0, group.len() as int) =~= group);
            assert(words.subrange(0, head as int) =~= words.take(head as int));
            assert(text::texts(Seq::<String>::empty()) + words.take(head as int) =~= words.take(
                head as int,
            ));
            assert(text::texts(command@) == all[i as int]);
        }
        out.push(command);
        proof {
            assert(word_lists(out@) =~= word_lists(before).push(all[i as int]));
            assert(all.take(i + 1) =~= all.take(i as int).push(all[i as int]));
        }
        i += 1;
    }
    assert(all.take(all.len() as int) =~= all);
    out
}

/// Groups of words one behind the other.
pub open spec fn flattened(groups: Seq<Seq<Seq<char>>>) -> Seq<Seq<char>>
    decreases groups.len(),
{
    if groups.len() == 0 {
        Seq::empty()
    } else {
        flattened(groups.drop_last()) + groups.last()
    }
}

proof fn lemma_flattened(words: Seq<Seq<char>>)
    requires
        grouped(words) is Some,
    ensures
        flattened(grouped(words)->0) == words,
    decreases words.len(),
{
    if words.len() > 0 {
        lemma_flattened(words.drop_last());
        let groups = grouped(words.drop_last())->0;
        let last = words.last();
        if is_flag_word(last) {
            let more = groups.push(seq![last]);
            assert(more.drop_last() =~= groups);
            assert(flattened(more) =~= words);
        } else {
            let more = groups.drop_last().push(groups.last().push(last));
            assert(more.drop_last() =~= groups.drop_last());
            assert(flattened(more) =~= flattened(groups).push(last));
            assert(flattened(more) =~= words);
        }
    }
}

/// Splitting loses nothing: each part is the shared head and a group of words
/// that starts with a flag, and the groups one behind the other are the words
/// behind the head.
pub proof fn law_split_keeps_every_word(words: Seq<Seq<char>>)
    requires
        split_words(words).len() > 1,
    ensures
        has_actions(words[0]),
        flattened(
            split_words(words).map_values(|part: Seq<Seq<char>>| part.skip(head_len(words))),
        ) == words.skip(head_len(words)),
        forall|i: int|
            0 <= i < split_words(words).len() ==> (#[trigger] split_words(words)[i]).take(
                head_len(words),
            ) == words.take(head_len(words)),
{
    let head = words.take(head_len(words));
    let rest = words.skip(head_len(words));
    let groups = grouped(rest)->0;
    let parts = split_words(words);
    lemma_flattened(rest);
    assert(parts.map_values(|part: Seq<Seq<char>>| part.skip(head_len(words))) =~= groups) by {
        assert forall|i: int| 0 <= i < groups.len() implies (#[trigger] parts[i]).skip(
            head_len(words),
        ) == groups[i] by {
            assert(parts[i] == head + groups[i]);
            assert((head + groups[i]).skip(head_len(words)) =~= groups[i]);
        }
    }
    assert forall|i: int| 0 <= i < parts.len() implies (#[trigger] parts[i]).take(head_len(words))
        == words.take(head_len(words)) by {
        assert(parts[i] == head + groups[i]);
        assert((head + groups[i]).take(head_len(words)) =~= head);
    }
}

/// Whether a word is among others.
pub fn contains_word(words: &Vec<String>, word: &str) -> (r: bool)
    ensures
        r == text::texts(words@).contains(word@),
{
    let ghost all = text::texts(words@);
    let mut i: usize = 0;
    while i < words.len()
        invariant
            i <= words@.len(),
            all == text::texts(words@),
            forall|j: int| 0 <= j < i ==> all[j] != word@,
        decreases words.len() - i,
    {
        if text::same(words[i].as_str(), word) {
            assert(all[i as int] == word@);
            return true;
        }
        i += 1;
    }
    false
}

fn starts_with_word(words: &Vec<String>, word: &str) -> (r: bool)
    ensures
        r == (words@.len() > 0 && words@[0]@ == word@),
{
    words.len() > 0 && text::same(words[0].as_str(), word)
}

/// Whether a message asks for windows.
pub fn is_window_query(tokens: &Vec<String>) -> (r: bool)
    ensures
        r == (tokens@.len() > 0 && tokens@[0]@ == "query"@ && text::texts(tokens@).contains(
            "--windows"@,
        )),
{
    starts_with_word(tokens, "query") && contains_word(tokens, "--windows")
}

/// Whether a message is about the window under the mouse.
pub fn names_mouse_window(tokens: &Vec<String>) -> (r: bool)
    ensures
        r == (tokens@.len() > 0 && tokens@[0]@ == "window"@ && text::texts(tokens@).contains(
            "mouse"@,
        )),
{
    starts_with_word(tokens, "window") && contains_word(tokens, "mouse")
}

/// Whether a first argument belongs to the daemon.
pub fn is_daemon_flag(flag: &str) -> (r: bool)
    ensures
        r == (flag@ == "--config"@ || flag@ == "-c"@ || flag@ == "--verbose"@ || flag@ == "-V"@),
{
    text::same(flag, "--config") || text::same(flag, "-c") || text::same(flag, "--verbose")
        || text::same(flag, "-V")
}

/// The message that sets the gap between windows and the four paddings.
pub fn tile_config_tokens(gap: i32, padding: i32) -> (r: Vec<String>)
    ensures
        text::texts(r@) == seq![
            "config"@,
            "window_gap"@,
            text::signed_decimal(gap as int),
            "top_padding"@,
            text::signed_decimal(padding as int),
            "bottom_padding"@,
            text::signed_decimal(padding as int),
            "left_padding"@,
            text::signed_decimal(padding as int),
            "right_padding"@,
            text::signed_decimal(padding as int),
        ],
{
    let r = vec![
        "config".to_owned(),
        "window_gap".to_owned(),
        text::signed_string(gap),
        "top_padding".to_owned(),
        text::signed_string(padding),
        "bottom_padding".to_owned(),
        text::signed_string(padding),
        "left_padding".to_owned(),
        text::signed_string(padding),
        "right_padding".to_owned(),
        text::signed_string(padding),
    ];
    assert(text::texts(r@) =~= seq![
        "config"@,
        "window_gap"@,
        text::signed_decimal(gap as int),
        "top_padding"@,
        text::signed_decimal(padding as int),
        "bottom_padding"@,
        text::signed_decimal(padding as int),
        "left_padding"@,
        text::signed_decimal(padding as int),
        "right_padding"@,
        text::signed_decimal(padding as int),
    ]);
    r
}

/// The place of the first `--config` or `-c` among arguments.
pub open spec fn config_flag(args: Seq<Seq<char>>) -> Option<int>
    decreases args.len(),
{
    if args.len() == 0 {
        None
    } else {
        match config_flag(args.drop_last()) {
            Some(i) => Some(i),
            None => if args.last() == "--config"@ || args.last() == "-c"@ {
                Some(args.len() - 1)
            } else {
                None
            },
        }
    }
}

/// Where the configuration comes from.
#[derive(Debug)]
pub enum ConfigPath {
    /// The path behind the flag, or nothing if the flag stands last.
    Given(Option<String>),
    /// The first of these that is a file.
    FirstOf(Vec<String>),
}

/// The places where a configuration is looked for.
pub open spec fn config_places(xdg: Option<&str>, home: Option<&str>) -> Seq<Seq<char>> {
    (match xdg {
        Some(base) => seq![base@ + "/yabai/yabairc"@],
        None => Seq::empty(),
    }) + (match home {
        Some(dir) => seq![dir@ + "/.config/yabai/yabairc"@, dir@ + "/.yabairc"@],
        None => Seq::empty(),
    })
}

fn under(base: &str, rest: &str) -> (r: String)
    ensures
        r@ == base@ + rest@,
{
    let mut out = base.to_owned();
    out.append(rest);
    out
}

/// Find out where the configuration comes from.
pub fn resolve_config_path(args: &Vec<String>, xdg: Option<&str>, home: Option<&str>) -> (r:
    ConfigPath)
    ensures
        match config_flag(text::texts(args@)) {
            Some(i) => r matches ConfigPath::Given(path) && (if i + 1 < args@.len() {
                path is Some && path->0@ == args@[i + 1]@
            } else {
                path is None
            }),
            None => r matches ConfigPath::FirstOf(places) && text::texts(places@) == config_places(
                xdg,
                home,
            ),
        },
{
    let ghost words = text::texts(args@);
    let mut found: Option<usize> = None;
    let mut i: usize = 0;
    while i < args.len()
        invariant
            i <= args@.len(),
            words == text::texts(args@),
            match found {
                Some(j) => j < i && config_flag(words.take(i as int)) == Some(j as int),
                None => config_flag(words.take(i as int)) is None,
            },
        decreases args.len() - i,
    {
        proof {
            assert(words.take(i + 1).drop_last() =~= words.take(i as int));
        }
        if found.is_none() && (text::same(args[i].as_str(), "--config") || text::same(
            args[i].as_str(),
            "-c",
        )) {
            found = Some(i);
        }
        i += 1;
    }
    assert(words.take(words.len() as int) =~= words);
    if let Some(at) = found {
        return ConfigPath::Given(
            if at + 1 < args.len() {
                Some(args[at + 1].clone())
            } else {
                None
            },
        );
    }
    let mut places: Vec<String> = Vec::new();
    if let Some(base) = xdg {
        places.push(under(base, "/yabai/yabairc"));
    }
    if let Some(dir) = home {
        places.push(under(dir, "/.config/yabai/yabairc"));
        places.push(under(dir, "/.yabairc"));
    }
    assert(text::texts(places@) =~= config_places(xdg, home));
    ConfigPath::FirstOf(places)
}

/// Whether a `window` command is to focus a window: an action says so, and a
/// window is named.
pub open spec fn focuses(named: bool, actions: Seq<WindowAction>) -> bool {
    &&& exists|i: int| 0 <= i < actions.len() && (#[trigger] actions[i]) is Focus
    &&& named || exists|i: int|
        0 <= i < actions.len() && (#[trigger] actions[i]) is Focus && actions[i]->Focus_0 is Some
}

/// Whether a `window` command is to focus a window.
pub fn is_window_focus(target: &Option<Selector>, actions: &Vec<WindowAction>) -> (r: bool)
    ensures
        r == focuses(*target is Some, actions@),
{
    let mut has_focus = false;
    let mut has_selector = false;
    let mut i: usize = 0;
    while i < actions.len()
        invariant
            i <= actions@.len(),
            has_focus == (exists|k: int| 0 <= k < i && (#[trigger] actions@[k]) is Focus),
            has_selector == (exists|k: int|
                0 <= k < i && (#[trigger] actions@[k]) is Focus && actions@[k]->Focus_0 is Some),
        decreases actions.len() - i,
    {
        match &actions[i] {
            WindowAction::Focus(Some(_)) => {
                assert(actions@[i as int] is Focus);
                has_focus = true;
                has_selector = true;
            },
            WindowAction::Focus(None) => {
                assert(actions@[i as int] is Focus);
                has_focus = true;
            },
            _ => {},
        }
        i += 1;
    }
    has_focus && (target.is_some() || has_selector)
}

/// Whether a `window` command is to minimize a window.
pub fn is_window_minimize(actions: &Vec<WindowAction>) -> (r: bool)
    ensures
        r == (exists|i: int| 0 <= i < actions@.len() && (#[trigger] actions@[i]) is Minimize),
{
    let mut i: usize = 0;
    while i < actions.len()
        invariant
            i <= actions@.len(),
            forall|k: int| 0 <= k < i ==> !((#[trigger] actions@[k]) is Minimize),
        decreases actions.len() - i,
    {
        if let WindowAction::Minimize(_) = &actions[i] {
            assert(actions@[i as int] is Minimize);
            return true;
        }
        i += 1;
    }
    false
}

/// Whether a `window` command is to close a window.
pub fn is_window_close(actions: &Vec<WindowAction>) -> (r: bool)
    ensures
        r == (exists|i: int| 0 <= i < actions@.len() && (#[trigger] actions@[i]) is Close),
{
    let mut i: usize = 0;
    while i < actions.len()
        invariant
            i <= actions@.len(),
            forall|k: int| 0 <= k < i ==> !((#[trigger] actions@[k]) is Close),
        decreases actions.len() - i,
    {
        if let WindowAction::Close(_) = &actions[i] {
            assert(actions@[i as int] is Close);
            return true;
        }
        i += 1;
    }
    false
}

/// Whether an action toggles native fullscreen.
pub open spec fn toggles_fullscreen(action: WindowAction) -> bool {
    action is Toggle && action->Toggle_0@ == "native-fullscreen"@
}

/// Whether a `window` command is to toggle native fullscreen.
pub fn is_window_native_fullscreen(actions: &Vec<WindowAction>) -> (r: bool)
    ensures
        r == (exists|i: int| 0 <= i < actions@.len() && toggles_fullscreen(#[trigger] actions@[i])),
{
    let mut i: usize = 0;
    while i < actions.len()
        invariant
            i <= actions@.len(),
            forall|k: int| 0 <= k < i ==> !toggles_fullscreen(#[trigger] actions@[k]),
        decreases actions.len() - i,
    {
        if let WindowAction::Toggle(name) = &actions[i] {
            if text::same(name.as_str(), "native-fullscreen") {
                assert(toggles_fullscreen(actions@[i as int]));
                return true;
            }
        }
        i += 1;
    }
    false
}

/// Whether a request changes an opacity.
pub open spec fn changes_opacity(op: ConfigOp) -> bool {
    match op {
        ConfigOp::Put(key, _) => key@ == "window_opacity"@ || key@ == "active_window_opacity"@
            || key@ == "normal_window_opacity"@,
        _ => false,
    }
}

/// Whether a `config` command changes an opacity.
pub fn is_opacity_config(ops: &Vec<ConfigOp>) -> (r: bool)
    ensures
        r == (exists|i: int| 0 <= i < ops@.len() && changes_opacity(#[trigger] ops@[i])),
{
    let mut i: usize = 0;
    while i < ops.len()
        invariant
            i <= ops@.len(),
            forall|k: int| 0 <= k < i ==> !changes_opacity(#[trigger] ops@[k]),
        decreases ops.len() - i,
    {
        if let ConfigOp::Put(key, _) = &ops[i] {
            let key = key.as_str();
            if text::same(key, "window_opacity") || text::same(key, "active_window_opacity")
                || text::same(key, "normal_window_opacity") {
                assert(changes_opacity(ops@[i as int]));
                return true;
            }
        }
        i += 1;
    }
    false
}

/// The window that is to be shown again, among the minimized ones.
pub open spec fn deminimized(target: Option<Selector>, minimized: Seq<u32>) -> selectors::Resolved<
    u32,
> {
    let missing = "could not locate a minimized window."@;
    match target {
        Some(Selector::Index(id)) => selectors::Resolved::Found(id),
        Some(Selector::First) => if minimized.len() > 0 {
            selectors::Resolved::Found(minimized[0])
        } else {
            selectors::Resolved::Failed(missing)
        },
        Some(Selector::Last) => if minimized.len() > 0 {
            selectors::Resolved::Found(minimized.last())
        } else {
            selectors::Resolved::Failed(missing)
        },
        Some(_) => selectors::Resolved::Failed(
            "window --deminimize selector is not yet supported."@,
        ),
        None => selectors::Resolved::Failed("window --deminimize requires a window id."@),
    }
}

/// Resolve the window that is to be shown again, among the minimized ones.
pub fn resolve_deminimize_target(target: Option<&Selector>, minimized_ids: &Vec<u32>) -> (r: Result<
    u32,
    String,
>)
    ensures
        selectors::is_outcome(r, deminimized(selectors::owned(target), minimized_ids@)),
{
    match target {
        Some(Selector::Index(id)) => Ok(*id),
        Some(Selector::First) => if minimized_ids.len() > 0 {
            Ok(minimized_ids[0])
        } else {
            Err("could not locate a minimized window.".to_owned())
        },
        Some(Selector::Last) => if minimized_ids.len() > 0 {
            Ok(minimized_ids[minimized_ids.len() - 1])
        } else {
            Err("could not locate a minimized window.".to_owned())
        },
        Some(_) => Err("window --deminimize selector is not yet supported.".to_owned()),
        None => Err("window --deminimize requires a window id.".to_owned()),
    }
}

/// The window that a lone `--deminimize` action is about, if the command is one.
pub fn window_deminimize_target(
    target: &Option<Selector>,
    actions: &Vec<WindowAction>,
    minimized_ids: &Vec<u32>,
) -> (r: Option<Result<u32, String>>)
    ensures
        if actions@.len() == 1 && actions@[0] is Deminimize {
            r is Some && selectors::is_outcome(
                r->0,
                deminimized(
                    match actions@[0]->Deminimize_0 {
                        Some(selector) => Some(selector),
                        None => *target,
                    },
                    minimized_ids@,
                ),
            )
        } else {
            r is None
        },
{
    if actions.len() != 1 {
        return None;
    }
    match &actions[0] {
        WindowAction::Deminimize(Some(selector)) => Some(
            resolve_deminimize_target(Some(selector), minimized_ids),
        ),
        WindowAction::Deminimize(None) => Some(
            resolve_deminimize_target(target.as_ref(), minimized_ids),
        ),
        _ => None,
    }
}

/// Whether a message is a lone toggle of native fullscreen, and which word of it
/// names the window.
pub open spec fn fullscreen_toggle(words: Seq<Seq<char>>) -> Option<Option<int>> {
    if words.len() == 3 && words[0] == "window"@ && words[1] == "--toggle"@ {
        if words[2] == "native-fullscreen"@ {
            Some(None)
        } else {
            None
        }
    } else if words.len() == 4 && words[0] == "window"@ && words[2] == "--toggle"@ {
        if words[3] == "native-fullscreen"@ {
            Some(Some(1))
        } else {
            None
        }
    } else if words.len() == 4 && words[0] == "window"@ && words[1] == "--toggle"@ {
        if words[2] == "native-fullscreen"@ {
            Some(Some(3))
        } else {
            None
        }
    } else {
        None
    }
}

/// Whether a message is a lone toggle of native fullscreen, and the place of the
/// word that names the window.
pub fn standalone_native_fullscreen(tokens: &Vec<String>) -> (r: Option<Option<usize>>)
    ensures
        match fullscreen_toggle(text::texts(tokens@)) {
            None => r is None,
            Some(None) => r == Some(None::<usize>),
            Some(Some(i)) => r is Some && r->0 is Some && r->0->0 == i && i < tokens@.len(),
        },
{
    let ghost words = text::texts(tokens@);
    if tokens.len() == 3 && text::same(tokens[0].as_str(), "window") && text::same(
        tokens[1].as_str(),
        "--toggle",
    ) {
        return if text::same(tokens[2].as_str(), "native-fullscreen") {
            Some(None)
        } else {
            None
        };
    }
    if tokens.len() == 4 && text::same(tokens[0].as_str(), "window") {
        if text::same(tokens[2].as_str(), "--toggle") {
            return if text::same(tokens[3].as_str(), "native-fullscreen") {
                Some(Some(1))
            } else {
                None
            };
        }
        if text::same(tokens[1].as_str(), "--toggle") {
            return if text::same(tokens[2].as_str(), "native-fullscreen") {
                Some(Some(3))
            } else {
                None
            };
        }
    }
    None
}

/// The fullscreen window that a toggle leaves, if it names one.
pub open spec fn leaves_fullscreen(target: Option<Selector>, fullscreen: Seq<u32>) -> Option<u32> {
    match target {
        Some(Selector::Index(id)) => if fullscreen.contains(id) {
            Some(id)
        } else {
            None
        },
        Some(Selector::First) => if fullscreen.len() > 0 {
            Some(fullscreen[0])
        } else {
            None
        },
        Some(Selector::Last) => if fullscreen.len() > 0 {
            Some(fullscreen.last())
        } else {
            None
        },
        None => if fullscreen.len() == 1 {
            Some(fullscreen[0])
        } else {
            None
        },
        _ => None,
    }
}

/// The fullscreen window that a toggle leaves. Nothing means that a window is to
/// enter fullscreen.
pub fn window_fullscreen_exit_target(target: Option<&Selector>, fullscreen_ids: &Vec<u32>) -> (r:
    Option<u32>)
    ensures
        r == leaves_fullscreen(selectors::owned(target), fullscreen_ids@),
{
    match target {
        Some(Selector::Index(id)) => match tiling::position(fullscreen_ids, *id) {
            Some(at) => {
                assert(fullscreen_ids@.contains(fullscreen_ids@[at as int]));
                Some(*id)
            },
            None => None,
        },
        Some(Selector::First) => if fullscreen_ids.len() > 0 {
            Some(fullscreen_ids[0])
        } else {
            None
        },
        Some(Selector::Last) => if fullscreen_ids.len() > 0 {
            Some(fullscreen_ids[fullscreen_ids.len() - 1])
        } else {
            None
        },
        None => if fullscreen_ids.len() == 1 {
            Some(fullscreen_ids[0])
        } else {
            None
        },
        _ => None,
    }
}

/// Words are grouped by the flags they follow: a flag opens a group, any other word
/// goes to the last one, and a word before any flag spoils it all.
pub proof fn law_words_are_grouped_by_flags(words: Seq<Seq<char>>, word: Seq<char>)
    ensures
        grouped(Seq::empty()) == Some(Seq::<Seq<Seq<char>>>::empty()),
        grouped(words) is None ==> grouped(words.push(word)) is None,
        grouped(words) matches Some(groups) ==> {
            let flag = word.len() >= 2 && word[0] == '-' && word[1] == '-';
            &&& flag ==> grouped(words.push(word)) == Some(groups.push(seq![word]))
            &&& !flag && groups.len() > 0 ==> grouped(words.push(word)) == Some(
                groups.update(groups.len() - 1, groups[groups.len() - 1].push(word)),
            )
            &&& !flag && groups.len() == 0 ==> grouped(words.push(word)) is None
        },
{
    assert(words.push(word).drop_last() =~= words);
    if let Some(groups) = grouped(words) {
        if groups.len() > 0 {
            assert(groups.drop_last().push(groups.last().push(word)) =~= groups.update(
                groups.len() - 1,
                groups[groups.len() - 1].push(word),
            ));
        }
    }
}

/// Only commands of the `window`, `space` and `display` domains are split, and only if
/// they have several actions; the head is the domain, and the next word unless it is a
/// flag.
pub proof fn law_which_commands_are_split(words: Seq<Seq<char>>)
    ensures
        words.len() == 0 ==> split_words(words) == seq![words],
        words.len() > 0 && words[0] != "window"@ && words[0] != "space"@ && words[0] != "display"@
            ==> split_words(words) == seq![words],
        words.len() > 0 && (words[0] == "window"@ || words[0] == "space"@ || words[0]
            == "display"@) ==> {
            let n: int = if words.len() > 1 && !(words[1].len() >= 2 && words[1][0] == '-'
                && words[1][1] == '-') {
                2
            } else {
                1
            };
            &&& grouped(words.skip(n)) is None ==> split_words(words) == seq![words]
            &&& grouped(words.skip(n)) matches Some(groups) ==> {
                &&& groups.len() <= 1 ==> split_words(words) == seq![words]
                &&& groups.len() > 1 ==> split_words(words).len() == groups.len() && forall|i: int|
                    0 <= i < groups.len() ==> #[trigger] split_words(words)[i] == words.take(n)
                        + groups[i]
            }
        },
{
}

/// The configuration is the one behind the first `--config` or `-c`.
pub proof fn law_first_config_flag(args: Seq<Seq<char>>)
    ensures
        match config_flag(args) {
            Some(i) => {
                &&& 0 <= i < args.len()
                &&& args[i] == "--config"@ || args[i] == "-c"@
                &&& forall|j: int|
                    0 <= j < i ==> #[trigger] args[j] != "--config"@ && args[j] != "-c"@
            },
            None => forall|j: int|
                0 <= j < args.len() ==> #[trigger] args[j] != "--config"@ && args[j] != "-c"@,
        },
    decreases args.len(),
{
    if args.len() > 0 {
        let less = args.drop_last();
        law_first_config_flag(less);
        assert forall|j: int| 0 <= j < less.len() implies #[trigger] args[j] == less[j] by {}
        assert(args.last() == args[args.len() - 1]);
    }
}

/// The configuration is looked for under the configuration directory first, then under
/// the home directory, first in its own place there.
pub proof fn law_config_places(xdg: &str, home: &str)
    ensures
        config_places(Some(xdg), Some(home)) == seq![
            xdg@ + "/yabai/yabairc"@,
            home@ + "/.config/yabai/yabairc"@,
            home@ + "/.yabairc"@,
        ],
        config_places(None, Some(home)) == seq![
            home@ + "/.config/yabai/yabairc"@,
            home@ + "/.yabairc"@,
        ],
        config_places(Some(xdg), None) == seq![xdg@ + "/yabai/yabairc"@],
        config_places(None, None) == Seq::<Seq<char>>::empty(),
{
    assert(config_places(Some(xdg), Some(home)) =~= seq![
        xdg@ + "/yabai/yabairc"@,
        home@ + "/.config/yabai/yabairc"@,
        home@ + "/.yabairc"@,
    ]);
    assert(config_places(None, Some(home)) =~= seq![
        home@ + "/.config/yabai/yabairc"@,
        home@ + "/.yabairc"@,
    ]);
    assert(config_places(Some(xdg), None) =~= seq![xdg@ + "/yabai/yabairc"@]);
    assert(config_places(None, None) =~= Seq::<Seq<char>>::empty());
}

/// A `window` command focuses a window if an action says so and a window is named, by
/// the command or by that action.
pub proof fn law_what_focuses(actions: Seq<WindowAction>, i: int, named: bool)
    ensures
        0 <= i < actions.len() && actions[i] is Focus && (named || actions[i]->Focus_0 is Some)
            ==> focuses(named, actions),
        (forall|j: int| 0 <= j < actions.len() ==> !((#[trigger] actions[j]) is Focus))
            ==> !focuses(named, actions),
        (forall|j: int|
            0 <= j < actions.len() && (#[trigger] actions[j]) is Focus ==> actions[j]->Focus_0
                is None) ==> !focuses(false, actions),
{
}

/// The settings whose change sets opacities anew.
pub proof fn law_what_changes_opacity(op: ConfigOp)
    ensures
        op is Get ==> !changes_opacity(op),
        op matches ConfigOp::Put(key, value) ==> (changes_opacity(op) <==> key@
            == "window_opacity"@ || key@ == "active_window_opacity"@ || key@
            == "normal_window_opacity"@),
{
}

/// A minimized window is named by its id, or as the first or the last minimized one.
pub proof fn law_deminimized_windows(minimized: Seq<u32>, id: u32, selector: Selector)
    ensures
        deminimized(Some(Selector::Index(id)), minimized) == selectors::Resolved::Found(id),
        minimized.len() > 0 ==> deminimized(Some(Selector::First), minimized)
            == selectors::Resolved::Found(minimized[0]),
        minimized.len() > 0 ==> deminimized(Some(Selector::Last), minimized)
            == selectors::Resolved::Found(minimized[minimized.len() - 1]),
        minimized.len() == 0 ==> deminimized(Some(Selector::First), minimized)
            == selectors::Resolved::<u32>::Failed("could not locate a minimized window."@),
        minimized.len() == 0 ==> deminimized(Some(Selector::Last), minimized)
            == selectors::Resolved::<u32>::Failed("could not locate a minimized window."@),
        !(selector is Index || selector is First || selector is Last) ==> deminimized(
            Some(selector),
            minimized,
        ) == selectors::Resolved::<u32>::Failed(
            "window --deminimize selector is not yet supported."@,
        ),
        deminimized(None, minimized) == selectors::Resolved::<u32>::Failed(
            "window --deminimize requires a window id."@,
        ),
{
}

/// A toggle of native fullscreen leaves it for the window named, if that is in it; for
/// the first or the last that is; or, without a name, for the only one that is.
pub proof fn law_leaving_fullscreen(fullscreen: Seq<u32>, id: u32, selector: Selector)
    ensures
        fullscreen.contains(id) ==> leaves_fullscreen(Some(Selector::Index(id)), fullscreen) == Some(
            id,
        ),
        !fullscreen.contains(id) ==> leaves_fullscreen(
            Some(Selector::Index(id)),
            fullscreen,
        ) is None,
        fullscreen.len() > 0 ==> leaves_fullscreen(Some(Selector::First), fullscreen) == Some(
            fullscreen[0],
        ),
        fullscreen.len() > 0 ==> leaves_fullscreen(Some(Selector::Last), fullscreen) == Some(
            fullscreen[fullscreen.len() - 1],
        ),
        fullscreen.len() == 1 ==> leaves_fullscreen(None, fullscreen) == Some(fullscreen[0]),
        fullscreen.len() != 1 ==> leaves_fullscreen(None, fullscreen) is None,
        !(selector is Index || selector is First || selector is Last) ==> leaves_fullscreen(
            Some(selector),
            fullscreen,
        ) is None,
        leaves_fullscreen(Some(selector), fullscreen) matches Some(w) ==> fullscreen.contains(w),
{
}

/// The forms of a lone toggle of native fullscreen, and where the window is named in
/// each.
pub proof fn law_fullscreen_toggles(name: Seq<char>)
    ensures
        fullscreen_toggle(seq!["window"@, "--toggle"@, "native-fullscreen"@]) == Some(None::<int>),
        name != "--toggle"@ ==> fullscreen_toggle(
            seq!["window"@, name, "--toggle"@, "native-fullscreen"@],
        ) == Some(Some(1int)),
        name != "--toggle"@ ==> fullscreen_toggle(
            seq!["window"@, "--toggle"@, "native-fullscreen"@, name],
        ) == Some(Some(3int)),
        name != "native-fullscreen"@ ==> fullscreen_toggle(
            seq!["window"@, "--toggle"@, name],
        ) is None,
{
    reveal_strlit("--toggle");
    reveal_strlit("native-fullscreen");
    assert("--toggle"@.len() != "native-fullscreen"@.len());
}

/// Which messages ask for windows, or are about the window under the mouse, and which
/// first arguments belong to the daemon.
pub proof fn law_kinds_of_messages(
    tokens: &Vec<String>,
    windows: bool,
    mouse: bool,
    flag: &str,
    daemon: bool,
)
    requires
        call_ensures(is_window_query, (tokens,), windows),
        call_ensures(names_mouse_window, (tokens,), mouse),
        call_ensures(is_daemon_flag, (flag,), daemon),
    ensures
        windows ==> tokens@[0]@ == "query"@ && exists|i: int|
            0 <= i < tokens@.len() && #[trigger] tokens@[i]@ == "--windows"@,
        tokens@.len() > 0 && tokens@[0]@ == "query"@ && !windows ==> forall|i: int|
            0 <= i < tokens@.len() ==> #[trigger] tokens@[i]@ != "--windows"@,
        mouse ==> tokens@[0]@ == "window"@ && exists|i: int|
            0 <= i < tokens@.len() && #[trigger] tokens@[i]@ == "mouse"@,
        tokens@.len() > 0 && tokens@[0]@ == "window"@ && !mouse ==> forall|i: int|
            0 <= i < tokens@.len() ==> #[trigger] tokens@[i]@ != "mouse"@,
        daemon <==> flag@ == "--config"@ || flag@ == "-c"@ || flag@ == "--verbose"@ || flag@
            == "-V"@,
{
    let words = text::texts(tokens@);
    assert forall|i: int| 0 <= i < tokens@.len() implies #[trigger] tokens@[i]@ == words[i] by {}
    if windows {
        let i = choose|i: int| 0 <= i < words.len() && words[i] == "--windows"@;
        assert(tokens@[i]@ == "--windows"@);
    }
    if mouse {
        let i = choose|i: int| 0 <= i < words.len() && words[i] == "mouse"@;
        assert(tokens@[i]@ == "mouse"@);
    }
    assert forall|i: int| 0 <= i < tokens@.len() implies words.contains(
        #[trigger] tokens@[i]@,
    ) by {
        assert(words[i] == tokens@[i]@);
    }
}

/// The message that sets the gap and the paddings names each setting and its value.
pub proof fn law_tile_config(gap: i32, padding: i32, r: Vec<String>)
    requires
        call_ensures(tile_config_tokens, (gap, padding), r),
    ensures
        r@.len() == 11,
        r@[0]@ == "config"@,
        r@[1]@ == "window_gap"@ && r@[2]@ == text::signed_decimal(gap as int),
        r@[3]@ == "top_padding"@ && r@[4]@ == text::signed_decimal(padding as int),
        r@[5]@ == "bottom_padding"@ && r@[6]@ == text::signed_decimal(padding as int),
        r@[7]@ == "left_padding"@ && r@[8]@ == text::signed_decimal(padding as int),
        r@[9]@ == "right_padding"@ && r@[10]@ == text::signed_decimal(padding as int),
{
    let words = text::texts(r@);
    assert(words.len() == 11);
    assert(words[0] == r@[0]@ && words[1] == r@[1]@ && words[2] == r@[2]@ && words[3] == r@[3]@);
    assert(words[4] == r@[4]@ && words[5] == r@[5]@ && words[6] == r@[6]@ && words[7] == r@[7]@);
    assert(words[8] == r@[8]@ && words[9] == r@[9]@ && words[10] == r@[10]@);
}

/// A configuration given on the command line is the word behind the flag; without a
/// flag it is looked for.
pub proof fn law_config_paths(
    args: &Vec<String>,
    xdg: Option<&str>,
    home: Option<&str>,
    r: ConfigPath,
    i: int,
)
    requires
        call_ensures(resolve_config_path, (args, xdg, home), r),
    ensures
        0 <= i && i + 1 < args@.len() && (args@[i]@ == "--config"@ || args@[i]@ == "-c"@) && (
        forall|j: int|
            0 <= j < i ==> #[trigger] args@[j]@ != "--config"@ && args@[j]@ != "-c"@) ==> {
            &&& r matches ConfigPath::Given(path)
            &&& path is Some
            &&& path->0@ == args@[i + 1]@
        },
        (forall|j: int|
            0 <= j < args@.len() ==> #[trigger] args@[j]@ != "--config"@ && args@[j]@ != "-c"@)
            ==> {
            &&& r matches ConfigPath::FirstOf(places)
            &&& text::texts(places@) == config_places(xdg, home)
        },
{
    let words = text::texts(args@);
    assert forall|j: int| 0 <= j < args@.len() implies #[trigger] args@[j]@ == words[j] by {}
    assert forall|j: int| 0 <= j < args@.len() implies #[trigger] words[j] == args@[j]@ by {}
    law_first_config_flag(words);
    if let Some(k) = config_flag(words) {
        assert(args@[k]@ == words[k]);
        if 0 <= i < args@.len() && (args@[i]@ == "--config"@ || args@[i]@ == "-c"@) {
            assert(words[i] == args@[i]@);
        }
    }
}

} // verus!
