//! Starting games with arguments, and game windows without a frame.
//!
//! For old games without a borderless mode: the program starts the game in a window, and while
//! that window is in front takes its frame off and stretches it over the monitor. The shortcut of
//! a game starts this program with `--launch "<name>"`.

use vstd::prelude::*;

use crate::paths;
use crate::paths::folder_of;
use crate::paths::name_of;
use crate::paths::stem;
use crate::paths::text_of;
use crate::settings::GameProfile;
use crate::settings::GameView;
use crate::text::chars_of;
use crate::text::decimal;
use crate::text::eq_ignore_ascii_case;
use crate::text::is_control_code;
use crate::text::is_white_space;
use crate::text::lemma_views_push;
use crate::text::lowercase;
use crate::text::same_ignoring_ascii_case;
use crate::text::same_text;
use crate::text::string_of;
use crate::text::to_decimal;
use crate::text::to_lowercase;
use crate::text::trim;
use crate::text::trimmed;
use crate::text::views;

verus! {

pub const LAUNCH_ARG: &'static str = "--launch";

/// Characters that a file name may not hold.
pub open spec fn forbidden(c: char) -> bool {
    c == '"' || c == '<' || c == '>' || c == ':' || c == '/' || c == '\\' || c == '|' || c == '?'
        || c == '*'
}

/// A text without the characters that a file name may not hold.
pub open spec fn allowed_only(s: Seq<char>) -> Seq<char>
    decreases s.len(),
{
    if s.len() == 0 {
        s
    } else if forbidden(s.last()) || is_control_code(s.last()) {
        allowed_only(s.drop_last())
    } else {
        allowed_only(s.drop_last()).push(s.last())
    }
}

/// A name that can stand in a file name, or nothing where nothing is left of it.
pub open spec fn cleaned(name: Seq<char>) -> Option<Seq<char>> {
    let rest = trimmed(allowed_only(name));
    if rest.len() == 0 {
        None
    } else {
        Some(rest)
    }
}

/// A name without quotes and characters that file names may not hold: the name of a shortcut is
/// made of it.
pub fn clean_name(name: &str) -> (r: Option<String>)
    ensures
        text_of(r) == cleaned(name@),
{
    let v = chars_of(name);
    let mut kept: Vec<char> = Vec::new();
    let mut i: usize = 0;
    proof {
        assert(v@.take(0) =~= seq![]);
    }
    while i < v.len()
        invariant
            i <= v.len(),
            kept@ == allowed_only(v@.take(i as int)),
        decreases v.len() - i,
    {
        proof {
            assert(v@.take(i + 1).drop_last() =~= v@.take(i as int));
            assert(v@.take(i + 1).last() == v@[i as int]);
        }
        let c: char = v[i];
        let bad = matches!(c, '"' | '<' | '>' | ':' | '/' | '\\' | '|' | '?' | '*');
        if !bad && !c.is_control() {
            kept.push(c);
        }
        i += 1;
    }
    proof {
        assert(v@.take(v.len() as int) =~= v@);
    }
    let text = string_of(&kept);
    let rest = trim(text.as_str());
    if rest.as_str().is_empty() {
        None
    } else {
        Some(rest)
    }
}

/// What a game is called by the name of its file.
pub open spec fn title_from_path(path: Seq<char>) -> Seq<char> {
    let fallback = "Игра"@;
    match name_of(trimmed(path)) {
        Some(name) => match cleaned(stem(name)) {
            Some(title) => title,
            None => fallback,
        },
        None => fallback,
    }
}

/// The name of the file without its extension.
pub fn name_from_path(path: &str) -> (r: String)
    ensures
        r@ == title_from_path(path@),
{
    let path = trim(path);
    match paths::file_stem(path.as_str()) {
        Some(stem) => match clean_name(stem.as_str()) {
            Some(name) => name,
            None => "Игра".to_owned(),
        },
        None => "Игра".to_owned(),
    }
}

/// The names to try: the base itself, then `base (2)`, `base (3)` and so on.
pub open spec fn candidate(base: Seq<char>, number: nat) -> Seq<char> {
    if number <= 1 {
        base
    } else {
        base + seq![' ', '('] + decimal(number) + seq![')']
    }
}

/// How far the numbers behind a name go.
pub const LAST_NUMBER: u64 = 0x7fff_ffff;

/// The answer that a question about a name in lower case may get.
pub open spec fn answered<F: Fn(&str) -> bool>(taken: F, name: Seq<char>, answer: bool) -> bool {
    exists|s: &str| s@ == lowercase(name) && call_ensures(taken, (s,), answer)
}

/// `number` is the first whose name is free: all names before it are taken.
pub open spec fn first_free<F: Fn(&str) -> bool>(taken: F, base: Seq<char>, number: nat) -> bool {
    &&& 1 <= number <= LAST_NUMBER
    &&& answered(taken, candidate(base, number), false)
    &&& forall|k: nat|
        1 <= k < number ==> #[trigger] answered(taken, candidate(base, k), true)
}

/// `base`, or where it is taken `base (2)`, `base (3)` and so on. Case makes no difference:
/// `taken` gets the name in lower case. Where every number is taken, `base` again.
pub fn unique_name(base: &str, taken: impl Fn(&str) -> bool) -> (r: String)
    requires
        forall|s: &str| call_requires(taken, (s,)),
    ensures
        (exists|number: nat| #[trigger] first_free(taken, base@, number) && r@ == candidate(
            base@,
            number,
        )) || (r@ == base@ && forall|k: nat|
            1 <= k <= LAST_NUMBER ==> #[trigger] answered(taken, candidate(base@, k), true)),
{
    let low = to_lowercase(base);
    if !taken(low.as_str()) {
        proof {
            assert(answered(taken, candidate(base@, 1), false));
            assert(first_free(taken, base@, 1));
        }
        return base.to_owned();
    }
    proof {
        assert(answered(taken, candidate(base@, 1), true));
    }
    let mut number: u64 = 2;
    while number <= LAST_NUMBER
        invariant
            2 <= number <= LAST_NUMBER + 1,
            forall|s: &str| call_requires(taken, (s,)),
            forall|k: nat|
                1 <= k < number ==> #[trigger] answered(taken, candidate(base@, k), true),
        decreases LAST_NUMBER + 1 - number,
    {
        let mut name = base.to_owned();
        name.append(" (");
        let digits = to_decimal(number);
        name.append(digits.as_str());
        name.append(")");
        proof {
            reveal_strlit(" (");
            reveal_strlit(")");
            assert(name@ =~= candidate(base@, number as nat));
        }
        let low = to_lowercase(name.as_str());
        if !taken(low.as_str()) {
            proof {
                assert(answered(taken, candidate(base@, number as nat), false));
                assert(first_free(taken, base@, number as nat));
            }
            return name;
        }
        proof {
            assert(answered(taken, candidate(base@, number as nat), true));
        }
        number += 1;
    }
    base.to_owned()
}

/// A game that needs arguments of its own: what to start it with, and whose window to watch.
pub struct Preset {
    pub arguments: Seq<char>,
    pub window: Option<Seq<char>>,
}

/// Known games by the name of their file in lower case. The loaders of Warcraft III hand their
/// arguments to `war3.exe` and quit.
pub open spec fn preset_for(file: Seq<char>) -> Option<Preset> {
    if file == "frozen throne.exe"@ || file == "warcraft iii.exe"@ {
        Some(Preset { arguments: "-window"@, window: Some("war3.exe"@) })
    } else if file == "war3.exe"@ {
        Some(Preset { arguments: "-window"@, window: None })
    } else {
        None
    }
}

/// The known game of a path.
pub open spec fn preset_of(path: Seq<char>) -> Option<Preset> {
    match name_of(path) {
        Some(name) => preset_for(lowercase(name)),
        None => None,
    }
}

/// The name to begin with for the game of a path.
pub open spec fn base_name(path: Seq<char>) -> Seq<char> {
    if preset_of(path) is Some {
        "Warcraft III"@
    } else {
        title_from_path(path)
    }
}

/// A new profile for the file of a game. Known games get their arguments by themselves.
pub fn profile_for(path: &str, taken: impl Fn(&str) -> bool) -> (r: GameProfile)
    requires
        forall|s: &str| call_requires(taken, (s,)),
    ensures
        (exists|number: nat| #[trigger]
            first_free(taken, base_name(path@), number) && r@.name == candidate(
                base_name(path@),
                number,
            )) || (r@.name == base_name(path@) && forall|k: nat|
            1 <= k <= LAST_NUMBER ==> #[trigger] answered(
                taken,
                candidate(base_name(path@), k),
                true,
            )),
        r@.path == path@,
        match preset_of(path@) {
            Some(preset) => r@.arguments == preset.arguments && r@.borderless && r@.window_exe
                == preset.window,
            None => r@.arguments.len() == 0 && !r@.borderless && r@.window_exe is None,
        },
{
    let file = match paths::file_name(path) {
        Some(name) => Some(to_lowercase(name.as_str())),
        None => None,
    };
    let mut known = false;
    let mut window: Option<String> = None;
    match &file {
        Some(file) => {
            if same_text(file.as_str(), "frozen throne.exe") || same_text(
                file.as_str(),
                "warcraft iii.exe",
            ) {
                known = true;
                window = Some("war3.exe".to_owned());
            } else if same_text(file.as_str(), "war3.exe") {
                known = true;
            }
        },
        None => {},
    }
    let base = if known {
        "Warcraft III".to_owned()
    } else {
        name_from_path(path)
    };
    GameProfile {
        name: unique_name(base.as_str(), taken),
        path: path.to_owned(),
        arguments: if known {
            "-window".to_owned()
        } else {
            String::new()
        },
        borderless: known,
        window_exe: window,
    }
}

/// The arguments of a command line, from a state on: what was read of the current one, whether
/// inside quotes, and whether it has begun.
pub open spec fn arguments_from(
    current: Seq<char>,
    quoted: bool,
    started: bool,
    rest: Seq<char>,
) -> Seq<Seq<char>>
    decreases rest.len(),
{
    if rest.len() == 0 {
        if started {
            seq![current]
        } else {
            seq![]
        }
    } else if rest[0] == '"' {
        arguments_from(current, !quoted, true, rest.skip(1))
    } else if is_white_space(rest[0]) && !quoted {
        if started {
            seq![current] + arguments_from(seq![], quoted, false, rest.skip(1))
        } else {
            arguments_from(current, quoted, false, rest.skip(1))
        }
    } else {
        arguments_from(current.push(rest[0]), quoted, true, rest.skip(1))
    }
}

/// The arguments of a command line: spaces separate, double quotes join.
pub fn split_arguments(text: &str) -> (r: Vec<String>)
    ensures
        views(r@) == arguments_from(seq![], false, false, text@),
{
    let v = chars_of(text);
    let mut arguments: Vec<String> = Vec::new();
    let mut current: Vec<char> = Vec::new();
    let mut quoted = false;
    let mut started = false;
    let mut i: usize = 0;
    proof {
        assert(v@.skip(0) =~= v@);
        assert(current@ =~= seq![]);
        assert(views(arguments@) =~= seq![]);
        assert(views(arguments@) + arguments_from(seq![], false, false, text@) =~= arguments_from(
            seq![],
            false,
            false,
            text@,
        ));
    }
    while i < v.len()
        invariant
            i <= v.len(),
            v@ == text@,
            !started ==> current@.len() == 0,
            views(arguments@) + arguments_from(current@, quoted, started, v@.skip(i as int))
                == arguments_from(seq![], false, false, text@),
        decreases v.len() - i,
    {
        let c: char = v[i];
        let ghost rest = v@.skip(i as int);
        proof {
            assert(rest[0] == c);
            assert(rest.skip(1) =~= v@.skip(i + 1));
        }
        if c == '"' {
            quoted = !quoted;
            started = true;
        } else if c.is_whitespace() && !quoted {
            if started {
                let word = string_of(&current);
                let ghost before = arguments@;
                proof {
                    lemma_views_push(before, word);
                    assert(views(before) + (seq![word@] + arguments_from(
                        seq![],
                        quoted,
                        false,
                        v@.skip(i + 1),
                    )) =~= views(before).push(word@) + arguments_from(
                        seq![],
                        quoted,
                        false,
                        v@.skip(i + 1),
                    ));
                }
                arguments.push(word);
                current = Vec::new();
                proof {
                    assert(current@ =~= seq![]);
                }
                started = false;
            }
        } else {
            current.push(c);
            started = true;
        }
        i += 1;
    }
    proof {
        assert(v@.skip(v.len() as int) =~= seq![]);
    }
    if started {
        let word = string_of(&current);
        proof {
            lemma_views_push(arguments@, word);
            assert(views(arguments@) + seq![word@] =~= views(arguments@).push(word@));
        }
        arguments.push(word);
    } else {
        proof {
            assert(views(arguments@) + seq![] =~= views(arguments@));
        }
    }
    arguments
}

/// The process of a file belongs to a profile: the same window file in the folder of the game.
pub open spec fn belongs(game: GameView, image: Seq<char>) -> bool {
    let expected = match game.window_exe {
        Some(name) => Some(name),
        None => name_of(game.path),
    };
    &&& expected is Some && name_of(image) is Some && same_ignoring_ascii_case(
        expected->0,
        name_of(image)->0,
    )
    &&& folder_of(game.path) is Some && folder_of(image) is Some && lowercase(
        folder_of(game.path)->0,
    ) == lowercase(folder_of(image)->0)
}

/// Whether the process of the file `image` belongs to the profile: the same window file in the
/// same folder as the game.
///
/// The folder is needed: another game may have a file of the same name. The name is needed: a
/// game may have an editor in the same folder.
pub fn matches(profile: &GameProfile, image: &str) -> (r: bool)
    ensures
        r == belongs(profile@, image@),
{
    let window_exe = match &profile.window_exe {
        Some(name) => Some(name.clone()),
        None => paths::file_name(profile.path.as_str()),
    };
    let same_file = match (window_exe, paths::file_name(image)) {
        (Some(expected), Some(actual)) => eq_ignore_ascii_case(expected.as_str(), actual.as_str()),
        _ => false,
    };
    let same_dir = match (paths::parent(profile.path.as_str()), paths::parent(image)) {
        (Some(a), Some(b)) => {
            let a = to_lowercase(a.as_str());
            let b = to_lowercase(b.as_str());
            same_text(a.as_str(), b.as_str())
        },
        _ => false,
    };
    same_file && same_dir
}

/// The arguments of a game's shortcut.
pub open spec fn shortcut_arguments(name: Seq<char>) -> Seq<char> {
    LAUNCH_ARG@ + seq![' ', '"'] + name + seq!['"']
}

/// The arguments of a game's shortcut.
pub fn launch_arguments(name: &str) -> (r: String)
    ensures
        r@ == shortcut_arguments(name@),
{
    let mut r = LAUNCH_ARG.to_owned();
    r.append(" \"");
    r.append(name);
    r.append("\"");
    proof {
        reveal_strlit(" \"");
        reveal_strlit("\"");
        assert(r@ =~= shortcut_arguments(name@));
    }
    r
}

proof fn lemma_plain_word(current: Seq<char>, started: bool, word: Seq<char>, rest: Seq<char>)
    requires
        word.len() > 0,
        forall|i: int|
            0 <= i < word.len() ==> #[trigger] word[i] != '"' && !is_white_space(word[i]),
    ensures
        arguments_from(current, false, started, word + rest) == arguments_from(
            current + word,
            false,
            true,
            rest,
        ),
    decreases word.len(),
{
    let all = word + rest;
    let tail = word.skip(1);
    assert(all[0] == word[0]);
    assert(all.skip(1) =~= tail + rest);
    if tail.len() > 0 {
        assert forall|i: int| 0 <= i < tail.len() implies #[trigger] tail[i] != '"'
            && !is_white_space(tail[i]) by {
            assert(tail[i] == word[i + 1]);
        }
        lemma_plain_word(current.push(word[0]), true, tail, rest);
        assert(current.push(word[0]) + tail =~= current + word);
    } else {
        assert(tail + rest =~= rest);
        assert(current.push(word[0]) =~= current + word);
    }
}

proof fn lemma_quoted_word(current: Seq<char>, word: Seq<char>)
    requires
        forall|i: int| 0 <= i < word.len() ==> #[trigger] word[i] != '"',
    ensures
        arguments_from(current, true, true, word + seq!['"']) == seq![current + word],
    decreases word.len(),
{
    let all = word + seq!['"'];
    if word.len() == 0 {
        assert(all[0] == '"');
        assert(all.skip(1) =~= seq![]);
        assert(current + word =~= current);
        assert(arguments_from(current, false, true, seq![]) == seq![current]);
    } else {
        let tail = word.skip(1);
        assert(all[0] == word[0]);
        assert(all.skip(1) =~= tail + seq!['"']);
        assert forall|i: int| 0 <= i < tail.len() implies #[trigger] tail[i] != '"' by {
            assert(tail[i] == word[i + 1]);
        }
        lemma_quoted_word(current.push(word[0]), tail);
        assert(current.push(word[0]) + tail =~= current + word);
    }
}

/// The arguments of a shortcut split into the launch argument and the name again, whatever the
/// name, as long as it holds no quote.
pub proof fn law_shortcut_reads_back(name: Seq<char>)
    requires
        !name.contains('"'),
    ensures
        arguments_from(seq![], false, false, shortcut_arguments(name)) == seq![LAUNCH_ARG@, name],
{
    reveal_strlit("--launch");
    let word = LAUNCH_ARG@;
    let rest = seq![' ', '"'] + name + seq!['"'];
    assert(shortcut_arguments(name) =~= word + rest);
    lemma_plain_word(seq![], false, word, rest);
    assert(seq![] + word =~= word);
    assert(rest[0] == ' ');
    let after = rest.skip(1);
    assert(after[0] == '"');
    assert(after.skip(1) =~= name + seq!['"']);
    assert(arguments_from(word, false, true, rest) == seq![word] + arguments_from(
        seq![],
        false,
        false,
        after,
    ));
    assert(arguments_from(seq![], false, false, after) == arguments_from(
        seq![],
        true,
        true,
        name + seq!['"'],
    ));
    assert forall|i: int| 0 <= i < name.len() implies #[trigger] name[i] != '"' by {
        assert(name.contains(name[i]));
    }
    lemma_quoted_word(seq![], name);
    assert(seq![] + name =~= name);
    assert(seq![word] + seq![name] =~= seq![word, name]);
}

proof fn lemma_allowed_only(s: Seq<char>, c: char)
    ensures
        allowed_only(s).contains(c) ==> !forbidden(c) && !is_control_code(c),
    decreases s.len(),
{
    if s.len() > 0 {
        let front = s.drop_last();
        lemma_allowed_only(front, c);
        if !forbidden(s.last()) && !is_control_code(s.last()) {
            let r = allowed_only(front);
            if r.push(s.last()).contains(c) {
                let i = choose|i: int|
                    0 <= i < r.push(s.last()).len() && r.push(s.last())[i] == c;
                if i < r.len() {
                    assert(r.contains(c));
                }
            }
        }
    }
}

proof fn lemma_trimmed_within(s: Seq<char>, c: char)
    ensures
        trimmed(s).contains(c) ==> s.contains(c),
{
    let t = crate::text::trim_start(s);
    lemma_trim_start_within(s, c);
    lemma_trim_end_within(t, c);
}

proof fn lemma_trim_start_within(s: Seq<char>, c: char)
    ensures
        crate::text::trim_start(s).contains(c) ==> s.contains(c),
    decreases s.len(),
{
    if s.len() > 0 && is_white_space(s[0]) {
        lemma_trim_start_within(s.drop_first(), c);
        if s.drop_first().contains(c) {
            let i = choose|i: int| 0 <= i < s.drop_first().len() && s.drop_first()[i] == c;
            assert(s[i + 1] == c);
        }
    }
}

proof fn lemma_trim_end_within(s: Seq<char>, c: char)
    ensures
        crate::text::trim_end(s).contains(c) ==> s.contains(c),
    decreases s.len(),
{
    if s.len() > 0 && is_white_space(s.last()) {
        lemma_trim_end_within(s.drop_last(), c);
        if s.drop_last().contains(c) {
            let i = choose|i: int| 0 <= i < s.drop_last().len() && s.drop_last()[i] == c;
            assert(s[i] == c);
        }
    }
}

/// A cleaned name holds no quote and nothing else that a file name may not hold, so its shortcut
/// always reads back.
pub proof fn law_clean_names_are_safe(name: Seq<char>)
    requires
        cleaned(name) is Some,
    ensures
        cleaned(name)->0.len() > 0,
        forall|c: char|
            cleaned(name)->0.contains(c) ==> !#[trigger] forbidden(c) && !is_control_code(c),
        arguments_from(seq![], false, false, shortcut_arguments(cleaned(name)->0)) == seq![
            LAUNCH_ARG@,
            cleaned(name)->0,
        ],
{
    let r = cleaned(name)->0;
    assert forall|c: char| r.contains(c) implies !#[trigger] forbidden(c) && !is_control_code(
        c,
    ) by {
        lemma_trimmed_within(allowed_only(name), c);
        lemma_allowed_only(name, c);
    }
    assert(forbidden('"'));
    law_shortcut_reads_back(r);
}

/// Where an argument stands for the first time.
pub open spec fn first_argument(arguments: Seq<Seq<char>>, wanted: Seq<char>) -> Option<int>
    decreases arguments.len(),
{
    if arguments.len() == 0 {
        None
    } else {
        match first_argument(arguments.drop_last(), wanted) {
            Some(at) => Some(at),
            None => if arguments.last() == wanted {
                Some(arguments.len() - 1)
            } else {
                None
            },
        }
    }
}

/// The argument behind another one.
pub open spec fn argument_after(arguments: Seq<Seq<char>>, wanted: Seq<char>) -> Option<Seq<char>> {
    match first_argument(arguments, wanted) {
        Some(at) => if at + 1 < arguments.len() {
            Some(arguments[at + 1])
        } else {
            None
        },
        None => None,
    }
}

/// The argument behind the first occurrence of another one.
pub fn value_after(arguments: &Vec<String>, wanted: &str) -> (r: Option<String>)
    ensures
        text_of(r) == argument_after(views(arguments@), wanted@),
{
    let ghost all = views(arguments@);
    let mut i: usize = 0;
    proof {
        assert(all.take(0) =~= seq![]);
    }
    while i < arguments.len()
        invariant
            i <= arguments.len(),
            all == views(arguments@),
            first_argument(all.take(i as int), wanted@) is None,
        decreases arguments.len() - i,
    {
        proof {
            assert(all.take(i + 1).drop_last() =~= all.take(i as int));
            assert(all.take(i + 1).last() == all[i as int]);
        }
        if same_text(arguments[i].as_str(), wanted) {
            proof {
                lemma_first_argument(all, wanted@, i as int);
            }
            if i + 1 < arguments.len() {
                return Some(arguments[i + 1].clone());
            }
            return None;
        }
        i += 1;
    }
    proof {
        assert(all.take(arguments.len() as int) =~= all);
    }
    None
}

proof fn lemma_first_argument(arguments: Seq<Seq<char>>, wanted: Seq<char>, at: int)
    requires
        0 <= at < arguments.len(),
        arguments[at] == wanted,
        first_argument(arguments.take(at), wanted) is None,
    ensures
        first_argument(arguments, wanted) == Some(at),
    decreases arguments.len(),
{
    if at == arguments.len() - 1 {
        assert(arguments.take(at) =~= arguments.drop_last());
    } else {
        assert(arguments.drop_last().take(at) =~= arguments.take(at));
        lemma_first_argument(arguments.drop_last(), wanted, at);
    }
}

/// The first game of that name, whatever the case of its ASCII letters.
pub open spec fn game_named(games: Seq<GameView>, name: Seq<char>) -> Option<int>
    decreases games.len(),
{
    if games.len() == 0 {
        None
    } else {
        match game_named(games.drop_last(), name) {
            Some(at) => Some(at),
            None => if same_ignoring_ascii_case(games.last().name, name) {
                Some(games.len() - 1)
            } else {
                None
            },
        }
    }
}

proof fn lemma_game_named(games: Seq<GameView>, name: Seq<char>, at: int)
    requires
        0 <= at < games.len(),
        same_ignoring_ascii_case(games[at].name, name),
        game_named(games.take(at), name) is None,
    ensures
        game_named(games, name) == Some(at),
    decreases games.len(),
{
    if at == games.len() - 1 {
        assert(games.take(at) =~= games.drop_last());
    } else {
        assert(games.drop_last().take(at) =~= games.take(at));
        lemma_game_named(games.drop_last(), name, at);
    }
}

/// The game to start for `--launch "<name>"`, or why there is none.
pub fn find_game(games: &Vec<GameProfile>, name: &str) -> (r: Result<usize, String>)
    ensures
        match r {
            Ok(at) => game_named(crate::settings::game_views(games@), name@) == Some(at as int)
                && at < games.len(),
            Err(text) => game_named(crate::settings::game_views(games@), name@) is None && text@
                == "в настройках нет игры «"@ + name@ + "»"@,
        },
{
    let ghost all = crate::settings::game_views(games@);
    let mut i: usize = 0;
    proof {
        assert(all.take(0) =~= seq![]);
    }
    while i < games.len()
        invariant
            i <= games.len(),
            all == crate::settings::game_views(games@),
            game_named(all.take(i as int), name@) is None,
        decreases games.len() - i,
    {
        proof {
            assert(all.take(i + 1).drop_last() =~= all.take(i as int));
            assert(all.take(i + 1).last() == all[i as int]);
        }
        if eq_ignore_ascii_case(games[i].name.as_str(), name) {
            proof {
                lemma_game_named(all, name@, i as int);
            }
            return Ok(i);
        }
        i += 1;
    }
    proof {
        assert(all.take(games.len() as int) =~= all);
    }
    let mut text = "в настройках нет игры «".to_owned();
    text.append(name);
    text.append("»");
    Err(text)
}

/// How a game is started.
#[derive(Debug)]
pub struct LaunchPlan {
    pub program: String,
    pub arguments: Vec<String>,
    /// The folder that the game runs in.
    pub folder: Option<String>,
}

/// How a game is started, or why it cannot be: there is no such file.
pub fn launch_plan(profile: &GameProfile, is_file: bool) -> (r: Result<LaunchPlan, String>)
    ensures
        match r {
            Ok(plan) => {
                &&& is_file
                &&& plan.program@ == profile@.path
                &&& views(plan.arguments@) == arguments_from(
                    seq![],
                    false,
                    false,
                    profile@.arguments,
                )
                &&& text_of(plan.folder) == crate::paths::folder_of(profile@.path)
            },
            Err(text) => !is_file && text@ == "нет файла "@ + profile@.path,
        },
{
    if !is_file {
        let mut text = "нет файла ".to_owned();
        text.append(profile.path.as_str());
        return Err(text);
    }
    Ok(
        LaunchPlan {
            program: profile.path.clone(),
            arguments: split_arguments(profile.arguments.as_str()),
            folder: crate::paths::parent(profile.path.as_str()),
        },
    )
}

/// The line for the journal after a start, or what went wrong with it.
pub open spec fn launch_words(game: GameView, started: Result<(), Seq<char>>) -> Result<
    Seq<char>,
    Seq<char>,
> {
    match started {
        Ok(_) => Ok("игра запущена: "@ + game.path + " "@ + game.arguments),
        Err(error) => Err(game.path + ": "@ + error),
    }
}

pub fn launch_outcome(profile: &GameProfile, started: Result<(), String>) -> (r: Result<
    String,
    String,
>)
    ensures
        (match r {
            Ok(line) => Ok::<Seq<char>, Seq<char>>(line@),
            Err(error) => Err(error@),
        }) == launch_words(profile@, crate::cli::error_view(started)),
{
    match started {
        Ok(()) => {
            let mut line = "игра запущена: ".to_owned();
            line.append(profile.path.as_str());
            line.append(" ");
            line.append(profile.arguments.as_str());
            Ok(line)
        },
        Err(error) => {
            let mut text = profile.path.clone();
            text.append(": ");
            text.append(error.as_str());
            Err(text)
        },
    }
}

/// What a window says when a game was not started: a shortcut has no console.
pub fn launch_failure(error: &str) -> (r: String)
    ensures
        r@ == "Игра не запущена: "@ + error@,
{
    let mut text = "Игра не запущена: ".to_owned();
    text.append(error);
    text
}

/// The name of a game's shortcut and the description in it.
pub fn shortcut_name(name: &str) -> (r: (String, String))
    ensures
        r.0@ == name@ + " (MH Monitoring).lnk"@,
        r.1@ == name@ + " с оверлеем MH Monitoring"@,
{
    let mut link = name.to_owned();
    link.append(" (MH Monitoring).lnk");
    let mut description = name.to_owned();
    description.append(" с оверлеем MH Monitoring");
    (link, description)
}

/// How long the same window is left alone, in milliseconds: a game may bring its frame back, and
/// there is no use in fighting it every second.
pub const RETRY_EVERY: u64 = 5_000;

/// A window in front: its handle, its process, and the file of the process where it can be known.
pub struct FrontWindow {
    pub hwnd: isize,
    pub pid: u32,
    pub image: Option<String>,
}

/// What came of taking the frame off a window.
pub enum Borderless {
    Applied,
    AlreadyDone,
    NotAGameWindow,
    /// The process runs with administrator rights.
    Denied,
    Failed(String),
}

/// Watches the window in front and takes the frame off the windows of the games in the settings.
#[derive(Debug)]
pub struct BorderlessWatcher {
    /// The last window that something was done with, and when.
    pub last: Option<(isize, u64)>,
    /// Why it did not work, for the overlay.
    pub problem: Option<String>,
}

/// The window was handled a moment ago.
pub open spec fn resting(last: Option<(isize, u64)>, hwnd: isize, now: u64) -> bool {
    match last {
        Some((handled, at)) => handled == hwnd && now < at + RETRY_EVERY,
        None => false,
    }
}

/// The first borderless game that a process belongs to.
pub open spec fn borderless_game(games: Seq<GameView>, image: Seq<char>) -> Option<int>
    decreases games.len(),
{
    if games.len() == 0 {
        None
    } else {
        match borderless_game(games.drop_last(), image) {
            Some(at) => Some(at),
            None => if games.last().borderless && belongs(games.last(), image) {
                Some(games.len() - 1)
            } else {
                None
            },
        }
    }
}

proof fn lemma_borderless_game(games: Seq<GameView>, image: Seq<char>, at: int)
    requires
        0 <= at < games.len(),
        games[at].borderless && belongs(games[at], image),
        borderless_game(games.take(at), image) is None,
    ensures
        borderless_game(games, image) == Some(at),
    decreases games.len(),
{
    if at == games.len() - 1 {
        assert(games.take(at) =~= games.drop_last());
    } else {
        assert(games.drop_last().take(at) =~= games.take(at));
        lemma_borderless_game(games.drop_last(), image, at);
    }
}

fn find_borderless(games: &Vec<GameProfile>, image: &str) -> (r: Option<usize>)
    ensures
        match r {
            Some(at) => borderless_game(crate::settings::game_views(games@), image@) == Some(
                at as int,
            ) && at < games.len(),
            None => borderless_game(crate::settings::game_views(games@), image@) is None,
        },
{
    let ghost all = crate::settings::game_views(games@);
    let mut i: usize = 0;
    proof {
        assert(all.take(0) =~= seq![]);
    }
    while i < games.len()
        invariant
            i <= games.len(),
            all == crate::settings::game_views(games@),
            borderless_game(all.take(i as int), image@) is None,
        decreases games.len() - i,
    {
        proof {
            assert(all.take(i + 1).drop_last() =~= all.take(i as int));
            assert(all.take(i + 1).last() == all[i as int]);
        }
        if games[i].borderless && matches(&games[i], image) {
            proof {
                lemma_borderless_game(all, image@, i as int);
            }
            return Some(i);
        }
        i += 1;
    }
    proof {
        assert(all.take(games.len() as int) =~= all);
    }
    None
}

/// Some game of the settings wants a window without a frame.
pub open spec fn any_borderless(games: Seq<GameView>) -> bool {
    exists|i: int| 0 <= i < games.len() && (#[trigger] games[i]).borderless
}

impl BorderlessWatcher {
    pub fn new() -> (r: BorderlessWatcher)
        ensures
            r.last is None,
            r.problem is None,
    {
        BorderlessWatcher { last: None, problem: None }
    }

    /// Once a second: the game, by its place in the settings, whose window should lose its frame
    /// now. The window of this very process, one handled a moment ago, and one whose file is not
    /// known are left alone.
    pub fn tick(
        &mut self,
        games: &Vec<GameProfile>,
        front: &Option<FrontWindow>,
        own_pid: u32,
        now: u64,
    ) -> (r: Option<usize>)
        ensures
            final(self).last == old(self).last,
            text_of(final(self).problem) == (if any_borderless(
                crate::settings::game_views(games@),
            ) {
                text_of(old(self).problem)
            } else {
                None
            }),
            match r {
                Some(at) => at < games.len() && front is Some && front->0.pid != own_pid
                    && !resting(old(self).last, front->0.hwnd, now) && front->0.image is Some
                    && borderless_game(crate::settings::game_views(games@), front->0.image->0@)
                    == Some(at as int),
                None => front is None || front->0.pid == own_pid || resting(
                    old(self).last,
                    front->0.hwnd,
                    now,
                ) || front->0.image is None || borderless_game(
                    crate::settings::game_views(games@),
                    front->0.image->0@,
                ) is None,
            },
    {
        let ghost all = crate::settings::game_views(games@);
        let mut any = false;
        let mut i: usize = 0;
        while i < games.len()
            invariant
                i <= games.len(),
                all == crate::settings::game_views(games@),
                any == exists|j: int| 0 <= j < i && (#[trigger] all[j]).borderless,
            decreases games.len() - i,
        {
            if games[i].borderless {
                any = true;
                assert(all[i as int].borderless);
            }
            i += 1;
        }
        if !any {
            self.problem = None;
            proof {
                if front is Some && front->0.image is Some {
                    lemma_no_borderless(all, front->0.image->0@);
                }
            }
            return None;
        }
        match front {
            Some(window) => {
                if window.pid == own_pid {
                    return None;
                }
                match self.last {
                    Some((handled, at)) => if handled == window.hwnd && (now < at || now - at
                        < RETRY_EVERY) {
                        return None;
                    },
                    None => {},
                }
                match &window.image {
                    Some(image) => find_borderless(games, image.as_str()),
                    None => None,
                }
            },
            None => None,
        }
    }

    /// Notes what came of the attempt on the window of the game `name`. Gives a line for the
    /// journal where there is something new to say.
    pub fn finish(&mut self, hwnd: isize, now: u64, name: &str, outcome: Borderless) -> (r: Option<
        String,
    >)
        ensures
            final(self).last == (if outcome is NotAGameWindow {
                old(self).last
            } else {
                Some((hwnd, now))
            }),
            text_of(final(self).problem) == (match outcome {
                Borderless::Applied | Borderless::AlreadyDone => None,
                Borderless::NotAGameWindow => text_of(old(self).problem),
                Borderless::Denied => Some(
                    name@ + ": окно не изменить — игра запущена от администратора"@,
                ),
                Borderless::Failed(error) => Some(name@ + ": окно не изменено: "@ + error@),
            }),
            text_of(r) == (match outcome {
                Borderless::Applied => Some(name@ + ": окно без рамки на весь монитор"@),
                Borderless::AlreadyDone | Borderless::NotAGameWindow => None,
                _ => if text_of(final(self).problem) == text_of(old(self).problem) {
                    None
                } else {
                    text_of(final(self).problem)
                },
            }),
    {
        match outcome {
            Borderless::Applied => {
                self.last = Some((hwnd, now));
                self.problem = None;
                let mut line = name.to_owned();
                line.append(": окно без рамки на весь монитор");
                Some(line)
            },
            Borderless::AlreadyDone => {
                self.last = Some((hwnd, now));
                self.problem = None;
                None
            },
            Borderless::NotAGameWindow => None,
            Borderless::Denied => {
                let mut problem = name.to_owned();
                problem.append(": окно не изменить — игра запущена от администратора");
                self.last = Some((hwnd, now));
                self.report(problem)
            },
            Borderless::Failed(error) => {
                let mut problem = name.to_owned();
                problem.append(": окно не изменено: ");
                problem.append(error.as_str());
                self.last = Some((hwnd, now));
                self.report(problem)
            },
        }
    }

    fn report(&mut self, problem: String) -> (r: Option<String>)
        ensures
            final(self).last == old(self).last,
            text_of(final(self).problem) == Some(problem@),
            text_of(r) == (if text_of(old(self).problem) == Some(problem@) {
                None
            } else {
                Some(problem@)
            }),
    {
        let same = match &self.problem {
            Some(before) => same_text(before.as_str(), problem.as_str()),
            None => false,
        };
        let line = if same {
            None
        } else {
            Some(problem.clone())
        };
        self.problem = Some(problem);
        line
    }
}

proof fn lemma_no_borderless(games: Seq<GameView>, image: Seq<char>)
    requires
        !any_borderless(games),
    ensures
        borderless_game(games, image) is None,
    decreases games.len(),
{
    if games.len() > 0 {
        let front = games.drop_last();
        assert forall|i: int| 0 <= i < front.len() implies !(#[trigger] front[i]).borderless by {
            assert(front[i] == games[i]);
        }
        lemma_no_borderless(front, image);
        assert(!games[games.len() - 1].borderless);
    }
}

/// A name of which nothing has to be taken.
pub open spec fn clean(name: Seq<char>) -> bool {
    &&& name.len() > 0
    &&& !is_white_space(name[0])
    &&& !is_white_space(name.last())
    &&& forall|i: int|
        0 <= i < name.len() ==> !forbidden(#[trigger] name[i]) && !is_control_code(name[i])
}

proof fn lemma_allowed_fixed(s: Seq<char>)
    requires
        forall|i: int| 0 <= i < s.len() ==> !forbidden(#[trigger] s[i]) && !is_control_code(s[i]),
    ensures
        allowed_only(s) == s,
    decreases s.len(),
{
    if s.len() > 0 {
        assert forall|i: int| 0 <= i < s.drop_last().len() implies !forbidden(
            #[trigger] s.drop_last()[i],
        ) && !is_control_code(s.drop_last()[i]) by {
            assert(s.drop_last()[i] == s[i]);
        }
        lemma_allowed_fixed(s.drop_last());
        assert(s.drop_last().push(s.last()) =~= s);
        assert(!forbidden(s[s.len() - 1]));
    }
}

pub proof fn lemma_clean_stays(name: Seq<char>)
    requires
        clean(name),
    ensures
        cleaned(name) == Some(name),
{
    lemma_allowed_fixed(name);
    crate::text::lemma_trimmed_fixed(name);
}

/// What cleaning leaves is clean.
pub proof fn lemma_cleaned_is_clean(name: Seq<char>)
    ensures
        cleaned(name) is Some ==> clean(cleaned(name)->0),
{
    if cleaned(name) is Some {
        let r = cleaned(name)->0;
        crate::text::lemma_trimmed_edges(allowed_only(name));
        assert forall|i: int| 0 <= i < r.len() implies !forbidden(#[trigger] r[i])
            && !is_control_code(r[i]) by {
            assert(r.contains(r[i]));
            lemma_trimmed_within(allowed_only(name), r[i]);
            lemma_allowed_only(name, r[i]);
        }
    }
}

/// The name of a file is a clean name too.
pub proof fn lemma_title_is_clean(path: Seq<char>)
    ensures
        clean(title_from_path(path)),
{
    reveal_strlit("Игра");
    let fallback = "Игра"@;
    assert(fallback.len() == 4);
    assert(fallback[0] == 'И' && fallback[1] == 'г' && fallback[2] == 'р' && fallback[3] == 'а');
    assert(clean(fallback));
    match name_of(trimmed(path)) {
        Some(name) => {
            lemma_cleaned_is_clean(stem(name));
        },
        None => {},
    }
}

/// A clean name with a number behind it is clean.
pub proof fn lemma_candidate_is_clean(base: Seq<char>, number: nat)
    requires
        clean(base),
    ensures
        clean(candidate(base, number)),
{
    if number > 1 {
        let r = candidate(base, number);
        let digits = decimal(number);
        crate::text::lemma_decimal_digits(number);
        assert(r[0] == base[0]);
        assert(r.last() == ')');
        assert forall|i: int| 0 <= i < r.len() implies !forbidden(#[trigger] r[i])
            && !is_control_code(r[i]) by {
            if i < base.len() {
                assert(r[i] == base[i]);
            } else if i < base.len() + 2 {
            } else if i < base.len() + 2 + digits.len() {
                assert(r[i] == digits[i - base.len() - 2]);
                assert(crate::text::is_digit(digits[i - base.len() - 2]));
            }
        }
    }
}

/// A process belongs to a game where its file lies in the folder of the game and is called as the
/// window of the game is, or as the game itself where no such window is named.
pub proof fn law_processes_belong_to_their_game(game: GameView, image: Seq<char>)
    ensures
        belongs(game, image) ==> name_of(image) is Some && folder_of(image) is Some && folder_of(
            game.path,
        ) is Some && lowercase(folder_of(image)->0) == lowercase(folder_of(game.path)->0),
        belongs(game, image) && game.window_exe is Some ==> same_ignoring_ascii_case(
            game.window_exe->0,
            name_of(image)->0,
        ),
        belongs(game, image) && game.window_exe is None ==> name_of(game.path) is Some
            && same_ignoring_ascii_case(name_of(game.path)->0, name_of(image)->0),
        game.window_exe is None && name_of(game.path) is Some && folder_of(game.path) is Some
            && image == game.path && same_ignoring_ascii_case(
            name_of(image)->0,
            name_of(image)->0,
        ) ==> belongs(game, image),
{
}

/// Of the games that a process belongs to, the first that wants no frame is taken, and none where
/// there is none.
pub proof fn law_first_borderless_game_is_taken(games: Seq<GameView>, image: Seq<char>)
    ensures
        match borderless_game(games, image) {
            Some(at) => 0 <= at < games.len() && games[at].borderless && belongs(games[at], image)
                && forall|i: int|
                0 <= i < at ==> !((#[trigger] games[i]).borderless && belongs(games[i], image)),
            None => forall|i: int|
                0 <= i < games.len() ==> !((#[trigger] games[i]).borderless && belongs(
                    games[i],
                    image,
                )),
        },
    decreases games.len(),
{
    if games.len() > 0 {
        let front = games.drop_last();
        law_first_borderless_game_is_taken(front, image);
        match borderless_game(front, image) {
            Some(at) => {
                assert(front[at] == games[at]);
                assert forall|i: int| 0 <= i < at implies !((#[trigger] games[i]).borderless
                    && belongs(games[i], image)) by {
                    assert(front[i] == games[i]);
                }
            },
            None => {
                assert forall|i: int| 0 <= i < front.len() implies !(
                (#[trigger] games[i]).borderless && belongs(games[i], image)) by {
                    assert(front[i] == games[i]);
                }
            },
        }
    }
}

/// A game is found by its name, whatever the case of its Latin letters: the first one of that
/// name.
pub proof fn law_games_are_found_by_name(games: Seq<GameView>, name: Seq<char>)
    ensures
        match game_named(games, name) {
            Some(at) => 0 <= at < games.len() && same_ignoring_ascii_case(games[at].name, name)
                && forall|i: int|
                0 <= i < at ==> !same_ignoring_ascii_case((#[trigger] games[i]).name, name),
            None => forall|i: int|
                0 <= i < games.len() ==> !same_ignoring_ascii_case(
                    (#[trigger] games[i]).name,
                    name,
                ),
        },
    decreases games.len(),
{
    if games.len() > 0 {
        let front = games.drop_last();
        law_games_are_found_by_name(front, name);
        match game_named(front, name) {
            Some(at) => {
                assert(front[at] == games[at]);
                assert forall|i: int| 0 <= i < at implies !same_ignoring_ascii_case(
                    (#[trigger] games[i]).name,
                    name,
                ) by {
                    assert(front[i] == games[i]);
                }
            },
            None => {
                assert forall|i: int| 0 <= i < front.len() implies !same_ignoring_ascii_case(
                    (#[trigger] games[i]).name,
                    name,
                ) by {
                    assert(front[i] == games[i]);
                }
            },
        }
    }
}

/// The value of an argument is the one right behind its first occurrence.
pub proof fn law_values_stand_behind_their_argument(arguments: Seq<Seq<char>>, wanted: Seq<char>, at: int)
    requires
        0 <= at < arguments.len(),
        arguments[at] == wanted,
        forall|i: int| 0 <= i < at ==> #[trigger] arguments[i] != wanted,
    ensures
        at + 1 < arguments.len() ==> argument_after(arguments, wanted) == Some(arguments[at + 1]),
        at + 1 == arguments.len() ==> argument_after(arguments, wanted) is None,
{
    lemma_first_at(arguments, wanted, at);
}

proof fn lemma_first_at(arguments: Seq<Seq<char>>, wanted: Seq<char>, at: int)
    requires
        0 <= at < arguments.len(),
        arguments[at] == wanted,
        forall|i: int| 0 <= i < at ==> #[trigger] arguments[i] != wanted,
    ensures
        first_argument(arguments, wanted) == Some(at),
    decreases arguments.len(),
{
    let front = arguments.drop_last();
    if at < front.len() {
        lemma_first_at(front, wanted, at);
    } else {
        lemma_none_before(front, wanted);
    }
}

proof fn lemma_none_before(arguments: Seq<Seq<char>>, wanted: Seq<char>)
    requires
        forall|i: int| 0 <= i < arguments.len() ==> #[trigger] arguments[i] != wanted,
    ensures
        first_argument(arguments, wanted) is None,
    decreases arguments.len(),
{
    if arguments.len() > 0 {
        assert(arguments[arguments.len() - 1] != wanted);
        lemma_none_before(arguments.drop_last(), wanted);
    }
}

/// The games that are known to want a window get the argument for it, and the launcher of one of
/// them the program whose window counts; no other game gets anything.
pub proof fn law_known_games_get_their_arguments(file: Seq<char>)
    ensures
        preset_for("frozen throne.exe"@) == Some(
            Preset { arguments: "-window"@, window: Some("war3.exe"@) },
        ),
        preset_for("warcraft iii.exe"@) == Some(
            Preset { arguments: "-window"@, window: Some("war3.exe"@) },
        ),
        preset_for("war3.exe"@) == Some(Preset { arguments: "-window"@, window: None }),
        preset_for(file) is Some <==> file == "frozen throne.exe"@ || file == "warcraft iii.exe"@
            || file == "war3.exe"@,
{
    reveal_strlit("frozen throne.exe");
    reveal_strlit("warcraft iii.exe");
    reveal_strlit("war3.exe");
    assert("frozen throne.exe"@.len() == 17);
    assert("warcraft iii.exe"@.len() == 16);
    assert("war3.exe"@.len() == 8);
}

/// What is said of a start names the program, and its arguments where it went well or the reason
/// where it did not.
pub proof fn law_starts_are_told(game: GameView, error: Seq<char>)
    ensures
        launch_words(game, Ok(())) == Ok::<Seq<char>, Seq<char>>(
            "игра запущена: "@ + game.path + " "@ + game.arguments,
        ),
        launch_words(game, Err(error)) == Err::<Seq<char>, Seq<char>>(game.path + ": "@ + error),
{
}

/// A window that was just handled is left alone until it is time to try again; any other is not.
pub proof fn law_handled_windows_rest(hwnd: isize, other: isize, at: u64, now: u64)
    requires
        other != hwnd,
    ensures
        resting(Some((hwnd, at)), hwnd, now) <==> now < at + 5_000,
        !resting(Some((hwnd, at)), other, now),
        !resting(None, hwnd, now),
{
}

/// A game is started as its profile says: its program, in the folder of that, and only where the
/// file is there.
pub proof fn law_games_start_in_their_folder(
    profile: GameProfile,
    is_file: bool,
    r: Result<LaunchPlan, String>,
)
    requires
        call_ensures(launch_plan, (&profile, is_file), r),
    ensures
        r is Ok <==> is_file,
        r matches Ok(plan) ==> plan.program@ == profile@.path && text_of(plan.folder)
            == crate::paths::folder_of(profile@.path),
        r matches Err(text) ==> text@ == "нет файла "@ + profile@.path,
{
}

/// A window that was handled is not handled again at once; one that is no window of a game is not
/// remembered.
pub proof fn law_handled_windows_are_remembered(
    watcher: &mut BorderlessWatcher,
    hwnd: isize,
    now: u64,
    name: &str,
    outcome: Borderless,
    r: Option<String>,
)
    requires
        call_ensures(BorderlessWatcher::finish, (watcher, hwnd, now, name, outcome), r),
    ensures
        outcome is NotAGameWindow ==> final(watcher).last == old(watcher).last && text_of(
            final(watcher).problem,
        ) == text_of(old(watcher).problem) && text_of(r) is None,
        !(outcome is NotAGameWindow) ==> final(watcher).last == Some((hwnd, now)),
        outcome is Applied || outcome is AlreadyDone ==> text_of(final(watcher).problem) is None,
        outcome is Applied ==> text_of(r) == Some(name@ + ": окно без рамки на весь монитор"@),
        outcome is AlreadyDone ==> text_of(r) is None,
        outcome is Denied ==> text_of(final(watcher).problem) == Some(
            name@ + ": окно не изменить — игра запущена от администратора"@,
        ),
        outcome matches Borderless::Failed(error) ==> text_of(final(watcher).problem) == Some(
            name@ + ": окно не изменено: "@ + error@,
        ),
{
}

/// Only the window in front is handled, only where it is of a game that wants it, not of this
/// program, and not while it rests.
pub proof fn law_front_window_is_handled(
    watcher: &mut BorderlessWatcher,
    games: Vec<GameProfile>,
    front: Option<FrontWindow>,
    own_pid: u32,
    now: u64,
    r: Option<usize>,
)
    requires
        call_ensures(BorderlessWatcher::tick, (watcher, &games, &front, own_pid, now), r),
    ensures
        r matches Some(at) ==> front is Some && front->0.pid != own_pid && front->0.image is Some
            && at < games.len() && borderless_game(
            crate::settings::game_views(games@),
            front->0.image->0@,
        ) == Some(at as int) && !resting(old(watcher).last, front->0.hwnd, now),
        front is Some && front->0.pid != own_pid && front->0.image is Some && !resting(
            old(watcher).last,
            front->0.hwnd,
            now,
        ) && borderless_game(crate::settings::game_views(games@), front->0.image->0@) is Some
            ==> r is Some,
        final(watcher).last == old(watcher).last,
{
}

proof fn lemma_argument_grows(
    current: Seq<char>,
    quoted: bool,
    started: bool,
    word: Seq<char>,
    rest: Seq<char>,
)
    requires
        forall|i: int|
            0 <= i < word.len() ==> #[trigger] word[i] != '"' && (quoted || !is_white_space(word[i])),
    ensures
        arguments_from(current, quoted, started, word + rest) == arguments_from(
            current + word,
            quoted,
            started || word.len() > 0,
            rest,
        ),
    decreases word.len(),
{
    if word.len() == 0 {
        assert(word + rest =~= rest);
        assert(current + word =~= current);
    } else {
        assert((word + rest)[0] == word[0]);
        assert((word + rest).skip(1) =~= word.skip(1) + rest);
        assert forall|i: int| 0 <= i < word.skip(1).len() implies #[trigger] word.skip(1)[i] != '"'
            && (quoted || !is_white_space(word.skip(1)[i])) by {
            assert(word.skip(1)[i] == word[i + 1]);
        }
        lemma_argument_grows(current.push(word[0]), quoted, true, word.skip(1), rest);
        assert(current.push(word[0]) + word.skip(1) =~= current + word);
    }
}

/// The arguments of a game come apart at white space, and white space between quotes parts nothing:
/// an argument in front is taken whole, without its quotes, and the rest as if it stood alone.
pub proof fn law_arguments_come_apart(word: Seq<char>, space: char, rest: Seq<char>)
    requires
        is_white_space(space),
        space != '"',
        forall|i: int| 0 <= i < word.len() ==> #[trigger] word[i] != '"',
    ensures
        ({
            let split = |text: Seq<char>| arguments_from(seq![], false, false, text);
            let plain = word.len() > 0 && forall|i: int|
                0 <= i < word.len() ==> !is_white_space(#[trigger] word[i]);
            &&& plain ==> split(word) == seq![word]
            &&& plain ==> split(word + (seq![space] + rest)) == seq![word] + split(rest)
            &&& split(seq!['"'] + (word + seq!['"'])) == seq![word]
            &&& split(seq!['"'] + (word + (seq!['"', space] + rest))) == seq![word] + split(rest)
            &&& split(seq![space] + rest) == split(rest)
            &&& split(seq![]) == Seq::<Seq<char>>::empty()
        }),
{
    let none = Seq::<char>::empty();
    assert(none + word =~= word);
    assert((seq![space] + rest).skip(1) =~= rest);
    if word.len() > 0 && forall|i: int|
        0 <= i < word.len() ==> !is_white_space(#[trigger] word[i]) {
        lemma_argument_grows(none, false, false, word, none);
        assert(word + none =~= word);
        lemma_argument_grows(none, false, false, word, seq![space] + rest);
    }
    let closed = seq!['"'] + (word + seq!['"']);
    assert(closed.skip(1) =~= word + seq!['"']);
    lemma_argument_grows(none, true, true, word, seq!['"']);
    assert(seq!['"'].skip(1) =~= none);
    reveal_with_fuel(arguments_from, 3);
    assert(arguments_from(word, true, true, seq!['"']) == seq![word]);
    let more = seq!['"', space] + rest;
    let open = seq!['"'] + (word + more);
    assert(open.skip(1) =~= word + more);
    lemma_argument_grows(none, true, true, word, more);
    assert(more.skip(1) =~= seq![space] + rest);
}

} // verus!
