//! Checkout filters of a repository, and the settings that switch them off for one command.

use vstd::prelude::*;
use vstd::string::*;
use vstd::utf8::*;

use crate::encoding::utf8_text;
use crate::errors::{GitErrorView, GitToolingError};
use crate::operations::{
    exited_with, has_exit_code, no_env, run_git, run_git_step, GitAnswer, GitProgress, GitReply,
    GitRun, GitStep, HostKind,
};
use crate::progress::{Progress, Step};
use crate::text::{
    chars_of, concat2, decimal, decimal_text, lemma_suffixes_come_off, list5, same_text, split,
    split_on, strip_suffix, without_suffix,
};

verus! {

/// The order of texts: by their first characters, then by the rest.
pub open spec fn text_before(a: Seq<char>, b: Seq<char>) -> bool
    decreases a.len(),
{
    if b.len() == 0 {
        false
    } else if a.len() == 0 {
        true
    } else {
        (a[0] as u32) < (b[0] as u32) || (a[0] == b[0] && text_before(
            a.drop_first(),
            b.drop_first(),
        ))
    }
}

/// A text is before another, or the other before it, or they are equal; never two of these.
proof fn lemma_order_total(a: Seq<char>, b: Seq<char>)
    ensures
        text_before(a, b) || text_before(b, a) || a == b,
        !(text_before(a, b) && text_before(b, a)),
        a == b ==> !text_before(a, b),
    decreases a.len(),
{
    if a.len() > 0 && b.len() > 0 {
        lemma_order_total(a.drop_first(), b.drop_first());
        char_u32_cast(a[0], a[0] as u32);
        char_u32_cast(b[0], b[0] as u32);
        if a.drop_first() == b.drop_first() && a[0] == b[0] {
            assert(a =~= seq![a[0]] + a.drop_first());
            assert(b =~= seq![b[0]] + b.drop_first());
        }
    } else if a.len() == 0 && b.len() == 0 {
        assert(a =~= b);
    }
}

proof fn lemma_order_transitive(a: Seq<char>, b: Seq<char>, c: Seq<char>)
    requires
        text_before(a, b),
        text_before(b, c),
    ensures
        text_before(a, c),
    decreases a.len(),
{
    if a.len() > 0 && b.len() > 0 && c.len() > 0 && a[0] == b[0] && b[0] == c[0] {
        lemma_order_transitive(a.drop_first(), b.drop_first(), c.drop_first());
    }
}

/// Whether `a` is before `b`.
fn is_before(a: &str, b: &str) -> (before: bool)
    ensures
        before == text_before(a@, b@),
{
    let a_chars: Vec<char> = chars_of(a);
    let b_chars: Vec<char> = chars_of(b);
    let mut i: usize = 0;
    assert(a@.skip(0) =~= a@);
    assert(b@.skip(0) =~= b@);
    while i < a_chars.len() && i < b_chars.len()
        invariant
            i <= a_chars.len(),
            i <= b_chars.len(),
            a_chars@ == a@,
            b_chars@ == b@,
            text_before(a@, b@) == text_before(a@.skip(i as int), b@.skip(i as int)),
        decreases a_chars.len() - i,
    {
        assert(a@.skip(i as int).drop_first() =~= a@.skip(i + 1));
        assert(b@.skip(i as int).drop_first() =~= b@.skip(i + 1));
        let x: u32 = a_chars[i] as u32;
        let y: u32 = b_chars[i] as u32;
        if x < y {
            return true;
        }
        if y < x {
            return false;
        }
        proof {
            char_u32_cast(a@[i as int], x);
            char_u32_cast(b@[i as int], y);
        }
        i += 1;
    }
    i < b_chars.len()
}

/// The driver whose setting a configuration key names.
pub open spec fn driver_of(key: Seq<char>) -> Option<Seq<char>> {
    match without_suffix(key, ".clean"@) {
        Some(driver) => Some(driver),
        None => match without_suffix(key, ".smudge"@) {
            Some(driver) => Some(driver),
            None => without_suffix(key, ".process"@),
        },
    }
}

fn driver_of_key(key: &str) -> (driver: Option<String>)
    ensures
        driver.deep_view() == driver_of(key@),
{
    match strip_suffix(key, ".clean") {
        Some(driver) => Some(driver),
        None => match strip_suffix(key, ".smudge") {
            Some(driver) => Some(driver),
            None => strip_suffix(key, ".process"),
        },
    }
}

/// An ordered list with `driver` in its place; a driver that is in the list stays as it is.
pub open spec fn with_driver(drivers: Seq<Seq<char>>, driver: Seq<char>) -> Seq<Seq<char>>
    decreases drivers.len(),
{
    if drivers.len() == 0 {
        seq![driver]
    } else if drivers.last() == driver {
        drivers
    } else if text_before(drivers.last(), driver) {
        drivers.push(driver)
    } else {
        with_driver(drivers.drop_last(), driver).push(drivers.last())
    }
}

/// The drivers that configuration keys name, in order and each once.
pub open spec fn drivers_of(keys: Seq<Seq<char>>) -> Seq<Seq<char>>
    decreases keys.len(),
{
    if keys.len() == 0 {
        Seq::empty()
    } else {
        match driver_of(keys.last()) {
            Some(driver) => with_driver(drivers_of(keys.drop_last()), driver),
            None => drivers_of(keys.drop_last()),
        }
    }
}

/// Each text of the list is before the ones behind it.
pub open spec fn is_ascending(list: Seq<Seq<char>>) -> bool {
    forall|i: int, j: int|
        0 <= i < j < list.len() ==> text_before(#[trigger] list[i], #[trigger] list[j])
}

proof fn lemma_with_driver(drivers: Seq<Seq<char>>, driver: Seq<char>)
    requires
        is_ascending(drivers),
    ensures
        is_ascending(with_driver(drivers, driver)),
        forall|text: Seq<char>|
            #[trigger] with_driver(drivers, driver).contains(text) <==> drivers.contains(text)
                || text == driver,
    decreases drivers.len(),
{
    let result = with_driver(drivers, driver);
    if drivers.len() == 0 {
        assert(result[0] == driver);
        assert forall|text: Seq<char>| #[trigger]
            result.contains(text) implies drivers.contains(text) || text == driver by {}
        assert(result.contains(driver));
    } else {
        let last = drivers.last();
        lemma_order_total(last, driver);
        if last == driver {
            assert(drivers[drivers.len() - 1] == driver);
        } else if text_before(last, driver) {
            assert forall|i: int, j: int| 0 <= i < j < result.len() implies text_before(
                #[trigger] result[i],
                #[trigger] result[j],
            ) by {
                if j == drivers.len() {
                    if i < drivers.len() - 1 {
                        assert(text_before(drivers[i], drivers[drivers.len() - 1]));
                        lemma_order_transitive(drivers[i], last, driver);
                    }
                } else {
                    assert(text_before(drivers[i], drivers[j]));
                }
            }
            assert forall|text: Seq<char>| #[trigger]
                result.contains(text) <==> drivers.contains(text) || text == driver by {
                if drivers.contains(text) {
                    let i = choose|i: int| 0 <= i < drivers.len() && drivers[i] == text;
                    assert(result[i] == text);
                }
                if text == driver {
                    assert(result[drivers.len() as int] == text);
                }
                if result.contains(text) {
                    let i = choose|i: int| 0 <= i < result.len() && result[i] == text;
                    if i < drivers.len() {
                        assert(drivers[i] == text);
                    }
                }
            }
        } else {
            let shorter = drivers.drop_last();
            assert forall|i: int, j: int| 0 <= i < j < shorter.len() implies text_before(
                #[trigger] shorter[i],
                #[trigger] shorter[j],
            ) by {
                assert(text_before(drivers[i], drivers[j]));
            }
            lemma_with_driver(shorter, driver);
            let inner = with_driver(shorter, driver);
            assert forall|i: int, j: int| 0 <= i < j < result.len() implies text_before(
                #[trigger] result[i],
                #[trigger] result[j],
            ) by {
                if j == inner.len() {
                    assert(inner.contains(inner[i]));
                    if inner[i] != driver {
                        let k = choose|k: int| 0 <= k < shorter.len() && shorter[k] == inner[i];
                        assert(text_before(drivers[k], drivers[drivers.len() - 1]));
                    }
                } else {
                    assert(text_before(inner[i], inner[j]));
                }
            }
            assert forall|text: Seq<char>| #[trigger]
                result.contains(text) <==> drivers.contains(text) || text == driver by {
                if drivers.contains(text) {
                    let i = choose|i: int| 0 <= i < drivers.len() && drivers[i] == text;
                    if i == drivers.len() - 1 {
                        assert(result[inner.len() as int] == text);
                    } else {
                        assert(shorter[i] == text);
                        assert(inner.contains(text));
                        let k = choose|k: int| 0 <= k < inner.len() && inner[k] == text;
                        assert(result[k] == text);
                    }
                }
                if text == driver {
                    assert(inner.contains(text));
                    let k = choose|k: int| 0 <= k < inner.len() && inner[k] == text;
                    assert(result[k] == text);
                }
                if result.contains(text) {
                    let i = choose|i: int| 0 <= i < result.len() && result[i] == text;
                    if i < inner.len() {
                        assert(inner.contains(inner[i]));
                        if text != driver {
                            let k = choose|k: int| 0 <= k < shorter.len() && shorter[k] == text;
                            assert(drivers[k] == text);
                        }
                    } else {
                        assert(drivers[drivers.len() - 1] == text);
                    }
                }
            }
        }
    }
}

/// The list of drivers is in order, holds no driver twice, and holds exactly those that some key
/// names.
pub proof fn lemma_drivers_are_those_of_the_keys(keys: Seq<Seq<char>>)
    ensures
        is_ascending(drivers_of(keys)),
        forall|driver: Seq<char>|
            #[trigger] drivers_of(keys).contains(driver) <==> exists|i: int|
                0 <= i < keys.len() && driver_of(#[trigger] keys[i]) == Some(driver),
    decreases keys.len(),
{
    if keys.len() > 0 {
        let shorter = keys.drop_last();
        let last = keys.last();
        lemma_drivers_are_those_of_the_keys(shorter);
        if let Some(driver) = driver_of(last) {
            lemma_with_driver(drivers_of(shorter), driver);
        }
        assert forall|driver: Seq<char>| #[trigger]
            drivers_of(keys).contains(driver) <==> exists|i: int|
                0 <= i < keys.len() && driver_of(#[trigger] keys[i]) == Some(driver) by {
            if drivers_of(keys).contains(driver) {
                if driver_of(last) == Some(driver) {
                    assert(driver_of(keys[keys.len() - 1]) == Some(driver));
                } else {
                    assert(drivers_of(shorter).contains(driver));
                    let i = choose|i: int|
                        0 <= i < shorter.len() && driver_of(#[trigger] shorter[i]) == Some(driver);
                    assert(driver_of(keys[i]) == Some(driver));
                }
            }
            if exists|i: int|
                0 <= i < keys.len() && driver_of(#[trigger] keys[i]) == Some(driver) {
                let i = choose|i: int|
                    0 <= i < keys.len() && driver_of(#[trigger] keys[i]) == Some(driver);
                if i < shorter.len() {
                    assert(driver_of(shorter[i]) == Some(driver));
                    assert(drivers_of(shorter).contains(driver));
                }
            }
        }
    }
}

/// Puts `driver` into its place in an ordered list.
fn insert_driver(drivers: &mut Vec<String>, driver: String)
    ensures
        final(drivers).deep_view() == with_driver(old(drivers).deep_view(), driver@),
{
    let ghost all = drivers.deep_view();
    let mut i: usize = drivers.len();
    assert(all.take(all.len() as int) =~= all);
    assert(with_driver(all, driver@) =~= with_driver(all.take(i as int), driver@) + all.skip(
        i as int,
    ));
    while i > 0 && is_before(driver.as_str(), drivers[i - 1].as_str())
        invariant
            i <= drivers.len(),
            all == drivers.deep_view(),
            with_driver(all, driver@) == with_driver(all.take(i as int), driver@) + all.skip(
                i as int,
            ),
        decreases i,
    {
        proof {
            let taken = all.take(i as int);
            assert(taken.drop_last() =~= all.take(i - 1));
            assert(taken.last() == drivers[i - 1]@);
            lemma_order_total(taken.last(), driver@);
            assert(with_driver(all.take(i - 1), driver@).push(taken.last()) + all.skip(i as int)
                =~= with_driver(all.take(i - 1), driver@) + all.skip(i - 1));
        }
        i -= 1;
    }
    proof {
        let taken = all.take(i as int);
        if i > 0 {
            assert(taken.last() == drivers[i - 1]@);
            lemma_order_total(taken.last(), driver@);
        }
    }
    if i > 0 && same_text(drivers[i - 1].as_str(), driver.as_str()) {
        assert(all.take(i as int) + all.skip(i as int) =~= all);
        return;
    }
    drivers.insert(i, driver);
    assert(drivers.deep_view() =~= all.insert(i as int, driver@));
    assert(all.take(i as int).push(driver@) + all.skip(i as int) =~= all.insert(
        i as int,
        driver@,
    ));
    assert(i == 0 ==> seq![driver@] =~= all.take(0).push(driver@));
}

/// The drivers named by the keys.
fn collect_drivers(keys: &Vec<String>) -> (drivers: Vec<String>)
    ensures
        drivers.deep_view() == drivers_of(keys.deep_view()),
{
    let mut drivers: Vec<String> = Vec::new();
    let mut i: usize = 0;
    assert(keys.deep_view().take(0) =~= Seq::<Seq<char>>::empty());
    assert(drivers.deep_view() =~= Seq::<Seq<char>>::empty());
    while i < keys.len()
        invariant
            i <= keys.len(),
            drivers.deep_view() == drivers_of(keys.deep_view().take(i as int)),
        decreases keys.len() - i,
    {
        assert(keys.deep_view().take(i + 1).drop_last() =~= keys.deep_view().take(i as int));
        assert(keys.deep_view().take(i + 1).last() == keys[i as int]@);
        if let Some(driver) = driver_of_key(keys[i].as_str()) {
            insert_driver(&mut drivers, driver);
        }
        i += 1;
    }
    assert(keys.deep_view().take(keys.len() as int) =~= keys.deep_view());
    drivers
}

/// The settings that switch drivers off: no command to run, and none required.
pub open spec fn driver_overrides(drivers: Seq<Seq<char>>) -> Seq<(Seq<char>, Seq<char>)>
    decreases drivers.len(),
{
    if drivers.len() == 0 {
        Seq::empty()
    } else {
        let driver = drivers.last();
        driver_overrides(drivers.drop_last()) + seq![
            (driver + ".clean"@, ""@),
            (driver + ".smudge"@, ""@),
            (driver + ".process"@, ""@),
            (driver + ".required"@, "false"@),
        ]
    }
}

/// The environment variables that hand settings to one git command, numbered from zero.
pub open spec fn setting_variables(settings: Seq<(Seq<char>, Seq<char>)>) -> Seq<
    (Seq<char>, Seq<char>),
>
    decreases settings.len(),
{
    if settings.len() == 0 {
        Seq::empty()
    } else {
        let index = decimal((settings.len() - 1) as nat);
        setting_variables(settings.drop_last()) + seq![
            ("GIT_CONFIG_KEY_"@ + index, settings.last().0),
            ("GIT_CONFIG_VALUE_"@ + index, settings.last().1),
        ]
    }
}

/// The environment that switches off the filters of the given drivers: the number of settings,
/// then the settings.
pub open spec fn filter_environment(drivers: Seq<Seq<char>>) -> Seq<(Seq<char>, Seq<char>)> {
    let settings = driver_overrides(drivers);
    seq![("GIT_CONFIG_COUNT"@, decimal(settings.len()))] + setting_variables(settings)
}

fn push_pair(list: &mut Vec<(String, String)>, key: String, value: String)
    ensures
        final(list).deep_view() == old(list).deep_view().push((key@, value@)),
{
    let ghost before = list.deep_view();
    list.push((key, value));
    assert(list.deep_view() =~= before.push((key@, value@)));
}

fn overrides_for(drivers: &Vec<String>) -> (settings: Vec<(String, String)>)
    ensures
        settings.deep_view() == driver_overrides(drivers.deep_view()),
{
    let mut settings: Vec<(String, String)> = Vec::new();
    let mut i: usize = 0;
    assert(drivers.deep_view().take(0) =~= Seq::<Seq<char>>::empty());
    assert(settings.deep_view() =~= Seq::<(Seq<char>, Seq<char>)>::empty());
    while i < drivers.len()
        invariant
            i <= drivers.len(),
            settings.deep_view() == driver_overrides(drivers.deep_view().take(i as int)),
        decreases drivers.len() - i,
    {
        let ghost before = settings.deep_view();
        assert(drivers.deep_view().take(i + 1).drop_last() =~= drivers.deep_view().take(i as int));
        assert(drivers.deep_view().take(i + 1).last() == drivers[i as int]@);
        let driver: &str = drivers[i].as_str();
        push_pair(&mut settings, concat2(driver, ".clean"), "".to_owned());
        push_pair(&mut settings, concat2(driver, ".smudge"), "".to_owned());
        push_pair(&mut settings, concat2(driver, ".process"), "".to_owned());
        push_pair(&mut settings, concat2(driver, ".required"), "false".to_owned());
        assert(settings.deep_view() =~= before + seq![
            (driver@ + ".clean"@, ""@),
            (driver@ + ".smudge"@, ""@),
            (driver@ + ".process"@, ""@),
            (driver@ + ".required"@, "false"@),
        ]);
        i += 1;
    }
    assert(drivers.deep_view().take(drivers.len() as int) =~= drivers.deep_view());
    settings
}

/// The environment that switches off the checkout filters of `drivers`.
pub fn environment_without_filters(drivers: &Vec<String>) -> (env: Vec<(String, String)>)
    ensures
        env.deep_view() == filter_environment(drivers.deep_view()),
{
    let settings: Vec<(String, String)> = overrides_for(drivers);
    let ghost all = settings.deep_view();
    let mut env: Vec<(String, String)> = Vec::new();
    push_pair(&mut env, "GIT_CONFIG_COUNT".to_owned(), decimal_text(settings.len() as u64));
    let ghost head = env.deep_view();
    assert(all.len() == settings.len());
    assert(head =~= seq![("GIT_CONFIG_COUNT"@, decimal(all.len()))]);
    let mut i: usize = 0;
    assert(all.take(0) =~= Seq::<(Seq<char>, Seq<char>)>::empty());
    assert(head + setting_variables(all.take(0)) =~= head);
    while i < settings.len()
        invariant
            i <= settings.len(),
            all == settings.deep_view(),
            env.deep_view() == head + setting_variables(all.take(i as int)),
        decreases settings.len() - i,
    {
        let ghost before = env.deep_view();
        assert(all.take(i + 1).drop_last() =~= all.take(i as int));
        assert(all.take(i + 1).last() == settings[i as int].deep_view());
        let index: String = decimal_text(i as u64);
        push_pair(&mut env, concat2("GIT_CONFIG_KEY_", index.as_str()), settings[i].0.clone());
        push_pair(&mut env, concat2("GIT_CONFIG_VALUE_", index.as_str()), settings[i].1.clone());
        assert(env.deep_view() =~= head + setting_variables(all.take(i + 1)));
        i += 1;
    }
    assert(all.take(all.len() as int) =~= all);
    env
}

/// What looking up the filters of a repository comes to: the environment that switches them off.
/// The exit code 1 means that none is configured.
pub open spec fn filter_env_step(
    dir: Seq<char>,
    host: HostKind,
    answers: Seq<GitAnswer>,
    at: int,
) -> GitStep<
    Seq<(Seq<char>, Seq<char>)>,
> {
    let args = seq![
        "config"@,
        "--null"@,
        "--name-only"@,
        "--get-regexp"@,
        r"^filter\..*\.(clean|smudge|process)$"@,
    ];
    match run_git_step(dir, args, no_env(), host, answers, at) {
        Step::Ask(ask) => Step::Ask(ask),
        Step::Failed(error, used) => if exited_with(error, 1) {
            Step::Done(no_env(), used)
        } else {
            Step::Failed(error, used)
        },
        Step::Done(run, used) => if valid_utf8(run.stdout) {
            Step::Done(
                filter_environment(drivers_of(split(decode_utf8(run.stdout), '\0'))),
                used,
            )
        } else {
            Step::Failed(GitErrorView::GitOutputUtf8 { command: run.command }, used)
        },
    }
}

/// The environment under which a checkout in `dir` runs none of its configured filters.
pub fn checkout_filter_config_env_overrides(
    dir: &str,
    host: HostKind,
    replies: &Vec<GitReply>,
    at: usize,
) -> (progress: GitProgress<Vec<(String, String)>>)
    ensures
        progress.deep_view() == filter_env_step(dir@, host, replies.deep_view(), at as int),
{
    let args: Vec<String> = list5(
        "config",
        "--null",
        "--name-only",
        "--get-regexp",
        r"^filter\..*\.(clean|smudge|process)$",
    );
    let none: Vec<(String, String)> = Vec::new();
    assert(none.deep_view() =~= no_env());
    match run_git(dir, args, none, host, replies, at) {
        Progress::Ask(ask) => Progress::Ask(ask),
        Progress::Failed(error, used) => {
            if has_exit_code(&error, 1) {
                let none: Vec<(String, String)> = Vec::new();
                assert(none.deep_view() =~= no_env());
                Progress::Done(none, used)
            } else {
                Progress::Failed(error, used)
            }
        },
        Progress::Done(run, used) => {
            let GitRun { command, stdout } = run;
            match utf8_text(stdout) {
                Some(text) => {
                    let keys: Vec<String> = split_on(text.as_str(), '\0');
                    let drivers: Vec<String> = collect_drivers(&keys);
                    Progress::Done(environment_without_filters(&drivers), used)
                },
                None => Progress::Failed(GitToolingError::GitOutputUtf8 { command }, used),
            }
        },
    }
}

proof fn lemma_setting_count(settings: Seq<(Seq<char>, Seq<char>)>)
    ensures
        setting_variables(settings).len() == 2 * settings.len(),
    decreases settings.len(),
{
    if settings.len() > 0 {
        lemma_setting_count(settings.drop_last());
    }
}

/// Every setting is handed to git under its own number.
pub proof fn lemma_setting_is_numbered(settings: Seq<(Seq<char>, Seq<char>)>, i: int)
    requires
        0 <= i < settings.len(),
    ensures
        setting_variables(settings).len() == 2 * settings.len(),
        setting_variables(settings)[2 * i] == ("GIT_CONFIG_KEY_"@ + decimal(i as nat), settings[i].0),
        setting_variables(settings)[2 * i + 1] == (
            "GIT_CONFIG_VALUE_"@ + decimal(i as nat),
            settings[i].1,
        ),
    decreases settings.len(),
{
    lemma_setting_count(settings);
    lemma_setting_count(settings.drop_last());
    if i < settings.len() - 1 {
        lemma_setting_is_numbered(settings.drop_last(), i);
    }
}

/// Every driver is switched off: none of its commands is left, and it is not required.
pub proof fn lemma_every_driver_is_switched_off(drivers: Seq<Seq<char>>, driver: Seq<char>)
    requires
        drivers.contains(driver),
    ensures
        driver_overrides(drivers).contains((driver + ".clean"@, ""@)),
        driver_overrides(drivers).contains((driver + ".smudge"@, ""@)),
        driver_overrides(drivers).contains((driver + ".process"@, ""@)),
        driver_overrides(drivers).contains((driver + ".required"@, "false"@)),
    decreases drivers.len(),
{
    let before = driver_overrides(drivers.drop_last());
    let all = driver_overrides(drivers);
    let n = before.len() as int;
    if drivers.last() == driver {
        assert(all[n] == (driver + ".clean"@, ""@));
        assert(all[n + 1] == (driver + ".smudge"@, ""@));
        assert(all[n + 2] == (driver + ".process"@, ""@));
        assert(all[n + 3] == (driver + ".required"@, "false"@));
    } else {
        let k = choose|k: int| 0 <= k < drivers.len() && drivers[k] == driver;
        assert(drivers.drop_last()[k] == driver);
        lemma_every_driver_is_switched_off(drivers.drop_last(), driver);
        assert forall|setting: (Seq<char>, Seq<char>)| before.contains(
            setting,
        ) implies #[trigger] all.contains(setting) by {
            let j = choose|j: int| 0 <= j < before.len() && before[j] == setting;
            assert(all[j] == setting);
        }
    }
}

/// A key of either command of a filter, or of its process, names the driver in front of it, and
/// there is no other key that names a driver.
pub proof fn lemma_each_command_names_its_driver(driver: Seq<char>)
    ensures
        driver_of(driver + ".clean"@) == Some(driver),
        driver_of(driver + ".smudge"@) == Some(driver),
        driver_of(driver + ".process"@) == Some(driver),
        forall|key: Seq<char>| #[trigger]
            driver_of(key) == Some(driver) ==> key == driver + ".clean"@ || key == driver
                + ".smudge"@ || key == driver + ".process"@,
{
    reveal_strlit(".clean");
    reveal_strlit(".smudge");
    reveal_strlit(".process");
    lemma_suffixes_come_off(driver, ".clean"@);
    lemma_suffixes_come_off(driver, ".smudge"@);
    lemma_suffixes_come_off(driver, ".process"@);
    let smudge = driver + ".smudge"@;
    let process = driver + ".process"@;
    assert(smudge[smudge.len() - 1] == 'e');
    assert(process[process.len() - 1] == 's');
    if let Some(rest) = without_suffix(smudge, ".clean"@) {
        lemma_suffixes_come_off(smudge, ".clean"@);
        assert((rest + ".clean"@)[smudge.len() - 1] == 'n');
    }
    if let Some(rest) = without_suffix(process, ".clean"@) {
        lemma_suffixes_come_off(process, ".clean"@);
        assert((rest + ".clean"@)[process.len() - 1] == 'n');
    }
    if let Some(rest) = without_suffix(process, ".smudge"@) {
        lemma_suffixes_come_off(process, ".smudge"@);
        assert((rest + ".smudge"@)[process.len() - 1] == 'e');
    }
    assert forall|key: Seq<char>| #[trigger] driver_of(key) == Some(driver) implies key == driver
        + ".clean"@ || key == driver + ".smudge"@ || key == driver + ".process"@ by {
        lemma_suffixes_come_off(key, ".clean"@);
        lemma_suffixes_come_off(key, ".smudge"@);
        lemma_suffixes_come_off(key, ".process"@);
    }
}

/// An environment hands git a setting: under some number, a variable names the setting and
/// another gives its value, and git is told of at least so many settings.
pub open spec fn hands_over(
    env: Seq<(Seq<char>, Seq<char>)>,
    key: Seq<char>,
    value: Seq<char>,
) -> bool {
    exists|i: int, n: int|
        0 <= i < n && env.contains(("GIT_CONFIG_COUNT"@, #[trigger] decimal(n as nat)))
            && env.contains(("GIT_CONFIG_KEY_"@ + #[trigger] decimal(i as nat), key))
            && env.contains(("GIT_CONFIG_VALUE_"@ + decimal(i as nat), value))
}

proof fn lemma_settings_are_handed_over(drivers: Seq<Seq<char>>, key: Seq<char>, value: Seq<char>)
    requires
        driver_overrides(drivers).contains((key, value)),
    ensures
        hands_over(filter_environment(drivers), key, value),
{
    let settings = driver_overrides(drivers);
    let env = filter_environment(drivers);
    let i = choose|i: int| 0 <= i < settings.len() && settings[i] == (key, value);
    lemma_setting_is_numbered(settings, i);
    assert(env[0] == ("GIT_CONFIG_COUNT"@, decimal(settings.len())));
    assert(env[2 * i + 1] == setting_variables(settings)[2 * i]);
    assert(env[2 * i + 2] == setting_variables(settings)[2 * i + 1]);
    let n = settings.len() as int;
    assert(env.contains(("GIT_CONFIG_COUNT"@, decimal(n as nat))));
    assert(env.contains(("GIT_CONFIG_KEY_"@ + decimal(i as nat), key)));
}

/// Whatever filters git lists for a repository, by either of their commands or by their process, a
/// checkout runs none of them: it is handed an empty text for each of their commands, and that
/// they are not required.
pub proof fn lemma_listed_filters_are_switched_off(
    dir: Seq<char>,
    host: HostKind,
    answers: Seq<GitAnswer>,
    at: int,
    listed: Seq<char>,
    driver: Seq<char>,
)
    requires
        0 <= at < answers.len(),
        answers[at] matches GitAnswer::Ran(Ok(output)) && output.success && valid_utf8(
            output.stdout,
        ) && decode_utf8(output.stdout) == listed,
        split(listed, '\0').contains(driver + ".clean"@) || split(listed, '\0').contains(
            driver + ".smudge"@,
        ) || split(listed, '\0').contains(driver + ".process"@),
    ensures
        filter_env_step(dir, host, answers, at) matches Step::Done(env, used) && {
            &&& used == at + 1
            &&& hands_over(env, driver + ".clean"@, Seq::empty())
            &&& hands_over(env, driver + ".smudge"@, Seq::empty())
            &&& hands_over(env, driver + ".process"@, Seq::empty())
            &&& hands_over(env, driver + ".required"@, "false"@)
        },
{
    let keys = split(listed, '\0');
    let drivers = drivers_of(keys);
    lemma_each_command_names_its_driver(driver);
    lemma_drivers_are_those_of_the_keys(keys);
    let i = choose|i: int|
        0 <= i < keys.len() && (keys[i] == driver + ".clean"@ || keys[i] == driver + ".smudge"@
            || keys[i] == driver + ".process"@);
    assert(driver_of(keys[i]) == Some(driver));
    assert(drivers.contains(driver));
    lemma_every_driver_is_switched_off(drivers, driver);
    reveal_strlit("");
    assert(""@ =~= Seq::<char>::empty());
    lemma_settings_are_handed_over(drivers, driver + ".clean"@, ""@);
    lemma_settings_are_handed_over(drivers, driver + ".smudge"@, ""@);
    lemma_settings_are_handed_over(drivers, driver + ".process"@, ""@);
    lemma_settings_are_handed_over(drivers, driver + ".required"@, "false"@);
}

proof fn lemma_override_count(drivers: Seq<Seq<char>>)
    ensures
        driver_overrides(drivers).len() == 4 * drivers.len(),
    decreases drivers.len(),
{
    if drivers.len() > 0 {
        lemma_override_count(drivers.drop_last());
    }
}

/// What a driver is switched off by, in turn.
pub open spec fn off_switch(driver: Seq<char>, which: int) -> (Seq<char>, Seq<char>) {
    if which == 0 {
        (driver + ".clean"@, Seq::empty())
    } else if which == 1 {
        (driver + ".smudge"@, Seq::empty())
    } else if which == 2 {
        (driver + ".process"@, Seq::empty())
    } else {
        (driver + ".required"@, "false"@)
    }
}

/// The environment of a checkout holds the number of settings and, for each driver in turn, four
/// settings under running numbers; and nothing else.
pub proof fn lemma_a_checkout_is_handed_four_settings_a_driver(
    drivers: Seq<Seq<char>>,
    i: int,
    which: int,
)
    requires
        0 <= i < drivers.len(),
        0 <= which < 4,
    ensures
        filter_environment(drivers).len() == 1 + 8 * drivers.len(),
        filter_environment(drivers)[0] == ("GIT_CONFIG_COUNT"@, decimal(4 * drivers.len())),
        filter_environment(drivers)[1 + 2 * (4 * i + which)] == (
            "GIT_CONFIG_KEY_"@ + decimal((4 * i + which) as nat),
            off_switch(drivers[i], which).0,
        ),
        filter_environment(drivers)[2 + 2 * (4 * i + which)] == (
            "GIT_CONFIG_VALUE_"@ + decimal((4 * i + which) as nat),
            off_switch(drivers[i], which).1,
        ),
{
    let settings = driver_overrides(drivers);
    lemma_override_count(drivers);
    lemma_setting_is_numbered(settings, 4 * i + which);
    lemma_override_place(drivers, i, which);
}

proof fn lemma_override_place(drivers: Seq<Seq<char>>, i: int, which: int)
    requires
        0 <= i < drivers.len(),
        0 <= which < 4,
    ensures
        driver_overrides(drivers)[4 * i + which] == off_switch(drivers[i], which),
    decreases drivers.len(),
{
    lemma_override_count(drivers.drop_last());
    reveal_strlit("");
    assert(""@ =~= Seq::<char>::empty());
    if i < drivers.len() - 1 {
        lemma_override_place(drivers.drop_last(), i, which);
        assert(driver_overrides(drivers)[4 * i + which] == driver_overrides(
            drivers.drop_last(),
        )[4 * i + which]);
    }
}

/// Texts are in the order of the first character in which they differ, and a text comes before
/// what it begins.
pub proof fn lemma_texts_are_ordered_by_their_characters(
    common: Seq<char>,
    a: char,
    b: char,
    rest_a: Seq<char>,
    rest_b: Seq<char>,
)
    ensures
        (a as u32) < (b as u32) ==> text_before(
            common + seq![a] + rest_a,
            common + seq![b] + rest_b,
        ) && !text_before(common + seq![b] + rest_b, common + seq![a] + rest_a),
        text_before(common, common + seq![a] + rest_a),
        !text_before(common + seq![a] + rest_a, common),
        !text_before(common, common),
    decreases common.len(),
{
    let left = common + seq![a] + rest_a;
    let right = common + seq![b] + rest_b;
    if common.len() > 0 {
        let shorter = common.drop_first();
        lemma_texts_are_ordered_by_their_characters(shorter, a, b, rest_a, rest_b);
        assert(left.drop_first() =~= shorter + seq![a] + rest_a);
        assert(right.drop_first() =~= shorter + seq![b] + rest_b);
        assert(left[0] == common[0] && right[0] == common[0]);
    } else {
        assert(left[0] == a && right[0] == b);
    }
}

/// A list of filters that is no text is a failure.
pub proof fn lemma_a_list_of_filters_has_to_be_text(
    dir: Seq<char>,
    host: HostKind,
    answers: Seq<GitAnswer>,
    at: int,
)
    requires
        0 <= at < answers.len(),
        answers[at] matches GitAnswer::Ran(Ok(output)) && output.success && !valid_utf8(
            output.stdout,
        ),
    ensures
        filter_env_step(dir, host, answers, at) matches Step::Failed(error, used) && used == at + 1
            && error is GitOutputUtf8,
{
}

} // verus!
