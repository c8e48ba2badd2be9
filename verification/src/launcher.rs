//! The launcher: its registry of demos, the menu it draws from it, the
//! mapping from terminal key events to keys, and the decision taken for
//! each key pressed.
use vstd::prelude::*;

use crate::style::{BLU, CYN, DIM, GRN, RED, RST};

verus! {

/// The language a demo is written in; it decides the colour the demo is
/// listed in, and demos of one language are listed together.
#[derive(Clone, Copy, Debug, PartialEq, Eq, Structural)]
pub enum Lang {
    C,
    Rust,
    TypeScript,
}

/// Colour in which the demos of `lang` are listed.
pub open spec fn lang_color_text(lang: Lang) -> Seq<char> {
    match lang {
        Lang::C => RED@,
        Lang::Rust => GRN@,
        Lang::TypeScript => BLU@,
    }
}

/// Colour in which the demos of `lang` are listed.
pub fn lang_color(lang: Lang) -> (r: &'static str)
    ensures
        r@ == lang_color_text(lang),
{
    match lang {
        Lang::C => RED,
        Lang::Rust => GRN,
        Lang::TypeScript => BLU,
    }
}

/// A program to start: its path, its arguments and the directory, relative
/// to the project root, it runs in.
#[derive(Debug)]
pub struct Command {
    pub prog: &'static str,
    pub args: Vec<&'static str>,
    pub subdir: &'static str,
}

/// One entry of the launcher menu.
#[derive(Debug)]
pub struct Demo {
    /// The key that starts the demo.
    pub key: char,
    pub label: &'static str,
    pub lang: Lang,
    /// A remark shown after the label.
    pub note: Option<&'static str>,
    /// How to build the demo before it runs, if it needs building.
    pub build: Option<Command>,
    pub run: Command,
}

/// `c` runs `prog` with `args` in `subdir`.
pub open spec fn command_is(c: Command, prog: Seq<char>, args: Seq<Seq<char>>, subdir: Seq<char>) -> bool {
    &&& c.prog@ == prog
    &&& c.args@.len() == args.len()
    &&& forall|i: int| 0 <= i < args.len() ==> (#[trigger] c.args@[i])@ == args[i]
    &&& c.subdir@ == subdir
}

/// `d` is the demo described by the other arguments.
pub open spec fn demo_is(
    d: Demo,
    key: char,
    label: Seq<char>,
    lang: Lang,
    note: Option<Seq<char>>,
    build: Option<(Seq<char>, Seq<Seq<char>>, Seq<char>)>,
    run: (Seq<char>, Seq<Seq<char>>, Seq<char>),
) -> bool {
    &&& d.key == key
    &&& d.label@ == label
    &&& d.lang == lang
    &&& match note {
        Some(n) => d.note is Some && d.note->0@ == n,
        None => d.note is None,
    }
    &&& match build {
        Some(b) => d.build is Some && command_is(d.build->0, b.0, b.1, b.2),
        None => d.build is None,
    }
    &&& command_is(d.run, run.0, run.1, run.2)
}

/// Number of demos the launcher offers.
pub const DEMO_COUNT: usize = 10;

/// `ds` is the launcher's registry, entry by entry.
pub open spec fn is_registry(ds: Seq<Demo>) -> bool {
    &&& ds.len() == DEMO_COUNT
    &&& demo_is(ds[0], '1', "C          ·  Part 1 — Array access horrors"@, Lang::C, None, Some(("make"@, seq!["main"@], "c"@)), ("./main"@, seq![], "c"@))
    &&& demo_is(ds[1], '2', "C          ·  Part 2 — Pointer lifetime horrors"@, Lang::C, None, Some(("make"@, seq!["part2"@], "c"@)), ("./part2"@, seq![], "c"@))
    &&& demo_is(ds[2], '3', "C          ·  Part 3 — Performance & verbosity"@, Lang::C, None, Some(("make"@, seq!["part3"@], "c"@)), ("./part3"@, seq![], "c"@))
    &&& demo_is(ds[3], '4', "Rust       ·  Part 1 — Array safety"@, Lang::Rust, None, Some(("cargo"@, seq!["build"@, "--bin"@, "array-horror-rs"@], "rust"@)), ("./target/debug/array-horror-rs"@, seq![], "rust"@))
    &&& demo_is(ds[4], '5', "Rust       ·  Part 2 — Ownership / lifetimes"@, Lang::Rust, None, Some(("cargo"@, seq!["build"@, "--bin"@, "part2"@], "rust"@)), ("./target/debug/part2"@, seq![], "rust"@))
    &&& demo_is(ds[5], '6', "Rust       ·  Part 3 — Performance & verbosity"@, Lang::Rust, Some("--release"@), Some(("cargo"@, seq!["build"@, "--release"@, "--bin"@, "part3"@], "rust"@)), ("./target/release/part3"@, seq![], "rust"@))
    &&& demo_is(ds[6], '7', "TypeScript ·  Part 1 — Array safety"@, Lang::TypeScript, None, None, ("bun"@, seq!["run"@, "src/main.ts"@], "typescript"@))
    &&& demo_is(ds[7], '8', "TypeScript ·  Part 2 — GC / null safety"@, Lang::TypeScript, None, None, ("bun"@, seq!["run"@, "src/part2.ts"@], "typescript"@))
    &&& demo_is(ds[8], '9', "TypeScript ·  Part 3 — Performance & verbosity"@, Lang::TypeScript, None, None, ("bun"@, seq!["run"@, "src/part3.ts"@], "typescript"@))
    &&& demo_is(ds[9], 'b', "C          ·  Bonus — The Cryptic Signature"@, Lang::C, Some("☠"@), Some(("make"@, seq!["bonus"@], "c"@)), ("./bonus"@, seq![], "c"@))
}

/// The launcher's registry of demos, in menu order.
pub fn demos() -> (ds: Vec<Demo>)
    ensures
        is_registry(ds@),
{
    let mut ds: Vec<Demo> = Vec::new();
    ds.push(Demo {
        key: '1',
        label: "C          ·  Part 1 — Array access horrors",
        lang: Lang::C,
        note: None,
        build: Some(Command { prog: "make", args: vec!["main"], subdir: "c" }),
        run: Command { prog: "./main", args: Vec::new(), subdir: "c" },
    });
    ds.push(Demo {
        key: '2',
        label: "C          ·  Part 2 — Pointer lifetime horrors",
        lang: Lang::C,
        note: None,
        build: Some(Command { prog: "make", args: vec!["part2"], subdir: "c" }),
        run: Command { prog: "./part2", args: Vec::new(), subdir: "c" },
    });
    ds.push(Demo {
        key: '3',
        label: "C          ·  Part 3 — Performance & verbosity",
        lang: Lang::C,
        note: None,
        build: Some(Command { prog: "make", args: vec!["part3"], subdir: "c" }),
        run: Command { prog: "./part3", args: Vec::new(), subdir: "c" },
    });
    ds.push(Demo {
        key: '4',
        label: "Rust       ·  Part 1 — Array safety",
        lang: Lang::Rust,
        note: None,
        build: Some(Command { prog: "cargo", args: vec!["build", "--bin", "array-horror-rs"], subdir: "rust" }),
        run: Command { prog: "./target/debug/array-horror-rs", args: Vec::new(), subdir: "rust" },
    });
    ds.push(Demo {
        key: '5',
        label: "Rust       ·  Part 2 — Ownership / lifetimes",
        lang: Lang::Rust,
        note: None,
        build: Some(Command { prog: "cargo", args: vec!["build", "--bin", "part2"], subdir: "rust" }),
        run: Command { prog: "./target/debug/part2", args: Vec::new(), subdir: "rust" },
    });
    ds.push(Demo {
        key: '6',
        label: "Rust       ·  Part 3 — Performance & verbosity",
        lang: Lang::Rust,
        note: Some("--release"),
        build: Some(Command { prog: "cargo", args: vec!["build", "--release", "--bin", "part3"], subdir: "rust" }),
        run: Command { prog: "./target/release/part3", args: Vec::new(), subdir: "rust" },
    });
    ds.push(Demo {
        key: '7',
        label: "TypeScript ·  Part 1 — Array safety",
        lang: Lang::TypeScript,
        note: None,
        build: None,
        run: Command { prog: "bun", args: vec!["run", "src/main.ts"], subdir: "typescript" },
    });
    ds.push(Demo {
        key: '8',
        label: "TypeScript ·  Part 2 — GC / null safety",
        lang: Lang::TypeScript,
        note: None,
        build: None,
        run: Command { prog: "bun", args: vec!["run", "src/part2.ts"], subdir: "typescript" },
    });
    ds.push(Demo {
        key: '9',
        label: "TypeScript ·  Part 3 — Performance & verbosity",
        lang: Lang::TypeScript,
        note: None,
        build: None,
        run: Command { prog: "bun", args: vec!["run", "src/part3.ts"], subdir: "typescript" },
    });
    ds.push(Demo {
        key: 'b',
        label: "C          ·  Bonus — The Cryptic Signature",
        lang: Lang::C,
        note: Some("☠"),
        build: Some(Command { prog: "make", args: vec!["bonus"], subdir: "c" }),
        run: Command { prog: "./bonus", args: Vec::new(), subdir: "c" },
    });
    ds
}

/// Ctrl-C, as a key.
pub const CTRL_C: char = '\x03';
/// The escape key.
pub const ESC: char = '\x1b';

/// What the launcher does after a key press.
#[derive(Clone, Copy, Debug, PartialEq, Eq, Structural)]
pub enum LauncherAction {
    /// Leave the launcher.
    Quit,
    /// Do nothing; the menu is drawn again.
    Ignore,
    /// Build, if needed, and run the demo at this position of the registry.
    Launch(usize),
}

/// Keys that leave the launcher: Ctrl-C, `q` and `Q`.
pub open spec fn is_quit_key(key: char) -> bool {
    key == CTRL_C || key == 'q' || key == 'Q'
}

/// `i` is the first position in `ds` of a demo started by `key`.
pub open spec fn first_with_key(ds: Seq<Demo>, key: char, i: int) -> bool {
    &&& 0 <= i < ds.len()
    &&& ds[i].key == key
    &&& forall|j: int| 0 <= j < i ==> (#[trigger] ds[j]).key != key
}

/// The launcher's decision for `key`: quit keys quit, escape is ignored,
/// otherwise the first demo listed under that key starts, and a key that no
/// demo has is ignored.
pub open spec fn launcher_decision(ds: Seq<Demo>, key: char) -> LauncherAction {
    if is_quit_key(key) {
        LauncherAction::Quit
    } else if key == ESC {
        LauncherAction::Ignore
    } else if exists|i: int| first_with_key(ds, key, i) {
        LauncherAction::Launch((choose|i: int| first_with_key(ds, key, i)) as usize)
    } else {
        LauncherAction::Ignore
    }
}

proof fn lemma_first_with_key_unique(ds: Seq<Demo>, key: char, i: int, k: int)
    requires
        first_with_key(ds, key, i),
        first_with_key(ds, key, k),
    ensures
        i == k,
{
    if i < k {
        assert(ds[i].key != key);
    } else if k < i {
        assert(ds[k].key != key);
    }
}

/// Decides what the launcher does with a key read at the menu.
pub fn launcher_step(ds: &Vec<Demo>, key: char) -> (r: LauncherAction)
    ensures
        r == launcher_decision(ds@, key),
{
    if key == CTRL_C || key == 'q' || key == 'Q' {
        return LauncherAction::Quit;
    }
    if key == ESC {
        return LauncherAction::Ignore;
    }
    let mut i: usize = 0;
    while i < ds.len()
        invariant
            i <= ds@.len(),
            !is_quit_key(key),
            key != ESC,
            forall|j: int| 0 <= j < i ==> (#[trigger] ds@[j]).key != key,
        decreases ds@.len() - i,
    {
        if ds[i].key == key {
            proof {
                assert(first_with_key(ds@, key, i as int));
                let k = choose|k: int| first_with_key(ds@, key, k);
                lemma_first_with_key_unique(ds@, key, i as int, k);
            }
            return LauncherAction::Launch(i);
        }
        i = i + 1;
    }
    assert(!exists|k: int| first_with_key(ds@, key, k));
    LauncherAction::Ignore
}

/// The launcher's registry gives every demo its own key, none of which
/// quits or is the escape key, so pressing a demo's key starts exactly that
/// demo.
pub proof fn law_registry_keys(ds: Seq<Demo>)
    requires
        is_registry(ds),
    ensures
        forall|i: int, j: int| 0 <= i < j < ds.len() ==> ds[i].key != ds[j].key,
        forall|i: int|
            0 <= i < ds.len() ==> launcher_decision(ds, #[trigger] ds[i].key) == LauncherAction::Launch(
                i as usize,
            ),
{
    assert forall|i: int, j: int| 0 <= i < j < ds.len() implies ds[i].key != ds[j].key by {
        assert(0 <= i < 10 && 0 <= j < 10);
    }
    assert forall|i: int| 0 <= i < ds.len() implies launcher_decision(ds, #[trigger] ds[i].key)
        == LauncherAction::Launch(i as usize) by {
        let key = ds[i].key;
        assert(!is_quit_key(key) && key != ESC);
        assert forall|j: int| 0 <= j < i implies (#[trigger] ds[j]).key != key by {
            assert(ds[j].key != ds[i].key);
        }
        assert(first_with_key(ds, key, i));
        let k = choose|k: int| first_with_key(ds, key, k);
        lemma_first_with_key_unique(ds, key, i, k);
    }
}

/// What each key does, case by case: only Ctrl-C, `q` and `Q` quit; escape
/// is ignored; any other key launches the first demo listed under it, and a
/// key no demo has is ignored.
pub proof fn law_launcher_cases(ds: Seq<Demo>, key: char, i: int)
    ensures
        (key == '\x03' || key == 'q' || key == 'Q') ==> launcher_decision(ds, key)
            == LauncherAction::Quit,
        key == '\x1b' ==> launcher_decision(ds, key) == LauncherAction::Ignore,
        key != '\x03' && key != 'q' && key != 'Q' && (forall|j: int|
            0 <= j < ds.len() ==> (#[trigger] ds[j]).key != key) ==> launcher_decision(ds, key)
            == LauncherAction::Ignore,
        key != '\x03' && key != 'q' && key != 'Q' && key != '\x1b' && 0 <= i < ds.len() && ds[i].key
            == key && (forall|j: int| 0 <= j < i ==> (#[trigger] ds[j]).key != key)
            ==> launcher_decision(ds, key) == LauncherAction::Launch(i as usize),
{
    if key != '\x03' && key != 'q' && key != 'Q' && key != '\x1b' && 0 <= i < ds.len() && ds[i].key
        == key && (forall|j: int| 0 <= j < i ==> (#[trigger] ds[j]).key != key) {
        assert(first_with_key(ds, key, i));
        let k = choose|k: int| first_with_key(ds, key, k);
        lemma_first_with_key_unique(ds, key, i, k);
    }
}

/// How terminal events are read as keys: a pressed character key is that
/// character, except `c` with Control, which is Ctrl-C; Escape and Enter
/// are read as escape and a newline; other keys, and events that are not
/// key presses, are skipped.
pub proof fn law_key_events(c: char, ctrl: bool, pressed: bool)
    ensures
        key_of_event(TermEvent::Key(KeyInput { key: Key::Char(c), ctrl, pressed: true }))
            == if c == 'c' && ctrl {
            Some('\x03')
        } else {
            Some(c)
        },
        key_of_event(TermEvent::Key(KeyInput { key: Key::Esc, ctrl, pressed: true })) == Some('\x1b'),
        key_of_event(TermEvent::Key(KeyInput { key: Key::Enter, ctrl, pressed: true })) == Some('\n'),
        key_of_event(TermEvent::Key(KeyInput { key: Key::Other, ctrl, pressed })) == None::<char>,
        key_of_event(TermEvent::Key(KeyInput { key: Key::Char(c), ctrl, pressed: false })) == None::<char>,
        key_of_event(TermEvent::Key(KeyInput { key: Key::Esc, ctrl, pressed: false })) == None::<char>,
        key_of_event(TermEvent::Key(KeyInput { key: Key::Enter, ctrl, pressed: false })) == None::<char>,
        key_of_event(TermEvent::Other) == None::<char>,
{
}

/// Ctrl-C pressed at the menu is read as `CTRL_C` and always leaves the
/// launcher, whatever demos are registered.
pub proof fn law_ctrl_c_quits(ds: Seq<Demo>, ev: KeyInput)
    requires
        ev.key == Key::Char('c'),
        ev.ctrl,
        ev.pressed,
    ensures
        key_of_event(TermEvent::Key(ev)) == Some(CTRL_C),
        launcher_decision(ds, CTRL_C) == LauncherAction::Quit,
{
}

/// Whether the key pressed is echoed on its own line (Enter and carriage
/// return only end the line).
pub fn echo_key(key: char) -> (r: bool)
    ensures
        r == (key != '\r' && key != '\n'),
{
    key != '\r' && key != '\n'
}

/// The key named by a terminal key event.
#[derive(Clone, Copy, Debug, PartialEq, Eq, Structural)]
pub enum Key {
    Char(char),
    Esc,
    Enter,
    /// Any other key (arrows, function keys, ...).
    Other,
}

/// A key event as the terminal reports it.
#[derive(Clone, Copy, Debug, PartialEq, Eq, Structural)]
pub struct KeyInput {
    pub key: Key,
    /// The Control modifier was held.
    pub ctrl: bool,
    /// The event is a press (not a repeat or a release).
    pub pressed: bool,
}

/// An event read from the terminal.
#[derive(Clone, Copy, Debug, PartialEq, Eq, Structural)]
pub enum TermEvent {
    Key(KeyInput),
    /// Mouse, resize, focus or paste events.
    Other,
}

/// The character the launcher reads from an event: Ctrl-C becomes `CTRL_C`,
/// a character key itself, Escape `ESC` and Enter a newline; anything else,
/// and anything that is not a key press, yields nothing and is skipped.
pub open spec fn key_of_event(ev: TermEvent) -> Option<char> {
    match ev {
        TermEvent::Key(k) => if !k.pressed {
            None
        } else {
            match k.key {
                Key::Char(c) => if c == 'c' && k.ctrl {
                    Some(CTRL_C)
                } else {
                    Some(c)
                },
                Key::Esc => Some(ESC),
                Key::Enter => Some('\n'),
                Key::Other => None,
            }
        },
        TermEvent::Other => None,
    }
}

/// The character the launcher reads from a terminal event, if any.
pub fn key_char(ev: TermEvent) -> (r: Option<char>)
    ensures
        r == key_of_event(ev),
{
    match ev {
        TermEvent::Key(k) => {
            if !k.pressed {
                None
            } else {
                match k.key {
                    Key::Char(c) => {
                        if c == 'c' && k.ctrl {
                            Some(CTRL_C)
                        } else {
                            Some(c)
                        }
                    },
                    Key::Esc => Some(ESC),
                    Key::Enter => Some('\n'),
                    Key::Other => None,
                }
            }
        },
        TermEvent::Other => None,
    }
}

/// Whether waiting for "any key" ends with this read: any key press, or a
/// failed read (`None`), ends it; other events are skipped.
pub fn ends_wait(read: Option<TermEvent>) -> (r: bool)
    ensures
        r == match read {
            None => true,
            Some(TermEvent::Key(k)) => k.pressed,
            Some(TermEvent::Other) => false,
        },
{
    match read {
        None => true,
        Some(TermEvent::Key(k)) => k.pressed,
        Some(TermEvent::Other) => false,
    }
}

/// How building a demo went.
#[derive(Clone, Copy, Debug, PartialEq, Eq, Structural)]
pub enum BuildOutcome {
    /// The demo needs no build step.
    NotNeeded,
    /// The build command ran and succeeded.
    Succeeded,
    /// The build command ran and failed.
    Failed,
    /// The build command could not be started.
    CouldNotStart,
}

/// Whether the demo runs after its build step: only when no build was
/// needed or the build succeeded.
pub fn should_run(outcome: BuildOutcome) -> (r: bool)
    ensures
        r == (outcome == BuildOutcome::NotNeeded || outcome == BuildOutcome::Succeeded),
{
    match outcome {
        BuildOutcome::NotNeeded => true,
        BuildOutcome::Succeeded => true,
        BuildOutcome::Failed => false,
        BuildOutcome::CouldNotStart => false,
    }
}

/// The text of a character on its own.
///
/// Trusted: calls `char::to_string`, whose `Display` form of a character
/// is that one character.
#[verifier::external_body]
fn char_text(c: char) -> (r: String)
    ensures
        r@ == seq![c],
{
    c.to_string()
}

/// The remark shown after a demo's label, if it has one.
pub open spec fn note_text(note: Option<&'static str>) -> Seq<char> {
    match note {
        Some(n) => "  "@ + DIM@ + "("@ + n@ + ")"@ + RST@,
        None => Seq::empty(),
    }
}

/// The menu line of a demo: its key, then its label in its language's
/// colour, then its remark.
pub open spec fn entry_text(d: Demo) -> Seq<char> {
    "    "@ + CYN@ + seq![d.key] + ")"@ + RST@ + "  "@ + lang_color_text(d.lang) + d.label@ + RST@
        + note_text(d.note)
}

/// An empty line goes before the demo at `i` exactly when it starts a new
/// group: it is not the first and its language differs from the one before.
pub open spec fn break_before(ds: Seq<Demo>, i: int) -> bool {
    i > 0 && ds[i].lang != ds[i - 1].lang
}

/// The menu lines of the first `n` demos, with an empty line between groups.
pub open spec fn menu_body_text(ds: Seq<Demo>, n: nat) -> Seq<char>
    decreases n,
{
    if n == 0 {
        Seq::empty()
    } else {
        menu_body_text(ds, (n - 1) as nat) + (if break_before(ds, n - 1) {
            "\n"@
        } else {
            Seq::empty()
        }) + entry_text(ds[n - 1]) + "\n"@
    }
}

/// The menu line of one demo.
pub fn menu_entry(d: &Demo) -> (r: String)
    ensures
        r@ == entry_text(*d),
{
    let mut s = String::from_str("    ");
    s.append(CYN);
    let key = char_text(d.key);
    s.append(key.as_str());
    s.append(")");
    s.append(RST);
    s.append("  ");
    s.append(lang_color(d.lang));
    s.append(d.label);
    s.append(RST);
    match d.note {
        Some(n) => {
            s.append("  ");
            s.append(DIM);
            s.append("(");
            s.append(n);
            s.append(")");
            s.append(RST);
        },
        None => {},
    }
    s
}

/// The list of demos as the menu shows it: one line per demo, in registry
/// order, with an empty line wherever the language changes.
pub fn menu_body(ds: &Vec<Demo>) -> (r: String)
    ensures
        r@ == menu_body_text(ds@, ds@.len()),
{
    let mut out = String::new();
    let mut prev: Option<Lang> = None;
    let mut i: usize = 0;
    while i < ds.len()
        invariant
            i <= ds@.len(),
            out@ == menu_body_text(ds@, i as nat),
            i == 0 ==> prev is None,
            i > 0 ==> prev == Some(ds@[i - 1].lang),
        decreases ds@.len() - i,
    {
        let d = &ds[i];
        let mut changed = false;
        match prev {
            None => {},
            Some(l) => {
                if l != d.lang {
                    changed = true;
                }
            },
        }
        if changed {
            out.append("\n");
        }
        let line = menu_entry(d);
        out.append(line.as_str());
        out.append("\n");
        prev = Some(d.lang);
        i = i + 1;
    }
    out
}

/// The parent directory of a path, as `std::path::Path::parent` computes it.
pub uninterp spec fn path_parent(path: Seq<char>) -> Option<Seq<char>>;

/// The path `rel` resolved against `base`, as `std::path::Path::join`
/// computes it.
pub uninterp spec fn path_join(base: Seq<char>, rel: Seq<char>) -> Seq<char>;

/// The parent directory of `path`, if it has one.
///
/// Trusted: calls `std::path::Path::parent`; its result is named
/// `path_parent`. The standard library documents that the empty path, and a
/// path that ends in a root such as `/`, have no parent. The parent of a
/// path given as UTF-8 is a prefix of it, so the conversion back to a
/// string loses nothing.
#[verifier::external_body]
fn parent_of(path: &str) -> (r: Option<String>)
    ensures
        match r {
            Some(s) => path_parent(path@) == Some(s@),
            None => path_parent(path@) == None::<Seq<char>>,
        },
        path@.len() == 0 ==> r is None,
        path@ == seq!['/'] ==> r is None,
{
    match std::path::Path::new(path).parent() {
        Some(q) => Some(q.to_string_lossy().into_owned()),
        None => None,
    }
}

/// `rel` resolved against `base`.
///
/// Trusted: calls `std::path::Path::join`; its result is named
/// `path_join`. Joining two UTF-8 paths gives a UTF-8 path, so the
/// conversion back to a string loses nothing.
#[verifier::external_body]
fn join_path(base: &str, rel: &str) -> (r: String)
    ensures
        r@ == path_join(base@, rel@),
{
    std::path::Path::new(base).join(rel).to_string_lossy().into_owned()
}

/// The project root: the parent of the crate's manifest directory. A
/// manifest directory without a parent is refused.
pub fn project_root(manifest_dir: &str) -> (r: String)
    requires
        path_parent(manifest_dir@) is Some,
    ensures
        r@ == path_parent(manifest_dir@)->0,
{
    match parent_of(manifest_dir) {
        Some(root) => root,
        None => {
            proof {
                assert(false);
            }
            String::new()
        },
    }
}

/// The directory of a demo: `subdir` under the project root.
pub fn demo_dir(manifest_dir: &str, subdir: &str) -> (r: String)
    requires
        path_parent(manifest_dir@) is Some,
    ensures
        r@ == path_join(path_parent(manifest_dir@)->0, subdir@),
{
    let root = project_root(manifest_dir);
    join_path(root.as_str(), subdir)
}

/// The directory of a demo, or `None` when the manifest directory has no
/// parent to serve as the project root.
pub fn try_demo_dir(manifest_dir: &str, subdir: &str) -> (r: Option<String>)
    ensures
        match path_parent(manifest_dir@) {
            Some(root) => r is Some && r->0@ == path_join(root, subdir@),
            None => r is None,
        },
{
    match parent_of(manifest_dir) {
        Some(_) => Some(demo_dir(manifest_dir, subdir)),
        None => None,
    }
}

} // verus!
