//! Backstitch's own settings, and what it does to Godot's editor.

use crate::config::{section_of, with_value, written, BackstitchConfig, SECTION};
use crate::ordered::value_at;
use crate::text::{list_has, same_text, text_in, texts};
use vstd::prelude::*;
use vstd::string::*;

verus! {

/// Reads and writes Backstitch's settings.
pub struct BackstitchConfigAccessor {}

impl BackstitchConfigAccessor {
    /// The id of the project's document; empty where the project has none.
    pub fn get_project_doc_id(config: &BackstitchConfig) -> (r: String)
        ensures
            r@ == match value_at(
                section_of(config.project_sections(), SECTION@),
                "project_doc_id"@,
            ) {
                Some(v) => v,
                None => ""@,
            },
    {
        BackstitchConfigAccessor::get_project_value(config, "project_doc_id", "")
    }

    /// A setting of the project, or the default.
    pub fn get_project_value(config: &BackstitchConfig, name: &str, default: &str) -> (r: String)
        ensures
            r@ == match value_at(section_of(config.project_sections(), SECTION@), name@) {
                Some(v) => v,
                None => default@,
            },
    {
        config.get_project_value(name, default)
    }

    /// Changes a setting of the project, and gives the text to save as the project's file.
    pub fn set_project_value(config: &mut BackstitchConfig, name: &str, value: &str) -> (text:
        String)
        ensures
            final(config).project_sections() == with_value(
                old(config).project_sections(),
                SECTION@,
                name@,
                value@,
            ),
            final(config).user_sections() == old(config).user_sections(),
            text@ == written(final(config).project_sections()),
    {
        config.set_project_value(name, value)
    }

    /// A setting of the user, or the default.
    pub fn get_user_value(config: &BackstitchConfig, name: &str, default: &str) -> (r: String)
        ensures
            r@ == match value_at(section_of(config.user_sections(), SECTION@), name@) {
                Some(v) => v,
                None => default@,
            },
    {
        config.get_user_value(name, default)
    }

    /// Changes a setting of the user, and gives the text to save as the user's file.
    pub fn set_user_value(config: &mut BackstitchConfig, name: &str, value: &str) -> (text: String)
        ensures
            final(config).user_sections() == with_value(
                old(config).user_sections(),
                SECTION@,
                name@,
                value@,
            ),
            final(config).project_sections() == old(config).project_sections(),
            text@ == written(final(config).user_sections()),
    {
        config.set_user_value(name, value)
    }
}

/// How a file that is open in the editor is closed.
#[derive(Debug)]
pub enum CloseAction {
    /// The scene that is being edited is closed.
    CloseScene,
    /// The script at this path is closed.
    CloseScript(String),
}

/// What closing a file does, over the paths themselves.
#[verifier::ext_equal]
pub enum Closing {
    Scene,
    Script(Seq<char>),
}

impl View for CloseAction {
    type V = Closing;

    open spec fn view(&self) -> Closing {
        match *self {
            CloseAction::CloseScene => Closing::Scene,
            CloseAction::CloseScript(path) => Closing::Script(path@),
        }
    }
}

/// What closes the files at the given paths: of the open scenes only the one that is being edited
/// is closed, and open scripts are.
pub open spec fn closings(
    paths: Seq<Seq<char>>,
    open_scenes: Seq<Seq<char>>,
    open_scripts: Seq<Seq<char>>,
    current_scene: Option<Seq<char>>,
) -> Seq<Closing>
    decreases paths.len(),
{
    if paths.len() == 0 {
        Seq::empty()
    } else {
        let path = paths.last();
        let before = closings(paths.drop_last(), open_scenes, open_scripts, current_scene);
        if open_scenes.contains(path) {
            if current_scene == Some(path) {
                before.push(Closing::Scene)
            } else {
                before
            }
        } else if open_scripts.contains(path) {
            before.push(Closing::Script(path))
        } else {
            before
        }
    }
}

/// The open scenes but the current one, in order.
pub open spec fn other_scenes(open: Seq<Seq<char>>, current: Option<Seq<char>>) -> Seq<Seq<char>> {
    open.filter(|path: Seq<char>| current != Some(path))
}

/// The scenes to load anew: the open ones, and the current one last.
pub open spec fn reloaded(open: Seq<Seq<char>>, current: Option<Seq<char>>) -> Seq<Seq<char>> {
    other_scenes(open, current) + match current {
        Some(path) => seq![path],
        None => Seq::empty(),
    }
}

/// What to do while the editor scans the project's files.
#[derive(Clone, Copy, Debug, PartialEq, Eq, Structural)]
pub enum ScanStep {
    /// The scan is over.
    Done,
    /// It took too long.
    TimedOut,
    /// It is looked at again after `SCAN_INTERVAL`.
    Wait,
}

/// How long a scan may take, in milliseconds.
pub const SCAN_TIMEOUT: u64 = 30000;

/// How often a scan is looked at, in milliseconds.
pub const SCAN_INTERVAL: u64 = 100;

/// Reads and changes what is open in Godot's editor.
pub struct BackstitchEditorAccessor {}

impl BackstitchEditorAccessor {
    /// Whether the editor is importing files; it is not where there is no editor to ask.
    pub fn is_editor_importing(importing: Option<bool>) -> (r: bool)
        ensures
            r == (importing == Some(true)),
    {
        match importing {
            Some(found) => found,
            None => false,
        }
    }

    /// Whether anything is open that was not saved.
    pub fn unsaved_files_open(unsaved_scripts: usize, unsaved_scenes: usize) -> (r: bool)
        ensures
            r == (unsaved_scripts > 0 || unsaved_scenes > 0),
    {
        if unsaved_scripts != 0 {
            return true;
        }
        if unsaved_scenes != 0 {
            return true;
        }
        false
    }

    /// What closes the files at the given paths.
    pub fn close_files_if_open(
        paths: &Vec<String>,
        open_scenes: &Vec<String>,
        open_scripts: &Vec<String>,
        current_scene: Option<&str>,
    ) -> (r: Vec<CloseAction>)
        ensures
            r@.map_values(|a: CloseAction| a@) == closings(
                texts(paths@),
                texts(open_scenes@),
                texts(open_scripts@),
                text_in(current_scene),
            ),
    {
        let mut out: Vec<CloseAction> = Vec::new();
        let mut i: usize = 0;
        let ghost all = texts(paths@);
        assert(out@.map_values(|a: CloseAction| a@) == Seq::<Closing>::empty());
        while i < paths.len()
            invariant
                i <= paths.len(),
                all == texts(paths@),
                out@.map_values(|a: CloseAction| a@) == closings(
                    all.take(i as int),
                    texts(open_scenes@),
                    texts(open_scripts@),
                    text_in(current_scene),
                ),
            decreases paths.len() - i,
        {
            let path = paths[i].as_str();
            let ghost before = out@;
            proof {
                assert(all.take(i + 1).drop_last() == all.take(i as int));
                assert(all.take(i + 1).last() == path@);
            }
            if list_has(open_scenes, path) {
                let edited = match current_scene {
                    Some(current) => same_text(current, path),
                    None => false,
                };
                if edited {
                    out.push(CloseAction::CloseScene);
                    assert(out@.map_values(|a: CloseAction| a@) == before.map_values(
                        |a: CloseAction| a@,
                    ).push(Closing::Scene));
                }
            } else if list_has(open_scripts, path) {
                out.push(CloseAction::CloseScript(path.to_owned()));
                assert(out@.map_values(|a: CloseAction| a@) == before.map_values(
                    |a: CloseAction| a@,
                ).push(Closing::Script(path@)));
            }
            i = i + 1;
        }
        assert(all.take(all.len() as int) == all);
        out
    }

    /// The scenes to load anew, in order: the open ones, and the one that is being edited last.
    pub fn reload_scene_files(open: &Vec<String>, current: Option<&str>) -> (r: Vec<String>)
        ensures
            texts(r@) == reloaded(texts(open@), text_in(current)),
    {
        let mut out: Vec<String> = Vec::new();
        let mut i: usize = 0;
        let ghost all = texts(open@);
        let ghost keep = |path: Seq<char>| text_in(current) != Some(path);
        proof {
            reveal(Seq::filter);
            assert(all.take(0).filter(keep) == Seq::<Seq<char>>::empty());
            assert(texts(out@) == Seq::<Seq<char>>::empty());
        }
        while i < open.len()
            invariant
                i <= open.len(),
                all == texts(open@),
                keep == (|path: Seq<char>| text_in(current) != Some(path)),
                texts(out@) == all.take(i as int).filter(keep),
            decreases open.len() - i,
        {
            let path = open[i].as_str();
            let edited = match current {
                Some(c) => same_text(c, path),
                None => false,
            };
            let ghost before = out@;
            proof {
                reveal(Seq::filter);
                assert(all.take(i + 1).drop_last() == all.take(i as int));
                assert(all.take(i + 1).last() == path@);
            }
            if !edited {
                out.push(path.to_owned());
                assert(texts(out@) == texts(before).push(path@));
            }
            i = i + 1;
        }
        assert(all.take(all.len() as int) == all);
        if let Some(c) = current {
            let ghost before = out@;
            out.push(c.to_owned());
            assert(texts(out@) == texts(before) + seq![c@]);
        } else {
            assert(texts(out@) == texts(out@) + Seq::<Seq<char>>::empty());
        }
        out
    }

    /// What to do next while the editor scans the project's files, this many milliseconds after
    /// the scan was started.
    pub fn scan_fs_sync(scanning: bool, elapsed: u64) -> (r: ScanStep)
        ensures
            r == (if !scanning {
                ScanStep::Done
            } else if elapsed >= SCAN_TIMEOUT {
                ScanStep::TimedOut
            } else {
                ScanStep::Wait
            }),
    {
        if !scanning {
            ScanStep::Done
        } else if elapsed >= SCAN_TIMEOUT {
            ScanStep::TimedOut
        } else {
            ScanStep::Wait
        }
    }

    /// Whether the open scripts and then the open scenes are loaded anew after the project's files
    /// changed: they are not where the scan of the files took too long.
    pub fn refresh_after_source_change(scan: ScanStep) -> (r: bool)
        ensures
            r == (scan == ScanStep::Done),
    {
        scan == ScanStep::Done
    }
}

/// Reads the state of Godot's view of the project's files.
pub struct EditorFilesystemAccessor {}

impl EditorFilesystemAccessor {
    /// Whether the editor is scanning files; it is not where there is no editor to ask.
    pub fn is_scanning(scanning: Option<bool>) -> (r: bool)
        ensures
            r == (scanning == Some(true)),
    {
        match scanning {
            Some(found) => found,
            None => false,
        }
    }
}


/// The scene that is being edited is closed where it is among the files, and so is every open
/// script; no other scene is, and nothing that is not open.
pub proof fn only_open_files_are_closed(
    paths: Seq<Seq<char>>,
    open_scenes: Seq<Seq<char>>,
    open_scripts: Seq<Seq<char>>,
    current_scene: Option<Seq<char>>,
    path: Seq<char>,
)
    ensures
        closings(paths, open_scenes, open_scripts, current_scene).contains(Closing::Script(path))
            <==> paths.contains(path) && open_scripts.contains(path) && !open_scenes.contains(path),
        closings(paths, open_scenes, open_scripts, current_scene).contains(Closing::Scene) <==> (
        current_scene is Some && paths.contains(current_scene->0) && open_scenes.contains(
            current_scene->0,
        )),
    decreases paths.len(),
{
    let all = closings(paths, open_scenes, open_scripts, current_scene);
    if paths.len() > 0 {
        let front = paths.drop_last();
        let last = paths.last();
        let before = closings(front, open_scenes, open_scripts, current_scene);
        only_open_files_are_closed(front, open_scenes, open_scripts, current_scene, path);
        lemma_pushed(front, last, path);
        assert(paths == front.push(last));
        if current_scene is Some {
            lemma_pushed(front, last, current_scene->0);
        }
        if all.len() > before.len() {
            let c = all.last();
            assert(all == before.push(c));
            lemma_pushed(before, c, Closing::Script(path));
            lemma_pushed(before, c, Closing::Scene);
        }
    }
}

proof fn lemma_pushed<A>(s: Seq<A>, last: A, a: A)
    ensures
        s.push(last).contains(a) <==> s.contains(a) || a == last,
{
    let t = s.push(last);
    if s.contains(a) {
        let i = choose|i: int| 0 <= i < s.len() && s[i] == a;
        assert(t[i] == a);
    }
    assert(t[s.len() as int] == last);
    if t.contains(a) {
        let i = choose|i: int| 0 <= i < t.len() && t[i] == a;
        if i < s.len() {
            assert(s[i] == a);
        }
    }
}

/// Files are closed one after the other, in the order of their paths.
pub proof fn files_are_closed_in_order(
    a: Seq<Seq<char>>,
    b: Seq<Seq<char>>,
    open_scenes: Seq<Seq<char>>,
    open_scripts: Seq<Seq<char>>,
    current_scene: Option<Seq<char>>,
)
    ensures
        closings(a + b, open_scenes, open_scripts, current_scene) == closings(
            a,
            open_scenes,
            open_scripts,
            current_scene,
        ) + closings(b, open_scenes, open_scripts, current_scene),
    decreases b.len(),
{
    if b.len() > 0 {
        files_are_closed_in_order(a, b.drop_last(), open_scenes, open_scripts, current_scene);
        assert((a + b).drop_last() == a + b.drop_last());
        assert((a + b).last() == b.last());
    } else {
        assert(a + b == a);
    }
}

/// Every open scene is loaded anew, the one that is being edited last and only once.
pub proof fn the_edited_scene_is_loaded_last(
    open: Seq<Seq<char>>,
    current: Option<Seq<char>>,
    path: Seq<char>,
)
    ensures
        reloaded(open, current).contains(path) <==> open.contains(path) || current == Some(path),
        current is Some ==> reloaded(open, current).last() == current->0,
        current is Some ==> !reloaded(open, current).drop_last().contains(current->0),
        current is None ==> reloaded(open, current) == open,
{
    lemma_others(open, current, path);
    let others = other_scenes(open, current);
    if current is Some {
        lemma_others(open, current, current->0);
        assert(reloaded(open, current) == others.push(current->0));
        assert(reloaded(open, current).drop_last() == others);
        lemma_pushed(others, current->0, path);
    } else {
        assert(reloaded(open, current) == others);
    }
}

proof fn lemma_others(open: Seq<Seq<char>>, current: Option<Seq<char>>, path: Seq<char>)
    ensures
        other_scenes(open, current).contains(path) <==> open.contains(path) && current != Some(
            path,
        ),
        current is None ==> other_scenes(open, current) == open,
    decreases open.len(),
{
    reveal(Seq::filter);
    if open.len() > 0 {
        let front = open.drop_last();
        lemma_others(front, current, path);
        lemma_pushed(front, open.last(), path);
        lemma_pushed(other_scenes(front, current), open.last(), path);
        assert(open == front.push(open.last()));
    }
}

} // verus!
