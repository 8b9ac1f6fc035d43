//! What the action menu, the panel of keys and the name prompt are for.

use vstd::prelude::*;

use crate::action_menu::{self, ActionView};
use crate::fuzzy;
use crate::key_laws;
use crate::keys::{KeyCode, KeyEvent, Modifiers};
use crate::mode::Then;
use crate::mouse_laws;
use crate::picker::{NamingView, PickerView, StepView};
use crate::screen::{Button, MouseEvent, MouseKind};
use crate::text;
use crate::world::WorldView;

verus! {

/// Whether the action menu takes the keys.
pub open spec fn in_menu(p: PickerView) -> bool {
    &&& p.wf()
    &&& p.naming is None
    &&& p.menu is Some
    &&& p.menu->Some_0.visible.len() <= usize::MAX
    &&& p.menu->Some_0.items.len() <= usize::MAX
    &&& p.menu->Some_0.tools.len() <= usize::MAX
}

/// Whether nothing changed but the menu, and what it sets for the run.
pub open spec fn only_the_menu(p: PickerView, q: PickerView) -> bool {
    q == (PickerView {
        menu: q.menu,
        after_action: q.after_action,
        last_click: q.last_click,
        last_erase: q.last_erase,
        clicks_blocked_since: q.clicks_blocked_since,
        ..p
    })
}

/// Up and Down, and Ctrl-K and Ctrl-J, select the row above and the row below in
/// the action menu, as far as there are rows.
pub proof fn up_and_down_move_in_the_menu(p: PickerView, key: KeyEvent, world: WorldView)
    requires
        in_menu(p),
        p.menu->Some_0.visible.len() > 0,
        !key.modifiers.alt,
    ensures
        ({
            let was = p.menu->Some_0.selected;
            let count = p.menu->Some_0.visible.len();
            let up = key.code == KeyCode::Up || (key.code == KeyCode::Char('k')
                && key.modifiers.ctrl);
            let down = key.code == KeyCode::Down || (key.code == KeyCode::Char('j')
                && key.modifiers.ctrl);
            let (q, step) = p.keyed(key, world);
            let now = q.menu->Some_0;
            up || down ==> {
                &&& step == StepView::Continue
                &&& only_the_menu(p, q)
                &&& q.menu is Some
                &&& now.visible == p.menu->Some_0.visible
                &&& now.query == p.menu->Some_0.query
                &&& now.after == p.menu->Some_0.after
                &&& up && was > 0 ==> now.selected == was - 1
                &&& up && was == 0 ==> now.selected == 0
                &&& down && was + 1 < count ==> now.selected == was + 1
                &&& down && was + 1 >= count ==> now.selected == count - 1
            }
        }),
{
    reveal(PickerView::keyed);
    reveal(PickerView::menu_keyed);
    p.menu->Some_0.what_always_holds();
}

/// Enter runs the selected action on what the menu was opened for, and closes the
/// menu. After a click on a tool it runs the tool.
pub proof fn enter_runs_the_selected_action(p: PickerView, key: KeyEvent, world: WorldView)
    requires
        in_menu(p),
        key.code == KeyCode::Enter,
        !key.modifiers.alt,
    ensures
        ({
            let menu = p.menu->Some_0;
            let (q, step) = p.keyed(key, world);
            &&& only_the_menu(p, q)
            &&& menu.pending_tool is None && menu.selected < menu.visible.len() ==> {
                &&& q.menu is None
                &&& step == StepView::Execute(
                    menu.items[menu.visible[menu.selected as int] as int],
                    menu.target,
                )
            }
            &&& menu.pending_tool is None && menu.visible.len() == 0 ==> {
                &&& q.menu == p.menu
                &&& step == StepView::Continue
            }
            &&& menu.pending_tool is Some ==> {
                &&& q.menu is None
                &&& step == StepView::Execute(
                    menu.tools[menu.pending_tool->Some_0 as int],
                    menu.target,
                )
            }
        }),
{
    reveal(PickerView::keyed);
    reveal(PickerView::menu_keyed);
    p.menu->Some_0.what_always_holds();
}

proof fn the_owner_of(items: Seq<ActionView>, ch: char, i: int, n: int)
    requires
        0 <= i < n <= items.len() <= usize::MAX,
        items[i].key == Some(ch),
        forall|j: int| i < j < n ==> (#[trigger] items[j]).key != Some(ch),
    ensures
        action_menu::last_with(items, ch, n) == Some(i as usize),
    decreases n,
{
    if n - 1 > i {
        assert(items[n - 1].key != Some(ch));
        the_owner_of(items, ch, i, n - 1);
    }
}

proof fn nobody_owns(items: Seq<ActionView>, ch: char, n: int)
    requires
        0 <= n <= items.len(),
        forall|j: int| 0 <= j < n ==> (#[trigger] items[j]).key != Some(ch),
    ensures
        action_menu::last_with(items, ch, n) is None,
    decreases n,
{
    if n > 0 {
        assert(items[n - 1].key != Some(ch));
        nobody_owns(items, ch, n - 1);
    }
}

proof fn the_tool_with(tools: Seq<ActionView>, ch: char, i: int, from: int)
    requires
        0 <= from <= i < tools.len() <= usize::MAX,
        tools[i].key == Some(ch),
        forall|j: int| 0 <= j < i ==> (#[trigger] tools[j]).key != Some(ch),
    ensures
        action_menu::first_with(tools, ch, from) == Some(i as usize),
    decreases i - from,
{
    if from < i {
        assert(tools[from].key != Some(ch));
        the_tool_with(tools, ch, i, from + 1);
    }
}

/// A letter runs the action it belongs to, on what the menu was opened for: on its
/// own while the menu waits for a key, with Alt while something is typed too. Of
/// two actions with one letter the later has it, and an action before a tool.
/// Caps lock makes no difference.
pub proof fn a_letter_runs_its_action(
    p: PickerView,
    key: KeyEvent,
    ch: char,
    i: int,
    tool: bool,
    world: WorldView,
)
    requires
        in_menu(p),
        !key.modifiers.ctrl,
        key.modifiers.alt || !p.menu->Some_0.filtering,
        !('A' <= ch <= 'Z'),
        key.code == KeyCode::Char(ch) || ('a' <= ch <= 'z' && key.code == KeyCode::Char(
            (ch as int - 32) as char,
        )),
        !tool ==> {
            let items = p.menu->Some_0.items;
            &&& 0 <= i < items.len()
            &&& items[i].key == Some(ch)
            &&& forall|j: int| i < j < items.len() ==> (#[trigger] items[j]).key != Some(ch)
        },
        tool ==> {
            let items = p.menu->Some_0.items;
            let tools = p.menu->Some_0.tools;
            &&& 0 <= i < tools.len()
            &&& tools[i].key == Some(ch)
            &&& forall|j: int| 0 <= j < i ==> (#[trigger] tools[j]).key != Some(ch)
            &&& forall|j: int|
                0 <= j < items.len() ==> (#[trigger] items[j]).key != Some(ch)
        },
    ensures
        ({
            let menu = p.menu->Some_0;
            let (q, step) = p.keyed(key, world);
            &&& q.menu is None
            &&& only_the_menu(p, q)
            &&& !tool ==> step == StepView::Execute(menu.items[i], menu.target)
            &&& tool ==> step == StepView::Execute(menu.tools[i], menu.target)
        }),
{
    reveal(PickerView::keyed);
    reveal(PickerView::menu_keyed);
    let menu = p.menu->Some_0;
    if tool {
        nobody_owns(menu.items, ch, menu.items.len() as int);
        the_tool_with(menu.tools, ch, i, 0);
    } else {
        the_owner_of(menu.items, ch, i, menu.items.len() as int);
    }
}

/// Esc, and Ctrl-C and Ctrl-P, close the menu, and nothing is run.
pub proof fn esc_closes_the_menu(p: PickerView, key: KeyEvent, world: WorldView)
    requires
        in_menu(p),
        !key.modifiers.alt,
        key.code == KeyCode::Esc || (key.modifiers.ctrl && (key.code == KeyCode::Char('c')
            || key.code == KeyCode::Char('p'))),
    ensures
        p.keyed(key, world).0.menu is None,
        p.keyed(key, world).1 == StepView::Continue,
        only_the_menu(p, p.keyed(key, world).0),
{
    reveal(PickerView::keyed);
    reveal(PickerView::menu_keyed);
}

/// While the menu takes text, a letter is typed and Backspace takes the last one;
/// Ctrl-U takes all. Each goes back to the first row, and runs nothing.
pub proof fn letters_filter_the_menu(p: PickerView, key: KeyEvent, c: char, world: WorldView)
    requires
        in_menu(p),
        !key.modifiers.alt,
    ensures
        ({
            let was = p.menu->Some_0;
            let (q, step) = p.keyed(key, world);
            let now = q.menu->Some_0;
            let typed = key.code == KeyCode::Char(c) && !key.modifiers.ctrl && was.filtering;
            let erased = key.code == KeyCode::Backspace;
            let cleared = key.code == KeyCode::Char('u') && key.modifiers.ctrl;
            typed || erased || cleared ==> {
                &&& step == StepView::Continue
                &&& q.menu is Some
                &&& only_the_menu(p, q)
                &&& now.items == was.items
                &&& now.target == was.target
                &&& now.selected == 0
                &&& now.filtering == was.filtering
                &&& typed ==> now.query == was.query.push(c)
                &&& erased && was.query.len() > 0 ==> now.query == was.query.take(
                    was.query.len() - 1,
                )
                &&& erased && was.query.len() == 0 ==> now.query.len() == 0
                &&& cleared ==> now.query.len() == 0
            }
        }),
{
    reveal(PickerView::keyed);
    reveal(PickerView::menu_keyed);
    let was = p.menu->Some_0;
    if was.query.len() > 0 {
        assert(was.query.drop_last() =~= was.query.take(was.query.len() - 1));
    }
}

/// What a filter shows of the menu is every action whose name matches, the best
/// match first, and of equal ones the first in the list.
pub proof fn the_best_action_is_the_first_row(
    items: Seq<ActionView>,
    query: Seq<char>,
    visible: Seq<usize>,
    a: int,
    b: int,
    i: usize,
)
    requires
        action_menu::shows(items, query, visible),
        0 <= a < b < visible.len(),
        i < items.len(),
    ensures
        visible[a] < items.len(),
        visible[b] < items.len(),
        ({
            let first = fuzzy::rank(query, items[visible[a] as int].name);
            let second = fuzzy::rank(query, items[visible[b] as int].name);
            &&& first is Some && second is Some
            &&& first->Some_0 >= second->Some_0
            &&& first->Some_0 == second->Some_0 ==> visible[a] < visible[b]
        }),
        fuzzy::rank(query, items[i as int].name) is Some ==> exists|r: int|
            0 <= r < visible.len() && #[trigger] visible[r] == i,
{
    assert(action_menu::outranks(items, query, visible[a], visible[b]));
    assert(action_menu::passes(items, query, visible[a] as int));
    assert(action_menu::passes(items, query, visible[b] as int));
    if fuzzy::rank(query, items[i as int].name) is Some {
        assert(action_menu::passes(items, query, i as int));
        assert(visible.contains(i));
    }
}

/// Tab goes between waiting for a key and taking text, and a slash starts taking
/// text where no action has it.
pub proof fn tab_goes_between_keys_and_text(p: PickerView, key: KeyEvent, world: WorldView)
    requires
        in_menu(p),
        !key.modifiers.alt && !key.modifiers.ctrl,
        key.code == KeyCode::Tab || key.code == KeyCode::BackTab || (key.code == KeyCode::Char(
            '/',
        ) && !p.menu->Some_0.filtering && (forall|j: int|
            0 <= j < p.menu->Some_0.items.len() ==> (#[trigger] p.menu->Some_0.items[j]).key
                != Some('/')) && p.menu->Some_0.tools.len() == 0),
    ensures
        ({
            let was = p.menu->Some_0;
            let (q, step) = p.keyed(key, world);
            &&& step == StepView::Continue
            &&& only_the_menu(p, q)
            &&& q.menu is Some
            &&& q.menu->Some_0.filtering == !was.filtering
            &&& was.filtering ==> q.menu->Some_0.query.len() == 0
            &&& !was.filtering ==> q.menu->Some_0.query == was.query
        }),
{
    reveal(PickerView::keyed);
    reveal(PickerView::menu_keyed);
    let menu = p.menu->Some_0;
    if key.code == KeyCode::Char('/') {
        nobody_owns(menu.items, '/', menu.items.len() as int);
    }
}

/// Ctrl-X switches between staying and quitting after an action, for the rest of
/// the run; twice comes back to staying.
pub proof fn ctrl_x_switches_what_follows(p: PickerView, key: KeyEvent, world: WorldView)
    requires
        in_menu(p),
        key.code == KeyCode::Char('x'),
        key.modifiers.ctrl,
        !key.modifiers.alt,
    ensures
        ({
            let was = p.menu->Some_0;
            let (q, step) = p.keyed(key, world);
            &&& step == StepView::Continue
            &&& only_the_menu(p, q)
            &&& q.menu is Some
            &&& q.after_action == q.menu->Some_0.after
            &&& was.after == Then::Stay ==> q.after_action == Then::Quit
            &&& was.after != Then::Stay ==> q.after_action == Then::Stay
        }),
{
    reveal(PickerView::keyed);
    reveal(PickerView::menu_keyed);
}

/// A left press on a row of the menu runs that action, and the wheel moves the
/// selection by three, as far as there are rows.
pub proof fn the_mouse_in_the_menu(p: PickerView, mouse: MouseEvent, row: int, world: WorldView)
    requires
        in_menu(p),
        p.config.mouse,
        p.clicks_blocked_since is None,
        p.menu->Some_0.pending_tool is None,
        mouse_laws::fits(p.menu->Some_0.mouse_rows),
        mouse_laws::on(p.menu->Some_0.mouse_rows, mouse),
        !mouse_laws::on(p.menu->Some_0.mouse_tools, mouse),
        row == p.menu->Some_0.mouse_first + (mouse.row - p.menu->Some_0.mouse_rows.y),
        row < p.menu->Some_0.visible.len(),
    ensures
        ({
            let was = p.menu->Some_0;
            let count = was.visible.len();
            let (q, step) = p.moused(mouse, world);
            let now = q.menu->Some_0;
            &&& only_the_menu(p, q)
            &&& mouse.kind == MouseKind::Down(Button::Left) ==> {
                &&& q.menu is None
                &&& step == StepView::Execute(was.items[was.visible[row] as int], was.target)
            }
            &&& mouse.kind is ScrollUp ==> {
                &&& step == StepView::Continue && q.menu is Some
                &&& was.selected >= 3 ==> now.selected == was.selected - 3
                &&& was.selected < 3 ==> now.selected == 0
            }
            &&& mouse.kind is ScrollDown ==> {
                &&& step == StepView::Continue && q.menu is Some
                &&& was.selected + 3 < count ==> now.selected == was.selected + 3
                &&& was.selected + 3 >= count ==> now.selected == count - 1
            }
        }),
{
    reveal(PickerView::moused);
    reveal(PickerView::keyed);
    reveal(PickerView::menu_keyed);
}

/// A left press on the tools under the menu runs the first of them.
pub proof fn a_press_on_a_tool_runs_it(p: PickerView, mouse: MouseEvent, world: WorldView)
    requires
        in_menu(p),
        p.config.mouse,
        p.clicks_blocked_since is None,
        mouse_laws::fits(p.menu->Some_0.mouse_tools),
        mouse_laws::on(p.menu->Some_0.mouse_tools, mouse),
        mouse.kind == MouseKind::Down(Button::Left),
    ensures
        p.moused(mouse, world).0.menu is None,
        p.moused(mouse, world).1 == StepView::Execute(
            p.menu->Some_0.tools[0],
            p.menu->Some_0.target,
        ),
        only_the_menu(p, p.moused(mouse, world).0),
{
    reveal(PickerView::moused);
    reveal(PickerView::keyed);
    reveal(PickerView::menu_keyed);
}

/// The name prompt: a letter is typed, Backspace takes the last one, Enter asks to
/// save what is typed for the folder, and Esc leaves the favorite as it was.
pub proof fn the_prompt_takes_a_name(p: PickerView, key: KeyEvent, c: char, world: WorldView)
    requires
        p.wf(),
        p.naming is Some,
    ensures
        ({
            let was = p.naming->Some_0;
            let (q, step) = p.keyed(key, world);
            let typed = key.code == KeyCode::Char(c) && !key.modifiers.ctrl && !key.modifiers.alt;
            &&& q.menu == p.menu && q.keys == p.keys && q.places == p.places
            &&& q.mode == p.mode && q.root == p.root && q.query == p.query
            &&& q.browser == p.browser && q.sources == p.sources && q.pinned == p.pinned
            &&& typed && c != ' ' && !text::whitespace(c) ==> {
                &&& q.naming == Some(NamingView { name: was.name.push(c), ..was })
                &&& step == StepView::Continue
            }
            &&& typed && text::whitespace(c) ==> q.naming == p.naming && step
                == StepView::Continue
            &&& key.code == KeyCode::Backspace && was.name.len() > 0 ==> {
                &&& q.naming == Some(
                    NamingView { name: was.name.take(was.name.len() - 1), ..was },
                )
                &&& step == StepView::Continue
            }
            &&& key.code == KeyCode::Esc ==> q.naming is None && step == StepView::Continue
            &&& key.code == KeyCode::Enter ==> q.naming is None && step is SaveName
                && step->SaveName_0 == was.path
            &&& key.code == KeyCode::Enter && (was.name.len() == 0 || (!text::whitespace(
                was.name[0],
            ) && !text::whitespace(was.name.last()))) ==> step->SaveName_1 == was.name
        }),
{
    reveal(PickerView::keyed);
    reveal(PickerView::naming_keyed);
    let was = p.naming->Some_0;
    if was.name.len() > 0 {
        assert(was.name.drop_last() =~= was.name.take(was.name.len() - 1));
    }
}

/// Whether a letter of the panel of keys stands for a key.
pub open spec fn stands_for(letter: char, code: KeyCode, ctrl: bool) -> bool {
    ||| letter == 'l' && code == KeyCode::Right && !ctrl
    ||| letter == 'h' && code == KeyCode::Left && !ctrl
    ||| letter == '[' && code == KeyCode::Left && ctrl
    ||| letter == ']' && code == KeyCode::Right && ctrl
    ||| letter == 'a' && code == KeyCode::Char('p') && ctrl
    ||| letter == 'p' && code == KeyCode::Char('b') && ctrl
    ||| letter == 'o' && code == KeyCode::Char('o') && ctrl
    ||| letter == 'e' && code == KeyCode::Char('e') && ctrl
    ||| letter == '5' && code == KeyCode::F(5) && !ctrl
    ||| letter == 'd' && code == KeyCode::Char('d') && ctrl
    ||| letter == 'f' && code == KeyCode::Char('f') && ctrl
    ||| letter == 'r' && code == KeyCode::Char('r') && ctrl
    ||| letter == 's' && code == KeyCode::Char('s') && ctrl
}

/// Ctrl-Space opens the panel of keys over a screen, and each of its letters then
/// does what its shortcut does without the panel.
pub proof fn the_letters_of_the_panel_do_what_it_says(
    p: PickerView,
    opens: KeyEvent,
    key: KeyEvent,
    code: KeyCode,
    ctrl: bool,
    letter: char,
    world: WorldView,
)
    requires
        p.wf(),
        p.naming is None && p.menu is None && p.keys is None && p.places is None,
        opens.code == KeyCode::Null || (opens.code == KeyCode::Char(' ') && opens.modifiers
            == Modifiers::only_ctrl()),
        stands_for(letter, code, ctrl),
        key.code == KeyCode::Char(letter),
        !key.modifiers.ctrl && !key.modifiers.alt,
    ensures
        ({
            let (q, step) = p.keyed(opens, world);
            let shortcut = KeyEvent {
                code,
                modifiers: Modifiers { ctrl, alt: false, shift: false, other: false },
            };
            &&& step == StepView::Continue
            &&& q.keys is Some
            &&& key_laws::stays_put(PickerView { keys: q.keys, ..p }, q)
            &&& q.browser == p.browser && q.sources == p.sources && q.tree == p.tree
            &&& q.keyed(key, world) == p.keyed(shortcut, world)
        }),
{
    reveal(PickerView::keyed);
    reveal(PickerView::panel_keyed);
    reveal(PickerView::main_keyed);
    reveal_with_fuel(crate::key_menu::row_with, 16);
}

} // verus!
