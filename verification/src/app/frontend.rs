//! The menu above the workbench.
//!
//! A press of the second button opens it. While it is open it has the keyboard
//! and the mouse, and no program is told of either.

use vstd::prelude::*;

use crate::app::command::LaunchMode;
use crate::app::effect::EffectView;
use crate::app::machine::{quits, RuntimeView};
use crate::app::registry::in_range;
use crate::app::runtime::{is_quit, AppRuntime, Event};
use crate::event::{KeyEvent, MouseButton, MouseEvent, MouseEventKind};
use crate::geometry::Rect;
use crate::time::Instant;
use crate::ui::context_menu::{
    commands_stand_in_their_rows, menu_area, ContextMenu, ContextMenuAction, MENU_HEIGHT,
    MENU_WIDTH,
};

verus! {

/// The workbench, and the menu if it is open.
pub struct Frontend {
    pub runtime: AppRuntime,
    pub menu: Option<ContextMenu>,
}

pub struct FrontendView {
    pub runtime: RuntimeView,
    pub menu: Option<ContextMenu>,
}

impl View for Frontend {
    type V = FrontendView;

    open spec fn view(&self) -> FrontendView {
        FrontendView { runtime: self.runtime@, menu: self.menu }
    }
}

impl FrontendView {
    pub open spec fn closed(self) -> FrontendView {
        FrontendView { menu: None, ..self }
    }

    /// The second button goes down: over the content of a pane a menu opens.
    /// There is something to copy if there is a selection.
    pub open spec fn menu_asked(self, event: MouseEvent) -> FrontendView {
        match self.runtime.content_under(event.column, event.row) {
            Some(_) => {
                let runtime = self.runtime.secondary_pressed(event.column, event.row);
                FrontendView {
                    runtime,
                    menu: Some(
                        ContextMenu {
                            area: menu_area(runtime.viewport, event.column, event.row),
                            copy_enabled: runtime.workbench.selection is Some,
                            hovered: None,
                        },
                    ),
                }
            },
            None => self.closed(),
        }
    }

    /// The first button goes down while the menu is open.
    pub open spec fn menu_pressed(self, menu: ContextMenu, event: MouseEvent) -> FrontendView {
        FrontendView {
            runtime: match menu.action(event.column, event.row) {
                Some(ContextMenuAction::Copy) => self.runtime.copied(),
                Some(ContextMenuAction::Paste) => self.runtime.paste_asked(),
                None => self.runtime,
            },
            menu: None,
        }
    }

    /// A mouse event while the menu is open.
    pub open spec fn menu_mouse(self, menu: ContextMenu, event: MouseEvent) -> FrontendView {
        match event.kind {
            MouseEventKind::Moved | MouseEventKind::Drag(_) => FrontendView {
                menu: Some(
                    ContextMenu { hovered: menu.action(event.column, event.row), ..menu },
                ),
                ..self
            },
            MouseEventKind::Up(_) => self,
            MouseEventKind::Down(MouseButton::Left) => self.menu_pressed(menu, event),
            MouseEventKind::Down(MouseButton::Right) => self.menu_asked(event),
            _ => self.closed(),
        }
    }

    pub open spec fn mouse(self, event: MouseEvent, now: Instant) -> FrontendView {
        if self.runtime.mode != LaunchMode::Workbench {
            self
        } else {
            match self.menu {
                Some(menu) => self.menu_mouse(menu, event),
                None => if event.kind == MouseEventKind::Down(MouseButton::Right) {
                    self.menu_asked(event)
                } else {
                    FrontendView { runtime: self.runtime.mouse_event(event, now), menu: None }
                },
            }
        }
    }

    /// A key closes an open menu and does nothing else, unless it quits.
    pub open spec fn key(self, key: KeyEvent) -> FrontendView {
        if self.menu is Some && !quits(key) {
            self.closed()
        } else {
            FrontendView { runtime: self.runtime.key_pressed(key), menu: None }
        }
    }

    pub open spec fn paste(self, text: Seq<char>) -> FrontendView {
        FrontendView { runtime: self.runtime.paste_arrived(text), menu: None }
    }

    /// A menu does not outlive the viewport that it opened in.
    pub open spec fn resized(self, area: Rect) -> FrontendView {
        FrontendView {
            runtime: self.runtime.laid_out(area, true),
            menu: if self.runtime.viewport == area {
                self.menu
            } else {
                None
            },
        }
    }
}

impl Frontend {
    pub fn new(runtime: AppRuntime) -> (frontend: Frontend)
        ensures
            frontend@ == (FrontendView { runtime: runtime@, menu: None }),
    {
        Frontend { runtime, menu: None }
    }

    /// Acts on an event; tells whether the workbench stays open.
    pub fn handle_event(&mut self, event: Event, now: Instant) -> (open: bool)
        requires
            old(self)@.runtime.wf(),
            old(self)@.runtime.sessions.can_start_all(),
            in_range(now),
        ensures
            final(self)@.runtime.wf(),
            match event {
                Event::Key(key) => final(self)@ == old(self)@.key(key) && open == !quits(key),
                Event::Paste(text) => final(self)@ == old(self)@.paste(text@) && open,
                Event::Mouse(mouse) => final(self)@ == old(self)@.mouse(mouse, now) && open,
                Event::Other => final(self)@ == old(self)@ && open,
            },
    {
        match event {
            Event::Key(key) => {
                if self.menu.is_some() && !is_quit(key) {
                    self.menu = None;
                    true
                } else {
                    self.menu = None;
                    self.runtime.handle_event(Event::Key(key), now)
                }
            },
            Event::Paste(text) => {
                self.menu = None;
                self.runtime.handle_event(Event::Paste(text), now)
            },
            Event::Mouse(mouse) => {
                self.handle_mouse(mouse, now);
                true
            },
            Event::Other => true,
        }
    }

    fn handle_mouse(&mut self, event: MouseEvent, now: Instant)
        requires
            old(self)@.runtime.wf(),
            old(self)@.runtime.sessions.can_start_all(),
            in_range(now),
        ensures
            final(self)@ == old(self)@.mouse(event, now),
            final(self)@.runtime.wf(),
    {
        if !self.runtime.launch_mode.is_workbench() {
            return;
        }
        match self.menu {
            Some(menu) => self.handle_menu_mouse(menu, event),
            None => {
                if event.kind == MouseEventKind::Down(MouseButton::Right) {
                    self.open_menu(event);
                } else {
                    self.runtime.handle_event(Event::Mouse(event), now);
                }
            },
        }
    }

    fn handle_menu_mouse(&mut self, menu: ContextMenu, event: MouseEvent)
        requires
            old(self)@.runtime.wf(),
            old(self)@.menu == Some(menu),
        ensures
            final(self)@ == old(self)@.menu_mouse(menu, event),
            final(self)@.runtime.wf(),
    {
        match event.kind {
            MouseEventKind::Moved | MouseEventKind::Drag(_) => {
                let mut menu = menu;
                menu.update_hover(event.column, event.row);
                self.menu = Some(menu);
            },
            MouseEventKind::Up(_) => {},
            MouseEventKind::Down(MouseButton::Left) => {
                self.menu = None;
                match menu.action_at(event.column, event.row) {
                    Some(ContextMenuAction::Copy) => {
                        self.runtime.copy_selection();
                    },
                    Some(ContextMenuAction::Paste) => {
                        self.runtime.paste_system_clipboard();
                    },
                    None => {},
                }
            },
            MouseEventKind::Down(MouseButton::Right) => {
                self.open_menu(event);
            },
            _ => {
                self.menu = None;
            },
        }
    }

    fn open_menu(&mut self, event: MouseEvent)
        requires
            old(self)@.runtime.wf(),
        ensures
            final(self)@ == old(self)@.menu_asked(event),
            final(self)@.runtime.wf(),
    {
        if self.runtime.press_secondary(event.column, event.row) {
            self.menu = Some(
                ContextMenu::new(
                    self.runtime.viewport_area,
                    event.column,
                    event.row,
                    self.runtime.workbench.selection().is_some(),
                ),
            );
        } else {
            self.menu = None;
        }
    }

    pub fn resize(&mut self, area: Rect)
        requires
            old(self)@.runtime.wf(),
        ensures
            final(self)@ == old(self)@.resized(area),
            final(self)@.runtime.wf(),
    {
        if self.runtime.viewport_area != area {
            self.menu = None;
        }
        self.runtime.resize(area);
    }
}

/// While the menu is open a key that does not quit closes it and does nothing
/// else; in particular no program is told of it.
pub proof fn keys_only_close_the_menu(state: FrontendView, key: KeyEvent)
    requires
        state.menu is Some,
        !quits(key),
    ensures
        state.key(key).menu is None,
        state.key(key).runtime == state.runtime,
{
}

/// A press outside the commands of an open menu closes it and does nothing else.
pub proof fn presses_elsewhere_only_close_the_menu(
    state: FrontendView,
    menu: ContextMenu,
    event: MouseEvent,
    now: Instant,
)
    requires
        state.menu == Some(menu),
        state.runtime.mode == LaunchMode::Workbench,
        event.kind == MouseEventKind::Down(MouseButton::Left),
        menu.action(event.column, event.row) is None,
    ensures
        state.mouse(event, now) == state.closed(),
{
}

/// While the menu is open nothing is asked for but what its commands ask for.
pub proof fn open_menus_own_the_mouse(state: FrontendView, event: MouseEvent, now: Instant)
    requires
        state.menu is Some,
        state.runtime.mode == LaunchMode::Workbench,
    ensures
        state.runtime.grows_to(
            state.mouse(event, now).runtime,
            |effect: EffectView| effect is CopyText || effect is ReadClipboard,
        ),
{
    let after = state.mouse(event, now).runtime;
    let size = state.runtime.outbox.len() as int;
    assert(after.outbox.take(size) =~= state.runtime.outbox);
}

/// A press of the second button is never told to a program, and leaves what is
/// selected as it was.
pub proof fn second_buttons_belong_to_the_menu(
    state: FrontendView,
    event: MouseEvent,
    now: Instant,
)
    requires
        event.kind == MouseEventKind::Down(MouseButton::Right),
    ensures
        state.mouse(event, now).runtime.outbox == state.runtime.outbox,
        state.mouse(event, now).runtime.workbench.selection == state.runtime.workbench.selection,
{
}

/// The second button opens a menu at the pointer, over the content of a pane,
/// which takes the focus. It offers to copy if and only if something is selected. Elsewhere it closes what
/// is open.
pub proof fn menus_open_over_content(state: FrontendView, event: MouseEvent, now: Instant)
    requires
        state.runtime.mode == LaunchMode::Workbench,
        event.kind == MouseEventKind::Down(MouseButton::Right),
    ensures
        ({
            let after = state.mouse(event, now);
            &&& after.menu is Some <==> state.runtime.content_under(event.column, event.row) is Some
            &&& after.menu matches Some(menu) ==> {
                &&& menu.area == menu_area(state.runtime.viewport, event.column, event.row)
                &&& menu.copy_enabled <==> state.runtime.workbench.selection is Some
                &&& menu.hovered is None
                &&& state.runtime.workbench.shows(
                    state.runtime.content_under(event.column, event.row)->0,
                ) ==> after.runtime.workbench.focused == state.runtime.content_under(
                    event.column,
                    event.row,
                )->0
            }
            &&& after.menu is None ==> after.runtime == state.runtime
        }),
{
}

/// A press on a command of the menu gives it and closes the menu: in the first
/// row what is selected is copied, in the second the clipboard is asked for, and
/// for nothing else.
pub proof fn menus_give_their_commands(
    state: FrontendView,
    menu: ContextMenu,
    event: MouseEvent,
    now: Instant,
)
    requires
        state.runtime.mode == LaunchMode::Workbench,
        state.menu == Some(menu),
        menu.area.fits(),
        menu.area.width == MENU_WIDTH,
        menu.area.height == MENU_HEIGHT,
        event.kind == MouseEventKind::Down(MouseButton::Left),
        menu.area.x < event.column < menu.area.x + menu.area.width - 1,
    ensures
        ({
            let after = state.mouse(event, now);
            &&& after.menu is None
            &&& event.row == menu.area.y + 1 && menu.copy_enabled ==> after.runtime
                == state.runtime.copied()
            &&& event.row == menu.area.y + 1 && !menu.copy_enabled ==> after.runtime
                == state.runtime
            &&& event.row == menu.area.y + 2 ==> {
                &&& after.runtime.outbox == state.runtime.outbox.push(EffectView::ReadClipboard)
                &&& after.runtime.workbench.selection is None
            }
            &&& event.row <= menu.area.y || event.row > menu.area.y + 2 ==> after.runtime
                == state.runtime
        }),
{
    commands_stand_in_their_rows(menu, event.column, event.row);
    let after = state.mouse(event, now);
    if event.row == menu.area.y + 2 {
        assert(after.runtime.outbox =~= state.runtime.outbox.push(EffectView::ReadClipboard));
    }
}

/// The pointer over an open menu marks the command under it, and a release leaves
/// the menu open.
pub proof fn pointers_mark_commands(
    state: FrontendView,
    menu: ContextMenu,
    event: MouseEvent,
    now: Instant,
)
    requires
        state.runtime.mode == LaunchMode::Workbench,
        state.menu == Some(menu),
        menu.area.fits(),
        menu.area.width == MENU_WIDTH,
        menu.area.height == MENU_HEIGHT,
        menu.area.x < event.column < menu.area.x + menu.area.width - 1,
    ensures
        event.kind is Moved ==> (state.mouse(event, now).menu matches Some(after) && {
            &&& after.area == menu.area
            &&& after.copy_enabled == menu.copy_enabled
            &&& after.hovered == Some(ContextMenuAction::Copy) <==> event.row == menu.area.y + 1
                && menu.copy_enabled
            &&& after.hovered == Some(ContextMenuAction::Paste) <==> event.row == menu.area.y + 2
        }),
        event.kind is Up ==> state.mouse(event, now) == state,
{
    commands_stand_in_their_rows(menu, event.column, event.row);
}

/// Without a menu the mouse, the keys and what is pasted go to the workbench.
pub proof fn closed_menus_are_not_in_the_way(
    state: FrontendView,
    event: MouseEvent,
    key: KeyEvent,
    text: Seq<char>,
    now: Instant,
)
    requires
        state.runtime.mode == LaunchMode::Workbench,
        state.menu is None,
    ensures
        event.kind != MouseEventKind::Down(MouseButton::Right) ==> state.mouse(event, now).runtime
            == state.runtime.mouse_event(event, now) && state.mouse(event, now).menu is None,
        state.key(key).runtime == state.runtime.key_pressed(key),
        state.key(key).menu is None,
        state.paste(text).runtime == state.runtime.paste_arrived(text),
{
}

} // verus!
