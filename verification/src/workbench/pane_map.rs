//! A map from panes to values.

use vstd::prelude::*;

use crate::workbench::pane::PaneId;

verus! {

#[derive(Debug)]
pub struct PaneMap<T> {
    pub sidebar: Option<T>,
    pub editor: Option<T>,
    pub agent: Option<T>,
    pub bottom: Option<T>,
}

impl<T> PaneMap<T> {
    pub open spec fn at(&self, pane: PaneId) -> Option<T> {
        match pane {
            PaneId::Sidebar => self.sidebar,
            PaneId::Editor => self.editor,
            PaneId::Agent => self.agent,
            PaneId::Bottom => self.bottom,
        }
    }
}

impl<T> View for PaneMap<T> {
    type V = Map<PaneId, T>;

    open spec fn view(&self) -> Map<PaneId, T> {
        Map::new(|pane: PaneId| self.at(pane) is Some, |pane: PaneId| self.at(pane)->0)
    }
}

impl<T> PaneMap<T> {
    pub fn new() -> (map: PaneMap<T>)
        ensures
            map@ == Map::<PaneId, T>::empty(),
    {
        let map = PaneMap { sidebar: None, editor: None, agent: None, bottom: None };
        assert(map@ =~= Map::<PaneId, T>::empty());
        map
    }

    pub fn get(&self, pane: PaneId) -> (value: Option<&T>)
        ensures
            value is Some <==> self@.dom().contains(pane),
            value matches Some(v) ==> *v == self@[pane],
    {
        match pane {
            PaneId::Sidebar => self.sidebar.as_ref(),
            PaneId::Editor => self.editor.as_ref(),
            PaneId::Agent => self.agent.as_ref(),
            PaneId::Bottom => self.bottom.as_ref(),
        }
    }

    pub fn take(&mut self, pane: PaneId) -> (value: Option<T>)
        ensures
            value is Some <==> old(self)@.dom().contains(pane),
            value matches Some(v) ==> v == old(self)@[pane],
            final(self)@ == old(self)@.remove(pane),
    {
        let value = match pane {
            PaneId::Sidebar => self.sidebar.take(),
            PaneId::Editor => self.editor.take(),
            PaneId::Agent => self.agent.take(),
            PaneId::Bottom => self.bottom.take(),
        };
        assert(self@ =~= old(self)@.remove(pane));
        value
    }

    pub fn insert(&mut self, pane: PaneId, value: T)
        ensures
            final(self)@ == old(self)@.insert(pane, value),
    {
        match pane {
            PaneId::Sidebar => {
                self.sidebar = Some(value);
            },
            PaneId::Editor => {
                self.editor = Some(value);
            },
            PaneId::Agent => {
                self.agent = Some(value);
            },
            PaneId::Bottom => {
                self.bottom = Some(value);
            },
        }
        assert(self@ =~= old(self)@.insert(pane, value));
    }
}

} // verus!
