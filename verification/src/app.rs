//! The state of the terminal front end: the store, the list on screen, the
//! input panels, the mode and the message line.

use vstd::prelude::*;
use vstd::string::StringExecFns;
use crate::error::SecretError;
use crate::handle_keys::{
    add_key, delete_key, filter_key, handle_key_in_add_mode, handle_key_in_delete_mode,
    handle_key_in_filter_mode, handle_key_in_make_mode, handle_key_in_normal_mode,
    handle_key_in_update_mode, make_key, normal_copy, normal_key, update_key,
};
use crate::keys::KeyEvent;
use crate::model::Secret;
use crate::panel::{Panel, PanelName, PanelView};
use crate::secret_set::{pairs_view, Entry};
use crate::storage::Storage;
use crate::store::{added, deleted, updated, SecretStore};
use crate::generator::generated;
use crate::text::{contains, holds, trim, trimmed};

verus! {

/// The guide line of each mode.
pub const GUIDE_NORMAL: &'static str =
    "d: delete, a: add secret, m: make secret, enter: copy to clipboard, /: filter secrets, r: update, q: quit";

pub const GUIDE_ADD: &'static str = "enter: confirm, tab: switch input, esc: cancel";

pub const GUIDE_UPDATE: &'static str = "enter: update secret, esc: cancel";

pub const GUIDE_DELETE: &'static str = "enter: confirm, esc: cancel";

pub const GUIDE_MAKE: &'static str = "enter: make secret, esc: cancel, tab: switch input";

/// How long a message stays on the message line, in milliseconds.
pub const ERROR_LIFETIME: u64 = 3000;

/// What the front end is doing.
#[derive(Debug, Clone, Copy, PartialEq, Eq, Structural)]
pub enum Mode {
    Normal,
    Filter,
    Make,
    Add,
    Update,
    Delete,
}

/// The message line: the message, and the time at which it was raised, in
/// milliseconds on the caller's clock.
pub struct AppErr {
    pub msg: String,
    pub error_timer: Option<u64>,
}

/// Which item of a list is selected.
pub struct ListState {
    pub selected: Option<usize>,
}

/// The selection after a step down a list of `len` items: the first item
/// if none was selected, else the next one, and never past the last.
pub open spec fn next_selection(selected: Option<usize>, len: int) -> Option<usize> {
    if len <= 0 {
        None
    } else {
        match selected {
            None => Some(0usize),
            Some(i) => if i + 1 < len {
                Some((i + 1) as usize)
            } else {
                Some((len - 1) as usize)
            },
        }
    }
}

/// The selection after a step up a list of `len` items: the last item if
/// none was selected, else the one before, and never before the first.
pub open spec fn previous_selection(selected: Option<usize>, len: int) -> Option<usize> {
    if len <= 0 {
        None
    } else {
        match selected {
            None => Some((len - 1) as usize),
            Some(i) => if i == 0 {
                Some(0usize)
            } else if i - 1 < len {
                Some((i - 1) as usize)
            } else {
                Some((len - 1) as usize)
            },
        }
    }
}

impl ListState {
    /// Moves the selection one item down.
    pub fn select_next(&mut self, len: usize)
        ensures
            final(self).selected == next_selection(old(self).selected, len as int),
    {
        if len == 0 {
            self.selected = None;
        } else {
            self.selected = match self.selected {
                None => Some(0),
                Some(i) => if i < len - 1 {
                    Some(i + 1)
                } else {
                    Some(len - 1)
                },
            };
        }
    }

    /// Moves the selection one item up.
    pub fn select_previous(&mut self, len: usize)
        ensures
            final(self).selected == previous_selection(old(self).selected, len as int),
    {
        if len == 0 {
            self.selected = None;
        } else {
            self.selected = match self.selected {
                None => Some(len - 1),
                Some(i) => if i == 0 {
                    Some(0)
                } else if i - 1 < len {
                    Some(i - 1)
                } else {
                    Some(len - 1)
                },
            };
        }
    }
}

/// The secrets on screen and the selection among them.
pub struct SecretList {
    pub secrets: Vec<Secret>,
    pub state: ListState,
}

impl View for SecretList {
    type V = Seq<Entry>;

    open spec fn view(&self) -> Seq<Entry> {
        self.secrets@.map_values(|e: Secret| e.pair())
    }
}

impl SecretList {
    /// A list of the given pairs, none of them selected.
    pub fn from_iter(pairs: Vec<(String, String)>) -> (list: SecretList)
        ensures
            list@ == pairs_view(pairs@),
            list.state.selected is None,
    {
        let mut secrets: Vec<Secret> = Vec::new();
        let mut i: usize = 0;
        while i < pairs.len()
            invariant
                0 <= i <= pairs@.len(),
                secrets@.len() == i,
                forall|j: int| 0 <= j < i ==> (#[trigger] secrets@[j]).pair() == pairs_view(pairs@)[j],
            decreases pairs@.len() - i,
        {
            secrets.push(Secret::new(pairs[i].0.clone(), pairs[i].1.clone()));
            i += 1;
        }
        let list = SecretList { secrets, state: ListState { selected: None } };
        assert(list@ =~= pairs_view(pairs@));
        list
    }
}

/// The input panels of the front end.
pub struct Panels {
    pub filter: Panel,
    pub update: Panel,
    pub make: Panel,
    pub add: Panel,
    pub delete: Panel,
}

impl Panels {
    /// The invariant: each panel has its lines, and its focus on one of
    /// them.
    pub open spec fn wf(&self) -> bool {
        &&& self.filter.wf() && self.filter.content@.len() == 1
        &&& self.update.wf() && self.update.content@.len() == 2
        &&& self.make.wf() && self.make.content@.len() == 3
        &&& self.add.wf() && self.add.content@.len() == 2
        &&& self.delete.wf() && self.delete.content@.len() == 1
    }
}

/// The test that an entry passes if its name holds the pattern.
pub open spec fn entry_has_pattern(pattern: Seq<char>) -> spec_fn(Entry) -> bool {
    |e: Entry| holds(e.0, pattern)
}

/// The state of the front end as a mathematical value.
pub struct AppView {
    pub should_exit: bool,
    pub mode: Mode,
    pub guide: Seq<char>,
    pub error_msg: Seq<char>,
    pub error_timer: Option<u64>,
    pub filter: PanelView,
    pub update: PanelView,
    pub make: PanelView,
    pub add: PanelView,
    pub delete: PanelView,
    pub shown: Seq<Entry>,
    pub selected: Option<usize>,
    pub secrets: Seq<Entry>,
}

impl AppView {
    /// The entry that is selected, if the selection points at one.
    pub open spec fn selected_entry(self) -> Option<Entry> {
        match self.selected {
            Some(i) => if i < self.shown.len() {
                Some(self.shown[i as int])
            } else {
                None
            },
            None => None,
        }
    }

    /// The state after a change of mode. Going to update mode fills the
    /// update panel from the selected secret; going back to normal mode
    /// clears the message and the panels for filter, add, update and
    /// delete.
    pub open spec fn switched(self, mode: Mode) -> AppView {
        match mode {
            Mode::Add => AppView { mode, guide: GUIDE_ADD@, ..self },
            Mode::Make => AppView { mode, guide: GUIDE_MAKE@, ..self },
            Mode::Delete => AppView { mode, guide: GUIDE_DELETE@, ..self },
            Mode::Update => match self.selected_entry() {
                Some(e) => AppView {
                    mode,
                    guide: GUIDE_UPDATE@,
                    update: self.update.with_line(0, e.0).with_line(1, e.1),
                    ..self
                },
                None => AppView { mode, ..self },
            },
            Mode::Normal => AppView {
                mode,
                guide: GUIDE_NORMAL@,
                error_msg: Seq::empty(),
                update: self.update.cleared(),
                filter: self.filter.cleared(),
                add: self.add.cleared(),
                delete: self.delete.cleared(),
                ..self
            },
            Mode::Filter => AppView { mode, ..self },
        }
    }

    /// The state with a message raised at the time `now`.
    pub open spec fn with_error(self, msg: Seq<char>, now: u64) -> AppView {
        AppView { error_msg: msg, error_timer: Some(now), ..self }
    }

    /// The state with another list on screen, nothing selected.
    pub open spec fn listing(self, shown: Seq<Entry>) -> AppView {
        AppView { shown, selected: None, ..self }
    }

    /// The state with only those secrets on screen whose names hold the
    /// pattern.
    pub open spec fn filtered(self, pattern: Seq<char>) -> AppView {
        self.listing(self.secrets.filter(entry_has_pattern(pattern)))
    }

    /// The state with the selection one item further down.
    pub open spec fn moved_down(self) -> AppView {
        AppView { selected: next_selection(self.selected, self.shown.len() as int), ..self }
    }

    /// The state with the selection one item further up.
    pub open spec fn moved_up(self) -> AppView {
        AppView { selected: previous_selection(self.selected, self.shown.len() as int), ..self }
    }

    /// The state once an operation on the store has ended: back in normal
    /// mode after a success, with the error's message after a failure.
    pub open spec fn settled(self, r: Result<(), SecretError>, now: u64) -> AppView {
        match r {
            Ok(_) => self.switched(Mode::Normal),
            Err(e) => self.with_error(e.spec_message(), now),
        }
    }

    /// The state after the store has answered an add or an update: on
    /// success all the secrets are on screen again.
    pub open spec fn reloaded(self, r: Result<(), SecretError>, secrets: Seq<Entry>) -> AppView {
        match r {
            Ok(_) => AppView { secrets, shown: secrets, selected: None, ..self },
            Err(_) => AppView { secrets, ..self },
        }
    }

    /// The state after the store has answered a delete of the selected
    /// secret: on success it is gone from the screen.
    pub open spec fn unlisted(self, r: Result<(), SecretError>, secrets: Seq<Entry>) -> AppView {
        match (r, self.selected) {
            (Ok(_), Some(i)) => AppView { secrets, shown: self.shown.remove(i as int), ..self },
            _ => AppView { secrets, ..self },
        }
    }

    /// The state once a message older than three seconds was taken off the
    /// message line.
    pub open spec fn expired(self, now: u64) -> AppView {
        match self.error_timer {
            Some(t) => if now >= t && now - t >= ERROR_LIFETIME {
                AppView { error_msg: Seq::empty(), error_timer: None, ..self }
            } else {
                self
            },
            None => self,
        }
    }
}

/// The state in which the front end starts over the given secrets.
pub open spec fn initial(secrets: Seq<Entry>) -> AppView {
    AppView {
        should_exit: false,
        mode: Mode::Normal,
        guide: GUIDE_NORMAL@,
        error_msg: Seq::empty(),
        error_timer: None,
        filter: PanelView { index: 0, panel_name: PanelName::Filter, lines: seq![""@] },
        update: PanelView { index: 0, panel_name: PanelName::UpdateSecret, lines: seq![""@, ""@] },
        make: PanelView { index: 0, panel_name: PanelName::MakeSecret, lines: seq![""@, "10"@, "n"@] },
        add: PanelView { index: 0, panel_name: PanelName::AddSecret, lines: seq![""@, ""@] },
        delete: PanelView { index: 0, panel_name: PanelName::DeleteSecret, lines: seq!["n"@] },
        shown: secrets,
        selected: None,
        secrets,
    }
}

/// The front end.
pub struct App<S: Storage> {
    pub should_exit: bool,
    pub store: SecretStore<S>,
    pub secret_list: SecretList,
    pub panels: Panels,
    pub mode: Mode,
    pub guide: &'static str,
    pub error: AppErr,
}

impl<S: Storage> View for App<S> {
    type V = AppView;

    open spec fn view(&self) -> AppView {
        AppView {
            should_exit: self.should_exit,
            mode: self.mode,
            guide: self.guide@,
            error_msg: self.error.msg@,
            error_timer: self.error.error_timer,
            filter: self.panels.filter@,
            update: self.panels.update@,
            make: self.panels.make@,
            add: self.panels.add@,
            delete: self.panels.delete@,
            shown: self.secret_list@,
            selected: self.secret_list.state.selected,
            secrets: self.store.secrets@,
        }
    }
}

/// A panel with lines of the given texts.
fn panel_of(panel_name: PanelName, first: &str, second: Option<&str>, third: Option<&str>) -> (p: Panel)
    requires
        third is Some ==> second is Some,
    ensures
        p.wf(),
        p@.index == 0,
        p@.panel_name == panel_name,
        p.content@.len() == p@.lines.len(),
        p@.lines == match (second, third) {
            (Some(b), Some(c)) => seq![first@, b@, c@],
            (Some(b), None) => seq![first@, b@],
            _ => seq![first@],
        },
{
    let mut content: Vec<String> = Vec::new();
    content.push(String::from_str(first));
    if let Some(b) = second {
        content.push(String::from_str(b));
        if let Some(c) = third {
            content.push(String::from_str(c));
        }
    }
    let p = Panel::new(panel_name, content);
    assert(p@.lines =~= match (second, third) {
        (Some(b), Some(c)) => seq![first@, b@, c@],
        (Some(b), None) => seq![first@, b@],
        _ => seq![first@],
    });
    p
}

impl<S: Storage> App<S> {
    /// The invariant: that of the store and that of the panels.
    pub open spec fn wf(&self) -> bool {
        self.store.wf() && self.panels.wf()
    }

    /// The front end over a backend: it loads the secrets, shows them all
    /// and starts in normal mode. Where loading fails it starts without
    /// secrets, and the store keeps the failure for the caller to see.
    pub fn new(storage: S) -> (app: App<S>)
        ensures
            app.wf(),
            app@ == initial(app.store.secrets@),
            app.store.storage == storage,
            app.store.load_error is None ==> app.store.secrets@ == storage.contents(),
            app.store.load_error is Some ==> app.store.secrets@ == Seq::<Entry>::empty(),
            storage.load_outcome() matches Some(outcome) ==> match outcome {
                Ok(s) => app.store.secrets@ == s && app.store.load_error is None,
                Err(e) => app.store.secrets@ == Seq::<Entry>::empty() && app.store.load_error
                    == Some(e),
            },
    {
        let panels = Panels {
            filter: panel_of(PanelName::Filter, "", None, None),
            update: panel_of(PanelName::UpdateSecret, "", Some(""), None),
            make: panel_of(PanelName::MakeSecret, "", Some("10"), Some("n")),
            add: panel_of(PanelName::AddSecret, "", Some(""), None),
            delete: panel_of(PanelName::DeleteSecret, "n", None, None),
        };
        let store = SecretStore::new(storage);
        let secret_list = SecretList::from_iter(store.secrets.to_pairs());
        App {
            should_exit: false,
            store,
            secret_list,
            panels,
            mode: Mode::Normal,
            guide: GUIDE_NORMAL,
            error: AppErr { msg: String::new(), error_timer: None },
        }
    }

    /// Shows only the secrets whose names hold `filter`.
    pub fn filter_secrets_list(&mut self, filter: &str)
        ensures
            final(self)@ == old(self)@.filtered(filter@),
            final(self).store == old(self).store,
            final(self).panels == old(self).panels,
    {
        let mut secrets: Vec<Secret> = Vec::new();
        let mut i: usize = 0;
        let ghost all = self.store.secrets@;
        let ghost test = entry_has_pattern(filter@);
        proof {
            reveal(Seq::filter);
            assert(all.subrange(0, 0) =~= Seq::<Entry>::empty());
            assert(secrets@.map_values(|e: Secret| e.pair()) =~= Seq::<Entry>::empty());
        }
        while i < self.store.secrets.len()
            invariant
                0 <= i <= all.len(),
                all == self.store.secrets@,
                test == entry_has_pattern(filter@),
                secrets@.map_values(|e: Secret| e.pair()) == all.subrange(0, i as int).filter(test),
            decreases all.len() - i,
        {
            let e = self.store.secrets.entry(i);
            proof {
                reveal(Seq::filter);
                assert(all.subrange(0, i + 1).drop_last() =~= all.subrange(0, i as int));
            }
            if contains(e.name.as_str(), filter) {
                let ghost before = secrets@;
                secrets.push(Secret::new(e.name.clone(), e.value.clone()));
                assert(secrets@.map_values(|e: Secret| e.pair()) =~= before.map_values(
                    |e: Secret| e.pair(),
                ).push(all[i as int]));
            }
            i += 1;
        }
        assert(all.subrange(0, i as int) =~= all);
        self.secret_list = SecretList { secrets, state: ListState { selected: None } };
    }

    /// The panel of the given name. The list of secrets has no panel.
    pub fn get_panel(&self, panel_name: PanelName) -> (p: &Panel)
        requires
            panel_name != PanelName::Secrets,
        ensures
            *p == match panel_name {
                PanelName::Filter => self.panels.filter,
                PanelName::UpdateSecret => self.panels.update,
                PanelName::MakeSecret => self.panels.make,
                PanelName::AddSecret => self.panels.add,
                _ => self.panels.delete,
            },
    {
        match panel_name {
            PanelName::Filter => &self.panels.filter,
            PanelName::UpdateSecret => &self.panels.update,
            PanelName::MakeSecret => &self.panels.make,
            PanelName::AddSecret => &self.panels.add,
            _ => &self.panels.delete,
        }
    }

    /// Moves the selection one item down.
    pub fn select_next(&mut self)
        ensures
            final(self)@ == old(self)@.moved_down(),
            final(self).store == old(self).store,
            final(self).panels == old(self).panels,
    {
        let len = self.secret_list.secrets.len();
        self.secret_list.state.select_next(len);
    }

    /// Moves the selection one item up.
    pub fn select_previous(&mut self)
        ensures
            final(self)@ == old(self)@.moved_up(),
            final(self).store == old(self).store,
            final(self).panels == old(self).panels,
    {
        let len = self.secret_list.secrets.len();
        self.secret_list.state.select_previous(len);
    }

    /// The text of the filter panel.
    pub fn get_filter_string(&self) -> (s: String)
        requires
            self.wf(),
        ensures
            s@ == self@.filter.lines[0],
    {
        String::from_str(self.panels.filter.line(0))
    }

    /// Changes the mode.
    pub fn switch_mode(&mut self, mode: Mode)
        requires
            old(self).wf(),
        ensures
            final(self).wf(),
            final(self)@ == old(self)@.switched(mode),
            final(self).store == old(self).store,
    {
        self.mode = mode;
        match mode {
            Mode::Add => {
                self.guide = GUIDE_ADD;
            },
            Mode::Make => {
                self.guide = GUIDE_MAKE;
            },
            Mode::Delete => {
                self.guide = GUIDE_DELETE;
            },
            Mode::Update => {
                if let Some(secret) = self.get_selected_item() {
                    self.panels.update.set_line(0, secret.name);
                    self.panels.update.set_line(1, secret.value);
                    self.guide = GUIDE_UPDATE;
                }
            },
            Mode::Normal => {
                self.guide = GUIDE_NORMAL;
                self.error.msg = String::new();
                self.panels.update.clear_content();
                self.panels.filter.clear_content();
                self.panels.add.clear_content();
                self.panels.delete.clear_content();
            },
            Mode::Filter => {},
        }
    }

    /// The secret that is selected, if the selection points at one.
    pub fn get_selected_item(&self) -> (r: Option<Secret>)
        ensures
            match r {
                Some(s) => self@.selected_entry() == Some(s.pair()),
                None => self@.selected_entry() is None,
            },
    {
        match self.secret_list.state.selected {
            Some(i) => if i < self.secret_list.secrets.len() {
                let e = &self.secret_list.secrets[i];
                Some(Secret::new(e.name.clone(), e.value.clone()))
            } else {
                None
            },
            None => None,
        }
    }

    /// The value of the selected secret, for the caller to put on the
    /// clipboard. Without a selection a message is raised instead.
    pub fn copy_selected_to_clipboard(&mut self, now: u64) -> (r: Option<String>)
        ensures
            final(self).store == old(self).store,
            final(self).panels == old(self).panels,
            match old(self)@.selected_entry() {
                Some(e) => r matches Some(text) && text@ == e.1 && final(self)@ == old(self)@,
                None => r is None && final(self)@ == old(self)@.with_error(
                    SecretError::NotSelected.spec_message(),
                    now,
                ),
            },
    {
        match self.get_selected_item() {
            Some(secret) => Some(secret.value),
            None => {
                self.error = AppErr {
                    msg: SecretError::NotSelected.message(),
                    error_timer: Some(now),
                };
                None
            },
        }
    }

    /// Takes a message off the message line once it is three seconds old.
    pub fn clear_error_if_expired(&mut self, now: u64)
        ensures
            final(self)@ == old(self)@.expired(now),
            final(self).store == old(self).store,
            final(self).panels == old(self).panels,
    {
        if let Some(t) = self.error.error_timer {
            if now >= t && now - t >= ERROR_LIFETIME {
                self.error.msg = String::new();
                self.error.error_timer = None;
            }
        }
    }

    /// Raises a message at the time `now`.
    pub fn set_error(&mut self, msg: String, now: u64)
        ensures
            final(self)@ == old(self)@.with_error(msg@, now),
            final(self).store == old(self).store,
            final(self).panels == old(self).panels,
    {
        self.error = AppErr { msg, error_timer: Some(now) };
    }

    /// Ends an operation on the store: back to normal mode after a success,
    /// the error's message after a failure.
    pub fn settle(&mut self, r: Result<(), SecretError>, now: u64)
        requires
            old(self).wf(),
        ensures
            final(self).wf(),
            final(self)@ == old(self)@.settled(r, now),
            final(self).store == old(self).store,
    {
        match r {
            Ok(_) => self.switch_mode(Mode::Normal),
            Err(e) => self.set_error(e.message(), now),
        }
    }

    /// Adds a secret; on success all the secrets are shown again.
    pub fn add_secret(&mut self, name: String, value: String) -> (r: Result<(), SecretError>)
        requires
            old(self).wf(),
        ensures
            final(self).wf(),
            final(self).panels == old(self).panels,
            added(old(self).store, final(self).store, name@, value@, r),
            final(self)@ == old(self)@.reloaded(r, final(self).store.secrets@),
    {
        let r = self.store.add(name.as_str(), value.as_str());
        if r.is_ok() {
            self.secret_list = SecretList::from_iter(self.store.secrets.to_pairs());
        }
        r
    }

    /// Adds a secret with a random value; on success all the secrets are
    /// shown again.
    pub fn make_secret(&mut self, name: String, length: usize, advance: bool) -> (r: Result<
        (),
        SecretError,
    >)
        requires
            old(self).wf(),
        ensures
            final(self).wf(),
            final(self).panels == old(self).panels,
            if advance && length < 2 {
                r == Err::<(), SecretError>(SecretError::InvalidLength) && final(self).store == old(self).store
            } else {
                exists|value: Seq<char>|
                    generated(value, length as int, advance) && #[trigger] added(
                        old(self).store,
                        final(self).store,
                        name@,
                        value,
                        r,
                    )
            },
            final(self)@ == old(self)@.reloaded(r, final(self).store.secrets@),
    {
        let r = self.store.generate(name.as_str(), length, advance);
        if r.is_ok() {
            self.secret_list = SecretList::from_iter(self.store.secrets.to_pairs());
        }
        r
    }

    /// Changes the selected secret to the name and value of the update
    /// panel, trimmed; on success all the secrets are shown again.
    pub fn update_selected_secret(&mut self) -> (r: Result<(), SecretError>)
        requires
            old(self).wf(),
        ensures
            final(self).wf(),
            final(self).panels == old(self).panels,
            match old(self)@.selected_entry() {
                None => r == Err::<(), SecretError>(SecretError::NotSelected) && final(self).store
                    == old(self).store,
                Some(e) => updated(
                    old(self).store,
                    final(self).store,
                    e.0,
                    trimmed(old(self)@.update.lines[0]),
                    trimmed(old(self)@.update.lines[1]),
                    r,
                ),
            },
            final(self)@ == old(self)@.reloaded(r, final(self).store.secrets@),
    {
        match self.get_selected_item() {
            None => Err(SecretError::NotSelected),
            Some(secret) => {
                let name = String::from_str(trim(self.panels.update.line(0)));
                let value = String::from_str(trim(self.panels.update.line(1)));
                let r = self.store.update(secret.name.as_str(), name.as_str(), value.as_str());
                if r.is_ok() {
                    self.secret_list = SecretList::from_iter(self.store.secrets.to_pairs());
                }
                r
            },
        }
    }

    /// Deletes the selected secret; on success it leaves the screen.
    pub fn delete_selected_secret(&mut self) -> (r: Result<(), SecretError>)
        requires
            old(self).wf(),
        ensures
            final(self).wf(),
            final(self).panels == old(self).panels,
            match old(self)@.selected_entry() {
                None => r == Err::<(), SecretError>(SecretError::NotSelected) && final(self).store
                    == old(self).store,
                Some(e) => deleted(old(self).store, final(self).store, e.0, r),
            },
            final(self)@ == old(self)@.unlisted(r, final(self).store.secrets@),
    {
        match self.secret_list.state.selected {
            Some(i) => if i < self.secret_list.secrets.len() {
                let r = self.store.delete(self.secret_list.secrets[i].name.as_str());
                if r.is_ok() {
                    self.secret_list.secrets.remove(i);
                    assert(self.secret_list@ =~= old(self).secret_list@.remove(i as int));
                }
                r
            } else {
                Err(SecretError::NotSelected)
            },
            None => Err(SecretError::NotSelected),
        }
    }

    /// Reacts to a key event: one that is no key press is ignored, any
    /// other goes to the handler of the current mode. The result is the
    /// text to put on the clipboard, if the key asked for that.
    pub fn handle_key(&mut self, key: KeyEvent, now: u64) -> (copy: Option<String>)
        requires
            old(self).wf(),
        ensures
            final(self).wf(),
            !key.pressed ==> copy is None && *final(self) == *old(self),
            key.pressed ==> match old(self).mode {
                Mode::Filter => copy is None && final(self)@ == filter_key(old(self)@, key.code)
                    && final(self).store == old(self).store,
                Mode::Normal => final(self)@ == normal_key(old(self)@, key.code, now) && final(self).store == old(self).store && match copy {
                    Some(text) => normal_copy(old(self)@, key.code) == Some(text@),
                    None => normal_copy(old(self)@, key.code) is None,
                },
                Mode::Add => copy is None && add_key(*old(self), *final(self), key.code, now),
                Mode::Make => copy is None && make_key(*old(self), *final(self), key.code, now),
                Mode::Update => copy is None && update_key(*old(self), *final(self), key.code, now),
                Mode::Delete => copy is None && delete_key(*old(self), *final(self), key.code, now),
            },
    {
        if !key.pressed {
            return None;
        }
        match self.mode {
            Mode::Filter => {
                handle_key_in_filter_mode(self, key);
                None
            },
            Mode::Add => {
                handle_key_in_add_mode(self, key, now);
                None
            },
            Mode::Normal => handle_key_in_normal_mode(self, key, now),
            Mode::Make => {
                handle_key_in_make_mode(self, key, now);
                None
            },
            Mode::Update => {
                handle_key_in_update_mode(self, key, now);
                None
            },
            Mode::Delete => {
                handle_key_in_delete_mode(self, key, now);
                None
            },
        }
    }
}

} // verus!
