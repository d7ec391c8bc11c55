//! What a key does in each mode of the front end.

use vstd::prelude::*;
use vstd::string::StringExecFns;
use crate::app::{App, AppView, Mode};
use crate::error::SecretError;
use crate::generator::generated;
use crate::keys::{KeyCode, KeyEvent};
use crate::order::name_equal;
use crate::storage::Storage;
use crate::store::{added, deleted, updated};
use crate::text::{parse_number, parsed_number, trim, trimmed};

verus! {

/// The message for a length that is no number.
pub const LENGTH_NOT_NUMERIC: &'static str = "Length must be number";

/// What a key does in filter mode: typing and erasing change the pattern
/// and the list on screen with it; escape goes back to normal mode and
/// clears the pattern; enter goes back and keeps the list; the arrows move
/// the selection.
pub open spec fn filter_key(v: AppView, code: KeyCode) -> AppView {
    match code {
        KeyCode::Char(ch) => AppView { filter: v.filter.typed(ch), ..v }.filtered(
            v.filter.typed(ch).lines[0],
        ),
        KeyCode::Backspace => AppView { filter: v.filter.erased(), ..v }.filtered(
            v.filter.erased().lines[0],
        ),
        KeyCode::Esc => v.switched(Mode::Normal),
        KeyCode::Enter => AppView { mode: Mode::Normal, ..v },
        KeyCode::Down => v.moved_down(),
        KeyCode::Up => v.moved_up(),
        _ => v,
    }
}

/// What a key does in normal mode: `q` and escape end the program, `j`,
/// `k` and the arrows move the selection, `r`, `m`, `a`, `/` and `d` change
/// the mode, and enter without a selection raises a message.
pub open spec fn normal_key(v: AppView, code: KeyCode, now: u64) -> AppView {
    match code {
        KeyCode::Char(ch) => if ch == 'q' {
            AppView { should_exit: true, ..v }
        } else if ch == 'j' {
            v.moved_down()
        } else if ch == 'k' {
            v.moved_up()
        } else if ch == 'r' {
            v.switched(Mode::Update)
        } else if ch == 'm' {
            v.switched(Mode::Make)
        } else if ch == 'a' {
            v.switched(Mode::Add)
        } else if ch == '/' {
            v.switched(Mode::Filter)
        } else if ch == 'd' {
            v.switched(Mode::Delete)
        } else {
            v
        },
        KeyCode::Down => v.moved_down(),
        KeyCode::Up => v.moved_up(),
        KeyCode::Esc => AppView { should_exit: true, ..v },
        KeyCode::Enter => if v.selected_entry() is None {
            v.with_error(SecretError::NotSelected.spec_message(), now)
        } else {
            v
        },
        _ => v,
    }
}

/// The text that a key in normal mode asks to put on the clipboard: enter
/// asks for the value of the selected secret.
pub open spec fn normal_copy(v: AppView, code: KeyCode) -> Option<Seq<char>> {
    match (code, v.selected_entry()) {
        (KeyCode::Enter, Some(e)) => Some(e.1),
        _ => None,
    }
}

/// What a key does in add mode. Enter adds the secret that the panel
/// names, both lines trimmed; what follows is for the store to decide.
pub open spec fn add_key<S: Storage>(pre: App<S>, post: App<S>, code: KeyCode, now: u64) -> bool {
    match code {
        KeyCode::Char(ch) => post@ == (AppView { add: pre@.add.typed(ch), ..pre@ }) && post.store
            == pre.store,
        KeyCode::Backspace => post@ == (AppView { add: pre@.add.erased(), ..pre@ }) && post.store
            == pre.store,
        KeyCode::Tab => post@ == (AppView { add: pre@.add.advanced(), ..pre@ }) && post.store
            == pre.store,
        KeyCode::Esc => post@ == pre@.switched(Mode::Normal) && post.store == pre.store,
        KeyCode::Enter => exists|r: Result<(), SecretError>|
            #![trigger pre@.reloaded(r, post.store.secrets@)]
            added(
                pre.store,
                post.store,
                trimmed(pre@.add.lines[0]),
                trimmed(pre@.add.lines[1]),
                r,
            ) && post@ == pre@.reloaded(r, post.store.secrets@).settled(r, now),
        _ => post@ == pre@ && post.store == pre.store,
    }
}

/// What a key does in update mode. Enter changes the selected secret to
/// what the panel holds; what follows is for the store to decide.
pub open spec fn update_key<S: Storage>(pre: App<S>, post: App<S>, code: KeyCode, now: u64) -> bool {
    match code {
        KeyCode::Char(ch) => post@ == (AppView { update: pre@.update.typed(ch), ..pre@ })
            && post.store == pre.store,
        KeyCode::Backspace => post@ == (AppView { update: pre@.update.erased(), ..pre@ })
            && post.store == pre.store,
        KeyCode::Tab => post@ == (AppView { update: pre@.update.advanced(), ..pre@ }) && post.store
            == pre.store,
        KeyCode::Esc => post@ == pre@.switched(Mode::Normal) && post.store == pre.store,
        KeyCode::Enter => exists|r: Result<(), SecretError>|
            #![trigger pre@.reloaded(r, post.store.secrets@)]
            (match pre@.selected_entry() {
                None => r == Err::<(), SecretError>(SecretError::NotSelected) && post.store
                    == pre.store,
                Some(e) => updated(
                    pre.store,
                    post.store,
                    e.0,
                    trimmed(pre@.update.lines[0]),
                    trimmed(pre@.update.lines[1]),
                    r,
                ),
            }) && post@ == pre@.reloaded(r, post.store.secrets@).settled(r, now),
        _ => post@ == pre@ && post.store == pre.store,
    }
}

/// What a key does in delete mode. Enter deletes the selected secret if
/// the panel holds `y`, and goes back to normal mode if it does not.
pub open spec fn delete_key<S: Storage>(pre: App<S>, post: App<S>, code: KeyCode, now: u64) -> bool {
    match code {
        KeyCode::Char(ch) => post@ == (AppView { delete: pre@.delete.typed(ch), ..pre@ })
            && post.store == pre.store,
        KeyCode::Backspace => post@ == (AppView { delete: pre@.delete.erased(), ..pre@ })
            && post.store == pre.store,
        KeyCode::Esc => post@ == pre@.switched(Mode::Normal) && post.store == pre.store,
        KeyCode::Enter => if trimmed(pre@.delete.lines[0]) == "y"@ {
            exists|r: Result<(), SecretError>|
                #![trigger pre@.unlisted(r, post.store.secrets@)]
                (match pre@.selected_entry() {
                    None => r == Err::<(), SecretError>(SecretError::NotSelected) && post.store
                        == pre.store,
                    Some(e) => deleted(pre.store, post.store, e.0, r),
                }) && post@ == pre@.unlisted(r, post.store.secrets@).settled(r, now)
        } else {
            post@ == pre@.switched(Mode::Normal) && post.store == pre.store
        },
        _ => post@ == pre@ && post.store == pre.store,
    }
}

/// Whether the third line of the make panel asks for a digit and a symbol.
pub open spec fn wants_symbols(answer: Seq<char>) -> bool {
    answer == "yes"@ || answer == "y"@
}

/// What a key does in make mode. Enter reads the length and the answer,
/// and adds a secret with a random value under the name that the panel
/// holds; a length that is no number, or too short for a digit and a
/// symbol, raises a message instead.
pub open spec fn make_key<S: Storage>(pre: App<S>, post: App<S>, code: KeyCode, now: u64) -> bool {
    match code {
        KeyCode::Char(ch) => post@ == (AppView { make: pre@.make.typed(ch), ..pre@ }) && post.store
            == pre.store,
        KeyCode::Backspace => post@ == (AppView { make: pre@.make.erased(), ..pre@ }) && post.store
            == pre.store,
        KeyCode::Tab => post@ == (AppView { make: pre@.make.advanced(), ..pre@ }) && post.store
            == pre.store,
        KeyCode::Esc => post@ == pre@.switched(Mode::Normal) && post.store == pre.store,
        KeyCode::Enter => match parsed_number(trimmed(pre@.make.lines[1])) {
            None => post@ == pre@.with_error(LENGTH_NOT_NUMERIC@, now) && post.store == pre.store,
            Some(n) => if wants_symbols(trimmed(pre@.make.lines[2])) && n < 2 {
                post@ == pre@.with_error(SecretError::InvalidLength.spec_message(), now)
                    && post.store == pre.store
            } else {
                exists|r: Result<(), SecretError>, value: Seq<char>|
                    #![trigger pre@.reloaded(r, post.store.secrets@), generated(value, n as int, wants_symbols(trimmed(pre@.make.lines[2])))]
                    generated(value, n as int, wants_symbols(trimmed(pre@.make.lines[2])))
                        && added(pre.store, post.store, trimmed(pre@.make.lines[0]), value, r)
                        && post@ == pre@.reloaded(r, post.store.secrets@).settled(r, now)
            },
        },
        _ => post@ == pre@ && post.store == pre.store,
    }
}

/// Handles a key in filter mode.
pub fn handle_key_in_filter_mode<S: Storage>(app: &mut App<S>, key: KeyEvent)
    requires
        old(app).wf(),
    ensures
        final(app).wf(),
        final(app)@ == filter_key(old(app)@, key.code),
        final(app).store == old(app).store,
{
    match key.code {
        KeyCode::Char(ch) => {
            app.panels.filter.type_char(ch);
            let pattern = app.get_filter_string();
            app.filter_secrets_list(pattern.as_str());
        },
        KeyCode::Backspace => {
            app.panels.filter.erase();
            let pattern = app.get_filter_string();
            app.filter_secrets_list(pattern.as_str());
        },
        KeyCode::Esc => app.switch_mode(Mode::Normal),
        KeyCode::Enter => {
            app.mode = Mode::Normal;
        },
        KeyCode::Down => app.select_next(),
        KeyCode::Up => app.select_previous(),
        _ => {},
    }
}

/// Handles a key in make mode.
pub fn handle_key_in_make_mode<S: Storage>(app: &mut App<S>, key: KeyEvent, now: u64)
    requires
        old(app).wf(),
    ensures
        final(app).wf(),
        make_key(*old(app), *final(app), key.code, now),
{
    match key.code {
        KeyCode::Esc => app.switch_mode(Mode::Normal),
        KeyCode::Char(ch) => app.panels.make.type_char(ch),
        KeyCode::Backspace => app.panels.make.erase(),
        KeyCode::Tab => app.panels.make.next_field(),
        KeyCode::Enter => {
            let n = match parse_number(trim(app.panels.make.line(1))) {
                Some(n) => n,
                None => {
                    app.set_error(String::from_str(LENGTH_NOT_NUMERIC), now);
                    return ;
                },
            };
            let name = String::from_str(trim(app.panels.make.line(0)));
            let answer = trim(app.panels.make.line(2));
            let advance = name_equal(answer, "yes") || name_equal(answer, "y");
            let ghost pre = *app;
            let r = app.make_secret(name, n, advance);
            let ghost mid = app@;
            app.settle(r, now);
            proof {
                assert(mid == pre@.reloaded(r, app.store.secrets@));
                if !(advance && n < 2) {
                    let value = choose|value: Seq<char>|
                        generated(value, n as int, advance) && #[trigger] added(
                            pre.store,
                            app.store,
                            name@,
                            value,
                            r,
                        );
                    assert(generated(value, n as int, wants_symbols(trimmed(pre@.make.lines[2]))));
                }
            }
        },
        _ => {},
    }
}

/// Handles a key in update mode.
pub fn handle_key_in_update_mode<S: Storage>(app: &mut App<S>, key: KeyEvent, now: u64)
    requires
        old(app).wf(),
    ensures
        final(app).wf(),
        update_key(*old(app), *final(app), key.code, now),
{
    match key.code {
        KeyCode::Char(ch) => app.panels.update.type_char(ch),
        KeyCode::Backspace => app.panels.update.erase(),
        KeyCode::Esc => app.switch_mode(Mode::Normal),
        KeyCode::Enter => {
            let ghost pre = *app;
            let r = app.update_selected_secret();
            assert(app@ == pre@.reloaded(r, app.store.secrets@));
            app.settle(r, now);
        },
        KeyCode::Tab => app.panels.update.next_field(),
        _ => {},
    }
}

/// Handles a key in delete mode.
pub fn handle_key_in_delete_mode<S: Storage>(app: &mut App<S>, key: KeyEvent, now: u64)
    requires
        old(app).wf(),
    ensures
        final(app).wf(),
        delete_key(*old(app), *final(app), key.code, now),
{
    match key.code {
        KeyCode::Char(ch) => app.panels.delete.type_char(ch),
        KeyCode::Backspace => app.panels.delete.erase(),
        KeyCode::Esc => app.switch_mode(Mode::Normal),
        KeyCode::Enter => {
            if name_equal(trim(app.panels.delete.line(0)), "y") {
                let ghost pre = *app;
                let r = app.delete_selected_secret();
                assert(app@ == pre@.unlisted(r, app.store.secrets@));
                app.settle(r, now);
            } else {
                app.switch_mode(Mode::Normal);
            }
        },
        _ => {},
    }
}

/// Handles a key in add mode.
pub fn handle_key_in_add_mode<S: Storage>(app: &mut App<S>, key: KeyEvent, now: u64)
    requires
        old(app).wf(),
    ensures
        final(app).wf(),
        add_key(*old(app), *final(app), key.code, now),
{
    match key.code {
        KeyCode::Char(ch) => app.panels.add.type_char(ch),
        KeyCode::Backspace => app.panels.add.erase(),
        KeyCode::Enter => {
            let name = String::from_str(trim(app.panels.add.line(0)));
            let value = String::from_str(trim(app.panels.add.line(1)));
            let ghost pre = *app;
            let r = app.add_secret(name, value);
            assert(app@ == pre@.reloaded(r, app.store.secrets@));
            app.settle(r, now);
        },
        KeyCode::Esc => app.switch_mode(Mode::Normal),
        KeyCode::Tab => app.panels.add.next_field(),
        _ => {},
    }
}

/// Handles a key in normal mode; the result is the text to put on the
/// clipboard, if the key asked for that.
pub fn handle_key_in_normal_mode<S: Storage>(app: &mut App<S>, key: KeyEvent, now: u64) -> (copy:
    Option<String>)
    requires
        old(app).wf(),
    ensures
        final(app).wf(),
        final(app)@ == normal_key(old(app)@, key.code, now),
        final(app).store == old(app).store,
        match copy {
            Some(text) => normal_copy(old(app)@, key.code) == Some(text@),
            None => normal_copy(old(app)@, key.code) is None,
        },
{
    match key.code {
        KeyCode::Char(ch) => {
            if ch == 'q' {
                app.should_exit = true;
            } else if ch == 'j' {
                app.select_next();
            } else if ch == 'k' {
                app.select_previous();
            } else if ch == 'r' {
                app.switch_mode(Mode::Update);
            } else if ch == 'm' {
                app.switch_mode(Mode::Make);
            } else if ch == 'a' {
                app.switch_mode(Mode::Add);
            } else if ch == '/' {
                app.switch_mode(Mode::Filter);
            } else if ch == 'd' {
                app.switch_mode(Mode::Delete);
            }
            None
        },
        KeyCode::Down => {
            app.select_next();
            None
        },
        KeyCode::Up => {
            app.select_previous();
            None
        },
        KeyCode::Esc => {
            app.should_exit = true;
            None
        },
        KeyCode::Enter => app.copy_selected_to_clipboard(now),
        _ => None,
    }
}

/// What enter does in the current mode: in the modes for add, update,
/// delete and make it is handled as any key of that mode; elsewhere it
/// asks for the value of the selected secret, to be put on the clipboard.
pub fn pressed_enter<S: Storage>(app: &mut App<S>, now: u64) -> (copy: Option<String>)
    requires
        old(app).wf(),
    ensures
        final(app).wf(),
        match old(app).mode {
            Mode::Update => copy is None && update_key(*old(app), *final(app), KeyCode::Enter, now),
            Mode::Add => copy is None && add_key(*old(app), *final(app), KeyCode::Enter, now),
            Mode::Delete => copy is None && delete_key(*old(app), *final(app), KeyCode::Enter, now),
            Mode::Make => copy is None && make_key(*old(app), *final(app), KeyCode::Enter, now),
            _ => final(app)@ == normal_key(old(app)@, KeyCode::Enter, now) && final(app).store == old(app).store && match copy {
                Some(text) => normal_copy(old(app)@, KeyCode::Enter) == Some(text@),
                None => normal_copy(old(app)@, KeyCode::Enter) is None,
            },
        },
{
    let key = KeyEvent { code: KeyCode::Enter, pressed: true };
    match app.mode {
        Mode::Update => {
            handle_key_in_update_mode(app, key, now);
            None
        },
        Mode::Add => {
            handle_key_in_add_mode(app, key, now);
            None
        },
        Mode::Delete => {
            handle_key_in_delete_mode(app, key, now);
            None
        },
        Mode::Make => {
            handle_key_in_make_mode(app, key, now);
            None
        },
        _ => app.copy_selected_to_clipboard(now),
    }
}

/// Whether a key closes the front end: in normal mode `q`, escape and enter
/// do.
pub open spec fn closes(mode: Mode, code: KeyCode) -> bool {
    mode == Mode::Normal && (code == KeyCode::Char('q') || code == KeyCode::Esc || code
        == KeyCode::Enter)
}

/// Handles a key, pressed or not, in the current mode, for a caller that
/// runs its own loop: the first result says whether the loop is to end,
/// the second is the text to put on the clipboard.
pub fn parse_keys<S: Storage>(app: &mut App<S>, key: KeyEvent, now: u64) -> (r: (
    Option<()>,
    Option<String>,
))
    requires
        old(app).wf(),
    ensures
        final(app).wf(),
        r.0 is Some <==> closes(old(app).mode, key.code),
        match old(app).mode {
            Mode::Filter => r.1 is None && final(app)@ == filter_key(old(app)@, key.code) && final(app).store == old(app).store,
            Mode::Normal => final(app)@ == normal_key(old(app)@, key.code, now) && final(app).store
                == old(app).store && match r.1 {
                Some(text) => normal_copy(old(app)@, key.code) == Some(text@),
                None => normal_copy(old(app)@, key.code) is None,
            },
            Mode::Add => r.1 is None && add_key(*old(app), *final(app), key.code, now),
            Mode::Make => r.1 is None && make_key(*old(app), *final(app), key.code, now),
            Mode::Update => r.1 is None && update_key(*old(app), *final(app), key.code, now),
            Mode::Delete => r.1 is None && delete_key(*old(app), *final(app), key.code, now),
        },
{
    let closing = match (app.mode, key.code) {
        (Mode::Normal, KeyCode::Char(ch)) => ch == 'q',
        (Mode::Normal, KeyCode::Esc) => true,
        (Mode::Normal, KeyCode::Enter) => true,
        _ => false,
    };
    let copy = app.handle_key(KeyEvent { code: key.code, pressed: true }, now);
    if closing {
        (Some(()), copy)
    } else {
        (None, copy)
    }
}

} // verus!
