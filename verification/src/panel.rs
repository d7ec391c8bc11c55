//! Input panels of the terminal front end.

use vstd::prelude::*;
use vstd::string::StringExecFns;
use crate::text::{pop_char, push_char};

verus! {

/// The panels of the front end.
#[derive(Debug, Clone, Copy, PartialEq, Eq, Hash, Structural)]
pub enum PanelName {
    Filter,
    Secrets,
    UpdateSecret,
    MakeSecret,
    AddSecret,
    DeleteSecret,
}

impl PanelName {
    /// The name under which a panel appears in its help page.
    pub open spec fn spec_label(self) -> Seq<char> {
        match self {
            PanelName::Filter => "filter"@,
            PanelName::Secrets => "secrets"@,
            PanelName::UpdateSecret => "update"@,
            PanelName::MakeSecret => "make"@,
            PanelName::AddSecret => "add"@,
            PanelName::DeleteSecret => "delete"@,
        }
    }

    /// The name under which a panel appears in its help page.
    pub fn label(self) -> (s: &'static str)
        ensures
            s@ == self.spec_label(),
    {
        match self {
            PanelName::Filter => "filter",
            PanelName::Secrets => "secrets",
            PanelName::UpdateSecret => "update",
            PanelName::MakeSecret => "make",
            PanelName::AddSecret => "add",
            PanelName::DeleteSecret => "delete",
        }
    }
}

/// A panel: its input lines and the line that has the focus.
pub struct Panel {
    pub index: usize,
    pub panel_name: PanelName,
    pub content: Vec<String>,
}

/// A panel as a mathematical value.
pub struct PanelView {
    pub index: int,
    pub panel_name: PanelName,
    pub lines: Seq<Seq<char>>,
}

impl PanelView {
    /// The panel after `ch` was typed into the line that has the focus.
    pub open spec fn typed(self, ch: char) -> PanelView {
        PanelView { lines: self.lines.update(self.index, self.lines[self.index].push(ch)), ..self }
    }

    /// The panel after the last character of the line that has the focus
    /// was erased; an empty line stays empty.
    pub open spec fn erased(self) -> PanelView {
        if self.lines[self.index].len() > 0 {
            PanelView {
                lines: self.lines.update(self.index, self.lines[self.index].drop_last()),
                ..self
            }
        } else {
            self
        }
    }

    /// The panel after the focus went to the next line, from the last line
    /// to the first.
    pub open spec fn advanced(self) -> PanelView {
        PanelView { index: (self.index + 1) % (self.lines.len() as int), ..self }
    }

    /// The panel with every line emptied.
    pub open spec fn cleared(self) -> PanelView {
        PanelView { lines: Seq::new(self.lines.len(), |i: int| Seq::<char>::empty()), ..self }
    }

    /// The panel with line `i` replaced.
    pub open spec fn with_line(self, i: int, line: Seq<char>) -> PanelView {
        PanelView { lines: self.lines.update(i, line), ..self }
    }
}

impl View for Panel {
    type V = PanelView;

    open spec fn view(&self) -> PanelView {
        PanelView {
            index: self.index as int,
            panel_name: self.panel_name,
            lines: self.content@.map_values(|s: String| s@),
        }
    }
}

/// The text of a panel's help page, for a panel with the given label.
pub open spec fn help_text(label: Seq<char>) -> Seq<char> {
    "This is a help page for `"@ + label + "` module!\n"@
        + "\na                       cargo add\n"@
}

impl Panel {
    /// The invariant: the focus is on one of the lines.
    pub open spec fn wf(&self) -> bool {
        self.index < self.content@.len()
    }

    /// A panel with the given lines and the focus on the first.
    pub fn new(panel_name: PanelName, content: Vec<String>) -> (p: Panel)
        requires
            content@.len() > 0,
        ensures
            p.wf(),
            p.index == 0,
            p.panel_name == panel_name,
            p.content == content,
    {
        Panel { index: 0, panel_name, content }
    }

    /// The text of line `i`.
    pub fn line(&self, i: usize) -> (s: &str)
        requires
            i < self.content@.len(),
        ensures
            s@ == self@.lines[i as int],
    {
        self.content[i].as_str()
    }

    /// Replaces line `i`.
    pub fn set_line(&mut self, i: usize, text: String)
        requires
            old(self).wf(),
            i < old(self).content@.len(),
        ensures
            final(self).wf(),
            final(self)@ == old(self)@.with_line(i as int, text@),
            final(self).content@.len() == old(self).content@.len(),
    {
        self.content.remove(i);
        self.content.insert(i, text);
        assert(self@.lines =~= old(self)@.lines.update(i as int, text@));
    }

    /// Types `ch` into the line that has the focus.
    pub fn type_char(&mut self, ch: char)
        requires
            old(self).wf(),
        ensures
            final(self).wf(),
            final(self)@ == old(self)@.typed(ch),
            final(self).content@.len() == old(self).content@.len(),
    {
        let mut text = self.content.remove(self.index);
        push_char(&mut text, ch);
        self.content.insert(self.index, text);
        assert(self@.lines =~= old(self)@.typed(ch).lines);
    }

    /// Erases the last character of the line that has the focus.
    pub fn erase(&mut self)
        requires
            old(self).wf(),
        ensures
            final(self).wf(),
            final(self)@ == old(self)@.erased(),
            final(self).content@.len() == old(self).content@.len(),
    {
        let mut text = self.content.remove(self.index);
        pop_char(&mut text);
        self.content.insert(self.index, text);
        assert(self@.lines =~= old(self)@.erased().lines);
    }

    /// Moves the focus to the next line, from the last line to the first.
    pub fn next_field(&mut self)
        requires
            old(self).wf(),
        ensures
            final(self).wf(),
            final(self)@ == old(self)@.advanced(),
            final(self).content@.len() == old(self).content@.len(),
    {
        let n = self.content.len();
        self.index = (self.index + 1) % n;
    }

    /// Empties every line.
    pub fn clear_content(&mut self)
        requires
            old(self).wf(),
        ensures
            final(self).wf(),
            final(self)@ == old(self)@.cleared(),
            final(self).content@.len() == old(self).content@.len(),
    {
        let n = self.content.len();
        let mut i: usize = 0;
        while i < n
            invariant
                0 <= i <= n,
                n == self.content@.len(),
                self.index == old(self).index,
                self.panel_name == old(self).panel_name,
                forall|j: int| 0 <= j < i ==> (#[trigger] self.content@[j])@ == Seq::<char>::empty(),
            decreases n - i,
        {
            self.content.remove(i);
            self.content.insert(i, String::new());
            i += 1;
        }
        assert(self@.lines =~= old(self)@.cleared().lines);
    }

    /// The help page of this panel.
    pub fn get_help(&self) -> (s: String)
        ensures
            s@ == help_text(self.panel_name.spec_label()),
    {
        let mut s = String::from_str("This is a help page for `");
        s.append(self.panel_name.label());
        s.append("` module!\n");
        s.append("\na                       cargo add\n");
        s
    }
}

/// Moves the focus of a panel one line down for a step of 1 and one line up
/// for a step of -1, and not beyond the first or the last line.
pub fn move_cursor_vertical(panel: &mut Panel, step: i8)
    requires
        old(panel).wf(),
    ensures
        final(panel).wf(),
        final(panel).content == old(panel).content,
        final(panel).panel_name == old(panel).panel_name,
        final(panel).index == if step == 1 && old(panel).index + 1 < old(panel).content@.len() {
            old(panel).index + 1
        } else if step == -1 && old(panel).index > 0 {
            old(panel).index - 1
        } else {
            old(panel).index as int
        },
{
    if step == 1 && panel.index < panel.content.len() - 1 {
        panel.index += 1;
    } else if step == -1 && panel.index > 0 {
        panel.index -= 1;
    }
}

} // verus!
