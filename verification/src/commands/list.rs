//! Listing the linked teams.

use vstd::prelude::*;
use vstd::string::*;
use crate::config::{list_teams, Config, RegistryState};

verus! {

/// One linked team as it is shown: its alias, its name, and whether it is
/// the default.
#[derive(Debug, PartialEq, Eq)]
pub struct Listed {
    pub alias: String,
    pub name: String,
    pub is_default: bool,
}

/// The value of a [`Listed`].
pub struct ListedView {
    pub alias: Seq<char>,
    pub name: Seq<char>,
    pub is_default: bool,
}

impl View for Listed {
    type V = ListedView;

    open spec fn view(&self) -> ListedView {
        ListedView { alias: self.alias@, name: self.name@, is_default: self.is_default }
    }
}

impl ListedView {
    /// The team as an option to choose: the alias, then the name in
    /// brackets.
    pub open spec fn label(self) -> Seq<char> {
        self.alias + " ("@ + self.name + ")"@
    }

    /// The team as a line of the listing: indented, alias and name with a
    /// dash between them, and a mark behind the default.
    pub open spec fn line(self) -> Seq<char> {
        if self.is_default {
            "  "@ + self.alias + " - "@ + self.name + " (default)"@
        } else {
            "  "@ + self.alias + " - "@ + self.name
        }
    }
}

impl Listed {
    /// The team as an option to choose.
    pub fn label(&self) -> (text: String)
        ensures
            text@ == self@.label(),
    {
        let mut text = self.alias.clone();
        text.append(" (");
        text.append(self.name.as_str());
        text.append(")");
        text
    }

    /// The team as a line of the listing.
    pub fn line(&self) -> (text: String)
        ensures
            text@ == self@.line(),
    {
        let mut text = "  ".to_owned();
        text.append(self.alias.as_str());
        text.append(" - ");
        text.append(self.name.as_str());
        if self.is_default {
            text.append(" (default)");
        }
        text
    }
}

/// The row that shows the team at place `i` of a state.
pub open spec fn row_at(state: RegistryState, i: int) -> ListedView {
    ListedView {
        alias: state.order[i],
        name: state.links[state.order[i]].name,
        is_default: state.default_alias == Some(state.order[i]),
    }
}

/// The linked teams in listing order, the default marked.
pub fn run(config: &Config) -> (rows: Vec<Listed>)
    requires
        config.wf(),
    ensures
        rows@.len() == config@.order.len(),
        forall|i: int| 0 <= i < rows@.len() ==> (#[trigger] rows@[i])@ == row_at(config@, i),
{
    let teams = list_teams(config);
    let mut rows: Vec<Listed> = Vec::new();
    let mut i: usize = 0;
    while i < teams.len()
        invariant
            i <= teams@.len(),
            teams@.len() == config@.order.len(),
            forall|j: int|
                0 <= j < teams@.len() ==> (#[trigger] teams@[j]).0@ == config@.order[j]
                    && teams@[j].1@ == config@.links[config@.order[j]],
            rows@.len() == i,
            forall|j: int| 0 <= j < i ==> (#[trigger] rows@[j])@ == row_at(config@, j),
        decreases teams@.len() - i,
    {
        let is_default = config.is_default(teams[i].0.as_str());
        rows.push(
            Listed { alias: teams[i].0.clone(), name: teams[i].1.name.clone(), is_default },
        );
        i += 1;
    }
    rows
}

} // verus!
