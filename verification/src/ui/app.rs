//! Tab and focus state for keyboard navigation.

use vstd::prelude::*;

verus! {

/// The active tab of the interface.
#[derive(Debug, Clone, Copy, PartialEq, Eq, Structural)]
pub enum Tab {
    Types,
    Functions,
    Modules,
    Crates,
}

impl Default for Tab {
    /// The first tab is active by default.
    fn default() -> (r: Self)
        ensures
            r == Tab::Types,
    {
        Tab::Types
    }
}

impl Tab {
    /// The position a tab maps to.
    pub open spec fn spec_index(self) -> int {
        match self {
            Tab::Types => 0,
            Tab::Functions => 1,
            Tab::Modules => 2,
            Tab::Crates => 3,
        }
    }

    /// The tab at a position, cycling every four.
    pub open spec fn spec_from_index(index: int) -> Tab {
        if index % 4 == 0 {
            Tab::Types
        } else if index % 4 == 1 {
            Tab::Functions
        } else if index % 4 == 2 {
            Tab::Modules
        } else {
            Tab::Crates
        }
    }

    /// Every tab, in display order.
    pub fn all() -> (r: Vec<Tab>)
        ensures
            r@ == seq![Tab::Types, Tab::Functions, Tab::Modules, Tab::Crates],
    {
        let mut v: Vec<Tab> = Vec::new();
        v.push(Tab::Types);
        v.push(Tab::Functions);
        v.push(Tab::Modules);
        v.push(Tab::Crates);
        proof {
            assert(v@ =~= seq![Tab::Types, Tab::Functions, Tab::Modules, Tab::Crates]);
        }
        v
    }

    /// The tab's title.
    pub fn title(&self) -> (r: &'static str)
        ensures
            match self {
                Tab::Types => r@ == "Types"@,
                Tab::Functions => r@ == "Functions"@,
                Tab::Modules => r@ == "Modules"@,
                Tab::Crates => r@ == "Crates"@,
            },
    {
        match self {
            Tab::Types => "Types",
            Tab::Functions => "Functions",
            Tab::Modules => "Modules",
            Tab::Crates => "Crates",
        }
    }

    /// The tab's position.
    pub fn index(&self) -> (r: usize)
        ensures
            r == self.spec_index(),
    {
        match self {
            Tab::Types => 0,
            Tab::Functions => 1,
            Tab::Modules => 2,
            Tab::Crates => 3,
        }
    }

    /// The tab at a position, cycling every four.
    pub fn from_index(index: usize) -> (r: Tab)
        ensures
            r == Tab::spec_from_index(index as int),
    {
        match index % 4 {
            0 => Tab::Types,
            1 => Tab::Functions,
            2 => Tab::Modules,
            _ => Tab::Crates,
        }
    }

    /// The tab after this one, wrapping around.
    pub fn next(&self) -> (r: Tab)
        ensures
            r == Tab::spec_from_index(self.spec_index() + 1),
    {
        Tab::from_index(self.index() + 1)
    }

    /// The tab before this one, wrapping around.
    pub fn prev(&self) -> (r: Tab)
        ensures
            r == Tab::spec_from_index(self.spec_index() + 3),
    {
        let i = self.index();
        if i == 0 {
            Tab::from_index(3)
        } else {
            Tab::from_index(i - 1)
        }
    }
}

/// The pane that owns the keyboard.
#[derive(Debug, Clone, Copy, PartialEq, Eq, Structural)]
pub enum Focus {
    Search,
    List,
    Inspector,
    /// The assistant chat panel, reachable only while it is open.
    CopilotChat,
}

impl Default for Focus {
    /// The search pane owns the keyboard at first.
    fn default() -> (r: Self)
        ensures
            r == Focus::Search,
    {
        Focus::Search
    }
}

impl Focus {
    /// The next pane in the cycle; the chat panel joins the cycle only
    /// while it is open.
    pub fn next(&self, copilot_chat_open: bool) -> (r: Focus)
        ensures
            r == match self {
                Focus::Search => Focus::List,
                Focus::List => Focus::Inspector,
                Focus::Inspector => if copilot_chat_open {
                    Focus::CopilotChat
                } else {
                    Focus::Search
                },
                Focus::CopilotChat => Focus::Search,
            },
    {
        match self {
            Focus::Search => Focus::List,
            Focus::List => Focus::Inspector,
            Focus::Inspector => {
                if copilot_chat_open {
                    Focus::CopilotChat
                } else {
                    Focus::Search
                }
            },
            Focus::CopilotChat => Focus::Search,
        }
    }

    /// The previous pane in the cycle.
    pub fn prev(&self, copilot_chat_open: bool) -> (r: Focus)
        ensures
            r == match self {
                Focus::Search => if copilot_chat_open {
                    Focus::CopilotChat
                } else {
                    Focus::Inspector
                },
                Focus::List => Focus::Search,
                Focus::Inspector => Focus::List,
                Focus::CopilotChat => Focus::Inspector,
            },
    {
        match self {
            Focus::Search => {
                if copilot_chat_open {
                    Focus::CopilotChat
                } else {
                    Focus::Inspector
                }
            },
            Focus::List => Focus::Search,
            Focus::Inspector => Focus::List,
            Focus::CopilotChat => Focus::Inspector,
        }
    }
}

} // verus!
