//! On a narrow screen one pane fills the screen at a time; this is which one, and where
//! moving to another problem leads. How a pane is shown is the style sheet's business.
use vstd::prelude::*;

verus! {

/// The pane shown on a narrow screen.
#[derive(Clone, Copy, Debug, PartialEq, Eq, Structural)]
pub enum MobilePane {
    List,
    Problem,
    Code,
}

/// The panes in the order of the bottom tabs.
pub open spec fn all_panes() -> Seq<MobilePane> {
    seq![MobilePane::List, MobilePane::Problem, MobilePane::Code]
}

impl MobilePane {
    /// The bottom tabs, in order; the style sheet looks panes up by their slugs.
    pub const ALL: [MobilePane; 3] = [MobilePane::List, MobilePane::Problem, MobilePane::Code];

    pub open spec fn spec_slug(self) -> Seq<char> {
        match self {
            MobilePane::List => "list"@,
            MobilePane::Problem => "problem"@,
            MobilePane::Code => "code"@,
        }
    }

    /// The identifier of the pane in the page's markup.
    pub fn slug(self) -> (s: &'static str)
        ensures
            s@ == self.spec_slug(),
    {
        match self {
            MobilePane::List => "list",
            MobilePane::Problem => "problem",
            MobilePane::Code => "code",
        }
    }

    pub open spec fn spec_label_ja(self) -> Seq<char> {
        match self {
            MobilePane::List => "一覧"@,
            MobilePane::Problem => "問題"@,
            MobilePane::Code => "コード"@,
        }
    }

    /// The label of the pane's tab.
    pub fn label_ja(self) -> (s: &'static str)
        ensures
            s@ == self.spec_label_ja(),
    {
        match self {
            MobilePane::List => "一覧",
            MobilePane::Problem => "問題",
            MobilePane::Code => "コード",
        }
    }
}

/// The pane shown after moving to another problem, from the list or by the previous and
/// next buttons: the statement first, so that nobody writes code without seeing it.
pub fn pane_after_problem_change() -> (p: MobilePane)
    ensures
        p == MobilePane::Problem,
{
    MobilePane::Problem
}

/// Every pane has a tab, and the tabs tell panes apart: their slugs differ.
pub proof fn law_panes_distinct_slugs(a: MobilePane, b: MobilePane)
    ensures
        all_panes().contains(a),
        a != b ==> a.spec_slug() != b.spec_slug(),
        a.spec_label_ja().len() > 0,
{
    reveal_strlit("list");
    reveal_strlit("problem");
    reveal_strlit("code");
    reveal_strlit("一覧");
    reveal_strlit("問題");
    reveal_strlit("コード");
    match a {
        MobilePane::List => assert(all_panes()[0] == a),
        MobilePane::Problem => assert(all_panes()[1] == a),
        MobilePane::Code => assert(all_panes()[2] == a),
    }
    if a != b {
        assert(a.spec_slug().len() != b.spec_slug().len() || a.spec_slug()[0] != b.spec_slug()[0]);
    }
}

} // verus!
