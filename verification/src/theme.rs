//! The palette, the icons, and the five blades.
use vstd::prelude::*;

use crate::draw::{Color, Style};
use crate::github::PrGroup;

verus! {

pub const BASE: Color = Color::Crust;
pub const MANTLE: Color = Color::Mantle;
pub const CRUST: Color = Color::Crust;
pub const SURFACE0: Color = Color::Surface0;
pub const SURFACE1: Color = Color::Surface1;
pub const SURFACE2: Color = Color::Surface2;
pub const OVERLAY0: Color = Color::Overlay0;
pub const OVERLAY1: Color = Color::Overlay1;
pub const SUBTEXT0: Color = Color::Subtext0;
pub const SUBTEXT1: Color = Color::Subtext1;
pub const TEXT: Color = Color::Text;
pub const ADD: Color = Color::Green;
pub const ADD_BG: Color = Color::AddedBg;
pub const DEL: Color = Color::Red;
pub const DEL_BG: Color = Color::DeletedBg;
pub const HUNK: Color = Color::Sapphire;
pub const OPEN: Color = Color::Green;
pub const DRAFT: Color = Color::Overlay1;
pub const REVIEW_REQUESTED: Color = Color::Blue;
pub const PASS: Color = Color::Green;
pub const FAIL: Color = Color::Red;
pub const PENDING: Color = Color::Yellow;
pub const INBOX: Color = Color::Blue;
pub const OVERVIEW: Color = Color::Peach;
pub const ACTIVITY: Color = Color::Mauve;
pub const FILES: Color = Color::Green;
pub const DIFF: Color = Color::Teal;
pub const LINK: Color = Color::Sapphire;
pub const CODE_BG: Color = Color::Surface1;
pub const HIGH: Color = Color::Red;
pub const MED: Color = Color::Peach;
pub const LOW: Color = Color::Overlay0;
pub const ACCENT: Color = INBOX;
pub const BORDER: Color = SURFACE1;
pub const PANEL_BG: Color = MANTLE;
pub const SELECT_BG: Color = SURFACE0;
pub const MUTED: Color = OVERLAY0;
pub const SUBTLE: Color = SUBTEXT0;
pub const GROUP: Color = OVERVIEW;
pub const ICON_PR: &'static str = "\u{EA64}";
pub const ICON_PR_CLOSED: &'static str = "\u{EBDA}";
pub const ICON_PR_DRAFT: &'static str = "\u{EBDB}";
pub const ICON_COMMENT: &'static str = "\u{EA6B}";
pub const ICON_COMMENT_DISCUSSION: &'static str = "\u{EAC7}";
pub const ICON_CHECK: &'static str = "\u{EAB2}";
pub const ICON_CLOSE: &'static str = "\u{EA76}";
pub const ICON_ERROR: &'static str = "\u{EA87}";
pub const ICON_WARNING: &'static str = "\u{EA6C}";
pub const ICON_EYE: &'static str = "\u{EA70}";
pub const ICON_PERSON_ADD: &'static str = "\u{EBCD}";
pub const ICON_COMMIT: &'static str = "\u{EAFC}";
pub const ICON_MERGE: &'static str = "\u{EAFE}";
pub const ICON_REOPEN: &'static str = "\u{EB0B}";
pub const ICON_REQUEST_CHANGES: &'static str = "\u{EB43}";
pub const ICON_SYNC: &'static str = "\u{EA77}";
pub const ICON_CIRCLE_SLASH: &'static str = "\u{EABD}";
pub const ICON_DASH: &'static str = "\u{EACC}";
pub const ICON_FILE: &'static str = "\u{EA7B}";
pub const ICON_FILES: &'static str = "\u{EAF0}";
pub const ICON_INBOX: &'static str = "\u{EB09}";
pub const ICON_OVERVIEW: &'static str = "\u{EA7F}";
pub const ICON_ACTIVITY: &'static str = "\u{EB42}";
pub const ICON_DIFF: &'static str = "\u{EAE1}";
pub const ICON_DIFF_ADDED: &'static str = "\u{EADC}";
pub const ICON_DIFF_REMOVED: &'static str = "\u{EADF}";
pub const ICON_DIFF_MODIFIED: &'static str = "\u{EADE}";
pub const ICON_DIFF_RENAMED: &'static str = "\u{EAE0}";
pub const ICON_LINK: &'static str = "\u{EA7C}";
pub const ICON_FORCE_PUSH: &'static str = "\u{EB3F}";
pub const ICON_ROCKET: &'static str = "\u{EB44}";
/// One of the five horizontal Brunson blades.
#[derive(Debug, Clone, Copy, PartialEq, Eq, Hash, Structural)]
pub enum Blade {
    Inbox,
    Overview,
    Activity,
    Files,
    Diff,
}

impl Default for Blade {
    fn default() -> (r: Self)
        ensures
            r == Blade::Inbox,
    {
        Blade::Inbox
    }
}

impl Blade {
    /// The blade's place from left to right.
    #[verifier::allow_in_spec]
    pub fn index(self) -> usize
        returns
            (match self {
                Blade::Inbox => 0usize,
                Blade::Overview => 1usize,
                Blade::Activity => 2usize,
                Blade::Files => 3usize,
                Blade::Diff => 4usize,
            }),
    {
        match self {
            Blade::Inbox => 0,
            Blade::Overview => 1,
            Blade::Activity => 2,
            Blade::Files => 3,
            Blade::Diff => 4,
        }
    }

    /// The blade at place `i`; the last one for every place beyond it.
    #[verifier::allow_in_spec]
    pub fn from_index(i: usize) -> Blade
        returns
            (if i == 0 {
                Blade::Inbox
            } else if i == 1 {
                Blade::Overview
            } else if i == 2 {
                Blade::Activity
            } else if i == 3 {
                Blade::Files
            } else {
                Blade::Diff
            }),
    {
        match i {
            0 => Blade::Inbox,
            1 => Blade::Overview,
            2 => Blade::Activity,
            3 => Blade::Files,
            _ => Blade::Diff,
        }
    }

    #[verifier::allow_in_spec]
    pub fn accent(self) -> Color
        returns
            (match self {
                Blade::Inbox => INBOX,
                Blade::Overview => OVERVIEW,
                Blade::Activity => ACTIVITY,
                Blade::Files => FILES,
                Blade::Diff => DIFF,
            }),
    {
        match self {
            Blade::Inbox => INBOX,
            Blade::Overview => OVERVIEW,
            Blade::Activity => ACTIVITY,
            Blade::Files => FILES,
            Blade::Diff => DIFF,
        }
    }

    pub open spec fn name_spec(self) -> Seq<char> {
        match self {
            Blade::Inbox => "inbox"@,
            Blade::Overview => "overview"@,
            Blade::Activity => "activity"@,
            Blade::Files => "files"@,
            Blade::Diff => "diff"@,
        }
    }

    pub fn name(self) -> (r: &'static str)
        ensures
            r@ == self.name_spec(),
    {
        match self {
            Blade::Inbox => "inbox",
            Blade::Overview => "overview",
            Blade::Activity => "activity",
            Blade::Files => "files",
            Blade::Diff => "diff",
        }
    }

    #[verifier::allow_in_spec]
    pub fn count() -> usize
        returns
            5usize,
    {
        5
    }
}

/// A blade is found again at its own place, and every place below the count
/// is the place of the blade found there.
pub proof fn blade_index_round_trip(blade: Blade, i: usize)
    requires
        i < Blade::count(),
    ensures
        Blade::from_index(blade.index()) == blade,
        blade.index() < Blade::count(),
        Blade::from_index(i).index() == i,
{
}

/// Semantic styles used by the components.
#[derive(Debug, Clone, Copy)]
pub struct Theme;

impl Default for Theme {
    fn default() -> (r: Self)
        ensures
            r == Theme,
    {
        Theme
    }
}

impl Theme {
    #[verifier::allow_in_spec]
    pub fn base_bg(&self) -> Style
        returns
            Style::plain().bg(BASE),
    {
        Style::plain().bg(BASE)
    }

    #[verifier::allow_in_spec]
    pub fn blade_bg(&self) -> Style
        returns
            Style::plain().bg(MANTLE),
    {
        Style::plain().bg(MANTLE)
    }

    #[verifier::allow_in_spec]
    pub fn selected(&self) -> Style
        returns
            Style::plain().fg(TEXT).bg(SURFACE0).bold(),
    {
        Style::plain().fg(TEXT).bg(SURFACE0).bold()
    }

    #[verifier::allow_in_spec]
    pub fn unselected(&self) -> Style
        returns
            Style::plain().fg(TEXT).bg(MANTLE),
    {
        Style::plain().fg(TEXT).bg(MANTLE)
    }

    #[verifier::allow_in_spec]
    pub fn muted(&self) -> Style
        returns
            Style::plain().fg(OVERLAY0),
    {
        Style::plain().fg(OVERLAY0)
    }

    #[verifier::allow_in_spec]
    pub fn text(&self) -> Style
        returns
            Style::plain().fg(TEXT),
    {
        Style::plain().fg(TEXT)
    }

    #[verifier::allow_in_spec]
    pub fn bold(&self, fg: Color) -> Style
        returns
            Style::plain().fg(fg).bold(),
    {
        Style::plain().fg(fg).bold()
    }

    #[verifier::allow_in_spec]
    pub fn dim(&self) -> Style
        returns
            Style::plain().fg(SUBTEXT0).dim(),
    {
        Style::plain().fg(SUBTEXT0).dim()
    }

    #[verifier::allow_in_spec]
    pub fn accent(&self, blade: Blade) -> Style
        returns
            Style::plain().fg(blade.accent()),
    {
        Style::plain().fg(blade.accent())
    }
}

/// The display colour of a pull-request group.
#[verifier::allow_in_spec]
pub fn state_color(group: PrGroup) -> Color
    returns
        (match group {
            PrGroup::Draft => DRAFT,
            PrGroup::Other => REVIEW_REQUESTED,
            _ => OPEN,
        }),
{
    match group {
        PrGroup::ReviewNeeded | PrGroup::ReviewUpdate | PrGroup::ReviewDone => OPEN,
        PrGroup::Draft => DRAFT,
        PrGroup::AuthoredActionNeeded | PrGroup::AuthoredReadyToMerge
        | PrGroup::AuthoredWaiting => OPEN,
        PrGroup::Other => REVIEW_REQUESTED,
    }
}

} // verus!
