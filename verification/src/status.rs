//! Status kinds printed in front of console messages, with their styles and labels.

use anstyle::{AnsiColor, Color, Effects, Style};
use vstd::prelude::*;

verus! {

/// The kind of a status message.
#[derive(Debug, Clone, Copy, PartialEq, Eq, Structural)]
pub enum StatusType {
    // operations in progress
    Creating,
    Adding,
    Modifying,
    Removing,
    // completed operations
    Created,
    Added,
    Modified,
    Removed,
    // plain status kinds
    Error,
    Warning,
}

/// The terminal colours that status messages use.
#[derive(Debug, Clone, Copy, PartialEq, Eq, Structural)]
pub enum StatusColor {
    BrightGreen,
    BrightCyan,
    BrightMagenta,
    BrightBlue,
    Green,
    Cyan,
    Magenta,
    Blue,
    Yellow,
    Red,
}

/// Declares `anstyle::Style`, the terminal style of a status label.
#[verifier::external_type_specification]
#[verifier::external_body]
pub struct ExStyle(anstyle::Style);

/// What `anstyle` builds for `Style::new() | Effects::BOLD` with the
/// foreground colour `color`.
pub uninterp spec fn bold_style(color: StatusColor) -> anstyle::Style;

/// Calls `anstyle::Style::new`, its `|` with `Effects::BOLD`, and
/// `Style::fg_color` with the `anstyle::AnsiColor` of the same name as
/// `color`; the result is named `bold_style` of `color`.
#[verifier::external_body]
fn bold_colored_style(color: StatusColor) -> (style: anstyle::Style)
    ensures
        style == bold_style(color),
{
    let ansi = match color {
        StatusColor::BrightGreen => AnsiColor::BrightGreen,
        StatusColor::BrightCyan => AnsiColor::BrightCyan,
        StatusColor::BrightMagenta => AnsiColor::BrightMagenta,
        StatusColor::BrightBlue => AnsiColor::BrightBlue,
        StatusColor::Green => AnsiColor::Green,
        StatusColor::Cyan => AnsiColor::Cyan,
        StatusColor::Magenta => AnsiColor::Magenta,
        StatusColor::Blue => AnsiColor::Blue,
        StatusColor::Yellow => AnsiColor::Yellow,
        StatusColor::Red => AnsiColor::Red,
    };
    (Style::new() | Effects::BOLD).fg_color(Some(Color::Ansi(ansi)))
}

/// The width of the column in which status labels are right-aligned.
pub const LABEL_WIDTH: usize = 12;

impl StatusType {
    /// The word that names the status.
    pub open spec fn label(self) -> Seq<char> {
        match self {
            StatusType::Creating => "Creating"@,
            StatusType::Adding => "Adding"@,
            StatusType::Modifying => "Modifying"@,
            StatusType::Removing => "Removing"@,
            StatusType::Created => "Created"@,
            StatusType::Added => "Added"@,
            StatusType::Modified => "Modified"@,
            StatusType::Removed => "Removed"@,
            StatusType::Warning => "Warning"@,
            StatusType::Error => "Error"@,
        }
    }

    /// Operations under way are shown in bright colours, completed ones in
    /// dimmed colours; warnings are yellow and errors red.
    pub open spec fn color_of(self) -> StatusColor {
        match self {
            StatusType::Creating => StatusColor::BrightGreen,
            StatusType::Adding => StatusColor::BrightCyan,
            StatusType::Removing => StatusColor::BrightMagenta,
            StatusType::Modifying => StatusColor::BrightBlue,
            StatusType::Created => StatusColor::Green,
            StatusType::Added => StatusColor::Cyan,
            StatusType::Removed => StatusColor::Magenta,
            StatusType::Modified => StatusColor::Blue,
            StatusType::Warning => StatusColor::Yellow,
            StatusType::Error => StatusColor::Red,
        }
    }

    /// The colour of the status.
    pub fn color(self) -> (c: StatusColor)
        ensures
            c == self.color_of(),
    {
        match self {
            StatusType::Creating => StatusColor::BrightGreen,
            StatusType::Adding => StatusColor::BrightCyan,
            StatusType::Removing => StatusColor::BrightMagenta,
            StatusType::Modifying => StatusColor::BrightBlue,
            StatusType::Created => StatusColor::Green,
            StatusType::Added => StatusColor::Cyan,
            StatusType::Removed => StatusColor::Magenta,
            StatusType::Modified => StatusColor::Blue,
            StatusType::Warning => StatusColor::Yellow,
            StatusType::Error => StatusColor::Red,
        }
    }

    /// The terminal style of the label: bold, in the colour of the status.
    pub fn style(self) -> (s: anstyle::Style)
        ensures
            s == bold_style(self.color_of()),
    {
        bold_colored_style(self.color())
    }

    /// The word that names the status.
    pub fn as_str(self) -> (s: &'static str)
        ensures
            s@ == self.label(),
    {
        match self {
            StatusType::Creating => "Creating",
            StatusType::Adding => "Adding",
            StatusType::Modifying => "Modifying",
            StatusType::Removing => "Removing",
            StatusType::Created => "Created",
            StatusType::Added => "Added",
            StatusType::Modified => "Modified",
            StatusType::Removed => "Removed",
            StatusType::Warning => "Warning",
            StatusType::Error => "Error",
        }
    }

    /// The label right-aligned in a column of `LABEL_WIDTH` characters, as it
    /// stands at the start of a status line.
    pub fn padded_label(self) -> (s: String)
        ensures
            s@ == right_aligned(self.label(), LABEL_WIDTH as nat),
    {
        let word = self.as_str();
        let len = word.unicode_len();
        let mut out = String::new();
        let mut i: usize = len;
        while i < LABEL_WIDTH
            invariant
                len == word@.len(),
                len <= i <= LABEL_WIDTH || (len > LABEL_WIDTH && i == len),
                out@ == Seq::new((i - len) as nat, |_j: int| ' '),
            decreases LABEL_WIDTH - i,
        {
            proof {
                reveal_strlit(" ");
            }
            out.append(" ");
            i = i + 1;
            assert(out@ =~= Seq::new((i - len) as nat, |_j: int| ' '));
        }
        out.append(word);
        out
    }
}

impl StatusColor {
    /// Whether the colour is the bright form of a terminal colour.
    pub open spec fn is_bright(self) -> bool {
        match self {
            StatusColor::BrightGreen | StatusColor::BrightCyan | StatusColor::BrightMagenta
            | StatusColor::BrightBlue => true,
            _ => false,
        }
    }

    /// The bright form of the colour; a colour with no bright form here
    /// stands for itself.
    pub open spec fn bright(self) -> StatusColor {
        match self {
            StatusColor::Green => StatusColor::BrightGreen,
            StatusColor::Cyan => StatusColor::BrightCyan,
            StatusColor::Magenta => StatusColor::BrightMagenta,
            StatusColor::Blue => StatusColor::BrightBlue,
            _ => self,
        }
    }
}

impl StatusType {
    /// The operation under way whose completion the status reports, for the
    /// four completed operations; any other status stands for itself.
    pub open spec fn in_progress(self) -> StatusType {
        match self {
            StatusType::Created => StatusType::Creating,
            StatusType::Added => StatusType::Adding,
            StatusType::Modified => StatusType::Modifying,
            StatusType::Removed => StatusType::Removing,
            _ => self,
        }
    }

    /// Whether the status reports a completed operation.
    pub open spec fn is_completed(self) -> bool {
        match self {
            StatusType::Created | StatusType::Added | StatusType::Modified | StatusType::Removed => true,
            _ => false,
        }
    }
}

/// The colours of status labels: a completed operation is shown in a plain
/// colour and the same operation under way in the bright form of it; warnings
/// and errors are plain too; and no two kinds of status share a colour.
pub proof fn law_status_colors()
    ensures
        forall|s: StatusType|
            #![trigger s.is_completed()]
            s.is_completed() ==> !s.color_of().is_bright() && s.in_progress().color_of()
                == s.color_of().bright() && s.in_progress().color_of().is_bright(),
        forall|s: StatusType|
            #[trigger] s.color_of().is_bright() <==> s.is_completed() == false && s
                != StatusType::Warning && s != StatusType::Error,
        forall|a: StatusType, b: StatusType| a != b ==> #[trigger] a.color_of() != #[trigger] b.color_of(),
{
}

/// `text` preceded by as many spaces as make it `width` characters long; text
/// that is already at least that long stands unchanged.
pub open spec fn right_aligned(text: Seq<char>, width: nat) -> Seq<char> {
    if text.len() < width {
        Seq::new((width - text.len()) as nat, |_i: int| ' ') + text
    } else {
        text
    }
}

} // verus!
