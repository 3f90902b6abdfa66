//! State of the launcher's side panels that does not depend on rendering:
//! which view is shown, the download button, the changelog and how much
//! of it is shown.

use vstd::prelude::*;
use vstd::string::StringExecFns;

verus! {

#[derive(Debug, Clone, Copy, PartialEq, Eq, Structural)]
/// The launcher's screens. (`View` is taken by Verus's view trait.)
pub enum LauncherView {
    Default,
}

impl Default for LauncherView {
    fn default() -> (r: Self)
        ensures
            r == LauncherView::Default,
    {
        LauncherView::Default
    }
}

#[derive(Debug, Clone, Copy, PartialEq, Eq, Structural)]
pub enum RuleStyle {
    Default,
}

impl Default for RuleStyle {
    fn default() -> (r: Self)
        ensures
            r == RuleStyle::Default,
    {
        RuleStyle::Default
    }
}

#[derive(Debug, Clone, Copy, PartialEq, Eq, Structural)]
pub enum DownloadButtonState {
    Checking,
    WaitForConfirm,
    InProgress,
}

#[derive(Debug, Clone, Copy, PartialEq, Eq, Structural)]
pub enum PostOffsetChange {
    Increment,
    Decrement,
}

/// The community post shown after a click on "previous" or "next": one
/// step, kept within the posts there are (the first one when there are
/// none).
pub fn changed_offset(offset: usize, post_count: usize, change: PostOffsetChange) -> (r: usize)
    ensures
        post_count == 0 ==> r == 0,
        post_count > 0 && change == PostOffsetChange::Increment ==> r == vstd::math::min(
            offset + 1,
            post_count - 1,
        ),
        post_count > 0 && change == PostOffsetChange::Decrement ==> r == vstd::math::min(
            if offset > 0 { offset - 1 } else { 0 },
            post_count - 1,
        ),
{
    if post_count == 0 {
        return 0;
    }
    let last = post_count - 1;
    let wanted = match change {
        PostOffsetChange::Increment => offset.saturating_add(1),
        PostOffsetChange::Decrement => offset.saturating_sub(1),
    };
    if wanted < last {
        wanted
    } else {
        last
    }
}

/// One released version in the changelog.
#[derive(Debug, Clone)]
pub struct ChangelogVersion {
    pub version: String,
    pub date: Option<String>,
    pub notes: Vec<String>,
    pub sections: Vec<(String, Vec<String>)>,
}

/// The heading of a changelog version: `v<version> (<date>)`, `Nightly`
/// for the unreleased one, else `v<version>`.
pub open spec fn version_title(version: Seq<char>, date: Option<Seq<char>>) -> Seq<char> {
    match date {
        Some(d) => "v"@ + version + " ("@ + d + ")"@,
        None => if version == "Unreleased"@ {
            "Nightly"@
        } else {
            "v"@ + version
        },
    }
}

impl ChangelogVersion {
    pub fn title(&self) -> (r: String)
        ensures
            r@ == version_title(
                self.version@,
                match self.date {
                    Some(d) => Some(d@),
                    None => None,
                },
            ),
    {
        match &self.date {
            Some(date) => String::from_str("v").concat(self.version.as_str()).concat(" (").concat(
                date.as_str(),
            ).concat(")"),
            None => {
                let unreleased = String::from_str("Unreleased");
                if self.version == unreleased {
                    String::from_str("Nightly")
                } else {
                    String::from_str("v").concat(self.version.as_str())
                }
            },
        }
    }
}

/// How many changelog versions are shown before the reader scrolls.
pub fn default_display_count() -> (r: usize)
    ensures
        r == 2,
{
    2
}

/// The changelog and how many of its versions are shown.
#[derive(Debug, Clone)]
pub struct ChangelogPanelComponent {
    pub versions: Vec<ChangelogVersion>,
    pub etag: String,
    pub display_count: usize,
}

impl ChangelogPanelComponent {
    /// Scrolling close to the end of the list shows one version more, as
    /// long as there are more.
    pub fn scrolled(&mut self, near_end: bool)
        ensures
            final(self).versions == old(self).versions,
            final(self).etag == old(self).etag,
            final(self).display_count == if near_end && old(self).display_count < old(
                self,
            ).versions@.len() {
                old(self).display_count + 1
            } else {
                old(self).display_count as int
            },
    {
        if near_end && self.display_count < self.versions.len() {
            self.display_count = self.display_count + 1;
        }
    }

    /// How many versions are shown.
    pub fn shown(&self) -> (r: usize)
        ensures
            r == vstd::math::min(self.display_count as int, self.versions@.len() as int),
    {
        if self.display_count < self.versions.len() {
            self.display_count
        } else {
            self.versions.len()
        }
    }
}

} // verus!
