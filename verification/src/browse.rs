//! Reading an article that may be a disambiguation page.
//!
//! The program around the library fetches articles and options and asks the
//! user to pick one; the decisions between those steps are made here: show
//! the article, ask for a choice among its meanings, follow the picked one,
//! or stop with a message.

use vstd::prelude::*;

use crate::client::{
    is_disambiguation_page, option_views, plain_text_options, texts, Article, DisambigOption,
};
use crate::error::WikiError;
use crate::text::{extend_str, string_of};

verus! {

/// How many disambiguation pages are followed before giving up.
pub const MAX_DISAMBIGUATION_DEPTH: usize = 10;

/// What to do with the article reached after `depth` disambiguation pages.
#[derive(Debug, PartialEq, Eq, Structural)]
pub enum BrowseStep {
    /// Show the article.
    Render,
    /// Fetch its options and let the user pick one.
    Disambiguate,
    /// Stop: too many disambiguation pages in a row.
    GiveUp,
}

/// The step for an article reached after `depth` disambiguation pages.
pub open spec fn browse_step_of(a: Article, depth: nat) -> BrowseStep {
    if depth >= MAX_DISAMBIGUATION_DEPTH {
        BrowseStep::GiveUp
    } else if is_disambiguation_page(a.title@, a.content@, texts(a.categories@)) {
        BrowseStep::Disambiguate
    } else {
        BrowseStep::Render
    }
}

/// Decide what to do with `current`, reached after `depth` disambiguation
/// pages.
pub fn browse_step(current: &Article, depth: usize) -> (s: BrowseStep)
    ensures
        s == browse_step_of(*current, depth as nat),
{
    if depth >= MAX_DISAMBIGUATION_DEPTH {
        BrowseStep::GiveUp
    } else if current.is_disambiguation() {
        BrowseStep::Disambiguate
    } else {
        BrowseStep::Render
    }
}

/// What to do once the options of a disambiguation page were fetched.
pub enum OptionsStep {
    /// There are none: show the page as it is.
    Render,
    /// Let the user pick one of these.
    Choose(Vec<DisambigOption>),
}

/// The options to offer for `current`: those fetched, or, where fetching
/// them failed, those read from the page's plain text.
pub open spec fn offered_options(
    current: Article,
    fetched: Result<Vec<DisambigOption>, WikiError>,
) -> Seq<(Seq<char>, Seq<char>, Seq<char>)> {
    match fetched {
        Ok(opts) => option_views(opts@),
        Err(_) => plain_text_options(current.title@, current.content@),
    }
}

/// Decide what follows the fetch of the options of the disambiguation page
/// `current`: a failed fetch falls back to the options of its plain text,
/// and a page without options is shown as it is.
pub fn options_step(current: &Article, fetched: Result<Vec<DisambigOption>, WikiError>) -> (s:
    OptionsStep)
    ensures
        match s {
            OptionsStep::Render => offered_options(*current, fetched).len() == 0,
            OptionsStep::Choose(opts) => option_views(opts@) == offered_options(*current, fetched)
                && opts@.len() > 0,
        },
{
    let opts = match fetched {
        Ok(o) => o,
        Err(_) => current.disambiguation_options(),
    };
    if opts.len() == 0 {
        OptionsStep::Render
    } else {
        OptionsStep::Choose(opts)
    }
}

/// The message shown when too many disambiguation pages come in a row.
pub open spec fn give_up_text() -> Seq<char> {
    "Too many disambiguation levels — giving up."@
}

/// The message for [`BrowseStep::GiveUp`].
pub fn give_up_message() -> (m: String)
    ensures
        m@ == give_up_text(),
{
    crate::text::owned("Too many disambiguation levels — giving up.")
}

/// Where following a picked option leads.
pub enum Landing {
    /// A different article, to be handled in turn.
    Next(Article),
    /// The same page came back: a hint to search instead.
    Tip(String),
    /// The option's title could not be fetched: an error to show.
    Missing(String),
}

/// The hint shown when an option leads back to the same page.
pub open spec fn tip_message(description: Seq<char>) -> Seq<char> {
    "Tip: try `wiky search \""@ + description + "\"`  to find the exact article."@
}

/// The error shown when an option's article cannot be fetched.
pub open spec fn missing_message(option_title: Seq<char>, page_title: Seq<char>, description: Seq<
    char,
>) -> Seq<char> {
    "Could not find an article for \""@ + option_title + "\". Try: wiky search \""@ + page_title
        + "\", "@ + description + "\","@
}

/// Decide what follows the fetch of the option `picked` of the
/// disambiguation page `current`.
pub fn after_pick(current: &Article, picked: &DisambigOption, fetched: Result<Article, WikiError>) -> (l: Landing)
    ensures
        match fetched {
            Ok(next) => if next.title@ == current.title@ {
                l matches Landing::Tip(m) && m@ == tip_message(picked.description@)
            } else {
                l == Landing::Next(next)
            },
            Err(_) => l matches Landing::Missing(m) && m@ == missing_message(
                picked.title@,
                current.title@,
                picked.description@,
            ),
        },
{
    match fetched {
        Ok(next) => {
            if crate::text::eq_chars(
                &crate::text::chars_of(next.title.as_str()),
                &crate::text::chars_of(current.title.as_str()),
            ) {
                let mut m: Vec<char> = Vec::new();
                extend_str(&mut m, "Tip: try `wiky search \"");
                extend_str(&mut m, picked.description.as_str());
                extend_str(&mut m, "\"`  to find the exact article.");
                Landing::Tip(string_of(&m))
            } else {
                Landing::Next(next)
            }
        },
        Err(_) => {
            let mut m: Vec<char> = Vec::new();
            extend_str(&mut m, "Could not find an article for \"");
            extend_str(&mut m, picked.title.as_str());
            extend_str(&mut m, "\". Try: wiky search \"");
            extend_str(&mut m, current.title.as_str());
            extend_str(&mut m, "\", ");
            extend_str(&mut m, picked.description.as_str());
            extend_str(&mut m, "\",");
            Landing::Missing(string_of(&m))
        },
    }
}

} // verus!
