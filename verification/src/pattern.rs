//! Searching text with regular expressions.

use regex::Regex;
use vstd::prelude::*;

verus! {

use crate::command::agrees;
use crate::text::occurs_in;

/// Why `Regex::new` refuses a pattern, or `None` if it accepts it. It limits the memory that a
/// compiled pattern takes, and so depends on the width of a pointer too.
pub uninterp spec fn regex_refusal(pattern: Seq<char>, pointer_bits: nat) -> Option<Seq<char>>;

/// What the groups of an accepted pattern match where `Regex::captures` finds it first, or `None`
/// if it is not found. Group zero is the whole match; a group that takes no part in it is `None`.
pub uninterp spec fn regex_captures(pattern: Seq<char>, haystack: Seq<char>) -> Option<
    Seq<Option<Seq<char>>>,
>;

/// The debug representation of what `Regex::captures` finds.
pub uninterp spec fn regex_captures_debug(pattern: Seq<char>, haystack: Seq<char>) -> Seq<char>;

/// Why a pattern is refused on this machine, or `None` if it is accepted.
pub open spec fn refusal(pattern: Seq<char>) -> Option<Seq<char>> {
    regex_refusal(pattern, usize::BITS as nat)
}

/// The text of a group.
pub open spec fn group_text(group: Option<String>) -> Option<Seq<char>> {
    match group {
        Some(s) => Some(s@),
        None => None,
    }
}

/// The texts of groups.
pub open spec fn group_texts(groups: Seq<Option<String>>) -> Seq<Option<Seq<char>>> {
    groups.map_values(|group: Option<String>| group_text(group))
}

/// Compiles a pattern with `Regex::new`. Whether it is accepted, and what the error says, depends
/// on the pattern and on the width of a pointer; which patterns are accepted is not stated.
#[verifier::external_body]
fn compile(pattern: &str) -> (r: Result<(), String>)
    ensures
        match r {
            Ok(_) => regex_refusal(pattern@, usize::BITS as nat) is None,
            Err(e) => regex_refusal(pattern@, usize::BITS as nat) == Some(e@),
        },
{
    match Regex::new(pattern) {
        Ok(_) => Ok(()),
        Err(e) => Err(e.to_string()),
    }
}

/// Searches with `Regex::captures` for a pattern that `Regex::new` accepts. What is found depends
/// on the pattern and the haystack. Group zero is always there, and each group's text is a part of
/// the haystack; which part is not stated.
#[verifier::external_body]
fn captures(pattern: &str, haystack: &str) -> (r: Option<Vec<Option<String>>>)
    requires
        refusal(pattern@) is None,
    ensures
        match r {
            Some(groups) => regex_captures(pattern@, haystack@) == Some(group_texts(groups@)),
            None => regex_captures(pattern@, haystack@) is None,
        },
        r matches Some(groups) ==> {
            &&& groups@.len() > 0
            &&& groups@[0] is Some
            &&& forall|i: int|
                0 <= i < groups@.len() ==> (#[trigger] groups@[i] matches Some(s) ==> occurs_in(
                    haystack@,
                    s@,
                ))
        },
{
    let regex = Regex::new(pattern).unwrap();
    let found = regex.captures(haystack)?;
    Some(found.iter().map(|group| group.map(|m| m.as_str().to_string())).collect())
}

/// Formats what `Regex::captures` finds with `{:?}`. The text depends on the pattern and the
/// haystack; what it looks like is not stated.
#[verifier::external_body]
fn captures_debug(pattern: &str, haystack: &str) -> (s: String)
    requires
        refusal(pattern@) is None,
        regex_captures(pattern@, haystack@) is Some,
    ensures
        s@ == regex_captures_debug(pattern@, haystack@),
{
    format!("{:?}", Regex::new(pattern).unwrap().captures(haystack).unwrap())
}

/// What came of a search.
#[derive(Debug)]
pub enum Search {
    /// The pattern was refused, and why.
    Refused(String),
    /// The pattern was not found.
    NotFound,
    /// The pattern was found: its groups, and how they are shown to the user.
    Found { groups: Vec<Option<String>>, shown: String },
}

/// The model of what came of a search.
pub enum SearchModel {
    Refused(Seq<char>),
    NotFound,
    Found { groups: Seq<Option<Seq<char>>>, shown: Seq<char> },
}

impl View for Search {
    type V = SearchModel;

    open spec fn view(&self) -> SearchModel {
        match self {
            Search::Refused(reason) => SearchModel::Refused(reason@),
            Search::NotFound => SearchModel::NotFound,
            Search::Found { groups, shown } => SearchModel::Found {
                groups: group_texts(groups@),
                shown: shown@,
            },
        }
    }
}

/// What comes of the search for a pattern.
pub open spec fn searched(pattern: Seq<char>, haystack: Seq<char>) -> SearchModel {
    match refusal(pattern) {
        Some(reason) => SearchModel::Refused(reason),
        None => match regex_captures(pattern, haystack) {
            None => SearchModel::NotFound,
            Some(groups) => SearchModel::Found {
                groups,
                shown: regex_captures_debug(pattern, haystack),
            },
        },
    }
}

/// The text of the first group that a search found, or why there is none.
pub open spec fn group_in(pattern: Seq<char>, haystack: Seq<char>, search: SearchModel) -> Result<
    Seq<char>,
    Seq<char>,
> {
    match search {
        SearchModel::Refused(reason) => Err("failed to build regex: "@ + reason),
        SearchModel::NotFound => Err(
            "failed to match regex '"@ + pattern + "' in haystack: '"@ + haystack + "'"@,
        ),
        SearchModel::Found { groups, shown } => if groups.len() > 1 && groups[1] is Some {
            Ok(groups[1]->0)
        } else {
            Err(
                "no groups captured ("@ + shown + ") for regex '"@ + pattern + "' in haystack '"@
                    + haystack + "'"@,
            )
        },
    }
}

/// The text of a pattern's first group where the pattern is found first in a haystack.
pub open spec fn first_group(pattern: Seq<char>, haystack: Seq<char>) -> Result<
    Seq<char>,
    Seq<char>,
> {
    group_in(pattern, haystack, searched(pattern, haystack))
}

/// Searches a haystack for a pattern.
pub fn search(regex: &str, haystack: &str) -> (r: Search)
    ensures
        r@ == searched(regex@, haystack@),
        r matches Search::Found { groups, .. } ==> forall|i: int|
            0 <= i < groups@.len() ==> (#[trigger] groups@[i] matches Some(s) ==> occurs_in(
                haystack@,
                s@,
            )),
{
    match compile(regex) {
        Err(reason) => Search::Refused(reason),
        Ok(_) => match captures(regex, haystack) {
            None => Search::NotFound,
            Some(groups) => {
                let shown = captures_debug(regex, haystack);
                Search::Found { groups, shown }
            },
        },
    }
}

/// Takes the text of the first group that a search found.
pub fn take_first_group(regex: &str, haystack: &str, search: &Search) -> (r: Result<String, String>)
    ensures
        agrees(r, group_in(regex@, haystack@, search@)),
        r matches Ok(text) ==> {
            &&& search matches Search::Found { groups, .. }
            &&& groups@.len() > 1
            &&& groups@[1] == Some(text)
        },
{
    match search {
        Search::Refused(reason) => {
            let mut e: String = "failed to build regex: ".to_owned();
            e.append(reason.as_str());
            Err(e)
        },
        Search::NotFound => {
            let mut e: String = "failed to match regex '".to_owned();
            e.append(regex);
            e.append("' in haystack: '");
            e.append(haystack);
            e.append("'");
            Err(e)
        },
        Search::Found { groups, shown } => {
            if groups.len() > 1 {
                assert(group_texts(groups@)[1] == group_text(groups@[1]));
                if let Some(text) = &groups[1] {
                    return Ok(text.clone());
                }
            }
            let mut e: String = "no groups captured (".to_owned();
            e.append(shown.as_str());
            e.append(") for regex '");
            e.append(regex);
            e.append("' in haystack '");
            e.append(haystack);
            e.append("'");
            Err(e)
        },
    }
}

/// Searches a haystack for a pattern and returns the text of the pattern's first group.
pub fn get_first_regex_group(regex: &str, haystack: &str) -> (r: Result<String, String>)
    ensures
        agrees(r, first_group(regex@, haystack@)),
        r matches Ok(text) ==> occurs_in(haystack@, text@),
{
    take_first_group(regex, haystack, &search(regex, haystack))
}

/// The groups of a search are seen with their texts, all of them and in their order.
pub proof fn law_groups_are_seen(search: Search)
    ensures
        search matches Search::Refused(reason) ==> search@ == SearchModel::Refused(reason@),
        search is NotFound ==> search@ == SearchModel::NotFound,
        search matches Search::Found { groups, shown } ==> {
            &&& search@ is Found
            &&& search@->shown == shown@
            &&& search@->groups.len() == groups@.len()
            &&& forall|i: int|
                0 <= i < groups@.len() ==> match groups@[i] {
                    Some(text) => #[trigger] search@->groups[i] == Some(text@),
                    None => search@->groups[i] is None,
                }
        },
{
}

/// A pattern that is accepted gives what the search finds, whatever the pattern and the haystack.
pub proof fn law_searches_are_not_altered(pattern: Seq<char>, haystack: Seq<char>)
    ensures
        refusal(pattern) == regex_refusal(pattern, usize::BITS as nat),
        refusal(pattern) matches Some(reason) ==> searched(pattern, haystack)
            == SearchModel::Refused(reason),
        refusal(pattern) is None && regex_captures(pattern, haystack) is None ==> searched(
            pattern,
            haystack,
        ) == SearchModel::NotFound,
        refusal(pattern) is None ==> (regex_captures(pattern, haystack) matches Some(groups)
            ==> searched(pattern, haystack) == (SearchModel::Found {
            groups,
            shown: regex_captures_debug(pattern, haystack),
        })),
{
}

/// The text of the first group is returned as it was found, and nothing else is returned. Where a
/// pattern is refused, is not found, or has no first group that takes part, the error says so.
pub proof fn law_the_first_group_is_returned(
    pattern: Seq<char>,
    haystack: Seq<char>,
    text: Seq<char>,
)
    ensures
        first_group(pattern, haystack) == Ok::<Seq<char>, Seq<char>>(text) <==> {
            &&& regex_refusal(pattern, usize::BITS as nat) is None
            &&& regex_captures(pattern, haystack) is Some
            &&& regex_captures(pattern, haystack)->0.len() > 1
            &&& regex_captures(pattern, haystack)->0[1] == Some(text)
        },
        regex_refusal(pattern, usize::BITS as nat) matches Some(reason) ==> first_group(
            pattern,
            haystack,
        ) == Err::<Seq<char>, Seq<char>>("failed to build regex: "@ + reason),
        regex_refusal(pattern, usize::BITS as nat) is None && regex_captures(pattern, haystack)
            is None ==> first_group(pattern, haystack) == Err::<Seq<char>, Seq<char>>(
            "failed to match regex '"@ + pattern + "' in haystack: '"@ + haystack + "'"@,
        ),
        regex_refusal(pattern, usize::BITS as nat) is None ==> (regex_captures(
            pattern,
            haystack,
        ) matches Some(groups) ==> groups.len() < 2 || groups[1] is None ==> first_group(
            pattern,
            haystack,
        ) == Err::<Seq<char>, Seq<char>>(
            "no groups captured ("@ + regex_captures_debug(pattern, haystack) + ") for regex '"@
                + pattern + "' in haystack '"@ + haystack + "'"@,
        )),
{
}

/// What is taken from any search is its first group, or the error that goes with the search.
pub proof fn law_any_search_gives_its_first_group(
    pattern: Seq<char>,
    haystack: Seq<char>,
    groups: Seq<Option<Seq<char>>>,
    shown: Seq<char>,
)
    ensures
        groups.len() > 1 ==> (groups[1] matches Some(text) ==> group_in(
            pattern,
            haystack,
            (SearchModel::Found { groups, shown }),
        ) == Ok::<Seq<char>, Seq<char>>(text)),
        groups.len() < 2 || groups[1] is None ==> group_in(
            pattern,
            haystack,
            (SearchModel::Found { groups, shown }),
        ) == Err::<Seq<char>, Seq<char>>(
            "no groups captured ("@ + shown + ") for regex '"@ + pattern + "' in haystack '"@
                + haystack + "'"@,
        ),
        group_in(pattern, haystack, SearchModel::NotFound) == Err::<Seq<char>, Seq<char>>(
            "failed to match regex '"@ + pattern + "' in haystack: '"@ + haystack + "'"@,
        ),
        group_in(pattern, haystack, SearchModel::Refused(shown)) == Err::<Seq<char>, Seq<char>>(
            "failed to build regex: "@ + shown,
        ),
{
}

} // verus!
