//! Finding the users that a comment mentions: every `@name` in the text,
//! of which the first five occurrences count.

use vstd::prelude::*;
use crate::foreign::group_texts;
use crate::foreign::pattern_first_groups;
use crate::foreign::regex_first_groups;
use crate::models::texts;
use crate::state::first_items;
use crate::validate::derive_user_name;
use crate::validate::user_name_of;

verus! {

pub const MAX_MENTIONS_PER_COMMENT: usize = 5;

/// The regular expression of a mention: an `@` and the run of
/// non-blank characters behind it.
pub open spec fn mention_pattern_text() -> Seq<char> {
    "@(\\S+)"@
}

pub fn mention_pattern() -> (r: &'static str)
    ensures
        r@ == mention_pattern_text(),
{
    "@(\\S+)"
}

/// The names in a list of captures, each once, in the order in which they
/// first occur.
pub open spec fn distinct_names(groups: Seq<Option<Seq<char>>>) -> Seq<Seq<char>>
    decreases groups.len(),
{
    if groups.len() == 0 {
        Seq::empty()
    } else {
        let rest = distinct_names(groups.drop_last());
        match groups.last() {
            Some(name) => if rest.contains(name) {
                rest
            } else {
                rest.push(name)
            },
            None => rest,
        }
    }
}

/// The user name that a capture stands for: a user is mentioned by the
/// display name, or by the user name that belongs to it.
pub open spec fn mention_target() -> spec_fn(Option<Seq<char>>) -> Option<Seq<char>> {
    |group: Option<Seq<char>>|
        match group {
            Some(name) => Some(user_name_of(name)),
            None => None,
        }
}

/// The user names that a comment mentions, given the captures found in
/// it: the first five captures count, and of those each user name once. A
/// name that first occurs behind the fifth capture is dropped, even if
/// fewer than five distinct names remain.
pub open spec fn pick_mentions(groups: Seq<Option<Seq<char>>>) -> Seq<Seq<char>> {
    distinct_names(first_items(groups, 5).map_values(mention_target()))
}

/// The names of a comment's text: those picked from the captures of the
/// mention pattern.
pub open spec fn mentions_of(content: Seq<char>) -> Seq<Seq<char>> {
    match regex_first_groups(mention_pattern_text(), content) {
        Some(groups) => pick_mentions(groups),
        None => Seq::empty(),
    }
}

/// The distinct names are as many as the captures at most, none of them
/// occurs twice, and they are exactly the names among the captures.
pub proof fn lemma_distinct_names(groups: Seq<Option<Seq<char>>>)
    ensures
        distinct_names(groups).len() <= groups.len(),
        distinct_names(groups).no_duplicates(),
        forall|name: Seq<char>|
            distinct_names(groups).contains(name) <==> groups.contains(Some(name)),
    decreases groups.len(),
{
    if groups.len() > 0 {
        let rest = groups.drop_last();
        lemma_distinct_names(rest);
        let d = distinct_names(rest);
        let out = distinct_names(groups);
        assert forall|name: Seq<char>| out.contains(name) <==> groups.contains(Some(name)) by {
            if groups.contains(Some(name)) {
                let i = choose|i: int| 0 <= i < groups.len() && groups[i] == Some(name);
                if i < groups.len() - 1 {
                    assert(rest[i] == Some(name));
                    assert(rest.contains(Some(name)));
                    assert(d.contains(name));
                    let j = choose|j: int| 0 <= j < d.len() && d[j] == name;
                    assert(out[j] == name);
                } else {
                    if d.contains(name) {
                    } else {
                        assert(out[out.len() - 1] == name);
                    }
                }
            }
            if out.contains(name) {
                let j = choose|j: int| 0 <= j < out.len() && out[j] == name;
                if j < d.len() {
                    assert(d[j] == name);
                    assert(d.contains(name));
                    assert(rest.contains(Some(name)));
                    let i = choose|i: int| 0 <= i < rest.len() && rest[i] == Some(name);
                    assert(groups[i] == Some(name));
                } else {
                    assert(groups[groups.len() - 1] == Some(name));
                }
            }
        }
    }
}

/// At most five names are picked, and none twice.
pub proof fn lemma_pick_mentions(groups: Seq<Option<Seq<char>>>)
    ensures
        pick_mentions(groups).len() <= 5,
        pick_mentions(groups).no_duplicates(),
        forall|name: Seq<char>|
            pick_mentions(groups).contains(name) <==> first_items(groups, 5).map_values(
                mention_target(),
            ).contains(Some(name)),
{
    lemma_distinct_names(first_items(groups, 5).map_values(mention_target()));
}

fn holds_name(names: &Vec<String>, name: &String) -> (r: bool)
    ensures
        r == texts(names@).contains(name@),
{
    let mut i: usize = 0;
    while i < names.len()
        invariant
            i <= names.len(),
            forall|j: int| 0 <= j < i ==> texts(names@)[j] != name@,
        decreases names.len() - i,
    {
        if names[i] == *name {
            assert(texts(names@)[i as int] == name@);
            return true;
        }
        i += 1;
    }
    false
}

/// Picks the mentioned user names from the captures of the mention
/// pattern.
pub fn mentioned_names(groups: &Vec<Option<String>>) -> (names: Vec<String>)
    ensures
        texts(names@) == pick_mentions(group_texts(groups@)),
        names@.len() <= 5,
        texts(names@).no_duplicates(),
{
    let mut names: Vec<String> = Vec::new();
    let mut i: usize = 0;
    let ghost all = group_texts(groups@);
    let ghost targets = first_items(all, 5).map_values(mention_target());
    proof {
        assert(targets.take(0) =~= Seq::empty());
        assert(texts(names@) =~= distinct_names(targets.take(0)));
        lemma_pick_mentions(all);
    }
    while i < groups.len() && i < MAX_MENTIONS_PER_COMMENT
        invariant
            i <= groups.len(),
            i <= 5,
            all == group_texts(groups@),
            targets == first_items(all, 5).map_values(mention_target()),
            texts(names@) =~= distinct_names(targets.take(i as int)),
        decreases groups.len() - i,
    {
        proof {
            assert(targets.take(i + 1).drop_last() =~= targets.take(i as int));
            assert(targets.take(i + 1).last() == mention_target()(all[i as int]));
        }
        match &groups[i] {
            Some(name) => {
                let target = derive_user_name(name.as_str());
                if !holds_name(&names, &target) {
                    let ghost before = texts(names@);
                    names.push(target);
                    assert(texts(names@) =~= before.push(user_name_of(name@)));
                }
            },
            None => {},
        }
        i += 1;
    }
    proof {
        assert(targets.take(i as int) =~= targets);
    }
    names
}

/// The user names that a comment's text mentions.
pub fn extract_mentions(content: &str) -> (names: Vec<String>)
    ensures
        texts(names@) == mentions_of(content@),
        names@.len() <= 5,
        texts(names@).no_duplicates(),
{
    match pattern_first_groups(mention_pattern(), content) {
        Some(groups) => mentioned_names(&groups),
        None => {
            let names: Vec<String> = Vec::new();
            assert(texts(names@) =~= Seq::empty());
            names
        },
    }
}

} // verus!
