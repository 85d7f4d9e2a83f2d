//! From the labels of a workspace to its new name.
use vstd::prelude::*;
use vstd::string::*;
use itertools::Itertools;
use crate::config::{Config, get_option};
use crate::node::{LayoutNode, LookupError, texts};

verus! {

/// The number of characters of `name` before its first space; its length where
/// it has none.
pub open spec fn token_end(name: Seq<char>) -> int
    decreases name.len(),
{
    if name.len() == 0 || name.first() == ' ' {
        0
    } else {
        1 + token_end(name.drop_first())
    }
}

/// The part of `name` before its first space: the prefix that a rename keeps.
pub open spec fn leading_token(name: Seq<char>) -> Seq<char> {
    name.take(token_end(name))
}

/// The labels put in a row, with `separator` between each two.
pub open spec fn joined(labels: Seq<Seq<char>>, separator: Seq<char>) -> Seq<char>
    decreases labels.len(),
{
    if labels.len() == 0 {
        Seq::empty()
    } else if labels.len() == 1 {
        labels[0]
    } else {
        joined(labels.drop_last(), separator) + separator + labels.last()
    }
}

/// The labels without repetitions: of equal labels the first stays, and what
/// stays keeps its order.
pub open spec fn first_occurrences(labels: Seq<Seq<char>>) -> Seq<Seq<char>>
    decreases labels.len(),
{
    if labels.len() == 0 {
        Seq::empty()
    } else {
        let before = first_occurrences(labels.drop_last());
        if before.contains(labels.last()) {
            before
        } else {
            before.push(labels.last())
        }
    }
}

/// The labels that the name shows: all of them, or each once where
/// `remove_duplicates` is set.
pub open spec fn shown_labels(labels: Seq<Seq<char>>, config: &Config) -> Seq<Seq<char>> {
    if config.flag("remove_duplicates"@) {
        first_occurrences(labels)
    } else {
        labels
    }
}

/// The name that a workspace called `old_name` gets for the windows labelled
/// `labels`: the leading token of the old name, then, where there is any
/// label text, a space and the joined labels.
pub open spec fn new_name(old_name: Seq<char>, labels: Seq<Seq<char>>, config: &Config) -> Seq<char> {
    let list = joined(shown_labels(labels, config), config.separator());
    if list.len() > 0 {
        leading_token(old_name) + " "@ + list
    } else {
        leading_token(old_name)
    }
}

/// The command that renames the workspace `old_name` to `new_name`.
pub open spec fn command_text(old_name: Seq<char>, new_name: Seq<char>) -> Seq<char> {
    "rename workspace \""@ + old_name + "\" to \""@ + new_name + "\""@
}

/// The leading token lies within the name and holds no space, and the name
/// ends or has a space right behind it.
pub proof fn lemma_token_end_bounds(name: Seq<char>)
    ensures
        0 <= token_end(name) <= name.len(),
        forall|k: int| 0 <= k < token_end(name) ==> name[k] != ' ',
        token_end(name) == name.len() || name[token_end(name)] == ' ',
    decreases name.len(),
{
    if name.len() == 0 || name.first() == ' ' {
    } else {
        let rest = name.drop_first();
        lemma_token_end_bounds(rest);
        assert forall|k: int| 0 <= k < token_end(name) implies name[k] != ' ' by {
            if k > 0 {
                assert(name[k] == rest[k - 1]);
            }
        }
        assert(token_end(name) < name.len() ==> name[token_end(name)] == rest[token_end(rest)]);
    }
}

/// Where no space stands before position `end`, and the name ends there or has
/// a space there, the leading token ends at `end`.
pub proof fn lemma_token_end_is(name: Seq<char>, end: int)
    requires
        0 <= end <= name.len(),
        forall|k: int| 0 <= k < end ==> name[k] != ' ',
        end == name.len() || name[end] == ' ',
    ensures
        token_end(name) == end,
    decreases end,
{
    if end > 0 {
        let rest = name.drop_first();
        assert(name.first() == name[0]);
        assert forall|k: int| 0 <= k < end - 1 implies rest[k] != ' ' by {
            assert(rest[k] == name[k + 1]);
        }
        lemma_token_end_is(rest, end - 1);
    }
}

/// A rename keeps the leading token of the name, whatever the labels and the
/// configuration are.
pub proof fn lemma_rename_keeps_leading_token(old_name: Seq<char>, labels: Seq<Seq<char>>, config: &Config)
    ensures
        leading_token(new_name(old_name, labels, config)) == leading_token(old_name),
{
    reveal_strlit(" ");
    let token = leading_token(old_name);
    let renamed = new_name(old_name, labels, config);
    lemma_token_end_bounds(old_name);
    assert(token.len() == token_end(old_name));
    assert forall|k: int| 0 <= k < token.len() implies renamed[k] != ' ' by {
        assert(renamed[k] == token[k]);
        assert(token[k] == old_name[k]);
    }
    assert(renamed.len() == token.len() || renamed[token.len() as int] == ' ') by {
        if renamed.len() != token.len() {
            assert(renamed[token.len() as int] == " "@[0]);
        }
    }
    lemma_token_end_is(renamed, token.len() as int);
    assert(renamed.take(token.len() as int) =~= token);
}

/// Renaming a workspace that already bears its new name changes nothing.
pub proof fn lemma_rename_is_idempotent(old_name: Seq<char>, labels: Seq<Seq<char>>, config: &Config)
    ensures
        new_name(new_name(old_name, labels, config), labels, config) == new_name(
            old_name,
            labels,
            config,
        ),
{
    lemma_rename_keeps_leading_token(old_name, labels, config);
}

/// True where `label` stands at position `at` of `labels` and nowhere before.
pub open spec fn first_stands_at(labels: Seq<Seq<char>>, label: Seq<char>, at: int) -> bool {
    &&& 0 <= at < labels.len()
    &&& labels[at] == label
    &&& !labels.take(at).contains(label)
}

/// Without repetitions, the labels are those that were given, each once, in
/// the order of their first occurrences: `places` names, for each label that
/// stays, the position at which it first stood, and these positions rise.
pub proof fn lemma_first_occurrences(labels: Seq<Seq<char>>) -> (places: Seq<int>)
    ensures
        first_occurrences(labels).no_duplicates(),
        forall|label: Seq<char>| first_occurrences(labels).contains(label) <==> labels.contains(label),
        places.len() == first_occurrences(labels).len(),
        forall|k: int|
            0 <= k < places.len() ==> first_stands_at(labels, #[trigger] first_occurrences(labels)[k], places[k]),
        forall|i: int, j: int| 0 <= i < j < places.len() ==> places[i] < places[j],
    decreases labels.len(),
{
    if labels.len() == 0 {
        Seq::empty()
    } else {
        let front = labels.drop_last();
        let last = labels.last();
        let kept = first_occurrences(front);
        let front_places = lemma_first_occurrences(front);
        assert forall|label: Seq<char>| labels.contains(label) <==> (front.contains(label) || label == last) by {
            if labels.contains(label) {
                let at = choose|at: int| 0 <= at < labels.len() && labels[at] == label;
                if at < front.len() {
                    assert(front[at] == label);
                }
            }
            if front.contains(label) {
                let at = choose|at: int| 0 <= at < front.len() && front[at] == label;
                assert(labels[at] == label);
            }
            if label == last {
                assert(labels[labels.len() - 1] == label);
            }
        }
        assert forall|k: int| 0 <= k < front_places.len() implies first_stands_at(
            labels,
            #[trigger] kept[k],
            front_places[k],
        ) by {
            assert(first_stands_at(front, kept[k], front_places[k]));
            assert(labels.take(front_places[k]) =~= front.take(front_places[k]));
        }
        if kept.contains(last) {
            front_places
        } else {
            let result = kept.push(last);
            assert(labels.take(front.len() as int) =~= front);
            assert forall|label: Seq<char>| result.contains(label) <==> (kept.contains(label) || label == last) by {
                if result.contains(label) {
                    let at = choose|at: int| 0 <= at < result.len() && result[at] == label;
                    if at < kept.len() {
                        assert(kept[at] == label);
                    }
                }
                if kept.contains(label) {
                    let at = choose|at: int| 0 <= at < kept.len() && kept[at] == label;
                    assert(result[at] == label);
                }
                if label == last {
                    assert(result[result.len() - 1] == label);
                }
            }
            assert forall|i: int, j: int| 0 <= i < j < result.len() implies result[i] != result[j] by {
                if j == kept.len() {
                    assert(kept[i] == result[i]);
                } else {
                    assert(kept[i] != kept[j]);
                }
            }
            let places = front_places.push(front.len() as int);
            assert forall|k: int| 0 <= k < places.len() implies first_stands_at(
                labels,
                #[trigger] result[k],
                places[k],
            ) by {
                if k < kept.len() {
                    assert(result[k] == kept[k]);
                    assert(first_stands_at(labels, kept[k], front_places[k]));
                }
            }
            assert forall|i: int, j: int| 0 <= i < j < places.len() implies places[i] < places[j] by {
                assert(first_stands_at(labels, kept[i], front_places[i]));
                assert(first_stands_at(front, kept[i], front_places[i]));
            }
            places
        }
    }
}

/// With `remove_duplicates` set, no label is shown twice, every label that
/// was given is shown, and the labels shown stand in the order of their first
/// occurrences: `places` names, for each of them, the position at which it
/// first stood among the labels given, and these positions rise.
pub proof fn lemma_duplicates_are_removed(labels: Seq<Seq<char>>, config: &Config) -> (places: Seq<int>)
    requires
        config.flag("remove_duplicates"@),
    ensures
        shown_labels(labels, config).no_duplicates(),
        forall|label: Seq<char>| shown_labels(labels, config).contains(label) <==> labels.contains(label),
        places.len() == shown_labels(labels, config).len(),
        forall|k: int|
            0 <= k < places.len() ==> first_stands_at(labels, #[trigger] shown_labels(labels, config)[k], places[k]),
        forall|i: int, j: int| 0 <= i < j < places.len() ==> places[i] < places[j],
{
    lemma_first_occurrences(labels)
}

/// Reads the part of `name` before its first space.
pub fn first_token(name: &str) -> (token: String)
    ensures
        token@ == leading_token(name@),
{
    let length = name.unicode_len();
    let mut end: usize = 0;
    let mut found = false;
    while end < length && !found
        invariant
            length == name@.len(),
            end <= length,
            forall|k: int| 0 <= k < end ==> name@[k] != ' ',
            found ==> end < length && name@[end as int] == ' ',
        decreases length - end + (if found { 0int } else { 1int }),
    {
        if name.get_char(end) == ' ' {
            found = true;
        } else {
            end = end + 1;
        }
    }
    proof {
        lemma_token_end_is(name@, end as int);
    }
    String::from_str(name.substring_char(0, end))
}

/// Puts the labels in a row, with `separator` between each two.
pub fn join_labels(labels: &Vec<String>, separator: &str) -> (text: String)
    ensures
        text@ == joined(texts(labels@), separator@),
{
    let mut text = String::new();
    let mut i: usize = 0;
    let ghost all = texts(labels@);
    assert(all.take(0) =~= Seq::empty());
    while i < labels.len()
        invariant
            i <= labels@.len(),
            all == texts(labels@),
            text@ == joined(all.take(i as int), separator@),
        decreases labels@.len() - i,
    {
        proof {
            assert(all.take(i + 1).drop_last() =~= all.take(i as int));
            assert(all.take(i + 1).last() == labels@[i as int]@);
            if i == 0 {
                assert(Seq::<char>::empty() + labels@[0]@ =~= labels@[0]@);
            }
        }
        if i > 0 {
            text.append(separator);
        }
        text.append(labels[i].as_str());
        i = i + 1;
    }
    assert(all.take(i as int) =~= all);
    text
}

/// `Itertools::unique` of itertools, collected: an element that has come
/// before is left out, so that of equal labels the first stays, and the rest
/// comes out in the order in which it went in.
#[verifier::external_body]
fn unique_labels(labels: Vec<String>) -> (kept: Vec<String>)
    ensures
        texts(kept@) == first_occurrences(texts(labels@)),
{
    labels.into_iter().unique().collect()
}

/// Computes the current and the new name of `workspace` from the labels of
/// its windows. A workspace without a name gives `WorkspaceName`.
pub fn synthesize(workspace: &LayoutNode, labels: Vec<String>, config: &Config) -> (names: Result<
    (String, String),
    LookupError,
>)
    ensures
        match names {
            Ok((old_name, renamed)) => {
                &&& workspace.name is Some
                &&& old_name@ == workspace.name->0@
                &&& renamed@ == new_name(old_name@, texts(labels@), config)
                &&& leading_token(renamed@) == leading_token(old_name@)
            },
            Err(e) => workspace.name is None && e == LookupError::WorkspaceName,
        },
{
    let old_name = match &workspace.name {
        Some(name) => name.clone(),
        None => {
            return Err(LookupError::WorkspaceName);
        },
    };
    let ghost given = texts(labels@);
    let shown = if get_option(config, "remove_duplicates") {
        unique_labels(labels)
    } else {
        labels
    };
    let separator: &str = match config.general.get("separator") {
        Some(text) => text.as_str(),
        None => " | ",
    };
    let list = join_labels(&shown, separator);
    let mut renamed = first_token(old_name.as_str());
    if !list.as_str().is_empty() {
        renamed.append(" ");
        renamed.append(list.as_str());
    }
    proof {
        lemma_rename_keeps_leading_token(old_name@, given, config);
    }
    Ok((old_name, renamed))
}

/// Writes the command that renames the workspace `old_name` to `new_name`.
pub fn rename_command(old_name: &str, new_name: &str) -> (command: String)
    ensures
        command@ == command_text(old_name@, new_name@),
{
    let mut command = String::from_str("rename workspace \"");
    command.append(old_name);
    command.append("\" to \"");
    command.append(new_name);
    command.append("\"");
    command
}

} // verus!
