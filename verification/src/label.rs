//! From a window class to the label shown for it.
use vstd::prelude::*;
use vstd::string::*;
use crate::config::{Config, get_option};

verus! {

/// The label of a window of class `class`.
///
/// The text is the alias of the class, or the class itself. With an icon and
/// names switched off the label is the icon alone; with an icon and names on it
/// is the icon, a space and the text; without an icon it is the text, whatever
/// the flag says.
pub open spec fn label_text(class: Seq<char>, config: &Config) -> Seq<char> {
    let text = match config.alias_of(class) {
        Some(alias) => alias,
        None => class,
    };
    match config.icon_of(class) {
        Some(icon) => if config.flag("no_names"@) {
            icon
        } else {
            icon + " "@ + text
        },
        None => text,
    }
}

/// `String::push` of std: the character is put at the end of the string, and
/// nothing else changes.
#[verifier::external_body]
fn push_char(text: &mut String, c: char)
    ensures
        final(text)@ == old(text)@.push(c),
{
    text.push(c);
}

/// Computes the label of a window of class `class`.
pub fn resolve(class: &str, config: &Config) -> (label: String)
    ensures
        label@ == label_text(class@, config),
{
    let no_names = get_option(config, "no_names");
    let text: &str = match config.aliases.get(class) {
        Some(alias) => alias.as_str(),
        None => class,
    };
    match config.icons.get(class) {
        Some(icon) => {
            let mut label = String::new();
            push_char(&mut label, *icon);
            if !no_names {
                label.append(" ");
                label.append(text);
            }
            label
        },
        None => match config.general.get("default_icon") {
            Some(default_icon) => {
                let mut label = default_icon.clone();
                if !no_names {
                    label.append(" ");
                    label.append(text);
                }
                label
            },
            None => String::from_str(text),
        },
    }
}

/// Without icons, aliases and a default icon, the label is the class.
pub proof fn lemma_plain_class_is_its_label(class: Seq<char>, config: &Config)
    requires
        config.icons@ == Map::<Seq<char>, char>::empty(),
        config.aliases@ == Map::<Seq<char>, String>::empty(),
        !config.general@.contains_key("default_icon"@),
    ensures
        label_text(class, config) == class,
{
}

/// With an icon and names shown, the label is the icon, a space, and the alias
/// or, without one, the class.
pub proof fn lemma_icon_precedes_name(class: Seq<char>, config: &Config)
    requires
        config.icons@.contains_key(class),
        !config.flag("no_names"@),
    ensures
        label_text(class, config) == seq![config.icons@[class]] + seq![' '] + (match config.alias_of(
            class,
        ) {
            Some(alias) => alias,
            None => class,
        }),
{
    reveal_strlit(" ");
    assert(" "@ =~= seq![' ']);
}

/// With an icon and names switched off, the label is the icon alone.
pub proof fn lemma_icon_alone_without_names(class: Seq<char>, config: &Config)
    requires
        config.icons@.contains_key(class),
        config.flag("no_names"@),
    ensures
        label_text(class, config) == seq![config.icons@[class]],
{
}

} // verus!
