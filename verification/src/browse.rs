//! Names of feature files, chat sessions and project entries: which are
//! shown, and how a feature file's name is taken apart.

use crate::text::{
    chars_of, contains, ends_with, has_prefix, has_suffix, is_substring, opt_text, same_text,
    starts_with, texts,
};
use vstd::prelude::*;
use vstd::string::*;

verus! {

/// One entry of the project tree as the host shows it.
#[derive(Debug)]
pub struct ProjectFileNode {
    pub name: String,
    /// The path relative to the project directory.
    pub path: String,
    pub is_folder: bool,
    /// The extension of a file; a folder has none.
    pub file_extension: Option<String>,
}

/// What of the feature files is shown.
#[derive(Debug, Clone, Copy, PartialEq, Eq, Structural)]
pub struct ViewOptions {
    pub show_bugs: bool,
    pub show_removed: bool,
    pub show_raw: bool,
}

/// A file name without the ending `.md`, if it has that ending.
pub open spec fn without_md(filename: Seq<char>) -> Seq<char> {
    if has_suffix(filename, ".md"@) {
        filename.take(filename.len() - ".md"@.len())
    } else {
        filename
    }
}

/// Whether a name begins with the pattern of a date and a dash: ten
/// characters with a dash as the fifth and the eighth, and a dash after
/// them.
pub open spec fn has_date_prefix(name: Seq<char>) -> bool {
    name.len() >= 11 && name[4] == '-' && name[7] == '-' && name[10] == '-'
}

/// The date that the name of a feature file begins with, if it does.
pub open spec fn date_of(filename: Seq<char>) -> Option<Seq<char>> {
    let name = without_md(filename);
    if has_date_prefix(name) {
        Some(name.take(10))
    } else {
        None
    }
}

/// The name under which a feature file is shown: its name without the
/// ending `.md` and without the date and dash that it begins with.
pub open spec fn display_name_of(filename: Seq<char>) -> Seq<char> {
    let name = without_md(filename);
    if has_date_prefix(name) {
        name.skip(11)
    } else {
        name
    }
}

/// The length of `filename` without the ending `.md`, with its characters.
fn stem_of(filename: &str) -> (r: (Vec<char>, usize))
    ensures
        r.0@ == filename@,
        r.1 <= filename@.len(),
        without_md(filename@) == filename@.take(r.1 as int),
{
    let chars = chars_of(filename);
    let ending = chars_of(".md");
    if ends_with(&chars, &ending) {
        let n = chars.len() - ending.len();
        (chars, n)
    } else {
        let n = chars.len();
        assert(filename@.take(n as int) =~= filename@);
        (chars, n)
    }
}

/// Takes the name of a feature file apart: the name under which it is
/// shown, and the date that it begins with, if any.
pub fn parse_filename(filename: &str) -> (r: (String, Option<String>))
    ensures
        r.0@ == display_name_of(filename@),
        opt_text(r.1) == date_of(filename@),
{
    let (chars, n) = stem_of(filename);
    let ghost name = filename@.take(n as int);
    if n >= 11 && chars[4] == '-' && chars[7] == '-' && chars[10] == '-' {
        let date = filename.substring_char(0, 10).to_owned();
        let shown = filename.substring_char(11, n).to_owned();
        proof {
            assert(name[4] == filename@[4] && name[7] == filename@[7] && name[10] == filename@[10]);
            assert(date@ =~= name.take(10));
            assert(shown@ =~= name.skip(11));
        }
        (shown, Some(date))
    } else {
        proof {
            if n >= 11 {
                assert(name[4] == filename@[4] && name[7] == filename@[7] && name[10]
                    == filename@[10]);
            }
        }
        let shown = filename.substring_char(0, n).to_owned();
        assert(shown@ =~= name);
        (shown, None)
    }
}

/// The date that the name of a feature file begins with, if any.
pub fn parse_date_from_filename(filename: &str) -> (date: Option<String>)
    ensures
        opt_text(date) == date_of(filename@),
{
    let (chars, n) = stem_of(filename);
    let ghost name = filename@.take(n as int);
    if n >= 11 && chars[4] == '-' && chars[7] == '-' && chars[10] == '-' {
        let date = filename.substring_char(0, 10).to_owned();
        proof {
            assert(name[4] == filename@[4] && name[7] == filename@[7] && name[10] == filename@[10]);
            assert(date@ =~= name.take(10));
        }
        Some(date)
    } else {
        proof {
            if n >= 11 {
                assert(name[4] == filename@[4] && name[7] == filename@[7] && name[10]
                    == filename@[10]);
            }
        }
        None
    }
}

/// The name and date shown for a feature file: with `show_raw` the name
/// keeps the date it begins with.
pub fn shown_name(filename: &str, options: ViewOptions) -> (r: (String, Option<String>))
    ensures
        r.0@ == if options.show_raw {
            without_md(filename@)
        } else {
            display_name_of(filename@)
        },
        opt_text(r.1) == date_of(filename@),
{
    if options.show_raw {
        let (chars, n) = stem_of(filename);
        let shown = filename.substring_char(0, n).to_owned();
        (shown, parse_date_from_filename(filename))
    } else {
        parse_filename(filename)
    }
}

/// Whether a path, given by its components relative to the feature
/// directory, is the folder `folder` of that directory or lies in it.
pub open spec fn is_in_folder(path: Seq<Seq<char>>, folder: Seq<char>) -> bool {
    path.len() > 0 && path[0] == folder
}

/// Whether an entry of the feature directory is left out: a hidden entry
/// always, the bug reports and the removed features unless the options show
/// them. `path` holds the components of the entry's path relative to the
/// feature directory.
pub open spec fn is_feature_entry_hidden(
    file_name: Seq<char>,
    path: Seq<Seq<char>>,
    options: ViewOptions,
) -> bool {
    ||| has_prefix(file_name, "."@)
    ||| (!options.show_bugs && is_in_folder(path, "bugs"@))
    ||| (!options.show_removed && is_in_folder(path, "removed-features"@))
}

/// Whether a path is the folder `folder` of the feature directory or lies
/// in it.
fn in_folder(path: &Vec<String>, folder: &str) -> (r: bool)
    ensures
        r == is_in_folder(texts(path@), folder@),
{
    path.len() > 0 && same_text(path[0].as_str(), folder)
}

/// Whether an entry of the feature directory is left out.
pub fn feature_entry_hidden(file_name: &str, path: &Vec<String>, options: ViewOptions) -> (r: bool)
    ensures
        r == is_feature_entry_hidden(file_name@, texts(path@), options),
{
    if starts_with(&chars_of(file_name), &chars_of(".")) {
        return true;
    }
    if !options.show_bugs && in_folder(path, "bugs") {
        return true;
    }
    !options.show_removed && in_folder(path, "removed-features")
}

/// Whether a file of the feature directory is a feature file: its name ends
/// with `.md`.
pub fn is_feature_file(file_name: &str) -> (r: bool)
    ensures
        r == has_suffix(file_name@, ".md"@),
{
    ends_with(&chars_of(file_name), &chars_of(".md"))
}

/// Whether an entry of the project directory is left out of the project
/// tree.
pub open spec fn is_project_item_excluded(name: Seq<char>) -> bool {
    name == "node_modules"@ || name == ".git"@ || name == "bin"@ || name == "obj"@ || name
        == "dist"@
}

/// Whether an entry of the project directory is left out of the project
/// tree.
pub fn project_item_excluded(name: &str) -> (r: bool)
    ensures
        r == is_project_item_excluded(name@),
{
    same_text(name, "node_modules") || same_text(name, ".git") || same_text(name, "bin")
        || same_text(name, "obj") || same_text(name, "dist")
}

/// Whether a file of the chat session directory is a stored session: a
/// `.json` file other than the active chat.
pub open spec fn is_stored_session(file_name: Seq<char>) -> bool {
    file_name != "default-chat.json"@ && has_suffix(file_name, ".json"@)
}

/// Whether a file of the chat session directory is a stored session.
pub fn stored_session(file_name: &str) -> (r: bool)
    ensures
        r == is_stored_session(file_name@),
{
    !same_text(file_name, "default-chat.json") && ends_with(
        &chars_of(file_name),
        &chars_of(".json"),
    )
}

/// One message of a stored chat session, as far as the overview reads it.
#[derive(Debug)]
pub struct ChatMessage {
    /// Who wrote it, where the session says so in a string.
    pub role: Option<String>,
    /// Its text, where it is a string.
    pub content: Option<String>,
}

/// What a `ChatMessage` holds, as character sequences.
pub struct ChatMessageView {
    pub role: Option<Seq<char>>,
    pub content: Option<Seq<char>>,
}

impl View for ChatMessage {
    type V = ChatMessageView;

    open spec fn view(&self) -> ChatMessageView {
        ChatMessageView { role: opt_text(self.role), content: opt_text(self.content) }
    }
}

/// The messages of a list, each by its view.
pub open spec fn message_views(messages: Seq<ChatMessage>) -> Seq<ChatMessageView> {
    messages.map_values(|m: ChatMessage| m@)
}

/// Whether a message was written by the user.
pub open spec fn is_user_message(message: ChatMessageView) -> bool {
    message.role == Some("user"@)
}

/// The text shown for a session: that of the first message of the user, or
/// nothing where the user wrote none or the first one has no text.
pub open spec fn first_user_text(messages: Seq<ChatMessageView>) -> Seq<char>
    decreases messages.len(),
{
    if messages.len() == 0 {
        Seq::empty()
    } else if is_user_message(messages[0]) {
        match messages[0].content {
            Some(text) => text,
            None => Seq::empty(),
        }
    } else {
        first_user_text(messages.drop_first())
    }
}

/// The text shown for a session in the overview.
pub fn first_user_message(messages: &Vec<ChatMessage>) -> (text: String)
    ensures
        text@ == first_user_text(message_views(messages@)),
{
    let ghost all = message_views(messages@);
    let mut i: usize = 0;
    assert(all.skip(0) =~= all);
    while i < messages.len()
        invariant
            i <= messages.len(),
            all == message_views(messages@),
            first_user_text(all) == first_user_text(all.skip(i as int)),
        decreases messages.len() - i,
    {
        let message = &messages[i];
        proof {
            assert(all.skip(i as int)[0] == message@);
            assert(all.skip(i as int).drop_first() =~= all.skip(i + 1));
        }
        let by_user = match &message.role {
            Some(role) => same_text(role.as_str(), "user"),
            None => false,
        };
        if by_user {
            return match &message.content {
                Some(text) => text.clone(),
                None => String::new(),
            };
        }
        i += 1;
    }
    String::new()
}

/// The mode shown for a session: the one it names, or planning.
pub fn session_mode(mode: Option<String>) -> (shown: String)
    ensures
        shown@ == match mode {
            Some(m) => m@,
            None => "Planning"@,
        },
{
    match mode {
        Some(m) => m,
        None => "Planning".to_owned(),
    }
}

/// Whether a name can be used as the name of a file in a directory without
/// leading out of it: it holds no `..`, no `/` and no `\`.
pub open spec fn is_plain_file_name(name: Seq<char>) -> bool {
    !is_substring(name, ".."@) && !is_substring(name, "/"@) && !is_substring(name, "\\"@)
}

/// Whether a name can be used as the name of a file in a directory without
/// leading out of it.
pub fn plain_file_name(name: &str) -> (r: bool)
    ensures
        r == is_plain_file_name(name@),
{
    let text = chars_of(name);
    !contains(&text, &chars_of("..")) && !contains(&text, &chars_of("/")) && !contains(
        &text,
        &chars_of("\\"),
    )
}

} // verus!
