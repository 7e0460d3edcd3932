//! The decorators that stand beside a rendered value, and the rules that
//! choose them.

use crate::common::is_collapsable;
use crate::parse::{
    option_json, parse_json, possible_parse, strict_json, url_from_str, url_parts, ParsedUrl,
    UrlParts,
};
use crate::tree::initial_tree;
use crate::value::{json_text, Json, JsonValue};
use crate::{JsonViewer, JsonViewerOption};
use vstd::prelude::*;
use vstd::string::{StrSliceExecFns, StringExecFns};

verus! {

/// The model of a decorator.
pub enum DecoratorModel {
    HostAction(Seq<char>),
    OpenLink(Seq<char>),
    JsonDialog(Json),
    TextDialog(Seq<char>),
}

/// A small control beside a rendered value. It never changes the value's
/// own text.
#[derive(Debug, PartialEq, Eq)]
pub enum Decorator {
    /// Invokes the action that the host page gave for the value, whose
    /// compact JSON text this holds.
    HostAction(String),
    /// Opens the URL in a new browsing context.
    OpenLink(String),
    /// Opens a dialog with a viewer over the value.
    JsonDialog(JsonValue),
    /// Opens a dialog with the text as it is.
    TextDialog(String),
}

impl View for Decorator {
    type V = DecoratorModel;

    open spec fn view(&self) -> DecoratorModel {
        match self {
            Decorator::HostAction(text) => DecoratorModel::HostAction(text@),
            Decorator::OpenLink(href) => DecoratorModel::OpenLink(href@),
            Decorator::JsonDialog(value) => DecoratorModel::JsonDialog(value@),
            Decorator::TextDialog(text) => DecoratorModel::TextDialog(text@),
        }
    }
}

impl Clone for Decorator {
    fn clone(&self) -> (r: Self)
        ensures
            r@ == self@,
    {
        match self {
            Decorator::HostAction(text) => Decorator::HostAction(text.clone()),
            Decorator::OpenLink(href) => Decorator::OpenLink(href.clone()),
            Decorator::JsonDialog(value) => Decorator::JsonDialog(value.clone()),
            Decorator::TextDialog(text) => Decorator::TextDialog(text.clone()),
        }
    }
}

/// The models of a list of decorators, in order.
pub open spec fn decorator_models(list: Seq<Decorator>) -> Seq<DecoratorModel> {
    Seq::new(list.len(), |i: int| list[i]@)
}

/// What the host page's interception hook said of a value.
#[derive(Clone, Copy, Debug, PartialEq, Eq, Structural)]
pub enum HostReply {
    /// The page has registered no hook.
    Absent,
    /// The hook was asked and gave no action.
    Declined,
    /// The hook was asked and gave an action to invoke on click.
    Callable,
}

/// The longest text, in characters, that gets no viewer of its own.
pub const LONG_TEXT_LIMIT: usize = 100;

/// Whether a link with this scheme may be opened.
pub open spec fn allowed_scheme(scheme: Seq<char>) -> bool {
    scheme == "http"@ || scheme == "https"@ || scheme == "ftp"@ || scheme == "ftps"@
}

/// The address to link to, given what parsing a string as a URL gave: the
/// URL's serialization where it parsed and has an allowed scheme.
pub open spec fn link_target(url: Option<UrlParts>) -> Option<Seq<char>> {
    match url {
        Some(parts) => if allowed_scheme(parts.scheme) {
            Some(parts.href)
        } else {
            None
        },
        None => None,
    }
}

/// The decorators of a string that is no link, given what parsing it as
/// JSON gave: a viewer over the parsed value where that is a string, an
/// array or an object, nothing for another parsed value, and where it did
/// not parse, a text viewer if the string is longer than the limit.
pub open spec fn embedded_decorators(text: Seq<char>, parsed: Option<Json>) -> Seq<
    DecoratorModel,
> {
    match parsed {
        Some(value) => if value is String || value is Array || value is Object {
            seq![DecoratorModel::JsonDialog(value)]
        } else {
            Seq::empty()
        },
        None => if text.len() > LONG_TEXT_LIMIT {
            seq![DecoratorModel::TextDialog(text)]
        } else {
            Seq::empty()
        },
    }
}

/// The decorators of a string, given what parsing it as JSON gave: a link
/// where the string is one, else those for what it embeds.
pub open spec fn string_decorators(text: Seq<char>, parsed: Option<Json>) -> Seq<DecoratorModel> {
    match link_target(url_parts(text)) {
        Some(href) => seq![DecoratorModel::OpenLink(href)],
        None => embedded_decorators(text, parsed),
    }
}

/// Whether `parsed` may be what probing `value` for embedded JSON gives
/// under the grammar that `relaxed` selects: a possible parse of the text
/// where `value` is a string, and nothing where it is not.
pub open spec fn embedded_parse(value: Json, relaxed: bool, parsed: Option<Json>) -> bool {
    match value {
        Json::String(text) => possible_parse(text, relaxed, parsed),
        _ => parsed is None,
    }
}

/// An outcome of probing `value` that is always possible.
pub open spec fn some_parse(value: Json, relaxed: bool) -> Option<Json> {
    match value {
        Json::String(text) => if relaxed {
            None
        } else {
            strict_json(text)
        },
        _ => None,
    }
}

/// The decorators that the built-in rules give a value, where `parsed` is
/// what probing it for embedded JSON gave.
pub open spec fn builtin_decorators(value: Json, parsed: Option<Json>) -> Seq<DecoratorModel> {
    match value {
        Json::String(text) => string_decorators(text, parsed),
        Json::Array(_) | Json::Object(_) => if value.length() > 0 {
            seq![DecoratorModel::JsonDialog(value)]
        } else {
            Seq::empty()
        },
        _ => Seq::empty(),
    }
}

/// The decorators of a value. A registered hook overrides the built-in
/// rules: the host's action alone where the hook gave one, and nothing
/// where it gave none. Without a hook, the built-in rules apply.
pub open spec fn default_decorators(value: Json, host: HostReply, parsed: Option<Json>) -> Seq<
    DecoratorModel,
> {
    match host {
        HostReply::Callable => seq![DecoratorModel::HostAction(json_text(value))],
        HostReply::Declined => Seq::empty(),
        HostReply::Absent => builtin_decorators(value, parsed),
    }
}

fn scheme_is(scheme: &String, name: &str) -> (b: bool)
    ensures
        b == (scheme@ == name@),
{
    let other = String::from_str(name);
    *scheme == other
}

/// The link decorator for a string, given what parsing it as a URL gave.
pub fn link_interaction(url: Option<ParsedUrl>) -> (r: Option<Decorator>)
    ensures
        match link_target(
            match url {
                Some(u) => Some(u@),
                None => None,
            },
        ) {
            Some(href) => r matches Some(d) && d@ == DecoratorModel::OpenLink(href),
            None => r is None,
        },
{
    match url {
        Some(u) => {
            if scheme_is(&u.scheme, "http") || scheme_is(&u.scheme, "https") || scheme_is(
                &u.scheme,
                "ftp",
            ) || scheme_is(&u.scheme, "ftps") {
                Some(Decorator::OpenLink(u.href))
            } else {
                None
            }
        },
        None => None,
    }
}

/// The decorators of a string that is no link, given what parsing it as
/// JSON gave.
pub fn embedded_interaction(text: &str, parsed: Option<JsonValue>) -> (r: Vec<Decorator>)
    ensures
        decorator_models(r@) == embedded_decorators(text@, option_json(parsed)),
{
    let mut result: Vec<Decorator> = Vec::new();
    match parsed {
        Some(value) => {
            match value {
                JsonValue::Object(_) | JsonValue::Array(_) | JsonValue::String(_) => {
                    result.push(Decorator::JsonDialog(value));
                },
                _ => {},
            }
        },
        None => {
            if text.unicode_len() > LONG_TEXT_LIMIT {
                result.push(Decorator::TextDialog(String::from_str(text)));
            }
        },
    }
    assert(decorator_models(result@) =~= embedded_decorators(text@, option_json(parsed)));
    result
}

/// The decorators of a string: it is parsed as a URL, and as JSON only
/// where it is no link. They are those of [`string_decorators`] for an
/// outcome of the JSON parse that is possible under the grammar.
pub fn string_interaction(text: &str, use_json5: bool) -> (r: Vec<Decorator>)
    ensures
        exists|parsed: Option<Json>|
            #[trigger] possible_parse(text@, use_json5, parsed) && decorator_models(r@)
                == string_decorators(text@, parsed),
{
    match link_interaction(url_from_str(text)) {
        Some(link) => {
            let mut result: Vec<Decorator> = Vec::new();
            result.push(link);
            proof {
                let parsed = some_parse(Json::String(text@), use_json5);
                assert(possible_parse(text@, use_json5, parsed));
                assert(decorator_models(result@) =~= string_decorators(text@, parsed));
            }
            result
        },
        None => {
            let parsed = parse_json(text, use_json5);
            proof {
                assert(possible_parse(text@, use_json5, option_json(parsed)));
            }
            embedded_interaction(text, parsed)
        },
    }
}

/// The text that is handed to the host page's hook for a value.
pub fn host_request(value: &JsonValue) -> (r: String)
    ensures
        r@ == json_text(value@),
{
    value.to_json_text()
}

/// The decorators of a value, in display order. `host` is what the host
/// page's hook said of the value. They are those of [`default_decorators`]
/// for an outcome of probing the value that is possible under the grammar.
pub fn default_interaction(value: &JsonValue, host: HostReply, use_json5: bool) -> (r: Vec<
    Decorator,
>)
    ensures
        exists|parsed: Option<Json>|
            #[trigger] embedded_parse(value@, use_json5, parsed) && decorator_models(r@)
                == default_decorators(value@, host, parsed),
{
    let mut result: Vec<Decorator> = Vec::new();
    let ghost any = some_parse(value@, use_json5);
    proof {
        value.lemma_children();
        assert(embedded_parse(value@, use_json5, any));
    }
    match host {
        HostReply::Callable => {
            result.push(Decorator::HostAction(host_request(value)));
            assert(decorator_models(result@) =~= default_decorators(value@, host, any));
            return result;
        },
        HostReply::Declined => {
            assert(decorator_models(result@) =~= default_decorators(value@, host, any));
            return result;
        },
        HostReply::Absent => {},
    }
    match value {
        JsonValue::String(s) => {
            let r = string_interaction(s.as_str(), use_json5);
            proof {
                let parsed = choose|parsed: Option<Json>|
                    #[trigger] possible_parse(s@, use_json5, parsed) && decorator_models(r@)
                        == string_decorators(s@, parsed);
                assert(embedded_parse(value@, use_json5, parsed));
            }
            r
        },
        JsonValue::Array(_) | JsonValue::Object(_) => {
            if is_collapsable(value) {
                result.push(Decorator::JsonDialog(value.clone()));
            }
            assert(decorator_models(result@) =~= default_decorators(value@, host, any));
            result
        },
        _ => {
            assert(decorator_models(result@) =~= default_decorators(value@, host, any));
            result
        },
    }
}

/// What the opener of a JSON dialog is given: the value to show.
#[derive(Debug, PartialEq, Eq)]
pub struct ButtonControlDialogJsonViewerProps {
    pub value: JsonValue,
}

/// What a dialog hosts.
#[derive(Debug)]
pub enum DialogContent {
    /// A viewer over a value.
    Viewer(JsonViewer),
    /// A text as it is.
    Text(String),
}

/// An open dialog.
#[derive(Debug)]
pub struct DialogView {
    /// The position of the dialog in the stack.
    pub index: i32,
    /// The heading.
    pub title: String,
    /// The text that the dialog's copy button copies.
    pub copy_text: String,
    pub content: DialogContent,
}

/// The configuration of a viewer inside the dialog with `index`: that of
/// the viewer around it, with the dialog's index.
pub open spec fn dialog_option(option: JsonViewerOption, index: i32) -> JsonViewerOption {
    JsonViewerOption {
        collapsable: option.collapsable,
        root_collapsable: option.root_collapsable,
        force_default_collapse_length_gte: option.force_default_collapse_length_gte,
        dialog_index: Some(index),
        use_json5: option.use_json5,
    }
}

/// The dialog behind the opener of a JSON dialog: none while it is closed,
/// and while it is open one that has the index it was mounted with, the
/// value's compact text to copy, and a viewer over the value. The viewer
/// has the configuration `option` of the viewer around it, with the
/// dialog's index in place of that one's.
pub fn button_control_dialog_json_viewer(
    props: &ButtonControlDialogJsonViewerProps,
    option: &JsonViewerOption,
    index: i32,
    open: bool,
) -> (r: Option<DialogView>)
    ensures
        !open ==> r is None,
        open ==> {
            &&& r matches Some(view)
            &&& view.index == index
            &&& view.title@ == "JSON"@
            &&& view.copy_text@ == json_text(props.value@)
            &&& view.content matches DialogContent::Viewer(viewer)
            &&& viewer.wf()
            &&& viewer.value@ == props.value@
            &&& viewer.option == dialog_option(*option, index)
            &&& viewer.state@ == initial_tree(props.value@, viewer.option)
            &&& viewer.root_collapsed == viewer.option.collapses_root(props.value@.length())
        },
{
    if !open {
        return None;
    }
    let mut inner: JsonViewerOption = *option;
    inner.dialog_index = Some(index);
    let viewer = JsonViewer::new_with_option(props.value.clone(), inner);
    Some(
        DialogView {
            index,
            title: String::from_str("JSON"),
            copy_text: props.value.to_json_text(),
            content: DialogContent::Viewer(viewer),
        },
    )
}

/// The dialog behind the opener of a long text: none while it is closed,
/// and while it is open one that has the index it was mounted with and
/// shows, and copies, the text as it is.
pub fn long_text_viewer(text: &str, index: i32, open: bool) -> (r: Option<DialogView>)
    ensures
        !open ==> r is None,
        open ==> {
            &&& r matches Some(view)
            &&& view.index == index
            &&& view.title@ == "Long Text"@
            &&& view.copy_text@ == text@
            &&& view.content matches DialogContent::Text(shown)
            &&& shown@ == text@
        },
{
    if !open {
        return None;
    }
    Some(
        DialogView {
            index,
            title: String::from_str("Long Text"),
            copy_text: String::from_str(text),
            content: DialogContent::Text(String::from_str(text)),
        },
    )
}

} // verus!
