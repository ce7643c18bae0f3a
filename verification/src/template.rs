//! Template expansion of structured values.

use crate::error::DhcpError;
use crate::lenient::{lenient, render_lenient};
use crate::parsed::{settled, Parsed, ParsedData, Readings};
use crate::sources::query::context_bindings;
use crate::text::chars_of;
use crate::value::{Data, Node};
use serde_yaml::Value as Yaml;
use vstd::prelude::*;

verus! {

broadcast use vstd::std_specs::vec::group_vec_axioms;

/// The context of `tera`: what the names of a template are bound to.
#[verifier::external_type_specification]
#[verifier::external_body]
pub struct ExTeraContext(tera::Context);

/// The YAML value of `serde_yaml`, as its parser gives it.
#[verifier::external_type_specification]
#[verifier::external_body]
pub struct ExYamlValue(serde_yaml::Value);

/// The value that `serde_yaml::from_str` reads from a text as one YAML
/// document, where it reads one.
pub uninterp spec fn yaml_parsed(text: Seq<char>) -> Option<ParsedData>;

/// The structured value that a text holds as one YAML document, where it
/// holds one: what the parser reads, with each number settled.
pub open spec fn yaml_document(text: Seq<char>) -> Option<Data> {
    match yaml_parsed(text) {
        Some(parsed) => Some(settled(parsed)),
        None => None,
    }
}

/// Whether a text holds the start of a template expression, statement or
/// comment: `{{`, `{%` or `{#`.
pub open spec fn has_template_syntax(text: Seq<char>) -> bool {
    exists|i: int|
        0 <= i < text.len() - 1 && #[trigger] text[i] == '{' && (text[i + 1] == '{' || text[i + 1]
            == '%' || text[i + 1] == '#')
}

/// Whether a text holds the start of a template expression, statement or
/// comment.
pub fn contains_template_syntax(text: &str) -> (r: bool)
    ensures
        r == has_template_syntax(text@),
{
    let chars = chars_of(text);
    let mut i: usize = 0;
    if chars.len() == 0 {
        return false;
    }
    while i < chars.len() - 1
        invariant
            chars@ == text@,
            chars.len() > 0,
            forall|j: int|
                0 <= j < i && j < chars.len() - 1 ==> !(#[trigger] chars@[j] == '{' && (chars@[j + 1]
                    == '{' || chars@[j + 1] == '%' || chars@[j + 1] == '#')),
        decreases chars.len() - i,
    {
        if chars[i] == '{' && (chars[i + 1] == '{' || chars[i + 1] == '%' || chars[i + 1] == '#') {
            return true;
        }
        i += 1;
    }
    false
}

/// Whether a character can start the name of a variable: an ASCII letter
/// or an underscore.
pub open spec fn is_name_start(c: char) -> bool {
    ('a' <= c && c <= 'z') || ('A' <= c && c <= 'Z') || c == '_'
}

/// Whether a character can stand in the name of a variable: an ASCII
/// letter, a digit or an underscore.
pub open spec fn is_name_char(c: char) -> bool {
    is_name_start(c) || ('0' <= c && c <= '9')
}

/// Whether a character is blank to the template engine.
pub open spec fn is_blank(c: char) -> bool {
    c == ' ' || c == '\t' || c == '\n' || c == '\r'
}

/// Where the reading of a template stands.
#[derive(Clone, Copy, Debug, PartialEq, Eq, Structural)]
pub enum Scan {
    /// In the text between two tags.
    Text,
    /// After `{{`, before the name of the variable.
    Open,
    /// In the name of the variable, after a character of a name.
    Name,
    /// In the name of the variable, after a dot.
    Dot,
    /// After the name of the variable, before `}}`.
    Close,
}

/// Whether the characters of a template from `at` on, read in the given
/// state, hold nothing but text and variable tags.
pub open spec fn tame_from(text: Seq<char>, at: int, state: Scan) -> bool
    decreases text.len() - at,
{
    if at < 0 || at >= text.len() {
        state == Scan::Text
    } else {
        let c = text[at];
        let closes = c == '}' && at + 1 < text.len() && text[at + 1] == '}';
        match state {
            Scan::Text => if c == '{' && at + 1 < text.len() && text[at + 1] == '{' {
                tame_from(text, at + 2, Scan::Open)
            } else if c == '{' && at + 1 < text.len() && (text[at + 1] == '%' || text[at + 1]
                == '#') {
                false
            } else {
                tame_from(text, at + 1, Scan::Text)
            },
            Scan::Open => if is_blank(c) {
                tame_from(text, at + 1, Scan::Open)
            } else if is_name_start(c) {
                tame_from(text, at + 1, Scan::Name)
            } else {
                false
            },
            Scan::Name => if is_name_char(c) {
                tame_from(text, at + 1, Scan::Name)
            } else if c == '.' {
                tame_from(text, at + 1, Scan::Dot)
            } else if is_blank(c) {
                tame_from(text, at + 1, Scan::Close)
            } else if closes {
                tame_from(text, at + 2, Scan::Text)
            } else {
                false
            },
            Scan::Dot => if is_name_char(c) {
                tame_from(text, at + 1, Scan::Name)
            } else {
                false
            },
            Scan::Close => if is_blank(c) {
                tame_from(text, at + 1, Scan::Close)
            } else if closes {
                tame_from(text, at + 2, Scan::Text)
            } else {
                false
            },
        }
    }
}

/// A template that the engine is given: text, and tags that name one
/// variable each, such as `{{ results.host.ip }}`. Statements, comments,
/// operators, filters and calls of functions are left out, since the engine
/// computes them with arithmetic and conversions that can stop the program.
pub open spec fn tame(text: Seq<char>) -> bool {
    tame_from(text, 0, Scan::Text)
}

/// A text without template syntax is tame.
pub proof fn lemma_plain_text_is_tame(text: Seq<char>, at: int)
    requires
        !has_template_syntax(text),
        0 <= at,
    ensures
        tame_from(text, at, Scan::Text),
    decreases text.len() - at,
{
    if at < text.len() {
        if at + 1 < text.len() {
            assert(!(text[at] == '{' && (text[at + 1] == '{' || text[at + 1] == '%' || text[at + 1]
                == '#')));
        }
        lemma_plain_text_is_tame(text, at + 1);
    }
}

/// Whether a template holds nothing but text and variable tags.
pub fn is_tame(template: &str) -> (r: bool)
    ensures
        r == tame(template@),
{
    let chars = chars_of(template);
    let len = chars.len();
    let mut state = Scan::Text;
    let mut at: usize = 0;
    while at < len
        invariant
            at <= len,
            len == chars.len(),
            chars@ == template@,
            tame(template@) == tame_from(chars@, at as int, state),
        decreases len - at,
    {
        let c = chars[at];
        let closes = c == '}' && at + 1 < len && chars[at + 1] == '}';
        let blank = c == ' ' || c == '\t' || c == '\n' || c == '\r';
        let start = ('a' <= c && c <= 'z') || ('A' <= c && c <= 'Z') || c == '_';
        let inner = start || ('0' <= c && c <= '9');
        match state {
            Scan::Text => {
                if c == '{' && at + 1 < len && chars[at + 1] == '{' {
                    state = Scan::Open;
                    at += 2;
                } else if c == '{' && at + 1 < len && (chars[at + 1] == '%' || chars[at + 1]
                    == '#') {
                    return false;
                } else {
                    at += 1;
                }
            },
            Scan::Open => {
                if blank {
                    at += 1;
                } else if start {
                    state = Scan::Name;
                    at += 1;
                } else {
                    return false;
                }
            },
            Scan::Name => {
                if inner {
                    at += 1;
                } else if c == '.' {
                    state = Scan::Dot;
                    at += 1;
                } else if blank {
                    state = Scan::Close;
                    at += 1;
                } else if closes {
                    state = Scan::Text;
                    at += 2;
                } else {
                    return false;
                }
            },
            Scan::Dot => {
                if inner {
                    state = Scan::Name;
                    at += 1;
                } else {
                    return false;
                }
            },
            Scan::Close => {
                if blank {
                    at += 1;
                } else if closes {
                    state = Scan::Text;
                    at += 2;
                } else {
                    return false;
                }
            },
        }
    }
    match state {
        Scan::Text => true,
        _ => false,
    }
}

/// What `tera::Tera::one_off` with escaping off renders a tame template
/// to in a context of the given bindings, where it renders it.
pub uninterp spec fn rendered(
    template: Seq<char>,
    bindings: Map<Seq<char>, serde_json::Value>,
) -> Option<Seq<char>>;

/// `tera::Tera::one_off` with escaping off, for a tame template: what the
/// engine renders the template to, or its error. A template without `{{`,
/// `{%` and `{#` is plain text to tera and comes back unchanged. Templates
/// that are not tame are left out: tera computes their operators with
/// unchecked arithmetic.
#[verifier::external_body]
pub(crate) fn render(template: &str, context: &tera::Context) -> (r: Result<String, tera::Error>)
    requires
        tame(template@),
    ensures
        r is Ok <==> rendered(template@, context_bindings(*context)) is Some,
        r matches Ok(text) ==> rendered(template@, context_bindings(*context)) == Some(text@),
        r is Err ==> has_template_syntax(template@),
        r matches Ok(text) ==> has_template_syntax(template@) || text@ == template@,
{
    tera::Tera::one_off(template, context, false)
}

/// `tera::Error::msg`: an error of the template engine with the given message.
#[verifier::external_body]
pub(crate) fn template_error(message: &str) -> (r: tera::Error) {
    tera::Error::msg(message)
}

/// What a template renders to in strict mode, where it renders: itself
/// where it holds no template syntax, nothing where it is not tame, and
/// else what the engine renders it to.
pub open spec fn strict_rendering(
    template: Seq<char>,
    bindings: Map<Seq<char>, serde_json::Value>,
) -> Option<Seq<char>> {
    if !has_template_syntax(template) {
        Some(template)
    } else if !tame(template) {
        None
    } else {
        rendered(template, bindings)
    }
}

/// What a template renders to in a mode, where it renders. The template
/// is text with variable tags; any other template syntax renders nothing.
/// In strict mode a tag whose variable is undefined renders nothing
/// either; else, which is the default, it gives the empty text, and only a
/// tag whose variable the context defines is handed to the engine.
pub open spec fn rendering(
    template: Seq<char>,
    bindings: Map<Seq<char>, serde_json::Value>,
    strict: bool,
) -> Option<Seq<char>> {
    if !has_template_syntax(template) {
        Some(template)
    } else if !tame(template) {
        None
    } else if strict {
        rendered(template, bindings)
    } else {
        lenient(template, bindings)
    }
}

/// Whether the result of rendering tells what the template renders to: the
/// text where there is one, a template error where there is none.
pub open spec fn told(r: Result<String, DhcpError>, rendering: Option<Seq<char>>) -> bool {
    match rendering {
        Some(text) => r matches Ok(t) && t@ == text,
        None => r matches Err(e) && e is TeraError,
    }
}

/// Renders a template in strict mode.
pub(crate) fn render_strict(template: &str, context: &tera::Context) -> (r: Result<
    String,
    DhcpError,
>)
    ensures
        told(r, strict_rendering(template@, context_bindings(*context))),
{
    proof {
        if !has_template_syntax(template@) {
            lemma_plain_text_is_tame(template@, 0);
        }
    }
    if !is_tame(template) {
        return Err(DhcpError::TeraError(template_error("template syntax that is not supported")));
    }
    match render(template, context) {
        Ok(text) => Ok(text),
        Err(e) => Err(DhcpError::TeraError(e)),
    }
}

/// Renders a template against a context in a mode: the result is what
/// `rendering` says, and a template error where that is nothing.
pub fn render_text(template: &str, context: &tera::Context, strict: bool) -> (r: Result<
    String,
    DhcpError,
>)
    ensures
        told(r, rendering(template@, context_bindings(*context), strict)),
{
    proof {
        if !has_template_syntax(template@) {
            lemma_plain_text_is_tame(template@, 0);
        }
    }
    if strict {
        render_strict(template, context)
    } else if !is_tame(template) {
        Err(DhcpError::TeraError(template_error("template syntax that is not supported")))
    } else {
        render_lenient(template, context)
    }
}

/// What a `serde_yaml::Value` holds: its nodes one for one, the entries of
/// mappings in their order, a number with what `as_i64`, `as_u64` and
/// `as_f64` read of it, the last by its bits.
pub uninterp spec fn yaml_content(value: serde_yaml::Value) -> ParsedData;

/// `serde_yaml::from_str` for a whole value: the document that the text
/// holds, or the parser's error.
#[verifier::external_body]
fn yaml_from_str(text: &str) -> (r: Result<serde_yaml::Value, serde_yaml::Error>)
    ensures
        r is Ok <==> yaml_parsed(text@) is Some,
        r matches Ok(value) ==> yaml_parsed(text@) == Some(yaml_content(value)),
{
    serde_yaml::from_str::<serde_yaml::Value>(text)
}

/// Copies a `serde_yaml::Value` node by node, telling its variants apart;
/// a number is copied as what `as_i64`, `as_u64` and `as_f64` read of it.
#[verifier::external_body]
fn parsed_of_yaml(value: &Yaml) -> (r: Parsed)
    ensures
        r@ == yaml_content(*value),
{
    match value {
        Yaml::Null => Parsed::Null,
        Yaml::Bool(b) => Parsed::Bool(*b),
        Yaml::Number(n) => {
            let float_bits = n.as_f64().map(|x| x.to_bits());
            Parsed::Number(Readings { signed: n.as_i64(), unsigned: n.as_u64(), float_bits })
        },
        Yaml::String(s) => Parsed::String(s.clone()),
        Yaml::Sequence(s) => Parsed::Sequence(s.iter().map(parsed_of_yaml).collect()),
        Yaml::Mapping(m) => Parsed::Mapping(
            m.iter().map(|(k, v)| (parsed_of_yaml(k), parsed_of_yaml(v))).collect(),
        ),
    }
}

/// The structured value of a YAML value: its nodes one for one, each
/// number settled from its readings.
pub fn node_of_yaml(value: &serde_yaml::Value) -> (r: Node)
    ensures
        r@ == settled(yaml_content(*value)),
{
    parsed_of_yaml(value).settle()
}

/// Reads a text as one YAML document.
pub fn read_yaml(text: &str) -> (r: Result<Node, DhcpError>)
    ensures
        r is Ok <==> yaml_document(text@) is Some,
        r matches Ok(node) ==> yaml_document(text@) == Some(node@),
        r matches Err(e) ==> e is SerdeYamlError,
{
    match yaml_from_str(text) {
        Ok(value) => Ok(node_of_yaml(&value)),
        Err(e) => Err(DhcpError::SerdeYamlError(e)),
    }
}

/// How expanding the templates of a value has ended.
#[derive(Clone, Copy, Debug, PartialEq, Eq, Structural)]
pub enum Ending {
    /// Every text leaf was rendered and read again.
    Done,
    /// It stopped at a text leaf whose template renders nothing.
    Unrendered,
    /// It stopped at a text leaf whose rendering is no YAML document.
    Unread,
}

/// The ending that an error of an expansion tells of: a template error
/// of a text that renders nothing, any other of a text that is not read.
pub open spec fn fault_ending(e: DhcpError) -> Ending {
    if e is TeraError {
        Ending::Unrendered
    } else {
        Ending::Unread
    }
}

/// The ending that the result of an expansion tells of.
pub open spec fn ending_of(r: Result<(), DhcpError>) -> Ending {
    match r {
        Ok(_) => Ending::Done,
        Err(e) => fault_ending(e),
    }
}

/// The expansion of a text leaf: it becomes the YAML document of what its
/// text renders to. Where the text renders nothing, or what it renders to
/// is no YAML document, it stays as it is.
pub open spec fn leaf_expansion(
    text: Seq<char>,
    after: Data,
    ending: Ending,
    bindings: Map<Seq<char>, serde_json::Value>,
    strict: bool,
) -> bool {
    match rendering(text, bindings, strict) {
        None => ending == Ending::Unrendered && after == Data::Text(text),
        Some(shown) => match yaml_document(shown) {
            None => ending == Ending::Unread && after == Data::Text(text),
            Some(document) => ending == Ending::Done && after == document,
        },
    }
}

/// The expansion of the templates in `before` against bindings in a mode:
/// every text leaf is expanded, one after the other; other leaves and the
/// keys of mappings stay. It stops at the first leaf that cannot be
/// expanded: the leaves before it are expanded and the rest is as it was.
pub open spec fn expansion(
    before: Data,
    after: Data,
    ending: Ending,
    bindings: Map<Seq<char>, serde_json::Value>,
    strict: bool,
) -> bool
    decreases before, 2nat,
{
    match before {
        Data::Text(s) => leaf_expansion(s, after, ending, bindings, strict),
        Data::List(xs) => after is List && items_expansion(
            xs,
            after->List_0,
            ending,
            bindings,
            strict,
        ),
        Data::Dict(es) => after is Dict && entries_expansion(
            es,
            after->Dict_0,
            ending,
            bindings,
            strict,
        ),
        _ => ending == Ending::Done && after == before,
    }
}

/// Expansion of the items of a sequence, one after the other. Where it
/// stopped, the items before that one are expanded and those after it are
/// as they were.
pub open spec fn items_expansion(
    before: Seq<Data>,
    after: Seq<Data>,
    ending: Ending,
    bindings: Map<Seq<char>, serde_json::Value>,
    strict: bool,
) -> bool
    decreases before, 1nat,
{
    &&& after.len() == before.len()
    &&& if ending != Ending::Done {
        exists|k: int|
            {
                &&& 0 <= k < before.len()
                &&& forall|i: int|
                    0 <= i < k ==> expansion(
                        before[i],
                        #[trigger] after[i],
                        Ending::Done,
                        bindings,
                        strict,
                    )
                &&& expansion(before[k], #[trigger] after[k], ending, bindings, strict)
                &&& forall|i: int| k < i < before.len() ==> #[trigger] after[i] == before[i]
            }
    } else {
        forall|i: int|
            0 <= i < before.len() ==> expansion(
                before[i],
                #[trigger] after[i],
                Ending::Done,
                bindings,
                strict,
            )
    }
}

/// Expansion of the values of a mapping, one after the other; keys stay.
/// Where it stopped, the values before that one are expanded and the
/// entries after it are as they were.
pub open spec fn entries_expansion(
    before: Seq<(Data, Data)>,
    after: Seq<(Data, Data)>,
    ending: Ending,
    bindings: Map<Seq<char>, serde_json::Value>,
    strict: bool,
) -> bool
    decreases before, 1nat,
{
    &&& after.len() == before.len()
    &&& forall|i: int| 0 <= i < before.len() ==> (#[trigger] after[i]).0 == before[i].0
    &&& if ending != Ending::Done {
        exists|k: int|
            {
                &&& 0 <= k < before.len()
                &&& forall|i: int|
                    0 <= i < k ==> expansion(
                        before[i].1,
                        (#[trigger] after[i]).1,
                        Ending::Done,
                        bindings,
                        strict,
                    )
                &&& expansion(before[k].1, (#[trigger] after[k]).1, ending, bindings, strict)
                &&& forall|i: int| k < i < before.len() ==> #[trigger] after[i] == before[i]
            }
    } else {
        forall|i: int|
            0 <= i < before.len() ==> expansion(
                before[i].1,
                (#[trigger] after[i]).1,
                Ending::Done,
                bindings,
                strict,
            )
    }
}

/// Whether an expansion has gone from `before` to `after` and has failed
/// or not, whatever it failed on.
pub open spec fn expansion_ended(
    before: Data,
    after: Data,
    failed: bool,
    bindings: Map<Seq<char>, serde_json::Value>,
    strict: bool,
) -> bool {
    if failed {
        expansion(before, after, Ending::Unrendered, bindings, strict) || expansion(
            before,
            after,
            Ending::Unread,
            bindings,
            strict,
        )
    } else {
        expansion(before, after, Ending::Done, bindings, strict)
    }
}

/// The contents of the items of a sequence.
pub open spec fn contents(items: Seq<Node>) -> Seq<Data> {
    Seq::new(items.len(), |j: int| items[j]@)
}

/// The contents of the entries of a mapping.
pub open spec fn entry_contents(entries: Seq<(Node, Node)>) -> Seq<(Data, Data)> {
    Seq::new(entries.len(), |j: int| (entries[j].0@, entries[j].1@))
}

fn expand_items(items: &mut Vec<Node>, context: &tera::Context, strict: bool) -> (r: Result<
    (),
    DhcpError,
>)
    ensures
        items_expansion(
            contents(old(items)@),
            contents(final(items)@),
            ending_of(r),
            context_bindings(*context),
            strict,
        ),
        r matches Err(e) ==> e is TeraError || e is SerdeYamlError,
    decreases *old(items),
{
    let ghost b = context_bindings(*context);
    let mut i: usize = 0;
    while i < items.len()
        invariant
            i <= items.len(),
            items.len() == old(items).len(),
            b == context_bindings(*context),
            forall|j: int| i <= j < items.len() ==> items[j] == old(items)[j],
            forall|j: int|
                0 <= j < i ==> expansion(
                    old(items)[j]@,
                    #[trigger] items[j]@,
                    Ending::Done,
                    b,
                    strict,
                ),
        decreases items.len() - i,
    {
        let r = expand(&mut items[i], context, strict);
        if r.is_err() {
            proof {
                let k = i as int;
                let before = contents(old(items)@);
                let after = contents(items@);
                assert(expansion(before[k], after[k], ending_of(r), b, strict));
                assert(before[k] == old(items)[k]@);
                assert forall|j: int| 0 <= j < k implies expansion(
                    before[j],
                    #[trigger] after[j],
                    Ending::Done,
                    b,
                    strict,
                ) by {
                    assert(expansion(old(items)[j]@, items[j]@, Ending::Done, b, strict));
                }
                assert forall|j: int| k < j < before.len() implies #[trigger] after[j]
                    == before[j] by {
                    assert(items[j] == old(items)[j]);
                }
            }
            return r;
        }
        i += 1;
    }
    proof {
        let before = contents(old(items)@);
        let after = contents(items@);
        assert forall|j: int| 0 <= j < before.len() implies expansion(
            before[j],
            #[trigger] after[j],
            Ending::Done,
            b,
            strict,
        ) by {
            assert(expansion(old(items)[j]@, items[j]@, Ending::Done, b, strict));
        }
    }
    Ok(())
}

fn expand_entries(
    entries: &mut Vec<(Node, Node)>,
    context: &tera::Context,
    strict: bool,
) -> (r: Result<(), DhcpError>)
    ensures
        entries_expansion(
            entry_contents(old(entries)@),
            entry_contents(final(entries)@),
            ending_of(r),
            context_bindings(*context),
            strict,
        ),
        r matches Err(e) ==> e is TeraError || e is SerdeYamlError,
    decreases *old(entries),
{
    let ghost b = context_bindings(*context);
    let mut i: usize = 0;
    while i < entries.len()
        invariant
            i <= entries.len(),
            entries.len() == old(entries).len(),
            b == context_bindings(*context),
            forall|j: int| i <= j < entries.len() ==> entries[j] == old(entries)[j],
            forall|j: int| 0 <= j < i ==> (#[trigger] entries[j]).0 == old(entries)[j].0,
            forall|j: int|
                0 <= j < i ==> expansion(
                    old(entries)[j].1@,
                    (#[trigger] entries[j]).1@,
                    Ending::Done,
                    b,
                    strict,
                ),
        decreases entries.len() - i,
    {
        let r = expand(&mut entries[i].1, context, strict);
        if r.is_err() {
            proof {
                let k = i as int;
                let before = entry_contents(old(entries)@);
                let after = entry_contents(entries@);
                assert(expansion(before[k].1, after[k].1, ending_of(r), b, strict));
                assert(before[k].1 == old(entries)[k].1@);
                assert forall|j: int| 0 <= j < k implies expansion(
                    before[j].1,
                    (#[trigger] after[j]).1,
                    Ending::Done,
                    b,
                    strict,
                ) by {
                    assert(expansion(old(entries)[j].1@, entries[j].1@, Ending::Done, b, strict));
                }
                assert forall|j: int| 0 <= j < before.len() implies (#[trigger] after[j]).0
                    == before[j].0 by {
                    assert(entries[j].0 == old(entries)[j].0);
                }
                assert forall|j: int| k < j < before.len() implies #[trigger] after[j]
                    == before[j] by {
                    assert(entries[j] == old(entries)[j]);
                }
            }
            return r;
        }
        i += 1;
    }
    proof {
        let before = entry_contents(old(entries)@);
        let after = entry_contents(entries@);
        assert forall|j: int| 0 <= j < before.len() implies expansion(
            before[j].1,
            (#[trigger] after[j]).1,
            Ending::Done,
            b,
            strict,
        ) by {
            assert(expansion(old(entries)[j].1@, entries[j].1@, Ending::Done, b, strict));
        }
        assert forall|j: int| 0 <= j < before.len() implies (#[trigger] after[j]).0
            == before[j].0 by {
            assert(entries[j].0 == old(entries)[j].0);
        }
    }
    Ok(())
}

/// Expands the templates of a structured value in place: every text leaf is
/// rendered against the context and the rendered text read again as YAML,
/// so that a template that yields `[1, 2]` leaves a sequence. Other leaves
/// stay, and so do the keys of mappings. It stops at the first leaf that
/// fails: with a template error where the text renders nothing, with a
/// YAML error where what it renders to is no document. Unless the mode is
/// strict, a tag whose variable is undefined gives the empty text.
pub fn template_values(value: &mut Node, context: &tera::Context, strict: bool) -> (r: Result<
    (),
    DhcpError,
>)
    ensures
        expansion(old(value)@, final(value)@, ending_of(r), context_bindings(*context), strict),
        r matches Err(e) ==> e is TeraError || e is SerdeYamlError,
        stable(old(value)@) ==> r is Ok && final(value)@ == old(value)@,
    decreases *old(value),
{
    let r = expand(value, context, strict);
    proof {
        if stable(old(value)@) {
            lemma_stable_unchanged(
                old(value)@,
                value@,
                ending_of(r),
                context_bindings(*context),
                strict,
            );
        }
    }
    r
}

fn expand(value: &mut Node, context: &tera::Context, strict: bool) -> (r: Result<(), DhcpError>)
    ensures
        expansion(old(value)@, final(value)@, ending_of(r), context_bindings(*context), strict),
        r matches Err(e) ==> e is TeraError || e is SerdeYamlError,
    decreases *old(value),
{
    match value {
        Node::String(s) => {
            let rendered = render_text(s.as_str(), context, strict);
            match rendered {
                Ok(text) => match read_yaml(text.as_str()) {
                    Ok(node) => {
                        *value = node;
                        Ok(())
                    },
                    Err(e) => Err(e),
                },
                Err(e) => Err(e),
            }
        },
        Node::Sequence(items) => {
            let r = expand_items(items, context, strict);
            proof {
                old(value).view_of_sequence();
                final(value).view_of_sequence();
            }
            r
        },
        Node::Mapping(entries) => {
            let r = expand_entries(entries, context, strict);
            proof {
                old(value).view_of_mapping();
                final(value).view_of_mapping();
            }
            r
        },
        _ => Ok(()),
    }
}

/// A value without template syntax: none of its text leaves holds any.
pub open spec fn plain(value: Data) -> bool
    decreases value,
{
    match value {
        Data::Text(s) => !has_template_syntax(s),
        Data::List(xs) => forall|i: int| 0 <= i < xs.len() ==> plain(#[trigger] xs[i]),
        Data::Dict(es) => forall|i: int| 0 <= i < es.len() ==> plain((#[trigger] es[i]).1),
        _ => true,
    }
}

/// Expansion is determined: a value has one expansion against given
/// bindings in a given mode, and a value without template syntax has the
/// same expansion against all bindings and in both modes.
#[verifier::rlimit(60)]
pub proof fn lemma_expansion_determined(
    value: Data,
    first: Data,
    first_ending: Ending,
    first_bindings: Map<Seq<char>, serde_json::Value>,
    first_strict: bool,
    second: Data,
    second_ending: Ending,
    second_bindings: Map<Seq<char>, serde_json::Value>,
    second_strict: bool,
)
    requires
        plain(value) || (first_bindings == second_bindings && first_strict == second_strict),
        expansion(value, first, first_ending, first_bindings, first_strict),
        expansion(value, second, second_ending, second_bindings, second_strict),
    ensures
        first_ending == second_ending,
        first == second,
    decreases value,
{
    let fb = first_bindings;
    let fs = first_strict;
    let sb = second_bindings;
    let ss = second_strict;
    let done = Ending::Done;
    match value {
        Data::Text(s) => {},
        Data::List(xs) => {
            let ys = first->List_0;
            let zs = second->List_0;
            assert forall|i: int| 0 <= i < xs.len() implies plain(xs[i]) || (fb == sb && fs
                == ss) by {}
            if first_ending != done {
                let k = choose|k: int|
                    {
                        &&& 0 <= k < xs.len()
                        &&& forall|i: int|
                            0 <= i < k ==> expansion(xs[i], #[trigger] ys[i], done, fb, fs)
                        &&& expansion(xs[k], #[trigger] ys[k], first_ending, fb, fs)
                        &&& forall|i: int| k < i < xs.len() ==> #[trigger] ys[i] == xs[i]
                    };
                if second_ending != done {
                    let m = choose|m: int|
                        {
                            &&& 0 <= m < xs.len()
                            &&& forall|i: int|
                                0 <= i < m ==> expansion(xs[i], #[trigger] zs[i], done, sb, ss)
                            &&& expansion(xs[m], #[trigger] zs[m], second_ending, sb, ss)
                            &&& forall|i: int| m < i < xs.len() ==> #[trigger] zs[i] == xs[i]
                        };
                    if k < m {
                        assert(expansion(xs[k], zs[k], done, sb, ss));
                        lemma_expansion_determined(
                            xs[k], ys[k], first_ending, fb, fs, zs[k], done, sb, ss,
                        );
                    }
                    if m < k {
                        assert(expansion(xs[m], ys[m], done, fb, fs));
                        lemma_expansion_determined(
                            xs[m], ys[m], done, fb, fs, zs[m], second_ending, sb, ss,
                        );
                    }
                    assert(k == m);
                    lemma_expansion_determined(
                        xs[k], ys[k], first_ending, fb, fs, zs[k], second_ending, sb, ss,
                    );
                    assert forall|i: int| 0 <= i < xs.len() implies ys[i] == zs[i] by {
                        if i < k {
                            assert(expansion(xs[i], ys[i], done, fb, fs));
                            assert(expansion(xs[i], zs[i], done, sb, ss));
                            lemma_expansion_determined(
                                xs[i], ys[i], done, fb, fs, zs[i], done, sb, ss,
                            );
                        }
                    }
                } else {
                    assert(expansion(xs[k], zs[k], done, sb, ss));
                    lemma_expansion_determined(
                        xs[k], ys[k], first_ending, fb, fs, zs[k], done, sb, ss,
                    );
                }
            } else if second_ending != done {
                let m = choose|m: int|
                    {
                        &&& 0 <= m < xs.len()
                        &&& forall|i: int|
                            0 <= i < m ==> expansion(xs[i], #[trigger] zs[i], done, sb, ss)
                        &&& expansion(xs[m], #[trigger] zs[m], second_ending, sb, ss)
                        &&& forall|i: int| m < i < xs.len() ==> #[trigger] zs[i] == xs[i]
                    };
                assert(expansion(xs[m], ys[m], done, fb, fs));
                lemma_expansion_determined(
                    xs[m], ys[m], done, fb, fs, zs[m], second_ending, sb, ss,
                );
            } else {
                assert forall|i: int| 0 <= i < xs.len() implies ys[i] == zs[i] by {
                    assert(expansion(xs[i], ys[i], done, fb, fs));
                    assert(expansion(xs[i], zs[i], done, sb, ss));
                    lemma_expansion_determined(xs[i], ys[i], done, fb, fs, zs[i], done, sb, ss);
                }
            }
            assert(ys =~= zs);
        },
        Data::Dict(es) => {
            let ys = first->Dict_0;
            let zs = second->Dict_0;
            assert forall|i: int| 0 <= i < es.len() implies plain(es[i].1) || (fb == sb && fs
                == ss) by {}
            if first_ending != done {
                let k = choose|k: int|
                    {
                        &&& 0 <= k < es.len()
                        &&& forall|i: int|
                            0 <= i < k ==> expansion(es[i].1, (#[trigger] ys[i]).1, done, fb, fs)
                        &&& expansion(es[k].1, (#[trigger] ys[k]).1, first_ending, fb, fs)
                        &&& forall|i: int| k < i < es.len() ==> #[trigger] ys[i] == es[i]
                    };
                if second_ending != done {
                    let m = choose|m: int|
                        {
                            &&& 0 <= m < es.len()
                            &&& forall|i: int|
                                0 <= i < m ==> expansion(
                                    es[i].1,
                                    (#[trigger] zs[i]).1,
                                    done,
                                    sb,
                                    ss,
                                )
                            &&& expansion(es[m].1, (#[trigger] zs[m]).1, second_ending, sb, ss)
                            &&& forall|i: int| m < i < es.len() ==> #[trigger] zs[i] == es[i]
                        };
                    if k < m {
                        assert(expansion(es[k].1, zs[k].1, done, sb, ss));
                        lemma_expansion_determined(
                            es[k].1, ys[k].1, first_ending, fb, fs, zs[k].1, done, sb, ss,
                        );
                    }
                    if m < k {
                        assert(expansion(es[m].1, ys[m].1, done, fb, fs));
                        lemma_expansion_determined(
                            es[m].1, ys[m].1, done, fb, fs, zs[m].1, second_ending, sb, ss,
                        );
                    }
                    assert(k == m);
                    lemma_expansion_determined(
                        es[k].1, ys[k].1, first_ending, fb, fs, zs[k].1, second_ending, sb, ss,
                    );
                    assert forall|i: int| 0 <= i < es.len() implies ys[i] == zs[i] by {
                        assert(ys[i].0 == zs[i].0);
                        if i < k {
                            assert(expansion(es[i].1, ys[i].1, done, fb, fs));
                            assert(expansion(es[i].1, zs[i].1, done, sb, ss));
                            lemma_expansion_determined(
                                es[i].1, ys[i].1, done, fb, fs, zs[i].1, done, sb, ss,
                            );
                        }
                    }
                } else {
                    assert(expansion(es[k].1, zs[k].1, done, sb, ss));
                    lemma_expansion_determined(
                        es[k].1, ys[k].1, first_ending, fb, fs, zs[k].1, done, sb, ss,
                    );
                }
            } else if second_ending != done {
                let m = choose|m: int|
                    {
                        &&& 0 <= m < es.len()
                        &&& forall|i: int|
                            0 <= i < m ==> expansion(es[i].1, (#[trigger] zs[i]).1, done, sb, ss)
                        &&& expansion(es[m].1, (#[trigger] zs[m]).1, second_ending, sb, ss)
                        &&& forall|i: int| m < i < es.len() ==> #[trigger] zs[i] == es[i]
                    };
                assert(expansion(es[m].1, ys[m].1, done, fb, fs));
                lemma_expansion_determined(
                    es[m].1, ys[m].1, done, fb, fs, zs[m].1, second_ending, sb, ss,
                );
            } else {
                assert forall|i: int| 0 <= i < es.len() implies ys[i] == zs[i] by {
                    assert(ys[i].0 == zs[i].0);
                    assert(expansion(es[i].1, ys[i].1, done, fb, fs));
                    assert(expansion(es[i].1, zs[i].1, done, sb, ss));
                    lemma_expansion_determined(
                        es[i].1, ys[i].1, done, fb, fs, zs[i].1, done, sb, ss,
                    );
                }
            }
            assert(ys =~= zs);
        },
        _ => {},
    }
}

/// A value that expansion leaves as it is: no text leaf holds template
/// syntax, and each reads back from YAML as the same text.
pub open spec fn stable(value: Data) -> bool
    decreases value,
{
    match value {
        Data::Text(s) => !has_template_syntax(s) && yaml_document(s) == Some(Data::Text(s)),
        Data::List(xs) => forall|i: int| 0 <= i < xs.len() ==> stable(#[trigger] xs[i]),
        Data::Dict(es) => forall|i: int| 0 <= i < es.len() ==> stable((#[trigger] es[i]).1),
        _ => true,
    }
}

/// Expanding a stable value never fails and changes nothing.
pub proof fn lemma_stable_unchanged(
    before: Data,
    after: Data,
    ending: Ending,
    bindings: Map<Seq<char>, serde_json::Value>,
    strict: bool,
)
    requires
        stable(before),
        expansion(before, after, ending, bindings, strict),
    ensures
        ending == Ending::Done,
        after == before,
    decreases before,
{
    let done = Ending::Done;
    match before {
        Data::Text(s) => {},
        Data::List(xs) => {
            let ys = after->List_0;
            if ending != done {
                let k = choose|k: int|
                    {
                        &&& 0 <= k < xs.len()
                        &&& forall|i: int|
                            0 <= i < k ==> expansion(xs[i], #[trigger] ys[i], done, bindings, strict)
                        &&& expansion(xs[k], #[trigger] ys[k], ending, bindings, strict)
                        &&& forall|i: int| k < i < xs.len() ==> #[trigger] ys[i] == xs[i]
                    };
                assert(stable(xs[k]));
                lemma_stable_unchanged(xs[k], ys[k], ending, bindings, strict);
            } else {
                assert forall|i: int| 0 <= i < xs.len() implies ys[i] == xs[i] by {
                    assert(stable(xs[i]));
                    assert(expansion(xs[i], ys[i], done, bindings, strict));
                    lemma_stable_unchanged(xs[i], ys[i], done, bindings, strict);
                }
                assert(ys =~= xs);
            }
        },
        Data::Dict(es) => {
            let fs = after->Dict_0;
            if ending != done {
                let k = choose|k: int|
                    {
                        &&& 0 <= k < es.len()
                        &&& forall|i: int|
                            0 <= i < k ==> expansion(
                                es[i].1,
                                (#[trigger] fs[i]).1,
                                done,
                                bindings,
                                strict,
                            )
                        &&& expansion(es[k].1, (#[trigger] fs[k]).1, ending, bindings, strict)
                        &&& forall|i: int| k < i < es.len() ==> #[trigger] fs[i] == es[i]
                    };
                assert(stable(es[k].1));
                lemma_stable_unchanged(es[k].1, fs[k].1, ending, bindings, strict);
            } else {
                assert forall|i: int| 0 <= i < es.len() implies fs[i] == es[i] by {
                    assert(stable(es[i].1));
                    assert(fs[i].0 == es[i].0);
                    assert(expansion(es[i].1, fs[i].1, done, bindings, strict));
                    lemma_stable_unchanged(es[i].1, fs[i].1, done, bindings, strict);
                }
                assert(fs =~= es);
            }
        },
        _ => {},
    }
}

/// Template expansion is idempotent: where a first expansion has left a
/// stable value, a second one succeeds and leaves the same value.
pub proof fn lemma_expansion_idempotent(
    value: Data,
    once: Data,
    twice: Data,
    ending: Ending,
    bindings: Map<Seq<char>, serde_json::Value>,
    strict: bool,
)
    requires
        expansion(value, once, Ending::Done, bindings, strict),
        stable(once),
        expansion(once, twice, ending, bindings, strict),
    ensures
        ending == Ending::Done,
        twice == once,
{
    lemma_stable_unchanged(once, twice, ending, bindings, strict);
}

} // verus!
