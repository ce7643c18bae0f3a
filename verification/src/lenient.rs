//! Rendering that passes over undefined variables: a tag whose variable the
//! context does not define gives the empty text.

use crate::error::DhcpError;
use crate::sources::query::context_bindings;
use crate::template::{
    has_template_syntax, is_name_char, is_name_start, render_strict, strict_rendering, tame,
    tame_from, told, Scan,
};
use crate::text::chars_of;
use vstd::prelude::*;
use vstd::string::{StrSliceExecFns, StringExecFns};

verus! {

/// Whether a JSON value holds a path of names and indexes, as
/// `tera::dotted_pointer` reads it.
pub uninterp spec fn json_holds(value: serde_json::Value, path: Seq<char>) -> bool;

/// Whether a context defines a variable: it binds the first name of the
/// path, and the value under it holds the rest of the path.
pub open spec fn context_defines(
    bindings: Map<Seq<char>, serde_json::Value>,
    root: Seq<char>,
    rest: Seq<char>,
) -> bool {
    bindings.contains_key(root) && json_holds(bindings[root], rest)
}

/// Whether the characters are those of names and dots.
pub open spec fn path_chars(text: Seq<char>) -> bool {
    forall|i: int| 0 <= i < text.len() ==> is_name_char(#[trigger] text[i]) || text[i] == '.'
}

/// `tera::Context::get`: the value that the context binds a name to, if
/// it binds the name.
#[verifier::external_body]
fn bound<'a>(context: &'a tera::Context, name: &str) -> (r: Option<&'a serde_json::Value>)
    ensures
        r is Some <==> context_bindings(*context).contains_key(name@),
        r matches Some(value) ==> *value == context_bindings(*context)[name@],
{
    context.get(name)
}

/// `tera::dotted_pointer`: whether the value holds the path. The pointer
/// is read by characters, so a path of names and dots is asked for.
#[verifier::external_body]
fn holds(value: &serde_json::Value, path: &str) -> (r: bool)
    requires
        path_chars(path@),
    ensures
        r == json_holds(*value, path@),
{
    tera::dotted_pointer(value, path).is_some()
}

/// Whether the context defines the variable of a root and the rest of a
/// path, as the engine looks a variable up.
fn defined_in(context: &tera::Context, root: &str, rest: &str) -> (r: bool)
    requires
        path_chars(rest@),
    ensures
        r == context_defines(context_bindings(*context), root@, rest@),
{
    match bound(context, root) {
        Some(value) => holds(value, rest),
        None => false,
    }
}

/// The first name of a path that starts at `start` and ends before `end`,
/// with its first dot at `dot` if that is not negative.
pub open spec fn root_of(text: Seq<char>, start: int, dot: int, end: int) -> Seq<char> {
    text.subrange(
        start,
        if dot >= 0 {
            dot
        } else {
            end
        },
    )
}

/// The rest of such a path after its first dot; empty where it has none.
pub open spec fn rest_of(text: Seq<char>, dot: int, end: int) -> Seq<char> {
    if dot >= 0 {
        text.subrange(dot + 1, end)
    } else {
        Seq::empty()
    }
}

/// Whether a character and its successor close a tag.
pub open spec fn closes_at(text: Seq<char>, at: int) -> bool {
    text[at] == '}' && at + 1 < text.len() && text[at + 1] == '}'
}

/// Whether a character and its successor open a tag.
pub open spec fn opens_at(text: Seq<char>, at: int) -> bool {
    text[at] == '{' && at + 1 < text.len() && text[at + 1] == '{'
}

/// A text before what follows it, where anything follows.
pub open spec fn before_rest(prefix: Seq<char>, rest: Option<Seq<char>>) -> Option<Seq<char>> {
    match rest {
        Some(text) => Some(prefix + text),
        None => None,
    }
}

/// What a tag gives where undefined variables are passed over. The tag
/// opens at `opened` and its closing brackets stand at `close`; the path of
/// its variable starts at `start`, has its first dot at `dot` if that is
/// not negative, and ends before `end`. Where the context defines the
/// variable, the tag gives what the engine renders it to, if anything;
/// else it gives the empty text.
pub open spec fn tag_text(
    text: Seq<char>,
    bindings: Map<Seq<char>, serde_json::Value>,
    opened: int,
    start: int,
    dot: int,
    end: int,
    close: int,
) -> Option<Seq<char>> {
    if context_defines(bindings, root_of(text, start, dot, end), rest_of(text, dot, end)) {
        strict_rendering(text.subrange(opened, close + 2), bindings)
    } else {
        Some(Seq::empty())
    }
}

/// What a tame template gives from `at` on, read in the given state, where
/// undefined variables are passed over: its text, and for each tag what
/// `tag_text` says; nothing where a tag gives nothing. The tag that is
/// being read opens at `opened`; the path of its variable starts at
/// `start`, has its first dot at `dot` and ends before `end`.
pub open spec fn lenient_from(
    text: Seq<char>,
    bindings: Map<Seq<char>, serde_json::Value>,
    at: int,
    state: Scan,
    opened: int,
    start: int,
    dot: int,
    end: int,
) -> Option<Seq<char>>
    decreases text.len() - at,
{
    if at < 0 || at >= text.len() {
        Some(Seq::empty())
    } else {
        let c = text[at];
        match state {
            Scan::Text => if opens_at(text, at) {
                lenient_from(text, bindings, at + 2, Scan::Open, at, start, dot, end)
            } else {
                before_rest(
                    seq![c],
                    lenient_from(text, bindings, at + 1, Scan::Text, opened, start, dot, end),
                )
            },
            Scan::Open => if is_name_start(c) {
                lenient_from(text, bindings, at + 1, Scan::Name, opened, at, -1, -1)
            } else {
                lenient_from(text, bindings, at + 1, Scan::Open, opened, start, dot, end)
            },
            Scan::Name => if is_name_char(c) {
                lenient_from(text, bindings, at + 1, Scan::Name, opened, start, dot, end)
            } else if c == '.' {
                lenient_from(
                    text,
                    bindings,
                    at + 1,
                    Scan::Dot,
                    opened,
                    start,
                    if dot < 0 {
                        at
                    } else {
                        dot
                    },
                    end,
                )
            } else if closes_at(text, at) {
                match tag_text(text, bindings, opened, start, dot, at, at) {
                    Some(tag) => before_rest(
                        tag,
                        lenient_from(text, bindings, at + 2, Scan::Text, opened, start, dot, end),
                    ),
                    None => None,
                }
            } else {
                lenient_from(text, bindings, at + 1, Scan::Close, opened, start, dot, at)
            },
            Scan::Dot => lenient_from(text, bindings, at + 1, Scan::Name, opened, start, dot, end),
            Scan::Close => if closes_at(text, at) {
                match tag_text(text, bindings, opened, start, dot, end, at) {
                    Some(tag) => before_rest(
                        tag,
                        lenient_from(text, bindings, at + 2, Scan::Text, opened, start, dot, end),
                    ),
                    None => None,
                }
            } else {
                lenient_from(text, bindings, at + 1, Scan::Close, opened, start, dot, end)
            },
        }
    }
}

/// What a tame template gives where undefined variables are passed over:
/// its text is kept, a tag whose variable the context defines gives what
/// the engine renders it to, and any other tag gives the empty text. It
/// gives nothing where the engine renders nothing for such a tag.
pub open spec fn lenient(text: Seq<char>, bindings: Map<Seq<char>, serde_json::Value>) -> Option<
    Seq<char>,
> {
    lenient_from(text, bindings, 0, Scan::Text, 0, 0, -1, -1)
}

/// Renders a tame template and passes over undefined variables: text is
/// kept, a tag whose variable the context defines is rendered by the
/// engine, and any other tag gives nothing.
#[verifier::rlimit(60)]
pub(crate) fn render_lenient(template: &str, context: &tera::Context) -> (r: Result<
    String,
    DhcpError,
>)
    requires
        tame(template@),
    ensures
        told(r, lenient(template@, context_bindings(*context))),
        !has_template_syntax(template@) ==> (r matches Ok(text) && text@ == template@),
{
    let chars = chars_of(template);
    let len = chars.len();
    let ghost bindings = context_bindings(*context);
    let mut out = String::new();
    let mut state = Scan::Text;
    let mut at: usize = 0;
    let mut segment: usize = 0;
    let mut opened: usize = 0;
    let mut start: usize = 0;
    let mut dot: Option<usize> = None;
    let mut end: usize = 0;
    let ghost mut g_start: int = 0;
    let ghost mut g_dot: int = -1;
    let ghost mut g_end: int = -1;
    while at < len
        invariant
            at <= len,
            len == chars.len(),
            chars@ == template@,
            bindings == context_bindings(*context),
            tame_from(chars@, at as int, state),
            segment <= at,
            state != Scan::Text ==> opened + 2 <= at && has_template_syntax(template@),
            (state == Scan::Name || state == Scan::Dot) ==> {
                &&& opened < start < at
                &&& g_start == start
                &&& path_chars(chars@.subrange(start as int, at as int))
                &&& match dot {
                    Some(d) => g_dot == d && start < d < at,
                    None => g_dot == -1,
                }
            },
            state == Scan::Close ==> {
                &&& opened < start < end <= at
                &&& g_start == start
                &&& g_end == end
                &&& path_chars(chars@.subrange(start as int, end as int))
                &&& match dot {
                    Some(d) => g_dot == d && start < d < end,
                    None => g_dot == -1,
                }
            },
            !has_template_syntax(template@) ==> state == Scan::Text && segment == 0 && out@.len()
                == 0,
            lenient(template@, bindings) == before_rest(
                out@ + (if state == Scan::Text {
                    chars@.subrange(segment as int, at as int)
                } else {
                    Seq::<char>::empty()
                }),
                lenient_from(chars@, bindings, at as int, state, opened as int, g_start, g_dot, g_end),
            ),
        decreases len - at,
    {
        let c = chars[at];
        let closes = c == '}' && at + 1 < len && chars[at + 1] == '}';
        let name_start = ('a' <= c && c <= 'z') || ('A' <= c && c <= 'Z') || c == '_';
        let name_char = name_start || ('0' <= c && c <= '9');
        let ghost before_at = at as int;
        let ghost before_out = out@;
        match state {
            Scan::Text => {
                if c == '{' && at + 1 < len && chars[at + 1] == '{' {
                    assert(has_template_syntax(template@));
                    out.append(template.substring_char(segment, at));
                    opened = at;
                    state = Scan::Open;
                    at += 2;
                    proof {
                        assert(out@ == before_out + chars@.subrange(segment as int, before_at));
                    }
                } else {
                    proof {
                        assert(chars@.subrange(segment as int, before_at + 1)
                            =~= chars@.subrange(segment as int, before_at) + seq![c]);
                    }
                    at += 1;
                }
            },
            Scan::Open => {
                if name_start {
                    start = at;
                    dot = None;
                    proof {
                        g_start = at as int;
                        g_dot = -1;
                        g_end = -1;
                    }
                    state = Scan::Name;
                    at += 1;
                    assert(path_chars(chars@.subrange(start as int, at as int)));
                } else {
                    at += 1;
                }
            },
            Scan::Name => {
                if name_char {
                    at += 1;
                    assert(path_chars(chars@.subrange(start as int, at as int))) by {
                        assert forall|i: int|
                            0 <= i < at - start implies is_name_char(
                            #[trigger] chars@.subrange(start as int, at as int)[i],
                        ) || chars@.subrange(start as int, at as int)[i] == '.' by {
                            if i < at - 1 - start {
                                assert(chars@.subrange(start as int, at - 1)[i] == chars@[start
                                    + i]);
                            }
                        }
                    }
                } else if c == '.' {
                    if dot.is_none() {
                        dot = Some(at);
                        proof {
                            g_dot = at as int;
                        }
                    }
                    state = Scan::Dot;
                    at += 1;
                    assert(path_chars(chars@.subrange(start as int, at as int))) by {
                        assert forall|i: int|
                            0 <= i < at - start implies is_name_char(
                            #[trigger] chars@.subrange(start as int, at as int)[i],
                        ) || chars@.subrange(start as int, at as int)[i] == '.' by {
                            if i < at - 1 - start {
                                assert(chars@.subrange(start as int, at - 1)[i] == chars@[start
                                    + i]);
                            }
                        }
                    }
                } else if closes {
                    let defined = tag_defined(template, &chars, context, start, dot, at);
                    if defined {
                        match render_tag(template, context, opened, at + 2) {
                            Ok(text) => {
                                out.append(text.as_str());
                            },
                            Err(e) => {
                                return Err(e);
                            },
                        }
                    }
                    proof {
                        assert(out@ =~= before_out + (out@.subrange(
                            before_out.len() as int,
                            out@.len() as int,
                        )));
                    }
                    segment = at + 2;
                    state = Scan::Text;
                    at += 2;
                    proof {
                        assert(chars@.subrange(segment as int, at as int) =~= Seq::<char>::empty());
                    }
                } else {
                    end = at;
                    proof {
                        g_end = at as int;
                    }
                    state = Scan::Close;
                    at += 1;
                }
            },
            Scan::Dot => {
                state = Scan::Name;
                at += 1;
                assert(path_chars(chars@.subrange(start as int, at as int))) by {
                    assert forall|i: int|
                        0 <= i < at - start implies is_name_char(
                        #[trigger] chars@.subrange(start as int, at as int)[i],
                    ) || chars@.subrange(start as int, at as int)[i] == '.' by {
                        if i < at - 1 - start {
                            assert(chars@.subrange(start as int, at - 1)[i] == chars@[start + i]);
                        }
                    }
                }
            },
            Scan::Close => {
                if closes {
                    let defined = tag_defined(template, &chars, context, start, dot, end);
                    if defined {
                        match render_tag(template, context, opened, at + 2) {
                            Ok(text) => {
                                out.append(text.as_str());
                            },
                            Err(e) => {
                                return Err(e);
                            },
                        }
                    }
                    proof {
                        assert(out@ =~= before_out + (out@.subrange(
                            before_out.len() as int,
                            out@.len() as int,
                        )));
                    }
                    segment = at + 2;
                    state = Scan::Text;
                    at += 2;
                    proof {
                        assert(chars@.subrange(segment as int, at as int) =~= Seq::<char>::empty());
                    }
                } else {
                    at += 1;
                }
            },
        }
    }
    match state {
        Scan::Text => {
            out.append(template.substring_char(segment, len));
        },
        _ => {},
    }
    proof {
        if !has_template_syntax(template@) {
            assert(chars@.subrange(0, len as int) =~= chars@);
        }
    }
    Ok(out)
}

/// Whether the context defines the variable whose path starts at `start`
/// and ends before `end`, with its first dot at `dot`.
fn tag_defined(
    template: &str,
    chars: &Vec<char>,
    context: &tera::Context,
    start: usize,
    dot: Option<usize>,
    end: usize,
) -> (r: bool)
    requires
        chars@ == template@,
        start <= end <= chars.len(),
        path_chars(chars@.subrange(start as int, end as int)),
        dot matches Some(d) ==> start <= d < end,
    ensures
        r == context_defines(
            context_bindings(*context),
            root_of(
                chars@,
                start as int,
                match dot {
                    Some(d) => d as int,
                    None => -1,
                },
                end as int,
            ),
            rest_of(
                chars@,
                match dot {
                    Some(d) => d as int,
                    None => -1,
                },
                end as int,
            ),
        ),
{
    match dot {
        Some(d) => {
            let root = template.substring_char(start, d);
            let rest = template.substring_char(d + 1, end);
            proof {
                assert forall|i: int| 0 <= i < rest@.len() implies is_name_char(
                    #[trigger] rest@[i],
                ) || rest@[i] == '.' by {
                    assert(rest@[i] == chars@.subrange(start as int, end as int)[d + 1 - start + i]);
                }
            }
            defined_in(context, root, rest)
        },
        None => {
            let root = template.substring_char(start, end);
            proof {
                assert(""@ =~= Seq::<char>::empty()) by {
                    reveal_strlit("");
                }
            }
            defined_in(context, root, "")
        },
    }
}

/// Renders the tag that stands from `from` up to `to`, as a template of
/// its own.
fn render_tag(template: &str, context: &tera::Context, from: usize, to: usize) -> (r: Result<
    String,
    DhcpError,
>)
    requires
        from <= to <= template@.len(),
    ensures
        told(r, strict_rendering(template@.subrange(from as int, to as int), context_bindings(*context))),
{
    render_strict(template.substring_char(from, to), context)
}

} // verus!
