//! What a call of a tool sends.

use vstd::prelude::*;

use crate::json::JsonView;
use crate::text::replaced;
use crate::tool::{
    arg_text, args_at, call_args, filled_path, path_text, planned, ParamInfoView, ParamLocation,
    ToolView,
};

verus! {

/// A call has every argument that it was given, also under the name of a hidden
/// parameter.
pub proof fn law_given_arguments_win(
    hidden: Map<Seq<char>, Seq<char>>,
    members: Map<Seq<char>, JsonView>,
    name: Seq<char>,
)
    requires
        members.contains_key(name),
    ensures
        call_args(hidden, JsonView::Object(members)).contains_key(name),
        call_args(hidden, JsonView::Object(members))[name] == members[name],
{
}

/// A call has every hidden parameter that it was not given.
pub proof fn law_hidden_params_are_filled_in(
    hidden: Map<Seq<char>, Seq<char>>,
    args: JsonView,
    name: Seq<char>,
)
    requires
        hidden.contains_key(name),
        args matches JsonView::Object(members) ==> !members.contains_key(name),
    ensures
        call_args(hidden, args).contains_key(name),
        call_args(hidden, args)[name] == JsonView::String(hidden[name]),
{
}

/// A call has nothing else.
pub proof fn law_no_other_arguments(
    hidden: Map<Seq<char>, Seq<char>>,
    args: JsonView,
    name: Seq<char>,
)
    requires
        call_args(hidden, args).contains_key(name),
    ensures
        hidden.contains_key(name) || (args is Object && args->Object_0.contains_key(name)),
{
}

/// Arguments that are no object count as none.
pub proof fn law_only_objects_are_arguments(tool: ToolView, args: JsonView)
    requires
        !(args is Object),
    ensures
        planned(tool, args) == planned(tool, JsonView::Object(Map::empty())),
{
    assert(call_args(tool.hidden_params, args) =~= call_args(
        tool.hidden_params,
        JsonView::Object(Map::empty()),
    ));
}

/// An argument for a parameter of one place goes there.
proof fn lemma_args_at(
    location: ParamLocation,
    params: Seq<ParamInfoView>,
    args: Map<Seq<char>, JsonView>,
    i: int,
)
    requires
        0 <= i < params.len(),
        params[i].location == location,
        args.contains_key(params[i].name),
    ensures
        args_at(location, params, args).contains(
            (params[i].name, arg_text(args[params[i].name])),
        ),
    decreases params.len(),
{
    let pair = (params[i].name, arg_text(args[params[i].name]));
    let before = args_at(location, params.drop_last(), args);
    let all = args_at(location, params, args);
    if i < params.len() - 1 {
        lemma_args_at(location, params.drop_last(), args, i);
        let k = choose|k: int| 0 <= k < before.len() && before[k] == pair;
        assert(all[k] == pair);
    } else {
        assert(all[before.len() as int] == pair);
    }
}

/// What goes to a place is an argument for a parameter of that place.
proof fn lemma_args_at_only(
    location: ParamLocation,
    params: Seq<ParamInfoView>,
    args: Map<Seq<char>, JsonView>,
    k: int,
) -> (i: int)
    requires
        0 <= k < args_at(location, params, args).len(),
    ensures
        0 <= i < params.len(),
        params[i].location == location,
        args.contains_key(params[i].name),
        args_at(location, params, args)[k] == (params[i].name, arg_text(args[params[i].name])),
    decreases params.len(),
{
    let before = args_at(location, params.drop_last(), args);
    if k < before.len() {
        assert(args_at(location, params, args)[k] == before[k]);
        lemma_args_at_only(location, params.drop_last(), args, k)
    } else {
        params.len() - 1
    }
}

/// An argument for a query or header parameter is sent as such.
pub proof fn law_arguments_are_sent(tool: ToolView, args: JsonView, i: int)
    requires
        0 <= i < tool.parameters.len(),
        call_args(tool.hidden_params, args).contains_key(tool.parameters[i].name),
    ensures
        tool.parameters[i].location is Query ==> planned(tool, args).query.contains(
            (
                tool.parameters[i].name,
                arg_text(call_args(tool.hidden_params, args)[tool.parameters[i].name]),
            ),
        ),
        tool.parameters[i].location is Header ==> planned(tool, args).headers.contains(
            (
                tool.parameters[i].name,
                arg_text(call_args(tool.hidden_params, args)[tool.parameters[i].name]),
            ),
        ),
{
    let all = call_args(tool.hidden_params, args);
    let name = tool.parameters[i].name;
    if tool.parameters[i].location is Query {
        lemma_args_at(ParamLocation::Query, tool.parameters, all, i);
        let pairs = args_at(ParamLocation::Query, tool.parameters, all);
        let k = choose|k: int| 0 <= k < pairs.len() && pairs[k] == (name, arg_text(all[name]));
        assert(planned(tool, args).query[k] == pairs[k]);
    }
    if tool.parameters[i].location is Header {
        lemma_args_at(ParamLocation::Header, tool.parameters, all, i);
    }
}

/// Every header field that a call adds to those that were set is the argument of a
/// header parameter.
pub proof fn law_headers_are_arguments(tool: ToolView, args: JsonView, k: int)
    requires
        0 <= k < planned(tool, args).headers.len(),
    ensures
        exists|i: int|
            0 <= i < tool.parameters.len() && (#[trigger] tool.parameters[i]).location is Header
                && tool.parameters[i].name == planned(tool, args).headers[k].0,
{
    let i = lemma_args_at_only(
        ParamLocation::Header,
        tool.parameters,
        call_args(tool.hidden_params, args),
        k,
    );
    assert(tool.parameters[i].location is Header);
}

/// Every request has the fixed pairs at the end of its query, the header fields that
/// were set, and the credentials of HTTP Basic authentication, whatever the arguments
/// are.
pub proof fn law_credentials_are_always_sent(tool: ToolView, args: JsonView)
    ensures
        tool.static_query_params.is_suffix_of(planned(tool, args).query),
        planned(tool, args).fields == tool.fields,
        planned(tool, args).basic_auth == tool.basic_auth,
{
    let given = args_at(
        ParamLocation::Query,
        tool.parameters,
        call_args(tool.hidden_params, args),
    );
    assert((given + tool.static_query_params).skip(given.len() as int)
        =~= tool.static_query_params);
}

/// The arguments of one place depend only on the names of the parameters.
proof fn lemma_args_at_same(
    location: ParamLocation,
    params: Seq<ParamInfoView>,
    a: Map<Seq<char>, JsonView>,
    b: Map<Seq<char>, JsonView>,
)
    requires
        forall|i: int|
            0 <= i < params.len() ==> (a.contains_key((#[trigger] params[i]).name)
                <==> b.contains_key(params[i].name)),
        forall|i: int|
            0 <= i < params.len() && a.contains_key((#[trigger] params[i]).name)
                ==> a[params[i].name] == b[params[i].name],
    ensures
        args_at(location, params, a) == args_at(location, params, b),
    decreases params.len(),
{
    if params.len() > 0 {
        let front = params.drop_last();
        assert(forall|i: int| 0 <= i < front.len() ==> (#[trigger] front[i]) == params[i]);
        lemma_args_at_same(location, front, a, b);
        assert(params.last() == params[params.len() - 1]);
    }
}

/// The path depends only on the names of the parameters.
proof fn lemma_filled_path_same(
    template: Seq<char>,
    params: Seq<ParamInfoView>,
    a: Map<Seq<char>, JsonView>,
    b: Map<Seq<char>, JsonView>,
)
    requires
        forall|i: int|
            0 <= i < params.len() ==> (a.contains_key((#[trigger] params[i]).name)
                <==> b.contains_key(params[i].name)),
        forall|i: int|
            0 <= i < params.len() && a.contains_key((#[trigger] params[i]).name)
                ==> a[params[i].name] == b[params[i].name],
    ensures
        filled_path(template, params, a) == filled_path(template, params, b),
    decreases params.len(),
{
    if params.len() > 0 {
        let front = params.drop_last();
        assert(forall|i: int| 0 <= i < front.len() ==> (#[trigger] front[i]) == params[i]);
        lemma_filled_path_same(template, front, a, b);
        assert(params.last() == params[params.len() - 1]);
    }
}

/// A call depends only on the arguments for its parameters, and on the body.
pub proof fn law_only_known_arguments_count(
    tool: ToolView,
    a: Map<Seq<char>, JsonView>,
    b: Map<Seq<char>, JsonView>,
)
    requires
        a.contains_key("body"@) <==> b.contains_key("body"@),
        a.contains_key("body"@) ==> a["body"@] == b["body"@],
        forall|i: int|
            0 <= i < tool.parameters.len() ==> (a.contains_key(
                (#[trigger] tool.parameters[i]).name,
            ) <==> b.contains_key(tool.parameters[i].name)),
        forall|i: int|
            0 <= i < tool.parameters.len() && a.contains_key(
                (#[trigger] tool.parameters[i]).name,
            ) ==> a[tool.parameters[i].name] == b[tool.parameters[i].name],
    ensures
        planned(tool, JsonView::Object(a)) == planned(tool, JsonView::Object(b)),
{
    let with = call_args(tool.hidden_params, JsonView::Object(a));
    let without = call_args(tool.hidden_params, JsonView::Object(b));
    lemma_args_at_same(ParamLocation::Query, tool.parameters, with, without);
    lemma_args_at_same(ParamLocation::Header, tool.parameters, with, without);
    lemma_filled_path_same(tool.path_template, tool.parameters, with, without);
}

/// An argument that is neither for a parameter nor the body changes nothing.
pub proof fn law_unknown_arguments_are_ignored(
    tool: ToolView,
    members: Map<Seq<char>, JsonView>,
    name: Seq<char>,
    value: JsonView,
)
    requires
        name != "body"@,
        forall|i: int|
            0 <= i < tool.parameters.len() ==> (#[trigger] tool.parameters[i]).name != name,
    ensures
        planned(tool, JsonView::Object(members.insert(name, value))) == planned(
            tool,
            JsonView::Object(members),
        ),
{
    law_only_known_arguments_count(tool, members.insert(name, value), members);
}

/// Without path parameters the path is the template.
proof fn lemma_path_kept(
    template: Seq<char>,
    params: Seq<ParamInfoView>,
    args: Map<Seq<char>, JsonView>,
)
    requires
        forall|i: int| 0 <= i < params.len() ==> !((#[trigger] params[i]).location is Path),
    ensures
        filled_path(template, params, args) == template,
    decreases params.len(),
{
    if params.len() > 0 {
        let front = params.drop_last();
        assert(forall|i: int| 0 <= i < front.len() ==> (#[trigger] front[i]) == params[i]);
        lemma_path_kept(template, front, args);
        assert(!(params[params.len() - 1].location is Path));
    }
}

/// A tool without path parameters calls its path as it stands.
pub proof fn law_plain_paths_are_kept(tool: ToolView, args: JsonView)
    requires
        forall|i: int|
            0 <= i < tool.parameters.len() ==> !((#[trigger] tool.parameters[i]).location is Path),
    ensures
        planned(tool, args).url == tool.base_url + tool.path_template,
{
    lemma_path_kept(
        tool.path_template,
        tool.parameters,
        call_args(tool.hidden_params, args),
    );
}

/// A piece of a path template: plain text, or the place of a parameter.
pub ghost enum PathPiece {
    Text(Seq<char>),
    Place(Seq<char>),
}

/// How a piece stands in a template.
pub open spec fn piece_text(piece: PathPiece) -> Seq<char> {
    match piece {
        PathPiece::Text(text) => text,
        PathPiece::Place(name) => "{"@ + name + "}"@,
    }
}

/// The template that is made of some pieces.
pub open spec fn rendered(pieces: Seq<PathPiece>) -> Seq<char>
    decreases pieces.len(),
{
    if pieces.len() == 0 {
        Seq::empty()
    } else {
        piece_text(pieces[0]) + rendered(pieces.skip(1))
    }
}

/// A name without braces.
pub open spec fn is_plain_name(name: Seq<char>) -> bool {
    !name.contains('{') && !name.contains('}')
}

/// The braces in a template are those around the names of parameters.
pub open spec fn are_plain_pieces(pieces: Seq<PathPiece>) -> bool {
    forall|i: int|
        0 <= i < pieces.len() ==> match #[trigger] pieces[i] {
            PathPiece::Text(text) => !text.contains('{'),
            PathPiece::Place(name) => is_plain_name(name),
        }
}

/// There is a path parameter of a name.
pub open spec fn is_path_param(params: Seq<ParamInfoView>, name: Seq<char>) -> bool {
    exists|i: int|
        0 <= i < params.len() && (#[trigger] params[i]).location is Path && params[i].name == name
}

/// The pieces with the arguments in the places of the path parameters.
pub open spec fn filled_pieces(
    pieces: Seq<PathPiece>,
    params: Seq<ParamInfoView>,
    args: Map<Seq<char>, JsonView>,
) -> Seq<PathPiece> {
    pieces.map_values(
        |piece: PathPiece|
            match piece {
                PathPiece::Place(name) => if is_path_param(params, name) {
                    PathPiece::Text(path_text(args, name))
                } else {
                    piece
                },
                PathPiece::Text(_) => piece,
            },
    )
}

/// The pieces with a text in the places of one name.
spec fn with_text(pieces: Seq<PathPiece>, name: Seq<char>, text: Seq<char>) -> Seq<PathPiece> {
    pieces.map_values(
        |piece: PathPiece|
            if piece == PathPiece::Place(name) {
                PathPiece::Text(text)
            } else {
                piece
            },
    )
}

/// Nothing is replaced before the first character of the pattern occurs.
proof fn lemma_replaced_after(
    before: Seq<char>,
    rest: Seq<char>,
    pattern: Seq<char>,
    with: Seq<char>,
)
    requires
        pattern.len() > 0,
        !before.contains(pattern[0]),
    ensures
        replaced(before + rest, pattern, with) == before + replaced(rest, pattern, with),
    decreases before.len(),
{
    let text = before + rest;
    if before.len() == 0 {
        assert(text =~= rest);
        assert(replaced(text, pattern, with) =~= before + replaced(rest, pattern, with));
    } else if text.len() >= pattern.len() {
        assert(before.contains(before[0]));
        assert(text.take(pattern.len() as int)[0] == before[0]);
        let after = before.skip(1);
        assert forall|i: int| 0 <= i < after.len() implies after[i] != pattern[0] by {
            assert(before.contains(before[i + 1]));
        }
        lemma_replaced_after(after, rest, pattern, with);
        assert(text.skip(1) =~= after + rest);
        assert(replaced(text, pattern, with) =~= before + replaced(rest, pattern, with));
    }
}

/// The place of one parameter is no place of another.
proof fn lemma_other_place(name: Seq<char>, other: Seq<char>, rest: Seq<char>)
    requires
        is_plain_name(name),
        is_plain_name(other),
        name != other,
    ensures
        !("{"@ + name + "}"@).is_prefix_of("{"@ + other + "}"@ + rest),
{
    reveal_strlit("{");
    reveal_strlit("}");
    let pattern = "{"@ + name + "}"@;
    let text = "{"@ + other + "}"@ + rest;
    let name_len: int = name.len() as int;
    let other_len: int = other.len() as int;
    if pattern.is_prefix_of(text) {
        assert(pattern =~= text.take(pattern.len() as int));
        assert forall|i: int| 0 <= i < pattern.len() implies pattern[i] == text[i] by {
            assert(text.take(pattern.len() as int)[i] == text[i]);
        }
        if other.len() < name.len() {
            assert(text[other_len + 1] == '}');
            assert(pattern[other_len + 1] == name[other_len]);
            assert(name.contains(name[other_len]));
        } else if name.len() < other.len() {
            assert(pattern[name_len + 1] == '}');
            assert(text[name_len + 1] == other[name_len]);
            assert(other.contains(other[name_len]));
        } else {
            assert forall|i: int| 0 <= i < name.len() implies name[i] == other[i] by {
                assert(pattern[i + 1] == name[i]);
                assert(text[i + 1] == other[i]);
            }
            assert(name =~= other);
        }
    }
}

/// Replacing the place of a name in a template replaces the pieces that are its place.
proof fn lemma_replaced_pieces(pieces: Seq<PathPiece>, name: Seq<char>, text: Seq<char>)
    requires
        are_plain_pieces(pieces),
        is_plain_name(name),
    ensures
        replaced(rendered(pieces), "{"@ + name + "}"@, text) == rendered(
            with_text(pieces, name, text),
        ),
    decreases pieces.len(),
{
    reveal_strlit("{");
    reveal_strlit("}");
    let pattern = "{"@ + name + "}"@;
    assert(pattern[0] == '{');
    if pieces.len() > 0 {
        let rest = pieces.skip(1);
        let tail = rendered(rest);
        assert(are_plain_pieces(rest)) by {
            assert forall|i: int| 0 <= i < rest.len() implies match #[trigger] rest[i] {
                PathPiece::Text(text) => !text.contains('{'),
                PathPiece::Place(name) => is_plain_name(name),
            } by {
                assert(rest[i] == pieces[i + 1]);
            }
        }
        lemma_replaced_pieces(rest, name, text);
        let changed = with_text(pieces, name, text);
        assert(changed.skip(1) =~= with_text(rest, name, text));
        match pieces[0] {
            PathPiece::Text(plain) => {
                lemma_replaced_after(plain, tail, pattern, text);
                assert(changed[0] == pieces[0]);
            },
            PathPiece::Place(other) => {
                let all = rendered(pieces);
                if other == name {
                    assert(all.take(pattern.len() as int) =~= pattern);
                    assert(all.skip(pattern.len() as int) =~= tail);
                    assert(changed[0] == PathPiece::Text(text));
                } else {
                    assert(changed[0] == pieces[0]);
                    lemma_other_place(name, other, tail);
                    let inner = other + "}"@;
                    assert(all =~= "{"@ + inner + tail);
                    assert(all.skip(1) =~= inner + tail);
                    assert(!inner.contains('{')) by {
                        assert forall|i: int| 0 <= i < inner.len() implies inner[i] != '{' by {
                            if i < other.len() {
                                assert(other.contains(other[i]));
                            }
                        }
                    }
                    lemma_replaced_after(inner, tail, pattern, text);
                    assert(seq![all.first()] + (inner + replaced(tail, pattern, text))
                        =~= piece_text(pieces[0]) + replaced(tail, pattern, text));
                    if all.len() >= pattern.len() && all.take(pattern.len() as int) == pattern {
                        assert(pattern.is_prefix_of("{"@ + other + "}"@ + tail));
                    }
                    if all.len() < pattern.len() {
                        assert(replaced(tail, pattern, text) == tail);
                    }
                }
            },
        }
    }
}

/// The places of path parameters, `{name}`, are taken by the arguments, or by nothing
/// where there are none, one parameter after the other.
pub proof fn lemma_filled_path(
    pieces: Seq<PathPiece>,
    params: Seq<ParamInfoView>,
    args: Map<Seq<char>, JsonView>,
)
    requires
        are_plain_pieces(pieces),
        forall|i: int|
            0 <= i < params.len() && (#[trigger] params[i]).location is Path ==> is_plain_name(
                params[i].name,
            ) && !path_text(args, params[i].name).contains('{'),
    ensures
        filled_path(rendered(pieces), params, args) == rendered(
            filled_pieces(pieces, params, args),
        ),
        are_plain_pieces(filled_pieces(pieces, params, args)),
    decreases params.len(),
{
    let filled = filled_pieces(pieces, params, args);
    if params.len() == 0 {
        assert(filled =~= pieces);
    } else {
        let front = params.drop_last();
        let param = params.last();
        assert(forall|i: int| 0 <= i < front.len() ==> (#[trigger] front[i]) == params[i]);
        assert(param == params[params.len() - 1]);
        lemma_filled_path(pieces, front, args);
        let before = filled_pieces(pieces, front, args);
        assert forall|name: Seq<char>| #[trigger] is_path_param(params, name) == (is_path_param(
            front,
            name,
        ) || (param.location is Path && param.name == name)) by {
            if is_path_param(front, name) {
                let i = choose|i: int|
                    0 <= i < front.len() && (#[trigger] front[i]).location is Path && front[i].name
                        == name;
                assert(params[i].location is Path && params[i].name == name);
            }
            if is_path_param(params, name) {
                let i = choose|i: int|
                    0 <= i < params.len() && (#[trigger] params[i]).location is Path
                        && params[i].name == name;
                if i < front.len() {
                    assert(front[i].location is Path && front[i].name == name);
                }
            }
        }
        if param.location is Path {
            lemma_replaced_pieces(before, param.name, path_text(args, param.name));
            assert(filled =~= with_text(before, param.name, path_text(args, param.name)));
        } else {
            assert(filled =~= before);
        }
        assert forall|i: int| 0 <= i < filled.len() implies match #[trigger] filled[i] {
            PathPiece::Text(text) => !text.contains('{'),
            PathPiece::Place(name) => is_plain_name(name),
        } by {
            assert(match before[i] {
                PathPiece::Text(text) => !text.contains('{'),
                PathPiece::Place(name) => is_plain_name(name),
            });
        }
    }
}

/// In the URL of a call, the places of path parameters, `{name}`, are taken by the
/// arguments, or by nothing where there are none. The arguments have no opening brace
/// in them: what is filled in is looked at again for the next parameter.
pub proof fn law_path_params_are_filled_in(
    tool: ToolView,
    args: JsonView,
    pieces: Seq<PathPiece>,
)
    requires
        tool.path_template == rendered(pieces),
        are_plain_pieces(pieces),
        forall|i: int|
            0 <= i < tool.parameters.len() && (#[trigger] tool.parameters[i]).location is Path
                ==> is_plain_name(tool.parameters[i].name) && !path_text(
                call_args(tool.hidden_params, args),
                tool.parameters[i].name,
            ).contains('{'),
    ensures
        planned(tool, args).url == tool.base_url + rendered(
            filled_pieces(pieces, tool.parameters, call_args(tool.hidden_params, args)),
        ),
{
    lemma_filled_path(pieces, tool.parameters, call_args(tool.hidden_params, args));
}

} // verus!
