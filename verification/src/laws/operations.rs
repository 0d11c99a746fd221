//! The tools of a description.

use vstd::prelude::*;

use crate::document::{OperationView, ParameterView, PerMethod, RefOrView, SpecView};
use crate::extract::param_info;
use crate::resolve::resolved_parameter;
use crate::tool::{HttpMethod, ToolView};
use crate::toolset::{
    chosen_base_url, method_tools, methods, operation_for, operation_params, path_tools,
    spec_tools, tool_of, tools_of, ConfigView,
};

verus! {

/// For how many of some methods a path has an operation.
pub open spec fn method_operation_count(
    item: PerMethod<OperationView>,
    methods: Seq<HttpMethod>,
) -> nat
    decreases methods.len(),
{
    if methods.len() == 0 {
        0
    } else {
        method_operation_count(item, methods.drop_last()) + if operation_for(
            item,
            methods.last(),
        ) is Some {
            1nat
        } else {
            0nat
        }
    }
}

/// How many operations a path has.
pub open spec fn path_operation_count(path: RefOrView<PerMethod<OperationView>>) -> nat {
    match path {
        RefOrView::Item(item) => method_operation_count(item, methods()),
        RefOrView::Reference(_) => 0,
    }
}

/// How many operations some paths have.
pub open spec fn operation_count(
    paths: Seq<(Seq<char>, RefOrView<PerMethod<OperationView>>)>,
) -> nat
    decreases paths.len(),
{
    if paths.len() == 0 {
        0
    } else {
        operation_count(paths.drop_last()) + path_operation_count(paths.last().1)
    }
}

/// `tool` is that of an operation of a path.
pub open spec fn is_tool_of_path(
    spec: SpecView,
    config: ConfigView,
    path: (Seq<char>, RefOrView<PerMethod<OperationView>>),
    tool: ToolView,
) -> bool {
    path.1 matches RefOrView::Item(item) && (operation_for(item, tool.method) matches Some(
        operation,
    ) && tool == tool_of(spec, config, path.0, tool.method, operation))
}

/// Every method is among those that tools are made for, once.
pub proof fn law_every_method_has_tools(method: HttpMethod)
    ensures
        methods().contains(method),
        methods().no_duplicates(),
{
    let at: int = match method {
        HttpMethod::Get => 0,
        HttpMethod::Post => 1,
        HttpMethod::Put => 2,
        HttpMethod::Patch => 3,
        HttpMethod::Delete => 4,
        HttpMethod::Head => 5,
        HttpMethod::Options => 6,
        HttpMethod::Trace => 7,
    };
    assert(methods()[at] == method);
}

/// The tools of a path for some methods are as many as its operations for them.
proof fn lemma_method_tool_count(
    spec: SpecView,
    config: ConfigView,
    path: Seq<char>,
    item: PerMethod<OperationView>,
    methods: Seq<HttpMethod>,
)
    ensures
        method_tools(spec, config, path, item, methods).len() == method_operation_count(
            item,
            methods,
        ),
    decreases methods.len(),
{
    if methods.len() > 0 {
        lemma_method_tool_count(spec, config, path, item, methods.drop_last());
    }
}

/// The tools of some paths are as many as their operations.
proof fn lemma_tool_count(
    spec: SpecView,
    config: ConfigView,
    paths: Seq<(Seq<char>, RefOrView<PerMethod<OperationView>>)>,
)
    ensures
        tools_of(spec, config, paths).len() == operation_count(paths),
    decreases paths.len(),
{
    if paths.len() > 0 {
        lemma_tool_count(spec, config, paths.drop_last());
        if let RefOrView::Item(item) = paths.last().1 {
            lemma_method_tool_count(spec, config, paths.last().0, item, methods());
        }
    }
}

/// There is one tool for each operation of a description.
pub proof fn law_one_tool_per_operation(spec: SpecView, config: ConfigView)
    ensures
        spec_tools(spec, config).len() == operation_count(spec.paths),
{
    lemma_tool_count(spec, config, spec.paths);
}

/// The tool of an operation is among the tools of its path for the methods.
proof fn lemma_path_tool(
    spec: SpecView,
    config: ConfigView,
    path: Seq<char>,
    item: PerMethod<OperationView>,
    methods: Seq<HttpMethod>,
    at: int,
)
    requires
        0 <= at < methods.len(),
        operation_for(item, methods[at]) is Some,
    ensures
        method_tools(spec, config, path, item, methods).contains(
            tool_of(spec, config, path, methods[at], operation_for(item, methods[at])->Some_0),
        ),
    decreases methods.len(),
{
    let tool = tool_of(spec, config, path, methods[at], operation_for(item, methods[at])->Some_0);
    let front = method_tools(spec, config, path, item, methods.drop_last());
    let all = method_tools(spec, config, path, item, methods);
    if at < methods.len() - 1 {
        lemma_path_tool(spec, config, path, item, methods.drop_last(), at);
        let k = choose|k: int| 0 <= k < front.len() && front[k] == tool;
        assert(all[k] == tool);
    } else {
        assert(all[front.len() as int] == tool);
    }
}

/// The tools of each of some paths are among the tools of all of them.
proof fn lemma_tools_contain(
    spec: SpecView,
    config: ConfigView,
    paths: Seq<(Seq<char>, RefOrView<PerMethod<OperationView>>)>,
    i: int,
    tool: ToolView,
)
    requires
        0 <= i < paths.len(),
        path_tools(spec, config, paths[i]).contains(tool),
    ensures
        tools_of(spec, config, paths).contains(tool),
    decreases paths.len(),
{
    let front = tools_of(spec, config, paths.drop_last());
    let back = path_tools(spec, config, paths.last());
    let all = tools_of(spec, config, paths);
    if i == paths.len() - 1 {
        let k = choose|k: int| 0 <= k < back.len() && back[k] == tool;
        assert(all[front.len() + k] == tool);
    } else {
        lemma_tools_contain(spec, config, paths.drop_last(), i, tool);
        let k = choose|k: int| 0 <= k < front.len() && front[k] == tool;
        assert(all[k] == tool);
    }
}

/// Every operation of a description has its tool.
pub proof fn law_every_operation_has_its_tool(
    spec: SpecView,
    config: ConfigView,
    i: int,
    method: HttpMethod,
)
    requires
        0 <= i < spec.paths.len(),
        spec.paths[i].1 is Item,
        operation_for(spec.paths[i].1->Item_0, method) is Some,
    ensures
        spec_tools(spec, config).contains(
            tool_of(
                spec,
                config,
                spec.paths[i].0,
                method,
                operation_for(spec.paths[i].1->Item_0, method)->Some_0,
            ),
        ),
{
    let path = spec.paths[i];
    let operation = operation_for(path.1->Item_0, method)->Some_0;
    law_every_method_has_tools(method);
    let at = choose|at: int| 0 <= at < methods().len() && methods()[at] == method;
    lemma_path_tool(spec, config, path.0, path.1->Item_0, methods(), at);
    lemma_tools_contain(
        spec,
        config,
        spec.paths,
        i,
        tool_of(spec, config, path.0, method, operation),
    );
}

/// Each tool of a path is that of one of its operations.
proof fn lemma_tool_has_operation(
    spec: SpecView,
    config: ConfigView,
    path: Seq<char>,
    item: PerMethod<OperationView>,
    methods: Seq<HttpMethod>,
    k: int,
)
    requires
        0 <= k < method_tools(spec, config, path, item, methods).len(),
    ensures
        is_tool_of_path(
            spec,
            config,
            (path, RefOrView::Item(item)),
            method_tools(spec, config, path, item, methods)[k],
        ),
    decreases methods.len(),
{
    let front = method_tools(spec, config, path, item, methods.drop_last());
    if k < front.len() {
        lemma_tool_has_operation(spec, config, path, item, methods.drop_last(), k);
        assert(method_tools(spec, config, path, item, methods)[k] == front[k]);
    }
}

/// Each tool of some paths is that of an operation of one of them.
proof fn lemma_tool_has_path(
    spec: SpecView,
    config: ConfigView,
    paths: Seq<(Seq<char>, RefOrView<PerMethod<OperationView>>)>,
    k: int,
) -> (i: int)
    requires
        0 <= k < tools_of(spec, config, paths).len(),
    ensures
        0 <= i < paths.len(),
        is_tool_of_path(spec, config, paths[i], tools_of(spec, config, paths)[k]),
    decreases paths.len(),
{
    let front = tools_of(spec, config, paths.drop_last());
    if k < front.len() {
        lemma_tool_has_path(spec, config, paths.drop_last(), k)
    } else {
        let back = path_tools(spec, config, paths.last());
        assert(tools_of(spec, config, paths)[k] == back[k - front.len()]);
        if let RefOrView::Item(item) = paths.last().1 {
            lemma_tool_has_operation(
                spec,
                config,
                paths.last().0,
                item,
                methods(),
                k - front.len(),
            );
        }
        paths.len() - 1
    }
}

/// Every tool is that of an operation of the description, and has what all tools have
/// in common.
pub proof fn law_every_tool_has_its_operation(spec: SpecView, config: ConfigView, k: int)
    requires
        0 <= k < spec_tools(spec, config).len(),
    ensures
        exists|i: int|
            0 <= i < spec.paths.len() && is_tool_of_path(
                spec,
                config,
                #[trigger] spec.paths[i],
                spec_tools(spec, config)[k],
            ),
        spec_tools(spec, config)[k].client == config.client,
        spec_tools(spec, config)[k].fields == config.fields,
        spec_tools(spec, config)[k].base_url == chosen_base_url(spec, config.base_url),
        spec_tools(spec, config)[k].hidden_params == config.hidden_context,
        spec_tools(spec, config)[k].static_query_params == config.static_query_params,
        spec_tools(spec, config)[k].basic_auth == config.basic_auth,
{
    let i = lemma_tool_has_path(spec, config, spec.paths, k);
    assert(is_tool_of_path(spec, config, spec.paths[i], spec_tools(spec, config)[k]));
}

/// A tool knows every parameter of its operation that is found and is no cookie.
pub proof fn law_every_parameter_is_known(
    spec: SpecView,
    parameters: Seq<RefOrView<ParameterView>>,
    i: int,
)
    requires
        0 <= i < parameters.len(),
        resolved_parameter(spec, parameters[i]) is Some,
        !(resolved_parameter(spec, parameters[i])->Some_0.place is Cookie),
    ensures
        operation_params(spec, parameters).contains(
            param_info(spec, resolved_parameter(spec, parameters[i])->Some_0)->Some_0,
        ),
    decreases parameters.len(),
{
    let info = param_info(spec, resolved_parameter(spec, parameters[i])->Some_0)->Some_0;
    let before = operation_params(spec, parameters.drop_last());
    let all = operation_params(spec, parameters);
    if i < parameters.len() - 1 {
        law_every_parameter_is_known(spec, parameters.drop_last(), i);
        let k = choose|k: int| 0 <= k < before.len() && before[k] == info;
        assert(all[k] == info);
    } else {
        assert(all[before.len() as int] == info);
    }
}

} // verus!
