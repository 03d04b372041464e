//! The dispatcher: from the catalog to the table of tools that are served.
//!
//! Two tools that are served may not share a name: a catalog in which an
//! enabled tool repeats the name of an earlier enabled tool is turned down
//! as a whole. A tool is enabled if the metadata for its kind is present;
//! a tool without it is left out and is no error. An enabled tool with a
//! template that does not compile is left out too, and listed with the
//! reason.

use crate::command::{args_of, command_tool, general_command_template, CommandTool, CommandToolView};
use crate::config::{CommandMetadata, DynamicMCPConfig, HttpMetadata, ToolData, ToolType};
use crate::http::{general_http_method_template, headers_of, http_tool, HttpTool, HttpToolView};
use crate::slots::{SlotError, SlotErrorView};
use rmcp::model::{Implementation, ServerCapabilities, ToolAnnotations};
use serde_json::Value;
use vstd::prelude::*;
use vstd::string::*;

verus! {

/// What carries out the calls of a tool.
pub enum Executor {
    Http(HttpTool),
    Command(CommandTool),
}

/// An `Executor` as the contracts speak of it.
pub enum ExecutorView {
    Http(HttpToolView),
    Command(CommandToolView),
}

impl View for Executor {
    type V = ExecutorView;

    open spec fn view(&self) -> ExecutorView {
        match self {
            Executor::Http(tool) => ExecutorView::Http(tool@),
            Executor::Command(tool) => ExecutorView::Command(tool@),
        }
    }
}

/// What a tool tells its callers about itself.
#[derive(Debug)]
pub struct ToolSchema {
    pub name: String,
    pub description: String,
    pub input_schema: serde_json::Map<String, Value>,
    pub output_schema: Option<serde_json::Map<String, Value>>,
    pub annotations: Option<ToolAnnotations>,
}

/// A `ToolSchema` with strings as their characters.
pub struct ToolSchemaView {
    pub name: Seq<char>,
    pub description: Seq<char>,
    pub input_schema: serde_json::Map<String, Value>,
    pub output_schema: Option<serde_json::Map<String, Value>>,
    pub annotations: Option<ToolAnnotations>,
}

impl View for ToolSchema {
    type V = ToolSchemaView;

    open spec fn view(&self) -> ToolSchemaView {
        ToolSchemaView {
            name: self.name@,
            description: self.description@,
            input_schema: self.input_schema,
            output_schema: self.output_schema,
            annotations: self.annotations,
        }
    }
}

/// One tool of the table: its schema and its executor.
pub struct DispatchEntry {
    pub schema: ToolSchema,
    pub executor: Executor,
}

/// A `DispatchEntry` as the contracts speak of it.
pub struct DispatchEntryView {
    pub schema: ToolSchemaView,
    pub executor: ExecutorView,
}

impl View for DispatchEntry {
    type V = DispatchEntryView;

    open spec fn view(&self) -> DispatchEntryView {
        DispatchEntryView { schema: self.schema@, executor: self.executor@ }
    }
}

/// Puts together the schema of a tool.
pub fn generate_tool_description(
    description: String,
    name: String,
    input_schema: serde_json::Map<String, Value>,
    output_schema: Option<serde_json::Map<String, Value>>,
    annotations: Option<ToolAnnotations>,
) -> (schema: ToolSchema)
    ensures
        schema.name == name,
        schema.description == description,
        schema.input_schema == input_schema,
        schema.output_schema == output_schema,
        schema.annotations == annotations,
{
    ToolSchema { name, description, input_schema, output_schema, annotations }
}

/// The tool has the metadata that its kind asks for.
pub open spec fn enabled(entry: ToolData) -> bool {
    match entry.tool_type {
        ToolType::HTTP => entry.http_metadata is Some,
        ToolType::COMMAND => entry.command_metadata is Some,
    }
}

/// What becomes of one tool definition.
pub enum Admission {
    /// It lacks the metadata for its kind and is left out.
    Disabled,
    /// One of its templates does not compile, and it is left out.
    Excluded(SlotErrorView),
    /// It is served.
    Served(DispatchEntryView),
}

/// The schema of a tool definition: its name and description, and the
/// schemas of the metadata for its kind.
pub open spec fn schema_of(
    entry: ToolData,
    input_schema: serde_json::Map<String, Value>,
    output_schema: Option<serde_json::Map<String, Value>>,
) -> ToolSchemaView {
    ToolSchemaView {
        name: entry.name@,
        description: entry.description@,
        input_schema,
        output_schema,
        annotations: entry.tool_annotations,
    }
}

/// What becomes of the tool definition at position `index` of the catalog.
pub open spec fn admission(index: usize, entry: ToolData) -> Admission {
    match entry.tool_type {
        ToolType::HTTP => match entry.http_metadata {
            None => Admission::Disabled,
            Some(meta) => match http_tool(
                index,
                meta.method,
                meta.url@,
                meta.body.deep_view(),
                headers_of(meta.headers),
            ) {
                Err(fault) => Admission::Excluded(fault),
                Ok(tool) => Admission::Served(
                    DispatchEntryView {
                        schema: schema_of(entry, meta.input_schema, meta.output_schema),
                        executor: ExecutorView::Http(tool),
                    },
                ),
            },
        },
        ToolType::COMMAND => match entry.command_metadata {
            None => Admission::Disabled,
            Some(meta) => match command_tool(
                index,
                meta.command@,
                args_of(meta.args),
                meta.stdin.deep_view(),
            ) {
                Err(fault) => Admission::Excluded(fault),
                Ok(tool) => Admission::Served(
                    DispatchEntryView {
                        schema: schema_of(entry, meta.input_schema, meta.output_schema),
                        executor: ExecutorView::Command(tool),
                    },
                ),
            },
        },
    }
}

/// The tools that are served among the first `n` of the catalog, in the
/// catalog's order.
pub open spec fn served(catalog: Seq<ToolData>, n: nat) -> Seq<DispatchEntryView>
    decreases n,
{
    if n == 0 {
        Seq::empty()
    } else {
        let before = served(catalog, (n - 1) as nat);
        match admission((n - 1) as usize, catalog[n - 1]) {
            Admission::Served(entry) => before.push(entry),
            _ => before,
        }
    }
}

/// The reasons for which tools among the first `n` of the catalog are left
/// out although they are enabled, in the catalog's order.
pub open spec fn excluded(catalog: Seq<ToolData>, n: nat) -> Seq<SlotErrorView>
    decreases n,
{
    if n == 0 {
        Seq::empty()
    } else {
        let before = excluded(catalog, (n - 1) as nat);
        match admission((n - 1) as usize, catalog[n - 1]) {
            Admission::Excluded(fault) => before.push(fault),
            _ => before,
        }
    }
}

/// The enabled tool at `j` repeats the name of the enabled tool at `i`
/// before it.
pub open spec fn repeats(catalog: Seq<ToolData>, i: int, j: int) -> bool {
    &&& 0 <= i < j < catalog.len()
    &&& enabled(catalog[i])
    &&& enabled(catalog[j])
    &&& catalog[i].name@ == catalog[j].name@
}

/// Two enabled tools of the catalog share a name.
pub open spec fn has_duplicate(catalog: Seq<ToolData>) -> bool {
    exists|i: int, j: int| repeats(catalog, i, j)
}

/// Why a catalog is turned down.
#[derive(Debug)]
pub enum CatalogError {
    /// The enabled tool at `second` bears the name of the enabled tool at
    /// `first`.
    DuplicateName { name: String, first: usize, second: usize },
}

/// The views of a sequence of values.
pub open spec fn views<T: View>(items: Seq<T>) -> Seq<T::V> {
    Seq::new(items.len(), |i: int| items[i]@)
}

/// The table of the tools that are served, and the reasons for which
/// enabled tools were left out of it.
pub struct DispatchTable {
    pub entries: Vec<DispatchEntry>,
    pub excluded: Vec<SlotError>,
}

/// A `DispatchTable` as the contracts speak of it.
pub struct DispatchTableView {
    pub entries: Seq<DispatchEntryView>,
    pub excluded: Seq<SlotErrorView>,
}

impl View for DispatchTable {
    type V = DispatchTableView;

    open spec fn view(&self) -> DispatchTableView {
        DispatchTableView { entries: views(self.entries@), excluded: views(self.excluded@) }
    }
}

/// The table that a catalog without duplicate gives.
pub open spec fn routed(catalog: Seq<ToolData>) -> DispatchTableView {
    DispatchTableView {
        entries: served(catalog, catalog.len()),
        excluded: excluded(catalog, catalog.len()),
    }
}

/// `(first, second)` is the first repetition of a name in the catalog: no
/// repetition ends before `second`, and none that ends there starts before
/// `first`.
pub open spec fn first_repetition(catalog: Seq<ToolData>, first: int, second: int) -> bool {
    &&& repeats(catalog, first, second)
    &&& forall|i: int, j: int| #[trigger]
        repeats(catalog, i, j) ==> second < j || (second == j && first <= i)
}

fn is_enabled(entry: &ToolData) -> (yes: bool)
    ensures
        yes == enabled(*entry),
{
    match entry.tool_type {
        ToolType::HTTP => entry.http_metadata.is_some(),
        ToolType::COMMAND => entry.command_metadata.is_some(),
    }
}

/// Looks for the first enabled tool that repeats the name of an earlier
/// enabled tool.
pub fn find_duplicate(catalog: &Vec<ToolData>) -> (r: Option<(usize, usize)>)
    ensures
        match r {
            Some((first, second)) => first_repetition(catalog@, first as int, second as int),
            None => !has_duplicate(catalog@),
        },
{
    let mut j: usize = 0;
    while j < catalog.len()
        invariant
            j <= catalog@.len(),
            forall|a: int, b: int| #[trigger] repeats(catalog@, a, b) ==> j <= b,
        decreases catalog@.len() - j,
    {
        if is_enabled(&catalog[j]) {
            let mut i: usize = 0;
            while i < j
                invariant
                    i <= j < catalog@.len(),
                    enabled(catalog@[j as int]),
                    forall|a: int| #[trigger] repeats(catalog@, a, j as int) ==> i <= a,
                    forall|a: int, b: int| #[trigger] repeats(catalog@, a, b) ==> j <= b,
                decreases j - i,
            {
                if is_enabled(&catalog[i]) && catalog[i].name == catalog[j].name {
                    assert(repeats(catalog@, i as int, j as int));
                    return Some((i, j));
                }
                i = i + 1;
            }
        }
        j = j + 1;
    }
    None
}

/// The position in the catalog of the tool that stands at position `k`
/// among those served of the first `n`.
pub open spec fn source(catalog: Seq<ToolData>, n: nat, k: int) -> int
    decreases n,
{
    if n == 0 {
        -1
    } else if admission((n - 1) as usize, catalog[n - 1]) is Served && k == served(
        catalog,
        (n - 1) as nat,
    ).len() {
        n - 1
    } else {
        source(catalog, (n - 1) as nat, k)
    }
}

/// Every tool that is served stems from an enabled tool of the catalog and
/// bears its name, and the served tools stand in the catalog's order.
pub proof fn lemma_served_from_catalog(catalog: Seq<ToolData>, n: nat, k: int)
    requires
        n <= catalog.len(),
        0 <= k < served(catalog, n).len(),
    ensures
        0 <= source(catalog, n, k) < n,
        enabled(catalog[source(catalog, n, k)]),
        served(catalog, n)[k].schema.name == catalog[source(catalog, n, k)].name@,
        forall|earlier: int|
            0 <= earlier < k ==> #[trigger] source(catalog, n, earlier) < source(catalog, n, k),
    decreases n,
{
    let before = served(catalog, (n - 1) as nat);
    if k < before.len() {
        lemma_served_from_catalog(catalog, (n - 1) as nat, k);
        assert forall|earlier: int| 0 <= earlier < k implies #[trigger] source(
            catalog,
            n,
            earlier,
        ) < source(catalog, n, k) by {
            assert(source(catalog, n, earlier) == source(catalog, (n - 1) as nat, earlier));
        }
    } else {
        assert forall|earlier: int| 0 <= earlier < k implies #[trigger] source(
            catalog,
            n,
            earlier,
        ) < source(catalog, n, k) by {
            lemma_served_from_catalog(catalog, (n - 1) as nat, earlier);
        }
    }
}

/// In the table of a catalog without duplicate, no two tools share a name:
/// a name finds at most one tool.
pub proof fn lemma_names_are_keys(catalog: Seq<ToolData>)
    requires
        !has_duplicate(catalog),
    ensures
        forall|a: int, b: int|
            0 <= a < b < routed(catalog).entries.len() ==> (#[trigger] routed(
                catalog,
            ).entries[a]).schema.name != (#[trigger] routed(catalog).entries[b]).schema.name,
{
    let table = routed(catalog).entries;
    assert forall|a: int, b: int| 0 <= a < b < table.len() implies (#[trigger] table[a]).schema.name
        != (#[trigger] table[b]).schema.name by {
        lemma_served_from_catalog(catalog, catalog.len(), a);
        lemma_served_from_catalog(catalog, catalog.len(), b);
        let i = source(catalog, catalog.len(), a);
        let j = source(catalog, catalog.len(), b);
        if table[a].schema.name == table[b].schema.name {
            assert(repeats(catalog, i, j));
        }
    }
}

impl DispatchTable {
    /// The position of the tool named `name`, if the table holds one.
    pub fn find(&self, name: &str) -> (r: Option<usize>)
        ensures
            match r {
                Some(at) => {
                    &&& at < self@.entries.len()
                    &&& self@.entries[at as int].schema.name == name@
                    &&& forall|i: int| 0 <= i < at ==> self@.entries[i].schema.name != name@
                },
                None => forall|i: int|
                    0 <= i < self@.entries.len() ==> self@.entries[i].schema.name != name@,
            },
    {
        let wanted = String::from_str(name);
        let mut i: usize = 0;
        while i < self.entries.len()
            invariant
                i <= self.entries@.len(),
                wanted@ == name@,
                forall|j: int| 0 <= j < i ==> self@.entries[j].schema.name != name@,
            decreases self.entries@.len() - i,
        {
            if self.entries[i].schema.name == wanted {
                return Some(i);
            }
            i = i + 1;
        }
        None
    }
}

/// The server: the dispatch table and what the server says of itself.
pub struct DynamicMCP {
    pub tool_router: DispatchTable,
    pub instruction: Option<String>,
    pub server_info: Option<Implementation>,
    pub server_capabilities: Option<ServerCapabilities>,
}

fn settle(index: usize, entry: ToolData) -> (r: Option<Result<DispatchEntry, SlotError>>)
    ensures
        match admission(index, entry) {
            Admission::Disabled => r is None,
            Admission::Excluded(fault) => r matches Some(Err(e)) && e@ == fault,
            Admission::Served(view) => r matches Some(Ok(served)) && served@ == view,
        },
{
    let ToolData { name, description, tool_type, http_metadata, command_metadata, tool_annotations } =
        entry;
    match tool_type {
        ToolType::HTTP => {
            let HttpMetadata { url, method, body, headers, input_schema, output_schema } =
                match http_metadata {
                Some(meta) => meta,
                None => {
                    return None;
                },
            };
            match general_http_method_template(index, method, url, body, headers) {
                Err(e) => Some(Err(e)),
                Ok(tool) => {
                    let schema = generate_tool_description(
                        description,
                        name,
                        input_schema,
                        output_schema,
                        tool_annotations,
                    );
                    Some(Ok(DispatchEntry { schema, executor: Executor::Http(tool) }))
                },
            }
        },
        ToolType::COMMAND => {
            let CommandMetadata { command, args, stdin, input_schema, output_schema } =
                match command_metadata {
                Some(meta) => meta,
                None => {
                    return None;
                },
            };
            match general_command_template(index, command, args, stdin) {
                Err(e) => Some(Err(e)),
                Ok(tool) => {
                    let schema = generate_tool_description(
                        description,
                        name,
                        input_schema,
                        output_schema,
                        tool_annotations,
                    );
                    Some(Ok(DispatchEntry { schema, executor: Executor::Command(tool) }))
                },
            }
        },
    }
}

impl DynamicMCP {
    /// Builds the dispatch table from the catalog. A catalog in which two
    /// enabled tools share a name is turned down, with the first such pair.
    /// Otherwise the table holds, in the catalog's order, every enabled tool
    /// whose templates compile, and lists the others with the reason.
    pub fn tool_router(tool_data: Vec<ToolData>) -> (r: Result<DispatchTable, CatalogError>)
        ensures
            has_duplicate(tool_data@) <==> r is Err,
            match r {
                Ok(table) => table@ == routed(tool_data@),
                Err(CatalogError::DuplicateName { name, first, second }) => first_repetition(
                    tool_data@,
                    first as int,
                    second as int,
                ) && name@ == tool_data@[second as int].name@,
            },
    {
        match find_duplicate(&tool_data) {
            Some((first, second)) => {
                return Err(
                    CatalogError::DuplicateName { name: tool_data[second].name.clone(), first, second },
                );
            },
            None => {},
        }
        let ghost catalog = tool_data@;
        let total: usize = tool_data.len();
        let mut rest = tool_data;
        let mut entries: Vec<DispatchEntry> = Vec::new();
        let mut left_out: Vec<SlotError> = Vec::new();
        let mut index: usize = 0;
        while rest.len() > 0
            invariant
                index + rest@.len() == catalog.len() == total,
                rest@ =~= catalog.subrange(index as int, catalog.len() as int),
                views(entries@) =~= served(catalog, index as nat),
                views(left_out@) =~= excluded(catalog, index as nat),
            decreases rest@.len(),
        {
            let entry = rest.remove(0);
            assert(entry == catalog[index as int]);
            let ghost shown = views(entries@);
            let ghost listed = views(left_out@);
            match settle(index, entry) {
                None => {},
                Some(Err(e)) => {
                    left_out.push(e);
                    assert(views(left_out@) =~= listed.push(e@));
                },
                Some(Ok(served)) => {
                    entries.push(served);
                    assert(views(entries@) =~= shown.push(served@));
                },
            }
            index = index + 1;
        }
        Ok(DispatchTable { entries, excluded: left_out })
    }

    /// The server that a configuration describes: the dispatch table of its
    /// catalog, and its instruction, server information and capabilities as
    /// they are. A catalog with a duplicate name is turned down.
    pub fn new(config: DynamicMCPConfig) -> (r: Result<DynamicMCP, CatalogError>)
        ensures
            has_duplicate(config.tools@) <==> r is Err,
            match r {
                Ok(server) => {
                    &&& server.tool_router@ == routed(config.tools@)
                    &&& server.instruction == config.instruction
                    &&& server.server_info == config.server_info
                    &&& server.server_capabilities == config.server_capabilities
                },
                Err(CatalogError::DuplicateName { name, first, second }) => first_repetition(
                    config.tools@,
                    first as int,
                    second as int,
                ) && name@ == config.tools@[second as int].name@,
            },
    {
        let DynamicMCPConfig { tools, instruction, server_info, server_capabilities, transport_config: _ } =
            config;
        match Self::tool_router(tools) {
            Ok(tool_router) => Ok(
                DynamicMCP { tool_router, instruction, server_info, server_capabilities },
            ),
            Err(e) => Err(e),
        }
    }
}

} // verus!
