//! The scripts that the benchmark runs and the requests that carry them.

use vstd::prelude::*;
use vstd::string::*;
use crate::backend::{backend_display_name, display_name, ContainmentBackend};
use crate::escape::{
    is_calm, json_escape, json_escape_reads_back, json_escaped, json_meaning, json_plain, json_writable,
    lemma_calm_concat, lemma_python_escaped_calm, lemma_python_escaped_writable, lemma_shell_keeps_calm,
    python_escape, python_escape_reads_back, python_escaped, python_meaning, python_plain, shell_reads, unescaped,
};
use crate::request::{ExecutionRequest, WslcConfig};
use crate::scan::split_once;
use crate::text::{
    lemma_replaced_absent, lemma_replaced_once, lower_ascii, replace_char, same_text,
};

verus! {

/// Python source of the workload "hello": next to nothing.
pub const HELLO_PY: &'static str = "import sys, time; t0=time.time(); print(f'Hello from library bench! Python {sys.version}'); print(f'ELAPSED_GUEST_MS={int((time.time()-t0)*1000)}')";

/// Python source of the workload "compute": rendering a template with jinja2. The Hyperlight
/// snapshot has jinja2 imported already, NanVix must import it first, and WSLc does not have it.
pub const COMPUTE_PY: &'static str = r#"import time
t0 = time.time()
from jinja2 import Template
t_import = (time.time() - t0) * 1000
tmpl = Template('<html><body><h1>{{ title }}</h1><table>{% for row in data %}<tr><td>{{ row.name }}</td><td>{{ row.value }}</td><td>{{ row.status }}</td></tr>{% endfor %}</table><p>Total: {{ count }} rows, sum={{ total }}</p></body></html>')
data = []
for i in range(10000):
    v = round((i * 17 % 997) / 10.0, 2)
    s = 'active' if i % 3 else 'inactive'
    data.append({'name': 'item_' + str(i), 'value': v, 'status': s})
total = round(sum(d['value'] for d in data), 2)
output = tmpl.render(title='Benchmark Report', data=data, count=len(data), total=total)
elapsed_ms = (time.time() - t0) * 1000
print(f'jinja2: {len(data)} rows, {len(output)} chars, import={t_import:.0f}ms, total={elapsed_ms:.0f}ms')
print(f'ELAPSED_GUEST_MS={int(elapsed_ms)}')"#;

/// The source of a workload, if there is one of that name.
pub open spec fn workload_source(name: Seq<char>) -> Option<&'static str> {
    if name == "hello"@ {
        Some(HELLO_PY)
    } else if name == "compute"@ {
        Some(COMPUTE_PY)
    } else {
        None
    }
}

/// The Python source of a workload, if there is one of that name.
pub fn workload_py_src(name: &str) -> (r: Option<&'static str>)
    ensures
        match workload_source(name@) {
            Some(s) => r is Some && r->0@ == s@,
            None => r is None,
        },
{
    if same_text(name, "hello") {
        Some(HELLO_PY)
    } else if same_text(name, "compute") {
        Some(COMPUTE_PY)
    } else {
        None
    }
}

/// What to tell someone who asks for a workload that does not exist.
pub fn unknown_workload_message(name: &str) -> (r: String)
    ensures
        r@ == "Unknown workload '"@ + name@ + "'; expected: hello, compute"@,
{
    let mut m = String::from_str("Unknown workload '");
    m.append(name);
    m.append("'; expected: hello, compute");
    m
}

/// How a backend is told to run Python source. WSLc takes a command line for a shell; the others
/// take the source itself.
pub open spec fn script_for(backend: ContainmentBackend, source: Seq<char>) -> Seq<char> {
    if backend is Wslc {
        "python3 -c \"exec('"@ + python_escaped(source) + "')\""@
    } else {
        source
    }
}

/// How a backend is told to run Python source.
pub fn script_code(backend: &ContainmentBackend, source: &str) -> (r: String)
    ensures
        r@ == script_for(*backend, source@),
{
    match backend {
        ContainmentBackend::Wslc => {
            let escaped = python_escape(source);
            let mut code = String::from_str("python3 -c \"exec('");
            code.append(escaped.as_str());
            code.append("')\"");
            code
        },
        _ => String::from_str(source),
    }
}

/// Whether `r` asks `backend` to run `script`, in a container of the given id, with `image` if the
/// backend is WSLc.
pub open spec fn is_bench_request(
    r: ExecutionRequest,
    backend: ContainmentBackend,
    container_id: Seq<char>,
    script: Seq<char>,
    image: Seq<char>,
) -> bool {
    &&& r.schema_version@ == "0.8.0"@
    &&& r.container_id@ == container_id
    &&& r.script_code@ == script
    &&& r.script_timeout == 30000
    &&& r.containment == backend
    &&& r.experimental_enabled
    &&& backend is Wslc ==> r.wslc is Some && r.wslc->0.image@ == image
    &&& !(backend is Wslc) ==> r.wslc is None
}

fn bench_request(
    backend: &ContainmentBackend,
    container_id: String,
    script: String,
    image: &str,
) -> (r: ExecutionRequest)
    ensures
        is_bench_request(r, *backend, container_id@, script@, image@),
{
    ExecutionRequest {
        schema_version: String::from_str("0.8.0"),
        container_id,
        script_code: script,
        script_timeout: 30000,
        containment: *backend,
        experimental_enabled: true,
        wslc: match backend {
            ContainmentBackend::Wslc => Some(WslcConfig { image: String::from_str(image) }),
            _ => None,
        },
    }
}

/// The request that runs a workload on a backend, which goes by `wire_name` in requests. There is
/// none if there is no workload of that name.
pub fn make_request(
    backend: &ContainmentBackend,
    wire_name: &str,
    wslc_image: &str,
    workload: &str,
) -> (r: Option<ExecutionRequest>)
    ensures
        match workload_source(workload@) {
            Some(source) => r is Some && is_bench_request(
                r->0,
                *backend,
                "bench-lib-"@ + wire_name@,
                script_for(*backend, source@),
                wslc_image@,
            ),
            None => r is None,
        },
{
    match workload_py_src(workload) {
        Some(source) => {
            let script = script_code(backend, source);
            let mut id = String::from_str("bench-lib-");
            id.append(wire_name);
            Some(bench_request(backend, id, script, wslc_image))
        },
        None => None,
    }
}

/// What makes a WSLc container print how much memory it uses.
pub const CGROUP_PROBE: &'static str =
    " ; echo __CGROUP_MEM__=$(cat /sys/fs/cgroup/memory.current 2>/dev/null || cat /sys/fs/cgroup/memory/memory.usage_in_bytes 2>/dev/null || echo 0)";

/// The request that the density test runs: the workload, and on WSLc after it the memory probe.
pub fn density_request(
    backend: &ContainmentBackend,
    wire_name: &str,
    wslc_image: &str,
    workload: &str,
) -> (r: Option<ExecutionRequest>)
    ensures
        match workload_source(workload@) {
            Some(source) => r is Some && is_bench_request(
                r->0,
                *backend,
                "bench-lib-"@ + wire_name@,
                if *backend is Wslc {
                    script_for(*backend, source@) + CGROUP_PROBE@
                } else {
                    source@
                },
                wslc_image@,
            ),
            None => r is None,
        },
{
    match workload_py_src(workload) {
        Some(source) => {
            let mut script = script_code(backend, source);
            match backend {
                ContainmentBackend::Wslc => {
                    script.append(CGROUP_PROBE);
                },
                _ => {},
            }
            let mut id = String::from_str("bench-lib-");
            id.append(wire_name);
            Some(bench_request(backend, id, script, wslc_image))
        },
        None => None,
    }
}

/// The request that makes a WSLc container print the size of its root file system.
pub fn image_size_request(wslc_image: &str) -> (r: ExecutionRequest)
    ensures
        is_bench_request(
            r,
            ContainmentBackend::Wslc,
            "bench-disk-wslc"@,
            "du -sx / 2>/dev/null | head -1"@,
            wslc_image@,
        ),
{
    bench_request(
        &ContainmentBackend::Wslc,
        String::from_str("bench-disk-wslc"),
        String::from_str("du -sx / 2>/dev/null | head -1"),
        wslc_image,
    )
}

/// The command that a cold start runs in a WSLc container. Source of a single line is handed to
/// Python as it stands; what has line breaks goes as in any other request.
pub open spec fn cold_script(source: Seq<char>) -> Seq<char> {
    if source.contains('\n') {
        script_for(ContainmentBackend::Wslc, source)
    } else {
        "python3 -c \""@ + source + "\""@
    }
}

/// The command line in a cold-start configuration for WSLc, as it stands in the JSON.
pub open spec fn cold_command(source: Seq<char>) -> Seq<char> {
    json_escaped(cold_script(source))
}

fn cold_script_code(source: &str) -> (r: String)
    ensures
        r@ == cold_script(source@),
{
    if split_once(source, '\n').is_some() {
        script_code(&ContainmentBackend::Wslc, source)
    } else {
        let mut command = String::from_str("python3 -c \"");
        command.append(source);
        command.append("\"");
        command
    }
}

/// The program that the shell of a WSLc container hands to Python.
pub open spec fn wslc_program(source: Seq<char>) -> Seq<char> {
    "exec('"@ + python_escaped(source) + "')"@
}

/// Whether neither a shell between double quotes nor Python between single ones makes anything else
/// of `c`, once it is escaped for Python.
pub open spec fn shell_writable(c: char) -> bool {
    c != '"' && c != '$' && c != '`' && c != '\\' && c != '\r' && c != '\0'
}

/// The command that a WSLc container gets runs the source, line breaks and blocks included: the
/// shell reads the program between the double quotes as it stands, and Python reads the source back
/// out of the literal in it. It holds of every source without double quotes, dollar signs,
/// backquotes, backslashes, carriage returns and null characters.
pub proof fn wslc_script_runs_the_source(source: Seq<char>)
    requires
        forall|i: int| 0 <= i < source.len() ==> shell_writable(#[trigger] source[i]),
    ensures
        script_for(ContainmentBackend::Wslc, source) == "python3 -c \""@ + wslc_program(source)
            + "\""@,
        shell_reads(wslc_program(source)) == Some(wslc_program(source)),
        unescaped(
            python_escaped(source),
            |c: char| python_meaning(c),
            |c: char| python_plain(c),
        ) == Some(source),
{
    reveal_strlit("python3 -c \"exec('");
    reveal_strlit("python3 -c \"");
    reveal_strlit("exec('");
    reveal_strlit("')\"");
    reveal_strlit("')");
    reveal_strlit("\"");
    let literal = python_escaped(source);
    assert(script_for(ContainmentBackend::Wslc, source) =~= "python3 -c \""@ + wslc_program(source)
        + "\""@);
    lemma_python_escaped_calm(source);
    assert(is_calm("exec('"@));
    assert(is_calm("')"@));
    lemma_calm_concat("exec('"@, literal);
    lemma_calm_concat("exec('"@ + literal, "')"@);
    lemma_shell_keeps_calm(wslc_program(source));
    python_escape_reads_back(source);
}

/// The command of a cold start in a WSLc container runs the source as well: source of a single line
/// is what the shell reads between the double quotes, and any other goes as in other requests.
pub proof fn cold_script_runs_the_source(source: Seq<char>)
    requires
        forall|i: int| 0 <= i < source.len() ==> shell_writable(#[trigger] source[i]),
    ensures
        if source.contains('\n') {
            cold_script(source) == "python3 -c \""@ + wslc_program(source) + "\""@
                && shell_reads(wslc_program(source)) == Some(wslc_program(source))
        } else {
            cold_script(source) == "python3 -c \""@ + source + "\""@ && shell_reads(source) == Some(
                source,
            )
        },
{
    wslc_script_runs_the_source(source);
    if !source.contains('\n') {
        assert(is_calm(source)) by {
            assert(forall|i: int| 0 <= i < source.len() ==> shell_writable(#[trigger] source[i]));
        }
        lemma_shell_keeps_calm(source);
    }
}

/// The JSON of a cold-start configuration for WSLc reads back as the command, for every source whose
/// control characters are newlines, carriage returns and tabs.
pub proof fn cold_command_reads_back(source: Seq<char>)
    requires
        forall|i: int| 0 <= i < source.len() ==> json_writable(#[trigger] source[i]),
    ensures
        unescaped(cold_command(source), |c: char| json_meaning(c), |c: char| json_plain(c)) == Some(
            cold_script(source),
        ),
{
    reveal_strlit("python3 -c \"exec('");
    reveal_strlit("python3 -c \"");
    reveal_strlit("\"");
    reveal_strlit("')\"");
    lemma_python_escaped_writable(source);
    json_escape_reads_back(cold_script(source));
}

/// The workload "hello" is a single line of which neither JSON, nor a shell, nor Python makes
/// anything else.
pub proof fn hello_can_be_sent()
    ensures
        forall|i: int| 0 <= i < HELLO_PY@.len() ==> json_writable(#[trigger] HELLO_PY@[i]),
        forall|i: int| 0 <= i < HELLO_PY@.len() ==> shell_writable(#[trigger] HELLO_PY@[i]),
        !HELLO_PY@.contains('\n'),
{
    reveal_strlit(
        "import sys, time; t0=time.time(); print(f'Hello from library bench! Python {sys.version}'); print(f'ELAPSED_GUEST_MS={int((time.time()-t0)*1000)}')",
    );
}

/// The workload "compute" has line breaks, and neither JSON, nor a shell, nor Python makes anything
/// else of it.
pub proof fn compute_can_be_sent()
    ensures
        forall|i: int| 0 <= i < COMPUTE_PY@.len() ==> json_writable(#[trigger] COMPUTE_PY@[i]),
        forall|i: int| 0 <= i < COMPUTE_PY@.len() ==> shell_writable(#[trigger] COMPUTE_PY@[i]),
        COMPUTE_PY@.contains('\n'),
{
    reveal_strlit(
        r#"import time
t0 = time.time()
from jinja2 import Template
t_import = (time.time() - t0) * 1000
tmpl = Template('<html><body><h1>{{ title }}</h1><table>{% for row in data %}<tr><td>{{ row.name }}</td><td>{{ row.value }}</td><td>{{ row.status }}</td></tr>{% endfor %}</table><p>Total: {{ count }} rows, sum={{ total }}</p></body></html>')
data = []
for i in range(10000):
    v = round((i * 17 % 997) / 10.0, 2)
    s = 'active' if i % 3 else 'inactive'
    data.append({'name': 'item_' + str(i), 'value': v, 'status': s})
total = round(sum(d['value'] for d in data), 2)
output = tmpl.render(title='Benchmark Report', data=data, count=len(data), total=total)
elapsed_ms = (time.time() - t0) * 1000
print(f'jinja2: {len(data)} rows, {len(output)} chars, import={t_import:.0f}ms, total={elapsed_ms:.0f}ms')
print(f'ELAPSED_GUEST_MS={int(elapsed_ms)}')"#,
    );
    assert(COMPUTE_PY@[11] == '\n');
}

/// The cold-start configuration of a backend for Python source.
pub open spec fn cold_config(
    backend: ContainmentBackend,
    image: Seq<char>,
    source: Seq<char>,
) -> Seq<char> {
    match backend {
        ContainmentBackend::Hyperlight => "{\"process\":{\"commandLine\":\""@ + json_escaped(source)
            + "\",\"timeout\":30000},\"containment\":\"hyperlight\"}"@,
        ContainmentBackend::MicroVm => "{\"process\":{\"commandLine\":\""@ + json_escaped(source)
            + "\",\"timeout\":30000},\"containment\":\"microvm\"}"@,
        ContainmentBackend::Wslc => "{\"version\":\"0.8.0\",\"containerId\":\"bench-cold-wslc\",\"containment\":\"wslc\",\"process\":{\"commandLine\":\""@
            + cold_command(source)
            + "\",\"timeout\":30000},\"network\":{\"defaultPolicy\":\"block\"},\"experimental\":{\"wslc\":{\"image\":\""@
            + image + "\"}}}"@,
        ContainmentBackend::Other => Seq::empty(),
    }
}

/// The text of the configuration that a cold start runs Python source with.
pub fn cold_config_json(backend: &ContainmentBackend, wslc_image: &str, source: &str) -> (r: String)
    ensures
        r@ == cold_config(*backend, wslc_image@, source@),
{
    match backend {
        ContainmentBackend::Hyperlight => {
            let escaped = json_escape(source);
            let mut out = String::from_str("{\"process\":{\"commandLine\":\"");
            out.append(escaped.as_str());
            out.append("\",\"timeout\":30000},\"containment\":\"hyperlight\"}");
            out
        },
        ContainmentBackend::MicroVm => {
            let escaped = json_escape(source);
            let mut out = String::from_str("{\"process\":{\"commandLine\":\"");
            out.append(escaped.as_str());
            out.append("\",\"timeout\":30000},\"containment\":\"microvm\"}");
            out
        },
        ContainmentBackend::Wslc => {
            let script = cold_script_code(source);
            let command = json_escape(script.as_str());
            let mut out = String::from_str(
                "{\"version\":\"0.8.0\",\"containerId\":\"bench-cold-wslc\",\"containment\":\"wslc\",\"process\":{\"commandLine\":\"",
            );
            out.append(command.as_str());
            out.append(
                "\",\"timeout\":30000},\"network\":{\"defaultPolicy\":\"block\"},\"experimental\":{\"wslc\":{\"image\":\"",
            );
            out.append(wslc_image);
            out.append("\"}}}");
            out
        },
        ContainmentBackend::Other => String::new(),
    }
}

/// The name of the file with the cold-start configuration of a backend.
pub open spec fn cold_file_name(backend: ContainmentBackend) -> &'static str {
    match backend {
        ContainmentBackend::Hyperlight => "cold_hyperlight.json",
        ContainmentBackend::MicroVm => "cold_nanvix_microvm.json",
        ContainmentBackend::Wslc => "cold_wslc.json",
        ContainmentBackend::Other => "cold_unknown.json",
    }
}

/// The name of the file with the cold-start configuration of a backend: its display name with
/// underscores for spaces, without parentheses and in lowercase.
pub fn cold_config_file_name(backend: &ContainmentBackend) -> (r: String)
    ensures
        r@ == cold_file_name(*backend)@,
{
    let a = replace_char(backend_display_name(backend), ' ', "_");
    let b = replace_char(a.as_str(), '(', "");
    let c = replace_char(b.as_str(), ')', "");
    let name = lower_ascii(c.as_str());
    let mut out = String::from_str("cold_");
    out.append(name.as_str());
    out.append(".json");
    proof {
        let shown = display_name(*backend)@;
        reveal_strlit("cold_");
        reveal_strlit(".json");
        reveal_strlit("_");
        reveal_strlit("");
        if backend is MicroVm {
            reveal_strlit("NanVix (MicroVM)");
            reveal_strlit("cold_nanvix_microvm.json");
            let left = seq!['N', 'a', 'n', 'V', 'i', 'x'];
            let right = seq!['(', 'M', 'i', 'c', 'r', 'o', 'V', 'M', ')'];
            assert(shown =~= left + seq![' '] + right);
            lemma_replaced_once(left, ' ', right, "_"@);
            let inner = seq!['M', 'i', 'c', 'r', 'o', 'V', 'M', ')'];
            assert(a@ =~= left.push('_') + seq!['('] + inner);
            lemma_replaced_once(left.push('_'), '(', inner, ""@);
            let bare = left.push('_') + seq!['M', 'i', 'c', 'r', 'o', 'V', 'M'];
            assert(b@ =~= bare + seq![')'] + Seq::<char>::empty());
            lemma_replaced_once(bare, ')', Seq::<char>::empty(), ""@);
            assert(c@ =~= bare);
        } else {
            reveal_strlit("Hyperlight");
            reveal_strlit("cold_hyperlight.json");
            reveal_strlit("WSLc");
            reveal_strlit("cold_wslc.json");
            reveal_strlit("Unknown");
            reveal_strlit("cold_unknown.json");
            lemma_replaced_absent(shown, ' ', "_"@);
            lemma_replaced_absent(shown, '(', ""@);
            lemma_replaced_absent(shown, ')', ""@);
        }
        assert(out@ =~= cold_file_name(*backend)@);
    }
    out
}

/// Every backend but WSLc runs the source itself, character for character.
pub proof fn other_backends_run_the_source_itself(backend: ContainmentBackend, source: Seq<char>)
    requires
        !(backend is Wslc),
    ensures
        script_for(backend, source).len() == source.len(),
        forall|i: int|
            0 <= i < source.len() ==> #[trigger] script_for(backend, source)[i] == source[i],
        script_for(backend, source) == source,
{
}

/// There are the workloads "hello" and "compute" and no others, and they differ.
pub proof fn there_are_two_workloads(name: Seq<char>)
    ensures
        workload_source(name) is Some <==> name == "hello"@ || name == "compute"@,
        name == "hello"@ ==> (workload_source(name) matches Some(s) && s@ == HELLO_PY@),
        name == "compute"@ ==> (workload_source(name) matches Some(s) && s@ == COMPUTE_PY@),
        "hello"@ != "compute"@,
{
    reveal_strlit("hello");
    reveal_strlit("compute");
    assert("hello"@.len() != "compute"@.len());
}

/// A request says which backend is to run what, for how long at most, and with which image if the
/// backend is WSLc. All requests are alike in the rest.
pub proof fn request_says_what_is_asked(
    r: ExecutionRequest,
    backend: ContainmentBackend,
    container_id: Seq<char>,
    script: Seq<char>,
    image: Seq<char>,
)
    requires
        is_bench_request(r, backend, container_id, script, image),
    ensures
        r.schema_version@ == "0.8.0"@,
        r.container_id@ == container_id,
        r.script_code@ == script,
        r.script_timeout == 30000,
        r.containment == backend,
        r.experimental_enabled,
        r.wslc is Some <==> backend is Wslc,
        r.wslc matches Some(w) ==> w.image@ == image,
{
}

/// The memory probe prints the mark that the reader of its output looks for.
pub proof fn probe_prints_the_mark()
    ensures
        exists|after: Seq<char>|
            CGROUP_PROBE@ == " ; echo "@ + crate::output::CGROUP_MARK@ + #[trigger] (seq!['$'] + after),
{
    reveal_strlit(" ; echo ");
    reveal_strlit("__CGROUP_MEM__=");
    reveal_strlit(
        " ; echo __CGROUP_MEM__=$(cat /sys/fs/cgroup/memory.current 2>/dev/null || cat /sys/fs/cgroup/memory/memory.usage_in_bytes 2>/dev/null || echo 0)",
    );
    let head = " ; echo "@ + "__CGROUP_MEM__="@;
    let after = CGROUP_PROBE@.skip(head.len() as int + 1);
    assert(CGROUP_PROBE@ =~= " ; echo "@ + crate::output::CGROUP_MARK@ + (seq!['$'] + after));
}

/// A cold-start configuration carries the source: between two texts that depend on the backend alone
/// stands a JSON string that reads back as the source, or for WSLc as the command that runs it. It
/// holds of every source whose control characters are newlines, carriage returns and tabs.
pub proof fn cold_config_carries_the_source(
    backend: ContainmentBackend,
    image: Seq<char>,
    source: Seq<char>,
)
    requires
        !(backend is Other),
        forall|i: int| 0 <= i < source.len() ==> json_writable(#[trigger] source[i]),
    ensures
        exists|line: Seq<char>|
            {
                &&& unescaped(line, |c: char| json_meaning(c), |c: char| json_plain(c)) == Some(
                    if backend is Wslc {
                        cold_script(source)
                    } else {
                        source
                    },
                )
                &&& cold_config(backend, image, source) == (match backend {
                    ContainmentBackend::Hyperlight => "{\"process\":{\"commandLine\":\""@
                        + #[trigger] (line + "\",\"timeout\":30000},\"containment\":\""@)
                        + "hyperlight\"}"@,
                    ContainmentBackend::MicroVm => "{\"process\":{\"commandLine\":\""@ + (line
                        + "\",\"timeout\":30000},\"containment\":\""@) + "microvm\"}"@,
                    _ => "{\"version\":\"0.8.0\",\"containerId\":\"bench-cold-wslc\",\"containment\":\"wslc\",\"process\":{\"commandLine\":\""@
                        + line
                        + "\",\"timeout\":30000},\"network\":{\"defaultPolicy\":\"block\"},\"experimental\":{\"wslc\":{\"image\":\""@
                        + image + "\"}}}"@,
                })
            },
{
    let line = if backend is Wslc {
        cold_command(source)
    } else {
        json_escaped(source)
    };
    if backend is Wslc {
        cold_command_reads_back(source);
    } else {
        json_escape_reads_back(source);
    }
    reveal_strlit("\",\"timeout\":30000},\"containment\":\"");
    reveal_strlit("hyperlight\"}");
    reveal_strlit("microvm\"}");
    reveal_strlit("\",\"timeout\":30000},\"containment\":\"hyperlight\"}");
    reveal_strlit("\",\"timeout\":30000},\"containment\":\"microvm\"}");
    let common = line + "\",\"timeout\":30000},\"containment\":\""@;
    if backend is Hyperlight {
        assert(cold_config(backend, image, source) =~= "{\"process\":{\"commandLine\":\""@ + common
            + "hyperlight\"}"@);
    } else if backend is MicroVm {
        assert(cold_config(backend, image, source) =~= "{\"process\":{\"commandLine\":\""@ + common
            + "microvm\"}"@);
    }
}

/// Whatever the source holds, WSLc gets it as one Python literal for `exec`, which reads back as the
/// source. It holds of every source without carriage returns and null characters.
pub proof fn wslc_script_holds_the_source(source: Seq<char>)
    requires
        !source.contains('\r'),
        !source.contains('\0'),
    ensures
        exists|literal: Seq<char>|
            {
                &&& script_for(ContainmentBackend::Wslc, source) == "python3 -c \"exec('"@
                    + #[trigger] (literal + "')\""@)
                &&& unescaped(literal, |c: char| python_meaning(c), |c: char| python_plain(c)) == Some(
                    source,
                )
            },
{
    python_escape_reads_back(source);
    let literal = python_escaped(source);
    assert(script_for(ContainmentBackend::Wslc, source) =~= "python3 -c \"exec('"@ + (literal
        + "')\""@));
}

/// A cold start hands a single line to Python as it stands, and anything else as a request does.
pub proof fn cold_script_depends_on_line_breaks_alone(source: Seq<char>)
    ensures
        source.contains('\n') ==> cold_script(source) == script_for(ContainmentBackend::Wslc, source),
        !source.contains('\n') ==> cold_script(source) == "python3 -c \""@ + source + "\""@,
{
}

} // verus!
