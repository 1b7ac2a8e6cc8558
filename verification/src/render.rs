//! Rendering of an analysis as Graphviz DOT and as the quick browser viewer.

use vstd::prelude::*;

use crate::analyzer::{call_le, lemma_call_le_total};
use crate::model::{call_order, function_order, Analysis, Call, CallKind, CallModel, Function, FunctionModel};
use crate::order::{
    is_total_preorder, lemma_ranked_order_len, lemma_sort_by_sorted, lemma_sorted_items_views,
    lemma_ranked_order_stable, lemma_sorted_unique, lemma_text_order, rank_order, Ranked, ranked_order, sort_by, sorted_items, text_order,
};
use crate::viewer::{
    VIEWER_CALL_COUNT, VIEWER_FUNCTION_COUNT, VIEWER_HEAD, VIEWER_LOWER_01, VIEWER_LOWER_02, VIEWER_LOWER_03,
    VIEWER_LOWER_04, VIEWER_LOWER_05, VIEWER_LOWER_06, VIEWER_LOWER_07, VIEWER_LOWER_08, VIEWER_NEWLINE,
    VIEWER_SUMMARY_CLOSE, VIEWER_SUMMARY_MIDDLE, VIEWER_SUMMARY_OPEN, VIEWER_UPPER_01, VIEWER_UPPER_02,
};
use crate::text::{
    chars_of, decimal, decimal_text, last_index_between, last_index_of, lemma_decimal_digits, lemma_decimal_len,
    lemma_last_index_of, push_char,
};

verus! {

/// The escape of one character inside a DOT double-quoted string.
pub open spec fn escaped_char(c: char) -> Seq<char> {
    if c == '\\' {
        seq!['\\', '\\']
    } else if c == '"' {
        seq!['\\', '"']
    } else if c == '\n' {
        seq!['\\', 'n']
    } else {
        seq![c]
    }
}

/// A string escaped for a DOT double-quoted string: backslashes doubled,
/// quotes and newlines escaped.
pub open spec fn escaped_dot(s: Seq<char>) -> Seq<char>
    decreases s.len(),
{
    if s.len() == 0 {
        seq![]
    } else {
        escaped_dot(s.drop_last()) + escaped_char(s.last())
    }
}

/// ASCII letters and digits.
pub open spec fn is_ascii_alphanumeric(c: char) -> bool {
    ('0' <= c && c <= '9') || ('a' <= c && c <= 'z') || ('A' <= c && c <= 'Z')
}

/// A file path turned into a cluster identifier: every character that is not
/// an ASCII letter or digit becomes `_`.
pub open spec fn cluster_id_of(value: Seq<char>) -> Seq<char> {
    Seq::new(value.len(), |i: int| if is_ascii_alphanumeric(value[i]) { value[i] } else { '_' })
}

/// Number of leading `/` characters.
pub open spec fn leading_slashes(s: Seq<char>) -> nat
    decreases s.len(),
{
    if s.len() > 0 && s[0] == '/' {
        1 + leading_slashes(s.drop_first())
    } else {
        0
    }
}

/// Number of trailing `/` characters.
pub open spec fn trailing_slashes(s: Seq<char>) -> nat
    decreases s.len(),
{
    if s.len() > 0 && s.last() == '/' {
        1 + trailing_slashes(s.drop_last())
    } else {
        0
    }
}

/// `s` with its leading and trailing `/` characters removed.
pub open spec fn trim_slashes(s: Seq<char>) -> Seq<char> {
    let front = leading_slashes(s);
    let rest = s.subrange(front as int, s.len() as int);
    rest.subrange(0, rest.len() - trailing_slashes(rest))
}

/// Index of the last `/` in `s`, or -1.
pub open spec fn last_slash(s: Seq<char>) -> int {
    crate::text::last_index_of(s, '/')
}

/// The label of a file's cluster: `parent/name` from the last two components
/// of the trimmed path, the name alone without a parent, `source` for an
/// empty path.
pub open spec fn cluster_label_of(file: Seq<char>) -> Seq<char> {
    let trimmed = trim_slashes(file);
    if trimmed.len() == 0 {
        seq!['s', 'o', 'u', 'r', 'c', 'e']
    } else {
        let k = last_slash(trimmed);
        if k < 0 {
            trimmed
        } else {
            let name = trimmed.subrange(k + 1, trimmed.len() as int);
            let rest = trimmed.subrange(0, k);
            let parent = rest.subrange(last_slash(rest) + 1, rest.len() as int);
            parent + seq!['/'] + name
        }
    }
}

/// Sum of bytes, wrapping around at the width of `usize`.
pub open spec fn byte_hash(bytes: Seq<u8>) -> usize
    decreases bytes.len(),
{
    if bytes.len() == 0 {
        0
    } else {
        vstd::wrapping::usize_specs::wrapping_add(byte_hash(bytes.drop_last()), bytes.last() as usize)
    }
}

/// The fill colours of file clusters.
pub open spec fn palette(i: int) -> Seq<char> {
    if i == 0 {
        "#ffffdd"@
    } else if i == 1 {
        "#d9f7d8"@
    } else if i == 2 {
        "#d8ecff"@
    } else if i == 3 {
        "#eadcff"@
    } else {
        "#ffe5c7"@
    }
}

/// The fill colour of a file's cluster, chosen by the sum of the file's
/// UTF-8 bytes.
pub open spec fn cluster_color_of(file: Seq<char>) -> Seq<char> {
    palette((byte_hash(vstd::utf8::encode_utf8(file)) % 5) as int)
}

/// The label of a function node: its name, then `file:line` on a second line.
pub open spec fn function_label_of(f: Function) -> Seq<char> {
    f.name@ + seq!['\n'] + f.file@ + seq![':'] + decimal(f.line as nat)
}

/// The label of a call edge: `file:line`.
pub open spec fn call_label_of(c: Call) -> Seq<char> {
    c.file@ + seq![':'] + decimal(c.line as nat)
}

/// The colour of a call edge.
pub open spec fn call_color_of(kind: CallKind) -> Seq<char> {
    match kind {
        CallKind::Direct => "#934f12"@,
        CallKind::Method => "#1d6f8f"@,
        CallKind::Associated => "#6d4aa1"@,
        CallKind::Unknown => "#6f7888"@,
    }
}

/// The line style of a call edge.
pub open spec fn call_style_of(kind: CallKind) -> Seq<char> {
    match kind {
        CallKind::Direct | CallKind::Associated => "solid"@,
        CallKind::Method => "dashed"@,
        CallKind::Unknown => "dotted"@,
    }
}

/// The first line of a DOT document.
pub const DOT_GRAPH_OPEN: &'static str = "digraph coviz {\n";

/// The graph attributes of a DOT document.
pub const DOT_GRAPH_ATTRIBUTES: &'static str = "  graph [rankdir=LR, bgcolor=\"#dde5f4\", pad=\"0.35\", nodesep=\"0.6\", ranksep=\"1.0\", splines=true, overlap=false, fontname=\"Helvetica\"];\n";

/// The node attributes of a DOT document.
pub const DOT_NODE_ATTRIBUTES: &'static str = "  node [shape=ellipse, style=\"filled\", fillcolor=\"#b9e1ea\", color=\"#111111\", penwidth=1.6, fontname=\"Helvetica\", fontsize=14, margin=\"0.12,0.08\"];\n";

/// The edge attributes of a DOT document.
pub const DOT_EDGE_ATTRIBUTES: &'static str = "  edge [color=\"#934f12\", arrowsize=0.75, penwidth=1.2, fontname=\"Helvetica\", fontsize=10];\n";

/// The opening of a DOT document: its first line and the attribute lines.
pub open spec fn dot_header() -> Seq<char> {
    DOT_GRAPH_OPEN@ + DOT_GRAPH_ATTRIBUTES@ + DOT_NODE_ATTRIBUTES@ + DOT_EDGE_ATTRIBUTES@
}

/// The attributes of a cluster that follow its fill colour.
pub const CLUSTER_TAIL: &'static str = "\", color=\"#333333\", penwidth=1.1, fontname=\"Helvetica-Bold\", fontsize=18, margin=14];\n";

/// The lines that open the cluster of a file.
pub open spec fn cluster_open(file: Seq<char>) -> Seq<char> {
    "  subgraph \"cluster_"@ + escaped_dot(cluster_id_of(file)) + "\" {\n    graph [label=\""@
        + escaped_dot(cluster_label_of(file)) + "\", style=\"filled\", fillcolor=\""@
        + cluster_color_of(file) + CLUSTER_TAIL@
}

/// The node line of a function.
pub open spec fn node_line(f: Function) -> Seq<char> {
    "    \""@ + escaped_dot(f.id@) + "\" [label=\""@ + escaped_dot(function_label_of(f)) + "\"];\n"@
}

/// The edge line of a call.
pub open spec fn edge_line(c: Call) -> Seq<char> {
    "  \""@ + escaped_dot(c.caller@) + "\" -> \""@ + escaped_dot(c.callee@) + "\" [label=\""@
        + escaped_dot(call_label_of(c)) + "\", color=\""@ + call_color_of(c.kind) + "\", style=\""@
        + call_style_of(c.kind) + "\"];\n"@
}

/// What function `i` of the sorted list contributes: the opening of its
/// file's cluster when it is the first of its file, its node, and the
/// closing of the cluster when it is the last of its file.
pub open spec fn function_entry(fs: Seq<Function>, i: int) -> Seq<char> {
    (if i == 0 || fs[i - 1].file@ != fs[i].file@ {
        cluster_open(fs[i].file@)
    } else {
        seq![]
    }) + node_line(fs[i]) + (if i + 1 == fs.len() || fs[i + 1].file@ != fs[i].file@ {
        "  }\n"@
    } else {
        seq![]
    })
}

/// The clusters of the first `n` functions of a sorted list.
pub open spec fn function_entries(fs: Seq<Function>, n: nat) -> Seq<char>
    decreases n,
{
    if n == 0 {
        seq![]
    } else {
        function_entries(fs, (n - 1) as nat) + function_entry(fs, n - 1)
    }
}

/// The edges of the first `n` calls.
pub open spec fn edge_lines(cs: Seq<Call>, n: nat) -> Seq<char>
    decreases n,
{
    if n == 0 {
        seq![]
    } else {
        edge_lines(cs, (n - 1) as nat) + edge_line(cs[n - 1])
    }
}

/// The DOT document of an analysis: functions sorted by file, name, line and
/// id and grouped into one cluster per file; then the calls, sorted by caller,
/// callee, file and line.
pub open spec fn dot_document(a: Analysis) -> Seq<char> {
    let fs = sorted_items(a.functions@);
    let cs = sorted_items(a.calls@);
    dot_header() + function_entries(fs, fs.len()) + edge_lines(cs, cs.len()) + "}\n"@
}

/// Appends `s`, escaped for a DOT string, to `out`.
fn append_escaped(out: &mut String, s: &str)
    ensures
        final(out)@ == old(out)@ + escaped_dot(s@),
{
    let chars = chars_of(s);
    let mut i: usize = 0;
    assert(chars@.subrange(0, 0) =~= Seq::<char>::empty());
    assert(old(out)@ + escaped_dot(Seq::<char>::empty()) =~= old(out)@);
    while i < chars.len()
        invariant
            chars@ == s@,
            i <= chars.len(),
            out@ == old(out)@ + escaped_dot(chars@.subrange(0, i as int)),
        decreases chars.len() - i,
    {
        let c = chars[i];
        if c == '\\' {
            push_char(out, '\\');
            push_char(out, '\\');
        } else if c == '"' {
            push_char(out, '\\');
            push_char(out, '"');
        } else if c == '\n' {
            push_char(out, '\\');
            push_char(out, 'n');
        } else {
            push_char(out, c);
        }
        assert(chars@.subrange(0, i + 1).drop_last() =~= chars@.subrange(0, i as int));
        i = i + 1;
        assert(out@ =~= old(out)@ + escaped_dot(chars@.subrange(0, i as int)));
    }
    assert(chars@.subrange(0, i as int) =~= s@);
}

/// Escapes a string for a DOT double-quoted string.
pub fn escape_dot(value: &str) -> (out: String)
    ensures
        out@ == escaped_dot(value@),
{
    let mut out = String::new();
    append_escaped(&mut out, value);
    assert(out@ =~= escaped_dot(value@));
    out
}

/// The cluster identifier of a file path.
pub fn cluster_id(value: &str) -> (out: String)
    ensures
        out@ == cluster_id_of(value@),
{
    let chars = chars_of(value);
    let mut out = String::new();
    let mut i: usize = 0;
    while i < chars.len()
        invariant
            chars@ == value@,
            i <= chars.len(),
            out@ == cluster_id_of(chars@.subrange(0, i as int)),
        decreases chars.len() - i,
    {
        let c = chars[i];
        if ('0' <= c && c <= '9') || ('a' <= c && c <= 'z') || ('A' <= c && c <= 'Z') {
            push_char(&mut out, c);
        } else {
            push_char(&mut out, '_');
        }
        i = i + 1;
        assert(out@ =~= cluster_id_of(chars@.subrange(0, i as int)));
    }
    assert(chars@.subrange(0, i as int) =~= value@);
    out
}

/// Appends the characters `from..to` of `chars` to `out`.
fn append_range(out: &mut String, chars: &Vec<char>, from: usize, to: usize)
    requires
        from <= to <= chars.len(),
    ensures
        final(out)@ == old(out)@ + chars@.subrange(from as int, to as int),
{
    let mut i = from;
    while i < to
        invariant
            from <= i <= to <= chars.len(),
            out@ == old(out)@ + chars@.subrange(from as int, i as int),
        decreases to - i,
    {
        push_char(out, chars[i]);
        i = i + 1;
        assert(out@ =~= old(out)@ + chars@.subrange(from as int, i as int));
    }
}

/// The bounds of `s` with its leading and trailing `/` removed.
fn trimmed_bounds(chars: &Vec<char>) -> (r: (usize, usize))
    ensures
        r.0 <= r.1 <= chars.len(),
        trim_slashes(chars@) == chars@.subrange(r.0 as int, r.1 as int),
{
    let n = chars.len();
    let mut front: usize = 0;
    assert(chars@.subrange(0, n as int) =~= chars@);
    while front < n && chars[front] == '/'
        invariant
            front <= n == chars.len(),
            leading_slashes(chars@) == front + leading_slashes(chars@.subrange(front as int, n as int)),
        decreases n - front,
    {
        assert(chars@.subrange(front as int, n as int).drop_first() =~= chars@.subrange(front + 1, n as int));
        front = front + 1;
    }
    let ghost rest = chars@.subrange(front as int, n as int);
    let mut back = n;
    assert(rest.subrange(0, (back - front) as int) =~= rest);
    while back > front && chars[back - 1] == '/'
        invariant
            front <= back <= n == chars.len(),
            rest == chars@.subrange(front as int, n as int),
            trailing_slashes(rest) == (n - back) + trailing_slashes(rest.subrange(0, (back - front) as int)),
        decreases back,
    {
        assert(rest.subrange(0, (back - front) as int).drop_last() =~= rest.subrange(0, (back - front - 1) as int));
        back = back - 1;
    }
    assert(rest.subrange(0, rest.len() - trailing_slashes(rest)) =~= chars@.subrange(front as int, back as int));
    (front, back)
}

/// The label of a file's cluster.
pub fn cluster_label(file: &str) -> (out: String)
    ensures
        out@ == cluster_label_of(file@),
{
    let chars = chars_of(file);
    let (front, back) = trimmed_bounds(&chars);
    let ghost trimmed = chars@.subrange(front as int, back as int);
    let mut out = String::new();
    if front == back {
        out.append("source");
        proof {
            reveal_strlit("source");
            assert("source"@ =~= seq!['s', 'o', 'u', 'r', 'c', 'e']);
        }
        return out;
    }
    match last_index_between(&chars, front, back, '/') {
        None => {
            append_range(&mut out, &chars, front, back);
        },
        Some(k) => {
            let ghost rest = trimmed.subrange(0, k - front);
            assert(rest =~= chars@.subrange(front as int, k as int));
            let parent_start = match last_index_between(&chars, front, k, '/') {
                Some(j) => j + 1,
                None => front,
            };
            assert(rest.subrange(parent_start - front, rest.len() as int) =~= chars@.subrange(parent_start as int, k as int));
            assert(trimmed.subrange(k - front + 1, trimmed.len() as int) =~= chars@.subrange(k + 1, back as int));
            append_range(&mut out, &chars, parent_start, k);
            push_char(&mut out, '/');
            append_range(&mut out, &chars, k + 1, back);
        },
    }
    assert(out@ =~= cluster_label_of(file@));
    out
}

/// The fill colour of a file's cluster.
pub fn cluster_color(file: &str) -> (out: &'static str)
    ensures
        out@ == cluster_color_of(file@),
{
    let bytes = file.as_bytes();
    let mut hash: usize = 0;
    let mut i: usize = 0;
    while i < bytes.len()
        invariant
            bytes@ == vstd::utf8::encode_utf8(file@),
            i <= bytes.len(),
            hash == byte_hash(bytes@.subrange(0, i as int)),
        decreases bytes.len() - i,
    {
        hash = hash.wrapping_add(bytes[i] as usize);
        assert(bytes@.subrange(0, i + 1).drop_last() =~= bytes@.subrange(0, i as int));
        i = i + 1;
    }
    assert(bytes@.subrange(0, i as int) =~= bytes@);
    let slot = hash % 5;
    if slot == 0 {
        "#ffffdd"
    } else if slot == 1 {
        "#d9f7d8"
    } else if slot == 2 {
        "#d8ecff"
    } else if slot == 3 {
        "#eadcff"
    } else {
        "#ffe5c7"
    }
}

/// The label of a function node.
pub fn function_label(function: &Function) -> (out: String)
    ensures
        out@ == function_label_of(*function),
{
    let mut out = String::new();
    out.append(function.name.as_str());
    push_char(&mut out, '\n');
    out.append(function.file.as_str());
    push_char(&mut out, ':');
    let line = decimal_text(function.line as u128);
    out.append(line.as_str());
    assert(out@ =~= function_label_of(*function));
    out
}

/// The label of a call edge.
pub fn call_label(call: &Call) -> (out: String)
    ensures
        out@ == call_label_of(*call),
{
    let mut out = String::new();
    out.append(call.file.as_str());
    push_char(&mut out, ':');
    let line = decimal_text(call.line as u128);
    out.append(line.as_str());
    assert(out@ =~= call_label_of(*call));
    out
}

/// The colour of a call edge.
pub fn call_color(call: &Call) -> (out: &'static str)
    ensures
        out@ == call_color_of(call.kind),
{
    match call.kind {
        CallKind::Direct => "#934f12",
        CallKind::Method => "#1d6f8f",
        CallKind::Associated => "#6d4aa1",
        CallKind::Unknown => "#6f7888",
    }
}

/// The line style of a call edge.
pub fn call_style(call: &Call) -> (out: &'static str)
    ensures
        out@ == call_style_of(call.kind),
{
    match call.kind {
        CallKind::Direct | CallKind::Associated => "solid",
        CallKind::Method => "dashed",
        CallKind::Unknown => "dotted",
    }
}

fn append_cluster_open(out: &mut String, file: &str)
    ensures
        final(out)@ == old(out)@ + cluster_open(file@),
{
    out.append("  subgraph \"cluster_");
    let id = cluster_id(file);
    append_escaped(out, id.as_str());
    out.append("\" {\n    graph [label=\"");
    let label = cluster_label(file);
    append_escaped(out, label.as_str());
    out.append("\", style=\"filled\", fillcolor=\"");
    out.append(cluster_color(file));
    out.append(CLUSTER_TAIL);
    assert(out@ =~= old(out)@ + cluster_open(file@));
}

fn append_node_line(out: &mut String, function: &Function)
    ensures
        final(out)@ == old(out)@ + node_line(*function),
{
    out.append("    \"");
    append_escaped(out, function.id.as_str());
    out.append("\" [label=\"");
    let label = function_label(function);
    append_escaped(out, label.as_str());
    out.append("\"];\n");
    assert(out@ =~= old(out)@ + node_line(*function));
}

fn append_edge_line(out: &mut String, call: &Call)
    ensures
        final(out)@ == old(out)@ + edge_line(*call),
{
    out.append("  \"");
    append_escaped(out, call.caller.as_str());
    out.append("\" -> \"");
    append_escaped(out, call.callee.as_str());
    out.append("\" [label=\"");
    let label = call_label(call);
    append_escaped(out, label.as_str());
    out.append("\", color=\"");
    out.append(call_color(call));
    out.append("\", style=\"");
    out.append(call_style(call));
    out.append("\"];\n");
    assert(out@ =~= old(out)@ + edge_line(*call));
}

/// Appends what the function at position `k` of the sorted order contributes.
fn append_function_entry(out: &mut String, functions: &Vec<Function>, order: &Vec<usize>, k: usize)
    requires
        k < order@.len(),
        forall|j: int| 0 <= j < order@.len() ==> order@[j] < functions@.len(),
    ensures
        final(out)@ == old(out)@ + function_entry(
            order@.map_values(|x: usize| functions@[x as int]),
            k as int,
        ),
{
    let ghost fs = order@.map_values(|x: usize| functions@[x as int]);
    let n = order.len();
    let function = &functions[order[k]];
    assert(fs[k as int] == *function);
    let first = if k == 0 {
        true
    } else {
        assert(fs[k - 1] == functions@[order@[k - 1] as int]);
        !(functions[order[k - 1]].file == function.file)
    };
    if first {
        append_cluster_open(out, function.file.as_str());
    }
    append_node_line(out, function);
    let last = if k + 1 == n {
        true
    } else {
        assert(fs[k + 1] == functions@[order@[k + 1] as int]);
        !(functions[order[k + 1]].file == function.file)
    };
    if last {
        out.append("  }\n");
    }
    assert(out@ =~= old(out)@ + function_entry(fs, k as int));
}

/// Renders an analysis graph in Graphviz DOT format.
pub fn render_dot(analysis: &Analysis) -> (out: String)
    ensures
        out@ == dot_document(*analysis),
{
    let functions = &analysis.functions;
    let calls = &analysis.calls;
    let forder = rank_order(functions);
    let corder = rank_order(calls);
    let ghost fs = sorted_items(functions@);
    let ghost cs = sorted_items(calls@);
    proof {
        lemma_ranked_order_len(functions@, functions@.len());
        lemma_ranked_order_len(calls@, calls@.len());
    }
    let mut out = String::new();
    out.append(DOT_GRAPH_OPEN);
    out.append(DOT_GRAPH_ATTRIBUTES);
    out.append(DOT_NODE_ATTRIBUTES);
    out.append(DOT_EDGE_ATTRIBUTES);
    let n = forder.len();
    let mut k: usize = 0;
    while k < n
        invariant
            n == forder@.len() == functions@.len() == fs.len(),
            forder@ == ranked_order(functions@, functions@.len()),
            fs == sorted_items(functions@),
            forall|j: int| 0 <= j < n ==> forder@[j] < n,
            k <= n,
            out@ == dot_header() + function_entries(fs, k as nat),
        decreases n - k,
    {
        append_function_entry(&mut out, functions, &forder, k);
        k = k + 1;
        assert(out@ =~= dot_header() + function_entries(fs, k as nat));
    }
    let m = corder.len();
    let mut k: usize = 0;
    assert(out@ =~= dot_header() + function_entries(fs, fs.len()) + edge_lines(cs, 0));
    while k < m
        invariant
            m == corder@.len() == calls@.len() == cs.len(),
            corder@ == ranked_order(calls@, calls@.len()),
            cs == sorted_items(calls@),
            forall|j: int| 0 <= j < m ==> corder@[j] < m,
            k <= m,
            out@ == dot_header() + function_entries(fs, fs.len()) + edge_lines(cs, k as nat),
        decreases m - k,
    {
        let call = &calls[corder[k]];
        assert(cs[k as int] == *call);
        append_edge_line(&mut out, call);
        k = k + 1;
        assert(out@ =~= dot_header() + function_entries(fs, fs.len()) + edge_lines(cs, k as nat));
    }
    out.append("}\n");
    assert(out@ =~= dot_document(*analysis));
    out
}

/// The browser viewer page, with its count placeholders.
pub open spec fn viewer_template() -> Seq<char> {
    viewer_upper() + viewer_summary() + viewer_lower()
}

/// The viewer page up to its summary line: the first line, the page up to
/// the summary line, and the line break before it.
pub open spec fn viewer_upper() -> Seq<char> {
    VIEWER_HEAD@ + (VIEWER_UPPER_01@ + VIEWER_UPPER_02@ + VIEWER_NEWLINE@)
}

/// The summary line of the viewer page, with its two placeholders.
pub open spec fn viewer_summary() -> Seq<char> {
    VIEWER_SUMMARY_OPEN@ + (VIEWER_FUNCTION_COUNT@ + (VIEWER_SUMMARY_MIDDLE@ + VIEWER_CALL_COUNT@ + VIEWER_SUMMARY_CLOSE@))
}

/// The viewer page after its summary line.
pub open spec fn viewer_lower() -> Seq<char> {
    VIEWER_LOWER_01@ + VIEWER_LOWER_02@ + VIEWER_LOWER_03@ + VIEWER_LOWER_04@ + VIEWER_LOWER_05@ + VIEWER_LOWER_06@
        + VIEWER_LOWER_07@ + VIEWER_LOWER_08@
}

/// Every non-overlapping occurrence of `pattern`, taken from the left,
/// replaced by `with` (as `str::replace` does for a non-empty pattern).
pub open spec fn replaced(s: Seq<char>, pattern: Seq<char>, with: Seq<char>) -> Seq<char>
    decreases s.len(),
{
    if pattern.len() == 0 || s.len() < pattern.len() {
        s
    } else if s.subrange(0, pattern.len() as int) == pattern {
        with + replaced(s.subrange(pattern.len() as int, s.len() as int), pattern, with)
    } else {
        seq![s[0]] + replaced(s.drop_first(), pattern, with)
    }
}

/// The viewer page for an analysis: the template with the number of
/// functions and the number of calls filled in.
pub open spec fn html_document(a: Analysis) -> Seq<char> {
    replaced(
        replaced(viewer_template(), "__FUNCTION_COUNT__"@, decimal(a.functions@.len())),
        "__CALL_COUNT__"@,
        decimal(a.calls@.len()),
    )
}

fn viewer_template_text() -> (out: String)
    ensures
        out@ == viewer_template(),
{
    let mut out = String::new();
    out.append(VIEWER_HEAD);
    out.append(VIEWER_UPPER_01);
    out.append(VIEWER_UPPER_02);
    out.append(VIEWER_NEWLINE);
    out.append(VIEWER_SUMMARY_OPEN);
    out.append(VIEWER_FUNCTION_COUNT);
    out.append(VIEWER_SUMMARY_MIDDLE);
    out.append(VIEWER_CALL_COUNT);
    out.append(VIEWER_SUMMARY_CLOSE);
    out.append(VIEWER_LOWER_01);
    out.append(VIEWER_LOWER_02);
    out.append(VIEWER_LOWER_03);
    out.append(VIEWER_LOWER_04);
    out.append(VIEWER_LOWER_05);
    out.append(VIEWER_LOWER_06);
    out.append(VIEWER_LOWER_07);
    out.append(VIEWER_LOWER_08);
    assert(out@ =~= viewer_template());
    out
}

fn range_equals(s: &Vec<char>, from: usize, pattern: &Vec<char>) -> (r: bool)
    requires
        from + pattern.len() <= s.len(),
    ensures
        r == (s@.subrange(from as int, from + pattern.len()) == pattern@),
{
    let mut i: usize = 0;
    while i < pattern.len()
        invariant
            from + pattern.len() <= s.len(),
            i <= pattern.len(),
            forall|j: int| 0 <= j < i ==> s@[from + j] == pattern@[j],
        decreases pattern.len() - i,
    {
        if s[from + i] != pattern[i] {
            assert(s@.subrange(from as int, from + pattern.len())[i as int] != pattern@[i as int]);
            return false;
        }
        i = i + 1;
    }
    assert(s@.subrange(from as int, from + pattern.len()) =~= pattern@);
    true
}

/// Replaces every non-overlapping occurrence of a non-empty `pattern`.
pub fn replace_all(s: &str, pattern: &str, with: &str) -> (out: String)
    requires
        pattern@.len() > 0,
    ensures
        out@ == replaced(s@, pattern@, with@),
{
    let chars = chars_of(s);
    let pat = chars_of(pattern);
    let n = chars.len();
    let p = pat.len();
    let mut out = String::new();
    let mut i: usize = 0;
    assert(chars@.subrange(0, n as int) =~= chars@);
    while i < n
        invariant
            chars@ == s@,
            pat@ == pattern@,
            n == chars.len(),
            p == pat.len(),
            p > 0,
            i <= n,
            replaced(s@, pattern@, with@) == out@ + replaced(chars@.subrange(i as int, n as int), pattern@, with@),
        decreases n - i,
    {
        let ghost rest = chars@.subrange(i as int, n as int);
        if p <= n - i && range_equals(&chars, i, &pat) {
            assert(rest.subrange(0, p as int) =~= chars@.subrange(i as int, i + p));
            assert(rest.subrange(p as int, rest.len() as int) =~= chars@.subrange(i + p, n as int));
            out.append(with);
            i = i + p;
        } else {
            if p <= n - i {
                assert(rest.subrange(0, p as int) =~= chars@.subrange(i as int, i + p));
            } else {
                assert(rest =~= seq![chars@[i as int]] + chars@.subrange(i + 1, n as int));
            }
            assert(rest.drop_first() =~= chars@.subrange(i + 1, n as int));
            push_char(&mut out, chars[i]);
            i = i + 1;
        }
    }
    assert(chars@.subrange(n as int, n as int) =~= Seq::<char>::empty());
    out
}

/// Renders the browser viewer used by `coviz quick`.
pub fn render_html(analysis: &Analysis) -> (out: String)
    ensures
        out@ == html_document(*analysis),
{
    let template = viewer_template_text();
    let functions = decimal_text(analysis.functions.len() as u128);
    let calls = decimal_text(analysis.calls.len() as u128);
    proof {
        reveal_strlit("__FUNCTION_COUNT__");
        reveal_strlit("__CALL_COUNT__");
    }
    let with_functions = replace_all(template.as_str(), "__FUNCTION_COUNT__", functions.as_str());
    replace_all(with_functions.as_str(), "__CALL_COUNT__", calls.as_str())
}

/// The reading of a DOT double-quoted string's contents: `\n` is a
/// newline, a backslash takes the next character as it is.
pub open spec fn unescaped_dot(s: Seq<char>) -> Seq<char>
    decreases s.len(),
{
    if s.len() == 0 {
        seq![]
    } else if s[0] == '\\' && s.len() >= 2 {
        seq![if s[1] == 'n' { '\n' } else { s[1] }] + unescaped_dot(s.subrange(2, s.len() as int))
    } else {
        seq![s[0]] + unescaped_dot(s.drop_first())
    }
}

/// Escaping a concatenation escapes each part.
pub proof fn lemma_escaped_dot_append(a: Seq<char>, b: Seq<char>)
    ensures
        escaped_dot(a + b) == escaped_dot(a) + escaped_dot(b),
    decreases b.len(),
{
    if b.len() == 0 {
        assert(a + b =~= a);
        assert(escaped_dot(a) + escaped_dot(b) =~= escaped_dot(a));
    } else {
        lemma_escaped_dot_append(a, b.drop_last());
        assert((a + b).drop_last() =~= a + b.drop_last());
        assert((a + b).last() == b.last());
        assert(escaped_dot(a + b) =~= escaped_dot(a) + escaped_dot(b));
    }
}

/// Escaping for DOT loses nothing: reading the escaped text gives back the
/// string that was escaped.
pub proof fn law_escape_dot_round_trip(s: Seq<char>)
    ensures
        unescaped_dot(escaped_dot(s)) == s,
    decreases s.len(),
{
    if s.len() > 0 {
        let c = s[0];
        let rest = s.drop_first();
        assert(s =~= seq![c] + rest);
        lemma_escaped_dot_append(seq![c], rest);
        assert(seq![c].drop_last() =~= Seq::<char>::empty());
        assert(seq![c].last() == c);
        assert(escaped_dot(Seq::<char>::empty()) =~= Seq::<char>::empty());
        assert(escaped_dot(seq![c]) == escaped_dot(Seq::<char>::empty()) + escaped_char(c));
        assert(escaped_dot(seq![c]) =~= escaped_char(c));
        law_escape_dot_round_trip(rest);
        let e = escaped_char(c) + escaped_dot(rest);
        if c == '\\' || c == '"' || c == '\n' {
            assert(e.subrange(2, e.len() as int) =~= escaped_dot(rest));
        } else {
            assert(e.drop_first() =~= escaped_dot(rest));
        }
    }
}

/// The characters that DOT escaping changes: backslash, quote and newline.
pub open spec fn needs_escape(c: char) -> bool {
    c == '\\' || c == '"' || c == '\n'
}

/// The number of characters of `s` that escaping changes.
pub open spec fn escape_count(s: Seq<char>) -> nat
    decreases s.len(),
{
    if s.len() == 0 {
        0
    } else {
        escape_count(s.drop_last()) + if needs_escape(s.last()) {
            1nat
        } else {
            0nat
        }
    }
}

/// The number of backslashes right before position `k` of `t`.
pub open spec fn backslash_run(t: Seq<char>, k: int) -> nat
    decreases k,
{
    if k <= 0 || k > t.len() || t[k - 1] != '\\' {
        0
    } else {
        1 + backslash_run(t, k - 1)
    }
}

proof fn lemma_backslash_run_prefix(t: Seq<char>, u: Seq<char>, k: int)
    requires
        0 <= k <= t.len(),
    ensures
        backslash_run(t + u, k) == backslash_run(t, k),
    decreases k,
{
    if k > 0 {
        assert((t + u)[k - 1] == t[k - 1]);
        lemma_backslash_run_prefix(t, u, k - 1);
    }
}

/// The shape of DOT escaping: the escaped text holds no raw newline; it is
/// longer than the string by one for each backslash, quote and newline;
/// it ends after an even run of backslashes, and every quote in it follows
/// an odd run of backslashes (so none ends the DOT string).
pub proof fn law_escape_dot_shape(s: Seq<char>)
    ensures
        !escaped_dot(s).contains('\n'),
        escaped_dot(s).len() == s.len() + escape_count(s),
        backslash_run(escaped_dot(s), escaped_dot(s).len() as int) % 2 == 0,
        forall|k: int|
            0 <= k < escaped_dot(s).len() && #[trigger] escaped_dot(s)[k] == '"' ==> backslash_run(escaped_dot(s), k) % 2
                == 1,
    decreases s.len(),
{
    if s.len() > 0 {
        let d = s.drop_last();
        let c = s.last();
        law_escape_dot_shape(d);
        let e = escaped_dot(d);
        let x = escaped_char(c);
        let t = e + x;
        assert(escaped_dot(s) == t);
        assert forall|k: int| 0 <= k <= e.len() implies backslash_run(t, k) == backslash_run(e, k) by {
            lemma_backslash_run_prefix(e, x, k);
        }
        assert(!t.contains('\n')) by {
            if t.contains('\n') {
                let k = choose|k: int| 0 <= k < t.len() && t[k] == '\n';
                if k < e.len() {
                    assert(e[k] == t[k]);
                }
            }
        }
        if c == '\\' {
            assert(backslash_run(t, t.len() - 1) == 1 + backslash_run(t, e.len() as int));
            assert(backslash_run(t, t.len() as int) == 1 + backslash_run(t, t.len() - 1));
        } else if c == '"' {
            assert(backslash_run(t, t.len() - 1) == 1 + backslash_run(t, e.len() as int));
        }
        assert forall|k: int| 0 <= k < t.len() && #[trigger] t[k] == '"' implies backslash_run(t, k) % 2 == 1 by {
            if k < e.len() {
                assert(e[k] == t[k]);
            }
        }
    }
}

/// A string with nothing to escape is its own escape, and escaping never
/// maps two strings to one.
pub proof fn law_escape_dot_plain(s: Seq<char>, other: Seq<char>)
    ensures
        (forall|i: int| 0 <= i < s.len() ==> !needs_escape(#[trigger] s[i])) ==> escaped_dot(s) == s,
        escaped_dot(s) == escaped_dot(other) ==> s == other,
    decreases s.len(),
{
    law_escape_dot_round_trip(s);
    law_escape_dot_round_trip(other);
    if s.len() > 0 {
        law_escape_dot_plain(s.drop_last(), other);
        if forall|i: int| 0 <= i < s.len() ==> !needs_escape(#[trigger] s[i]) {
            assert(!needs_escape(s[s.len() - 1]));
            assert forall|i: int| 0 <= i < s.drop_last().len() implies !needs_escape(#[trigger] s.drop_last()[i]) by {
                assert(s.drop_last()[i] == s[i]);
            }
            assert(s =~= s.drop_last().push(s.last()));
        }
    }
}

/// `p` occurs in `t`.
pub open spec fn occurs(t: Seq<char>, p: Seq<char>) -> bool {
    exists|i: int| 0 <= i && i + p.len() <= t.len() && #[trigger] t.subrange(i, i + p.len()) == p
}

/// No character of `w` is one of `p`'s.
pub open spec fn foreign(w: Seq<char>, p: Seq<char>) -> bool {
    forall|j: int| 0 <= j < w.len() ==> !p.contains(#[trigger] w[j])
}

/// A replacement's start: up to the first character that comes from `w`,
/// the result is the text.
proof fn lemma_replaced_start(t: Seq<char>, p: Seq<char>, w: Seq<char>, avoid: Seq<char>, k: int)
    requires
        p.len() > 0,
        w.len() > 0,
        foreign(w, avoid),
        0 <= k <= replaced(t, p, w).len(),
    ensures
        (k <= t.len() && replaced(t, p, w).subrange(0, k) == t.subrange(0, k)) || exists|j: int|
            0 <= j < k && !avoid.contains(#[trigger] replaced(t, p, w)[j]),
    decreases t.len(),
{
    let r = replaced(t, p, w);
    if k == 0 {
        assert(r.subrange(0, 0) =~= t.subrange(0, 0));
    } else if t.len() < p.len() {
    } else if t.subrange(0, p.len() as int) == p {
        assert(r[0] == w[0]);
        assert(!avoid.contains(w[0]));
    } else {
        let d = t.drop_first();
        let rd = replaced(d, p, w);
        assert(r == seq![t[0]] + rd);
        lemma_replaced_start(d, p, w, avoid, k - 1);
        if k - 1 <= d.len() && rd.subrange(0, k - 1) == d.subrange(0, k - 1) {
            assert(r.subrange(0, k) =~= seq![t[0]] + rd.subrange(0, k - 1));
            assert(t.subrange(0, k) =~= seq![t[0]] + d.subrange(0, k - 1));
        } else {
            let j = choose|j: int| 0 <= j < k - 1 && !avoid.contains(#[trigger] rd[j]);
            assert(r[j + 1] == rd[j]);
        }
    }
}

/// After replacing `p` by a text foreign to `q`, `q` does not occur where it
/// did not before (nor `p` itself, where `q` is `p`).
proof fn lemma_replaced_absent(t: Seq<char>, p: Seq<char>, w: Seq<char>, q: Seq<char>)
    requires
        p.len() > 0,
        w.len() > 0,
        q.len() > 0,
        foreign(w, q),
        q == p || !occurs(t, q),
    ensures
        !occurs(replaced(t, p, w), q),
    decreases t.len(),
{
    let r = replaced(t, p, w);
    if t.len() < p.len() {
        if q == p && occurs(t, q) {
            let i = choose|i: int| 0 <= i && i + q.len() <= t.len() && #[trigger] t.subrange(i, i + q.len()) == q;
        }
    } else if t.subrange(0, p.len() as int) == p {
        let rest = t.subrange(p.len() as int, t.len() as int);
        if q != p && occurs(rest, q) {
            let i = choose|i: int| 0 <= i && i + q.len() <= rest.len() && #[trigger] rest.subrange(i, i + q.len()) == q;
            assert(t.subrange(i + p.len(), i + p.len() + q.len()) =~= rest.subrange(i, i + q.len()));
        }
        lemma_replaced_absent(rest, p, w, q);
        let rr = replaced(rest, p, w);
        assert(r == w + rr);
        if occurs(r, q) {
            let i = choose|i: int| 0 <= i && i + q.len() <= r.len() && #[trigger] r.subrange(i, i + q.len()) == q;
            if i < w.len() {
                assert(r.subrange(i, i + q.len())[0] == w[i]);
                assert(q.contains(q[0]));
                assert(!q.contains(w[i]));
            } else {
                assert(r.subrange(i, i + q.len()) =~= rr.subrange(i - w.len(), i - w.len() + q.len()));
            }
        }
    } else {
        let d = t.drop_first();
        if q != p && occurs(d, q) {
            let i = choose|i: int| 0 <= i && i + q.len() <= d.len() && #[trigger] d.subrange(i, i + q.len()) == q;
            assert(t.subrange(i + 1, i + 1 + q.len()) =~= d.subrange(i, i + q.len()));
        }
        lemma_replaced_absent(d, p, w, q);
        let rd = replaced(d, p, w);
        assert(r == seq![t[0]] + rd);
        if occurs(r, q) {
            let i = choose|i: int| 0 <= i && i + q.len() <= r.len() && #[trigger] r.subrange(i, i + q.len()) == q;
            if i == 0 {
                lemma_replaced_start(t, p, w, q, q.len() as int);
                if q.len() <= t.len() && r.subrange(0, q.len() as int) == t.subrange(0, q.len() as int) {
                    assert(t.subrange(0, q.len() as int) == q);
                } else {
                    let j = choose|j: int| 0 <= j < q.len() && !q.contains(#[trigger] r[j]);
                    assert(r[j] == r.subrange(0, q.len() as int)[j]);
                    assert(q.contains(q[j]));
                }
            } else {
                assert(r.subrange(i, i + q.len()) =~= rd.subrange(i - 1, i - 1 + q.len()));
            }
        }
    }
}

/// A text none of whose characters starts `p` passes through unchanged.
proof fn lemma_replaced_prefix(a: Seq<char>, r: Seq<char>, p: Seq<char>, w: Seq<char>)
    requires
        p.len() > 0,
        forall|j: int| 0 <= j < a.len() ==> #[trigger] a[j] != p[0],
    ensures
        replaced(a + r, p, w) == a + replaced(r, p, w),
    decreases a.len(),
{
    let t = a + r;
    if a.len() == 0 {
        assert(t =~= r);
    } else if t.len() < p.len() {
        assert(replaced(r, p, w) == r);
    } else {
        assert(t.subrange(0, p.len() as int)[0] == a[0]);
        assert(t.drop_first() =~= a.drop_first() + r);
        lemma_replaced_prefix(a.drop_first(), r, p, w);
        assert(a =~= seq![a[0]] + a.drop_first());
    }
}

/// Where `p` does not occur, replacing it changes nothing.
proof fn lemma_replaced_none(t: Seq<char>, p: Seq<char>, w: Seq<char>)
    requires
        p.len() > 0,
        !occurs(t, p),
    ensures
        replaced(t, p, w) == t,
    decreases t.len(),
{
    if t.len() >= p.len() {
        assert(t.subrange(0, 0 + p.len() as int) == t.subrange(0, p.len() as int));
        let d = t.drop_first();
        if occurs(d, p) {
            let i = choose|i: int| 0 <= i && i + p.len() <= d.len() && #[trigger] d.subrange(i, i + p.len()) == p;
            assert(t.subrange(i + 1, i + 1 + p.len()) =~= d.subrange(i, i + p.len()));
        }
        lemma_replaced_none(d, p, w);
        assert(t =~= seq![t[0]] + d);
    }
}

/// Replacing in two texts, the first ending in a character not in `p`, is
/// replacing in each.
proof fn lemma_replaced_split(a: Seq<char>, b: Seq<char>, p: Seq<char>, w: Seq<char>)
    requires
        p.len() > 0,
        a.len() > 0 ==> !p.contains(a.last()),
    ensures
        replaced(a + b, p, w) == replaced(a, p, w) + replaced(b, p, w),
    decreases a.len(),
{
    let t = a + b;
    if a.len() == 0 {
        assert(t =~= b);
        assert(replaced(a, p, w) == a);
        assert(a + replaced(b, p, w) =~= replaced(b, p, w));
    } else if t.len() < p.len() {
        assert(replaced(a, p, w) == a);
        assert(replaced(b, p, w) == b);
    } else if t.subrange(0, p.len() as int) == p {
        if p.len() > a.len() {
            assert(p[a.len() - 1] == t[a.len() - 1]);
            assert(p.contains(a.last()));
        } else {
            assert(a.subrange(0, p.len() as int) =~= t.subrange(0, p.len() as int));
            let rest = a.subrange(p.len() as int, a.len() as int);
            assert(t.subrange(p.len() as int, t.len() as int) =~= rest + b);
            if rest.len() > 0 {
                assert(rest.last() == a.last());
            }
            lemma_replaced_split(rest, b, p, w);
        }
    } else {
        let d = a.drop_first();
        assert(t.drop_first() =~= d + b);
        if d.len() > 0 {
            assert(d.last() == a.last());
        }
        lemma_replaced_split(d, b, p, w);
        if a.len() >= p.len() {
            assert(a.subrange(0, p.len() as int) =~= t.subrange(0, p.len() as int));
        } else {
            assert(replaced(a, p, w) == a);
            assert(replaced(d, p, w) == d);
            assert(a =~= seq![a[0]] + d);
        }
    }
}

/// Replacing keeps a last character that is not in `p`.
proof fn lemma_replaced_last(a: Seq<char>, p: Seq<char>, w: Seq<char>)
    requires
        p.len() > 0,
        a.len() > 0,
        !p.contains(a.last()),
    ensures
        replaced(a, p, w).len() > 0,
        replaced(a, p, w).last() == a.last(),
    decreases a.len(),
{
    if a.len() >= p.len() {
        if a.subrange(0, p.len() as int) == p {
            let rest = a.subrange(p.len() as int, a.len() as int);
            if rest.len() == 0 {
                assert(a =~= p);
                assert(p[p.len() - 1] == a.last());
            } else {
                assert(rest.last() == a.last());
                lemma_replaced_last(rest, p, w);
            }
        } else {
            let d = a.drop_first();
            if d.len() > 0 {
                assert(d.last() == a.last());
                lemma_replaced_last(d, p, w);
            } else {
                assert(replaced(d, p, w) == d);
            }
        }
    }
}

/// The characters of the placeholders: `_` and capital letters.
pub open spec fn placeholder_char(c: char) -> bool {
    c == '_' || ('A' <= c && c <= 'Z')
}

proof fn lemma_viewer_texts()
    ensures
        forall|j: int| 0 <= j < VIEWER_FUNCTION_COUNT@.len() ==> placeholder_char(#[trigger] VIEWER_FUNCTION_COUNT@[j]),
        forall|j: int| 0 <= j < VIEWER_CALL_COUNT@.len() ==> placeholder_char(#[trigger] VIEWER_CALL_COUNT@[j]),
        VIEWER_FUNCTION_COUNT@.len() == 18,
        VIEWER_FUNCTION_COUNT@[0] == '_',
        VIEWER_FUNCTION_COUNT@[2] == 'F',
        VIEWER_CALL_COUNT@.len() == 14,
        VIEWER_CALL_COUNT@[0] == '_',
        forall|j: int| 0 <= j < VIEWER_CALL_COUNT@.len() ==> #[trigger] VIEWER_CALL_COUNT@[j] != 'F',
        forall|j: int| 0 <= j < VIEWER_HEAD@.len() ==> #[trigger] VIEWER_HEAD@[j] != '_',
        forall|j: int| 0 <= j < VIEWER_SUMMARY_OPEN@.len() ==> #[trigger] VIEWER_SUMMARY_OPEN@[j] != '_',
        forall|j: int| 0 <= j < VIEWER_SUMMARY_MIDDLE@.len() ==> #[trigger] VIEWER_SUMMARY_MIDDLE@[j] != '_'
            && VIEWER_SUMMARY_MIDDLE@[j] != 'F',
        forall|j: int| 0 <= j < VIEWER_SUMMARY_CLOSE@.len() ==> #[trigger] VIEWER_SUMMARY_CLOSE@[j] != '_'
            && VIEWER_SUMMARY_CLOSE@[j] != 'F',
        VIEWER_HEAD@ == "<!doctype html>\n"@,
        VIEWER_NEWLINE@ == seq!['\n'],
        VIEWER_SUMMARY_MIDDLE@ == " functions / "@,
        VIEWER_SUMMARY_CLOSE@ == " calls"@ + "</div>\n"@,
        VIEWER_SUMMARY_CLOSE@.len() > 0,
        VIEWER_SUMMARY_CLOSE@.last() == '\n',
{
    reveal_strlit("__FUNCTION_COUNT__");
    reveal_strlit("__CALL_COUNT__");
    reveal_strlit("<!doctype html>\n");
    reveal_strlit("\n");
    reveal_strlit("      <div class=\"summary\">");
    reveal_strlit(" functions / ");
    reveal_strlit(" calls</div>\n");
    reveal_strlit(" calls");
    reveal_strlit("</div>\n");
    assert(" calls</div>\n"@ =~= " calls"@ + "</div>\n"@);
    assert(VIEWER_NEWLINE@ =~= seq!['\n']);
}

/// The viewer page of an analysis starts with `<!doctype html>`, keeps
/// neither placeholder, and says how many functions and calls there are:
/// `N functions / M calls`.
pub proof fn law_html_document(a: Analysis)
    ensures
        html_document(a).len() >= "<!doctype html>\n"@.len(),
        html_document(a).subrange(0, "<!doctype html>\n"@.len() as int) == "<!doctype html>\n"@,
        !occurs(html_document(a), "__FUNCTION_COUNT__"@),
        !occurs(html_document(a), "__CALL_COUNT__"@),
        occurs(
            html_document(a),
            decimal(a.functions@.len()) + " functions / "@ + decimal(a.calls@.len()) + " calls"@,
        ),
{
    lemma_viewer_texts();
    reveal_strlit("__FUNCTION_COUNT__");
    reveal_strlit("__CALL_COUNT__");
    let fp = VIEWER_FUNCTION_COUNT@;
    let cp = VIEWER_CALL_COUNT@;
    assert(fp == "__FUNCTION_COUNT__"@);
    assert(cp == "__CALL_COUNT__"@);
    let dn = decimal(a.functions@.len());
    let dm = decimal(a.calls@.len());
    lemma_decimal_len(a.functions@.len());
    lemma_decimal_len(a.calls@.len());
    lemma_decimal_digits(a.functions@.len());
    lemma_decimal_digits(a.calls@.len());
    let head = VIEWER_HEAD@;
    let open = VIEWER_SUMMARY_OPEN@;
    let middle = VIEWER_SUMMARY_MIDDLE@;
    let close = VIEWER_SUMMARY_CLOSE@;
    let upper = viewer_upper();
    let summary = viewer_summary();
    let lower = viewer_lower();
    let up_rest = VIEWER_UPPER_01@ + VIEWER_UPPER_02@ + VIEWER_NEWLINE@;
    // Characters of the texts that stand next to the placeholders.
    assert forall|c: char| ('0' <= c <= '9' || c == '\n') implies !fp.contains(c) && !cp.contains(c) by {
        if fp.contains(c) {
            let j = choose|j: int| 0 <= j < fp.len() && fp[j] == c;
            assert(placeholder_char(fp[j]));
        }
        if cp.contains(c) {
            let j = choose|j: int| 0 <= j < cp.len() && cp[j] == c;
            assert(placeholder_char(cp[j]));
        }
    }
    assert(foreign(dn, fp) && foreign(dn, cp) && foreign(dm, fp) && foreign(dm, cp));
    assert(upper.last() == '\n') by {
        assert(upper.last() == VIEWER_NEWLINE@.last());
    }
    assert(summary.last() == '\n') by {
        let inner = middle + cp + close;
        assert(inner.last() == close.last());
        assert((fp + inner).last() == inner.last());
        assert(summary.last() == (fp + inner).last());
    }
    // The first replacement.
    let t = viewer_template();
    let r1_upper = replaced(upper, fp, dn);
    let tail = middle + cp + close;
    assert(!occurs(tail, fp)) by {
        if occurs(tail, fp) {
            let i = choose|i: int| 0 <= i && i + fp.len() <= tail.len() && #[trigger] tail.subrange(i, i + fp.len()) == fp;
            assert(tail.subrange(i, i + fp.len())[2] == tail[i + 2]);
            let k = i + 2;
            if k < middle.len() {
                assert(tail[k] == middle[k]);
            } else if k < middle.len() + cp.len() {
                assert(tail[k] == cp[k - middle.len()]);
            } else {
                assert(tail[k] == close[k - middle.len() - cp.len()]);
            }
        }
    }
    let s1 = open + (dn + tail);
    assert(replaced(summary, fp, dn) == s1) by {
        lemma_replaced_prefix(open, fp + tail, fp, dn);
        assert((fp + tail).subrange(0, fp.len() as int) =~= fp);
        assert((fp + tail).subrange(fp.len() as int, (fp + tail).len() as int) =~= tail);
        lemma_replaced_none(tail, fp, dn);
        assert(summary =~= open + (fp + tail));
    }
    lemma_replaced_split(upper + summary, lower, fp, dn);
    lemma_replaced_split(upper, summary, fp, dn);
    assert(upper + summary + lower =~= t);
    let r1_lower = replaced(lower, fp, dn);
    let doc1 = replaced(t, fp, dn);
    assert(doc1 == r1_upper + s1 + r1_lower);
    lemma_replaced_absent(t, fp, dn, fp);
    // The second replacement.
    lemma_replaced_last(upper, fp, dn);
    assert(s1.last() == '\n') by {
        assert(s1.last() == close.last());
    }
    let front = open + dn + middle;
    assert forall|j: int| 0 <= j < front.len() implies #[trigger] front[j] != cp[0] by {
        if j < open.len() {
            assert(front[j] == open[j]);
        } else if j < open.len() + dn.len() {
            assert(front[j] == dn[j - open.len()]);
        } else {
            assert(front[j] == middle[j - open.len() - dn.len()]);
        }
    }
    let s2 = front + (dm + close);
    assert(replaced(s1, cp, dm) == s2) by {
        assert(s1 =~= front + (cp + close));
        lemma_replaced_prefix(front, cp + close, cp, dm);
        assert((cp + close).subrange(0, cp.len() as int) =~= cp);
        assert((cp + close).subrange(cp.len() as int, (cp + close).len() as int) =~= close);
        assert forall|j: int| 0 <= j < close.len() implies #[trigger] close[j] != cp[0] by {}
        lemma_replaced_prefix(close, seq![], cp, dm);
        assert(replaced(Seq::<char>::empty(), cp, dm) == Seq::<char>::empty());
        assert(close + Seq::<char>::empty() =~= close);
    }
    lemma_replaced_split(r1_upper + s1, r1_lower, cp, dm);
    lemma_replaced_split(r1_upper, s1, cp, dm);
    let doc = html_document(a);
    assert(doc == replaced(doc1, cp, dm));
    let r2_upper = replaced(r1_upper, cp, dm);
    assert(doc == r2_upper + s2 + replaced(r1_lower, cp, dm));
    lemma_replaced_absent(doc1, cp, dm, fp);
    lemma_replaced_absent(doc1, cp, dm, cp);
    // The counts.
    let counts = dn + " functions / "@ + dm + " calls"@;
    let at: int = (r2_upper.len() + open.len()) as int;
    assert(doc.subrange(at, at + counts.len()) =~= counts);
    // The first line.
    assert forall|j: int| 0 <= j < head.len() implies #[trigger] head[j] != fp[0] && head[j] != cp[0] by {}
    assert(upper =~= head + up_rest);
    lemma_replaced_prefix(head, up_rest, fp, dn);
    lemma_replaced_prefix(head, replaced(up_rest, fp, dn), cp, dm);
    assert(doc.subrange(0, head.len() as int) =~= head);
}

proof fn lemma_trailing_slashes(r: Seq<char>)
    ensures
        trailing_slashes(r) <= r.len(),
        trailing_slashes(r) < r.len() ==> r[r.len() - trailing_slashes(r) - 1] != '/',
    decreases r.len(),
{
    if r.len() > 0 && r.last() == '/' {
        lemma_trailing_slashes(r.drop_last());
    }
}

proof fn lemma_leading_slashes(s: Seq<char>)
    ensures
        leading_slashes(s) <= s.len(),
    decreases s.len(),
{
    if s.len() > 0 && s[0] == '/' {
        lemma_leading_slashes(s.drop_first());
    }
}

/// A cluster's label is a non-empty end of the trimmed path: the last
/// component alone, or the last two with one `/` between them; it has a
/// `/` exactly when the trimmed path has one, and it is the whole trimmed
/// path when that has at most one `/`.
pub proof fn law_cluster_label(file: Seq<char>)
    requires
        trim_slashes(file).len() > 0,
    ensures
        cluster_label_of(file).len() > 0,
        cluster_label_of(file).len() <= trim_slashes(file).len(),
        trim_slashes(file).subrange(
            trim_slashes(file).len() - cluster_label_of(file).len(),
            trim_slashes(file).len() as int,
        ) == cluster_label_of(file),
        forall|i: int, j: int|
            0 <= i < cluster_label_of(file).len() && 0 <= j < cluster_label_of(file).len()
                && #[trigger] cluster_label_of(file)[i] == '/' && #[trigger] cluster_label_of(file)[j] == '/' ==> i == j,
        cluster_label_of(file).contains('/') == trim_slashes(file).contains('/'),
        (forall|i: int, j: int|
            0 <= i < trim_slashes(file).len() && 0 <= j < trim_slashes(file).len() && #[trigger] trim_slashes(file)[i]
                == '/' && #[trigger] trim_slashes(file)[j] == '/' ==> i == j) ==> cluster_label_of(file)
            == trim_slashes(file),
{
    let t = trim_slashes(file);
    let l = cluster_label_of(file);
    lemma_leading_slashes(file);
    let rest = file.subrange(leading_slashes(file) as int, file.len() as int);
    lemma_trailing_slashes(rest);
    assert(t.last() != '/') by {
        assert(t.last() == rest[rest.len() - trailing_slashes(rest) - 1]);
    }
    let k = last_slash(t);
    lemma_last_index_of(t, '/');
    if k < 0 {
        assert(l == t);
        assert(!t.contains('/')) by {
            if t.contains('/') {
                let p = choose|p: int| 0 <= p < t.len() && t[p] == '/';
            }
        }
        assert(t.subrange(0, t.len() as int) =~= t);
    } else {
        assert(t[k] == '/');
        assert(k < t.len() - 1) by {
            assert(t[t.len() - 1] == t.last());
        }
        let name = t.subrange(k + 1, t.len() as int);
        let front = t.subrange(0, k);
        let k2 = last_slash(front);
        lemma_last_index_of(front, '/');
        let parent = front.subrange(k2 + 1, front.len() as int);
        assert(l == parent + seq!['/'] + name);
        assert(l =~= t.subrange(k2 + 1, t.len() as int));
        assert(t.subrange(t.len() - l.len(), t.len() as int) =~= l);
        assert forall|i: int| 0 <= i < l.len() && #[trigger] l[i] == '/' implies i == k - k2 - 1 by {
            let p = i + k2 + 1;
            assert(t[p] == '/');
            if p < k {
                assert(front[p] == '/');
            }
        }
        assert(l.contains('/')) by {
            assert(l[k - k2 - 1] == '/');
        }
        assert(t.contains('/'));
        if forall|i: int, j: int|
            0 <= i < t.len() && 0 <= j < t.len() && #[trigger] t[i] == '/' && #[trigger] t[j] == '/' ==> i == j {
            if k2 >= 0 {
                assert(front[k2] == '/');
                assert(t[k2] == '/');
            }
            assert(l =~= t);
        }
    }
}

/// A cluster identifier is as long as the path, made of ASCII letters,
/// digits and `_`, and is its own identifier.
pub proof fn law_cluster_id(value: Seq<char>)
    ensures
        cluster_id_of(value).len() == value.len(),
        forall|i: int|
            0 <= i < value.len() ==> is_ascii_alphanumeric(#[trigger] cluster_id_of(value)[i])
                || cluster_id_of(value)[i] == '_',
        cluster_id_of(cluster_id_of(value)) == cluster_id_of(value),
{
    assert(cluster_id_of(cluster_id_of(value)) =~= cluster_id_of(value));
}

/// Function records are ordered by a total preorder.
pub proof fn lemma_function_le_total()
    ensures
        is_total_preorder(function_le()),
{
    assert forall|a: FunctionModel, b: FunctionModel| #[trigger] function_le()(a, b) || function_le()(b, a) by {
        lemma_text_order(a.file, b.file, b.file);
        lemma_text_order(a.name, b.name, b.name);
        lemma_text_order(a.id, b.id, b.id);
    }
    assert forall|a: FunctionModel, b: FunctionModel, c: FunctionModel|
        #[trigger] function_le()(a, b) && #[trigger] function_le()(b, c) implies function_le()(a, c) by {
        lemma_text_order(a.file, b.file, c.file);
        lemma_text_order(a.name, b.name, c.name);
        lemma_text_order(a.id, b.id, c.id);
    }
}

/// Function records sort by file, name, line and id.
pub open spec fn function_le() -> spec_fn(FunctionModel, FunctionModel) -> bool {
    |a: FunctionModel, b: FunctionModel| function_order(a, b) <= 0
}

/// In a DOT document the functions are listed by file, name, line and id,
/// so the functions of one file are listed together: each file has one
/// cluster.
pub proof fn law_dot_functions_grouped(a: Analysis)
    requires
        a.functions@.len() <= usize::MAX,
    ensures
        forall|i: int, j: int|
            0 <= i < j < sorted_items(a.functions@).len() ==> function_order(
                #[trigger] sorted_items(a.functions@)[i]@,
                #[trigger] sorted_items(a.functions@)[j]@,
            ) <= 0,
        forall|i: int, j: int, k: int|
            0 <= i < j < k < sorted_items(a.functions@).len() && #[trigger] sorted_items(a.functions@)[i].file@
                == #[trigger] sorted_items(a.functions@)[k].file@ ==> #[trigger] sorted_items(a.functions@)[j].file@
                == sorted_items(a.functions@)[i].file@,
        forall|i: int, j: int|
            0 <= i < j < sorted_items(a.functions@).len() ==> text_order(
                #[trigger] sorted_items(a.functions@)[i].file@,
                #[trigger] sorted_items(a.functions@)[j].file@,
            ) <= 0,
{
    let fs = sorted_items(a.functions@);
    lemma_function_le_total();
    lemma_sorted_items_views(a.functions@, |f: Function| f@, function_le());
    lemma_sort_by_sorted(a.functions@.map_values(|f: Function| f@), function_le());
    let views = fs.map_values(|f: Function| f@);
    assert forall|i: int, j: int| 0 <= i < j < fs.len() implies function_order(#[trigger] fs[i]@, #[trigger] fs[j]@) <= 0 by {
        assert(views[i] == fs[i]@);
        assert(views[j] == fs[j]@);
        assert(function_le()(views[i], views[j]));
    }
    assert forall|i: int, j: int, k: int|
        0 <= i < j < k < fs.len() && #[trigger] fs[i].file@ == #[trigger] fs[k].file@ implies #[trigger] fs[j].file@ == fs[i].file@ by {
        assert(function_order(fs[i]@, fs[j]@) <= 0);
        assert(function_order(fs[j]@, fs[k]@) <= 0);
        lemma_text_order(fs[i].file@, fs[j].file@, fs[k].file@);
        lemma_text_order(fs[i].file@, fs[k].file@, fs[k].file@);
    }
    assert forall|i: int, j: int| 0 <= i < j < fs.len() implies text_order(#[trigger] fs[i].file@, #[trigger] fs[j].file@)
        <= 0 by {
        assert(function_order(fs[i]@, fs[j]@) <= 0);
    }
}

/// In a DOT document the edges come after the clusters and before the
/// closing brace, one edge line per call (none dropped), for the calls
/// sorted by caller, callee, file and line: the sorted calls are the
/// analysis's calls (as a multiset), in that order, and calls that sort
/// together keep their order in the analysis.
pub proof fn law_dot_edges(a: Analysis)
    requires
        a.calls@.len() <= usize::MAX,
        a.functions@.len() <= usize::MAX,
    ensures
        dot_document(a) == dot_header() + function_entries(sorted_items(a.functions@), a.functions@.len())
            + edge_lines(sorted_items(a.calls@), a.calls@.len()) + "}\n"@,
        line_breaks(edge_lines(sorted_items(a.calls@), a.calls@.len())) == a.calls@.len(),
        forall|k: nat|
            k < a.calls@.len() ==> #[trigger] edge_lines(sorted_items(a.calls@), k + 1) == edge_lines(
                sorted_items(a.calls@),
                k,
            ) + edge_line(sorted_items(a.calls@)[k as int]),
        sorted_items(a.calls@).len() == a.calls@.len(),
        forall|k: int|
            0 <= k < a.calls@.len() ==> #[trigger] sorted_items(a.calls@)[k] == a.calls@[ranked_order(
                a.calls@,
                a.calls@.len(),
            )[k] as int],
        sorted_items(a.calls@).map_values(|c: Call| c@).to_multiset() == a.calls@.map_values(|c: Call| c@).to_multiset(),
        forall|i: int, j: int|
            0 <= i < j < a.calls@.len() ==> call_order(
                #[trigger] sorted_items(a.calls@)[i]@,
                #[trigger] sorted_items(a.calls@)[j]@,
            ) <= 0,
        forall|i: int, j: int|
            0 <= i < j < a.calls@.len() && call_order(
                #[trigger] sorted_items(a.calls@)[i]@,
                #[trigger] sorted_items(a.calls@)[j]@,
            ) <= 0 && call_order(sorted_items(a.calls@)[j]@, sorted_items(a.calls@)[i]@) <= 0 ==> ranked_order(
                a.calls@,
                a.calls@.len(),
            )[i] < ranked_order(a.calls@, a.calls@.len())[j],
{
    let cs = sorted_items(a.calls@);
    let o = ranked_order(a.calls@, a.calls@.len());
    lemma_ranked_order_len(a.calls@, a.calls@.len());
    lemma_ranked_order_len(a.functions@, a.functions@.len());
    lemma_ranked_order_stable(a.calls@, a.calls@.len());
    lemma_edge_lines_breaks(cs, cs.len());
    lemma_call_le_total();
    lemma_sorted_items_views(a.calls@, |c: Call| c@, call_le());
    lemma_sort_by_sorted(a.calls@.map_values(|c: Call| c@), call_le());
    let views = cs.map_values(|c: Call| c@);
    assert forall|i: int, j: int| 0 <= i < j < cs.len() implies call_order(#[trigger] cs[i]@, #[trigger] cs[j]@) <= 0 by {
        assert(views[i] == cs[i]@);
        assert(views[j] == cs[j]@);
        assert(call_le()(views[i], views[j]));
    }
    assert forall|i: int, j: int|
        0 <= i < j < a.calls@.len() && call_order(#[trigger] cs[i]@, #[trigger] cs[j]@) <= 0 && call_order(cs[j]@, cs[i]@)
            <= 0 implies o[i] < o[j] by {
        assert(cs[i] == a.calls@[o[i] as int]);
        assert(cs[j] == a.calls@[o[j] as int]);
        assert(a.calls@[o[i] as int].rank_le(a.calls@[o[j] as int]));
        assert(a.calls@[o[j] as int].rank_le(a.calls@[o[i] as int]));
    }
}

/// In a DOT document there is one cluster per distinct file of the
/// functions, the clusters come in ascending order of file, and inside a
/// cluster the nodes are ordered by name, then line, then id; each
/// function's part is its cluster's opening where it is the first of its
/// file, its node line, and its cluster's closing where it is the last.
pub proof fn law_dot_clusters(a: Analysis)
    requires
        a.functions@.len() <= usize::MAX,
    ensures
        cluster_starts(sorted_items(a.functions@), a.functions@.len()) == files_of(a.functions@).len(),
        files_of(sorted_items(a.functions@)) == files_of(a.functions@),
        forall|i: int, j: int|
            0 <= i < j < sorted_items(a.functions@).len() ==> text_order(
                #[trigger] sorted_items(a.functions@)[i].file@,
                #[trigger] sorted_items(a.functions@)[j].file@,
            ) <= 0,
        forall|i: int, j: int, k: int|
            0 <= i < j < k < sorted_items(a.functions@).len() && #[trigger] sorted_items(a.functions@)[i].file@
                == #[trigger] sorted_items(a.functions@)[k].file@ ==> #[trigger] sorted_items(a.functions@)[j].file@
                == sorted_items(a.functions@)[i].file@,
        forall|i: int, j: int|
            0 <= i < j < sorted_items(a.functions@).len() && #[trigger] sorted_items(a.functions@)[i].file@
                == #[trigger] sorted_items(a.functions@)[j].file@ ==> {
                let f = sorted_items(a.functions@)[i]@;
                let g = sorted_items(a.functions@)[j]@;
                text_order(f.name, g.name) < 0 || (f.name == g.name && (f.line < g.line || (f.line == g.line
                    && text_order(f.id, g.id) <= 0)))
            },
        forall|n: nat|
            n < a.functions@.len() ==> #[trigger] function_entries(sorted_items(a.functions@), n + 1) == function_entries(
                sorted_items(a.functions@),
                n,
            ) + function_entry(sorted_items(a.functions@), n as int),
{
    let fs = sorted_items(a.functions@);
    lemma_dot_cluster_files(a);
    law_dot_functions_grouped(a);
    assert forall|i: int, j: int| 0 <= i < j < fs.len() && #[trigger] fs[i].file@ == #[trigger] fs[j].file@ implies {
        let f = fs[i]@;
        let g = fs[j]@;
        text_order(f.name, g.name) < 0 || (f.name == g.name && (f.line < g.line || (f.line == g.line && text_order(
            f.id,
            g.id,
        ) <= 0)))
    } by {
        lemma_text_order(fs[i].file@, fs[j].file@, fs[j].file@);
        lemma_text_order(fs[i].name@, fs[j].name@, fs[j].name@);
        assert(function_order(fs[i]@, fs[j]@) <= 0);
    }
}

/// The clusters of two lists whose records say the same are the same.
proof fn lemma_function_entries_views(fs: Seq<Function>, gs: Seq<Function>, n: nat)
    requires
        fs.len() == gs.len(),
        n <= fs.len(),
        forall|i: int| 0 <= i < fs.len() ==> #[trigger] fs[i]@ == gs[i]@,
    ensures
        function_entries(fs, n) == function_entries(gs, n),
    decreases n,
{
    if n > 0 {
        lemma_function_entries_views(fs, gs, (n - 1) as nat);
        let i = n - 1;
        assert(fs[i]@ == gs[i]@);
        if i > 0 {
            assert(fs[i - 1]@ == gs[i - 1]@);
        }
        if i + 1 < fs.len() {
            assert(fs[i + 1]@ == gs[i + 1]@);
        }
        assert(node_line(fs[i]) == node_line(gs[i]));
        assert(function_entry(fs, i) == function_entry(gs, i));
    }
}

/// The edges of two lists whose records say the same are the same.
proof fn lemma_edge_lines_views(cs: Seq<Call>, ds: Seq<Call>, n: nat)
    requires
        cs.len() == ds.len(),
        n <= cs.len(),
        forall|i: int| 0 <= i < cs.len() ==> #[trigger] cs[i]@ == ds[i]@,
    ensures
        edge_lines(cs, n) == edge_lines(ds, n),
    decreases n,
{
    if n > 0 {
        lemma_edge_lines_views(cs, ds, (n - 1) as nat);
        assert(cs[n - 1]@ == ds[n - 1]@);
        assert(edge_line(cs[n - 1]) == edge_line(ds[n - 1]));
    }
}

/// The DOT document does not depend on the order of the functions and
/// calls: analyses whose functions and whose calls are the same records
/// (as multisets) give the same document, where no two calls agree on
/// caller, callee, file and line but differ in kind.
pub proof fn law_dot_order_independent(a1: Analysis, a2: Analysis)
    requires
        a1.functions@.len() <= usize::MAX,
        a2.functions@.len() <= usize::MAX,
        a1.calls@.len() <= usize::MAX,
        a2.calls@.len() <= usize::MAX,
        a1.functions@.map_values(|f: Function| f@).to_multiset() == a2.functions@.map_values(|f: Function| f@).to_multiset(),
        a1.calls@.map_values(|c: Call| c@).to_multiset() == a2.calls@.map_values(|c: Call| c@).to_multiset(),
        forall|i: int, j: int|
            0 <= i < a1.calls@.len() && 0 <= j < a1.calls@.len() && #[trigger] a1.calls@[i].caller@ == #[trigger] a1.calls@[j].caller@
                && a1.calls@[i].callee@ == a1.calls@[j].callee@ && a1.calls@[i].file@ == a1.calls@[j].file@
                && a1.calls@[i].line == a1.calls@[j].line ==> a1.calls@[i].kind == a1.calls@[j].kind,
    ensures
        dot_document(a1) == dot_document(a2),
{
    broadcast use vstd::seq_lib::group_to_multiset_ensures;

    let v1 = a1.functions@.map_values(|f: Function| f@);
    let v2 = a2.functions@.map_values(|f: Function| f@);
    let w1 = a1.calls@.map_values(|c: Call| c@);
    let w2 = a2.calls@.map_values(|c: Call| c@);
    lemma_function_le_total();
    lemma_call_le_total();
    lemma_sorted_items_views(a1.functions@, |f: Function| f@, function_le());
    lemma_sorted_items_views(a2.functions@, |f: Function| f@, function_le());
    lemma_sorted_items_views(a1.calls@, |c: Call| c@, call_le());
    lemma_sorted_items_views(a2.calls@, |c: Call| c@, call_le());
    lemma_sort_by_sorted(v1, function_le());
    lemma_sort_by_sorted(v2, function_le());
    lemma_sort_by_sorted(w1, call_le());
    lemma_sort_by_sorted(w2, call_le());
    let sv1 = sort_by(v1, function_le());
    assert forall|a: FunctionModel, b: FunctionModel|
        sv1.contains(a) && sv1.contains(b) && #[trigger] function_le()(a, b) && #[trigger] function_le()(b, a) implies a == b by {
        lemma_text_order(a.file, b.file, b.file);
        lemma_text_order(a.name, b.name, b.name);
        lemma_text_order(a.id, b.id, b.id);
    }
    lemma_sorted_unique(sv1, sort_by(v2, function_le()), function_le());
    let sw1 = sort_by(w1, call_le());
    assert forall|a: CallModel, b: CallModel|
        sw1.contains(a) && sw1.contains(b) && #[trigger] call_le()(a, b) && #[trigger] call_le()(b, a) implies a == b by {
        lemma_text_order(a.caller, b.caller, b.caller);
        lemma_text_order(a.callee, b.callee, b.callee);
        lemma_text_order(a.file, b.file, b.file);
        assert(sw1.to_multiset().count(a) > 0);
        assert(sw1.to_multiset().count(b) > 0);
        assert(w1.contains(a));
        assert(w1.contains(b));
        let i = choose|i: int| 0 <= i < w1.len() && w1[i] == a;
        let j = choose|j: int| 0 <= j < w1.len() && w1[j] == b;
        assert(a1.calls@[i]@ == a);
        assert(a1.calls@[j]@ == b);
    }
    lemma_sorted_unique(sw1, sort_by(w2, call_le()), call_le());
    let fs1 = sorted_items(a1.functions@);
    let fs2 = sorted_items(a2.functions@);
    let cs1 = sorted_items(a1.calls@);
    let cs2 = sorted_items(a2.calls@);
    assert(fs1.len() == fs2.len()) by {
        assert(fs1.map_values(|f: Function| f@).len() == fs2.map_values(|f: Function| f@).len());
    }
    assert forall|i: int| 0 <= i < fs1.len() implies #[trigger] fs1[i]@ == fs2[i]@ by {
        assert(fs1.map_values(|f: Function| f@)[i] == fs2.map_values(|f: Function| f@)[i]);
    }
    assert(cs1.len() == cs2.len()) by {
        assert(cs1.map_values(|c: Call| c@).len() == cs2.map_values(|c: Call| c@).len());
    }
    assert forall|i: int| 0 <= i < cs1.len() implies #[trigger] cs1[i]@ == cs2[i]@ by {
        assert(cs1.map_values(|c: Call| c@)[i] == cs2.map_values(|c: Call| c@)[i]);
    }
    lemma_function_entries_views(fs1, fs2, fs1.len());
    lemma_edge_lines_views(cs1, cs2, cs1.len());
}

/// The number of line breaks in `s`.
pub open spec fn line_breaks(s: Seq<char>) -> nat
    decreases s.len(),
{
    if s.len() == 0 {
        0
    } else {
        line_breaks(s.drop_last()) + if s.last() == '\n' {
            1nat
        } else {
            0nat
        }
    }
}

/// The line breaks of a concatenation are those of its parts.
pub broadcast proof fn lemma_line_breaks_add(a: Seq<char>, b: Seq<char>)
    ensures
        #[trigger] line_breaks(a + b) == line_breaks(a) + line_breaks(b),
    decreases b.len(),
{
    if b.len() == 0 {
        assert(a + b =~= a);
    } else {
        lemma_line_breaks_add(a, b.drop_last());
        assert((a + b).drop_last() =~= a + b.drop_last());
        assert((a + b).last() == b.last());
    }
}

/// A text without a newline has no line break.
pub proof fn lemma_line_breaks_none(s: Seq<char>)
    requires
        !s.contains('\n'),
    ensures
        line_breaks(s) == 0,
    decreases s.len(),
{
    if s.len() > 0 {
        assert(s[s.len() - 1] == s.last());
        assert(!s.drop_last().contains('\n')) by {
            if s.drop_last().contains('\n') {
                let k = choose|k: int| 0 <= k < s.drop_last().len() && s.drop_last()[k] == '\n';
                assert(s[k] == '\n');
            }
        }
        lemma_line_breaks_none(s.drop_last());
    }
}

/// A text whose only newline ends it is one line.
proof fn lemma_line_breaks_one(s: Seq<char>)
    requires
        s.len() > 0,
        s.last() == '\n',
        !s.drop_last().contains('\n'),
    ensures
        line_breaks(s) == 1,
{
    lemma_line_breaks_none(s.drop_last());
}

/// The line breaks of the fixed texts of a DOT document.
proof fn lemma_dot_texts()
    ensures
        line_breaks(DOT_GRAPH_OPEN@) == 1,
        line_breaks(DOT_GRAPH_ATTRIBUTES@) == 1,
        line_breaks(DOT_NODE_ATTRIBUTES@) == 1,
        line_breaks(DOT_EDGE_ATTRIBUTES@) == 1,
        line_breaks("}\n"@) == 1,
        line_breaks(CLUSTER_TAIL@) == 1,
        line_breaks("  }\n"@) == 1,
        line_breaks("  subgraph \"cluster_"@) == 0,
        line_breaks("\" {\n    graph [label=\""@) == 1,
        line_breaks("\", style=\"filled\", fillcolor=\""@) == 0,
        line_breaks("    \""@) == 0,
        line_breaks("\" [label=\""@) == 0,
        line_breaks("\"];\n"@) == 1,
        line_breaks("  \""@) == 0,
        line_breaks("\" -> \""@) == 0,
        line_breaks("\", color=\""@) == 0,
        line_breaks("\", style=\""@) == 0,
        forall|i: int| line_breaks(#[trigger] palette(i)) == 0,
        forall|k: CallKind| line_breaks(#[trigger] call_color_of(k)) == 0,
        forall|k: CallKind| line_breaks(#[trigger] call_style_of(k)) == 0,
{
    reveal_strlit("digraph coviz {\n");
    reveal_strlit("  graph [rankdir=LR, bgcolor=\"#dde5f4\", pad=\"0.35\", nodesep=\"0.6\", ranksep=\"1.0\", splines=true, overlap=false, fontname=\"Helvetica\"];\n");
    reveal_strlit("  node [shape=ellipse, style=\"filled\", fillcolor=\"#b9e1ea\", color=\"#111111\", penwidth=1.6, fontname=\"Helvetica\", fontsize=14, margin=\"0.12,0.08\"];\n");
    reveal_strlit("  edge [color=\"#934f12\", arrowsize=0.75, penwidth=1.2, fontname=\"Helvetica\", fontsize=10];\n");
    reveal_strlit("}\n");
    reveal_strlit("\", color=\"#333333\", penwidth=1.1, fontname=\"Helvetica-Bold\", fontsize=18, margin=14];\n");
    reveal_strlit("  }\n");
    reveal_strlit("  subgraph \"cluster_");
    reveal_strlit("\" {\n    graph [label=\"");
    reveal_strlit("\" {\n");
    reveal_strlit("    graph [label=\"");
    reveal_strlit("\", style=\"filled\", fillcolor=\"");
    reveal_strlit("    \"");
    reveal_strlit("\" [label=\"");
    reveal_strlit("\"];\n");
    reveal_strlit("  \"");
    reveal_strlit("\" -> \"");
    reveal_strlit("\", color=\"");
    reveal_strlit("\", style=\"");
    reveal_strlit("#ffffdd");
    reveal_strlit("#d9f7d8");
    reveal_strlit("#d8ecff");
    reveal_strlit("#eadcff");
    reveal_strlit("#ffe5c7");
    reveal_strlit("#934f12");
    reveal_strlit("#1d6f8f");
    reveal_strlit("#6d4aa1");
    reveal_strlit("#6f7888");
    reveal_strlit("solid");
    reveal_strlit("dashed");
    reveal_strlit("dotted");
    lemma_line_breaks_one(DOT_GRAPH_OPEN@);
    lemma_line_breaks_one(DOT_GRAPH_ATTRIBUTES@);
    lemma_line_breaks_one(DOT_NODE_ATTRIBUTES@);
    lemma_line_breaks_one(DOT_EDGE_ATTRIBUTES@);
    lemma_line_breaks_one("}\n"@);
    lemma_line_breaks_one(CLUSTER_TAIL@);
    lemma_line_breaks_one("  }\n"@);
    lemma_line_breaks_none("  subgraph \"cluster_"@);
    assert("\" {\n    graph [label=\""@ =~= "\" {\n"@ + "    graph [label=\""@);
    lemma_line_breaks_one("\" {\n"@);
    lemma_line_breaks_none("    graph [label=\""@);
    lemma_line_breaks_add("\" {\n"@, "    graph [label=\""@);
    lemma_line_breaks_none("\", style=\"filled\", fillcolor=\""@);
    lemma_line_breaks_none("    \""@);
    lemma_line_breaks_none("\" [label=\""@);
    lemma_line_breaks_one("\"];\n"@);
    lemma_line_breaks_none("  \""@);
    lemma_line_breaks_none("\" -> \""@);
    lemma_line_breaks_none("\", color=\""@);
    lemma_line_breaks_none("\", style=\""@);
    lemma_line_breaks_none("#ffffdd"@);
    lemma_line_breaks_none("#d9f7d8"@);
    lemma_line_breaks_none("#d8ecff"@);
    lemma_line_breaks_none("#eadcff"@);
    lemma_line_breaks_none("#ffe5c7"@);
    lemma_line_breaks_none("#934f12"@);
    lemma_line_breaks_none("#1d6f8f"@);
    lemma_line_breaks_none("#6d4aa1"@);
    lemma_line_breaks_none("#6f7888"@);
    lemma_line_breaks_none("solid"@);
    lemma_line_breaks_none("dashed"@);
    lemma_line_breaks_none("dotted"@);
}

/// An escaped value has no line break.
proof fn lemma_escaped_breaks(s: Seq<char>)
    ensures
        line_breaks(escaped_dot(s)) == 0,
{
    law_escape_dot_shape(s);
    lemma_line_breaks_none(escaped_dot(s));
}

/// A node is one line, an edge is one line, and the opening of a cluster
/// is two.
proof fn lemma_dot_line_breaks(f: Function, c: Call, file: Seq<char>)
    ensures
        line_breaks(node_line(f)) == 1,
        line_breaks(edge_line(c)) == 1,
        line_breaks(cluster_open(file)) == 2,
{
    broadcast use lemma_line_breaks_add;

    lemma_dot_texts();
    lemma_escaped_breaks(f.id@);
    lemma_escaped_breaks(function_label_of(f));
    lemma_escaped_breaks(c.caller@);
    lemma_escaped_breaks(c.callee@);
    lemma_escaped_breaks(call_label_of(c));
    lemma_escaped_breaks(cluster_id_of(file));
    lemma_escaped_breaks(cluster_label_of(file));
    assert(line_breaks(cluster_color_of(file)) == 0);
    assert(line_breaks(call_color_of(c.kind)) == 0);
    assert(line_breaks(call_style_of(c.kind)) == 0);
}

/// The number of the first `n` functions of a list that open a cluster:
/// the first, and each whose file differs from the one before.
pub open spec fn cluster_starts(fs: Seq<Function>, n: nat) -> nat
    decreases n,
{
    if n == 0 {
        0
    } else {
        cluster_starts(fs, (n - 1) as nat) + if n - 1 == 0 || fs[n - 2].file@ != fs[n - 1].file@ {
            1nat
        } else {
            0nat
        }
    }
}

/// The number of the first `n` functions of a list that close a cluster:
/// the last, and each whose file differs from the one after.
pub open spec fn cluster_ends(fs: Seq<Function>, n: nat) -> nat
    decreases n,
{
    if n == 0 {
        0
    } else {
        cluster_ends(fs, (n - 1) as nat) + if n == fs.len() || fs[n as int].file@ != fs[n - 1].file@ {
            1nat
        } else {
            0nat
        }
    }
}

proof fn lemma_cluster_ends_starts(fs: Seq<Function>, n: nat)
    requires
        n < fs.len(),
    ensures
        cluster_ends(fs, n) + 1 == cluster_starts(fs, n + 1),
    decreases n,
{
    assert(cluster_starts(fs, n + 1) == cluster_starts(fs, n) + if n == 0 || fs[n - 1].file@ != fs[n as int].file@ {
        1nat
    } else {
        0nat
    });
    if n > 0 {
        lemma_cluster_ends_starts(fs, (n - 1) as nat);
        assert(cluster_ends(fs, n) == cluster_ends(fs, (n - 1) as nat) + if fs[n as int].file@ != fs[n - 1].file@ {
            1nat
        } else {
            0nat
        });
    }
}

proof fn lemma_function_entries_breaks(fs: Seq<Function>, n: nat)
    requires
        n <= fs.len(),
    ensures
        line_breaks(function_entries(fs, n)) == n + 2 * cluster_starts(fs, n) + cluster_ends(fs, n),
    decreases n,
{
    broadcast use lemma_line_breaks_add;

    if n > 0 {
        lemma_function_entries_breaks(fs, (n - 1) as nat);
        let i = n - 1;
        lemma_dot_line_breaks(fs[i], arbitrary(), fs[i].file@);
        lemma_dot_texts();
        assert(line_breaks(Seq::<char>::empty()) == 0);
    }
}

proof fn lemma_edge_lines_breaks(cs: Seq<Call>, n: nat)
    requires
        n <= cs.len(),
    ensures
        line_breaks(edge_lines(cs, n)) == n,
    decreases n,
{
    broadcast use lemma_line_breaks_add;

    if n > 0 {
        lemma_edge_lines_breaks(cs, (n - 1) as nat);
        lemma_dot_line_breaks(arbitrary(), cs[n - 1], seq![]);
    }
}

/// The files of a list of functions.
pub open spec fn files_of(fs: Seq<Function>) -> Set<Seq<char>> {
    fs.map_values(|f: Function| f.file@).to_set()
}

/// In a list where each file's functions stand together, the clusters
/// are the distinct files.
proof fn lemma_cluster_starts_files(fs: Seq<Function>, n: nat)
    requires
        n <= fs.len(),
        forall|i: int, j: int, k: int|
            0 <= i < j < k < fs.len() && #[trigger] fs[i].file@ == #[trigger] fs[k].file@ ==> #[trigger] fs[j].file@
                == fs[i].file@,
    ensures
        cluster_starts(fs, n) == files_of(fs.take(n as int)).len(),
        files_of(fs.take(n as int)).finite(),
    decreases n,
{
    broadcast use vstd::seq_lib::seq_to_set_is_finite;

    let g = |f: Function| f.file@;
    if n == 0 {
        assert(fs.take(0).map_values(g) =~= Seq::<Seq<char>>::empty());
        assert(files_of(fs.take(0)) =~= Set::<Seq<char>>::empty());
    } else {
        let m = (n - 1) as nat;
        lemma_cluster_starts_files(fs, m);
        let before = fs.take(m as int).map_values(g);
        let x = fs[m as int].file@;
        assert(fs.take(n as int).map_values(g) =~= before.push(x));
        before.lemma_push_to_set_commute(x);
        let set = before.to_set();
        assert(files_of(fs.take(n as int)) == set.insert(x));
        if m == 0 || fs[m - 1].file@ != x {
            assert(!set.contains(x)) by {
                if set.contains(x) {
                    assert(before.contains(x));
                    let k = choose|k: int| 0 <= k < before.len() && before[k] == x;
                    assert(fs[k].file@ == x);
                    if k < m - 1 {
                        assert(fs[m - 1].file@ == fs[k].file@);
                    }
                }
            }
        } else {
            assert(before[m - 1] == x);
            assert(set.contains(x));
            assert(set.insert(x) =~= set);
        }
    }
}

/// The clusters of a DOT document are the distinct files of its functions.
proof fn lemma_dot_cluster_files(a: Analysis)
    requires
        a.functions@.len() <= usize::MAX,
    ensures
        sorted_items(a.functions@).len() == a.functions@.len(),
        cluster_starts(sorted_items(a.functions@), a.functions@.len()) == files_of(a.functions@).len(),
        files_of(sorted_items(a.functions@)) == files_of(a.functions@),
{
    broadcast use vstd::seq_lib::group_to_multiset_ensures;

    let fs = sorted_items(a.functions@);
    lemma_ranked_order_len(a.functions@, a.functions@.len());
    law_dot_functions_grouped(a);
    lemma_cluster_starts_files(fs, fs.len());
    assert(fs.take(fs.len() as int) =~= fs);
    // The sorted functions have the same files as the analysis.
    lemma_function_le_total();
    lemma_sorted_items_views(a.functions@, |f: Function| f@, function_le());
    lemma_sort_by_sorted(a.functions@.map_values(|f: Function| f@), function_le());
    let sv = fs.map_values(|f: Function| f@);
    let v = a.functions@.map_values(|f: Function| f@);
    let g = |f: Function| f.file@;
    assert forall|x: Seq<char>| #[trigger] files_of(fs).contains(x) == files_of(a.functions@).contains(x) by {
        if files_of(fs).contains(x) {
            assert(fs.map_values(g).contains(x));
            let i = choose|i: int| 0 <= i < fs.len() && fs.map_values(g)[i] == x;
            assert(sv[i] == fs[i]@);
            assert(sv.to_multiset().count(sv[i]) > 0);
            assert(v.contains(sv[i]));
            let j = choose|j: int| 0 <= j < v.len() && v[j] == sv[i];
            assert(a.functions@[j]@ == fs[i]@);
            assert(a.functions@.map_values(g)[j] == x);
            assert(a.functions@.map_values(g).contains(x));
        }
        if files_of(a.functions@).contains(x) {
            assert(a.functions@.map_values(g).contains(x));
            let j = choose|j: int| 0 <= j < a.functions@.len() && a.functions@.map_values(g)[j] == x;
            assert(v[j] == a.functions@[j]@);
            assert(v.to_multiset().count(v[j]) > 0);
            assert(sv.contains(v[j]));
            let i = choose|i: int| 0 <= i < sv.len() && sv[i] == v[j];
            assert(fs[i]@ == a.functions@[j]@);
            assert(fs.map_values(g)[i] == x);
            assert(fs.map_values(g).contains(x));
        }
    }
    assert(files_of(fs) =~= files_of(a.functions@));
}

/// A DOT document ends with a line break and has `5 + 3 * d + F + C` lines:
/// four opening lines and the closing brace, three lines for each of the
/// `d` distinct files (the cluster's opening takes two, its closing one),
/// one line for each function and one for each call.
pub proof fn law_dot_lines(a: Analysis)
    requires
        a.functions@.len() <= usize::MAX,
        a.calls@.len() <= usize::MAX,
    ensures
        dot_document(a).last() == '\n',
        line_breaks(dot_document(a)) == 5 + 3 * files_of(a.functions@).len() + a.functions@.len() + a.calls@.len(),
{
    broadcast use lemma_line_breaks_add;
    broadcast use vstd::seq_lib::group_to_multiset_ensures;

    reveal_strlit("}\n");
    lemma_dot_texts();
    let fs = sorted_items(a.functions@);
    let cs = sorted_items(a.calls@);
    lemma_ranked_order_len(a.functions@, a.functions@.len());
    lemma_ranked_order_len(a.calls@, a.calls@.len());
    assert(fs.len() == a.functions@.len());
    assert(cs.len() == a.calls@.len());
    lemma_function_entries_breaks(fs, fs.len());
    lemma_edge_lines_breaks(cs, cs.len());
    if fs.len() > 0 {
        lemma_cluster_ends_starts(fs, (fs.len() - 1) as nat);
    }
    assert(cluster_ends(fs, fs.len()) == cluster_starts(fs, fs.len()));
    lemma_dot_cluster_files(a);
    assert(dot_document(a).last() == '\n') by {
        assert(dot_document(a).last() == "}\n"@.last());
    }
}

} // verus!
