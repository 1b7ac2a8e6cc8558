use coviz::model::{Analysis, Call, CallKind, Function};
use coviz::render::{
    call_color, call_label, call_style, cluster_color, cluster_id, cluster_label, escape_dot,
    function_label, replace_all,
};
use coviz::{render_dot, render_html};

fn function(id: &str, name: &str, file: &str, line: usize) -> Function {
    Function { id: id.to_string(), name: name.to_string(), file: file.to_string(), line }
}

fn call(caller: &str, callee: &str, file: &str, line: usize, kind: CallKind) -> Call {
    Call { caller: caller.to_string(), callee: callee.to_string(), file: file.to_string(), line, kind }
}

#[test]
fn renders_isolated_function_as_dot_node() {
    let analysis = Analysis { functions: vec![function("f0", "main", "main.go", 1)], calls: vec![] };
    let dot = render_dot(&analysis);
    assert!(dot.contains("subgraph \"cluster_main_go\""));
    assert!(dot.contains("\"f0\" [label=\"main\\nmain.go:1\"]"));
}

#[test]
fn analysis_defaults_to_empty_graph() {
    let analysis = Analysis::default();
    assert!(analysis.functions.is_empty());
    assert!(analysis.calls.is_empty());
}

#[test]
fn renders_quick_html() {
    let html = render_html(&Analysis::default());
    assert!(html.contains("<title>coviz quick</title>"));
    assert!(html.contains("0 functions / 0 calls"));
    assert!(html.contains("graph.svg"));
    assert!(html.contains("Wheel zoom / left-drag pan"));
    assert!(html.contains("graph-viewport"));
    assert!(html.contains("source.json"));
    assert!(html.contains("Inspector"));
    assert!(html.contains("toggle-controls"));
    assert!(html.contains("control-panel"));
    assert!(html.contains("coviz.quick.controlsVisible"));
    assert!(html.contains("coviz.quick.inspectorVisible"));
    assert!(html.contains("Graph minimap"));
    assert!(html.contains("Hide isolated"));
    assert!(html.contains("layout-preset"));
    assert!(html.contains("search-next"));
    assert!(html.contains("Open in editor"));
    assert!(html.contains("data-source-mode=\"wide\""));
    assert!(html.contains("stronglyConnectedComponents"));
    assert!(html.contains("drawCanvasFlowGuides"));
    assert!(html.contains("drawCanvasFileClusters"));
    assert!(html.contains("drawCanvasFileEdges"));
    assert!(html.contains("drawCanvasNodeDots"));
    assert!(html.contains("packFileLanes"));
    assert!(html.contains("entrypointRankForFunction"));
    assert!(html.contains("visibleScreenCurve"));
    assert!(html.contains("drawCanvasIsolatedCalls"));
    assert!(html.contains("selectedNeighborhoodCalls"));
    assert!(html.contains("drawCanvasFunctionNodes"));
    assert!(html.contains("<option value=\"all\">All calls</option>"));
    assert!(html.contains("trace-entry"));
    assert!(html.contains("find-path"));
    assert!(html.contains("collapse-clusters"));
    assert!(html.contains("traceGraph"));
    assert!(html.contains("findShortestPath"));
    assert!(html.contains("drawCanvasHighlightedCalls"));
    assert!(html.contains("nodeDisplayVisible"));
    assert!(html.contains("scheduleCanvasDraw"));
}

#[test]
fn quick_html_reports_counts() {
    let analysis = Analysis {
        functions: vec![function("f0", "a", "x.go", 1), function("f1", "b", "x.go", 2)],
        calls: vec![call("f0", "f1", "x.go", 1, CallKind::Direct)],
    };
    let html = render_html(&analysis);
    assert!(html.contains("2 functions / 1 calls"));
    assert!(!html.contains("__FUNCTION_COUNT__"));
    assert!(!html.contains("__CALL_COUNT__"));
}

#[test]
fn renders_complete_dot_document() {
    let analysis = Analysis {
        functions: vec![
            function("f1", "b", "src/b.rs", 7),
            function("f0", "a", "src/a.rs", 3),
            function("f2", "c", "src/a.rs", 9),
        ],
        calls: vec![
            call("f1", "f0", "src/b.rs", 8, CallKind::Method),
            call("f0", "f2", "src/a.rs", 4, CallKind::Associated),
        ],
    };
    let dot = render_dot(&analysis);
    let expected = [
        "digraph coviz {\n",
        "  graph [rankdir=LR, bgcolor=\"#dde5f4\", pad=\"0.35\", nodesep=\"0.6\", ranksep=\"1.0\", splines=true, overlap=false, fontname=\"Helvetica\"];\n",
        "  node [shape=ellipse, style=\"filled\", fillcolor=\"#b9e1ea\", color=\"#111111\", penwidth=1.6, fontname=\"Helvetica\", fontsize=14, margin=\"0.12,0.08\"];\n",
        "  edge [color=\"#934f12\", arrowsize=0.75, penwidth=1.2, fontname=\"Helvetica\", fontsize=10];\n",
        "  subgraph \"cluster_src_a_rs\" {\n",
        "    graph [label=\"src/a.rs\", style=\"filled\", fillcolor=\"#d8ecff\", color=\"#333333\", penwidth=1.1, fontname=\"Helvetica-Bold\", fontsize=18, margin=14];\n",
        "    \"f0\" [label=\"a\\nsrc/a.rs:3\"];\n",
        "    \"f2\" [label=\"c\\nsrc/a.rs:9\"];\n",
        "  }\n",
        "  subgraph \"cluster_src_b_rs\" {\n",
        "    graph [label=\"src/b.rs\", style=\"filled\", fillcolor=\"#eadcff\", color=\"#333333\", penwidth=1.1, fontname=\"Helvetica-Bold\", fontsize=18, margin=14];\n",
        "    \"f1\" [label=\"b\\nsrc/b.rs:7\"];\n",
        "  }\n",
        "  \"f0\" -> \"f2\" [label=\"src/a.rs:4\", color=\"#6d4aa1\", style=\"solid\"];\n",
        "  \"f1\" -> \"f0\" [label=\"src/b.rs:8\", color=\"#1d6f8f\", style=\"dashed\"];\n",
        "}\n",
    ]
    .concat();
    assert_eq!(dot, expected);
}

#[test]
fn escapes_dot_strings() {
    assert_eq!(escape_dot("a\"b\\c\nd"), "a\\\"b\\\\c\\nd");
    assert_eq!(escape_dot("plain"), "plain");
}

#[test]
fn cluster_ids_and_labels() {
    assert_eq!(cluster_id("src/main.rs"), "src_main_rs");
    assert_eq!(cluster_id("é-1"), "__1");
    assert_eq!(cluster_label("/a/b/c.go/"), "b/c.go");
    assert_eq!(cluster_label("main.go"), "main.go");
    assert_eq!(cluster_label("///"), "source");
    assert_eq!(cluster_label("a//b"), "/b");
}

#[test]
fn cluster_colors_follow_byte_sum() {
    // "main.go": 109+97+105+110+46+103+111 = 681, 681 % 5 = 1
    assert_eq!(cluster_color("main.go"), "#d9f7d8");
    assert_eq!(cluster_color(""), "#ffffdd");
    // "é" is bytes 0xC3 0xA9: 195 + 169 = 364, 364 % 5 = 4
    assert_eq!(cluster_color("é"), "#ffe5c7");
}

#[test]
fn labels_colors_and_styles_of_calls() {
    let f = function("f0", "run", "lib.rs", 42);
    assert_eq!(function_label(&f), "run\nlib.rs:42");
    let c = call("f0", "f1", "lib.rs", 120, CallKind::Unknown);
    assert_eq!(call_label(&c), "lib.rs:120");
    assert_eq!(call_color(&c), "#6f7888");
    assert_eq!(call_style(&c), "dotted");
    let d = call("f0", "f1", "lib.rs", 1, CallKind::Direct);
    assert_eq!(call_color(&d), "#934f12");
    assert_eq!(call_style(&d), "solid");
}

#[test]
fn replaces_every_occurrence_from_the_left() {
    assert_eq!(replace_all("aaa", "aa", "b"), "ba");
    assert_eq!(replace_all("x_y_", "_", "--"), "x--y--");
    assert_eq!(replace_all("none", "zz", "q"), "none");
}

#[test]
fn escaping_keeps_to_one_line() {
    let value = "a\\b\"c\nd";
    let escaped = escape_dot(value);
    assert_eq!(escaped, "a\\\\b\\\"c\\nd");
    assert!(!escaped.contains('\n'));
    assert_eq!(escaped.chars().count(), value.chars().count() + 3);
    assert_eq!(escape_dot("plain text"), "plain text");
}

fn sample() -> Analysis {
    Analysis {
        functions: vec![
            function("f0", "main", "cmd/main.go", 3),
            function("f1", "helper", "lib/util.go", 7),
            function("f2", "run", "cmd/main.go", 9),
            function("f3", "quote\"d", "lib/util.go", 1),
        ],
        calls: vec![
            call("f2", "f1", "cmd/main.go", 10, CallKind::Method),
            call("f0", "f2", "cmd/main.go", 4, CallKind::Direct),
            call("f0", "f1", "cmd/main.go", 5, CallKind::Associated),
        ],
    }
}

#[test]
fn dot_lines_follow_files_functions_and_calls() {
    let dot = render_dot(&sample());
    assert!(dot.ends_with("}\n"));
    assert_eq!(dot.lines().count(), 5 + 3 * 2 + 4 + 3);
    let edges: Vec<_> = dot.lines().filter(|l| l.contains(" -> ")).collect();
    assert_eq!(edges.len(), 3);
    assert!(edges[0].starts_with("  \"f0\" -> \"f1\""));
    assert!(edges[1].starts_with("  \"f0\" -> \"f2\""));
    assert!(edges[2].starts_with("  \"f2\" -> \"f1\""));
}

#[test]
fn dot_does_not_depend_on_record_order() {
    let a = sample();
    let mut b = sample();
    b.functions.reverse();
    b.calls.rotate_left(1);
    assert_eq!(render_dot(&a), render_dot(&b));
}

#[test]
fn html_starts_with_doctype_and_fills_counts() {
    let html = render_html(&sample());
    assert!(html.starts_with("<!doctype html>"));
    assert!(html.contains("4 functions / 3 calls"));
    assert!(!html.contains("__FUNCTION_COUNT__"));
    assert!(!html.contains("__CALL_COUNT__"));
}

#[test]
fn cluster_labels_end_the_trimmed_path() {
    assert_eq!(cluster_label("/srv/app/pkg/main.go"), "pkg/main.go");
    assert_eq!(cluster_label("pkg/main.go"), "pkg/main.go");
    assert_eq!(cluster_label("main.go/"), "main.go");
}
