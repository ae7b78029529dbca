use substrace::benchmarks::{create_suggested_text, EnableSinglepassBenchmarks};
use substrace::diagnostics::{Applicability, Diagnostic, Finding, Severity, Span};
use substrace::docs::{check_attrs, get_current_span, strip_doc_comment_decoration, CommentKind};
use substrace::driver::{Crate, Linter};
use substrace::no_panics::LintAttribute;
use substrace::extrinsics::{
    get_index_in_expansion, get_index_in_macro, is_extrinsic_name, AnalysisError, CallVariant, DispatchTable,
};
use substrace::missing_security_doc::DocMarkdown;
use substrace::storage_iter_insert::StorageIterInsert;
use substrace::tree::{Attribute, Expr, ExprKind, FnSig, Item, ItemKind};

fn path(segs: &[&str]) -> Vec<String> {
    segs.iter().map(|s| s.to_string()).collect()
}

fn sp(lo: usize, hi: usize) -> Span {
    Span { lo, hi }
}

fn lit(at: usize) -> Expr {
    Expr { kind: ExprKind::Lit, span: sp(at, at + 1), dispatch: None, children: Vec::new() }
}

/// `T::<op>(args)`, where the path `T::<op>` dispatches to `target`.
fn storage_call(target: &[&str], at: usize, nargs: usize) -> Expr {
    let callee = Expr { kind: ExprKind::Path(None), span: sp(at, at + 7), dispatch: Some(path(target)), children: Vec::new() };
    let mut children = vec![callee];
    for k in 0..nargs {
        children.push(lit(at + 8 + 2 * k));
    }
    Expr { kind: ExprKind::Call, span: sp(at, at + 20), dispatch: None, children }
}

fn block(stmts: Vec<Expr>, has_tail: bool) -> Expr {
    Expr { kind: ExprKind::Block { has_tail }, span: sp(0, 200), dispatch: None, children: stmts }
}

fn sig(name: &str, preceding: &str) -> FnSig {
    FnSig {
        name: name.to_string(),
        span: sp(100, 130),
        line_text: Some(format!("    pub fn {}(origin: u32) -> DispatchResult {{", name)),
        preceding_text: preceding.to_string(),
    }
}

fn fn_item(body: Expr) -> Item {
    Item { attrs: Vec::new(), span: sp(0, 200), kind: ItemKind::Fn { sig: sig("foo", ""), body } }
}

fn krate(items: Vec<Item>) -> Crate {
    Crate { attrs: Vec::new(), items, head: None }
}

fn findings(ds: &[Diagnostic]) -> Vec<Finding> {
    ds.iter().map(|d| d.finding).collect()
}

const MAP_ITER: [&str; 4] = ["frame_support", "storage", "IterableStorageMap", "iter"];
const MAP_SWAP: [&str; 4] = ["frame_support", "storage", "StorageMap", "swap"];
const DMAP_ITER: [&str; 4] = ["frame_support", "storage", "IterableStorageDoubleMap", "iter"];
const DMAP_SWAP: [&str; 4] = ["frame_support", "storage", "StorageDoubleMap", "swap"];

fn empty_table() -> DispatchTable {
    DispatchTable { call_names: Vec::new(), variants: Vec::new() }
}

#[test]
fn iterate_then_swap_on_map_is_flagged_once() {
    let body = block(vec![storage_call(&MAP_ITER, 10, 0), storage_call(&MAP_SWAP, 40, 2)], false);
    let mut linter = Linter::new();
    let ds = linter.lint_crate(&krate(vec![fn_item(body)]), &empty_table()).unwrap();
    assert_eq!(ds.len(), 1);
    assert_eq!(ds[0].finding, Finding::StorageIterInsert);
    assert_eq!(ds[0].span, sp(40, 47));
    assert_eq!(ds[0].severity, Severity::Advisory);
    assert_eq!(ds[0].applicability, Applicability::HasPlaceholders);
    assert_eq!(ds[0].suggestion.as_deref(), Some("#[allow(storage_iter_insert)]..."));
}

#[test]
fn swap_then_iterate_on_double_map_is_not_flagged() {
    let body = block(vec![storage_call(&DMAP_SWAP, 10, 4), storage_call(&DMAP_ITER, 40, 0)], false);
    let mut linter = Linter::new();
    let ds = linter.lint_crate(&krate(vec![fn_item(body)]), &empty_table()).unwrap();
    assert!(ds.is_empty());
}

#[test]
fn iterate_then_swap_on_double_map_is_flagged() {
    let body = block(vec![storage_call(&DMAP_ITER, 10, 0), storage_call(&DMAP_SWAP, 40, 4)], false);
    let mut linter = Linter::new();
    let ds = linter.lint_crate(&krate(vec![fn_item(body)]), &empty_table()).unwrap();
    assert_eq!(findings(&ds), vec![Finding::StorageIterInsert]);
    assert_eq!(ds[0].span, sp(40, 47));
}

#[test]
fn mutate_calls_count_as_mutations() {
    for op in ["mutate", "try_mutate", "try_mutate_exists", "insert", "migrate_key"] {
        let body = block(
            vec![storage_call(&MAP_ITER, 10, 0), storage_call(&["frame_support", "storage", "StorageMap", op], 40, 2)],
            false,
        );
        let mut linter = Linter::new();
        let ds = linter.lint_crate(&krate(vec![fn_item(body)]), &empty_table()).unwrap();
        assert_eq!(findings(&ds), vec![Finding::StorageIterInsert], "{}", op);
    }
}

#[test]
fn double_map_key_migration_counts_as_mutation() {
    let body = block(
        vec![
            storage_call(&DMAP_ITER, 10, 0),
            storage_call(&["frame_support", "storage", "StorageDoubleMap", "migrate_keys"], 40, 2),
        ],
        false,
    );
    let mut linter = Linter::new();
    let ds = linter.lint_crate(&krate(vec![fn_item(body)]), &empty_table()).unwrap();
    assert_eq!(findings(&ds), vec![Finding::StorageIterInsert]);
}

#[test]
fn map_kinds_are_tracked_separately() {
    let body = block(vec![storage_call(&MAP_ITER, 10, 0), storage_call(&DMAP_SWAP, 40, 4)], false);
    let mut linter = Linter::new();
    assert!(linter.lint_crate(&krate(vec![fn_item(body)]), &empty_table()).unwrap().is_empty());
}

#[test]
fn every_storage_call_after_the_hazard_is_flagged() {
    let body = block(
        vec![storage_call(&MAP_ITER, 10, 0), storage_call(&MAP_SWAP, 40, 2), storage_call(&MAP_ITER, 70, 0)],
        false,
    );
    let mut linter = Linter::new();
    let ds = linter.lint_crate(&krate(vec![fn_item(body)]), &empty_table()).unwrap();
    assert_eq!(ds.len(), 2);
    assert_eq!(ds[1].span, sp(70, 77));
}

#[test]
fn state_is_reset_between_bodies() {
    let first = block(vec![storage_call(&MAP_ITER, 10, 0)], false);
    let second = block(vec![storage_call(&MAP_SWAP, 40, 2)], false);
    let mut linter = Linter::new();
    let ds = linter.lint_crate(&krate(vec![fn_item(first), fn_item(second)]), &empty_table()).unwrap();
    assert!(ds.is_empty());
    assert_eq!(linter.storage, StorageIterInsert::new());
}

#[test]
fn detector_steps_directly() {
    let mut s = StorageIterInsert::new();
    assert!(s.check_call(&path(&MAP_ITER)));
    assert!(s.iterating_over_storage_map);
    assert!(s.finalize(sp(0, 1)).is_none());
    assert!(s.check_call(&path(&["frame_support", "storage", "StorageMap", "insert"])));
    assert!(s.finalize(sp(5, 6)).is_some());
    assert!(!s.check_call(&path(&["frame_support", "storage", "StorageMap", "get"])));
    s.check_body_post();
    assert_eq!(s, StorageIterInsert::new());
}

#[test]
fn second_run_gives_the_same_diagnostics() {
    let k = Crate {
        attrs: vec![LintAttribute {
            name: "warn".to_string(),
            items: vec![vec!["clippy".to_string(), "todo".to_string()]],
        }],
        items: vec![
            fn_item(block(vec![storage_call(&MAP_ITER, 10, 0), storage_call(&MAP_SWAP, 40, 2)], false)),
            fn_item(block(vec![storage_call(&DMAP_ITER, 10, 0), storage_call(&DMAP_SWAP, 40, 4)], false)),
        ],
        head: Some("#".to_string()),
    };
    let mut linter = Linter::new();
    let first = linter.lint_crate(&k, &empty_table()).unwrap();
    let second = linter.lint_crate(&k, &empty_table()).unwrap();
    assert_eq!(
        findings(&first),
        vec![Finding::StorageIterInsert, Finding::StorageIterInsert, Finding::MissingPanicLints]
    );
    assert_eq!(format!("{:?}", first), format!("{:?}", second));
}

#[test]
fn panic_lints_are_reported_when_the_crate_is_left() {
    let k = Crate { attrs: Vec::new(), items: Vec::new(), head: Some("u".to_string()) };
    let mut linter = Linter::new();
    let ds = linter.lint_crate(&k, &empty_table()).unwrap();
    assert_eq!(findings(&ds), vec![Finding::MissingPanicLints]);
    assert!(ds[0].suggestion.as_deref().unwrap().ends_with(")]\nu"));
}

fn line_doc(text: &str, lo: usize) -> Attribute {
    Attribute::DocComment { kind: CommentKind::Line, text: text.to_string(), span: sp(lo, lo + 3 + text.len()) }
}

fn hashed_map_alias(attrs: Vec<Attribute>) -> Item {
    Item {
        attrs,
        span: sp(0, 80),
        kind: ItemKind::TyAlias {
            target: Some(path(&["frame_support", "storage", "types", "map", "StorageMap"])),
            type_args: vec![Some(path(&["frame_support", "hash", "Twox64Concat"])), None, None],
        },
    }
}

#[test]
fn security_section_satisfies_the_requirement() {
    let item = hashed_map_alias(vec![
        line_doc(" # Security", 0),
        line_doc("", 15),
        line_doc(" Twox64Concat is allowed because this is a test", 19),
    ]);
    let mut out = Vec::new();
    assert!(DocMarkdown::new(Vec::new()).check_item(&item, &mut out));
    assert!(out.is_empty());
}

#[test]
fn security_section_in_a_block_comment() {
    let text = " # Security\nTwox64Concat is allowed because this is a test";
    let attr = Attribute::DocComment { kind: CommentKind::Block, text: text.to_string(), span: sp(0, 5 + text.len()) };
    let mut out = Vec::new();
    assert!(DocMarkdown::new(Vec::new()).check_item(&hashed_map_alias(vec![attr]), &mut out));
    assert!(out.is_empty());
}

#[test]
fn missing_documentation_is_flagged() {
    let item = hashed_map_alias(Vec::new());
    let mut out = Vec::new();
    assert!(!DocMarkdown::new(Vec::new()).check_item(&item, &mut out));
    assert_eq!(findings(&out), vec![Finding::MissingSecurityDoc]);
    assert_eq!(out[0].severity, Severity::MustFix);
    assert_eq!(out[0].applicability, Applicability::HasPlaceholders);
    assert_eq!(out[0].span, sp(0, 80));
    assert!(out[0].suggestion.as_deref().unwrap().starts_with("/// # Security"));
}

#[test]
fn other_headings_do_not_count() {
    let item = hashed_map_alias(vec![line_doc(" # Safety", 0), line_doc(" Security", 13)]);
    let mut out = Vec::new();
    assert!(!DocMarkdown::new(Vec::new()).check_item(&item, &mut out));
    assert_eq!(findings(&out), vec![Finding::MissingSecurityDoc]);
}

#[test]
fn safe_hashers_need_no_section() {
    let mut item = hashed_map_alias(Vec::new());
    item.kind = ItemKind::TyAlias {
        target: Some(path(&["frame_support", "storage", "types", "map", "StorageMap"])),
        type_args: vec![Some(path(&["frame_support", "hash", "Blake2_128Concat"]))],
    };
    let mut out = Vec::new();
    assert!(!DocMarkdown::new(Vec::new()).check_item(&item, &mut out));
    assert!(out.is_empty());
}

#[test]
fn written_out_doc_attribute_counts_as_documented() {
    let item = hashed_map_alias(vec![line_doc(" Some text", 0), Attribute::RawDoc]);
    let mut out = Vec::new();
    assert!(DocMarkdown::new(Vec::new()).check_item(&item, &mut out));
    assert!(out.is_empty());
}

#[test]
fn heading_split_by_an_entity_is_joined() {
    let mut out = Vec::new();
    let headers = check_attrs(&vec![line_doc(" # Secu&#114;ity", 0)], &mut out);
    assert!(headers.security);
}

#[test]
fn heading_inside_a_link_is_read() {
    let mut out = Vec::new();
    assert!(check_attrs(&vec![line_doc(" # [Security](https://example.com)", 0)], &mut out).security);
}

#[test]
fn unresolved_link_in_heading_is_read() {
    let mut out = Vec::new();
    assert!(check_attrs(&vec![line_doc(" # [Security]", 0)], &mut out).security);
}

#[test]
fn unresolved_link_does_not_fail() {
    let mut out = Vec::new();
    assert!(!check_attrs(&vec![line_doc(" See [Foo] and [a][missing].", 0)], &mut out).security);
    assert!(out.is_empty());
}

#[test]
fn even_backtick_count_is_balanced() {
    let mut out = Vec::new();
    check_attrs(&vec![line_doc(" ``", 0)], &mut out);
    assert!(out.is_empty());
    check_attrs(&vec![line_doc(" a ` b ` c `", 0)], &mut out);
    assert_eq!(findings(&out), vec![Finding::UnbalancedBackticks]);
}

#[test]
fn unbalanced_backticks_are_reported() {
    let mut out = Vec::new();
    let headers = check_attrs(&vec![line_doc(" a `b", 10), line_doc("", 20), line_doc(" fine `c` text", 24)], &mut out);
    assert!(!headers.security);
    assert_eq!(findings(&out), vec![Finding::UnbalancedBackticks]);
    assert_eq!(out[0].severity, Severity::Advisory);
    assert_eq!(out[0].span, sp(13, 18));
}

#[test]
fn backticks_in_code_blocks_are_fine() {
    let mut out = Vec::new();
    check_attrs(&vec![line_doc(" ```", 0), line_doc(" let a = '`';", 7), line_doc(" ```", 24)], &mut out);
    assert!(out.is_empty());
}

#[test]
fn empty_documentation_lacks_the_section() {
    let mut out = Vec::new();
    assert!(!check_attrs(&vec![Attribute::Other], &mut out).security);
    assert!(out.is_empty());
}

#[test]
fn line_comment_loses_its_prefix() {
    let (text, spans) = strip_doc_comment_decoration(" hello", CommentKind::Line, sp(10, 19));
    assert_eq!(text, " hello\n");
    assert_eq!(spans, vec![(7, sp(13, 19))]);
}

#[test]
fn block_comment_stars_become_spaces() {
    let doc = "\n   * # Security\n   * text\n";
    let (text, spans) = strip_doc_comment_decoration(doc, CommentKind::Block, sp(100, 100 + 5 + doc.len()));
    assert_eq!(text, "\n     # Security\n     text\n");
    assert_eq!(spans, vec![(1, sp(103, 132)), (16, sp(104, 132)), (10, sp(120, 132))]);
}

#[test]
fn block_comment_without_stars_is_kept() {
    let doc = " first\n second";
    let (text, spans) = strip_doc_comment_decoration(doc, CommentKind::Block, sp(0, 5 + doc.len()));
    assert_eq!(text, doc);
    assert_eq!(spans, vec![(7, sp(3, 19)), (8, sp(10, 19))]);
}

#[test]
fn stripped_offsets_map_back_to_the_source() {
    let source = "/**\n   * ab\n   * cd\n */";
    let doc = &source[3..source.len() - 2];
    let (text, sizes) = strip_doc_comment_decoration(doc, CommentKind::Block, sp(0, source.len()));
    let mut spans = Vec::new();
    let mut current = 0;
    for (size, span) in sizes {
        spans.push((current, span));
        current += size;
    }
    for (idx, c) in text.char_indices() {
        if idx >= doc.len() {
            break;
        }
        let (begin, span) = get_current_span(&spans, idx);
        let original = source.as_bytes()[span.lo + (idx - begin)] as char;
        assert!(original == c || (original == '*' && c == ' '));
    }
}

#[test]
fn current_span_is_the_last_at_or_before() {
    let spans = vec![(0, sp(3, 9)), (5, sp(20, 30)), (9, sp(40, 50))];
    assert_eq!(get_current_span(&spans, 0), (0, sp(3, 9)));
    assert_eq!(get_current_span(&spans, 7), (5, sp(20, 30)));
    assert_eq!(get_current_span(&spans, 9), (9, sp(40, 50)));
    assert_eq!(get_current_span(&spans, 100), (9, sp(40, 50)));
}

fn table(index: Option<u8>) -> DispatchTable {
    DispatchTable {
        call_names: vec!["foo".to_string(), "bar".to_string()],
        variants: vec![
            CallVariant { name: "bar".to_string(), index: Some(0) },
            CallVariant { name: "foo".to_string(), index },
        ],
    }
}

fn transactional_body() -> Expr {
    let callee = Expr {
        kind: ExprKind::Path(Some(path(&["frame_support", "storage", "transactional", "with_transaction"]))),
        span: sp(150, 166),
        dispatch: None,
        children: Vec::new(),
    };
    let call = Expr { kind: ExprKind::Call, span: sp(150, 180), dispatch: None, children: vec![callee, lit(167)] };
    block(vec![call], true)
}

fn method(name: &str, preceding: &str, body: Expr) -> Item {
    Item { attrs: Vec::new(), span: sp(90, 200), kind: ItemKind::Method { sig: sig(name, preceding), body } }
}

#[test]
fn wrong_call_index_is_corrected() {
    let item = method("foo", "    #[pallet::call_index(1)]\n", transactional_body());
    let mut linter = Linter::new();
    let ds = linter.lint_crate(&krate(vec![item]), &table(Some(2))).unwrap();
    assert_eq!(findings(&ds), vec![Finding::ExtrinsicNotTagged]);
    assert_eq!(ds[0].severity, Severity::MustFix);
    assert_eq!(ds[0].applicability, Applicability::MachineApplicable);
    assert_eq!(ds[0].span, sp(100, 130));
    assert_eq!(
        ds[0].suggestion.as_deref(),
        Some("#[pallet::call_index(2)]\n    pub fn foo(origin: u32) -> DispatchResult {")
    );
}

#[test]
fn unreadable_signature_line_gives_no_rewrite() {
    let mut item = method("foo", "", block(vec![lit(150)], true));
    if let ItemKind::Method { sig, .. } = &mut item.kind {
        sig.line_text = None;
    }
    let mut linter = Linter::new();
    let ds = linter.lint_crate(&krate(vec![item]), &table(Some(2))).unwrap();
    assert_eq!(findings(&ds), vec![Finding::ExtrinsicNotTagged, Finding::MissingTransactional]);
    for d in &ds {
        assert!(d.suggestion.is_none());
        assert_eq!(d.applicability, Applicability::Unspecified);
        assert_eq!(d.severity, Severity::MustFix);
    }
}

#[test]
fn missing_call_index_is_added() {
    let item = method("foo", "", transactional_body());
    let mut linter = Linter::new();
    let ds = linter.lint_crate(&krate(vec![item]), &table(Some(123))).unwrap();
    assert_eq!(findings(&ds), vec![Finding::ExtrinsicNotTagged]);
    assert!(ds[0].suggestion.as_deref().unwrap().starts_with("#[pallet::call_index(123)]\n"));
}

#[test]
fn right_call_index_and_wrapper_pass() {
    let item = method("foo", "    #[pallet::call_index(2)]\n", transactional_body());
    let mut linter = Linter::new();
    assert!(linter.lint_crate(&krate(vec![item]), &table(Some(2))).unwrap().is_empty());
}

#[test]
fn missing_transaction_wrapper_is_flagged_once() {
    let body = block(vec![lit(150)], true);
    let item = method("foo", "    #[pallet::call_index(2)]\n", body);
    let mut linter = Linter::new();
    let ds = linter.lint_crate(&krate(vec![item]), &table(Some(2))).unwrap();
    assert_eq!(findings(&ds), vec![Finding::MissingTransactional]);
    assert_eq!(ds[0].severity, Severity::MustFix);
    assert_eq!(
        ds[0].suggestion.as_deref(),
        Some("#[transactional]\n    pub fn foo(origin: u32) -> DispatchResult {")
    );
}

#[test]
fn functions_that_are_not_extrinsics_are_not_checked() {
    let item = method("helper", "", block(Vec::new(), false));
    let mut linter = Linter::new();
    assert!(linter.lint_crate(&krate(vec![item]), &table(Some(2))).unwrap().is_empty());
}

#[test]
fn extrinsic_without_call_index_fails_the_analysis() {
    let item = method("foo", "", transactional_body());
    let mut linter = Linter::new();
    let r = linter.lint_crate(&krate(vec![item]), &table(None));
    assert_eq!(r.unwrap_err(), AnalysisError::MissingCallIndex);
}

#[test]
fn dispatch_table_lookups() {
    let t = table(Some(5));
    assert!(is_extrinsic_name("foo", &t));
    assert!(!is_extrinsic_name("baz", &t));
    assert_eq!(get_index_in_expansion("foo", &t), Ok(5));
    assert_eq!(get_index_in_expansion("bar", &t), Ok(0));
    assert_eq!(get_index_in_expansion("baz", &t), Err(AnalysisError::MissingCallIndex));
}

#[test]
fn call_index_is_read_from_the_annotation() {
    assert_eq!(get_index_in_macro("#[pallet::call_index(7)]\n"), Some(7));
    assert_eq!(get_index_in_macro("#[pallet::call_index(3)]\n#[pallet::call_index(+9)]\n"), Some(9));
    assert_eq!(get_index_in_macro("#[pallet::call_index(256)]\n"), None);
    assert_eq!(get_index_in_macro("#[pallet::call_index()]\n"), None);
    assert_eq!(get_index_in_macro("#[pallet::weight(1)]\n"), None);
    assert_eq!(get_index_in_macro(""), None);
}

#[test]
fn benchmark_cfg_gains_test() {
    assert_eq!(
        create_suggested_text("#[cfg(any(feature = \"runtime-benchmarks\", other_key = \"other-value\"))]"),
        "#[cfg(any(test, feature = \"runtime-benchmarks\", other_key = \"other-value\"))]"
    );
    assert_eq!(
        create_suggested_text("#[cfg(feature = \"runtime-benchmarks\")]"),
        "#[cfg(any(test, feature = \"runtime-benchmarks\"))]"
    );
}

#[test]
fn benchmark_warning_names_the_place_and_the_fix() {
    let msg = EnableSinglepassBenchmarks.warning_message("#[cfg(feature = \"runtime-benchmarks\")]", 1042, "src/lib.rs");
    assert_eq!(
        msg,
        "substrace: benchmarks not run in tests.\nFound:\n#[cfg(feature = \"runtime-benchmarks\")]\nat line 1042 in src/lib.rs. Suggested replacement:\n#[cfg(any(test, feature = \"runtime-benchmarks\"))]"
    );
}
